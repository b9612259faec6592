//! Reconciling one channel of the package table with a snapshot.
//!
//! The steps are those that any store of the table has to take: read the
//! names that the channel offers, clear the channel for those that the
//! snapshot no longer mentions, and write the packages of the snapshot in
//! batches of bounded size.

use vstd::prelude::*;
use vstd::hash_map::StringHashMap;
use vstd::hash_set::StringHashSet;
use vstd::slice::slice_subrange;
use crate::channel::Channel;
use crate::descriptor::{Package, PackageView, package_views};
use crate::model::{
    TableView, cleared, distinct, first_mention, lemma_distinct, lemma_first_mention,
    lemma_mentions_push, lemma_upserted_nothing, lemma_upserted_step, mentions, offered,
    reconciled, stale, upserted,
};
use crate::table::PackageTable;
use crate::text::{text_set, texts};

verus! {

/// The greatest number of packages that are written at once.
pub const BATCH_SIZE: usize = 1000;

/// Where the batch that starts at `from` ends, in a snapshot of `len`
/// packages.
pub open spec fn batch_end_of(from: int, len: int) -> int {
    if len - from > BATCH_SIZE {
        from + BATCH_SIZE
    } else {
        len
    }
}

/// Where the batch that starts at `from` ends, in a snapshot of `len`
/// packages.
pub fn batch_end(from: usize, len: usize) -> (to: usize)
    ensures
        to == batch_end_of(from as int, len as int),
{
    if len > from && len - from > BATCH_SIZE {
        from + BATCH_SIZE
    } else {
        len
    }
}

/// The snapshot with one package for each name: the package that came first
/// under the name, with the version that came last under it. A store that
/// cannot write one name twice at once is handed this.
pub fn distinct_packages(snapshot: &[Package]) -> (few: Vec<Package>)
    ensures
        package_views(few@) == distinct(package_views(snapshot@)),
{
    let ghost views = package_views(snapshot@);
    let mut few: Vec<Package> = Vec::new();
    let mut place = StringHashMap::<usize>::new();
    let mut i: usize = 0;
    assert(views.take(0) =~= Seq::<PackageView>::empty());
    assert(package_views(few@) =~= distinct(views.take(0)));
    while i < snapshot.len()
        invariant
            i <= snapshot@.len(),
            views == package_views(snapshot@),
            package_views(few@) == distinct(views.take(i as int)),
            forall|name: Seq<char>|
                place@.contains_key(name) <==> mentions(package_views(few@), name),
            forall|name: Seq<char>| #[trigger]
                place@.contains_key(name) ==> place@[name] < few@.len() && few@[place@[name] as int].name@
                    == name,
        decreases snapshot@.len() - i,
    {
        let ghost before = package_views(few@);
        let ghost package = snapshot@[i as int]@;
        proof {
            assert(views.take(i + 1).drop_last() =~= views.take(i as int));
            assert(views.take(i + 1).last() == package);
            lemma_distinct(views.take(i as int));
            lemma_first_mention(before, package.name);
        }
        let found = match place.get(snapshot[i].name.as_str()) {
            Some(at) => Some(*at),
            None => None,
        };
        match found {
            Some(at) => {
                proof {
                    assert(before[at as int].name == package.name);
                    let first = first_mention(before, package.name);
                    if first != at {
                        if first < at {
                            assert(before[first].name != before[at as int].name);
                        } else {
                            assert(before[at as int].name != before[first].name);
                        }
                    }
                }
                few[at].version = snapshot[i].version.clone();
                proof {
                    let after = package_views(few@);
                    assert(after =~= before.update(
                        at as int,
                        PackageView { version: package.version, ..before[at as int] },
                    ));
                    assert forall|name: Seq<char>| mentions(after, name) <==> mentions(
                        before,
                        name,
                    ) by {
                        if mentions(after, name) {
                            let k = choose|k: int| 0 <= k < after.len() && (#[trigger] after[k]).name == name;
                            assert(before[k].name == name);
                        }
                        if mentions(before, name) {
                            let k = choose|k: int| 0 <= k < before.len() && (#[trigger] before[k]).name == name;
                            assert(after[k].name == name);
                        }
                    }
                }
            },
            None => {
                place.insert(snapshot[i].name.clone(), few.len());
                few.push(
                    Package {
                        name: snapshot[i].name.clone(),
                        base: snapshot[i].base.clone(),
                        version: snapshot[i].version.clone(),
                    },
                );
                proof {
                    let after = package_views(few@);
                    assert(after =~= before.push(package));
                    assert forall|name: Seq<char>|
                        place@.contains_key(name) <==> mentions(after, name) by {
                        lemma_mentions_push(before, package, name);
                    }
                }
            },
        }
        i = i + 1;
    }
    assert(views.take(snapshot@.len() as int) =~= views);
    few
}

/// The test that a name passes when the snapshot does not mention it.
pub open spec fn unmentioned(snapshot: Seq<PackageView>) -> spec_fn(Seq<char>) -> bool {
    |name: Seq<char>| !mentions(snapshot, name)
}

/// The names among `current` that `snapshot` does not mention, in their
/// order.
pub fn stale_names(current: &[String], snapshot: &[Package]) -> (gone: Vec<String>)
    ensures
        texts(gone@) == texts(current@).filter(unmentioned(package_views(snapshot@))),
{
    let ghost views = package_views(snapshot@);
    let mut present = StringHashSet::new();
    let mut i: usize = 0;
    while i < snapshot.len()
        invariant
            i <= snapshot@.len(),
            views == package_views(snapshot@),
            forall|name: Seq<char>| present@.contains(name) <==> mentions(views.take(i as int), name),
        decreases snapshot@.len() - i,
    {
        proof {
            assert(views.take(i as int).push(views[i as int]) =~= views.take(i + 1));
            assert forall|name: Seq<char>|
                present@.insert(snapshot@[i as int].name@).contains(name) <==> mentions(
                    views.take(i + 1),
                    name,
                ) by {
                lemma_mentions_push(views.take(i as int), views[i as int], name);
            }
        }
        present.insert(snapshot[i].name.clone());
        i = i + 1;
    }
    assert(views.take(snapshot@.len() as int) =~= views);
    let mut gone: Vec<String> = Vec::new();
    let mut k: usize = 0;
    proof {
        reveal(Seq::filter);
        assert(texts(current@.take(0)) =~= Seq::<Seq<char>>::empty());
        assert(texts(gone@) =~= Seq::<Seq<char>>::empty());
    }
    while k < current.len()
        invariant
            k <= current@.len(),
            forall|name: Seq<char>| present@.contains(name) <==> mentions(views, name),
            texts(gone@) == texts(current@.take(k as int)).filter(unmentioned(views)),
        decreases current@.len() - k,
    {
        proof {
            reveal(Seq::filter);
            let longer = texts(current@.take(k + 1));
            assert(longer.drop_last() =~= texts(current@.take(k as int)));
            assert(longer.last() == current@[k as int]@);
        }
        let ghost before = gone@;
        if !present.contains(current[k].as_str()) {
            gone.push(current[k].clone());
            assert(texts(gone@) =~= texts(before).push(current@[k as int]@));
        }
        k = k + 1;
    }
    assert(current@.take(current@.len() as int) =~= current@);
    gone
}

/// The texts of the names that pass a test are the names of the set that
/// pass it.
pub proof fn lemma_filtered_set(names: Seq<String>, kept: Seq<String>, test: spec_fn(Seq<char>) -> bool)
    requires
        texts(kept) == texts(names).filter(test),
    ensures
        text_set(kept) == text_set(names).filter(test),
{
    let all = texts(names);
    let some = texts(kept);
    assert forall|name: Seq<char>| text_set(kept).contains(name) <==> text_set(names).filter(
        test,
    ).contains(name) by {
        if text_set(kept).contains(name) {
            let i = choose|i: int| 0 <= i < kept.len() && (#[trigger] kept[i])@ == name;
            assert(some[i] == name);
            all.lemma_filter_pred(test, i);
            lemma_filter_from(all, test, i);
            let j = choose|j: int| 0 <= j < all.len() && all[j] == some[i];
            assert(names[j]@ == name);
        }
        if text_set(names).filter(test).contains(name) {
            let j = choose|j: int| 0 <= j < names.len() && (#[trigger] names[j])@ == name;
            assert(all[j] == name);
            all.lemma_filter_contains(test, j);
            let i = choose|i: int| 0 <= i < some.len() && some[i] == name;
            assert(kept[i]@ == name);
        }
    }
    assert(text_set(kept) =~= text_set(names).filter(test));
}

/// What passes a test was there before.
proof fn lemma_filter_from<A>(all: Seq<A>, test: spec_fn(A) -> bool, i: int)
    requires
        0 <= i < all.filter(test).len(),
    ensures
        exists|j: int| 0 <= j < all.len() && all[j] == all.filter(test)[i],
    decreases all.len(),
{
    reveal(Seq::filter);
    if all.len() > 0 {
        let front = all.drop_last();
        if test(all.last()) && i == front.filter(test).len() {
            assert(all[all.len() - 1] == all.filter(test)[i]);
        } else {
            lemma_filter_from(front, test, i);
            let j = choose|j: int| 0 <= j < front.len() && front[j] == front.filter(test)[i];
            assert(all[j] == all.filter(test)[i]);
        }
    }
}

/// Writing a snapshot in two parts gives what writing it at once gives.
pub proof fn lemma_upserted_in_parts(
    table: TableView,
    channel: Channel,
    category: Seq<char>,
    first: Seq<PackageView>,
    second: Seq<PackageView>,
)
    ensures
        upserted(upserted(table, channel, category, first), channel, category, second) == upserted(
            table,
            channel,
            category,
            first + second,
        ),
    decreases second.len(),
{
    if second.len() == 0 {
        lemma_upserted_nothing(upserted(table, channel, category, first), channel, category);
        assert(second =~= Seq::<PackageView>::empty());
        assert(first + second =~= first);
    } else {
        let front = second.drop_last();
        let package = second.last();
        lemma_upserted_in_parts(table, channel, category, first, front);
        lemma_upserted_step(
            upserted(table, channel, category, first),
            channel,
            category,
            front,
            package,
        );
        lemma_upserted_step(table, channel, category, first + front, package);
        assert(front.push(package) =~= second);
        assert((first + front).push(package) =~= first + second);
    }
}

/// The steps of a reconciliation give the reconciled table on any store:
/// read the names that the channel offers of the category, clear the channel
/// for those that `stale_names` keeps, write the snapshot.
pub proof fn lemma_steps_reconcile(
    table: TableView,
    channel: Channel,
    category: Seq<char>,
    snapshot: Seq<PackageView>,
    current: Seq<String>,
    gone: Seq<String>,
)
    requires
        text_set(current) == offered(table, channel, category),
        texts(gone) == texts(current).filter(unmentioned(snapshot)),
    ensures
        upserted(cleared(table, channel, text_set(gone)), channel, category, snapshot)
            == reconciled(table, channel, category, snapshot),
{
    lemma_filtered_set(current, gone, unmentioned(snapshot));
    assert(text_set(gone) =~= stale(table, channel, category, snapshot));
}

impl PackageTable {
    /// Reconciles `channel` with a snapshot of `category`.
    pub fn reconcile(&mut self, channel: Channel, category: &str, snapshot: &[Package])
        requires
            old(self).wf(),
        ensures
            final(self).wf(),
            final(self)@ == reconciled(
                old(self)@,
                channel,
                category@,
                package_views(snapshot@),
            ),
    {
        let ghost views = package_views(snapshot@);
        let current = self.names_in_channel(channel, category);
        let gone = stale_names(current.as_slice(), snapshot);
        proof {
            lemma_steps_reconcile(old(self)@, channel, category@, views, current@, gone@);
        }
        self.clear_channel(channel, gone.as_slice());
        let ghost base = self@;
        let mut from: usize = 0;
        proof {
            lemma_upserted_nothing(base, channel, category@);
            assert(views.subrange(0, 0) =~= Seq::<PackageView>::empty());
        }
        while from < snapshot.len()
            invariant
                self.wf(),
                views == package_views(snapshot@),
                from <= snapshot@.len(),
                self@ == upserted(base, channel, category@, views.subrange(0, from as int)),
            decreases snapshot@.len() - from,
        {
            let to = batch_end(from, snapshot.len());
            proof {
                lemma_upserted_in_parts(
                    base,
                    channel,
                    category@,
                    views.subrange(0, from as int),
                    views.subrange(from as int, to as int),
                );
                assert(views.subrange(0, from as int) + views.subrange(from as int, to as int)
                    =~= views.subrange(0, to as int));
                assert(package_views(snapshot@.subrange(from as int, to as int))
                    =~= views.subrange(from as int, to as int));
            }
            self.upsert_batch(channel, category, slice_subrange(snapshot, from, to));
            from = to;
        }
        assert(views.subrange(0, snapshot@.len() as int) =~= views);
    }
}

} // verus!
