//! What reconciliation does to the package table, stated on maps.
//!
//! The table is a map from package names to rows. Reconciling a channel with
//! a snapshot first clears the channel in the rows of the category that the
//! snapshot no longer mentions, and then gives every package that the
//! snapshot mentions its version for the channel, in a new row where the
//! package had none.

use vstd::prelude::*;
use crate::channel::Channel;
use crate::descriptor::PackageView;
use crate::record::RecordView;

verus! {

/// The package table as the contracts see it: the row of each name.
pub type TableView = Map<Seq<char>, RecordView>;

/// The snapshot holds a package of that name.
pub open spec fn mentions(snapshot: Seq<PackageView>, name: Seq<char>) -> bool {
    exists|i: int| 0 <= i < snapshot.len() && (#[trigger] snapshot[i]).name == name
}

/// The place of the first package of that name in the snapshot, or -1.
pub open spec fn first_mention(snapshot: Seq<PackageView>, name: Seq<char>) -> int
    decreases snapshot.len(),
{
    if snapshot.len() == 0 {
        -1
    } else {
        let earlier = first_mention(snapshot.drop_last(), name);
        if earlier >= 0 {
            earlier
        } else if snapshot.last().name == name {
            snapshot.len() - 1
        } else {
            -1
        }
    }
}

/// The place of the last package of that name in the snapshot, or -1.
pub open spec fn last_mention(snapshot: Seq<PackageView>, name: Seq<char>) -> int
    decreases snapshot.len(),
{
    if snapshot.len() == 0 {
        -1
    } else if snapshot.last().name == name {
        snapshot.len() - 1
    } else {
        last_mention(snapshot.drop_last(), name)
    }
}

/// `first_mention` is the least place at which the snapshot holds the name.
pub proof fn lemma_first_mention(snapshot: Seq<PackageView>, name: Seq<char>)
    ensures
        mentions(snapshot, name) <==> first_mention(snapshot, name) >= 0,
        -1 <= first_mention(snapshot, name) < snapshot.len(),
        first_mention(snapshot, name) >= 0 ==> snapshot[first_mention(snapshot, name)].name == name,
        forall|i: int|
            0 <= i < snapshot.len() && (#[trigger] snapshot[i]).name == name ==> first_mention(
                snapshot,
                name,
            ) <= i,
    decreases snapshot.len(),
{
    if snapshot.len() > 0 {
        let front = snapshot.drop_last();
        lemma_first_mention(front, name);
        let f = first_mention(snapshot, name);
        if f >= 0 {
            assert(snapshot[f].name == name);
        }
        assert forall|i: int| 0 <= i < snapshot.len() && (#[trigger] snapshot[i]).name == name
            implies f <= i && f >= 0 by {
            if i < front.len() {
                assert(front[i].name == name);
            }
        }
    }
}

/// `last_mention` is the greatest place at which the snapshot holds the name.
pub proof fn lemma_last_mention(snapshot: Seq<PackageView>, name: Seq<char>)
    ensures
        mentions(snapshot, name) <==> last_mention(snapshot, name) >= 0,
        -1 <= last_mention(snapshot, name) < snapshot.len(),
        last_mention(snapshot, name) >= 0 ==> snapshot[last_mention(snapshot, name)].name == name,
        forall|i: int|
            0 <= i < snapshot.len() && (#[trigger] snapshot[i]).name == name ==> i <= last_mention(
                snapshot,
                name,
            ),
    decreases snapshot.len(),
{
    if snapshot.len() > 0 {
        let front = snapshot.drop_last();
        lemma_last_mention(front, name);
        let l = last_mention(snapshot, name);
        if l >= 0 {
            assert(snapshot[l].name == name);
        }
        assert forall|i: int| 0 <= i < snapshot.len() && (#[trigger] snapshot[i]).name == name
            implies i <= l && l >= 0 by {
            if i < front.len() {
                assert(front[i].name == name);
            }
        }
    }
}

/// The snapshot with one package for each name: the package that came first
/// under the name, with the version that came last under it.
pub open spec fn distinct(snapshot: Seq<PackageView>) -> Seq<PackageView>
    decreases snapshot.len(),
{
    if snapshot.len() == 0 {
        Seq::empty()
    } else {
        let before = distinct(snapshot.drop_last());
        let package = snapshot.last();
        let at = first_mention(before, package.name);
        if at >= 0 {
            before.update(at, PackageView { version: package.version, ..before[at] })
        } else {
            before.push(package)
        }
    }
}

/// `distinct` holds every name of the snapshot once, with the base that the
/// snapshot gives first and the version that it gives last for the name.
pub proof fn lemma_distinct(snapshot: Seq<PackageView>)
    ensures
        forall|i: int, j: int|
            0 <= i < j < distinct(snapshot).len() ==> (#[trigger] distinct(snapshot)[i]).name != (
            #[trigger] distinct(snapshot)[j]).name,
        forall|name: Seq<char>| mentions(distinct(snapshot), name) <==> mentions(snapshot, name),
        forall|i: int|
            0 <= i < distinct(snapshot).len() ==> (#[trigger] distinct(snapshot)[i]).base
                == snapshot[first_mention(snapshot, distinct(snapshot)[i].name)].base && distinct(
                snapshot,
            )[i].version == snapshot[last_mention(snapshot, distinct(snapshot)[i].name)].version,
    decreases snapshot.len(),
{
    if snapshot.len() > 0 {
        let front = snapshot.drop_last();
        let before = distinct(front);
        let package = snapshot.last();
        let after = distinct(snapshot);
        let at = first_mention(before, package.name);
        lemma_distinct(front);
        lemma_first_mention(before, package.name);
        assert(front.push(package) =~= snapshot);
        assert forall|i: int, j: int| 0 <= i < j < after.len() implies (#[trigger] after[i]).name != (
        #[trigger] after[j]).name by {
            if at < 0 {
                if j == before.len() {
                    assert(before[i].name != package.name);
                } else {
                    assert(before[i].name != before[j].name);
                }
            } else {
                assert(before[i].name != before[j].name);
            }
        }
        assert forall|name: Seq<char>| mentions(after, name) <==> mentions(snapshot, name) by {
            lemma_mentions_push(front, package, name);
            if at < 0 {
                lemma_mentions_push(before, package, name);
            } else {
                if mentions(after, name) {
                    let i = choose|i: int| 0 <= i < after.len() && (#[trigger] after[i]).name == name;
                    assert(before[i].name == name);
                }
                if mentions(before, name) {
                    let i = choose|i: int| 0 <= i < before.len() && (#[trigger] before[i]).name == name;
                    assert(after[i].name == name);
                }
            }
        }
        assert forall|i: int| 0 <= i < after.len() implies (#[trigger] after[i]).base
            == snapshot[first_mention(snapshot, after[i].name)].base && after[i].version
            == snapshot[last_mention(snapshot, after[i].name)].version by {
            let name = after[i].name;
            lemma_first_mention(front, name);
            lemma_last_mention(front, name);
            lemma_first_mention(snapshot, name);
            lemma_last_mention(snapshot, name);
            if i < before.len() {
                assert(before[i].name == name);
                assert(mentions(before, name));
                assert(mentions(front, name));
                if name == package.name {
                    assert(at >= 0);
                    if at != i {
                        if at < i {
                            assert(before[at].name != before[i].name);
                        } else {
                            assert(before[i].name != before[at].name);
                        }
                    }
                }
            } else {
                assert(!mentions(before, name));
                assert(!mentions(front, name));
            }
        }
    }
}

/// Writing the distinct packages of a snapshot is writing the snapshot.
pub proof fn lemma_distinct_is_enough(
    table: TableView,
    channel: Channel,
    category: Seq<char>,
    snapshot: Seq<PackageView>,
)
    ensures
        upserted(table, channel, category, distinct(snapshot)) == upserted(
            table,
            channel,
            category,
            snapshot,
        ),
        reconciled(table, channel, category, distinct(snapshot)) == reconciled(
            table,
            channel,
            category,
            snapshot,
        ),
{
    let few = distinct(snapshot);
    lemma_distinct(snapshot);
    assert forall|name: Seq<char>| mentions(few, name) implies few[first_mention(few, name)].base
        == snapshot[first_mention(snapshot, name)].base && few[last_mention(few, name)].version
        == snapshot[last_mention(snapshot, name)].version by {
        lemma_first_mention(few, name);
        lemma_last_mention(few, name);
    }
    assert(upserted(table, channel, category, few) =~= upserted(table, channel, category, snapshot));
    assert(stale(table, channel, category, few) =~= stale(table, channel, category, snapshot));
    let base = cleared(table, channel, stale(table, channel, category, snapshot));
    assert(upserted(base, channel, category, few) =~= upserted(base, channel, category, snapshot));
}

/// The names whose rows are of `category` and offered by `channel`: what a
/// reconciliation of that channel and category answers for.
pub open spec fn offered(table: TableView, channel: Channel, category: Seq<char>) -> Set<Seq<char>> {
    Set::new(|name: Seq<char>| table.contains_key(name) && table[name].offered_in(channel, category))
}

/// The names that a reconciliation clears: those offered so far that the
/// snapshot does not mention.
pub open spec fn stale(
    table: TableView,
    channel: Channel,
    category: Seq<char>,
    snapshot: Seq<PackageView>,
) -> Set<Seq<char>> {
    Set::new(
        |name: Seq<char>|
            table.contains_key(name) && table[name].offered_in(channel, category) && !mentions(
                snapshot,
                name,
            ),
    )
}

/// The table after `channel` has been cleared in the rows of `names`.
pub open spec fn cleared(table: TableView, channel: Channel, names: Set<Seq<char>>) -> TableView {
    Map::new(
        |name: Seq<char>| table.contains_key(name),
        |name: Seq<char>|
            if names.contains(name) {
                table[name].with_version(channel, None)
            } else {
                table[name]
            },
    )
}

/// The table after one package has been written for `channel`: its row gets
/// the version, and a package without a row gets one, of `category`.
pub open spec fn upserted_one(
    table: TableView,
    channel: Channel,
    category: Seq<char>,
    package: PackageView,
) -> TableView {
    let row = if table.contains_key(package.name) {
        table[package.name]
    } else {
        RecordView::fresh(package.name, package.base, category)
    };
    table.insert(package.name, row.with_version(channel, Some(package.version)))
}

/// The table after every package of the snapshot has been written for
/// `channel`. A row that was there keeps all but the channel's version. A
/// new row has the base of the first package of its name. Where the snapshot
/// holds a name more than once, the last version stays.
pub open spec fn upserted(
    table: TableView,
    channel: Channel,
    category: Seq<char>,
    snapshot: Seq<PackageView>,
) -> TableView {
    Map::new(
        |name: Seq<char>| table.contains_key(name) || mentions(snapshot, name),
        |name: Seq<char>|
            if mentions(snapshot, name) {
                let row = if table.contains_key(name) {
                    table[name]
                } else {
                    RecordView::fresh(name, snapshot[first_mention(snapshot, name)].base, category)
                };
                row.with_version(channel, Some(snapshot[last_mention(snapshot, name)].version))
            } else {
                table[name]
            },
    )
}

/// The table after `channel` has been reconciled with a snapshot of
/// `category`.
pub open spec fn reconciled(
    table: TableView,
    channel: Channel,
    category: Seq<char>,
    snapshot: Seq<PackageView>,
) -> TableView {
    upserted(
        cleared(table, channel, stale(table, channel, category, snapshot)),
        channel,
        category,
        snapshot,
    )
}

/// The table without the rows that no channel offers.
pub open spec fn swept(table: TableView) -> TableView {
    Map::new(
        |name: Seq<char>| table.contains_key(name) && table[name].live(),
        |name: Seq<char>| table[name],
    )
}

/// Writing the packages of a snapshot one after the other gives `upserted`.
pub proof fn lemma_upserted_step(
    table: TableView,
    channel: Channel,
    category: Seq<char>,
    snapshot: Seq<PackageView>,
    package: PackageView,
)
    ensures
        upserted_one(upserted(table, channel, category, snapshot), channel, category, package)
            == upserted(table, channel, category, snapshot.push(package)),
{
    let before = upserted(table, channel, category, snapshot);
    let longer = snapshot.push(package);
    let left = upserted_one(before, channel, category, package);
    let right = upserted(table, channel, category, longer);
    assert(longer.drop_last() =~= snapshot);
    assert(longer[snapshot.len() as int] == package);
    assert forall|name: Seq<char>| left.contains_key(name) <==> right.contains_key(name) by {
        lemma_mentions_push(snapshot, package, name);
    }
    assert forall|name: Seq<char>| #[trigger] left.contains_key(name) implies left[name] == right[name] by {
        lemma_mentions_push(snapshot, package, name);
        lemma_first_mention(snapshot, name);
        lemma_last_mention(snapshot, name);
        lemma_first_mention(longer, name);
        lemma_last_mention(longer, name);
    }
    assert(left =~= right);
}

/// A longer snapshot mentions what the shorter one did, and the name of the
/// package that was added.
pub proof fn lemma_mentions_push(snapshot: Seq<PackageView>, package: PackageView, name: Seq<char>)
    ensures
        mentions(snapshot.push(package), name) <==> mentions(snapshot, name) || package.name == name,
{
    let longer = snapshot.push(package);
    if mentions(snapshot, name) {
        let i = choose|i: int| 0 <= i < snapshot.len() && (#[trigger] snapshot[i]).name == name;
        assert(longer[i].name == name);
    }
    if package.name == name {
        assert(longer[snapshot.len() as int].name == name);
    }
    if mentions(longer, name) {
        let i = choose|i: int| 0 <= i < longer.len() && (#[trigger] longer[i]).name == name;
        if i < snapshot.len() {
            assert(snapshot[i].name == name);
        }
    }
}

/// Nothing is written for an empty snapshot.
pub proof fn lemma_upserted_nothing(table: TableView, channel: Channel, category: Seq<char>)
    ensures
        upserted(table, channel, category, Seq::empty()) == table,
{
    assert(upserted(table, channel, category, Seq::empty()) =~= table);
}

} // verus!
