//! The package table, held in memory.

use vstd::prelude::*;
use vstd::hash_map::StringHashMap;
use crate::channel::Channel;
use crate::descriptor::{Package, PackageView, package_views};
use crate::model::{
    TableView, cleared, lemma_upserted_nothing, lemma_upserted_step, offered, swept, upserted,
    upserted_one,
};
use crate::record::{PackageRecord, RecordView};
use crate::text::{lemma_text_set_take, opt_text, text_set};

verus! {

/// The package table: at most one row for each package name.
pub struct PackageTable {
    rows: Vec<PackageRecord>,
    index: StringHashMap<usize>,
}

impl View for PackageTable {
    type V = TableView;

    closed spec fn view(&self) -> TableView {
        Map::new(
            |name: Seq<char>| self.index@.contains_key(name),
            |name: Seq<char>| self.rows@[self.index@[name] as int]@,
        )
    }
}

impl PackageTable {
    /// The table is sound: every row is found under its own name, and under
    /// no other.
    pub closed spec fn wf(&self) -> bool {
        &&& forall|i: int|
            0 <= i < self.rows@.len() ==> self.index@.contains_key(
                (#[trigger] self.rows@[i]).name@,
            ) && self.index@[self.rows@[i].name@] == i
        &&& forall|name: Seq<char>| #[trigger]
            self.index@.contains_key(name) ==> self.index@[name] < self.rows@.len()
                && self.rows@[self.index@[name] as int].name@ == name
    }

    /// In a sound table every row carries the name that it is found under.
    pub proof fn lemma_rows_named(&self)
        requires
            self.wf(),
        ensures
            forall|name: Seq<char>| #[trigger] self@.contains_key(name) ==> self@[name].name == name,
    {
    }

    /// The empty table.
    pub fn new() -> (table: PackageTable)
        ensures
            table.wf(),
            table@ == Map::<Seq<char>, RecordView>::empty(),
    {
        let table = PackageTable { rows: Vec::new(), index: StringHashMap::new() };
        assert(table@ =~= Map::<Seq<char>, RecordView>::empty());
        table
    }

    /// The number of rows.
    pub fn len(&self) -> (n: usize)
        requires
            self.wf(),
        ensures
            n == self@.len(),
    {
        assert(self@.dom() =~= self.index@.dom());
        self.index.len()
    }

    fn position(&self, name: &str) -> (r: Option<usize>)
        requires
            self.wf(),
        ensures
            match r {
                Some(i) => self.index@.contains_key(name@) && self.index@[name@] == i && i
                    < self.rows@.len(),
                None => !self.index@.contains_key(name@),
            },
    {
        match self.index.get(name) {
            Some(i) => Some(*i),
            None => None,
        }
    }

    /// The row of a package, if it has one.
    pub fn get(&self, name: &str) -> (r: Option<&PackageRecord>)
        requires
            self.wf(),
        ensures
            match r {
                Some(row) => self@.contains_key(name@) && row@ == self@[name@],
                None => !self@.contains_key(name@),
            },
    {
        match self.position(name) {
            Some(i) => Some(&self.rows[i]),
            None => None,
        }
    }

    /// Puts a row into the table, in place of the row of that name if there
    /// is one.
    pub fn put(&mut self, row: PackageRecord)
        requires
            old(self).wf(),
        ensures
            final(self).wf(),
            final(self)@ == old(self)@.insert(row.name@, row@),
    {
        match self.position(row.name.as_str()) {
            Some(i) => {
                self.rows.set(i, row);
                assert(self@ =~= old(self)@.insert(row.name@, row@));
            },
            None => {
                self.append(row);
            },
        }
    }

    /// Adds the row of a package that has none.
    fn append(&mut self, row: PackageRecord)
        requires
            old(self).wf(),
            !old(self).index@.contains_key(row.name@),
        ensures
            final(self).wf(),
            final(self)@ == old(self)@.insert(row.name@, row@),
    {
        let at = self.rows.len();
        self.index.insert(row.name.clone(), at);
        self.rows.push(row);
        assert(self@ =~= old(self)@.insert(row.name@, row@));
    }

    /// Sets the version that `channel` offers of a package that has a row.
    fn set_version_at(&mut self, i: usize, channel: Channel, version: Option<String>)
        requires
            old(self).wf(),
            i < old(self).rows@.len(),
        ensures
            final(self).wf(),
            final(self)@ == old(self)@.insert(
                old(self).rows@[i as int].name@,
                old(self).rows@[i as int]@.with_version(channel, opt_text(version)),
            ),
            final(self).index@ == old(self).index@,
            final(self).rows@.len() == old(self).rows@.len(),
    {
        self.rows[i].set_version(channel, version);
        assert(self.rows@[i as int].name@ == old(self).rows@[i as int].name@);
        assert(self@ =~= old(self)@.insert(
            old(self).rows@[i as int].name@,
            old(self).rows@[i as int]@.with_version(channel, opt_text(version)),
        ));
    }

    /// The names of all packages that have a row, each once, in no
    /// particular order.
    pub fn names(&self) -> (names: Vec<String>)
        requires
            self.wf(),
        ensures
            text_set(names@) == self@.dom(),
            forall|i: int, j: int|
                0 <= i < j < names@.len() ==> (#[trigger] names@[i])@ != (#[trigger] names@[j])@,
    {
        let mut names: Vec<String> = Vec::new();
        let mut i: usize = 0;
        while i < self.rows.len()
            invariant
                self.wf(),
                i <= self.rows@.len(),
                names@.len() == i,
                forall|k: int| 0 <= k < i ==> (#[trigger] names@[k])@ == self.rows@[k].name@,
            decreases self.rows@.len() - i,
        {
            names.push(self.rows[i].name.clone());
            i = i + 1;
        }
        proof {
            assert forall|name: Seq<char>| text_set(names@).contains(name) <==> self@.dom().contains(
                name,
            ) by {
                if text_set(names@).contains(name) {
                    let k = choose|k: int| 0 <= k < names@.len() && (#[trigger] names@[k])@ == name;
                    assert(self.rows@[k].name@ == name);
                }
                if self@.dom().contains(name) {
                    assert(names@[self.index@[name] as int]@ == name);
                }
            }
            assert(text_set(names@) =~= self@.dom());
            assert forall|k: int, l: int| 0 <= k < l < names@.len() implies (#[trigger] names@[k])@
                != (#[trigger] names@[l])@ by {
                assert(self.index@[self.rows@[k].name@] == k);
                assert(self.index@[self.rows@[l].name@] == l);
            }
        }
        names
    }

    /// The names of the packages of `category` that `channel` offers, each
    /// once, in no particular order.
    pub fn names_in_channel(&self, channel: Channel, category: &str) -> (names: Vec<String>)
        requires
            self.wf(),
        ensures
            text_set(names@) == offered(self@, channel, category@),
            forall|i: int, j: int|
                0 <= i < j < names@.len() ==> (#[trigger] names@[i])@ != (#[trigger] names@[j])@,
    {
        let wanted = String::from_str(category);
        let mut names: Vec<String> = Vec::new();
        let ghost mut origin: Seq<int> = Seq::empty();
        let mut i: usize = 0;
        while i < self.rows.len()
            invariant
                self.wf(),
                wanted@ == category@,
                i <= self.rows@.len(),
                origin.len() == names@.len(),
                forall|k: int|
                    0 <= k < names@.len() ==> 0 <= #[trigger] origin[k] < i && names@[k]@
                        == self.rows@[origin[k]].name@ && self.rows@[origin[k]]@.offered_in(
                        channel,
                        category@,
                    ),
                forall|k: int, l: int| 0 <= k < l < names@.len() ==> origin[k] < origin[l],
                forall|r: int|
                    0 <= r < i && (#[trigger] self.rows@[r])@.offered_in(channel, category@)
                        ==> exists|k: int| 0 <= k < names@.len() && #[trigger] origin[k] == r,
            decreases self.rows@.len() - i,
        {
            let row = &self.rows[i];
            if row.version(channel).is_some() && row.repo == wanted {
                names.push(row.name.clone());
                proof {
                    let before = origin;
                    origin = origin.push(i as int);
                    assert forall|r: int|
                        0 <= r < i + 1 && (#[trigger] self.rows@[r])@.offered_in(
                            channel,
                            category@,
                        ) implies exists|k: int| 0 <= k < names@.len() && #[trigger] origin[k]
                        == r by {
                        if r < i {
                            let k = choose|k: int| 0 <= k < before.len() && #[trigger] before[k] == r;
                            assert(origin[k] == r);
                        } else {
                            assert(origin[before.len() as int] == r);
                        }
                    }
                }
            }
            i = i + 1;
        }
        proof {
            let got = text_set(names@);
            let want = offered(self@, channel, category@);
            assert forall|name: Seq<char>| got.contains(name) <==> want.contains(name) by {
                if got.contains(name) {
                    let k = choose|k: int| 0 <= k < names@.len() && (#[trigger] names@[k])@ == name;
                    assert(self.rows@[origin[k]].name@ == name);
                }
                if want.contains(name) {
                    let r = self.index@[name] as int;
                    assert(self.rows@[r]@.offered_in(channel, category@));
                    let k = choose|k: int| 0 <= k < names@.len() && #[trigger] origin[k] == r;
                    assert(names@[k]@ == name);
                }
            }
            assert(got =~= want);
            assert forall|k: int, l: int| 0 <= k < l < names@.len() implies (#[trigger] names@[k])@
                != (#[trigger] names@[l])@ by {
                assert(origin[k] < origin[l]);
            }
        }
        names
    }

    /// Clears `channel` in the rows of the given names. A name without a
    /// row is passed over.
    pub fn clear_channel(&mut self, channel: Channel, names: &[String])
        requires
            old(self).wf(),
        ensures
            final(self).wf(),
            final(self)@ == cleared(old(self)@, channel, text_set(names@)),
    {
        let mut i: usize = 0;
        assert(self@ =~= cleared(old(self)@, channel, text_set(names@.take(0))));
        while i < names.len()
            invariant
                self.wf(),
                i <= names@.len(),
                self@ == cleared(old(self)@, channel, text_set(names@.take(i as int))),
            decreases names@.len() - i,
        {
            let ghost before = self@;
            let ghost done = text_set(names@.take(i as int));
            let ghost more = text_set(names@.take(i + 1));
            proof {
                lemma_text_set_take(names@, i as int);
            }
            match self.position(names[i].as_str()) {
                Some(at) => {
                    self.set_version_at(at, channel, None);
                },
                None => {},
            }
            proof {
                let name = names@[i as int]@;
                let after = cleared(old(self)@, channel, more);
                assert(more == done.insert(name));
                assert forall|other: Seq<char>| #[trigger] self@.contains_key(other) implies self@[other]
                    == after[other] by {
                    if other == name {
                        assert(self@[other] == before[name].with_version(channel, None));
                    } else {
                        assert(self@[other] == before[other]);
                    }
                }
            }
            assert(self@ =~= cleared(old(self)@, channel, more));
            i = i + 1;
        }
        assert(names@.take(names@.len() as int) =~= names@);
    }

    /// Writes one package of a snapshot of `category` for `channel`.
    pub fn upsert(&mut self, channel: Channel, category: &str, package: &Package)
        requires
            old(self).wf(),
        ensures
            final(self).wf(),
            final(self)@ == upserted_one(old(self)@, channel, category@, package@),
    {
        match self.position(package.name.as_str()) {
            Some(at) => {
                self.set_version_at(at, channel, Some(package.version.clone()));
            },
            None => {
                let mut row = PackageRecord::new(
                    package.name.clone(),
                    package.base.clone(),
                    String::from_str(category),
                );
                row.set_version(channel, Some(package.version.clone()));
                self.append(row);
            },
        }
    }

    /// Writes the packages of one batch for `channel`, in their order.
    pub fn upsert_batch(&mut self, channel: Channel, category: &str, batch: &[Package])
        requires
            old(self).wf(),
        ensures
            final(self).wf(),
            final(self)@ == upserted(old(self)@, channel, category@, package_views(batch@)),
    {
        let ghost views = package_views(batch@);
        let mut i: usize = 0;
        proof {
            lemma_upserted_nothing(old(self)@, channel, category@);
            assert(views.take(0) =~= Seq::<PackageView>::empty());
        }
        while i < batch.len()
            invariant
                self.wf(),
                views == package_views(batch@),
                i <= batch@.len(),
                self@ == upserted(old(self)@, channel, category@, views.take(i as int)),
            decreases batch@.len() - i,
        {
            proof {
                lemma_upserted_step(
                    old(self)@,
                    channel,
                    category@,
                    views.take(i as int),
                    batch@[i as int]@,
                );
                assert(views.take(i as int).push(batch@[i as int]@) =~= views.take(i + 1));
            }
            self.upsert(channel, category, &batch[i]);
            i = i + 1;
        }
        assert(views.take(batch@.len() as int) =~= views);
    }

    /// Drops the rows that no channel offers.
    pub fn sweep(&mut self)
        requires
            old(self).wf(),
        ensures
            final(self).wf(),
            final(self)@ == swept(old(self)@),
    {
        let mut kept = PackageTable::new();
        let mut i: usize = 0;
        while i < self.rows.len()
            invariant
                self.wf(),
                kept.wf(),
                i <= self.rows@.len(),
                forall|name: Seq<char>|
                    kept@.contains_key(name) <==> self.index@.contains_key(name) && self.index@[name]
                        < i && self.rows@[self.index@[name] as int]@.live(),
                forall|name: Seq<char>| #[trigger]
                    kept@.contains_key(name) ==> kept@[name] == self.rows@[self.index@[name] as int]@,
            decreases self.rows@.len() - i,
        {
            if self.rows[i].is_live() {
                let row = self.rows[i].duplicate();
                assert(row.name@ == self.rows@[i as int].name@);
                kept.put(row);
            }
            i = i + 1;
        }
        assert(kept@ =~= swept(self@));
        *self = kept;
    }
}

} // verus!
