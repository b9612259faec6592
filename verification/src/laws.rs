//! What holds of every reconciliation, whatever the table and the snapshot.

use vstd::prelude::*;
use crate::channel::Channel;
use crate::descriptor::PackageView;
use crate::model::{
    TableView, first_mention, last_mention, lemma_first_mention, lemma_last_mention, mentions,
    reconciled, swept,
};

verus! {

/// Reconciling a channel with the same snapshot a second time changes
/// nothing.
pub proof fn lemma_reconcile_is_idempotent(
    table: TableView,
    channel: Channel,
    category: Seq<char>,
    snapshot: Seq<PackageView>,
)
    ensures
        reconciled(reconciled(table, channel, category, snapshot), channel, category, snapshot)
            == reconciled(table, channel, category, snapshot),
{
    let once = reconciled(table, channel, category, snapshot);
    let twice = reconciled(once, channel, category, snapshot);
    assert forall|name: Seq<char>| once.contains_key(name) <==> twice.contains_key(name) by {}
    assert forall|name: Seq<char>| #[trigger] once.contains_key(name) implies twice[name]
        == once[name] by {
        lemma_first_mention(snapshot, name);
        lemma_last_mention(snapshot, name);
    }
    assert(twice =~= once);
}

/// Reconciling a channel leaves every other channel of every row as it is,
/// and offers a new row in no other channel.
pub proof fn lemma_other_channels_are_kept(
    table: TableView,
    channel: Channel,
    category: Seq<char>,
    snapshot: Seq<PackageView>,
    other: Channel,
    name: Seq<char>,
)
    requires
        other != channel,
    ensures
        table.contains_key(name) ==> reconciled(table, channel, category, snapshot).contains_key(
            name,
        ) && reconciled(table, channel, category, snapshot)[name].version(other)
            == table[name].version(other),
        !table.contains_key(name) && reconciled(table, channel, category, snapshot).contains_key(
            name,
        ) ==> reconciled(table, channel, category, snapshot)[name].version(other) is None,
{
}

/// Reconciling a channel leaves the name, the base, the category and the
/// flags of every row as they are.
pub proof fn lemma_rows_keep_their_identity(
    table: TableView,
    channel: Channel,
    category: Seq<char>,
    snapshot: Seq<PackageView>,
    name: Seq<char>,
)
    requires
        table.contains_key(name),
    ensures
        reconciled(table, channel, category, snapshot).contains_key(name),
        reconciled(table, channel, category, snapshot)[name].name == table[name].name,
        reconciled(table, channel, category, snapshot)[name].base == table[name].base,
        reconciled(table, channel, category, snapshot)[name].repo == table[name].repo,
        reconciled(table, channel, category, snapshot)[name].flags == table[name].flags,
{
}

/// After a reconciliation the channel offers what the snapshot mentions, in
/// the version that the snapshot gives last, and nothing else of the
/// category.
pub proof fn lemma_channel_follows_snapshot(
    table: TableView,
    channel: Channel,
    category: Seq<char>,
    snapshot: Seq<PackageView>,
    name: Seq<char>,
)
    ensures
        mentions(snapshot, name) ==> reconciled(table, channel, category, snapshot).contains_key(
            name,
        ) && reconciled(table, channel, category, snapshot)[name].version(channel) == Some(
            snapshot[last_mention(snapshot, name)].version,
        ),
        !mentions(snapshot, name) && table.contains_key(name) && table[name].repo == category
            ==> reconciled(table, channel, category, snapshot).contains_key(name) && reconciled(
            table,
            channel,
            category,
            snapshot,
        )[name].version(channel) is None,
        !mentions(snapshot, name) && !table.contains_key(name) ==> !reconciled(
            table,
            channel,
            category,
            snapshot,
        ).contains_key(name),
{
}

/// A reconciliation for one category leaves the rows of every other
/// category as they are, unless the snapshot mentions them.
pub proof fn lemma_other_categories_are_untouched(
    table: TableView,
    channel: Channel,
    category: Seq<char>,
    snapshot: Seq<PackageView>,
    name: Seq<char>,
)
    requires
        table.contains_key(name),
        table[name].repo != category,
        !mentions(snapshot, name),
    ensures
        reconciled(table, channel, category, snapshot).contains_key(name),
        reconciled(table, channel, category, snapshot)[name] == table[name],
{
}

/// A package that the snapshot mentions and that has a row keeps that row,
/// whatever its category, and gets the version of the snapshot.
pub proof fn lemma_mentioned_rows_are_merged(
    table: TableView,
    channel: Channel,
    category: Seq<char>,
    snapshot: Seq<PackageView>,
    name: Seq<char>,
)
    requires
        table.contains_key(name),
        mentions(snapshot, name),
    ensures
        reconciled(table, channel, category, snapshot)[name] == table[name].with_version(
            channel,
            Some(snapshot[last_mention(snapshot, name)].version),
        ),
{
}

/// A snapshot is a collection without order: two snapshots that hold the
/// same packages, each name with one package, reconcile to the same table.
pub proof fn lemma_order_of_snapshot_is_immaterial(
    table: TableView,
    channel: Channel,
    category: Seq<char>,
    one: Seq<PackageView>,
    other: Seq<PackageView>,
)
    requires
        forall|i: int, j: int|
            0 <= i < one.len() && 0 <= j < one.len() && (#[trigger] one[i]).name == (
            #[trigger] one[j]).name ==> one[i] == one[j],
        forall|i: int| 0 <= i < one.len() ==> other.contains(#[trigger] one[i]),
        forall|j: int| 0 <= j < other.len() ==> one.contains(#[trigger] other[j]),
    ensures
        reconciled(table, channel, category, one) == reconciled(table, channel, category, other),
{
    let left = reconciled(table, channel, category, one);
    let right = reconciled(table, channel, category, other);
    assert forall|name: Seq<char>| mentions(one, name) == mentions(other, name) by {
        if mentions(one, name) {
            let i = choose|i: int| 0 <= i < one.len() && (#[trigger] one[i]).name == name;
            let j = choose|j: int| 0 <= j < other.len() && other[j] == one[i];
            assert(other[j].name == name);
        }
        if mentions(other, name) {
            let j = choose|j: int| 0 <= j < other.len() && (#[trigger] other[j]).name == name;
            let i = choose|i: int| 0 <= i < one.len() && one[i] == other[j];
            assert(one[i].name == name);
        }
    }
    assert forall|name: Seq<char>| mentions(one, name) implies one[first_mention(one, name)]
        == other[first_mention(other, name)] && one[last_mention(one, name)] == other[last_mention(
        other,
        name,
    )] by {
        lemma_first_mention(one, name);
        lemma_last_mention(one, name);
        lemma_first_mention(other, name);
        lemma_last_mention(other, name);
        let first = other[first_mention(other, name)];
        let i = choose|i: int| 0 <= i < one.len() && one[i] == first;
        assert(one[i].name == name);
        let last = other[last_mention(other, name)];
        let k = choose|k: int| 0 <= k < one.len() && one[k] == last;
        assert(one[k].name == name);
    }
    assert forall|name: Seq<char>| left.contains_key(name) <==> right.contains_key(name) by {}
    assert forall|name: Seq<char>| #[trigger] left.contains_key(name) implies left[name]
        == right[name] by {}
    assert(left =~= right);
}

/// In a table whose rows carry the names that they are found under, they
/// still do after a reconciliation.
pub proof fn lemma_rows_stay_named(
    table: TableView,
    channel: Channel,
    category: Seq<char>,
    snapshot: Seq<PackageView>,
    name: Seq<char>,
)
    requires
        forall|any: Seq<char>| #[trigger] table.contains_key(any) ==> table[any].name == any,
        reconciled(table, channel, category, snapshot).contains_key(name),
    ensures
        reconciled(table, channel, category, snapshot)[name].name == name,
{
}

/// After a sweep the table holds exactly the rows that some channel offers.
pub proof fn lemma_swept_rows_are_live(table: TableView, name: Seq<char>)
    ensures
        swept(table).contains_key(name) <==> table.contains_key(name) && table[name].live(),
        swept(table).contains_key(name) ==> swept(table)[name] == table[name],
        swept(swept(table)) == swept(table),
{
    assert(swept(swept(table)) =~= swept(table));
}

/// A package that only one channel offers loses its row when a snapshot of
/// its category for that channel no longer mentions it and the table is
/// swept.
pub proof fn lemma_last_offer_drops_the_row(
    table: TableView,
    channel: Channel,
    category: Seq<char>,
    snapshot: Seq<PackageView>,
    name: Seq<char>,
)
    requires
        table.contains_key(name),
        table[name].repo == category,
        forall|other: Channel| other != channel ==> (#[trigger] table[name].version(other)) is None,
        !mentions(snapshot, name),
    ensures
        !swept(reconciled(table, channel, category, snapshot)).contains_key(name),
{
    let after = reconciled(table, channel, category, snapshot);
    assert forall|any: Channel| (#[trigger] after[name].version(any)) is None by {
        if any != channel {
            assert(table[name].version(any) is None);
        }
    }
}

} // verus!
