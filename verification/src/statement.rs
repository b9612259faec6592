//! The statements that carry a reconciliation out on a SQL store, and the
//! values that go with them.
//!
//! Values are never written into a statement: a statement holds numbered
//! placeholders, `$1`, `$2` and so on, and the values are handed over beside
//! it, in the order of those numbers.

use vstd::prelude::*;
use crate::channel::Channel;
use crate::descriptor::{Package, PackageView, package_views};
use crate::reconcile::BATCH_SIZE;
use crate::text::texts;

verus! {

/// The digit that stands for a number below ten.
pub open spec fn digit_text(d: nat) -> Seq<char> {
    if d == 0 {
        "0"@
    } else if d == 1 {
        "1"@
    } else if d == 2 {
        "2"@
    } else if d == 3 {
        "3"@
    } else if d == 4 {
        "4"@
    } else if d == 5 {
        "5"@
    } else if d == 6 {
        "6"@
    } else if d == 7 {
        "7"@
    } else if d == 8 {
        "8"@
    } else {
        "9"@
    }
}

/// A number in decimal digits.
pub open spec fn decimal(n: nat) -> Seq<char>
    decreases n,
{
    if n < 10 {
        digit_text(n)
    } else {
        decimal(n / 10) + digit_text(n % 10)
    }
}

/// The placeholder of that number.
pub open spec fn placeholder(n: nat) -> Seq<char> {
    "$"@ + decimal(n)
}

/// `count` placeholders from number `first` on, with `, ` between them.
pub open spec fn placeholders(first: nat, count: nat) -> Seq<char>
    decreases count,
{
    if count == 0 {
        Seq::empty()
    } else if count == 1 {
        placeholder(first)
    } else {
        placeholders(first, (count - 1) as nat) + ", "@ + placeholder((first + count - 1) as nat)
    }
}

/// The placeholders of the four values of the package at place `at` of a
/// batch, in brackets.
pub open spec fn value_row(at: nat) -> Seq<char> {
    "("@ + placeholders(4 * at + 1, 4) + ")"@
}

/// The value rows of a batch of `rows` packages, with `, ` between them.
pub open spec fn value_rows(rows: nat) -> Seq<char>
    decreases rows,
{
    if rows == 0 {
        Seq::empty()
    } else if rows == 1 {
        value_row(0)
    } else {
        value_rows((rows - 1) as nat) + ", "@ + value_row((rows - 1) as nat)
    }
}

/// The statement that reads the names that `channel` offers of a category.
/// Its one value is the category.
pub open spec fn select_text(channel: Channel) -> Seq<char> {
    "SELECT name FROM packages WHERE repo = $1 AND "@ + channel.column_text() + " IS NOT NULL"@
}

/// The statement that clears `channel` for `count` names. Its values are
/// the names.
pub open spec fn clear_text(channel: Channel, count: nat) -> Seq<char> {
    "UPDATE packages SET "@ + channel.column_text() + " = NULL WHERE name IN ("@ + placeholders(
        1,
        count,
    ) + ")"@
}

/// The statement that writes a batch of `rows` packages for `channel`. Its
/// values are those of `bound_values`.
pub open spec fn upsert_text(channel: Channel, rows: nat) -> Seq<char> {
    "MERGE INTO packages AS target USING (VALUES "@ + value_rows(rows)
        + ") AS source (name, base, repo, version) ON target.name = source.name WHEN MATCHED THEN UPDATE SET "@
        + channel.column_text()
        + " = source.version WHEN NOT MATCHED THEN INSERT (name, base, repo, "@
        + channel.column_text()
        + ") VALUES (source.name, source.base, source.repo, source.version)"@
}

/// The values that go with the statement for a batch: for each package its
/// name, its base, the category and its version.
pub open spec fn bound_values(batch: Seq<PackageView>, category: Seq<char>) -> Seq<Seq<char>> {
    Seq::new(
        4 * batch.len(),
        |k: int|
            if k % 4 == 0 {
                batch[k / 4].name
            } else if k % 4 == 1 {
                batch[k / 4].base
            } else if k % 4 == 2 {
                category
            } else {
                batch[k / 4].version
            },
    )
}

/// The conditions that none of the channels offers the row, with ` AND `
/// between them.
pub open spec fn none_offered(channels: Seq<Channel>) -> Seq<char>
    decreases channels.len(),
{
    if channels.len() == 0 {
        Seq::empty()
    } else if channels.len() == 1 {
        channels[0].column_text() + " IS NULL"@
    } else {
        none_offered(channels.drop_last()) + " AND "@ + channels.last().column_text() + " IS NULL"@
    }
}

/// The statement that drops the rows that no channel offers.
pub open spec fn sweep_text() -> Seq<char> {
    "DELETE FROM packages WHERE "@ + none_offered(Channel::all_channels())
}

/// The columns of the channels as they are declared, each after a comma.
pub open spec fn version_columns(channels: Seq<Channel>) -> Seq<char>
    decreases channels.len(),
{
    if channels.len() == 0 {
        Seq::empty()
    } else {
        version_columns(channels.drop_last()) + ", "@ + channels.last().column_text() + " TEXT"@
    }
}

/// The statement that makes the package table where there is none.
pub open spec fn create_packages_text() -> Seq<char> {
    "CREATE TABLE IF NOT EXISTS packages (name TEXT PRIMARY KEY, base TEXT, repo TEXT"@
        + version_columns(Channel::all_channels()) + ")"@
}

fn digit(d: usize) -> (r: &'static str)
    requires
        d < 10,
    ensures
        r@ == digit_text(d as nat),
{
    if d == 0 {
        "0"
    } else if d == 1 {
        "1"
    } else if d == 2 {
        "2"
    } else if d == 3 {
        "3"
    } else if d == 4 {
        "4"
    } else if d == 5 {
        "5"
    } else if d == 6 {
        "6"
    } else if d == 7 {
        "7"
    } else if d == 8 {
        "8"
    } else {
        "9"
    }
}

fn push_decimal(out: &mut String, n: usize)
    ensures
        final(out)@ == old(out)@ + decimal(n as nat),
    decreases n,
{
    if n >= 10 {
        push_decimal(out, n / 10);
    }
    out.append(digit(n % 10));
    assert(out@ =~= old(out)@ + decimal(n as nat));
}

/// A number in decimal digits.
pub fn decimal_text(n: usize) -> (r: String)
    ensures
        r@ == decimal(n as nat),
{
    let mut r = String::new();
    push_decimal(&mut r, n);
    assert(r@ =~= decimal(n as nat));
    r
}

fn push_placeholders(out: &mut String, first: usize, count: usize)
    requires
        first + count <= usize::MAX,
    ensures
        final(out)@ == old(out)@ + placeholders(first as nat, count as nat),
{
    let mut i: usize = 0;
    assert(out@ =~= old(out)@ + placeholders(first as nat, 0));
    while i < count
        invariant
            i <= count,
            first + count <= usize::MAX,
            out@ == old(out)@ + placeholders(first as nat, i as nat),
        decreases count - i,
    {
        if i > 0 {
            out.append(", ");
        }
        out.append("$");
        push_decimal(out, first + i);
        assert(out@ =~= old(out)@ + placeholders(first as nat, (i + 1) as nat));
        i = i + 1;
    }
}

fn push_value_rows(out: &mut String, rows: usize)
    requires
        rows <= BATCH_SIZE,
    ensures
        final(out)@ == old(out)@ + value_rows(rows as nat),
{
    let mut at: usize = 0;
    assert(out@ =~= old(out)@ + value_rows(0));
    while at < rows
        invariant
            at <= rows <= BATCH_SIZE,
            out@ == old(out)@ + value_rows(at as nat),
        decreases rows - at,
    {
        if at > 0 {
            out.append(", ");
        }
        out.append("(");
        push_placeholders(out, 4 * at + 1, 4);
        out.append(")");
        assert(out@ =~= old(out)@ + value_rows((at + 1) as nat));
        at = at + 1;
    }
}

/// The statement that reads the names that `channel` offers of a category.
pub fn select_statement(channel: Channel) -> (r: String)
    ensures
        r@ == select_text(channel),
{
    let mut r = String::from_str("SELECT name FROM packages WHERE repo = $1 AND ");
    r.append(channel.column());
    r.append(" IS NOT NULL");
    r
}

/// The statement that clears `channel` for `count` names. There is none to
/// make where there is nothing to clear.
pub fn clear_statement(channel: Channel, count: usize) -> (r: Option<String>)
    ensures
        count == 0 ==> r is None,
        count > 0 ==> r is Some && r->0@ == clear_text(channel, count as nat),
{
    if count == 0 {
        return None;
    }
    let mut r = String::from_str("UPDATE packages SET ");
    r.append(channel.column());
    r.append(" = NULL WHERE name IN (");
    let ghost head = r@;
    let mut i: usize = 0;
    assert(r@ =~= head + placeholders(1, 0));
    while i < count
        invariant
            i <= count,
            r@ == head + placeholders(1, i as nat),
        decreases count - i,
    {
        if i > 0 {
            r.append(", ");
        }
        r.append("$");
        push_decimal(&mut r, i + 1);
        assert(r@ =~= head + placeholders(1, (i + 1) as nat));
        i = i + 1;
    }
    r.append(")");
    Some(r)
}

/// The statement that writes a batch of `rows` packages for `channel`.
/// There is none for an empty batch, and none for more than `BATCH_SIZE`
/// packages.
pub fn upsert_statement(channel: Channel, rows: usize) -> (r: Option<String>)
    ensures
        rows == 0 || rows > BATCH_SIZE ==> r is None,
        0 < rows <= BATCH_SIZE ==> r is Some && r->0@ == upsert_text(channel, rows as nat),
{
    if rows == 0 || rows > BATCH_SIZE {
        return None;
    }
    let mut r = String::from_str("MERGE INTO packages AS target USING (VALUES ");
    push_value_rows(&mut r, rows);
    r.append(
        ") AS source (name, base, repo, version) ON target.name = source.name WHEN MATCHED THEN UPDATE SET ",
    );
    r.append(channel.column());
    r.append(" = source.version WHEN NOT MATCHED THEN INSERT (name, base, repo, ");
    r.append(channel.column());
    r.append(") VALUES (source.name, source.base, source.repo, source.version)");
    Some(r)
}

/// The values that go with the statement that writes `batch`.
pub fn upsert_values(batch: &[Package], category: &str) -> (r: Vec<String>)
    ensures
        texts(r@) == bound_values(package_views(batch@), category@),
{
    let mut r: Vec<String> = Vec::new();
    let mut i: usize = 0;
    while i < batch.len()
        invariant
            i <= batch@.len(),
            r@.len() == 4 * i,
            forall|k: int|
                0 <= k < 4 * i ==> (#[trigger] r@[k])@ == bound_values(
                    package_views(batch@),
                    category@,
                )[k],
        decreases batch@.len() - i,
    {
        r.push(batch[i].name.clone());
        r.push(batch[i].base.clone());
        r.push(String::from_str(category));
        r.push(batch[i].version.clone());
        i = i + 1;
    }
    assert(texts(r@) =~= bound_values(package_views(batch@), category@));
    r
}

/// The statement that drops the rows that no channel offers.
pub fn sweep_statement() -> (r: String)
    ensures
        r@ == sweep_text(),
{
    let channels = Channel::all();
    let mut r = String::from_str("DELETE FROM packages WHERE ");
    let ghost head = r@;
    let mut i: usize = 0;
    assert(r@ =~= head + none_offered(channels@.take(0)));
    while i < channels.len()
        invariant
            i <= channels@.len(),
            r@ == head + none_offered(channels@.take(i as int)),
        decreases channels@.len() - i,
    {
        if i > 0 {
            r.append(" AND ");
        }
        r.append(channels[i].column());
        r.append(" IS NULL");
        proof {
            let longer = channels@.take(i + 1);
            assert(longer.drop_last() =~= channels@.take(i as int));
            assert(r@ =~= head + none_offered(longer));
        }
        i = i + 1;
    }
    assert(channels@.take(channels@.len() as int) =~= channels@);
    r
}

/// The statement that makes the package table where there is none.
pub fn create_packages_statement() -> (r: String)
    ensures
        r@ == create_packages_text(),
{
    let channels = Channel::all();
    let mut r = String::from_str(
        "CREATE TABLE IF NOT EXISTS packages (name TEXT PRIMARY KEY, base TEXT, repo TEXT",
    );
    let ghost head = r@;
    let mut i: usize = 0;
    assert(r@ =~= head + version_columns(channels@.take(0)));
    while i < channels.len()
        invariant
            i <= channels@.len(),
            r@ == head + version_columns(channels@.take(i as int)),
        decreases channels@.len() - i,
    {
        r.append(", ");
        r.append(channels[i].column());
        r.append(" TEXT");
        proof {
            let longer = channels@.take(i + 1);
            assert(longer.drop_last() =~= channels@.take(i as int));
            assert(r@ =~= head + version_columns(longer));
        }
        i = i + 1;
    }
    assert(channels@.take(channels@.len() as int) =~= channels@);
    r.append(")");
    r
}

/// The statement that makes the table of the last run where there is none.
pub fn create_last_update_statement() -> (r: &'static str)
    ensures
        r@ == "CREATE TABLE IF NOT EXISTS last_update (last_update TEXT PRIMARY KEY)"@,
{
    "CREATE TABLE IF NOT EXISTS last_update (last_update TEXT PRIMARY KEY)"
}

/// The statement that reads the time of the last run.
pub fn read_last_update_statement() -> (r: &'static str)
    ensures
        r@ == "SELECT last_update FROM last_update LIMIT 1"@,
{
    "SELECT last_update FROM last_update LIMIT 1"
}

/// The statement that counts the rows that keep the time of the last run.
pub fn count_last_update_statement() -> (r: &'static str)
    ensures
        r@ == "SELECT COUNT(*) FROM last_update"@,
{
    "SELECT COUNT(*) FROM last_update"
}

/// The statement that keeps the time of a run, when `kept` rows keep a time
/// already: the first time is put in, every later one takes its place. The
/// one value is the time as text.
pub fn stamp_statement(kept: i64) -> (r: &'static str)
    ensures
        r@ == if kept == 0 {
            "INSERT INTO last_update (last_update) VALUES ($1)"@
        } else {
            "UPDATE last_update SET last_update = $1"@
        },
{
    if kept == 0 {
        "INSERT INTO last_update (last_update) VALUES ($1)"
    } else {
        "UPDATE last_update SET last_update = $1"
    }
}

} // verus!
