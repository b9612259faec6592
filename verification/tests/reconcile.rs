use isloongupdated::channel::Channel;
use isloongupdated::descriptor::Package;
use isloongupdated::reconcile::{batch_end, distinct_packages, stale_names, BATCH_SIZE};
use isloongupdated::record::PackageRecord;
use isloongupdated::table::PackageTable;

fn package(name: &str, base: &str, version: &str) -> Package {
    Package { name: name.to_string(), base: base.to_string(), version: version.to_string() }
}

fn text(s: &str) -> Option<String> {
    Some(s.to_string())
}

fn sorted(mut names: Vec<String>) -> Vec<String> {
    names.sort();
    names
}

fn other_channels(channel: Channel) -> Vec<Channel> {
    Channel::all().into_iter().filter(|c| *c != channel).collect()
}

#[test]
fn new_packages_get_rows_of_the_category() {
    let mut table = PackageTable::new();
    let snapshot = vec![package("foo", "foo", "1.0-1"), package("bar", "bar-split", "2.3-4")];
    table.reconcile(Channel::LoongStable, "core", &snapshot);
    assert_eq!(table.len(), 2);
    let foo = table.get("foo").unwrap();
    assert_eq!(foo.name, "foo");
    assert_eq!(foo.base, "foo");
    assert_eq!(foo.repo, "core");
    assert_eq!(foo.flags, None);
    assert_eq!(foo.version(Channel::LoongStable), &text("1.0-1"));
    let bar = table.get("bar").unwrap();
    assert_eq!(bar.base, "bar-split");
    assert_eq!(bar.repo, "core");
    assert_eq!(bar.version(Channel::LoongStable), &text("2.3-4"));
    for channel in other_channels(Channel::LoongStable) {
        assert_eq!(foo.version(channel), &None);
        assert_eq!(bar.version(channel), &None);
    }
}

#[test]
fn a_package_that_left_the_snapshot_is_cleared_and_swept() {
    let mut table = PackageTable::new();
    let snapshot = vec![package("foo", "foo", "1.0-1"), package("bar", "bar-split", "2.3-4")];
    table.reconcile(Channel::LoongStable, "core", &snapshot);
    table.reconcile(Channel::LoongStable, "core", &[package("foo", "foo", "1.0-1")]);
    assert_eq!(table.len(), 2);
    assert_eq!(table.get("bar").unwrap().version(Channel::LoongStable), &None);
    assert!(!table.get("bar").unwrap().is_live());
    assert_eq!(table.get("foo").unwrap().version(Channel::LoongStable), &text("1.0-1"));
    table.sweep();
    assert_eq!(table.len(), 1);
    assert!(table.get("bar").is_none());
    assert_eq!(table.get("foo").unwrap().version(Channel::LoongStable), &text("1.0-1"));
}

#[test]
fn a_cleared_package_that_another_channel_offers_keeps_its_row() {
    let mut table = PackageTable::new();
    table.reconcile(Channel::X86Stable, "core", &[package("bar", "bar", "2.3-4")]);
    table.reconcile(Channel::LoongStable, "core", &[package("bar", "bar", "2.3-3")]);
    table.reconcile(Channel::LoongStable, "core", &[]);
    table.sweep();
    let bar = table.get("bar").unwrap();
    assert_eq!(bar.version(Channel::X86Stable), &text("2.3-4"));
    assert_eq!(bar.version(Channel::LoongStable), &None);
}

#[test]
fn disappearance_clears_only_what_is_gone() {
    let mut table = PackageTable::new();
    table.reconcile(Channel::X86Testing, "extra", &[package("p1", "p1", "v1"), package("p2", "p2", "v2")]);
    table.reconcile(Channel::X86Testing, "extra", &[package("p1", "p1", "v1b")]);
    assert_eq!(table.get("p1").unwrap().version(Channel::X86Testing), &text("v1b"));
    assert_eq!(table.get("p2").unwrap().version(Channel::X86Testing), &None);
}

fn rows(table: &PackageTable, names: &[&str]) -> Vec<PackageRecord> {
    names.iter().map(|n| table.get(n).unwrap().duplicate()).collect()
}

#[test]
fn reconciling_twice_is_reconciling_once() {
    let mut table = PackageTable::new();
    table.reconcile(Channel::X86Stable, "core", &[package("a", "a", "1"), package("b", "b", "1")]);
    table.reconcile(Channel::LoongStable, "extra", &[package("c", "c", "1")]);
    let snapshot = vec![package("a", "a", "2"), package("d", "d0", "1"), package("d", "d1", "2"), package("c", "c", "9")];
    table.reconcile(Channel::X86Stable, "core", &snapshot);
    let once = rows(&table, &["a", "b", "c", "d"]);
    table.reconcile(Channel::X86Stable, "core", &snapshot);
    assert_eq!(table.len(), 4);
    assert_eq!(rows(&table, &["a", "b", "c", "d"]), once);
    let d = table.get("d").unwrap();
    assert_eq!(d.base, "d0");
    assert_eq!(d.version(Channel::X86Stable), &text("2"));
}

#[test]
fn other_channels_are_left_alone() {
    let mut table = PackageTable::new();
    for (k, channel) in Channel::all().into_iter().enumerate() {
        table.reconcile(channel, "core", &[package("a", "a", &format!("v{}", k)), package("b", "b", &format!("w{}", k))]);
    }
    table.reconcile(Channel::LoongTesting, "core", &[package("a", "a", "new")]);
    for (k, channel) in Channel::all().into_iter().enumerate() {
        if channel != Channel::LoongTesting {
            assert_eq!(table.get("a").unwrap().version(channel), &text(&format!("v{}", k)));
            assert_eq!(table.get("b").unwrap().version(channel), &text(&format!("w{}", k)));
        }
    }
    assert_eq!(table.get("a").unwrap().version(Channel::LoongTesting), &text("new"));
    assert_eq!(table.get("b").unwrap().version(Channel::LoongTesting), &None);
}

#[test]
fn rows_of_another_category_are_not_cleared() {
    let mut table = PackageTable::new();
    table.reconcile(Channel::X86Stable, "extra", &[package("e", "e", "1")]);
    table.reconcile(Channel::X86Stable, "core", &[package("c", "c", "1")]);
    table.reconcile(Channel::X86Stable, "core", &[]);
    assert_eq!(table.get("e").unwrap().version(Channel::X86Stable), &text("1"));
    assert_eq!(table.get("e").unwrap().repo, "extra");
    assert_eq!(table.get("c").unwrap().version(Channel::X86Stable), &None);
}

#[test]
fn a_name_of_another_category_is_merged_into_its_row() {
    let mut table = PackageTable::new();
    table.reconcile(Channel::X86Stable, "extra", &[package("p", "p-extra", "1")]);
    table.reconcile(Channel::LoongStable, "core", &[package("p", "p-core", "2")]);
    assert_eq!(table.len(), 1);
    let p = table.get("p").unwrap();
    assert_eq!(p.repo, "extra");
    assert_eq!(p.base, "p-extra");
    assert_eq!(p.version(Channel::X86Stable), &text("1"));
    assert_eq!(p.version(Channel::LoongStable), &text("2"));
}

#[test]
fn flags_are_carried_along() {
    let mut table = PackageTable::new();
    let mut row = PackageRecord::new("a".to_string(), "a".to_string(), "core".to_string());
    row.flags = Some(3 << 16 | 1 << 15);
    row.set_version(Channel::X86Stable, text("1"));
    table.put(row);
    table.reconcile(Channel::X86Stable, "core", &[package("a", "other", "2")]);
    table.reconcile(Channel::LoongStable, "core", &[]);
    table.sweep();
    let a = table.get("a").unwrap();
    assert_eq!(a.flags, Some(3 << 16 | 1 << 15));
    assert_eq!(a.base, "a");
    assert_eq!(a.version(Channel::X86Stable), &text("2"));
}

#[test]
fn names_in_channel_are_scoped_to_the_category() {
    let mut table = PackageTable::new();
    table.reconcile(Channel::X86Stable, "core", &[package("a", "a", "1"), package("b", "b", "1")]);
    table.reconcile(Channel::X86Stable, "extra", &[package("c", "c", "1")]);
    table.reconcile(Channel::LoongStable, "core", &[package("d", "d", "1")]);
    assert_eq!(sorted(table.names_in_channel(Channel::X86Stable, "core")), vec!["a", "b"]);
    assert_eq!(sorted(table.names_in_channel(Channel::X86Stable, "extra")), vec!["c"]);
    assert_eq!(sorted(table.names_in_channel(Channel::LoongStable, "core")), vec!["d"]);
    assert!(table.names_in_channel(Channel::LoongStaging, "core").is_empty());
}

#[test]
fn clearing_passes_over_names_without_a_row() {
    let mut table = PackageTable::new();
    table.reconcile(Channel::X86Stable, "core", &[package("a", "a", "1"), package("b", "b", "1")]);
    table.clear_channel(Channel::X86Stable, &["a".to_string(), "zzz".to_string()]);
    assert_eq!(table.len(), 2);
    assert_eq!(table.get("a").unwrap().version(Channel::X86Stable), &None);
    assert_eq!(table.get("b").unwrap().version(Channel::X86Stable), &text("1"));
}

#[test]
fn put_replaces_the_row_of_the_name() {
    let mut table = PackageTable::new();
    table.put(PackageRecord::new("a".to_string(), "a".to_string(), "core".to_string()));
    table.put(PackageRecord::new("a".to_string(), "b".to_string(), "extra".to_string()));
    assert_eq!(table.len(), 1);
    assert_eq!(table.get("a").unwrap().base, "b");
    assert_eq!(table.get("a").unwrap().repo, "extra");
}

#[test]
fn an_empty_name_is_a_name() {
    let mut table = PackageTable::new();
    table.reconcile(Channel::X86Stable, "core", &[package("", "", "")]);
    assert_eq!(table.len(), 1);
    assert_eq!(table.get("").unwrap().version(Channel::X86Stable), &text(""));
    assert!(table.get("").unwrap().is_live());
}

#[test]
fn stale_names_are_those_that_the_snapshot_lacks() {
    let current = vec!["a".to_string(), "b".to_string(), "c".to_string(), "b".to_string()];
    let snapshot = vec![package("c", "", ""), package("x", "", "")];
    assert_eq!(stale_names(&current, &snapshot), vec!["a", "b", "b"]);
    assert_eq!(stale_names(&current, &[]), current);
    assert!(stale_names(&[], &snapshot).is_empty());
}

#[test]
fn batches_are_bounded() {
    assert_eq!(BATCH_SIZE, 1000);
    assert_eq!(batch_end(0, 0), 0);
    assert_eq!(batch_end(0, 999), 999);
    assert_eq!(batch_end(0, 1000), 1000);
    assert_eq!(batch_end(0, 1001), 1000);
    assert_eq!(batch_end(1000, 1001), 1001);
    assert_eq!(batch_end(2000, 3500), 3000);
    assert_eq!(batch_end(7, 3), 3);
}

#[test]
fn a_large_snapshot_is_written_whole() {
    let mut table = PackageTable::new();
    let snapshot: Vec<Package> = (0..2503).map(|i| package(&format!("p{}", i), "b", &format!("{}", i))).collect();
    table.reconcile(Channel::LoongStaging, "extra", &snapshot);
    assert_eq!(table.len(), 2503);
    assert_eq!(table.get("p0").unwrap().version(Channel::LoongStaging), &text("0"));
    assert_eq!(table.get("p1000").unwrap().version(Channel::LoongStaging), &text("1000"));
    assert_eq!(table.get("p2502").unwrap().version(Channel::LoongStaging), &text("2502"));
    let half: Vec<Package> = snapshot.into_iter().filter(|p| p.version.len() % 2 == 0).collect();
    table.reconcile(Channel::LoongStaging, "extra", &half);
    table.sweep();
    assert_eq!(table.len(), half.len());
}

#[test]
fn distinct_packages_keep_the_first_base_and_the_last_version() {
    let snapshot = vec![
        package("a", "a0", "1"),
        package("b", "b0", "1"),
        package("a", "a1", "2"),
        package("c", "c0", "1"),
        package("a", "a2", "3"),
        package("b", "b1", "2"),
    ];
    assert_eq!(
        distinct_packages(&snapshot),
        vec![package("a", "a0", "3"), package("b", "b0", "2"), package("c", "c0", "1")]
    );
    assert_eq!(distinct_packages(&snapshot[..2]), snapshot[..2].to_vec());
    assert!(distinct_packages(&[]).is_empty());
}

#[test]
fn writing_the_distinct_packages_is_writing_the_snapshot() {
    let snapshot = vec![
        package("a", "a0", "1"),
        package("", "", ""),
        package("a", "a1", "2"),
        package("", "x", "y"),
    ];
    let mut whole = PackageTable::new();
    whole.reconcile(Channel::X86Stable, "core", &[package("a", "old", "0"), package("z", "z", "0")]);
    let mut few = PackageTable::new();
    few.reconcile(Channel::X86Stable, "core", &[package("a", "old", "0"), package("z", "z", "0")]);
    whole.reconcile(Channel::X86Stable, "core", &snapshot);
    few.reconcile(Channel::X86Stable, "core", &distinct_packages(&snapshot));
    assert_eq!(whole.len(), 3);
    assert_eq!(rows(&whole, &["a", "", "z"]), rows(&few, &["a", "", "z"]));
    assert_eq!(whole.get("").unwrap().base, "");
    assert_eq!(whole.get("").unwrap().version(Channel::X86Stable), &text("y"));
    assert_eq!(whole.get("a").unwrap().base, "old");
    assert_eq!(whole.get("a").unwrap().version(Channel::X86Stable), &text("2"));
}

#[test]
fn the_order_of_a_snapshot_does_not_matter() {
    let snapshot = vec![package("a", "a", "1"), package("b", "b", "2"), package("c", "c", "3")];
    let turned = vec![package("c", "c", "3"), package("a", "a", "1"), package("b", "b", "2")];
    let mut one = PackageTable::new();
    one.reconcile(Channel::LoongStable, "extra", &[package("b", "b", "0"), package("d", "d", "0")]);
    let mut other = PackageTable::new();
    other.reconcile(Channel::LoongStable, "extra", &[package("b", "b", "0"), package("d", "d", "0")]);
    one.reconcile(Channel::LoongStable, "extra", &snapshot);
    other.reconcile(Channel::LoongStable, "extra", &turned);
    assert_eq!(rows(&one, &["a", "b", "c", "d"]), rows(&other, &["a", "b", "c", "d"]));
}

#[test]
fn the_table_lists_its_names() {
    let mut table = PackageTable::new();
    assert!(table.names().is_empty());
    table.reconcile(Channel::X86Stable, "core", &[package("b", "b", "1"), package("a", "a", "1")]);
    table.reconcile(Channel::LoongStable, "extra", &[package("c", "c", "1"), package("a", "a", "2")]);
    assert_eq!(sorted(table.names()), vec!["a", "b", "c"]);
    table.reconcile(Channel::X86Stable, "core", &[]);
    table.sweep();
    assert_eq!(sorted(table.names()), vec!["a", "c"]);
}
