use isloongupdated::channel::Channel;
use isloongupdated::descriptor::Package;
use isloongupdated::statement::{
    clear_statement, count_last_update_statement, create_last_update_statement, create_packages_statement,
    decimal_text, read_last_update_statement, select_statement, stamp_statement, sweep_statement,
    upsert_statement, upsert_values,
};

fn package(name: &str, base: &str, version: &str) -> Package {
    Package { name: name.to_string(), base: base.to_string(), version: version.to_string() }
}

#[test]
fn numbers_are_written_in_decimal() {
    assert_eq!(decimal_text(0), "0");
    assert_eq!(decimal_text(7), "7");
    assert_eq!(decimal_text(10), "10");
    assert_eq!(decimal_text(4000), "4000");
    assert_eq!(decimal_text(1234567890), "1234567890");
    assert_eq!(decimal_text(usize::MAX), usize::MAX.to_string());
}

#[test]
fn the_select_names_the_column() {
    assert_eq!(
        select_statement(Channel::LoongTesting),
        "SELECT name FROM packages WHERE repo = $1 AND loong_testing_version IS NOT NULL"
    );
}

#[test]
fn the_clear_has_one_placeholder_for_each_name() {
    assert_eq!(clear_statement(Channel::X86Stable, 0), None);
    assert_eq!(
        clear_statement(Channel::X86Stable, 1),
        Some("UPDATE packages SET x86_version = NULL WHERE name IN ($1)".to_string())
    );
    assert_eq!(
        clear_statement(Channel::LoongStaging, 3),
        Some("UPDATE packages SET loong_staging_version = NULL WHERE name IN ($1, $2, $3)".to_string())
    );
    let long = clear_statement(Channel::X86Stable, 12).unwrap();
    assert!(long.ends_with("$9, $10, $11, $12)"));
}

#[test]
fn the_upsert_has_four_placeholders_for_each_package() {
    assert_eq!(
        upsert_statement(Channel::LoongStable, 1),
        Some(
            "MERGE INTO packages AS target USING (VALUES ($1, $2, $3, $4)) AS source (name, base, repo, version) \
             ON target.name = source.name WHEN MATCHED THEN UPDATE SET loong_version = source.version \
             WHEN NOT MATCHED THEN INSERT (name, base, repo, loong_version) \
             VALUES (source.name, source.base, source.repo, source.version)"
                .to_string()
        )
    );
    let three = upsert_statement(Channel::X86Testing, 3).unwrap();
    assert!(three.starts_with(
        "MERGE INTO packages AS target USING (VALUES ($1, $2, $3, $4), ($5, $6, $7, $8), ($9, $10, $11, $12)) AS source"
    ));
    assert!(three.contains("UPDATE SET x86_testing_version = source.version"));
    assert!(three.contains("INSERT (name, base, repo, x86_testing_version)"));
}

#[test]
fn the_upsert_is_for_one_batch() {
    assert_eq!(upsert_statement(Channel::X86Stable, 0), None);
    assert_eq!(upsert_statement(Channel::X86Stable, 1001), None);
    assert_eq!(upsert_statement(Channel::X86Stable, usize::MAX), None);
    let full = upsert_statement(Channel::X86Stable, 1000).unwrap();
    assert!(full.contains("($3997, $3998, $3999, $4000)) AS source"));
    assert!(!full.contains("$4001"));
}

#[test]
fn the_values_follow_the_placeholders() {
    let batch = vec![package("foo", "foo-base", "1.0-1"), package("bar", "bar-base", "2.3-4")];
    assert_eq!(
        upsert_values(&batch, "core"),
        vec!["foo", "foo-base", "core", "1.0-1", "bar", "bar-base", "core", "2.3-4"]
    );
    assert!(upsert_values(&[], "core").is_empty());
}

#[test]
fn the_sweep_asks_every_channel() {
    assert_eq!(
        sweep_statement(),
        "DELETE FROM packages WHERE x86_version IS NULL AND x86_testing_version IS NULL \
         AND x86_staging_version IS NULL AND loong_version IS NULL AND loong_testing_version IS NULL \
         AND loong_staging_version IS NULL"
    );
}

#[test]
fn the_package_table_has_a_column_for_every_channel() {
    assert_eq!(
        create_packages_statement(),
        "CREATE TABLE IF NOT EXISTS packages (name TEXT PRIMARY KEY, base TEXT, repo TEXT, \
         x86_version TEXT, x86_testing_version TEXT, x86_staging_version TEXT, loong_version TEXT, \
         loong_testing_version TEXT, loong_staging_version TEXT)"
    );
}

#[test]
fn the_time_of_the_last_run_is_put_in_once_and_replaced_after() {
    assert_eq!(stamp_statement(0), "INSERT INTO last_update (last_update) VALUES ($1)");
    assert_eq!(stamp_statement(1), "UPDATE last_update SET last_update = $1");
    assert_eq!(stamp_statement(2), "UPDATE last_update SET last_update = $1");
    assert_eq!(
        create_last_update_statement(),
        "CREATE TABLE IF NOT EXISTS last_update (last_update TEXT PRIMARY KEY)"
    );
    assert_eq!(read_last_update_statement(), "SELECT last_update FROM last_update LIMIT 1");
    assert_eq!(count_last_update_statement(), "SELECT COUNT(*) FROM last_update");
}
