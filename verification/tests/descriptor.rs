use isloongupdated::descriptor::{collect_snapshot, parse_desc, Descriptor, Package};

fn package(name: &str, base: &str, version: &str) -> Package {
    Package { name: name.to_string(), base: base.to_string(), version: version.to_string() }
}

#[test]
fn reads_the_three_fields() {
    let text = "%FILENAME%\nfoo-1.0-1-x86_64.pkg.tar.zst\n\n%NAME%\nfoo\n\n%BASE%\nfoo-base\n\n%VERSION%\n1.0-1\n\n%DESC%\nA package\n";
    assert_eq!(parse_desc(text), package("foo", "foo-base", "1.0-1"));
}

#[test]
fn other_fields_are_ignored() {
    let text = "%DESC%\nfoo\n%LICENSE%\nGPL\nMIT\n%NAME%\nbar\n";
    assert_eq!(parse_desc(text), package("bar", "", ""));
}

#[test]
fn missing_fields_stay_empty() {
    assert_eq!(parse_desc(""), package("", "", ""));
    assert_eq!(parse_desc("%NAME%\nfoo\n"), package("foo", "", ""));
    assert_eq!(parse_desc("%VERSION%\n2.3-4"), package("", "", "2.3-4"));
    assert_eq!(parse_desc("%NAME%\n%BASE%\nb\n"), package("", "b", ""));
}

#[test]
fn a_value_before_any_header_is_ignored() {
    assert_eq!(parse_desc("foo\n%NAME%\nbar\n"), package("bar", "", ""));
}

#[test]
fn only_the_first_value_line_counts() {
    assert_eq!(parse_desc("%NAME%\nfoo\nbar\n"), package("foo", "", ""));
    assert_eq!(parse_desc("%NAME%\n\n\nfoo\n\nbar\n"), package("foo", "", ""));
}

#[test]
fn a_repeated_field_keeps_its_last_value() {
    assert_eq!(parse_desc("%NAME%\nfoo\n%NAME%\nbar\n"), package("bar", "", ""));
    assert_eq!(parse_desc("%NAME%\nfoo\n%NAME%\n%BASE%\nb"), package("foo", "b", ""));
}

#[test]
fn carriage_returns_before_line_feeds_are_dropped() {
    assert_eq!(parse_desc("%NAME%\r\nfoo\r\n%BASE%\r\nbar\r\n"), package("foo", "bar", ""));
    assert_eq!(parse_desc("%NAME%\nfoo\r"), package("foo\r", "", ""));
}

#[test]
fn a_header_is_any_line_between_percent_signs() {
    assert_eq!(parse_desc("%NAME%\n%\nfoo\n"), package("", "", ""));
    assert_eq!(parse_desc("%NAME%\n%name%\nfoo\n"), package("", "", ""));
    assert_eq!(parse_desc("%NAME%\n %NAME%\n"), package(" %NAME%", "", ""));
}

#[test]
fn text_outside_ascii_is_kept() {
    assert_eq!(parse_desc("%NAME%\nfoo-é\n%VERSION%\n1.0-β\n"), package("foo-é", "", "1.0-β"));
}

#[test]
fn a_snapshot_has_one_package_for_each_descriptor() {
    let found = vec![
        Descriptor::Text("%NAME%\nfoo\n%BASE%\nfoo\n%VERSION%\n1.0-1\n".to_string()),
        Descriptor::Missing,
        Descriptor::Text("%NAME%\nbar\n".to_string()),
    ];
    assert_eq!(
        collect_snapshot(&found),
        vec![package("foo", "foo", "1.0-1"), package("", "", ""), package("bar", "", "")]
    );
    assert_eq!(collect_snapshot(&[]), Vec::<Package>::new());
}

#[test]
fn what_cannot_be_read_is_left_out_of_the_snapshot() {
    let found = vec![
        Descriptor::Unreadable,
        Descriptor::Text("%NAME%\nfoo\n".to_string()),
        Descriptor::Unreadable,
        Descriptor::Missing,
        Descriptor::Text(String::new()),
    ];
    assert_eq!(
        collect_snapshot(&found),
        vec![package("foo", "", ""), package("", "", ""), package("", "", "")]
    );
    assert_eq!(collect_snapshot(&[Descriptor::Unreadable]), Vec::<Package>::new());
}
