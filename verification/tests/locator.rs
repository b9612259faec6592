use isloongupdated::channel::{Arch, Repo};
use isloongupdated::config::Settings;
use isloongupdated::error::RunError;
use isloongupdated::locator::{index_location, is_local, IndexLocation};

#[test]
fn a_remote_index_lies_below_repository_and_architecture() {
    assert_eq!(
        index_location("https://mirrors.pku.edu.cn/archlinux", Arch::X86, Repo::Core),
        IndexLocation::Remote { url: "https://mirrors.pku.edu.cn/archlinux/core/os/x86_64/core.db".to_string() }
    );
    assert_eq!(
        index_location("http://mirror/loong", Arch::Loong, Repo::ExtraTesting),
        IndexLocation::Remote { url: "http://mirror/loong/extra-testing/os/loong64/extra-testing.db".to_string() }
    );
}

#[test]
fn a_local_index_of_the_primary_architecture_lies_flat() {
    assert_eq!(
        index_location("file:///srv/mirror", Arch::X86, Repo::CoreStaging),
        IndexLocation::Local { path: "/srv/mirror/core-staging.db".to_string() }
    );
}

#[test]
fn a_local_index_of_the_secondary_architecture_lies_nested() {
    assert_eq!(
        index_location("file:///srv/mirror", Arch::Loong, Repo::Extra),
        IndexLocation::Local { path: "/srv/mirror/extra/os/loong64/extra.db".to_string() }
    );
}

#[test]
fn only_three_slashes_make_a_locator_local() {
    assert!(is_local("file:///"));
    assert!(is_local("file:///srv"));
    assert!(!is_local("file://srv"));
    assert!(!is_local("file:/"));
    assert!(!is_local(""));
    assert!(!is_local("https://mirror/file:///"));
    assert_eq!(
        index_location("file:///", Arch::X86, Repo::Core),
        IndexLocation::Local { path: "//core.db".to_string() }
    );
    assert_eq!(
        index_location("file://host/dir", Arch::X86, Repo::Core),
        IndexLocation::Remote { url: "file://host/dir/core/os/x86_64/core.db".to_string() }
    );
}

#[test]
fn a_locator_outside_ascii_is_kept() {
    assert_eq!(
        index_location("file:///srv/зеркало", Arch::X86, Repo::Core),
        IndexLocation::Local { path: "/srv/зеркало/core.db".to_string() }
    );
}

#[test]
fn settings_need_the_store_and_default_the_mirrors() {
    assert_eq!(Settings::new(None, Some("a".to_string()), Some("b".to_string())), Err(RunError::Config));
    let settings = Settings::new(Some("postgres://db".to_string()), None, None).unwrap();
    assert_eq!(settings.database_url, "postgres://db");
    assert_eq!(settings.locator(Arch::X86), "https://mirrors.pku.edu.cn/archlinux");
    assert_eq!(settings.locator(Arch::Loong), "https://mirrors.pku.edu.cn/loongarch-lcpu/archlinux");
    let settings = Settings::new(
        Some("postgres://db".to_string()),
        Some("file:///x".to_string()),
        Some("file:///l".to_string()),
    )
    .unwrap();
    assert_eq!(settings.locator(Arch::X86), "file:///x");
    assert_eq!(settings.locator(Arch::Loong), "file:///l");
}

#[test]
fn failures_describe_themselves() {
    assert_eq!(RunError::Fetch.describe(), "the package index could not be fetched");
    assert_eq!(RunError::Storage.describe(), "the package table could not be read or written");
    assert_eq!(RunError::Config.describe(), "the configuration is incomplete");
}
