use isloongupdated::channel::{pairs, Arch, Channel, Pair, Repo, Tier};

#[test]
fn columns_are_named_after_architecture_and_tier() {
    assert_eq!(Channel::X86Stable.column(), "x86_version");
    assert_eq!(Channel::X86Testing.column(), "x86_testing_version");
    assert_eq!(Channel::X86Staging.column(), "x86_staging_version");
    assert_eq!(Channel::LoongStable.column(), "loong_version");
    assert_eq!(Channel::LoongTesting.column(), "loong_testing_version");
    assert_eq!(Channel::LoongStaging.column(), "loong_staging_version");
}

#[test]
fn a_channel_is_an_architecture_at_a_tier() {
    for channel in Channel::all() {
        assert_eq!(Channel::of(channel.arch(), channel.tier()), channel);
    }
    assert_eq!(Channel::of(Arch::Loong, Tier::Testing), Channel::LoongTesting);
    assert_eq!(Channel::of(Arch::X86, Tier::Staging), Channel::X86Staging);
    assert_eq!(Channel::all().len(), 6);
}

#[test]
fn testing_and_staging_share_the_category_of_the_stable_repository() {
    assert_eq!(Repo::Core.category(), "core");
    assert_eq!(Repo::CoreTesting.category(), "core");
    assert_eq!(Repo::CoreStaging.category(), "core");
    assert_eq!(Repo::Extra.category(), "extra");
    assert_eq!(Repo::ExtraTesting.category(), "extra");
    assert_eq!(Repo::ExtraStaging.category(), "extra");
}

#[test]
fn repositories_have_their_mirror_names_and_tiers() {
    assert_eq!(Repo::Core.name(), "core");
    assert_eq!(Repo::Extra.name(), "extra");
    assert_eq!(Repo::CoreTesting.name(), "core-testing");
    assert_eq!(Repo::ExtraTesting.name(), "extra-testing");
    assert_eq!(Repo::CoreStaging.name(), "core-staging");
    assert_eq!(Repo::ExtraStaging.name(), "extra-staging");
    assert_eq!(Repo::Core.tier(), Tier::Stable);
    assert_eq!(Repo::Extra.tier(), Tier::Stable);
    assert_eq!(Repo::CoreTesting.tier(), Tier::Testing);
    assert_eq!(Repo::ExtraTesting.tier(), Tier::Testing);
    assert_eq!(Repo::CoreStaging.tier(), Tier::Staging);
    assert_eq!(Repo::ExtraStaging.tier(), Tier::Staging);
}

#[test]
fn architectures_have_their_tags_and_default_mirrors() {
    assert_eq!(Arch::X86.tag(), "x86_64");
    assert_eq!(Arch::Loong.tag(), "loong64");
    assert_eq!(Arch::X86.default_locator(), "https://mirrors.pku.edu.cn/archlinux");
    assert_eq!(Arch::Loong.default_locator(), "https://mirrors.pku.edu.cn/loongarch-lcpu/archlinux");
}

#[test]
fn a_run_visits_twelve_pairs_in_a_fixed_order() {
    let repos = [
        Repo::Core,
        Repo::Extra,
        Repo::CoreTesting,
        Repo::ExtraTesting,
        Repo::CoreStaging,
        Repo::ExtraStaging,
    ];
    let mut expected = Vec::new();
    for arch in [Arch::X86, Arch::Loong] {
        for repo in repos {
            expected.push(Pair { arch, repo });
        }
    }
    assert_eq!(pairs(), expected);
}

#[test]
fn a_pair_writes_the_column_of_its_architecture_and_tier() {
    assert_eq!(Pair { arch: Arch::X86, repo: Repo::Core }.channel(), Channel::X86Stable);
    assert_eq!(Pair { arch: Arch::X86, repo: Repo::Extra }.channel(), Channel::X86Stable);
    assert_eq!(Pair { arch: Arch::Loong, repo: Repo::CoreTesting }.channel(), Channel::LoongTesting);
    assert_eq!(Pair { arch: Arch::Loong, repo: Repo::ExtraStaging }.channel(), Channel::LoongStaging);
}
