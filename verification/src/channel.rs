//! The fixed set of architectures, repositories and channels that are tracked.

use vstd::prelude::*;

verus! {

/// A hardware architecture whose package index is followed.
#[derive(Clone, Copy, Debug, PartialEq, Eq, Hash, Structural)]
pub enum Arch {
    /// The primary architecture, whose builds set the pace.
    X86,
    /// The secondary architecture, whose builds follow.
    Loong,
}

/// How settled the packages of a repository are.
#[derive(Clone, Copy, Debug, PartialEq, Eq, Hash, Structural)]
pub enum Tier {
    Stable,
    Testing,
    Staging,
}

/// One version column of the package table: an architecture at a tier.
#[derive(Clone, Copy, Debug, PartialEq, Eq, Hash, Structural)]
pub enum Channel {
    X86Stable,
    X86Testing,
    X86Staging,
    LoongStable,
    LoongTesting,
    LoongStaging,
}

/// A repository as the mirrors publish it.
#[derive(Clone, Copy, Debug, PartialEq, Eq, Hash, Structural)]
pub enum Repo {
    Core,
    Extra,
    CoreTesting,
    ExtraTesting,
    CoreStaging,
    ExtraStaging,
}

/// One unit of work of a run: a repository as built for an architecture.
#[derive(Clone, Copy, Debug, PartialEq, Eq, Hash, Structural)]
pub struct Pair {
    pub arch: Arch,
    pub repo: Repo,
}

impl Arch {
    /// The name of the architecture in mirror paths.
    pub open spec fn tag_text(self) -> Seq<char> {
        match self {
            Arch::X86 => "x86_64"@,
            Arch::Loong => "loong64"@,
        }
    }

    /// The name of the architecture in mirror paths.
    pub fn tag(self) -> (r: &'static str)
        ensures
            r@ == self.tag_text(),
    {
        match self {
            Arch::X86 => "x86_64",
            Arch::Loong => "loong64",
        }
    }

    /// The mirror that is read when no other locator is configured.
    pub open spec fn default_locator_text(self) -> Seq<char> {
        match self {
            Arch::X86 => "https://mirrors.pku.edu.cn/archlinux"@,
            Arch::Loong => "https://mirrors.pku.edu.cn/loongarch-lcpu/archlinux"@,
        }
    }

    /// The mirror that is read when no other locator is configured.
    pub fn default_locator(self) -> (r: &'static str)
        ensures
            r@ == self.default_locator_text(),
    {
        match self {
            Arch::X86 => "https://mirrors.pku.edu.cn/archlinux",
            Arch::Loong => "https://mirrors.pku.edu.cn/loongarch-lcpu/archlinux",
        }
    }
}

impl Channel {
    /// The channel of an architecture at a tier.
    pub open spec fn spec_of(arch: Arch, tier: Tier) -> Channel {
        match (arch, tier) {
            (Arch::X86, Tier::Stable) => Channel::X86Stable,
            (Arch::X86, Tier::Testing) => Channel::X86Testing,
            (Arch::X86, Tier::Staging) => Channel::X86Staging,
            (Arch::Loong, Tier::Stable) => Channel::LoongStable,
            (Arch::Loong, Tier::Testing) => Channel::LoongTesting,
            (Arch::Loong, Tier::Staging) => Channel::LoongStaging,
        }
    }

    /// The channel of an architecture at a tier.
    #[verifier::when_used_as_spec(spec_of)]
    pub fn of(arch: Arch, tier: Tier) -> (r: Channel)
        ensures
            r == Channel::spec_of(arch, tier),
    {
        match (arch, tier) {
            (Arch::X86, Tier::Stable) => Channel::X86Stable,
            (Arch::X86, Tier::Testing) => Channel::X86Testing,
            (Arch::X86, Tier::Staging) => Channel::X86Staging,
            (Arch::Loong, Tier::Stable) => Channel::LoongStable,
            (Arch::Loong, Tier::Testing) => Channel::LoongTesting,
            (Arch::Loong, Tier::Staging) => Channel::LoongStaging,
        }
    }

    pub open spec fn spec_arch(self) -> Arch {
        match self {
            Channel::X86Stable | Channel::X86Testing | Channel::X86Staging => Arch::X86,
            Channel::LoongStable | Channel::LoongTesting | Channel::LoongStaging => Arch::Loong,
        }
    }

    /// The architecture whose builds the channel holds.
    #[verifier::when_used_as_spec(spec_arch)]
    pub fn arch(self) -> (r: Arch)
        ensures
            r == self.spec_arch(),
    {
        match self {
            Channel::X86Stable | Channel::X86Testing | Channel::X86Staging => Arch::X86,
            Channel::LoongStable | Channel::LoongTesting | Channel::LoongStaging => Arch::Loong,
        }
    }

    pub open spec fn spec_tier(self) -> Tier {
        match self {
            Channel::X86Stable | Channel::LoongStable => Tier::Stable,
            Channel::X86Testing | Channel::LoongTesting => Tier::Testing,
            Channel::X86Staging | Channel::LoongStaging => Tier::Staging,
        }
    }

    /// The tier of the channel.
    #[verifier::when_used_as_spec(spec_tier)]
    pub fn tier(self) -> (r: Tier)
        ensures
            r == self.spec_tier(),
    {
        match self {
            Channel::X86Stable | Channel::LoongStable => Tier::Stable,
            Channel::X86Testing | Channel::LoongTesting => Tier::Testing,
            Channel::X86Staging | Channel::LoongStaging => Tier::Staging,
        }
    }

    /// The name of the table column that holds the channel's versions.
    pub open spec fn column_text(self) -> Seq<char> {
        match self {
            Channel::X86Stable => "x86_version"@,
            Channel::X86Testing => "x86_testing_version"@,
            Channel::X86Staging => "x86_staging_version"@,
            Channel::LoongStable => "loong_version"@,
            Channel::LoongTesting => "loong_testing_version"@,
            Channel::LoongStaging => "loong_staging_version"@,
        }
    }

    /// The name of the table column that holds the channel's versions.
    pub fn column(self) -> (r: &'static str)
        ensures
            r@ == self.column_text(),
    {
        match self {
            Channel::X86Stable => "x86_version",
            Channel::X86Testing => "x86_testing_version",
            Channel::X86Staging => "x86_staging_version",
            Channel::LoongStable => "loong_version",
            Channel::LoongTesting => "loong_testing_version",
            Channel::LoongStaging => "loong_staging_version",
        }
    }

    /// Every channel, in column order.
    pub open spec fn all_channels() -> Seq<Channel> {
        seq![
            Channel::X86Stable,
            Channel::X86Testing,
            Channel::X86Staging,
            Channel::LoongStable,
            Channel::LoongTesting,
            Channel::LoongStaging,
        ]
    }

    /// Every channel, in column order.
    pub fn all() -> (r: Vec<Channel>)
        ensures
            r@ == Channel::all_channels(),
    {
        let mut v: Vec<Channel> = Vec::new();
        v.push(Channel::X86Stable);
        v.push(Channel::X86Testing);
        v.push(Channel::X86Staging);
        v.push(Channel::LoongStable);
        v.push(Channel::LoongTesting);
        v.push(Channel::LoongStaging);
        v
    }
}

impl Repo {
    /// The name under which the mirrors publish the repository.
    pub open spec fn name_text(self) -> Seq<char> {
        match self {
            Repo::Core => "core"@,
            Repo::Extra => "extra"@,
            Repo::CoreTesting => "core-testing"@,
            Repo::ExtraTesting => "extra-testing"@,
            Repo::CoreStaging => "core-staging"@,
            Repo::ExtraStaging => "extra-staging"@,
        }
    }

    /// The name under which the mirrors publish the repository.
    pub fn name(self) -> (r: &'static str)
        ensures
            r@ == self.name_text(),
    {
        match self {
            Repo::Core => "core",
            Repo::Extra => "extra",
            Repo::CoreTesting => "core-testing",
            Repo::ExtraTesting => "extra-testing",
            Repo::CoreStaging => "core-staging",
            Repo::ExtraStaging => "extra-staging",
        }
    }

    pub open spec fn spec_tier(self) -> Tier {
        match self {
            Repo::Core | Repo::Extra => Tier::Stable,
            Repo::CoreTesting | Repo::ExtraTesting => Tier::Testing,
            Repo::CoreStaging | Repo::ExtraStaging => Tier::Staging,
        }
    }

    /// The tier whose column the repository's versions go to.
    #[verifier::when_used_as_spec(spec_tier)]
    pub fn tier(self) -> (r: Tier)
        ensures
            r == self.spec_tier(),
    {
        match self {
            Repo::Core | Repo::Extra => Tier::Stable,
            Repo::CoreTesting | Repo::ExtraTesting => Tier::Testing,
            Repo::CoreStaging | Repo::ExtraStaging => Tier::Staging,
        }
    }

    /// The category that rows of the repository carry: the testing and
    /// staging variants share the category of their stable repository.
    pub open spec fn category_text(self) -> Seq<char> {
        match self {
            Repo::Core | Repo::CoreTesting | Repo::CoreStaging => "core"@,
            Repo::Extra | Repo::ExtraTesting | Repo::ExtraStaging => "extra"@,
        }
    }

    /// The category that rows of the repository carry.
    pub fn category(self) -> (r: &'static str)
        ensures
            r@ == self.category_text(),
    {
        match self {
            Repo::Core | Repo::CoreTesting | Repo::CoreStaging => "core",
            Repo::Extra | Repo::ExtraTesting | Repo::ExtraStaging => "extra",
        }
    }

    /// Every repository, in the order in which a run visits them.
    pub open spec fn all_repos() -> Seq<Repo> {
        seq![
            Repo::Core,
            Repo::Extra,
            Repo::CoreTesting,
            Repo::ExtraTesting,
            Repo::CoreStaging,
            Repo::ExtraStaging,
        ]
    }
}

impl Pair {
    pub open spec fn spec_channel(self) -> Channel {
        Channel::spec_of(self.arch, self.repo.spec_tier())
    }

    /// The column that the pair's reconciliation writes.
    #[verifier::when_used_as_spec(spec_channel)]
    pub fn channel(self) -> (r: Channel)
        ensures
            r == self.spec_channel(),
    {
        Channel::of(self.arch, self.repo.tier())
    }
}

/// The pairs of a run, in the order in which they are visited: every
/// repository of the primary architecture, then every repository of the
/// secondary one.
pub open spec fn pair_table() -> Seq<Pair> {
    Seq::new(
        12,
        |i: int|
            Pair {
                arch: if i < 6 {
                    Arch::X86
                } else {
                    Arch::Loong
                },
                repo: Repo::all_repos()[i % 6],
            },
    )
}

/// The pairs of a run, in the order in which they are visited.
pub fn pairs() -> (r: Vec<Pair>)
    ensures
        r@ == pair_table(),
{
    let mut v: Vec<Pair> = Vec::new();
    v.push(Pair { arch: Arch::X86, repo: Repo::Core });
    v.push(Pair { arch: Arch::X86, repo: Repo::Extra });
    v.push(Pair { arch: Arch::X86, repo: Repo::CoreTesting });
    v.push(Pair { arch: Arch::X86, repo: Repo::ExtraTesting });
    v.push(Pair { arch: Arch::X86, repo: Repo::CoreStaging });
    v.push(Pair { arch: Arch::X86, repo: Repo::ExtraStaging });
    v.push(Pair { arch: Arch::Loong, repo: Repo::Core });
    v.push(Pair { arch: Arch::Loong, repo: Repo::Extra });
    v.push(Pair { arch: Arch::Loong, repo: Repo::CoreTesting });
    v.push(Pair { arch: Arch::Loong, repo: Repo::ExtraTesting });
    v.push(Pair { arch: Arch::Loong, repo: Repo::CoreStaging });
    v.push(Pair { arch: Arch::Loong, repo: Repo::ExtraStaging });
    v
}

} // verus!
