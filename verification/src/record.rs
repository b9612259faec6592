//! The rows of the package table.

use vstd::prelude::*;
use crate::channel::Channel;
use crate::text::opt_text;

verus! {

/// One row of the package table: a package, and the version that each
/// channel offers of it.
#[derive(Clone, Debug, PartialEq, Eq)]
pub struct PackageRecord {
    /// The name of the package: the key of the row.
    pub name: String,
    /// The source package that it was built from.
    pub base: String,
    /// The category of the package.
    pub repo: String,
    /// What the build pipeline recorded of the package. Reconciliation
    /// carries it along and never looks at it.
    pub flags: Option<i32>,
    pub x86_version: Option<String>,
    pub x86_testing_version: Option<String>,
    pub x86_staging_version: Option<String>,
    pub loong_version: Option<String>,
    pub loong_testing_version: Option<String>,
    pub loong_staging_version: Option<String>,
}

/// A row as the contracts see it.
pub struct RecordView {
    pub name: Seq<char>,
    pub base: Seq<char>,
    pub repo: Seq<char>,
    pub flags: Option<i32>,
    pub x86_version: Option<Seq<char>>,
    pub x86_testing_version: Option<Seq<char>>,
    pub x86_staging_version: Option<Seq<char>>,
    pub loong_version: Option<Seq<char>>,
    pub loong_testing_version: Option<Seq<char>>,
    pub loong_staging_version: Option<Seq<char>>,
}

impl View for PackageRecord {
    type V = RecordView;

    open spec fn view(&self) -> RecordView {
        RecordView {
            name: self.name@,
            base: self.base@,
            repo: self.repo@,
            flags: self.flags,
            x86_version: opt_text(self.x86_version),
            x86_testing_version: opt_text(self.x86_testing_version),
            x86_staging_version: opt_text(self.x86_staging_version),
            loong_version: opt_text(self.loong_version),
            loong_testing_version: opt_text(self.loong_testing_version),
            loong_staging_version: opt_text(self.loong_staging_version),
        }
    }
}

impl RecordView {
    /// The row of a package that no channel offers.
    pub open spec fn fresh(name: Seq<char>, base: Seq<char>, repo: Seq<char>) -> RecordView {
        RecordView {
            name,
            base,
            repo,
            flags: None,
            x86_version: None,
            x86_testing_version: None,
            x86_staging_version: None,
            loong_version: None,
            loong_testing_version: None,
            loong_staging_version: None,
        }
    }

    /// The version that `channel` offers, if it offers the package.
    pub open spec fn version(self, channel: Channel) -> Option<Seq<char>> {
        match channel {
            Channel::X86Stable => self.x86_version,
            Channel::X86Testing => self.x86_testing_version,
            Channel::X86Staging => self.x86_staging_version,
            Channel::LoongStable => self.loong_version,
            Channel::LoongTesting => self.loong_testing_version,
            Channel::LoongStaging => self.loong_staging_version,
        }
    }

    /// The row with `version` for `channel`, and all else as it is.
    pub open spec fn with_version(self, channel: Channel, version: Option<Seq<char>>) -> RecordView {
        match channel {
            Channel::X86Stable => RecordView { x86_version: version, ..self },
            Channel::X86Testing => RecordView { x86_testing_version: version, ..self },
            Channel::X86Staging => RecordView { x86_staging_version: version, ..self },
            Channel::LoongStable => RecordView { loong_version: version, ..self },
            Channel::LoongTesting => RecordView { loong_testing_version: version, ..self },
            Channel::LoongStaging => RecordView { loong_staging_version: version, ..self },
        }
    }

    /// Some channel offers the package.
    pub open spec fn live(self) -> bool {
        exists|channel: Channel| (#[trigger] self.version(channel)) is Some
    }

    /// `channel` offers the package, and the package is of `category`.
    pub open spec fn offered_in(self, channel: Channel, category: Seq<char>) -> bool {
        self.version(channel) is Some && self.repo == category
    }
}

impl PackageRecord {
    /// The row of a package that no channel offers.
    pub fn new(name: String, base: String, repo: String) -> (r: PackageRecord)
        ensures
            r@ == RecordView::fresh(name@, base@, repo@),
    {
        PackageRecord {
            name,
            base,
            repo,
            flags: None,
            x86_version: None,
            x86_testing_version: None,
            x86_staging_version: None,
            loong_version: None,
            loong_testing_version: None,
            loong_staging_version: None,
        }
    }

    /// The version that `channel` offers, if it offers the package.
    pub fn version(&self, channel: Channel) -> (r: &Option<String>)
        ensures
            opt_text(*r) == self@.version(channel),
    {
        match channel {
            Channel::X86Stable => &self.x86_version,
            Channel::X86Testing => &self.x86_testing_version,
            Channel::X86Staging => &self.x86_staging_version,
            Channel::LoongStable => &self.loong_version,
            Channel::LoongTesting => &self.loong_testing_version,
            Channel::LoongStaging => &self.loong_staging_version,
        }
    }

    /// Sets the version that `channel` offers and leaves all else as it is.
    pub fn set_version(&mut self, channel: Channel, version: Option<String>)
        ensures
            final(self)@ == old(self)@.with_version(channel, opt_text(version)),
    {
        match channel {
            Channel::X86Stable => {
                self.x86_version = version;
            },
            Channel::X86Testing => {
                self.x86_testing_version = version;
            },
            Channel::X86Staging => {
                self.x86_staging_version = version;
            },
            Channel::LoongStable => {
                self.loong_version = version;
            },
            Channel::LoongTesting => {
                self.loong_testing_version = version;
            },
            Channel::LoongStaging => {
                self.loong_staging_version = version;
            },
        }
    }

    /// Tells whether some channel offers the package.
    pub fn is_live(&self) -> (r: bool)
        ensures
            r == self@.live(),
    {
        let r = self.x86_version.is_some() || self.x86_testing_version.is_some()
            || self.x86_staging_version.is_some() || self.loong_version.is_some()
            || self.loong_testing_version.is_some() || self.loong_staging_version.is_some();
        proof {
            let v = self@;
            if r {
                if v.x86_version is Some {
                    assert(v.version(Channel::X86Stable) is Some);
                } else if v.x86_testing_version is Some {
                    assert(v.version(Channel::X86Testing) is Some);
                } else if v.x86_staging_version is Some {
                    assert(v.version(Channel::X86Staging) is Some);
                } else if v.loong_version is Some {
                    assert(v.version(Channel::LoongStable) is Some);
                } else if v.loong_testing_version is Some {
                    assert(v.version(Channel::LoongTesting) is Some);
                } else {
                    assert(v.version(Channel::LoongStaging) is Some);
                }
            }
        }
        r
    }

    /// A copy of the row.
    pub fn duplicate(&self) -> (r: PackageRecord)
        ensures
            r@ == self@,
    {
        PackageRecord {
            name: self.name.clone(),
            base: self.base.clone(),
            repo: self.repo.clone(),
            flags: self.flags,
            x86_version: copy_text(&self.x86_version),
            x86_testing_version: copy_text(&self.x86_testing_version),
            x86_staging_version: copy_text(&self.x86_staging_version),
            loong_version: copy_text(&self.loong_version),
            loong_testing_version: copy_text(&self.loong_testing_version),
            loong_staging_version: copy_text(&self.loong_staging_version),
        }
    }
}

fn copy_text(o: &Option<String>) -> (r: Option<String>)
    ensures
        opt_text(r) == opt_text(*o),
{
    match o {
        Some(s) => Some(s.clone()),
        None => None,
    }
}

} // verus!
