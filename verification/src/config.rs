//! What a run is configured with.

use vstd::prelude::*;
use crate::channel::Arch;
use crate::error::RunError;
use crate::text::opt_text;

verus! {

/// The settings of a run.
#[derive(Debug, PartialEq, Eq)]
pub struct Settings {
    /// Where the store of the package table is reached.
    pub database_url: String,
    /// The locator of the mirror of the primary architecture.
    pub x86_locator: String,
    /// The locator of the mirror of the secondary architecture.
    pub loong_locator: String,
}

/// Settings as the contracts see them.
pub struct SettingsView {
    pub database_url: Seq<char>,
    pub x86_locator: Seq<char>,
    pub loong_locator: Seq<char>,
}

impl View for Settings {
    type V = SettingsView;

    open spec fn view(&self) -> SettingsView {
        SettingsView {
            database_url: self.database_url@,
            x86_locator: self.x86_locator@,
            loong_locator: self.loong_locator@,
        }
    }
}

/// The locator to read for `arch`: the configured one, or else the default
/// mirror of the architecture.
pub open spec fn locator_or_default(configured: Option<Seq<char>>, arch: Arch) -> Seq<char> {
    match configured {
        Some(locator) => locator,
        None => arch.default_locator_text(),
    }
}

/// The settings that follow from what is configured. The store has no
/// default: without it there are no settings.
pub open spec fn settled(
    database_url: Option<Seq<char>>,
    x86_locator: Option<Seq<char>>,
    loong_locator: Option<Seq<char>>,
) -> Result<SettingsView, RunError> {
    match database_url {
        Some(url) => Ok(
            SettingsView {
                database_url: url,
                x86_locator: locator_or_default(x86_locator, Arch::X86),
                loong_locator: locator_or_default(loong_locator, Arch::Loong),
            },
        ),
        None => Err(RunError::Config),
    }
}

fn locator_or(configured: Option<String>, arch: Arch) -> (r: String)
    ensures
        r@ == locator_or_default(opt_text(configured), arch),
{
    match configured {
        Some(locator) => locator,
        None => String::from_str(arch.default_locator()),
    }
}

impl Settings {
    /// The settings that follow from what is configured.
    pub fn new(
        database_url: Option<String>,
        x86_locator: Option<String>,
        loong_locator: Option<String>,
    ) -> (r: Result<Settings, RunError>)
        ensures
            match settled(opt_text(database_url), opt_text(x86_locator), opt_text(loong_locator)) {
                Ok(settings) => r is Ok && r->Ok_0@ == settings,
                Err(error) => r == Err::<Settings, RunError>(error),
            },
    {
        match database_url {
            Some(url) => Ok(
                Settings {
                    database_url: url,
                    x86_locator: locator_or(x86_locator, Arch::X86),
                    loong_locator: locator_or(loong_locator, Arch::Loong),
                },
            ),
            None => Err(RunError::Config),
        }
    }

    /// The locator of the mirror of `arch`.
    pub fn locator(&self, arch: Arch) -> (r: &str)
        ensures
            r@ == match arch {
                Arch::X86 => self@.x86_locator,
                Arch::Loong => self@.loong_locator,
            },
    {
        match arch {
            Arch::X86 => self.x86_locator.as_str(),
            Arch::Loong => self.loong_locator.as_str(),
        }
    }
}

} // verus!
