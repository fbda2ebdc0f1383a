//! Settings-surface state that does not touch the window toolkit: the
//! tab and theme choices and the profile operations behind the buttons.

use vstd::prelude::*;
use crate::config::{Config, ConfigError, Profile};
use crate::text::str_eq;

verus! {

/// The settings tabs.
#[derive(Clone, Copy, Debug, PartialEq, Eq, Structural)]
pub enum Tab {
    General,
    Hotkeys,
    Appearance,
    Advanced,
}

impl Tab {
    /// The tab's display name.
    pub fn label(&self) -> (r: &'static str)
        ensures
            matches!(*self, Tab::General) ==> r@ == "General"@,
            matches!(*self, Tab::Hotkeys) ==> r@ == "Hotkeys"@,
            matches!(*self, Tab::Appearance) ==> r@ == "Appearance"@,
            matches!(*self, Tab::Advanced) ==> r@ == "Advanced"@,
    {
        match self {
            Tab::General => "General",
            Tab::Hotkeys => "Hotkeys",
            Tab::Appearance => "Appearance",
            Tab::Advanced => "Advanced",
        }
    }
}

impl Default for Tab {
    /// The tab shown first.
    fn default() -> (r: Tab)
        ensures
            r == Tab::General,
    {
        Tab::General
    }
}

/// The theme choices.
#[derive(Clone, Copy, Debug, PartialEq, Eq, Structural)]
pub enum AppTheme {
    System,
    Light,
    Dark,
}

impl AppTheme {
    /// The theme's display name.
    pub fn label(&self) -> (r: &'static str)
        ensures
            matches!(*self, AppTheme::System) ==> r@ == "System"@,
            matches!(*self, AppTheme::Light) ==> r@ == "Light"@,
            matches!(*self, AppTheme::Dark) ==> r@ == "Dark"@,
    {
        match self {
            AppTheme::System => "System",
            AppTheme::Light => "Light",
            AppTheme::Dark => "Dark",
        }
    }
}

impl Default for AppTheme {
    /// The theme assumed before one is chosen.
    fn default() -> (r: AppTheme)
        ensures
            r == AppTheme::System,
    {
        AppTheme::System
    }
}

/// The names of the given profiles, in order.
pub fn get_profile_list(profiles: &Vec<Profile>) -> (r: Vec<String>)
    ensures
        r@.len() == profiles@.len(),
        forall|i: int| 0 <= i < r@.len() ==> #[trigger] r@[i]@ == profiles@[i].name@,
{
    let mut out: Vec<String> = Vec::new();
    let mut i: usize = 0;
    while i < profiles.len()
        invariant
            i <= profiles@.len(),
            out@.len() == i,
            forall|j: int| 0 <= j < i ==> #[trigger] out@[j]@ == profiles@[j].name@,
        decreases profiles@.len() - i,
    {
        out.push(clone_string(&profiles[i].name));
        i += 1;
    }
    out
}

/// Make the named profile the active one; a name no profile carries is
/// refused, and the configuration then stays as it was.
pub fn select_profile(config: &mut Config, name: &str) -> (r: Result<(), ConfigError>)
    ensures
        match r {
            Ok(_) => {
                &&& exists|i: int|
                    0 <= i < old(config).profiles@.len()
                        && #[trigger] old(config).profiles@[i].name@ == name@
                &&& final(config).current_profile@ == name@
                &&& final(config).profiles == old(config).profiles
                &&& final(config).search == old(config).search
                &&& final(config).hotkey == old(config).hotkey
            },
            Err(e) => {
                &&& e == ConfigError::ProfileMissing
                &&& forall|i: int|
                    0 <= i < old(config).profiles@.len()
                        ==> #[trigger] old(config).profiles@[i].name@ != name@
                &&& *final(config) == *old(config)
            },
        },
{
    let mut i: usize = 0;
    while i < config.profiles.len()
        invariant
            *config == *old(config),
            i <= config.profiles@.len(),
            forall|j: int| 0 <= j < i ==> #[trigger] config.profiles@[j].name@ != name@,
        decreases config.profiles@.len() - i,
    {
        if str_eq(config.profiles[i].name.as_str(), name) {
            config.current_profile = crate::text::owned_str(name);
            return Ok(());
        }
        i += 1;
    }
    Err(ConfigError::ProfileMissing)
}

/// Copy a string, keeping its characters.
fn clone_string(s: &String) -> (r: String)
    ensures
        r@ == s@,
{
    s.clone()
}

} // verus!
