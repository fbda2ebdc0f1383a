//! The configuration model: hotkey, search and profile settings, with
//! their validity rules and the operations the settings surface uses.
//!
//! Reading and writing the configuration file stays outside the core;
//! this module owns what a valid configuration is and how it changes.

use vstd::prelude::*;
use crate::text::{digits_value, is_digits, parse_u64, str_eq};

verus! {

/// A fault in a configuration value or operation.
#[derive(Clone, Copy, Debug, PartialEq, Eq, Structural)]
pub enum ConfigError {
    /// The active profile name is empty.
    EmptyCurrentProfile,
    /// A profile's name is empty.
    EmptyProfileName,
    /// `max_results` lies outside 1..=100.
    MaxResultsOutOfRange,
    /// `search_delay` lies outside 100..=5000.
    SearchDelayOutOfRange,
    /// A profile with that name already exists.
    ProfileExists,
    /// No profile carries the active profile's name.
    ProfileMissing,
    /// The active profile cannot be removed.
    CannotRemoveCurrent,
    /// A settings key is not recognised.
    UnknownSetting,
    /// A settings value could not be read as a number in range.
    BadSettingValue,
}

impl ConfigError {
    /// A short description, for logging outside the core.
    pub fn label(&self) -> (r: &'static str)
        ensures
            matches!(*self, ConfigError::EmptyCurrentProfile) ==> r@
                == "current profile cannot be empty"@,
            matches!(*self, ConfigError::EmptyProfileName) ==> r@
                == "profile name cannot be empty"@,
            matches!(*self, ConfigError::MaxResultsOutOfRange) ==> r@
                == "max_results must be between 1 and 100"@,
            matches!(*self, ConfigError::SearchDelayOutOfRange) ==> r@
                == "search_delay must be between 100 and 5000"@,
            matches!(*self, ConfigError::ProfileExists) ==> r@ == "profile already exists"@,
            matches!(*self, ConfigError::ProfileMissing) ==> r@ == "current profile not found"@,
            matches!(*self, ConfigError::CannotRemoveCurrent) ==> r@
                == "cannot remove current profile"@,
            matches!(*self, ConfigError::UnknownSetting) ==> r@ == "unknown setting"@,
            matches!(*self, ConfigError::BadSettingValue) ==> r@
                == "setting value out of range"@,
    {
        match self {
            ConfigError::EmptyCurrentProfile => "current profile cannot be empty",
            ConfigError::EmptyProfileName => "profile name cannot be empty",
            ConfigError::MaxResultsOutOfRange => "max_results must be between 1 and 100",
            ConfigError::SearchDelayOutOfRange => "search_delay must be between 100 and 5000",
            ConfigError::ProfileExists => "profile already exists",
            ConfigError::ProfileMissing => "current profile not found",
            ConfigError::CannotRemoveCurrent => "cannot remove current profile",
            ConfigError::UnknownSetting => "unknown setting",
            ConfigError::BadSettingValue => "setting value out of range",
        }
    }
}

/// The global hotkey: a display combination and its modifier names.
#[derive(Debug, Clone, PartialEq, Eq)]
pub struct HotkeyConfig {
    pub key_combination: String,
    pub modifiers: Vec<String>,
}

/// Search behaviour: the result cap and the debounce delay.
#[derive(Debug, Clone, PartialEq, Eq)]
pub struct SearchConfig {
    pub max_results: usize,
    pub search_delay: u64,
}

/// Whether the search settings lie in their allowed ranges.
pub open spec fn spec_search_valid(s: SearchConfig) -> bool {
    &&& 1 <= s.max_results <= 100
    &&& 100 <= s.search_delay <= 5000
}

impl SearchConfig {
    /// Check the search settings' ranges.
    pub fn validate(&self) -> (r: Result<(), ConfigError>)
        ensures
            r is Ok <==> spec_search_valid(*self),
            r == Err::<(), ConfigError>(ConfigError::MaxResultsOutOfRange) <==> !(1
                <= self.max_results <= 100),
            r == Err::<(), ConfigError>(ConfigError::SearchDelayOutOfRange) <==> (1
                <= self.max_results <= 100 && !(100 <= self.search_delay <= 5000)),
    {
        if self.max_results < 1 || self.max_results > 100 {
            return Err(ConfigError::MaxResultsOutOfRange);
        }
        if self.search_delay < 100 || self.search_delay > 5000 {
            return Err(ConfigError::SearchDelayOutOfRange);
        }
        Ok(())
    }
}

/// A user command of a profile: a name, the URL it opens, a description.
#[derive(Debug, Clone, PartialEq, Eq)]
pub struct Command {
    pub name: String,
    pub url: String,
    pub description: String,
}

/// A named collection of commands.
#[derive(Debug, Clone, PartialEq, Eq)]
pub struct Profile {
    pub name: String,
    pub commands: Vec<Command>,
}

/// Whether the profile is valid: its name is not empty.
pub open spec fn spec_profile_valid(p: Profile) -> bool {
    p.name@.len() > 0
}

impl Profile {
    /// Check that the profile's name is not empty.
    pub fn validate(&self) -> (r: Result<(), ConfigError>)
        ensures
            r is Ok <==> spec_profile_valid(*self),
            r is Err <==> r == Err::<(), ConfigError>(ConfigError::EmptyProfileName)
                && self.name@.len() == 0,
    {
        if self.name.as_str().unicode_len() == 0 {
            return Err(ConfigError::EmptyProfileName);
        }
        Ok(())
    }
}

/// Per-profile presentation settings.
#[derive(Debug, Clone, PartialEq, Eq)]
pub struct ProfileSettings {
    pub theme: String,
    pub shortcuts: Vec<Shortcut>,
    pub search_paths: Vec<String>,
}

/// A named shortcut to a command.
#[derive(Debug, Clone, PartialEq, Eq)]
pub struct Shortcut {
    pub name: String,
    pub command: String,
    pub description: String,
}

/// A prefix that groups commands.
#[derive(Debug, Clone, PartialEq, Eq)]
pub struct CommandPrefix {
    pub prefix: String,
    pub commands: Vec<Command>,
}

/// The whole configuration object the coordinator works from.
#[derive(Debug, Clone, PartialEq, Eq)]
pub struct Config {
    pub hotkey: HotkeyConfig,
    pub search: SearchConfig,
    pub profiles: Vec<Profile>,
    pub current_profile: String,
    pub log_level: String,
    pub log_file: Option<String>,
    pub ipc_socket_path: String,
    pub command_prefixes: Vec<CommandPrefix>,
}

/// Whether the whole configuration is valid.
pub open spec fn spec_config_valid(c: Config) -> bool {
    &&& c.current_profile@.len() > 0
    &&& spec_search_valid(c.search)
    &&& forall|i: int| 0 <= i < c.profiles@.len() ==> spec_profile_valid(#[trigger] c.profiles@[i])
}

impl Config {
    /// Check the configuration: a named active profile, search settings in
    /// range, and every profile valid.
    pub fn validate(&self) -> (r: Result<(), ConfigError>)
        ensures
            r is Ok <==> spec_config_valid(*self),
            r == Err::<(), ConfigError>(ConfigError::EmptyCurrentProfile)
                <==> self.current_profile@.len() == 0,
            r == Err::<(), ConfigError>(ConfigError::MaxResultsOutOfRange)
                <==> (self.current_profile@.len() > 0 && !(1 <= self.search.max_results <= 100)),
            r == Err::<(), ConfigError>(ConfigError::SearchDelayOutOfRange)
                <==> (self.current_profile@.len() > 0 && 1 <= self.search.max_results <= 100 && !(
            100 <= self.search.search_delay <= 5000)),
            r == Err::<(), ConfigError>(ConfigError::EmptyProfileName)
                <==> (self.current_profile@.len() > 0 && spec_search_valid(self.search) && exists|
            i: int|
                0 <= i < self.profiles@.len() && !spec_profile_valid(#[trigger] self.profiles@[i])),
    {
        if self.current_profile.as_str().unicode_len() == 0 {
            return Err(ConfigError::EmptyCurrentProfile);
        }
        let search_check = self.search.validate();
        match search_check {
            Err(e) => {
                return Err(e);
            },
            Ok(()) => {},
        }
        let mut i: usize = 0;
        while i < self.profiles.len()
            invariant
                i <= self.profiles@.len(),
                self.current_profile@.len() > 0,
                spec_search_valid(self.search),
                forall|j: int| 0 <= j < i ==> spec_profile_valid(#[trigger] self.profiles@[j]),
            decreases self.profiles@.len() - i,
        {
            let check = self.profiles[i].validate();
            match check {
                Err(e) => {
                    return Err(e);
                },
                Ok(()) => {},
            }
            i += 1;
        }
        Ok(())
    }

    /// The first profile named as the active one, if any.
    pub fn get_current_profile(&self) -> (r: Result<&Profile, ConfigError>)
        ensures
            match r {
                Ok(p) => exists|i: int|
                    {
                        &&& 0 <= i < self.profiles@.len()
                        &&& #[trigger] self.profiles@[i].name@ == self.current_profile@
                        &&& *p == self.profiles@[i]
                        &&& forall|j: int|
                            0 <= j < i ==> #[trigger] self.profiles@[j].name@
                                != self.current_profile@
                    },
                Err(e) => e == ConfigError::ProfileMissing && forall|i: int|
                    0 <= i < self.profiles@.len() ==> #[trigger] self.profiles@[i].name@
                        != self.current_profile@,
            },
    {
        let mut i: usize = 0;
        while i < self.profiles.len()
            invariant
                i <= self.profiles@.len(),
                forall|j: int| 0 <= j < i ==> #[trigger] self.profiles@[j].name@
                    != self.current_profile@,
            decreases self.profiles@.len() - i,
        {
            if str_eq(self.profiles[i].name.as_str(), self.current_profile.as_str()) {
                return Ok(&self.profiles[i]);
            }
            i += 1;
        }
        Err(ConfigError::ProfileMissing)
    }

    /// The names of all profiles, in order.
    pub fn get_profile_names(&self) -> (r: Vec<String>)
        ensures
            r@.len() == self.profiles@.len(),
            forall|i: int| 0 <= i < r@.len() ==> #[trigger] r@[i]@ == self.profiles@[i].name@,
    {
        let mut out: Vec<String> = Vec::new();
        let mut i: usize = 0;
        while i < self.profiles.len()
            invariant
                i <= self.profiles@.len(),
                out@.len() == i,
                forall|j: int| 0 <= j < i ==> #[trigger] out@[j]@ == self.profiles@[j].name@,
            decreases self.profiles@.len() - i,
        {
            out.push(self.profiles[i].name.clone());
            i += 1;
        }
        out
    }

    /// Add an empty profile under a fresh name; a name already in use is
    /// refused.
    pub fn add_profile(&mut self, name: String) -> (r: Result<(), ConfigError>)
        ensures
            match r {
                Ok(_) => {
                    &&& forall|i: int|
                        0 <= i < old(self).profiles@.len()
                            ==> #[trigger] old(self).profiles@[i].name@ != name@
                    &&& final(self).profiles@.len() == old(self).profiles@.len() + 1
                    &&& forall|i: int|
                        0 <= i < old(self).profiles@.len() ==> #[trigger] final(self).profiles@[i]
                            == old(self).profiles@[i]
                    &&& final(self).profiles@.last().name@ == name@
                    &&& final(self).profiles@.last().commands@.len() == 0
                },
                Err(e) => {
                    &&& e == ConfigError::ProfileExists
                    &&& exists|i: int|
                        0 <= i < old(self).profiles@.len()
                            && #[trigger] old(self).profiles@[i].name@ == name@
                    &&& *final(self) == *old(self)
                },
            },
            final(self).hotkey == old(self).hotkey,
            final(self).search == old(self).search,
            final(self).current_profile == old(self).current_profile,
    {
        let mut i: usize = 0;
        while i < self.profiles.len()
            invariant
                i <= self.profiles@.len(),
                forall|j: int| 0 <= j < i ==> #[trigger] self.profiles@[j].name@ != name@,
            decreases self.profiles@.len() - i,
        {
            if str_eq(self.profiles[i].name.as_str(), name.as_str()) {
                return Err(ConfigError::ProfileExists);
            }
            i += 1;
        }
        self.profiles.push(Profile { name, commands: Vec::new() });
        Ok(())
    }

    /// Remove every profile under the given name; the active profile is
    /// refused.
    pub fn remove_profile(&mut self, name: &str) -> (r: Result<(), ConfigError>)
        ensures
            match r {
                Ok(_) => {
                    &&& name@ != old(self).current_profile@
                    &&& final(self).profiles@ == profiles_without(old(self).profiles@, name@)
                },
                Err(e) => {
                    &&& e == ConfigError::CannotRemoveCurrent
                    &&& name@ == old(self).current_profile@
                    &&& *final(self) == *old(self)
                },
            },
            final(self).hotkey == old(self).hotkey,
            final(self).search == old(self).search,
            final(self).current_profile == old(self).current_profile,
    {
        if str_eq(name, self.current_profile.as_str()) {
            return Err(ConfigError::CannotRemoveCurrent);
        }
        let mut j: usize = 0;
        proof {
            assert(self.profiles@.take(0) =~= Seq::<Profile>::empty());
            assert(self.profiles@.skip(0) =~= self.profiles@);
            assert(Seq::<Profile>::empty() + profiles_without(self.profiles@, name@)
                =~= profiles_without(self.profiles@, name@));
        }
        while j < self.profiles.len()
            invariant
                j <= self.profiles@.len(),
                forall|k: int| 0 <= k < j ==> #[trigger] self.profiles@[k].name@ != name@,
                profiles_without(old(self).profiles@, name@) == self.profiles@.take(j as int)
                    + profiles_without(self.profiles@.skip(j as int), name@),
                self.hotkey == old(self).hotkey,
                self.search == old(self).search,
                self.current_profile == old(self).current_profile,
                self.log_level == old(self).log_level,
                self.log_file == old(self).log_file,
                self.ipc_socket_path == old(self).ipc_socket_path,
                self.command_prefixes == old(self).command_prefixes,
            decreases self.profiles@.len() - j,
        {
            proof {
                let s = self.profiles@;
                assert(s.skip(j as int)[0] == s[j as int]);
                assert(s.skip(j as int).drop_first() =~= s.skip(j + 1));
            }
            let matches_name = str_eq(self.profiles[j].name.as_str(), name);
            if matches_name {
                let ghost before = self.profiles@;
                self.profiles.remove(j);
                proof {
                    assert(before.skip(j as int).len() > 0);
                    assert(before.skip(j as int)[0] == before[j as int]);
                    assert(before[j as int].name@ == name@);
                    assert(profiles_without(before.skip(j as int), name@) == profiles_without(
                        before.skip(j as int).drop_first(),
                        name@,
                    ));
                    assert(self.profiles@.take(j as int) =~= before.take(j as int));
                    assert(self.profiles@.skip(j as int) =~= before.skip(j as int).drop_first());
                    assert(forall|k: int|
                        0 <= k < j ==> #[trigger] self.profiles@[k] == before[k]);
                    assert(forall|k: int|
                        0 <= k < j ==> #[trigger] self.profiles@[k].name@ != name@);
                }
            } else {
                proof {
                    let s = self.profiles@;
                    assert(s.take(j + 1) =~= s.take(j as int).push(s[j as int]));
                    assert(s.take(j as int) + (seq![s[j as int]] + profiles_without(
                        s.skip(j + 1),
                        name@,
                    )) =~= s.take(j + 1) + profiles_without(s.skip(j + 1), name@));
                }
                j += 1;
            }
        }
        proof {
            assert(self.profiles@.take(j as int) =~= self.profiles@);
            assert(self.profiles@.skip(j as int) =~= Seq::<Profile>::empty());
            assert(self.profiles@ + Seq::<Profile>::empty() =~= self.profiles@);
        }
        Ok(())
    }
}

/// The profiles whose name differs from the given one, in order.
pub open spec fn profiles_without(ps: Seq<Profile>, name: Seq<char>) -> Seq<Profile>
    decreases ps.len(),
{
    if ps.len() == 0 {
        Seq::empty()
    } else if ps[0].name@ != name {
        seq![ps[0]] + profiles_without(ps.drop_first(), name)
    } else {
        profiles_without(ps.drop_first(), name)
    }
}

/// What applying a settings list to the search pair yields: each pair
/// updates `max_results` or `search_delay`, read as a decimal; an unknown
/// key or an unreadable number fails.
pub open spec fn spec_apply_settings(state: (usize, u64), s: Seq<(Seq<char>, Seq<char>)>) -> Option<
    (usize, u64),
>
    decreases s.len(),
{
    if s.len() == 0 {
        Some(state)
    } else {
        let key = s[0].0;
        let value = s[0].1;
        if key == "max_results"@ {
            if is_digits(value) && digits_value(value) <= usize::MAX {
                spec_apply_settings(((digits_value(value) as usize), state.1), s.drop_first())
            } else {
                None
            }
        } else if key == "search_delay"@ {
            if is_digits(value) && digits_value(value) <= u64::MAX {
                spec_apply_settings((state.0, digits_value(value) as u64), s.drop_first())
            } else {
                None
            }
        } else {
            None
        }
    }
}

/// The views of a settings list.
pub open spec fn settings_views(s: Seq<(String, String)>) -> Seq<(Seq<char>, Seq<char>)> {
    s.map(|i: int, kv: (String, String)| (kv.0@, kv.1@))
}

impl Config {
    /// Apply a list of key/value settings to the search configuration and
    /// re-validate. Succeeds exactly when every pair applies and the
    /// outcome is valid. The update is in place, so on failure the pairs
    /// read before the fault remain applied: the final search settings
    /// are the result of the longest prefix that applied, and either the
    /// next pair refuses to apply or — with every pair applied — the
    /// outcome fails validation.
    #[verifier::rlimit(100)]
    #[verifier::spinoff_prover]
    pub fn update_settings(&mut self, settings: Vec<(String, String)>) -> (r: Result<
        (),
        ConfigError,
    >)
        ensures
            r is Ok <==> (match spec_apply_settings(
                (old(self).search.max_results, old(self).search.search_delay),
                settings_views(settings@),
            ) {
                Some(pair) => spec_config_valid(
                    Config {
                        search: SearchConfig { max_results: pair.0, search_delay: pair.1 },
                        ..(*old(self))
                    },
                ),
                None => false,
            }),
            r is Ok ==> Some(
                (final(self).search.max_results, final(self).search.search_delay),
            ) == spec_apply_settings(
                (old(self).search.max_results, old(self).search.search_delay),
                settings_views(settings@),
            ),
            r is Err ==> (match spec_apply_settings(
                (old(self).search.max_results, old(self).search.search_delay),
                settings_views(settings@),
            ) {
                Some(pair) => {
                    &&& final(self).search.max_results == pair.0
                    &&& final(self).search.search_delay == pair.1
                    &&& !spec_config_valid(*final(self))
                },
                None => exists|p: int|
                    {
                        &&& 0 <= p < settings_views(settings@).len()
                        &&& spec_apply_settings(
                            (old(self).search.max_results, old(self).search.search_delay),
                            settings_views(settings@).take(p),
                        ) == Some(
                            (final(self).search.max_results, final(self).search.search_delay),
                        )
                        &&& spec_apply_settings(
                            (final(self).search.max_results, final(self).search.search_delay),
                            seq![#[trigger] settings_views(settings@)[p]],
                        ) is None
                    },
            }),
            final(self).profiles == old(self).profiles,
            final(self).hotkey == old(self).hotkey,
            final(self).current_profile == old(self).current_profile,
            final(self).log_level == old(self).log_level,
            final(self).log_file == old(self).log_file,
            final(self).ipc_socket_path == old(self).ipc_socket_path,
            final(self).command_prefixes == old(self).command_prefixes,
    {
        let ghost all = settings_views(settings@);
        let ghost start = (old(self).search.max_results, old(self).search.search_delay);
        let mut i: usize = 0;
        proof {
            assert(all.skip(0) =~= all);
            assert(all.take(0) =~= Seq::<(Seq<char>, Seq<char>)>::empty());
        }
        while i < settings.len()
            invariant
                i <= settings@.len(),
                all == settings_views(settings@),
                start == (old(self).search.max_results, old(self).search.search_delay),
                spec_apply_settings(start, all) == spec_apply_settings(
                    (self.search.max_results, self.search.search_delay),
                    all.skip(i as int),
                ),
                spec_apply_settings(start, all.take(i as int)) == Some(
                    (self.search.max_results, self.search.search_delay),
                ),
                self.profiles == old(self).profiles,
                self.hotkey == old(self).hotkey,
                self.current_profile == old(self).current_profile,
                self.log_level == old(self).log_level,
                self.log_file == old(self).log_file,
                self.ipc_socket_path == old(self).ipc_socket_path,
                self.command_prefixes == old(self).command_prefixes,
            decreases settings@.len() - i,
        {
            proof {
                assert(all.skip(i as int)[0] == all[i as int]);
                assert(all.skip(i as int).drop_first() =~= all.skip(i + 1));
                assert(seq![all[i as int]][0] == all[i as int]);
                assert(seq![all[i as int]].drop_first() =~= Seq::<(Seq<char>, Seq<char>)>::empty());
                assert(all[i as int] == (settings@[i as int].0@, settings@[i as int].1@));
            }
            let ghost cur = (self.search.max_results, self.search.search_delay);
            let key = settings[i].0.as_str();
            let value = settings[i].1.as_str();
            let is_max = str_eq(key, "max_results");
            let is_delay = str_eq(key, "search_delay");
            if is_max {
                match parse_u64(value) {
                    Some(v) => {
                        if v <= usize::MAX as u64 {
                            self.search.max_results = v as usize;
                            proof {
                                assert(all[i as int].0 == "max_results"@);
                                assert(is_digits(all[i as int].1));
                                assert(digits_value(all[i as int].1) <= usize::MAX);
                                assert(self.search.max_results == digits_value(
                                    all[i as int].1,
                                ) as usize);
                                assert(spec_apply_settings(
                                    (self.search.max_results, self.search.search_delay),
                                    Seq::<(Seq<char>, Seq<char>)>::empty(),
                                ) == Some((self.search.max_results, self.search.search_delay)));
                                assert(spec_apply_settings(cur, seq![all[i as int]]) == Some(
                                    (self.search.max_results, self.search.search_delay),
                                ));
                            }
                        } else {
                            assert(spec_apply_settings(cur, seq![all[i as int]]) is None);
                            return Err(ConfigError::BadSettingValue);
                        }
                    },
                    None => {
                        assert(spec_apply_settings(cur, seq![all[i as int]]) is None);
                        return Err(ConfigError::BadSettingValue);
                    },
                }
            } else if is_delay {
                match parse_u64(value) {
                    Some(v) => {
                        self.search.search_delay = v;
                        proof {
                            assert(all[i as int].0 != "max_results"@);
                            assert(all[i as int].0 == "search_delay"@);
                            assert(is_digits(all[i as int].1));
                            assert(self.search.search_delay == digits_value(all[i as int].1) as u64);
                            assert(spec_apply_settings(
                                (self.search.max_results, self.search.search_delay),
                                Seq::<(Seq<char>, Seq<char>)>::empty(),
                            ) == Some((self.search.max_results, self.search.search_delay)));
                            assert(spec_apply_settings(cur, seq![all[i as int]]) == Some(
                                (self.search.max_results, self.search.search_delay),
                            ));
                        }
                    },
                    None => {
                        assert(spec_apply_settings(cur, seq![all[i as int]]) is None);
                        return Err(ConfigError::BadSettingValue);
                    },
                }
            } else {
                assert(spec_apply_settings(cur, seq![all[i as int]]) is None);
                return Err(ConfigError::UnknownSetting);
            }
            proof {
                lemma_apply_snoc(start, all.take(i as int), all[i as int]);
                assert(all.take(i + 1) =~= all.take(i as int).push(all[i as int]));
                assert(spec_apply_settings(cur, seq![all[i as int]]) == Some(
                    (self.search.max_results, self.search.search_delay),
                ));
            }
            i += 1;
        }
        proof {
            assert(all.skip(settings@.len() as int).len() == 0);
            assert(all.take(settings@.len() as int) =~= all);
        }
        let check = self.validate();
        match check {
            Ok(()) => Ok(()),
            Err(e) => Err(e),
        }
    }
}

/// Applying a list and then one more pair is applying the extended
/// list.
proof fn lemma_apply_snoc(
    state: (usize, u64),
    s: Seq<(Seq<char>, Seq<char>)>,
    x: (Seq<char>, Seq<char>),
)
    ensures
        spec_apply_settings(state, s.push(x)) == (match spec_apply_settings(state, s) {
            Some(mid) => spec_apply_settings(mid, seq![x]),
            None => None,
        }),
    decreases s.len(),
{
    assert(seq![x][0] == x);
    assert(seq![x].drop_first() =~= Seq::<(Seq<char>, Seq<char>)>::empty());
    if s.len() == 0 {
        assert(s.push(x)[0] == x);
        assert(s.push(x).drop_first() =~= Seq::<(Seq<char>, Seq<char>)>::empty());
    } else {
        assert(s.push(x)[0] == s[0]);
        assert(s.push(x).drop_first() =~= s.drop_first().push(x));
        let key = s[0].0;
        let value = s[0].1;
        if key == "max_results"@ {
            if is_digits(value) && digits_value(value) <= usize::MAX {
                lemma_apply_snoc(((digits_value(value) as usize), state.1), s.drop_first(), x);
            }
        } else if key == "search_delay"@ {
            if is_digits(value) && digits_value(value) <= u64::MAX {
                lemma_apply_snoc((state.0, digits_value(value) as u64), s.drop_first(), x);
            }
        }
    }
}

impl Default for Config {
    /// The configuration used when none can be loaded.
    fn default() -> (r: Config)
        ensures
            r.hotkey.key_combination@ == "Alt+Space"@,
            r.hotkey.modifiers@.len() == 1,
            r.search.max_results == 10,
            r.search.search_delay == 200,
            r.profiles@.len() == 1,
            r.profiles@[0].name@ == "Default"@,
            r.profiles@[0].commands@.len() == 0,
            r.current_profile@ == "Default"@,
            r.log_level@ == "info"@,
            r.log_file is None,
            r.ipc_socket_path@ == "orion.sock"@,
            r.command_prefixes@.len() == 0,
    {
        let mut modifiers: Vec<String> = Vec::new();
        modifiers.push(String::from_str("Alt"));
        let mut profiles: Vec<Profile> = Vec::new();
        profiles.push(Profile { name: String::from_str("Default"), commands: Vec::new() });
        Config {
            hotkey: HotkeyConfig {
                key_combination: String::from_str("Alt+Space"),
                modifiers,
            },
            search: SearchConfig { max_results: 10, search_delay: 200 },
            profiles,
            current_profile: String::from_str("Default"),
            log_level: String::from_str("info"),
            log_file: None,
            ipc_socket_path: String::from_str("orion.sock"),
            command_prefixes: Vec::new(),
        }
    }
}

} // verus!
