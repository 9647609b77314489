//! Committing a new API key. A key becomes a `VerifiedKey` only through
//! `VerifiedKey::verify`, which needs a successful live check of the very
//! key and settings that `VerifiedKey::prepare` checked first; the first-run
//! `KeyEntry` hands settings out for saving only with a key so checked.
use vstd::prelude::*;
use crate::config::{same_untouched_fields, unique_terms, valid_config, Config, ConfigError, MAX_VOCABULARY};
use crate::text::{trim, trim_str};

verus! {

/// Why a key cannot be saved.
#[derive(Debug)]
pub enum SettingsError {
    /// The settings themselves are invalid.
    Config(ConfigError),
    /// The key is empty once trimmed.
    EmptyKey,
    /// The live check refused the key; the message says why.
    Rejected(String),
    /// Input ended before a key was accepted.
    InputClosed,
}

impl SettingsError {
    /// The message shown to the user.
    pub fn message(&self) -> (s: String)
        ensures
            match self {
                SettingsError::Config(e) => s@ == e.spec_message(),
                SettingsError::EmptyKey => s@ == "Enter a Google AI API key"@,
                SettingsError::Rejected(m) => s@ == m@,
                SettingsError::InputClosed => s@ == "Input closed before an API key was entered"@,
            },
    {
        match self {
            SettingsError::Config(e) => e.message(),
            SettingsError::EmptyKey => String::from_str("Enter a Google AI API key"),
            SettingsError::Rejected(m) => {
                let mut s = String::new();
                crate::text::push_str(&mut s, m.as_str());
                s
            },
            SettingsError::InputClosed => String::from_str(
                "Input closed before an API key was entered",
            ),
        }
    }
}

/// Settings and a key, both checked, waiting for the live check.
pub struct KeyCandidate {
    config: Config,
    key: String,
}

impl KeyCandidate {
    /// The validated settings to check the key with.
    pub closed spec fn spec_config(&self) -> Config {
        self.config
    }

    /// The trimmed key.
    pub closed spec fn spec_key(&self) -> Seq<char> {
        self.key@
    }

    /// The validated settings to check the key with.
    pub fn config(&self) -> (c: &Config)
        ensures
            *c == self.spec_config(),
    {
        &self.config
    }

    /// The trimmed key.
    pub fn key(&self) -> (k: &str)
        ensures
            k@ == self.spec_key(),
    {
        self.key.as_str()
    }
}

/// A key that the live API accepted.
pub struct VerifiedKey(String);

impl VerifiedKey {
    /// The key.
    pub closed spec fn spec_key(&self) -> Seq<char> {
        self.0@
    }

    /// Checks the settings (see `Config::validate`) and the key (trimmed, not
    /// empty) before the live check.
    pub fn prepare(config: Config, key: &str) -> (r: Result<KeyCandidate, SettingsError>)
        ensures
            match r {
                Ok(c) => {
                    &&& valid_config(&c.spec_config())
                    &&& c.spec_config().language@ == trim(config.language@)
                    &&& c.spec_config().custom_vocabulary.deep_view() == unique_terms(
                        config.custom_vocabulary.deep_view(),
                    )
                    &&& same_untouched_fields(&c.spec_config(), &config)
                    &&& c.spec_key() == trim(key@)
                    &&& trim(key@).len() > 0
                },
                Err(SettingsError::Config(ConfigError::EmptyLanguage)) => trim(
                    config.language@,
                ).len() == 0,
                Err(SettingsError::Config(ConfigError::TooManyTerms)) => trim(
                    config.language@,
                ).len() > 0 && unique_terms(config.custom_vocabulary.deep_view()).len()
                    > MAX_VOCABULARY,
                Err(SettingsError::EmptyKey) => {
                    &&& trim(config.language@).len() > 0
                    &&& unique_terms(config.custom_vocabulary.deep_view()).len() <= MAX_VOCABULARY
                    &&& trim(key@).len() == 0
                },
                Err(_) => false,
            },
            trim(config.language@).len() > 0 && unique_terms(
                config.custom_vocabulary.deep_view(),
            ).len() <= MAX_VOCABULARY && trim(key@).len() > 0 ==> r is Ok,
    {
        let mut checked = config;
        match checked.validate() {
            Ok(()) => {},
            Err(e) => {
                return Err(SettingsError::Config(e));
            },
        }
        let key = trim_str(key);
        if key.as_str().is_empty() {
            return Err(SettingsError::EmptyKey);
        }
        Ok(KeyCandidate { config: checked, key })
    }

    /// The verified key, given the outcome of the live check of the
    /// candidate: accepted exactly when the check succeeded.
    pub fn verify(candidate: KeyCandidate, check: Result<(), String>) -> (r: Result<
        VerifiedKey,
        SettingsError,
    >)
        ensures
            match check {
                Ok(()) => r matches Ok(k) && k.spec_key() == candidate.spec_key(),
                Err(m) => r matches Err(SettingsError::Rejected(s)) && s == m,
            },
    {
        match check {
            Ok(()) => Ok(VerifiedKey(candidate.key)),
            Err(m) => Err(SettingsError::Rejected(m)),
        }
    }

    /// The key.
    pub fn as_str(&self) -> (k: &str)
        ensures
            k@ == self.spec_key(),
    {
        self.0.as_str()
    }
}

/// The settings to persist with a verified key: validated, and the key
/// stored in them. The caller replaces its settings only once these are saved.
pub fn keyed_config(config: Config, key: VerifiedKey) -> (r: Result<Config, ConfigError>)
    ensures
        match r {
            Ok(c) => {
                &&& valid_config(&c)
                &&& c.language@ == trim(config.language@)
                &&& c.custom_vocabulary.deep_view() == unique_terms(
                    config.custom_vocabulary.deep_view(),
                )
                &&& c.mode == config.mode
                &&& c.audio_cue == config.audio_cue
                &&& c.notify_mode == config.notify_mode
                &&& c.input_device == config.input_device
                &&& c.api_key matches Some(k) && k@ == key.spec_key()
            },
            Err(ConfigError::EmptyLanguage) => trim(config.language@).len() == 0,
            Err(ConfigError::TooManyTerms) => trim(config.language@).len() > 0 && unique_terms(
                config.custom_vocabulary.deep_view(),
            ).len() > MAX_VOCABULARY,
            Err(ConfigError::MissingKey) => false,
        },
        trim(config.language@).len() > 0 && unique_terms(config.custom_vocabulary.deep_view()).len()
            <= MAX_VOCABULARY ==> r is Ok,
{
    let mut updated = config;
    updated.validate()?;
    updated.api_key = Some(key.0);
    Ok(updated)
}

/// Where the entry of a new API key stands.
#[derive(Clone, Copy, Debug, PartialEq, Eq, Structural)]
pub enum EntryPhase {
    /// Waiting for a typed key.
    Asking,
    /// A typed key waits for its live check.
    Checking,
    /// The entry is over: settings to save were handed out, or it failed.
    Closed,
}

/// What happened since the last action of a key entry.
pub enum EntryEvent {
    /// A line was typed; `None` when input ended.
    Typed(Option<String>),
    /// The live check of the pending key ended.
    Checked(Result<(), String>),
}

/// What a key entry asks for next.
pub enum EntryAction {
    /// Ask for a key, after the reason the last one was refused, if any.
    Ask(Option<SettingsError>),
    /// Check the pending key live (see `KeyEntry::pending`).
    Check,
    /// Save these settings: the checked settings with the checked key.
    Save(Config),
    /// The entry failed.
    Fail(SettingsError),
    /// The event answers no request; nothing changes.
    Ignore,
}

/// The first-run key entry: typed keys are checked live one at a time, and
/// settings are handed out for saving once, with the first key that the
/// live check accepted.
pub struct KeyEntry {
    settings: Option<Config>,
    pending: Option<KeyCandidate>,
    over: bool,
}

impl KeyEntry {
    #[verifier::type_invariant]
    closed spec fn asking_has_settings(self) -> bool {
        !self.over && self.pending is None ==> self.settings is Some
    }

    /// Where the entry stands.
    pub closed spec fn phase(&self) -> EntryPhase {
        if self.over {
            EntryPhase::Closed
        } else if self.pending is Some {
            EntryPhase::Checking
        } else {
            EntryPhase::Asking
        }
    }

    /// The settings a typed key is checked with, while asking.
    pub closed spec fn settings(&self) -> Config {
        self.settings->0
    }

    /// The candidate waiting for its check, while checking.
    pub closed spec fn candidate(&self) -> KeyCandidate {
        self.pending->0
    }

    /// An entry that asks for a key to go with `config`.
    pub fn new(config: Config) -> (e: KeyEntry)
        ensures
            e.phase() == EntryPhase::Asking,
            e.settings() == config,
    {
        KeyEntry { settings: Some(config), pending: None, over: false }
    }

    /// The candidate waiting for its live check, while checking.
    pub fn pending(&self) -> (c: Option<&KeyCandidate>)
        ensures
            self.phase() == EntryPhase::Checking ==> (c matches Some(k) && *k == self.candidate()),
            self.phase() != EntryPhase::Checking ==> c is None,
    {
        if self.over {
            None
        } else {
            match &self.pending {
                Some(k) => Some(k),
                None => None,
            }
        }
    }

    /// One step of the entry. While asking: a blank line asks again, ended
    /// input fails, and a key is checked with the settings (refused settings
    /// fail). While checking: an accepted key hands out the settings with
    /// that key for saving and ends the entry; a refused key asks again,
    /// with nothing saved. Other events change nothing.
    pub fn step(&mut self, event: EntryEvent) -> (a: EntryAction)
        ensures
            match old(self).phase() {
                EntryPhase::Asking => match event {
                    EntryEvent::Typed(None) => a == EntryAction::Fail(SettingsError::InputClosed)
                        && final(self).phase() == EntryPhase::Closed,
                    EntryEvent::Typed(Some(k)) => if trim(k@).len() == 0 {
                        a == EntryAction::Ask(Some(SettingsError::EmptyKey))
                            && final(self).phase() == EntryPhase::Asking && final(self).settings()
                            == old(self).settings()
                    } else if trim(old(self).settings().language@).len() == 0 {
                        a == EntryAction::Fail(SettingsError::Config(ConfigError::EmptyLanguage))
                            && final(self).phase() == EntryPhase::Closed
                    } else if unique_terms(old(self).settings().custom_vocabulary.deep_view()).len()
                        > MAX_VOCABULARY {
                        a == EntryAction::Fail(SettingsError::Config(ConfigError::TooManyTerms))
                            && final(self).phase() == EntryPhase::Closed
                    } else {
                        &&& a is Check
                        &&& final(self).phase() == EntryPhase::Checking
                        &&& final(self).candidate().spec_key() == trim(k@)
                        &&& final(self).candidate().spec_config().language@ == trim(
                            old(self).settings().language@,
                        )
                        &&& final(self).candidate().spec_config().custom_vocabulary.deep_view()
                            == unique_terms(old(self).settings().custom_vocabulary.deep_view())
                        &&& same_untouched_fields(
                            &final(self).candidate().spec_config(),
                            &old(self).settings(),
                        )
                    },
                    EntryEvent::Checked(_) => a is Ignore && final(self).phase() == EntryPhase::Asking
                        && final(self).settings() == old(self).settings(),
                },
                EntryPhase::Checking => match event {
                    EntryEvent::Checked(Ok(())) => {
                        &&& final(self).phase() == EntryPhase::Closed
                        &&& a matches EntryAction::Save(c) && {
                            let p = old(self).candidate().spec_config();
                            &&& c.language == p.language
                            &&& c.mode == p.mode
                            &&& c.custom_vocabulary == p.custom_vocabulary
                            &&& c.audio_cue == p.audio_cue
                            &&& c.notify_mode == p.notify_mode
                            &&& c.input_device == p.input_device
                            &&& c.api_key matches Some(k) && k@ == old(self).candidate().spec_key()
                        }
                    },
                    EntryEvent::Checked(Err(m)) => a == EntryAction::Ask(
                        Some(SettingsError::Rejected(m)),
                    ) && final(self).phase() == EntryPhase::Asking && final(self).settings()
                        == old(self).candidate().spec_config(),
                    EntryEvent::Typed(_) => a is Ignore && final(self).phase() == EntryPhase::Checking
                        && final(self).candidate() == old(self).candidate(),
                },
                EntryPhase::Closed => a is Ignore && final(self).phase() == EntryPhase::Closed,
            },
    {
        proof {
            use_type_invariant(&*self);
        }
        if self.over {
            return EntryAction::Ignore;
        }
        match event {
            EntryEvent::Typed(line) => {
                if self.pending.is_some() {
                    return EntryAction::Ignore;
                }
                match line {
                    None => {
                        self.over = true;
                        EntryAction::Fail(SettingsError::InputClosed)
                    },
                    Some(k) => {
                        let key = trim_str(k.as_str());
                        if key.as_str().is_empty() {
                            return EntryAction::Ask(Some(SettingsError::EmptyKey));
                        }
                        self.over = true;
                        let mut settings: Option<Config> = None;
                        std::mem::swap(&mut settings, &mut self.settings);
                        let config = match settings {
                            Some(c) => c,
                            None => {
                                return EntryAction::Ignore;
                            },
                        };
                        match VerifiedKey::prepare(config, k.as_str()) {
                            Ok(candidate) => {
                                self.pending = Some(candidate);
                                self.over = false;
                                EntryAction::Check
                            },
                            Err(e) => {
                                self.over = true;
                                EntryAction::Fail(e)
                            },
                        }
                    },
                }
            },
            EntryEvent::Checked(outcome) => {
                if self.pending.is_none() {
                    return EntryAction::Ignore;
                }
                self.over = true;
                let mut pending: Option<KeyCandidate> = None;
                std::mem::swap(&mut pending, &mut self.pending);
                match pending {
                    None => EntryAction::Ignore,
                    Some(candidate) => {
                        let KeyCandidate { config, key } = candidate;
                        match outcome {
                            Ok(()) => {
                                let mut saved = config;
                                saved.api_key = Some(key);
                                EntryAction::Save(saved)
                            },
                            Err(m) => {
                                self.settings = Some(config);
                                self.over = false;
                                EntryAction::Ask(Some(SettingsError::Rejected(m)))
                            },
                        }
                    },
                }
            },
        }
    }
}

} // verus!
