//! Settings of the dictation tool and the rules that make them valid.
use vstd::prelude::*;
use crate::text::{chars_of, lemma_trim_idempotent, str_equal, trim, trim_str};

verus! {

/// How Gemini renders the transcript.
#[derive(Clone, Copy, Debug, PartialEq, Eq, Structural)]
pub enum Mode {
    /// Removes filler words and tidies punctuation.
    Smart,
    /// Keeps repetitions and filler words as spoken.
    Verbatim,
}

/// Which session reports reach the desktop notification area.
#[derive(Clone, Copy, Debug, PartialEq, Eq, Structural)]
pub enum Notifications {
    /// Every status report.
    All,
    /// Only errors (serialized as `none`).
    Quiet,
}

/// At most this many custom vocabulary terms are accepted.
pub const MAX_VOCABULARY: usize = 1000;

/// The user's settings. The API key is a secret: the type has no `Debug`.
#[derive(Clone)]
pub struct Config {
    /// Spoken language code, such as `tr-TR`.
    pub language: String,
    pub mode: Mode,
    /// Terms that Gemini should prefer, in the user's order.
    pub custom_vocabulary: Vec<String>,
    /// Play a short tone when recording starts and ends.
    pub audio_cue: bool,
    pub notify_mode: Notifications,
    /// Microphone chosen by name; `None` is the system default.
    pub input_device: Option<String>,
    /// Gemini API key kept in the settings file.
    pub api_key: Option<String>,
}

/// Why a configuration is refused.
#[derive(Clone, Copy, Debug, PartialEq, Eq, Structural)]
pub enum ConfigError {
    /// The language is empty once trimmed.
    EmptyLanguage,
    /// More than `MAX_VOCABULARY` distinct terms remain.
    TooManyTerms,
    /// No API key is stored.
    MissingKey,
}

impl ConfigError {
    /// The message shown to the user.
    pub fn message(&self) -> (s: String)
        ensures
            s@ == self.spec_message(),
    {
        match self {
            ConfigError::EmptyLanguage => String::from_str("Language cannot be empty"),
            ConfigError::TooManyTerms => String::from_str(
                "At most 1000 vocabulary terms are supported",
            ),
            ConfigError::MissingKey => String::from_str("API key missing; run setup first"),
        }
    }

    pub open spec fn spec_message(&self) -> Seq<char> {
        match self {
            ConfigError::EmptyLanguage => "Language cannot be empty"@,
            ConfigError::TooManyTerms => "At most 1000 vocabulary terms are supported"@,
            ConfigError::MissingKey => "API key missing; run setup first"@,
        }
    }
}

/// The vocabulary that `validate` keeps: each term trimmed, empty terms
/// dropped, and of equal terms (case-sensitive) only the first, in order.
pub open spec fn unique_terms(terms: Seq<Seq<char>>) -> Seq<Seq<char>>
    decreases terms.len(),
{
    if terms.len() == 0 {
        Seq::empty()
    } else {
        let kept = unique_terms(terms.drop_last());
        let term = trim(terms.last());
        if term.len() > 0 && !kept.contains(term) {
            kept.push(term)
        } else {
            kept
        }
    }
}

/// The terms are trimmed, non-empty and pairwise distinct.
pub open spec fn clean_terms(terms: Seq<Seq<char>>) -> bool {
    &&& forall|i: int| 0 <= i < terms.len() ==> trim(#[trigger] terms[i]) == terms[i]
    &&& forall|i: int| 0 <= i < terms.len() ==> (#[trigger] terms[i]).len() > 0
    &&& forall|i: int, j: int| 0 <= i < j < terms.len() ==> terms[i] != terms[j]
}

/// A configuration that `validate` accepts unchanged.
pub open spec fn valid_config(c: &Config) -> bool {
    &&& trim(c.language@) == c.language@
    &&& c.language@.len() > 0
    &&& clean_terms(c.custom_vocabulary.deep_view())
    &&& c.custom_vocabulary.len() <= MAX_VOCABULARY
}

/// The fields that `validate` never touches are equal.
pub open spec fn same_untouched_fields(a: &Config, b: &Config) -> bool {
    &&& a.mode == b.mode
    &&& a.audio_cue == b.audio_cue
    &&& a.notify_mode == b.notify_mode
    &&& a.input_device == b.input_device
    &&& a.api_key == b.api_key
}

/// `unique_terms` always yields clean terms.
pub proof fn lemma_unique_terms_clean(terms: Seq<Seq<char>>)
    ensures
        clean_terms(unique_terms(terms)),
    decreases terms.len(),
{
    if terms.len() > 0 {
        lemma_unique_terms_clean(terms.drop_last());
        let kept = unique_terms(terms.drop_last());
        let term = trim(terms.last());
        lemma_trim_idempotent(terms.last());
        if term.len() > 0 && !kept.contains(term) {
            let u = kept.push(term);
            assert forall|i: int, j: int| 0 <= i < j < u.len() implies u[i] != u[j] by {
                if j == u.len() - 1 {
                    assert(kept[i] == u[i]);
                }
            }
            assert forall|i: int| 0 <= i < u.len() implies trim(#[trigger] u[i]) == u[i] by {
                if i < kept.len() {
                    assert(u[i] == kept[i]);
                }
            }
            assert forall|i: int| 0 <= i < u.len() implies (#[trigger] u[i]).len() > 0 by {
                if i < kept.len() {
                    assert(u[i] == kept[i]);
                }
            }
        }
    }
}

/// Clean terms are kept as they are.
pub proof fn lemma_clean_terms_fixed(terms: Seq<Seq<char>>)
    requires
        clean_terms(terms),
    ensures
        unique_terms(terms) == terms,
    decreases terms.len(),
{
    if terms.len() > 0 {
        let rest = terms.drop_last();
        assert(clean_terms(rest)) by {
            assert forall|i: int| 0 <= i < rest.len() implies trim(#[trigger] rest[i]) == rest[i] by {
                assert(rest[i] == terms[i]);
            }
            assert forall|i: int| 0 <= i < rest.len() implies (#[trigger] rest[i]).len() > 0 by {
                assert(rest[i] == terms[i]);
            }
        }
        lemma_clean_terms_fixed(rest);
        assert(trim(terms.last()) == terms.last());
        assert(terms[terms.len() - 1].len() > 0);
        if rest.contains(terms.last()) {
            let w = choose|w: int| 0 <= w < rest.len() && rest[w] == terms.last();
            assert(terms[w] == terms[terms.len() - 1]);
        }
        assert(rest.push(terms.last()) =~= terms);
    }
}

/// Law: cleaning the vocabulary twice gives what cleaning it once gives.
pub proof fn law_unique_terms_idempotent(terms: Seq<Seq<char>>)
    ensures
        unique_terms(unique_terms(terms)) == unique_terms(terms),
{
    lemma_unique_terms_clean(terms);
    lemma_clean_terms_fixed(unique_terms(terms));
}

/// Law: cleaning the vocabulary loses no term and invents none: every term of
/// the input that is not blank appears in the result, trimmed and in its own
/// case, and every term of the result is such a term of the input.
pub proof fn law_vocabulary_keeps_every_term(terms: Seq<Seq<char>>)
    ensures
        forall|i: int|
            0 <= i < terms.len() && trim(#[trigger] terms[i]).len() > 0 ==> unique_terms(
                terms,
            ).contains(trim(terms[i])),
        forall|j: int|
            0 <= j < unique_terms(terms).len() ==> exists|i: int|
                0 <= i < terms.len() && #[trigger] unique_terms(terms)[j] == trim(terms[i]),
    decreases terms.len(),
{
    if terms.len() > 0 {
        let rest = terms.drop_last();
        law_vocabulary_keeps_every_term(rest);
        let kept = unique_terms(rest);
        let u = unique_terms(terms);
        let term = trim(terms.last());
        assert(forall|k: int| 0 <= k < kept.len() ==> u[k] == kept[k]);
        assert forall|i: int| 0 <= i < terms.len() && trim(#[trigger] terms[i]).len() > 0 implies u.contains(
            trim(terms[i]),
        ) by {
            if i < rest.len() {
                assert(rest[i] == terms[i]);
                let k = choose|k: int| 0 <= k < kept.len() && kept[k] == trim(rest[i]);
                assert(u[k] == kept[k]);
            } else if !kept.contains(term) {
                assert(u[kept.len() as int] == term);
            }
        }
        assert forall|j: int| 0 <= j < u.len() implies exists|i: int|
            0 <= i < terms.len() && #[trigger] u[j] == trim(terms[i]) by {
            if j < kept.len() {
                let i = choose|i: int| 0 <= i < rest.len() && kept[j] == trim(rest[i]);
                assert(rest[i] == terms[i]);
                assert(u[j] == trim(terms[i]));
            } else {
                assert(u[j] == trim(terms[terms.len() - 1]));
            }
        }
    }
}

/// Law: a configuration that `validate` produced is one it keeps unchanged:
/// its language is already trimmed and its vocabulary already clean.
pub proof fn law_validate_idempotent(c: &Config)
    requires
        valid_config(c),
    ensures
        trim(c.language@) == c.language@,
        trim(c.language@).len() > 0,
        unique_terms(c.custom_vocabulary.deep_view()) == c.custom_vocabulary.deep_view(),
        unique_terms(c.custom_vocabulary.deep_view()).len() <= MAX_VOCABULARY,
{
    lemma_clean_terms_fixed(c.custom_vocabulary.deep_view());
}

impl Default for Config {
    /// The settings of a first run (see `Config::new_default`).
    fn default() -> (c: Config)
        ensures
            c.language@ == "tr-TR"@,
            c.mode == Mode::Smart,
            c.custom_vocabulary@.len() == 0,
            !c.audio_cue,
            c.notify_mode == Notifications::All,
            c.input_device.is_none(),
            c.api_key.is_none(),
    {
        Config::new_default()
    }
}

impl Config {
    /// The settings of a first run: Turkish, Smart mode, notifications on,
    /// no sounds, default microphone, no vocabulary and no key.
    pub fn new_default() -> (c: Config)
        ensures
            c.language@ == "tr-TR"@,
            c.mode == Mode::Smart,
            c.custom_vocabulary@.len() == 0,
            !c.audio_cue,
            c.notify_mode == Notifications::All,
            c.input_device.is_none(),
            c.api_key.is_none(),
    {
        Config {
            language: String::from_str("tr-TR"),
            mode: Mode::Smart,
            custom_vocabulary: Vec::new(),
            audio_cue: false,
            notify_mode: Notifications::All,
            input_device: None,
            api_key: None,
        }
    }

    /// Trims the language and cleans the vocabulary (see `unique_terms`).
    /// The language is trimmed even when the configuration is refused; the
    /// vocabulary changes only on success.
    pub fn validate(&mut self) -> (r: Result<(), ConfigError>)
        ensures
            final(self).language@ == trim(old(self).language@),
            same_untouched_fields(final(self), old(self)),
            trim(old(self).language@).len() == 0 ==> r == Err::<(), ConfigError>(
                ConfigError::EmptyLanguage,
            ),
            trim(old(self).language@).len() > 0 && unique_terms(
                old(self).custom_vocabulary.deep_view(),
            ).len() > MAX_VOCABULARY ==> r == Err::<(), ConfigError>(ConfigError::TooManyTerms),
            trim(old(self).language@).len() > 0 && unique_terms(
                old(self).custom_vocabulary.deep_view(),
            ).len() <= MAX_VOCABULARY ==> r is Ok,
            r is Ok ==> final(self).custom_vocabulary.deep_view() == unique_terms(
                old(self).custom_vocabulary.deep_view(),
            ),
            r is Err ==> final(self).custom_vocabulary == old(self).custom_vocabulary,
            r is Ok ==> valid_config(final(self)),
    {
        self.language = trim_str(self.language.as_str());
        if self.language.as_str().is_empty() {
            return Err(ConfigError::EmptyLanguage);
        }
        let unique = unique_vocabulary(&self.custom_vocabulary);
        if unique.len() > MAX_VOCABULARY {
            return Err(ConfigError::TooManyTerms);
        }
        self.custom_vocabulary = unique;
        proof {
            lemma_trim_idempotent(old(self).language@);
            lemma_unique_terms_clean(old(self).custom_vocabulary.deep_view());
        }
        Ok(())
    }

    /// The stored API key, trimmed; refused when there is none.
    pub fn key(&self) -> (r: Result<String, ConfigError>)
        ensures
            match self.api_key {
                Some(k) => if trim(k@).len() > 0 {
                    (r matches Ok(s) && s@ == trim(k@))
                } else {
                    r == Err::<String, ConfigError>(ConfigError::MissingKey)
                },
                None => r == Err::<String, ConfigError>(ConfigError::MissingKey),
            },
    {
        match &self.api_key {
            Some(k) => {
                let t = trim_str(k.as_str());
                let v = chars_of(t.as_str());
                if v.len() == 0 {
                    Err(ConfigError::MissingKey)
                } else {
                    Ok(t)
                }
            },
            None => Err(ConfigError::MissingKey),
        }
    }
}

/// The terms of `terms` as `unique_terms` keeps them.
pub fn unique_vocabulary(terms: &Vec<String>) -> (u: Vec<String>)
    ensures
        u.deep_view() == unique_terms(terms.deep_view()),
{
    let ghost d = terms.deep_view();
    let mut unique: Vec<String> = Vec::new();
    let mut i: usize = 0;
    while i < terms.len()
        invariant
            i <= terms.len(),
            d == terms.deep_view(),
            unique.deep_view() == unique_terms(d.take(i as int)),
        decreases terms.len() - i,
    {
        let term = trim_str(terms[i].as_str());
        let tv = chars_of(term.as_str());
        let mut seen = false;
        let mut k: usize = 0;
        while k < unique.len()
            invariant
                k <= unique.len(),
                seen == unique.deep_view().take(k as int).contains(term@),
            decreases unique.len() - k,
        {
            let same = str_equal(unique[k].as_str(), term.as_str());
            proof {
                assert(unique.deep_view()[k as int] == unique[k as int]@);
                let before = unique.deep_view().take(k as int);
                let after = unique.deep_view().take(k + 1);
                assert(after =~= before.push(unique[k as int]@));
                if before.contains(term@) {
                    let w = choose|w: int| 0 <= w < before.len() && before[w] == term@;
                    assert(after[w] == term@);
                }
                if unique[k as int]@ == term@ {
                    assert(after[k as int] == term@);
                }
                if after.contains(term@) && !before.contains(term@) {
                    let w = choose|w: int| 0 <= w < after.len() && after[w] == term@;
                    if w < k {
                        assert(before[w] == term@);
                    }
                }
            }
            seen = seen || same;
            k = k + 1;
        }
        assert(unique.deep_view().take(unique.len() as int) =~= unique.deep_view());
        proof {
            assert(d[i as int] == terms[i as int]@);
            assert(d.take(i + 1).drop_last() =~= d.take(i as int));
        }
        if tv.len() > 0 && !seen {
            let ghost before = unique.deep_view();
            unique.push(term);
            assert(unique.deep_view() =~= before.push(term@));
        }
        i = i + 1;
    }
    assert(d.take(terms.len() as int) =~= d);
    unique
}

/// Why the settings file has no place.
#[derive(Clone, Copy, Debug, PartialEq, Eq, Structural)]
pub enum PathError {
    /// Neither `XDG_CONFIG_HOME` nor `HOME` is set.
    HomeMissing,
    /// The configuration directory is not an absolute path.
    NotAbsolute,
}

impl PathError {
    /// The message shown to the user.
    pub fn message(&self) -> (s: String)
        ensures
            s@ == match self {
                PathError::HomeMissing => "HOME is missing"@,
                PathError::NotAbsolute => "Configuration directory must be absolute"@,
            },
    {
        match self {
            PathError::HomeMissing => String::from_str("HOME is missing"),
            PathError::NotAbsolute => String::from_str("Configuration directory must be absolute"),
        }
    }
}

/// The bytes of an ASCII text.
pub open spec fn ascii_bytes(s: Seq<char>) -> Seq<u8> {
    s.map_values(|c: char| c as u8)
}

/// `rel` appended to the path `base` as `PathBuf::join` does on Unix: with
/// a `/` between them unless `base` is empty or already ends with one.
pub open spec fn joined_path(base: Seq<u8>, rel: Seq<u8>) -> Seq<u8> {
    if base.len() == 0 || base.last() == 47u8 {
        base + rel
    } else {
        base + seq![47u8] + rel
    }
}

/// Where the settings file is, from the values of `XDG_CONFIG_HOME` and
/// `HOME`: `ai-dikte/config.json` under `XDG_CONFIG_HOME` when it is set,
/// else under `$HOME/.config`; the directory must be absolute (start with
/// `/`).
pub open spec fn config_path_spec(xdg: Option<Seq<u8>>, home: Option<Seq<u8>>) -> Result<
    Seq<u8>,
    PathError,
> {
    let root = match xdg {
        Some(x) => Ok(x),
        None => match home {
            Some(h) => Ok(joined_path(h, ascii_bytes(".config"@))),
            None => Err(PathError::HomeMissing),
        },
    };
    match root {
        Err(e) => Err(e),
        Ok(r) => if r.len() > 0 && r[0] == 47u8 {
            Ok(joined_path(r, ascii_bytes("ai-dikte/config.json"@)))
        } else {
            Err(PathError::NotAbsolute)
        },
    }
}

/// Appends the bytes of an ASCII text.
fn push_ascii(out: &mut Vec<u8>, s: &str)
    ensures
        final(out)@ == old(out)@ + ascii_bytes(s@),
{
    let v = chars_of(s);
    let ghost start = out@;
    let mut i: usize = 0;
    while i < v.len()
        invariant
            i <= v.len(),
            v@ == s@,
            out@ == start + ascii_bytes(v@.take(i as int)),
        decreases v.len() - i,
    {
        out.push(v[i] as u8);
        i = i + 1;
        assert(ascii_bytes(v@.take(i as int)) =~= ascii_bytes(v@.take(i - 1)).push(v@[i - 1] as u8));
    }
    assert(v@.take(v.len() as int) =~= v@);
}

/// The bytes of a path, copied.
fn copy_path(base: &[u8]) -> (p: Vec<u8>)
    ensures
        p@ == base@,
{
    let mut p: Vec<u8> = Vec::new();
    let mut i: usize = 0;
    while i < base.len()
        invariant
            i <= base.len(),
            p@ == base@.take(i as int),
        decreases base.len() - i,
    {
        p.push(base[i]);
        i = i + 1;
        assert(base@.take(i as int) =~= base@.take(i - 1).push(base@[i - 1]));
    }
    assert(base@.take(base.len() as int) =~= base@);
    p
}

/// `base` joined with the ASCII path `rel` (see `joined_path`).
fn join_path(base: &[u8], rel: &str) -> (p: Vec<u8>)
    ensures
        p@ == joined_path(base@, ascii_bytes(rel@)),
{
    let mut p = copy_path(base);
    if base.len() > 0 && base[base.len() - 1] != 47u8 {
        p.push(47u8);
    }
    push_ascii(&mut p, rel);
    p
}

/// Where the settings file is (see `config_path_spec`).
pub fn config_path(xdg: Option<&[u8]>, home: Option<&[u8]>) -> (r: Result<Vec<u8>, PathError>)
    ensures
        match config_path_spec(
            match xdg {
                Some(x) => Some(x@),
                None => None,
            },
            match home {
                Some(h) => Some(h@),
                None => None,
            },
        ) {
            Ok(p) => r matches Ok(v) && v@ == p,
            Err(e) => r == Err::<Vec<u8>, PathError>(e),
        },
{
    let root = match xdg {
        Some(x) => copy_path(x),
        None => match home {
            Some(h) => join_path(h, ".config"),
            None => {
                return Err(PathError::HomeMissing);
            },
        },
    };
    if root.len() > 0 && root[0] == 47u8 {
        Ok(join_path(root.as_slice(), "ai-dikte/config.json"))
    } else {
        Err(PathError::NotAbsolute)
    }
}

} // verus!
