//! Text rules of the console menu.
use vstd::prelude::*;
use crate::config::{same_untouched_fields, Config, Mode};
use crate::text::{ascii_lower, chars_of, join, push_range, split, trim, trim_bounds, trim_str, trim_start};

verus! {

/// The menu's line about the API key: never the key itself.
pub open spec fn masked(key: Seq<char>) -> Seq<char> {
    if key.len() == 0 {
        "Not configured"@
    } else {
        "Configured (hidden)"@
    }
}

/// What the menu shows for an API key (see `masked`).
pub fn mask_key(key: &str) -> (s: String)
    ensures
        s@ == masked(key@),
{
    if key.is_empty() {
        String::from_str("Not configured")
    } else {
        String::from_str("Configured (hidden)")
    }
}

/// The non-empty trimmed pieces, in order.
pub open spec fn nonempty_trimmed(parts: Seq<Seq<char>>) -> Seq<Seq<char>>
    decreases parts.len(),
{
    if parts.len() == 0 {
        Seq::empty()
    } else {
        let kept = nonempty_trimmed(parts.drop_last());
        let t = trim(parts.last());
        if t.len() > 0 {
            kept.push(t)
        } else {
            kept
        }
    }
}

/// The vocabulary in a comma-separated line: each term trimmed, empty
/// terms dropped, order and case kept.
pub open spec fn vocabulary_of(input: Seq<char>) -> Seq<Seq<char>> {
    nonempty_trimmed(split(input, ','))
}

proof fn lemma_split_step(s: Seq<char>, i: int)
    requires
        0 <= i < s.len(),
    ensures
        split(s.take(i + 1), ',') == ({
            let parts = split(s.take(i), ',');
            if s[i] == ',' {
                parts.push(Seq::empty())
            } else {
                parts.update(parts.len() - 1, parts.last().push(s[i]))
            }
        }),
{
    assert(s.take(i + 1).drop_last() =~= s.take(i));
}

proof fn lemma_split_nonempty(s: Seq<char>)
    ensures
        split(s, ',').len() > 0,
    decreases s.len(),
{
    if s.len() > 0 {
        lemma_split_nonempty(s.drop_last());
    }
}

proof fn lemma_split_concat(a: Seq<char>, b: Seq<char>)
    ensures
        split(a + seq![','] + b, ',') == split(a, ',') + split(b, ','),
    decreases b.len(),
{
    if b.len() == 0 {
        assert(a + seq![','] + b =~= a.push(','));
        assert(a.push(',').drop_last() =~= a);
        assert(split(a, ',').push(Seq::empty()) =~= split(a, ',') + seq![Seq::<char>::empty()]);
    } else {
        lemma_split_concat(a, b.drop_last());
        lemma_split_nonempty(b.drop_last());
        let s = a + seq![','] + b;
        assert(s.drop_last() =~= a + seq![','] + b.drop_last());
        assert(s.last() == b.last());
        let x = split(a, ',');
        let y = split(b.drop_last(), ',');
        if b.last() == ',' {
            assert((x + y).push(Seq::empty()) =~= x + y.push(Seq::empty()));
        } else {
            assert((x + y).update((x + y).len() - 1, (x + y).last().push(b.last())) =~= x
                + y.update(y.len() - 1, y.last().push(b.last())));
        }
    }
}

proof fn lemma_split_no_comma(s: Seq<char>)
    requires
        !s.contains(','),
    ensures
        split(s, ',') == seq![s],
    decreases s.len(),
{
    if s.len() > 0 {
        let p = s.drop_last();
        assert(!p.contains(',')) by {
            if p.contains(',') {
                let k = choose|k: int| 0 <= k < p.len() && p[k] == ',';
                assert(s[k] == ',');
            }
        }
        lemma_split_no_comma(p);
        assert(s.last() != ',') by {
            assert(s[s.len() - 1] == s.last());
        }
        assert(p.push(s.last()) =~= s);
        assert(seq![p].update(0, p.push(s.last())) =~= seq![s]);
    } else {
        assert(s =~= Seq::<char>::empty());
    }
}

/// Law: joining terms with `", "` and parsing the line gives the terms
/// back, in order and case, when each is trimmed, not empty and free of
/// commas.
pub proof fn law_vocabulary_round_trip(v: Seq<Seq<char>>)
    requires
        forall|i: int| 0 <= i < v.len() ==> (#[trigger] v[i]).len() > 0 && trim(v[i]) == v[i]
            && !v[i].contains(','),
    ensures
        vocabulary_of(join(v, ", "@)) == v,
    decreases v.len(),
{
    reveal_strlit(", ");
    if v.len() == 0 {
        assert(split(Seq::<char>::empty(), ',') =~= seq![Seq::<char>::empty()]);
        assert(seq![Seq::<char>::empty()].drop_last() =~= Seq::<Seq<char>>::empty());
        assert(nonempty_trimmed(Seq::<Seq<char>>::empty()) == Seq::<Seq<char>>::empty());
        assert(trim(Seq::<char>::empty()) =~= Seq::<char>::empty());
        assert(v =~= Seq::<Seq<char>>::empty());
    } else if v.len() == 1 {
        assert(nonempty_trimmed(Seq::<Seq<char>>::empty()) == Seq::<Seq<char>>::empty());
        lemma_split_no_comma(v[0]);
        assert(seq![v[0]].drop_last() =~= Seq::<Seq<char>>::empty());
        assert(Seq::<Seq<char>>::empty().push(v[0]) =~= v);
    } else {
        let w = v.drop_last();
        let last = v.last();
        assert forall|i: int| 0 <= i < w.len() implies (#[trigger] w[i]).len() > 0 && trim(w[i])
            == w[i] && !w[i].contains(',') by {
            assert(w[i] == v[i]);
        }
        law_vocabulary_round_trip(w);
        assert(last == v[v.len() - 1]);
        let piece = seq![' '] + last;
        assert(", "@ =~= seq![',', ' ']);
        assert(join(v, ", "@) =~= join(w, ", "@) + seq![','] + piece);
        lemma_split_concat(join(w, ", "@), piece);
        assert(!piece.contains(',')) by {
            if piece.contains(',') {
                let k = choose|k: int| 0 <= k < piece.len() && piece[k] == ',';
                assert(k > 0);
                assert(last[k - 1] == ',');
            }
        }
        lemma_split_no_comma(piece);
        let x = split(join(w, ", "@), ',');
        assert(x + seq![piece] =~= x.push(piece));
        assert(x.push(piece).drop_last() =~= x);
        assert(trim_start(piece) == trim_start(last)) by {
            assert(piece.drop_first() =~= last);
        }
        assert(trim(piece) == last);
        assert(w.push(last) =~= v);
    }
}

/// Appends `t` trimmed to `terms` when it is not empty.
fn keep_trimmed(terms: &mut Vec<String>, v: &Vec<char>, from: usize, to: usize)
    requires
        from <= to <= v.len(),
    ensures
        final(terms).deep_view() == ({
            let t = trim(v@.subrange(from as int, to as int));
            if t.len() > 0 {
                old(terms).deep_view().push(t)
            } else {
                old(terms).deep_view()
            }
        }),
{
    let mut piece = String::new();
    push_range(&mut piece, v, from, to);
    let term = trim_str(piece.as_str());
    if !term.as_str().is_empty() {
        let ghost before = terms.deep_view();
        terms.push(term);
        assert(terms.deep_view() =~= before.push(term@));
    }
}

/// The vocabulary in a comma-separated line (see `vocabulary_of`).
pub fn parse_vocabulary(input: &str) -> (terms: Vec<String>)
    ensures
        terms.deep_view() == vocabulary_of(input@),
{
    let v = chars_of(input);
    let mut terms: Vec<String> = Vec::new();
    let mut start: usize = 0;
    let mut i: usize = 0;
    let ghost mut done: Seq<Seq<char>> = Seq::empty();
    assert(v@.take(0) =~= Seq::<char>::empty());
    assert(split(Seq::<char>::empty(), ',') =~= seq![Seq::<char>::empty()]);
    assert(v@.subrange(0, 0) =~= Seq::<char>::empty());
    while i < v.len()
        invariant
            start <= i <= v.len(),
            v@ == input@,
            split(v@.take(i as int), ',') == done.push(v@.subrange(start as int, i as int)),
            terms.deep_view() == nonempty_trimmed(done),
        decreases v.len() - i,
    {
        proof {
            lemma_split_step(v@, i as int);
            let cur = v@.subrange(start as int, i as int);
            assert(done.push(cur).last() == cur);
            if v@[i as int] != ',' {
                assert(cur.push(v@[i as int]) =~= v@.subrange(start as int, i + 1));
                assert(done.push(cur).update(done.len() as int, cur.push(v@[i as int])) =~= done.push(
                    v@.subrange(start as int, i + 1),
                ));
            }
        }
        if v[i] == ',' {
            keep_trimmed(&mut terms, &v, start, i);
            proof {
                let cur = v@.subrange(start as int, i as int);
                assert(done.push(cur).drop_last() =~= done);
                done = done.push(cur);
                assert(v@.subrange(i + 1, i + 1) =~= Seq::<char>::empty());
            }
            start = i + 1;
        }
        i = i + 1;
    }
    keep_trimmed(&mut terms, &v, start, i);
    proof {
        let cur = v@.subrange(start as int, i as int);
        assert(done.push(cur).drop_last() =~= done);
        assert(v@.take(i as int) =~= v@);
    }
    terms
}

/// The answer to "Replace existing API key?".
#[derive(Clone, Copy, Debug, PartialEq, Eq, Structural)]
pub enum Answer {
    /// Keep the stored key (the default: an empty answer).
    Keep,
    /// Enter a new key.
    Replace,
    /// Neither; ask again.
    Invalid,
}

/// The answer meant by a typed line: empty, `n` or `no` keeps the key, `y` or
/// `yes` replaces it, ignoring surrounding space and ASCII case.
pub open spec fn answer_of(line: Seq<char>) -> Answer {
    let a = ascii_lower(trim(line));
    if a == Seq::<char>::empty() || a == seq!['n'] || a == seq!['n', 'o'] {
        Answer::Keep
    } else if a == seq!['y'] || a == seq!['y', 'e', 's'] {
        Answer::Replace
    } else {
        Answer::Invalid
    }
}

/// Whether `c` lowered is `want`.
fn lower_is(c: char, want: char) -> (b: bool)
    requires
        'a' <= want <= 'z',
    ensures
        b == ((if 'A' <= c <= 'Z' { ((c as u32) + 32) as char } else { c }) == want),
{
    if 'A' <= c && c <= 'Z' {
        (c as u32) + 32 == want as u32
    } else {
        c == want
    }
}

/// The answer meant by a typed line (see `answer_of`).
pub fn replace_answer(line: &str) -> (a: Answer)
    ensures
        a == answer_of(line@),
{
    let v = chars_of(line);
    let (i, j) = trim_bounds(&v);
    let ghost t = trim(line@);
    let ghost a = ascii_lower(t);
    assert(t.len() == j - i);
    assert(forall|k: int| 0 <= k < t.len() ==> t[k] == v@[i + k]);
    let n = j - i;
    if n == 0 {
        assert(a =~= Seq::<char>::empty());
        return Answer::Keep;
    }
    if n == 1 {
        if lower_is(v[i], 'n') {
            assert(a =~= seq!['n']);
            return Answer::Keep;
        }
        if lower_is(v[i], 'y') {
            assert(a =~= seq!['y']);
            assert(a != seq!['n']) by {
                assert(a[0] != seq!['n'][0]);
            }
            assert(a.len() != seq!['n', 'o'].len());
            return Answer::Replace;
        }
        assert(a[0] != 'n' && a[0] != 'y');
        assert(a != seq!['n']) by {
            if a == seq!['n'] {
                assert(a[0] == 'n');
            }
        }
        assert(a != seq!['y']) by {
            if a == seq!['y'] {
                assert(a[0] == 'y');
            }
        }
        return Answer::Invalid;
    }
    if n == 2 {
        if lower_is(v[i], 'n') && lower_is(v[i + 1], 'o') {
            assert(a =~= seq!['n', 'o']);
            return Answer::Keep;
        }
        assert(!(a[0] == 'n' && a[1] == 'o'));
        assert(a != seq!['n', 'o']) by {
            if a == seq!['n', 'o'] {
                assert(a[0] == 'n' && a[1] == 'o');
            }
        }
        assert(a.len() != seq!['y', 'e', 's'].len());
        assert(a.len() != seq!['n'].len());
        assert(a.len() != seq!['y'].len());
        return Answer::Invalid;
    }
    if n == 3 {
        if lower_is(v[i], 'y') && lower_is(v[i + 1], 'e') && lower_is(v[i + 2], 's') {
            assert(a =~= seq!['y', 'e', 's']);
            return Answer::Replace;
        }
        assert(!(a[0] == 'y' && a[1] == 'e' && a[2] == 's'));
        assert(a != seq!['y', 'e', 's']) by {
            if a == seq!['y', 'e', 's'] {
                assert(a[0] == 'y' && a[1] == 'e' && a[2] == 's');
            }
        }
        assert(a.len() != seq!['n', 'o'].len());
        assert(a.len() != seq!['n'].len());
        assert(a.len() != seq!['y'].len());
        return Answer::Invalid;
    }
    assert(a.len() > 3);
    Answer::Invalid
}

/// A change asked for in the style menu.
pub enum StyleEdit {
    /// The typed language code; an empty answer keeps the current one.
    Language(String),
    /// Switch between Smart and Verbatim.
    ToggleMode,
    /// The typed comma-separated terms; an empty answer keeps the current
    /// ones.
    Vocabulary(String),
}

/// The other mode.
pub open spec fn toggled(m: Mode) -> Mode {
    match m {
        Mode::Smart => Mode::Verbatim,
        Mode::Verbatim => Mode::Smart,
    }
}

/// Applies a style edit to the settings; `true` when they changed and are
/// to be saved. A blank answer changes nothing; a language is stored
/// trimmed; typed terms replace the vocabulary (see `vocabulary_of`); the
/// mode toggles. Nothing else changes.
pub fn apply_style_edit(config: &mut Config, edit: StyleEdit) -> (changed: bool)
    ensures
        match edit {
            StyleEdit::Language(a) => if trim(a@).len() == 0 {
                !changed && *final(config) == *old(config)
            } else {
                &&& changed
                &&& final(config).language@ == trim(a@)
                &&& final(config).custom_vocabulary == old(config).custom_vocabulary
                &&& same_untouched_fields(final(config), old(config))
            },
            StyleEdit::ToggleMode => {
                &&& changed
                &&& final(config).mode == toggled(old(config).mode)
                &&& final(config).language == old(config).language
                &&& final(config).custom_vocabulary == old(config).custom_vocabulary
                &&& final(config).audio_cue == old(config).audio_cue
                &&& final(config).notify_mode == old(config).notify_mode
                &&& final(config).input_device == old(config).input_device
                &&& final(config).api_key == old(config).api_key
            },
            StyleEdit::Vocabulary(a) => if trim(a@).len() == 0 {
                !changed && *final(config) == *old(config)
            } else {
                &&& changed
                &&& final(config).custom_vocabulary.deep_view() == vocabulary_of(trim(a@))
                &&& final(config).language == old(config).language
                &&& same_untouched_fields(final(config), old(config))
            },
        },
{
    match edit {
        StyleEdit::Language(answer) => {
            let t = trim_str(answer.as_str());
            if t.as_str().is_empty() {
                false
            } else {
                config.language = t;
                true
            }
        },
        StyleEdit::ToggleMode => {
            config.mode = match config.mode {
                Mode::Smart => Mode::Verbatim,
                Mode::Verbatim => Mode::Smart,
            };
            true
        },
        StyleEdit::Vocabulary(answer) => {
            let t = trim_str(answer.as_str());
            if t.as_str().is_empty() {
                false
            } else {
                config.custom_vocabulary = parse_vocabulary(t.as_str());
                true
            }
        },
    }
}

/// Law: the replace question is answered by the typed word alone, in any
/// ASCII case and with any surrounding space: an empty line, `n` or `no`
/// keeps the key, `y` or `yes` replaces it, and anything else asks again.
pub proof fn law_replace_answers(line: Seq<char>)
    ensures
        answer_of(line) == Answer::Replace <==> (ascii_lower(trim(line)) == seq!['y']
            || ascii_lower(trim(line)) == seq!['y', 'e', 's']),
        answer_of(line) == Answer::Keep <==> (trim(line).len() == 0 || ascii_lower(trim(line))
            == seq!['n'] || ascii_lower(trim(line)) == seq!['n', 'o']),
        answer_of(seq!['Y', 'E', 'S']) == Answer::Replace,
        answer_of(seq!['N']) == Answer::Keep,
{
    let a = ascii_lower(trim(line));
    assert(trim(line).len() == 0 <==> a =~= Seq::<char>::empty());
    assert(seq!['n'] != seq!['y']) by {
        assert(seq!['n'][0] != seq!['y'][0]);
    }
    assert(seq!['n', 'o'] != seq!['y', 'e', 's']) by {
        assert(seq!['n', 'o'].len() != seq!['y', 'e', 's'].len());
    }
    assert(seq!['n'] != seq!['y', 'e', 's']) by {
        assert(seq!['n'].len() != seq!['y', 'e', 's'].len());
    }
    assert(seq!['n', 'o'] != seq!['y']) by {
        assert(seq!['n', 'o'].len() != seq!['y'].len());
    }
    assert(Seq::<char>::empty() != seq!['y']) by {
        assert(Seq::<char>::empty().len() != seq!['y'].len());
    }
    assert(Seq::<char>::empty() != seq!['y', 'e', 's']) by {
        assert(Seq::<char>::empty().len() != seq!['y', 'e', 's'].len());
    }
    let up = seq!['Y', 'E', 'S'];
    assert(trim(up) == up) by {
        crate::text::lemma_trim_of_unspaced(up);
    }
    assert(ascii_lower(up) =~= seq!['y', 'e', 's']);
    let n = seq!['N'];
    assert(trim(n) == n) by {
        crate::text::lemma_trim_of_unspaced(n);
    }
    assert(ascii_lower(n) =~= seq!['n']);
}

} // verus!
