//! The managed Hyprland shortcut block: a marked region of a user's config
//! file that this tool may add or remove, leaving every other line intact;
//! and the update of the config files, which writes every planned text and
//! reloads, or puts every file written back as it was.
use vstd::prelude::*;
use crate::text::{
    ascii_lower, chars_of, contains, contains_chars, lower_chars, matches_at, push_range, push_str,
    trim, trim_bounds,
};

verus! {

/// Text of the line that opens the managed block (after its comment marks).
pub const START: &'static str = ">>> ai-dikte >>>";

/// Text of the line that closes the managed block (after its comment marks).
pub const END: &'static str = "<<< ai-dikte <<<";

/// Why a config file's shortcut block cannot be updated safely.
#[derive(Clone, Copy, Debug, PartialEq, Eq, Structural)]
pub enum ShortcutError {
    /// A start marker inside an open block.
    Nested,
    /// An end marker outside any block.
    Unmatched,
    /// A block that is never closed; removing it could delete user text.
    Unterminated,
    /// None of the known Hyprland config files exists.
    NoConfig,
}

impl ShortcutError {
    /// The message shown to the user.
    pub fn message(&self) -> (s: String)
        ensures
            s@ == match self {
                ShortcutError::Nested => "Nested AI Dikte shortcut markers"@,
                ShortcutError::Unmatched => "Unmatched AI Dikte shortcut end marker"@,
                ShortcutError::Unterminated => "Unterminated AI Dikte shortcut block; refusing to remove user configuration"@,
                ShortcutError::NoConfig => "Cannot find an existing Hyprland config; add the Win+Z binding manually"@,
            },
    {
        match self {
            ShortcutError::Nested => String::from_str("Nested AI Dikte shortcut markers"),
            ShortcutError::Unmatched => String::from_str("Unmatched AI Dikte shortcut end marker"),
            ShortcutError::Unterminated => String::from_str(
                "Unterminated AI Dikte shortcut block; refusing to remove user configuration",
            ),
            ShortcutError::NoConfig => String::from_str(
                "Cannot find an existing Hyprland config; add the Win+Z binding manually",
            ),
        }
    }
}

/// The lines of `s`, each with its line feed (`str::split_inclusive('\n')`):
/// every line but the last ends with `\n`, and no line is empty.
pub open spec fn lines(s: Seq<char>) -> Seq<Seq<char>>
    decreases s.len(),
{
    if s.len() == 0 {
        Seq::empty()
    } else {
        let ls = lines(s.drop_last());
        if ls.len() > 0 && ls.last().last() != '\n' {
            ls.update(ls.len() - 1, ls.last().push(s.last()))
        } else {
            ls.push(seq![s.last()])
        }
    }
}

/// `s` without trailing `\r` and `\n` characters.
pub open spec fn strip_line_end(s: Seq<char>) -> Seq<char>
    decreases s.len(),
{
    if s.len() > 0 && (s.last() == '\r' || s.last() == '\n') {
        strip_line_end(s.drop_last())
    } else {
        s
    }
}

/// A comment mark that may precede a marker: `#`, `-` or a space.
pub open spec fn is_mark(c: char) -> bool {
    c == '#' || c == '-' || c == ' '
}

/// `s` without leading comment marks.
pub open spec fn strip_marks(s: Seq<char>) -> Seq<char>
    decreases s.len(),
{
    if s.len() > 0 && is_mark(s[0]) {
        strip_marks(s.drop_first())
    } else {
        s
    }
}

/// What a line says once its line ending and leading comment marks are gone.
pub open spec fn marker_text(line: Seq<char>) -> Seq<char> {
    strip_marks(strip_line_end(line))
}

/// State while scanning lines: inside a block or not, and the text kept.
pub type Scan = Result<(bool, Seq<char>), ShortcutError>;

/// One line read in scan state `st`: a start marker opens a block (refused
/// inside one), an end marker closes it (refused outside one), a line outside
/// any block is kept, and a line inside one is dropped.
pub open spec fn scan_line(st: Scan, line: Seq<char>) -> Scan {
    match st {
        Err(e) => Err(e),
        Ok((inside, kept)) => {
            let m = marker_text(line);
            if m == START@ {
                if inside {
                    Err(ShortcutError::Nested)
                } else {
                    Ok((true, kept))
                }
            } else if m == END@ {
                if !inside {
                    Err(ShortcutError::Unmatched)
                } else {
                    Ok((false, kept))
                }
            } else if inside {
                Ok((true, kept))
            } else {
                Ok((false, kept + line))
            }
        },
    }
}

/// The scan state after reading the lines `ls` from state `st`.
pub open spec fn scan_lines(st: Scan, ls: Seq<Seq<char>>) -> Scan
    decreases ls.len(),
{
    if ls.len() == 0 {
        st
    } else {
        scan_line(scan_lines(st, ls.drop_last()), ls.last())
    }
}

/// `text` with the managed block removed; refused when the markers do not
/// pair up, so that no user text is lost.
pub open spec fn without_block_spec(text: Seq<char>) -> Result<Seq<char>, ShortcutError> {
    match scan_lines(Ok((false, Seq::empty())), lines(text)) {
        Err(e) => Err(e),
        Ok((inside, kept)) => if inside {
            Err(ShortcutError::Unterminated)
        } else {
            Ok(kept)
        },
    }
}

proof fn lemma_strip_line_end_step(s: Seq<char>, j: int)
    requires
        0 < j <= s.len(),
        s[j - 1] == '\r' || s[j - 1] == '\n',
    ensures
        strip_line_end(s.take(j)) == strip_line_end(s.take(j - 1)),
{
    assert(s.take(j).drop_last() =~= s.take(j - 1));
}

proof fn lemma_strip_marks_step(s: Seq<char>, i: int, j: int)
    requires
        0 <= i < j <= s.len(),
        is_mark(s[i]),
    ensures
        strip_marks(s.subrange(i, j)) == strip_marks(s.subrange(i + 1, j)),
{
    assert(s.subrange(i, j).drop_first() =~= s.subrange(i + 1, j));
}

/// Bounds of the marker text of the line `v[from..to]`.
fn marker_bounds(v: &Vec<char>, from: usize, to: usize) -> (r: (usize, usize))
    requires
        from <= to <= v.len(),
    ensures
        from <= r.0 <= r.1 <= to,
        v@.subrange(r.0 as int, r.1 as int) == marker_text(v@.subrange(from as int, to as int)),
{
    let ghost line = v@.subrange(from as int, to as int);
    let mut j = to;
    assert(line.take(line.len() as int) =~= line);
    while j > from && (v[j - 1] == '\r' || v[j - 1] == '\n')
        invariant
            from <= j <= to <= v.len(),
            line == v@.subrange(from as int, to as int),
            strip_line_end(line) == strip_line_end(line.take(j - from)),
        decreases j - from,
    {
        proof {
            lemma_strip_line_end_step(line, j - from);
        }
        j = j - 1;
    }
    assert(line.take(j - from) =~= v@.subrange(from as int, j as int));
    let ghost e = v@.subrange(from as int, j as int);
    assert(strip_line_end(line) == e);
    let mut i = from;
    assert(e.subrange(0, e.len() as int) =~= e);
    while i < j && (v[i] == '#' || v[i] == '-' || v[i] == ' ')
        invariant
            from <= i <= j <= to <= v.len(),
            e == v@.subrange(from as int, j as int),
            strip_marks(e) == strip_marks(e.subrange(i - from, e.len() as int)),
        decreases j - i,
    {
        proof {
            lemma_strip_marks_step(e, i - from, e.len() as int);
        }
        i = i + 1;
    }
    assert(e.subrange(i - from, e.len() as int) =~= v@.subrange(i as int, j as int));
    (i, j)
}

/// Whether `v[from..to]` holds exactly the characters of `p`.
fn range_equals(v: &Vec<char>, from: usize, to: usize, p: &Vec<char>) -> (b: bool)
    requires
        from <= to <= v.len(),
    ensures
        b == (v@.subrange(from as int, to as int) == p@),
{
    if to - from != p.len() {
        return false;
    }
    matches_at(v, from, p)
}

proof fn lemma_lines_step(s: Seq<char>, i: int)
    requires
        0 <= i < s.len(),
    ensures
        lines(s.take(i + 1)) == ({
            let ls = lines(s.take(i));
            if ls.len() > 0 && ls.last().last() != '\n' {
                ls.update(ls.len() - 1, ls.last().push(s[i]))
            } else {
                ls.push(seq![s[i]])
            }
        }),
{
    assert(s.take(i + 1).drop_last() =~= s.take(i));
}

/// The scan state that the executable scan variables stand for.
pub open spec fn scan_of(inside: bool, error: Option<ShortcutError>, kept: Seq<char>) -> Scan {
    match error {
        Some(e) => Err(e),
        None => Ok((inside, kept)),
    }
}

/// Reads the line `v[from..to]` into the scan state.
fn scan_one(
    v: &Vec<char>,
    from: usize,
    to: usize,
    start: &Vec<char>,
    end: &Vec<char>,
    inside: &mut bool,
    error: &mut Option<ShortcutError>,
    kept: &mut String,
)
    requires
        from <= to <= v.len(),
        start@ == START@,
        end@ == END@,
    ensures
        scan_of(*final(inside), *final(error), final(kept)@) == scan_line(
            scan_of(*old(inside), *old(error), old(kept)@),
            v@.subrange(from as int, to as int),
        ),
{
    if error.is_some() {
        return;
    }
    let (ms, me) = marker_bounds(v, from, to);
    if range_equals(v, ms, me, start) {
        if *inside {
            *error = Some(ShortcutError::Nested);
        } else {
            *inside = true;
        }
    } else if range_equals(v, ms, me, end) {
        if !*inside {
            *error = Some(ShortcutError::Unmatched);
        } else {
            *inside = false;
        }
    } else if !*inside {
        push_range(kept, v, from, to);
    }
}

/// The text without the managed block (see `without_block_spec`).
pub fn without_block(text: &str) -> (r: Result<String, ShortcutError>)
    ensures
        match without_block_spec(text@) {
            Ok(kept) => r matches Ok(s) && s@ == kept,
            Err(e) => r == Err::<String, ShortcutError>(e),
        },
{
    let v = chars_of(text);
    let start = chars_of(START);
    let end = chars_of(END);
    let mut result = String::new();
    let mut inside = false;
    let mut error: Option<ShortcutError> = None;
    let mut line_start: usize = 0;
    let mut i: usize = 0;
    let ghost mut done: Seq<Seq<char>> = Seq::empty();
    assert(v@.take(0) =~= Seq::<char>::empty());
    while i < v.len()
        invariant
            line_start <= i <= v.len(),
            v@ == text@,
            start@ == START@,
            end@ == END@,
            lines(v@.take(i as int)) == if line_start == i {
                done
            } else {
                done.push(v@.subrange(line_start as int, i as int))
            },
            done.len() == 0 || done.last().last() == '\n',
            line_start == i || v@[i - 1] != '\n',
            scan_lines(Ok((false, Seq::empty())), done) == scan_of(inside, error, result@),
        decreases v.len() - i,
    {
        proof {
            lemma_lines_step(v@, i as int);
            if line_start < i {
                let cur = v@.subrange(line_start as int, i as int);
                assert(cur.last() == v@[i - 1]);
                assert(done.push(cur).last() == cur);
                assert(cur.push(v@[i as int]) =~= v@.subrange(line_start as int, i + 1));
                assert(done.push(cur).update(done.len() as int, cur.push(v@[i as int]))
                    =~= done.push(v@.subrange(line_start as int, i + 1)));
            } else {
                assert(seq![v@[i as int]] =~= v@.subrange(line_start as int, i + 1));
            }
        }
        i = i + 1;
        if v[i - 1] == '\n' {
            let ghost line = v@.subrange(line_start as int, i as int);
            scan_one(&v, line_start, i, &start, &end, &mut inside, &mut error, &mut result);
            proof {
                assert(done.push(line).drop_last() =~= done);
                assert(line.last() == '\n');
                done = done.push(line);
            }
            line_start = i;
        }
    }
    if line_start < i {
        let ghost line = v@.subrange(line_start as int, i as int);
        scan_one(&v, line_start, i, &start, &end, &mut inside, &mut error, &mut result);
        proof {
            assert(done.push(line).drop_last() =~= done);
            done = done.push(line);
        }
    }
    assert(v@.take(i as int) =~= v@);
    if let Some(e) = error {
        return Err(e);
    }
    if inside {
        return Err(ShortcutError::Unterminated);
    }
    Ok(result)
}

/// `s` ending with a line feed, unless it is empty or already ends with one.
pub open spec fn line_terminated(s: Seq<char>) -> Seq<char> {
    if s.len() > 0 && s.last() != '\n' {
        s.push('\n')
    } else {
        s
    }
}

/// First line of the managed block.
pub open spec fn block_open(lua: bool) -> Seq<char> {
    if lua {
        "-- >>> ai-dikte >>>\n"@
    } else {
        "# >>> ai-dikte >>>\n"@
    }
}

/// The binding line inside the managed block.
pub open spec fn block_binding(lua: bool) -> Seq<char> {
    if lua {
        "o.bind(\"SUPER + Z\", \"AI Dikte\", \"ai-dikte-toggle\")\n"@
    } else {
        "bind = SUPER, Z, exec, ai-dikte-toggle\n"@
    }
}

/// Last line of the managed block.
pub open spec fn block_close(lua: bool) -> Seq<char> {
    if lua {
        "-- <<< ai-dikte <<<\n"@
    } else {
        "# <<< ai-dikte <<<\n"@
    }
}

/// The managed block binding Super+Z to the toggle command, in Lua or in
/// Hyprland's own config syntax.
pub open spec fn block_text(lua: bool) -> Seq<char> {
    block_open(lua) + block_binding(lua) + block_close(lua)
}

/// `text` with its managed block replaced by a fresh one at the end.
pub open spec fn with_block_spec(text: Seq<char>, lua: bool) -> Result<Seq<char>, ShortcutError> {
    match without_block_spec(text) {
        Ok(kept) => Ok(line_terminated(kept) + block_text(lua)),
        Err(e) => Err(e),
    }
}

/// The text with its managed block replaced by a fresh one at the end
/// (see `with_block_spec`); `lua` selects the Lua syntax.
pub fn with_block(text: &str, lua: bool) -> (r: Result<String, ShortcutError>)
    ensures
        match with_block_spec(text@, lua) {
            Ok(t) => r matches Ok(s) && s@ == t,
            Err(e) => r == Err::<String, ShortcutError>(e),
        },
{
    let mut s = without_block(text)?;
    let v = chars_of(s.as_str());
    if v.len() > 0 && v[v.len() - 1] != '\n' {
        crate::text::push_char(&mut s, '\n');
    }
    if lua {
        push_str(&mut s, "-- >>> ai-dikte >>>\n");
        push_str(&mut s, "o.bind(\"SUPER + Z\", \"AI Dikte\", \"ai-dikte-toggle\")\n");
        push_str(&mut s, "-- <<< ai-dikte <<<\n");
    } else {
        push_str(&mut s, "# >>> ai-dikte >>>\n");
        push_str(&mut s, "bind = SUPER, Z, exec, ai-dikte-toggle\n");
        push_str(&mut s, "# <<< ai-dikte <<<\n");
    }
    proof {
        assert(s@ =~= line_terminated(v@) + block_text(lua));
    }
    Ok(s)
}

// ---------------------------------------------------------------------------
// Laws of the managed block

/// A line as `lines` yields it: not empty, and a line feed only at its end.
pub open spec fn proper_line(l: Seq<char>) -> bool {
    l.len() > 0 && forall|k: int| 0 <= k < l.len() - 1 ==> l[k] != '\n'
}

/// The lines concatenated.
pub open spec fn flatten(ls: Seq<Seq<char>>) -> Seq<char>
    decreases ls.len(),
{
    if ls.len() == 0 {
        Seq::empty()
    } else {
        flatten(ls.drop_last()) + ls.last()
    }
}

/// A line that is neither a start nor an end marker.
pub open spec fn plain_line(l: Seq<char>) -> bool {
    marker_text(l) != START@ && marker_text(l) != END@
}

/// Every line is plain.
pub open spec fn all_plain(ls: Seq<Seq<char>>) -> bool {
    forall|j: int| 0 <= j < ls.len() ==> plain_line(#[trigger] ls[j])
}

proof fn lemma_lines_shape(s: Seq<char>)
    ensures
        forall|j: int| 0 <= j < lines(s).len() ==> proper_line(#[trigger] lines(s)[j]),
        forall|j: int| 0 <= j < lines(s).len() - 1 ==> (#[trigger] lines(s)[j]).last() == '\n',
        s.len() == 0 <==> lines(s).len() == 0,
        s.len() > 0 ==> lines(s).last().last() == s.last(),
        flatten(lines(s)) == s,
    decreases s.len(),
{
    if s.len() > 0 {
        let p = s.drop_last();
        let c = s.last();
        let ls = lines(p);
        lemma_lines_shape(p);
        if ls.len() > 0 && ls.last().last() != '\n' {
            let x = ls.last().push(c);
            let n = lines(s);
            assert(n == ls.update(ls.len() - 1, x));
            assert(proper_line(x)) by {
                assert forall|k: int| 0 <= k < x.len() - 1 implies x[k] != '\n' by {
                    if k < ls.last().len() - 1 {
                        assert(x[k] == ls.last()[k]);
                    } else {
                        assert(x[k] == ls.last().last());
                    }
                }
            }
            assert forall|j: int| 0 <= j < n.len() implies proper_line(#[trigger] n[j]) by {
                if j < n.len() - 1 {
                    assert(n[j] == ls[j]);
                }
            }
            assert forall|j: int| 0 <= j < n.len() - 1 implies (#[trigger] n[j]).last() == '\n' by {
                assert(n[j] == ls[j]);
            }
            assert(n.drop_last() =~= ls.drop_last());
            assert(flatten(n) == flatten(ls.drop_last()) + x);
            assert(flatten(ls) == flatten(ls.drop_last()) + ls.last());
            assert(s =~= p.push(c));
        } else {
            let n = lines(s);
            assert(n == ls.push(seq![c]));
            assert forall|j: int| 0 <= j < n.len() implies proper_line(#[trigger] n[j]) by {
                if j < n.len() - 1 {
                    assert(n[j] == ls[j]);
                }
            }
            assert forall|j: int| 0 <= j < n.len() - 1 implies (#[trigger] n[j]).last() == '\n' by {
                assert(n[j] == ls[j]);
            }
            assert(n.drop_last() =~= ls);
            assert(s =~= p.push(c));
        }
    }
}

proof fn lemma_lines_single(l: Seq<char>)
    requires
        proper_line(l),
    ensures
        lines(l) == seq![l],
    decreases l.len(),
{
    if l.len() == 1 {
        assert(l.drop_last() =~= Seq::<char>::empty());
        assert(lines(l.drop_last()).len() == 0);
        assert(seq![l.last()] =~= l);
        assert(lines(l.drop_last()).push(seq![l.last()]) =~= seq![l]);
    } else {
        let p = l.drop_last();
        assert(proper_line(p));
        lemma_lines_single(p);
        assert(p.last() == l[l.len() - 2]);
        assert(lines(p).last().last() != '\n');
        assert(p.push(l.last()) =~= l);
        assert(seq![p].update(0, p.push(l.last())) =~= seq![l]);
    }
}

proof fn lemma_lines_concat(a: Seq<char>, b: Seq<char>)
    requires
        a.len() == 0 || a.last() == '\n',
    ensures
        lines(a + b) == lines(a) + lines(b),
    decreases b.len(),
{
    if b.len() == 0 {
        assert(a + b =~= a);
        assert(lines(a) + lines(b) =~= lines(a));
    } else {
        let b1 = b.drop_last();
        let c = b.last();
        lemma_lines_concat(a, b1);
        assert((a + b).drop_last() =~= a + b1);
        assert((a + b).last() == c);
        let la = lines(a);
        let lb1 = lines(b1);
        lemma_lines_shape(a);
        lemma_lines_shape(b1);
        if b1.len() > 0 {
            assert((la + lb1).last() == lb1.last());
            if lb1.last().last() != '\n' {
                assert((la + lb1).update((la + lb1).len() - 1, lb1.last().push(c)) =~= la
                    + lb1.update(lb1.len() - 1, lb1.last().push(c)));
            } else {
                assert((la + lb1).push(seq![c]) =~= la + lb1.push(seq![c]));
            }
        } else {
            assert(la + lb1 =~= la);
            assert(b =~= seq![c]);
            assert(lines(b) =~= seq![seq![c]]) by {
                assert(b.drop_last() =~= Seq::<char>::empty());
            }
            assert(la.push(seq![c]) =~= la + seq![seq![c]]);
        }
    }
}

proof fn lemma_scan_concat(st: Scan, x: Seq<Seq<char>>, y: Seq<Seq<char>>)
    ensures
        scan_lines(st, x + y) == scan_lines(scan_lines(st, x), y),
    decreases y.len(),
{
    if y.len() == 0 {
        assert(x + y =~= x);
    } else {
        lemma_scan_concat(st, x, y.drop_last());
        assert((x + y).drop_last() =~= x + y.drop_last());
        assert((x + y).last() == y.last());
    }
}

proof fn lemma_scan_plain(p: Seq<char>, ls: Seq<Seq<char>>)
    requires
        all_plain(ls),
    ensures
        scan_lines(Ok((false, p)), ls) == Ok::<(bool, Seq<char>), ShortcutError>(
            (false, p + flatten(ls)),
        ),
    decreases ls.len(),
{
    if ls.len() == 0 {
        assert(p + flatten(ls) =~= p);
    } else {
        let rest = ls.drop_last();
        assert(all_plain(rest)) by {
            assert forall|j: int| 0 <= j < rest.len() implies plain_line(#[trigger] rest[j]) by {
                assert(rest[j] == ls[j]);
            }
        }
        lemma_scan_plain(p, rest);
        assert(plain_line(ls[ls.len() - 1]));
        assert(p + flatten(rest) + ls.last() =~= p + flatten(ls));
    }
}

proof fn lemma_kept_is_plain(ls: Seq<Seq<char>>)
    requires
        forall|j: int| 0 <= j < ls.len() ==> proper_line(#[trigger] ls[j]),
        forall|j: int| 0 <= j < ls.len() - 1 ==> (#[trigger] ls[j]).last() == '\n',
    ensures
        match scan_lines(Ok((false, Seq::empty())), ls) {
            Ok((inside, kept)) => {
                &&& all_plain(lines(kept))
                &&& (ls.len() == 0 || ls.last().last() == '\n') ==> (kept.len() == 0
                    || kept.last() == '\n')
            },
            Err(_) => true,
        },
    decreases ls.len(),
{
    if ls.len() == 0 {
        assert(lines(Seq::<char>::empty()).len() == 0);
    } else {
        let rest = ls.drop_last();
        let l = ls.last();
        assert forall|j: int| 0 <= j < rest.len() implies proper_line(#[trigger] rest[j]) by {
            assert(rest[j] == ls[j]);
        }
        assert forall|j: int| 0 <= j < rest.len() - 1 implies (#[trigger] rest[j]).last() == '\n' by {
            assert(rest[j] == ls[j]);
        }
        lemma_kept_is_plain(rest);
        if rest.len() > 0 {
            assert(rest.last() == ls[ls.len() - 2]);
        }
        match scan_lines(Ok((false, Seq::empty())), rest) {
            Ok((inside, kept)) => {
                let m = marker_text(l);
                if m != START@ && m != END@ && !inside {
                    assert(proper_line(ls[ls.len() - 1]));
                    lemma_lines_concat(kept, l);
                    lemma_lines_single(l);
                    let nl = lines(kept) + seq![l];
                    assert forall|j: int| 0 <= j < nl.len() implies plain_line(#[trigger] nl[j]) by {
                        if j < lines(kept).len() {
                            assert(nl[j] == lines(kept)[j]);
                        }
                    }
                }
            },
            Err(_) => {},
        }
    }
}

proof fn lemma_strip_newline(x: Seq<char>)
    ensures
        marker_text(x.push('\n')) == marker_text(x),
{
    assert(x.push('\n').drop_last() =~= x);
}

proof fn lemma_terminated_plain(base: Seq<char>)
    requires
        all_plain(lines(base)),
    ensures
        all_plain(lines(line_terminated(base))),
        line_terminated(base).len() == 0 || line_terminated(base).last() == '\n',
        line_terminated(line_terminated(base)) == line_terminated(base),
{
    if base.len() > 0 && base.last() != '\n' {
        lemma_lines_shape(base);
        let ls = lines(base);
        let t = base.push('\n');
        assert(t.drop_last() =~= base);
        let n = lines(t);
        assert(n == ls.update(ls.len() - 1, ls.last().push('\n')));
        lemma_strip_newline(ls.last());
        assert forall|j: int| 0 <= j < n.len() implies plain_line(#[trigger] n[j]) by {
            if j < n.len() - 1 {
                assert(n[j] == ls[j]);
            } else {
                assert(plain_line(ls[ls.len() - 1]));
            }
        }
    }
}

proof fn lemma_marker_steps_open(lua: bool)
    ensures
        marker_text(block_open(lua)) == START@,
        proper_line(block_open(lua)),
        block_open(lua).last() == '\n',
{
    reveal_strlit("-- >>> ai-dikte >>>\n");
    reveal_strlit("# >>> ai-dikte >>>\n");
    reveal_strlit(">>> ai-dikte >>>");
    let l = block_open(lua);
    let e = l.drop_last();
    assert(strip_line_end(l) == strip_line_end(e));
    assert(strip_line_end(e) == e);
    if lua {
        assert(strip_marks(e) == strip_marks(e.drop_first()));
        assert(strip_marks(e.drop_first()) == strip_marks(e.drop_first().drop_first()));
        assert(strip_marks(e.drop_first().drop_first()) == strip_marks(
            e.drop_first().drop_first().drop_first(),
        ));
        assert(e.drop_first().drop_first().drop_first() =~= START@);
    } else {
        assert(strip_marks(e) == strip_marks(e.drop_first()));
        assert(strip_marks(e.drop_first()) == strip_marks(e.drop_first().drop_first()));
        assert(e.drop_first().drop_first() =~= START@);
    }
}

proof fn lemma_marker_steps_close(lua: bool)
    ensures
        marker_text(block_close(lua)) == END@,
        proper_line(block_close(lua)),
        block_close(lua).last() == '\n',
{
    reveal_strlit("-- <<< ai-dikte <<<\n");
    reveal_strlit("# <<< ai-dikte <<<\n");
    reveal_strlit("<<< ai-dikte <<<");
    let l = block_close(lua);
    let e = l.drop_last();
    assert(strip_line_end(l) == strip_line_end(e));
    assert(strip_line_end(e) == e);
    if lua {
        assert(strip_marks(e) == strip_marks(e.drop_first()));
        assert(strip_marks(e.drop_first()) == strip_marks(e.drop_first().drop_first()));
        assert(strip_marks(e.drop_first().drop_first()) == strip_marks(
            e.drop_first().drop_first().drop_first(),
        ));
        assert(e.drop_first().drop_first().drop_first() =~= END@);
    } else {
        assert(strip_marks(e) == strip_marks(e.drop_first()));
        assert(strip_marks(e.drop_first()) == strip_marks(e.drop_first().drop_first()));
        assert(e.drop_first().drop_first() =~= END@);
    }
}

proof fn lemma_binding_plain(lua: bool)
    ensures
        plain_line(block_binding(lua)),
        proper_line(block_binding(lua)),
        block_binding(lua).last() == '\n',
{
    reveal_strlit("o.bind(\"SUPER + Z\", \"AI Dikte\", \"ai-dikte-toggle\")\n");
    reveal_strlit("bind = SUPER, Z, exec, ai-dikte-toggle\n");
    reveal_strlit(">>> ai-dikte >>>");
    reveal_strlit("<<< ai-dikte <<<");
    let l = block_binding(lua);
    let e = l.drop_last();
    assert(strip_line_end(l) == strip_line_end(e));
    assert(strip_line_end(e) == e);
    assert(strip_marks(e) == e);
    assert(e[0] != START@[0]);
    assert(e[0] != END@[0]);
}

proof fn lemma_block_lines(lua: bool)
    ensures
        lines(block_text(lua)) == seq![block_open(lua), block_binding(lua), block_close(lua)],
{
    lemma_marker_steps_open(lua);
    lemma_marker_steps_close(lua);
    lemma_binding_plain(lua);
    let o = block_open(lua);
    let b = block_binding(lua);
    let c = block_close(lua);
    lemma_lines_concat(o, b);
    lemma_lines_concat(o + b, c);
    lemma_lines_single(o);
    lemma_lines_single(b);
    lemma_lines_single(c);
    assert((o + b).last() == b.last());
    assert(seq![o] + seq![b] + seq![c] =~= seq![o, b, c]);
}

/// Law: installing the managed block into a file that already has it changes
/// nothing, so a repeated install leaves the file's bytes alone; and removing
/// the block from an installed file gives back the user's text (ending in a
/// line feed).
pub proof fn law_with_block_idempotent(text: Seq<char>, lua: bool)
    requires
        with_block_spec(text, lua) is Ok,
    ensures
        without_block_spec(with_block_spec(text, lua)->Ok_0) == Ok::<Seq<char>, ShortcutError>(
            line_terminated(without_block_spec(text)->Ok_0),
        ),
        with_block_spec(with_block_spec(text, lua)->Ok_0, lua) == with_block_spec(text, lua),
{
    let base = without_block_spec(text)->Ok_0;
    lemma_lines_shape(text);
    lemma_kept_is_plain(lines(text));
    lemma_terminated_plain(base);
    let b2 = line_terminated(base);
    let t = b2 + block_text(lua);
    lemma_lines_concat(b2, block_text(lua));
    lemma_block_lines(lua);
    lemma_scan_concat(Ok((false, Seq::empty())), lines(b2), lines(block_text(lua)));
    lemma_scan_plain(Seq::empty(), lines(b2));
    lemma_lines_shape(b2);
    assert(Seq::<char>::empty() + flatten(lines(b2)) =~= b2);
    lemma_marker_steps_open(lua);
    lemma_marker_steps_close(lua);
    lemma_binding_plain(lua);
    let bl = seq![block_open(lua), block_binding(lua), block_close(lua)];
    assert(bl.drop_last().drop_last().drop_last() =~= Seq::<Seq<char>>::empty());
    assert(bl.drop_last().drop_last().last() == block_open(lua));
    assert(bl.drop_last().last() == block_binding(lua));
    assert(bl.last() == block_close(lua));
    assert(START@ != END@) by {
        reveal_strlit(">>> ai-dikte >>>");
        reveal_strlit("<<< ai-dikte <<<");
        assert(START@[0] != END@[0]);
    }
    let st: Scan = Ok((false, b2));
    assert(scan_lines(st, bl.drop_last().drop_last().drop_last()) == st);
    assert(scan_lines(st, bl.drop_last().drop_last()) == Ok::<(bool, Seq<char>), ShortcutError>(
        (true, b2),
    ));
    assert(scan_lines(st, bl.drop_last()) == Ok::<(bool, Seq<char>), ShortcutError>((true, b2)));
    assert(scan_lines(st, bl) == Ok::<(bool, Seq<char>), ShortcutError>((false, b2)));
}

/// Law: a file without marker lines is kept byte for byte when the block is
/// removed.
pub proof fn law_unmarked_text_is_kept(text: Seq<char>)
    requires
        all_plain(lines(text)),
    ensures
        without_block_spec(text) == Ok::<Seq<char>, ShortcutError>(text),
{
    lemma_scan_plain(Seq::empty(), lines(text));
    lemma_lines_shape(text);
    assert(Seq::<char>::empty() + flatten(lines(text)) =~= text);
}

/// Law: removing the block is idempotent: what a removal leaves has no
/// marker line, so removing again gives it back unchanged.
pub proof fn law_removal_is_idempotent(text: Seq<char>)
    requires
        without_block_spec(text) is Ok,
    ensures
        without_block_spec(without_block_spec(text)->Ok_0) == without_block_spec(text),
{
    lemma_lines_shape(text);
    lemma_kept_is_plain(lines(text));
    law_unmarked_text_is_kept(without_block_spec(text)->Ok_0);
}

/// Whether a block is open after the lines `ls`, reading start markers as
/// opening one and end markers as closing it.
pub open spec fn inside_after(ls: Seq<Seq<char>>) -> bool
    decreases ls.len(),
{
    if ls.len() == 0 {
        false
    } else {
        let m = marker_text(ls.last());
        if m == START@ {
            true
        } else if m == END@ {
            false
        } else {
            inside_after(ls.drop_last())
        }
    }
}

/// Line `i` of `ls` is a start marker inside an open block, or an end
/// marker outside any block.
pub open spec fn unpaired_at(ls: Seq<Seq<char>>, i: int) -> bool {
    ||| marker_text(ls[i]) == START@ && inside_after(ls.take(i))
    ||| marker_text(ls[i]) == END@ && !inside_after(ls.take(i))
}

proof fn lemma_scan_flag(ls: Seq<Seq<char>>)
    ensures
        (scan_lines(Ok((false, Seq::empty())), ls) is Ok) == (forall|i: int|
            0 <= i < ls.len() ==> !#[trigger] unpaired_at(ls, i)),
        scan_lines(Ok((false, Seq::empty())), ls) matches Ok((inside, _)) ==> inside
            == inside_after(ls),
    decreases ls.len(),
{
    reveal_strlit(">>> ai-dikte >>>");
    reveal_strlit("<<< ai-dikte <<<");
    assert(START@ != END@) by {
        assert(START@[0] != END@[0]);
    }
    if ls.len() > 0 {
        let rest = ls.drop_last();
        let n = ls.len() - 1;
        lemma_scan_flag(rest);
        assert forall|i: int| 0 <= i < rest.len() implies unpaired_at(ls, i) == unpaired_at(
            rest,
            i,
        ) by {
            assert(ls.take(i) =~= rest.take(i));
            assert(ls[i] == rest[i]);
        }
        assert(ls.take(n) =~= rest);
        if !(scan_lines(Ok((false, Seq::empty())), rest) is Ok) {
            let i = choose|i: int| 0 <= i < rest.len() && unpaired_at(rest, i);
            assert(unpaired_at(ls, i));
        } else {
            if unpaired_at(ls, n) {
            } else {
                assert forall|i: int| 0 <= i < ls.len() implies !#[trigger] unpaired_at(ls, i) by {
                    if i < n {
                        assert(!unpaired_at(rest, i));
                    }
                }
            }
        }
    }
}

/// Law: removal is refused exactly when the markers do not pair up: a start
/// marker inside an open block, an end marker outside any block, or a
/// block still open at the end.
pub proof fn law_removal_refuses_exactly_unpaired_markers(text: Seq<char>)
    ensures
        without_block_spec(text) is Err <==> (exists|i: int|
            0 <= i < lines(text).len() && #[trigger] unpaired_at(lines(text), i)) || inside_after(
            lines(text),
        ),
{
    lemma_scan_flag(lines(text));
}

/// Law: installing refuses exactly what removing refuses, and otherwise
/// keeps the user's text (the block removed, ending in a line feed) and
/// appends the three lines that bind Super+Z to the toggle command.
pub proof fn law_install_appends_the_binding(text: Seq<char>, lua: bool)
    ensures
        (with_block_spec(text, lua) is Err) == (without_block_spec(text) is Err),
        without_block_spec(text) matches Ok(kept) ==> {
            let n = with_block_spec(text, lua)->Ok_0;
            &&& n.take(line_terminated(kept).len() as int) == line_terminated(kept)
            &&& (kept.len() == 0 || n[line_terminated(kept).len() - 1] == '\n')
            &&& !lua ==> n.skip(line_terminated(kept).len() as int)
                == "# >>> ai-dikte >>>\nbind = SUPER, Z, exec, ai-dikte-toggle\n# <<< ai-dikte <<<\n"@
            &&& lua ==> n.skip(line_terminated(kept).len() as int)
                == "-- >>> ai-dikte >>>\no.bind(\"SUPER + Z\", \"AI Dikte\", \"ai-dikte-toggle\")\n-- <<< ai-dikte <<<\n"@
        },
{
    match without_block_spec(text) {
        Ok(kept) => {
            let lt = line_terminated(kept);
            let n = lt + block_text(lua);
            assert(n.take(lt.len() as int) =~= lt);
            assert(n.skip(lt.len() as int) =~= block_text(lua));
            if kept.len() > 0 {
                assert(lt.last() == '\n');
                assert(n[lt.len() - 1] == lt[lt.len() - 1]);
            }
            if lua {
                assert(block_text(lua)
                    =~= "-- >>> ai-dikte >>>\no.bind(\"SUPER + Z\", \"AI Dikte\", \"ai-dikte-toggle\")\n-- <<< ai-dikte <<<\n"@)
                    by {
                    reveal_strlit("-- >>> ai-dikte >>>\n");
                    reveal_strlit("o.bind(\"SUPER + Z\", \"AI Dikte\", \"ai-dikte-toggle\")\n");
                    reveal_strlit("-- <<< ai-dikte <<<\n");
                    reveal_strlit(
                        "-- >>> ai-dikte >>>\no.bind(\"SUPER + Z\", \"AI Dikte\", \"ai-dikte-toggle\")\n-- <<< ai-dikte <<<\n",
                    );
                }
            } else {
                assert(block_text(lua)
                    =~= "# >>> ai-dikte >>>\nbind = SUPER, Z, exec, ai-dikte-toggle\n# <<< ai-dikte <<<\n"@)
                    by {
                    reveal_strlit("# >>> ai-dikte >>>\n");
                    reveal_strlit("bind = SUPER, Z, exec, ai-dikte-toggle\n");
                    reveal_strlit("# <<< ai-dikte <<<\n");
                    reveal_strlit(
                        "# >>> ai-dikte >>>\nbind = SUPER, Z, exec, ai-dikte-toggle\n# <<< ai-dikte <<<\n",
                    );
                }
            }
        },
        Err(_) => {},
    }
}

/// The config file that receives the managed block.
#[derive(Clone, Copy, Debug, PartialEq, Eq, Structural)]
pub enum Target {
    /// `bindings.lua` (Lua configuration).
    BindingsLua,
    /// `bindings.conf`.
    BindingsConf,
    /// `hyprland.conf`.
    HyprlandConf,
}

impl Target {
    /// The file name inside the Hyprland config directory.
    pub fn file_name(&self) -> (s: &'static str)
        ensures
            s@ == match self {
                Target::BindingsLua => "bindings.lua"@,
                Target::BindingsConf => "bindings.conf"@,
                Target::HyprlandConf => "hyprland.conf"@,
            },
    {
        match self {
            Target::BindingsLua => "bindings.lua",
            Target::BindingsConf => "bindings.conf",
            Target::HyprlandConf => "hyprland.conf",
        }
    }

    /// Whether the file is written in Lua.
    pub fn is_lua(&self) -> (b: bool)
        ensures
            b == (*self == Target::BindingsLua),
    {
        matches!(self, Target::BindingsLua)
    }
}

/// The file that receives the block, from which config files exist: Lua
/// configurations use `bindings.lua`; otherwise `bindings.conf` is preferred
/// to `hyprland.conf`.
pub fn select_target(
    hyprland_lua: bool,
    bindings_lua: bool,
    bindings_conf: bool,
    hyprland_conf: bool,
) -> (r: Result<Target, ShortcutError>)
    ensures
        r == if hyprland_lua || bindings_lua {
            Ok::<Target, ShortcutError>(Target::BindingsLua)
        } else if bindings_conf {
            Ok(Target::BindingsConf)
        } else if hyprland_conf {
            Ok(Target::HyprlandConf)
        } else {
            Err(ShortcutError::NoConfig)
        },
{
    if hyprland_lua || bindings_lua {
        Ok(Target::BindingsLua)
    } else if bindings_conf {
        Ok(Target::BindingsConf)
    } else if hyprland_conf {
        Ok(Target::HyprlandConf)
    } else {
        Err(ShortcutError::NoConfig)
    }
}

/// The new contents of one config file, or `None` when it stays as it is:
/// the block is removed, and added back at the end when `install_here`.
pub open spec fn planned_spec(old: Seq<char>, install_here: bool, lua: bool) -> Result<
    Option<Seq<char>>,
    ShortcutError,
> {
    let new = if install_here {
        with_block_spec(old, lua)
    } else {
        without_block_spec(old)
    };
    match new {
        Err(e) => Err(e),
        Ok(n) => if n == old {
            Ok(None)
        } else {
            Ok(Some(n))
        },
    }
}

/// The new contents of one config file (see `planned_spec`).
pub fn planned_text(old: &str, install_here: bool, lua: bool) -> (r: Result<Option<String>, ShortcutError>)
    ensures
        match planned_spec(old@, install_here, lua) {
            Ok(None) => r == Ok::<Option<String>, ShortcutError>(None),
            Ok(Some(n)) => r matches Ok(Some(s)) && s@ == n,
            Err(e) => r == Err::<Option<String>, ShortcutError>(e),
        },
{
    let new = if install_here {
        with_block(old, lua)?
    } else {
        without_block(old)?
    };
    if crate::text::str_equal(new.as_str(), old) {
        Ok(None)
    } else {
        Ok(Some(new))
    }
}

/// Whether candidate `i` is the file that receives the block.
pub open spec fn installs_at(at: Option<usize>, i: int) -> bool {
    at matches Some(k) && k == i
}

/// The plans of all candidate files, in order, before anything is written:
/// the first refusal, or every file's new text (`None` where it stays).
pub open spec fn plans_spec(olds: Seq<Seq<char>>, at: Option<usize>, lua: bool) -> Result<
    Seq<Option<Seq<char>>>,
    ShortcutError,
>
    decreases olds.len(),
{
    if olds.len() == 0 {
        Ok(Seq::empty())
    } else {
        match plans_spec(olds.drop_last(), at, lua) {
            Err(e) => Err(e),
            Ok(ps) => match planned_spec(olds.last(), installs_at(at, olds.len() - 1), lua) {
                Err(e) => Err(e),
                Ok(p) => Ok(ps.push(p)),
            },
        }
    }
}

/// A plan by its text.
pub open spec fn plan_view(o: Option<String>) -> Option<Seq<char>> {
    match o {
        Some(s) => Some(s@),
        None => None,
    }
}

proof fn lemma_plan_prefix(s: Seq<Seq<char>>, i: int, at: Option<usize>, lua: bool)
    requires
        0 <= i <= s.len(),
        plans_spec(s.take(i), at, lua) is Err,
    ensures
        plans_spec(s, at, lua) == plans_spec(s.take(i), at, lua),
    decreases s.len() - i,
{
    if i == s.len() {
        assert(s.take(i) =~= s);
    } else {
        assert(s.take(i + 1).drop_last() =~= s.take(i));
        lemma_plan_prefix(s, i + 1, at, lua);
    }
}

/// The new texts of all candidate files, planned before anything is
/// written (see `plans_spec`); `at` is the file that receives the block.
pub fn plan_edits(olds: &Vec<String>, at: Option<usize>, lua: bool) -> (r: Result<
    Vec<Option<String>>,
    ShortcutError,
>)
    ensures
        match plans_spec(olds.deep_view(), at, lua) {
            Err(e) => r == Err::<Vec<Option<String>>, ShortcutError>(e),
            Ok(ps) => r matches Ok(v) && v@.map_values(|o: Option<String>| plan_view(o)) == ps,
        },
{
    let ghost d = olds.deep_view();
    let mut plans: Vec<Option<String>> = Vec::new();
    let mut i: usize = 0;
    assert(d.take(0) =~= Seq::<Seq<char>>::empty());
    assert(plans@.map_values(|o: Option<String>| plan_view(o)) =~= Seq::<Option<Seq<char>>>::empty());
    while i < olds.len()
        invariant
            i <= olds.len(),
            d == olds.deep_view(),
            d.len() == olds.len(),
            plans_spec(d.take(i as int), at, lua) matches Ok(ps) && plans@.map_values(
                |o: Option<String>| plan_view(o),
            ) == ps,
        decreases olds.len() - i,
    {
        let here = match at {
            Some(k) => k == i,
            None => false,
        };
        assert(d[i as int] == olds[i as int]@);
        assert(d.take(i + 1).drop_last() =~= d.take(i as int));
        assert(d.take(i + 1).last() == d[i as int]);
        match planned_text(olds[i].as_str(), here, lua) {
            Err(e) => {
                proof {
                    lemma_plan_prefix(d, i + 1, at, lua);
                }
                return Err(e);
            },
            Ok(p) => {
                let ghost before = plans@;
                plans.push(p);
                proof {
                    assert(plans@ == before.push(plans@[before.len() as int]));
                    assert(plans@.map_values(|o: Option<String>| plan_view(o)) =~= before.map_values(
                        |o: Option<String>| plan_view(o),
                    ).push(plan_view(plans@[before.len() as int])));
                }
            },
        }
        i = i + 1;
    }
    assert(d.take(olds.len() as int) =~= d);
    Ok(plans)
}

/// Law: the update is refused before anything is written exactly when one
/// candidate file's plan is refused, with the first such refusal; otherwise
/// every candidate's new text is the one planned for it alone.
pub proof fn law_plan_fails_exactly_when_a_file_fails(
    olds: Seq<Seq<char>>,
    at: Option<usize>,
    lua: bool,
)
    ensures
        plans_spec(olds, at, lua) is Err <==> exists|i: int|
            0 <= i < olds.len() && #[trigger] planned_spec(olds[i], installs_at(at, i), lua) is Err,
        plans_spec(olds, at, lua) matches Err(e) ==> exists|i: int|
            0 <= i < olds.len() && #[trigger] planned_spec(olds[i], installs_at(at, i), lua) == Err::<
                Option<Seq<char>>,
                ShortcutError,
            >(e) && forall|j: int|
                0 <= j < i ==> planned_spec(olds[j], installs_at(at, j), lua) is Ok,
        plans_spec(olds, at, lua) matches Ok(ps) ==> ps.len() == olds.len() && forall|i: int|
            0 <= i < olds.len() ==> planned_spec(olds[i], installs_at(at, i), lua) == Ok::<
                Option<Seq<char>>,
                ShortcutError,
            >(#[trigger] ps[i]),
    decreases olds.len(),
{
    if olds.len() > 0 {
        let rest = olds.drop_last();
        let n = olds.len() - 1;
        law_plan_fails_exactly_when_a_file_fails(rest, at, lua);
        assert forall|i: int| 0 <= i < rest.len() implies rest[i] == olds[i] by {}
        match plans_spec(rest, at, lua) {
            Err(e) => {
                let i = choose|i: int|
                    0 <= i < rest.len() && #[trigger] planned_spec(rest[i], installs_at(at, i), lua)
                        == Err::<Option<Seq<char>>, ShortcutError>(e) && forall|j: int|
                        0 <= j < i ==> planned_spec(rest[j], installs_at(at, j), lua) is Ok;
                assert(planned_spec(olds[i], installs_at(at, i), lua) is Err);
                assert forall|j: int| 0 <= j < i implies planned_spec(
                    olds[j],
                    installs_at(at, j),
                    lua,
                ) is Ok by {
                    assert(rest[j] == olds[j]);
                }
            },
            Ok(ps) => {
                assert(olds.last() == olds[n]);
                match planned_spec(olds[n], installs_at(at, n), lua) {
                    Err(e) => {
                        assert forall|j: int| 0 <= j < n implies planned_spec(
                            olds[j],
                            installs_at(at, j),
                            lua,
                        ) is Ok by {
                            assert(rest[j] == olds[j]);
                            assert(planned_spec(rest[j], installs_at(at, j), lua) == Ok::<
                                Option<Seq<char>>,
                                ShortcutError,
                            >(ps[j]));
                        }
                    },
                    Ok(p) => {
                        let qs = ps.push(p);
                        assert forall|i: int| 0 <= i < olds.len() implies planned_spec(
                            olds[i],
                            installs_at(at, i),
                            lua,
                        ) == Ok::<Option<Seq<char>>, ShortcutError>(#[trigger] qs[i]) by {
                            if i < n {
                                assert(rest[i] == olds[i]);
                                assert(planned_spec(rest[i], installs_at(at, i), lua) == Ok::<
                                    Option<Seq<char>>,
                                    ShortcutError,
                                >(ps[i]));
                            }
                        }
                        assert forall|i: int| 0 <= i < olds.len() implies !(#[trigger] planned_spec(
                            olds[i],
                            installs_at(at, i),
                            lua,
                        ) is Err) by {
                            assert(planned_spec(olds[i], installs_at(at, i), lua) == Ok::<
                                Option<Seq<char>>,
                                ShortcutError,
                            >(qs[i]));
                        }
                    },
                }
            },
        }
    }
}

/// Law: after an install, installing again plans no change, so nothing is
/// written and the compositor is not reloaded.
pub proof fn law_reinstall_is_no_op(text: Seq<char>, lua: bool)
    requires
        with_block_spec(text, lua) is Ok,
    ensures
        planned_spec(with_block_spec(text, lua)->Ok_0, true, lua) == Ok::<
            Option<Seq<char>>,
            ShortcutError,
        >(None),
{
    law_with_block_idempotent(text, lua);
}

/// Whether the output of `hyprctl configerrors` reports errors: it holds more
/// than white space and does not say `no errors` in any ASCII case.
pub fn reports_config_errors(output: &str) -> (b: bool)
    ensures
        b == (trim(output@).len() > 0 && !contains(ascii_lower(output@), "no errors"@)),
{
    let v = chars_of(output);
    let (i, j) = trim_bounds(&v);
    if i == j {
        return false;
    }
    let lower = lower_chars(&v);
    let pattern = chars_of("no errors");
    !contains_chars(&lower, &pattern)
}

// ---------------------------------------------------------------------------
// Writing the planned texts: all or nothing

/// Where an update of the config files stands.
#[derive(Clone, Copy, Debug, PartialEq, Eq, Structural)]
pub enum UpdatePhase {
    /// Nothing started yet.
    Ready,
    /// Writing the new texts, in order.
    Writing,
    /// Every new text is written; the compositor reloads them.
    Reloading,
    /// Something failed; the old texts of the files already written are
    /// being written back, in order.
    Restoring,
    /// The old texts are back; the compositor reloads them.
    Rereloading,
    /// The update is over.
    Over,
}

/// The state of an update: how many files have new texts (`edits`), how
/// many of them are written, how many old texts are written back, and the
/// first failure.
pub struct UpdateState {
    pub phase: UpdatePhase,
    pub edits: usize,
    pub written: usize,
    pub restored: usize,
    pub error: Option<String>,
}

/// What happened since the last action.
pub enum UpdateEvent {
    /// The update begins, with this many files to change.
    Start(usize),
    /// The requested write succeeded.
    Wrote,
    /// The requested write failed; the message says why.
    WriteFailed(String),
    /// The compositor reloaded its configuration without errors.
    Reloaded,
    /// The reload failed or reported configuration errors.
    ReloadFailed(String),
}

/// How an update that did not succeed ends.
pub enum UpdateFailure {
    /// The first failure; every file written is back to its old text and
    /// the compositor has reloaded it.
    Failed(String),
    /// Writing an old text back failed, after the first failure.
    RestoreFailed(String),
    /// The old texts are back, but the compositor could not reload them.
    RestoredReloadFailed(String),
}

/// The message of an update failure.
pub open spec fn failure_message(f: UpdateFailure) -> Seq<char> {
    match f {
        UpdateFailure::Failed(m) => m@,
        UpdateFailure::RestoreFailed(m) => "Could not restore Hyprland configuration: "@ + m@,
        UpdateFailure::RestoredReloadFailed(m) => "Original Hyprland config restored, but reload failed: "@
            + m@,
    }
}

impl UpdateFailure {
    /// The message shown to the user (see `failure_message`).
    pub fn message(&self) -> (s: String)
        ensures
            s@ == failure_message(*self),
    {
        match self {
            UpdateFailure::Failed(m) => {
                let mut s = String::new();
                push_str(&mut s, m.as_str());
                s
            },
            UpdateFailure::RestoreFailed(m) => {
                let mut s = String::from_str("Could not restore Hyprland configuration: ");
                push_str(&mut s, m.as_str());
                s
            },
            UpdateFailure::RestoredReloadFailed(m) => {
                let mut s = String::from_str(
                    "Original Hyprland config restored, but reload failed: ",
                );
                push_str(&mut s, m.as_str());
                s
            },
        }
    }
}

/// What to do next.
pub enum UpdateAction {
    /// Write the new text of file `i`.
    WriteNew(usize),
    /// Write the old text of file `i` back.
    WriteOld(usize),
    /// Ask the compositor to reload its configuration.
    Reload,
    /// The update succeeded (or there was nothing to do).
    Done,
    /// The update failed.
    Fail(UpdateFailure),
    /// The event does not answer the last action; nothing changes.
    Ignore,
}

/// The state before an update starts.
pub open spec fn fresh_update() -> UpdateState {
    UpdateState { phase: UpdatePhase::Ready, edits: 0, written: 0, restored: 0, error: None }
}

/// `s` in phase `p`, with the given counts and error.
pub open spec fn update_state(
    p: UpdatePhase,
    edits: usize,
    written: usize,
    restored: usize,
    error: Option<String>,
) -> UpdateState {
    UpdateState { phase: p, edits, written, restored, error }
}

/// After the first failure `m`: write back the old texts of the files
/// already written, or reload at once when none was written.
pub open spec fn begin_restore(s: UpdateState, m: String) -> (UpdateState, UpdateAction) {
    if s.written > 0 {
        (
            update_state(UpdatePhase::Restoring, s.edits, s.written, 0, Some(m)),
            UpdateAction::WriteOld(0),
        )
    } else {
        (
            update_state(UpdatePhase::Rereloading, s.edits, s.written, 0, Some(m)),
            UpdateAction::Reload,
        )
    }
}

/// The update once over.
pub open spec fn ended(s: UpdateState) -> UpdateState {
    update_state(UpdatePhase::Over, s.edits, s.written, s.restored, None)
}

/// One step of an update. New texts are written in order and then
/// reloaded; a failed write or reload writes the old texts of exactly the
/// files already written back, in order, reloads once more, and ends with
/// the first failure. With no file to change, nothing is written or
/// reloaded.
pub open spec fn update_spec(s: UpdateState, e: UpdateEvent) -> (UpdateState, UpdateAction) {
    match s.phase {
        UpdatePhase::Ready => match e {
            UpdateEvent::Start(n) => if n == 0 {
                (update_state(UpdatePhase::Over, 0, 0, 0, None), UpdateAction::Done)
            } else {
                (update_state(UpdatePhase::Writing, n, 0, 0, None), UpdateAction::WriteNew(0))
            },
            _ => (s, UpdateAction::Ignore),
        },
        UpdatePhase::Writing => match e {
            UpdateEvent::Wrote => if s.written < s.edits {
                if s.written + 1 < s.edits {
                    (
                        update_state(
                            UpdatePhase::Writing,
                            s.edits,
                            (s.written + 1) as usize,
                            s.restored,
                            s.error,
                        ),
                        UpdateAction::WriteNew((s.written + 1) as usize),
                    )
                } else {
                    (
                        update_state(
                            UpdatePhase::Reloading,
                            s.edits,
                            (s.written + 1) as usize,
                            s.restored,
                            s.error,
                        ),
                        UpdateAction::Reload,
                    )
                }
            } else {
                (s, UpdateAction::Ignore)
            },
            UpdateEvent::WriteFailed(m) => begin_restore(s, m),
            _ => (s, UpdateAction::Ignore),
        },
        UpdatePhase::Reloading => match e {
            UpdateEvent::Reloaded => (ended(s), UpdateAction::Done),
            UpdateEvent::ReloadFailed(m) => begin_restore(s, m),
            _ => (s, UpdateAction::Ignore),
        },
        UpdatePhase::Restoring => match e {
            UpdateEvent::Wrote => if s.restored < s.written {
                if s.restored + 1 < s.written {
                    (
                        update_state(
                            UpdatePhase::Restoring,
                            s.edits,
                            s.written,
                            (s.restored + 1) as usize,
                            s.error,
                        ),
                        UpdateAction::WriteOld((s.restored + 1) as usize),
                    )
                } else {
                    (
                        update_state(
                            UpdatePhase::Rereloading,
                            s.edits,
                            s.written,
                            (s.restored + 1) as usize,
                            s.error,
                        ),
                        UpdateAction::Reload,
                    )
                }
            } else {
                (s, UpdateAction::Ignore)
            },
            UpdateEvent::WriteFailed(m) => (
                ended(s),
                UpdateAction::Fail(UpdateFailure::RestoreFailed(m)),
            ),
            _ => (s, UpdateAction::Ignore),
        },
        UpdatePhase::Rereloading => match e {
            UpdateEvent::Reloaded => match s.error {
                Some(m) => (ended(s), UpdateAction::Fail(UpdateFailure::Failed(m))),
                None => (ended(s), UpdateAction::Done),
            },
            UpdateEvent::ReloadFailed(m) => (
                ended(s),
                UpdateAction::Fail(UpdateFailure::RestoredReloadFailed(m)),
            ),
            _ => (s, UpdateAction::Ignore),
        },
        UpdatePhase::Over => (s, UpdateAction::Ignore),
    }
}

impl UpdateState {
    /// The state before an update starts.
    pub fn new() -> (s: UpdateState)
        ensures
            s == fresh_update(),
    {
        UpdateState { phase: UpdatePhase::Ready, edits: 0, written: 0, restored: 0, error: None }
    }
}

fn restore_step(s: UpdateState, m: String) -> (r: (UpdateState, UpdateAction))
    ensures
        r == begin_restore(s, m),
{
    if s.written > 0 {
        (
            UpdateState {
                phase: UpdatePhase::Restoring,
                edits: s.edits,
                written: s.written,
                restored: 0,
                error: Some(m),
            },
            UpdateAction::WriteOld(0),
        )
    } else {
        (
            UpdateState {
                phase: UpdatePhase::Rereloading,
                edits: s.edits,
                written: s.written,
                restored: 0,
                error: Some(m),
            },
            UpdateAction::Reload,
        )
    }
}

/// One step of an update (see `update_spec`).
pub fn update_step(s: UpdateState, e: UpdateEvent) -> (r: (UpdateState, UpdateAction))
    ensures
        r == update_spec(s, e),
{
    let over = |s: &UpdateState| -> (o: UpdateState)
        ensures
            o == ended(*s),
        {
            UpdateState {
                phase: UpdatePhase::Over,
                edits: s.edits,
                written: s.written,
                restored: s.restored,
                error: None,
            }
        };
    match s.phase {
        UpdatePhase::Ready => match e {
            UpdateEvent::Start(n) => if n == 0 {
                (
                    UpdateState {
                        phase: UpdatePhase::Over,
                        edits: 0,
                        written: 0,
                        restored: 0,
                        error: None,
                    },
                    UpdateAction::Done,
                )
            } else {
                (
                    UpdateState {
                        phase: UpdatePhase::Writing,
                        edits: n,
                        written: 0,
                        restored: 0,
                        error: None,
                    },
                    UpdateAction::WriteNew(0),
                )
            },
            _ => (s, UpdateAction::Ignore),
        },
        UpdatePhase::Writing => match e {
            UpdateEvent::Wrote => if s.written < s.edits {
                let w = s.written + 1;
                let phase = if w < s.edits {
                    UpdatePhase::Writing
                } else {
                    UpdatePhase::Reloading
                };
                let action = if w < s.edits {
                    UpdateAction::WriteNew(w)
                } else {
                    UpdateAction::Reload
                };
                (
                    UpdateState {
                        phase,
                        edits: s.edits,
                        written: w,
                        restored: s.restored,
                        error: s.error,
                    },
                    action,
                )
            } else {
                (s, UpdateAction::Ignore)
            },
            UpdateEvent::WriteFailed(m) => restore_step(s, m),
            _ => (s, UpdateAction::Ignore),
        },
        UpdatePhase::Reloading => match e {
            UpdateEvent::Reloaded => (over(&s), UpdateAction::Done),
            UpdateEvent::ReloadFailed(m) => restore_step(s, m),
            _ => (s, UpdateAction::Ignore),
        },
        UpdatePhase::Restoring => match e {
            UpdateEvent::Wrote => if s.restored < s.written {
                let r = s.restored + 1;
                let phase = if r < s.written {
                    UpdatePhase::Restoring
                } else {
                    UpdatePhase::Rereloading
                };
                let action = if r < s.written {
                    UpdateAction::WriteOld(r)
                } else {
                    UpdateAction::Reload
                };
                (
                    UpdateState {
                        phase,
                        edits: s.edits,
                        written: s.written,
                        restored: r,
                        error: s.error,
                    },
                    action,
                )
            } else {
                (s, UpdateAction::Ignore)
            },
            UpdateEvent::WriteFailed(m) => (
                over(&s),
                UpdateAction::Fail(UpdateFailure::RestoreFailed(m)),
            ),
            _ => (s, UpdateAction::Ignore),
        },
        UpdatePhase::Rereloading => match e {
            UpdateEvent::Reloaded => {
                let o = over(&s);
                match s.error {
                    Some(m) => (o, UpdateAction::Fail(UpdateFailure::Failed(m))),
                    None => (o, UpdateAction::Done),
                }
            },
            UpdateEvent::ReloadFailed(m) => (
                over(&s),
                UpdateAction::Fail(UpdateFailure::RestoredReloadFailed(m)),
            ),
            _ => (s, UpdateAction::Ignore),
        },
        UpdatePhase::Over => (s, UpdateAction::Ignore),
    }
}

/// The state and the actions after answering from `s` with `events`, one
/// step each.
pub open spec fn drive(s: UpdateState, events: Seq<UpdateEvent>) -> (UpdateState, Seq<UpdateAction>)
    decreases events.len(),
{
    if events.len() == 0 {
        (s, Seq::empty())
    } else {
        let before = drive(s, events.drop_last());
        let next = update_spec(before.0, events.last());
        (next.0, before.1.push(next.1))
    }
}

/// `k` successful writes in a row.
pub open spec fn wrotes(k: nat) -> Seq<UpdateEvent> {
    Seq::new(k, |i: int| UpdateEvent::Wrote)
}

proof fn lemma_drive_concat(s: UpdateState, a: Seq<UpdateEvent>, b: Seq<UpdateEvent>)
    ensures
        drive(s, a + b) == (drive(drive(s, a).0, b).0, drive(s, a).1 + drive(drive(s, a).0, b).1),
    decreases b.len(),
{
    if b.len() == 0 {
        assert(a + b =~= a);
        assert(drive(s, a).1 + Seq::<UpdateAction>::empty() =~= drive(s, a).1);
    } else {
        assert((a + b).drop_last() =~= a + b.drop_last());
        assert((a + b).last() == b.last());
        lemma_drive_concat(s, a, b.drop_last());
        let m = drive(s, a);
        let x = drive(m.0, b.drop_last());
        let y = update_spec(x.0, b.last());
        assert((m.1 + x.1).push(y.1) =~= m.1 + x.1.push(y.1));
    }
}

proof fn lemma_drive_one(s: UpdateState, e: UpdateEvent)
    ensures
        drive(s, seq![e]) == (update_spec(s, e).0, seq![update_spec(s, e).1]),
{
    reveal_with_fuel(drive, 2);
    assert(seq![e].drop_last() =~= Seq::<UpdateEvent>::empty());
    assert(Seq::<UpdateAction>::empty().push(update_spec(s, e).1) =~= seq![update_spec(s, e).1]);
}

proof fn lemma_writing_run(n: usize, i: usize, j: nat)
    requires
        i + j < n,
    ensures
        drive(update_state(UpdatePhase::Writing, n, i, 0, None), wrotes(j)) == (
            update_state(UpdatePhase::Writing, n, (i + j) as usize, 0, None),
            Seq::new(j, |t: int| UpdateAction::WriteNew((i + t + 1) as usize)),
        ),
    decreases j,
{
    let s = update_state(UpdatePhase::Writing, n, i, 0, None);
    if j == 0 {
        assert(Seq::new(0, |t: int| UpdateAction::WriteNew((i + t + 1) as usize)) =~= Seq::empty());
    } else {
        lemma_writing_run(n, i, (j - 1) as nat);
        assert(wrotes(j).drop_last() =~= wrotes((j - 1) as nat));
        assert(Seq::new((j - 1) as nat, |t: int| UpdateAction::WriteNew((i + t + 1) as usize)).push(
            UpdateAction::WriteNew((i + j) as usize),
        ) =~= Seq::new(j, |t: int| UpdateAction::WriteNew((i + t + 1) as usize)));
    }
}

proof fn lemma_restoring_run(n: usize, w: usize, r: usize, m: String, j: nat)
    requires
        r + j < w,
    ensures
        drive(update_state(UpdatePhase::Restoring, n, w, r, Some(m)), wrotes(j)) == (
            update_state(UpdatePhase::Restoring, n, w, (r + j) as usize, Some(m)),
            Seq::new(j, |t: int| UpdateAction::WriteOld((r + t + 1) as usize)),
        ),
    decreases j,
{
    if j == 0 {
        assert(Seq::new(0, |t: int| UpdateAction::WriteOld((r + t + 1) as usize)) =~= Seq::empty());
    } else {
        lemma_restoring_run(n, w, r, m, (j - 1) as nat);
        assert(wrotes(j).drop_last() =~= wrotes((j - 1) as nat));
        assert(Seq::new((j - 1) as nat, |t: int| UpdateAction::WriteOld((r + t + 1) as usize)).push(
            UpdateAction::WriteOld((r + j) as usize),
        ) =~= Seq::new(j, |t: int| UpdateAction::WriteOld((r + t + 1) as usize)));
    }
}

/// Writing `n > 0` new texts from the start: `WriteNew(0)` to
/// `WriteNew(n - 1)`, then the state that reloads.
proof fn lemma_write_all(n: usize)
    requires
        n > 0,
    ensures
        drive(fresh_update(), seq![UpdateEvent::Start(n)] + wrotes(n as nat)) == (
            update_state(UpdatePhase::Reloading, n, n, 0, None),
            Seq::new(n as nat, |t: int| UpdateAction::WriteNew(t as usize)).push(
                UpdateAction::Reload,
            ),
        ),
{
    let start = seq![UpdateEvent::Start(n)];
    lemma_drive_one(fresh_update(), UpdateEvent::Start(n));
    let s0 = drive(fresh_update(), start);
    assert(s0.0 == update_state(UpdatePhase::Writing, n, 0, 0, None));
    assert(s0.1 =~= seq![UpdateAction::WriteNew(0)]);
    lemma_drive_concat(fresh_update(), start, wrotes(n as nat));
    lemma_writing_run(n, 0, (n - 1) as nat);
    assert(wrotes(n as nat).drop_last() =~= wrotes((n - 1) as nat));
    let run = Seq::new((n - 1) as nat, |t: int| UpdateAction::WriteNew((0 + t + 1) as usize));
    assert(seq![UpdateAction::WriteNew(0)] + run.push(UpdateAction::Reload) =~= Seq::new(
        n as nat,
        |t: int| UpdateAction::WriteNew(t as usize),
    ).push(UpdateAction::Reload));
}

/// Writing back `k > 0` old texts from a failure: `WriteOld(0)` has been
/// asked; the `k` writes that answer lead to `WriteOld(1)` to
/// `WriteOld(k - 1)` and then the reload.
proof fn lemma_restore_all(n: usize, k: usize, m: String)
    requires
        k > 0,
    ensures
        drive(update_state(UpdatePhase::Restoring, n, k, 0, Some(m)), wrotes(k as nat)) == (
            update_state(UpdatePhase::Rereloading, n, k, k, Some(m)),
            Seq::new((k - 1) as nat, |t: int| UpdateAction::WriteOld((t + 1) as usize)).push(
                UpdateAction::Reload,
            ),
        ),
{
    lemma_restoring_run(n, k, 0, m, (k - 1) as nat);
    assert(wrotes(k as nat).drop_last() =~= wrotes((k - 1) as nat));
    assert(Seq::new((k - 1) as nat, |t: int| UpdateAction::WriteOld((0 + t + 1) as usize))
        =~= Seq::new((k - 1) as nat, |t: int| UpdateAction::WriteOld((t + 1) as usize)));
}

/// Law: with no file to change, the update is done at once and nothing is
/// ever written or reloaded, whatever events follow.
pub proof fn law_no_edits_no_reload(rest: Seq<UpdateEvent>)
    ensures
        drive(fresh_update(), seq![UpdateEvent::Start(0)] + rest).1 == seq![UpdateAction::Done]
            + Seq::new(rest.len(), |i: int| UpdateAction::Ignore),
    decreases rest.len(),
{
    let start = seq![UpdateEvent::Start(0usize)];
    lemma_drive_one(fresh_update(), UpdateEvent::Start(0usize));
    if rest.len() == 0 {
        assert(start + rest =~= start);
        assert(seq![UpdateAction::Done] + Seq::new(0, |i: int| UpdateAction::Ignore) =~= seq![
            UpdateAction::Done,
        ]);
    } else {
        law_no_edits_no_reload(rest.drop_last());
        assert((start + rest).drop_last() =~= start + rest.drop_last());
        lemma_over_stays(rest.drop_last());
        assert((seq![UpdateAction::Done] + Seq::new(
            (rest.len() - 1) as nat,
            |i: int| UpdateAction::Ignore,
        )).push(UpdateAction::Ignore) =~= seq![UpdateAction::Done] + Seq::new(
            rest.len(),
            |i: int| UpdateAction::Ignore,
        ));
    }
}

proof fn lemma_over_stays(rest: Seq<UpdateEvent>)
    ensures
        drive(fresh_update(), seq![UpdateEvent::Start(0)] + rest).0.phase == UpdatePhase::Over,
    decreases rest.len(),
{
    let start = seq![UpdateEvent::Start(0usize)];
    lemma_drive_one(fresh_update(), UpdateEvent::Start(0usize));
    if rest.len() == 0 {
        assert(start + rest =~= start);
    } else {
        lemma_over_stays(rest.drop_last());
        assert((start + rest).drop_last() =~= start + rest.drop_last());
    }
}

/// Law: a successful update writes the `n` new texts in order, then
/// reloads once, and is done.
pub proof fn law_success_writes_then_reloads(n: usize)
    requires
        n > 0,
    ensures
        drive(fresh_update(), seq![UpdateEvent::Start(n)] + wrotes(n as nat) + seq![
            UpdateEvent::Reloaded,
        ]).1 == Seq::new(n as nat, |t: int| UpdateAction::WriteNew(t as usize)) + seq![
            UpdateAction::Reload,
            UpdateAction::Done,
        ],
{
    let a = seq![UpdateEvent::Start(n)] + wrotes(n as nat);
    lemma_write_all(n);
    assert((a + seq![UpdateEvent::Reloaded]).drop_last() =~= a);
    assert(Seq::new(n as nat, |t: int| UpdateAction::WriteNew(t as usize)).push(
        UpdateAction::Reload,
    ).push(UpdateAction::Done) =~= Seq::new(n as nat, |t: int| UpdateAction::WriteNew(t as usize))
        + seq![UpdateAction::Reload, UpdateAction::Done]);
}

/// Law: when the write of file `k` fails after `k` files were written, the
/// old texts of exactly those `k` files are written back, in order, the
/// compositor reloads once, and the update fails with the first error.
pub proof fn law_failure_restores_written(n: usize, k: usize, m: String)
    requires
        k < n,
    ensures
        drive(
            fresh_update(),
            seq![UpdateEvent::Start(n)] + wrotes(k as nat) + seq![UpdateEvent::WriteFailed(m)]
                + wrotes(k as nat) + seq![UpdateEvent::Reloaded],
        ).1 == Seq::new((k + 1) as nat, |t: int| UpdateAction::WriteNew(t as usize)) + Seq::new(
            k as nat,
            |t: int| UpdateAction::WriteOld(t as usize),
        ) + seq![UpdateAction::Reload, UpdateAction::Fail(UpdateFailure::Failed(m))],
{
    let s0 = fresh_update();
    let e1 = seq![UpdateEvent::Start(n)];
    let e2 = wrotes(k as nat);
    let e3 = seq![UpdateEvent::WriteFailed(m)];
    let e4 = wrotes(k as nat);
    let e5 = seq![UpdateEvent::Reloaded];
    lemma_drive_one(s0, UpdateEvent::Start(n));
    lemma_drive_concat(s0, e1, e2);
    lemma_writing_run(n, 0, k as nat);
    let d12 = drive(s0, e1 + e2);
    assert(d12.0 == update_state(UpdatePhase::Writing, n, k, 0, None));
    let news = Seq::new((k + 1) as nat, |t: int| UpdateAction::WriteNew(t as usize));
    assert(d12.1 =~= news);
    assert((e1 + e2 + e3).drop_last() =~= e1 + e2);
    let d123 = drive(s0, e1 + e2 + e3);
    let olds = Seq::new(k as nat, |t: int| UpdateAction::WriteOld(t as usize));
    let tail = seq![UpdateAction::Reload, UpdateAction::Fail(UpdateFailure::Failed(m))];
    lemma_drive_concat(s0, e1 + e2 + e3, e4);
    let d1234 = drive(s0, e1 + e2 + e3 + e4);
    if k == 0 {
        assert(d123.0 == update_state(UpdatePhase::Rereloading, n, 0, 0, Some(m)));
        assert(d123.1 =~= news.push(UpdateAction::Reload));
        assert(e4 =~= Seq::<UpdateEvent>::empty());
        assert(d1234.0 == d123.0);
        assert(d1234.1 =~= d123.1);
    } else {
        assert(d123.0 == update_state(UpdatePhase::Restoring, n, k, 0, Some(m)));
        assert(d123.1 =~= news.push(UpdateAction::WriteOld(0)));
        lemma_restore_all(n, k, m);
        assert(d1234.0 == update_state(UpdatePhase::Rereloading, n, k, k, Some(m)));
        assert(news.push(UpdateAction::WriteOld(0)) + Seq::new(
            (k - 1) as nat,
            |t: int| UpdateAction::WriteOld((t + 1) as usize),
        ).push(UpdateAction::Reload) =~= news + olds.push(UpdateAction::Reload));
    }
    assert((e1 + e2 + e3 + e4 + e5).drop_last() =~= e1 + e2 + e3 + e4);
    assert(news + olds + tail =~= (news + olds).push(UpdateAction::Reload).push(
        UpdateAction::Fail(UpdateFailure::Failed(m)),
    ));
}

/// Law: when the reload after all `n` writes fails, the old texts of all
/// `n` files are written back, in order, the compositor reloads once more,
/// and the update fails with the reload's error.
pub proof fn law_failed_reload_restores_all(n: usize, m: String)
    requires
        n > 0,
    ensures
        drive(
            fresh_update(),
            seq![UpdateEvent::Start(n)] + wrotes(n as nat) + seq![UpdateEvent::ReloadFailed(m)]
                + wrotes(n as nat) + seq![UpdateEvent::Reloaded],
        ).1 == Seq::new(n as nat, |t: int| UpdateAction::WriteNew(t as usize)) + seq![
            UpdateAction::Reload,
        ] + Seq::new(n as nat, |t: int| UpdateAction::WriteOld(t as usize)) + seq![
            UpdateAction::Reload,
            UpdateAction::Fail(UpdateFailure::Failed(m)),
        ],
{
    let s0 = fresh_update();
    let a = seq![UpdateEvent::Start(n)] + wrotes(n as nat);
    let e3 = seq![UpdateEvent::ReloadFailed(m)];
    let e4 = wrotes(n as nat);
    let e5 = seq![UpdateEvent::Reloaded];
    lemma_write_all(n);
    let news = Seq::new(n as nat, |t: int| UpdateAction::WriteNew(t as usize));
    assert((a + e3).drop_last() =~= a);
    let d3 = drive(s0, a + e3);
    assert(d3.0 == update_state(UpdatePhase::Restoring, n, n, 0, Some(m)));
    assert(d3.1 =~= news.push(UpdateAction::Reload).push(UpdateAction::WriteOld(0)));
    lemma_drive_concat(s0, a + e3, e4);
    lemma_restore_all(n, n, m);
    let d4 = drive(s0, a + e3 + e4);
    assert(d4.0 == update_state(UpdatePhase::Rereloading, n, n, n, Some(m)));
    let olds = Seq::new(n as nat, |t: int| UpdateAction::WriteOld(t as usize));
    assert(news.push(UpdateAction::Reload).push(UpdateAction::WriteOld(0)) + Seq::new(
        (n - 1) as nat,
        |t: int| UpdateAction::WriteOld((t + 1) as usize),
    ).push(UpdateAction::Reload) =~= (news + seq![UpdateAction::Reload] + olds).push(
        UpdateAction::Reload,
    ));
    assert((a + e3 + e4 + e5).drop_last() =~= a + e3 + e4);
    assert((news + seq![UpdateAction::Reload] + olds).push(UpdateAction::Reload).push(
        UpdateAction::Fail(UpdateFailure::Failed(m)),
    ) =~= news + seq![UpdateAction::Reload] + olds + seq![
        UpdateAction::Reload,
        UpdateAction::Fail(UpdateFailure::Failed(m)),
    ]);
}

/// Law: every action follows the update's progress. A new text is asked
/// for only for the next file still to write; an old text only for a file
/// already written; and a reload only once every new text is written, or
/// once every file written is back to its old text.
pub proof fn law_reload_only_after_all_writes(s: UpdateState, e: UpdateEvent)
    ensures
        ({
            let (t, a) = update_spec(s, e);
            &&& a matches UpdateAction::WriteNew(i) ==> i == t.written && t.written < t.edits
            &&& a matches UpdateAction::WriteOld(i) ==> i == t.restored && t.restored < t.written
            &&& a matches UpdateAction::Reload ==> (t.phase == UpdatePhase::Reloading && t.written
                == t.edits) || (t.phase == UpdatePhase::Rereloading && t.restored == t.written)
        }),
{
}

} // verus!
