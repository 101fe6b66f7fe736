//! A transcoder from permissive Markdown to the strict wire dialect.
//!
//! Every parser works on a sequence of characters and a position in it, and
//! answers with the position after what it consumed and the text it emits.
//! Each one has a spec function of the same shape that states the grammar.

use vstd::prelude::*;
use vstd::string::*;

verus! {

/// The characters that must be preceded by a backslash when they are meant
/// literally.
pub open spec fn is_reserved(c: char) -> bool {
    c == '_' || c == '*' || c == '[' || c == ']' || c == '(' || c == ')' || c == '~' || c == '`'
        || c == '>' || c == '#' || c == '+' || c == '-' || c == '=' || c == '|' || c == '{'
        || c == '}' || c == '.' || c == '!' || c == '\\'
}

/// The wire form of one character.
pub open spec fn escape_char(c: char) -> Seq<char> {
    if is_reserved(c) {
        seq!['\\', c]
    } else {
        seq![c]
    }
}

/// The wire form of a logical string: each reserved character gets a
/// backslash in front of it.
pub open spec fn escape_seq(s: Seq<char>) -> Seq<char>
    decreases s.len(),
{
    if s.len() == 0 {
        Seq::empty()
    } else {
        escape_seq(s.drop_last()) + escape_char(s.last())
    }
}

/// Whether `c` needs escaping.
pub fn is_special_char(c: char) -> (r: bool)
    ensures
        r == is_reserved(c),
{
    c == '_' || c == '*' || c == '[' || c == ']' || c == '(' || c == ')' || c == '~' || c == '`'
        || c == '>' || c == '#' || c == '+' || c == '-' || c == '=' || c == '|' || c == '{'
        || c == '}' || c == '.' || c == '!' || c == '\\'
}

/// Appends the wire form of `s[from..to]` to `out`.
fn push_escaped(out: &mut Vec<char>, s: &Vec<char>, from: usize, to: usize)
    requires
        from <= to <= s@.len(),
    ensures
        final(out)@ == old(out)@ + escape_seq(s@.subrange(from as int, to as int)),
{
    let mut i: usize = from;
    while i < to
        invariant
            from <= i <= to <= s@.len(),
            out@ == old(out)@ + escape_seq(s@.subrange(from as int, i as int)),
        decreases to - i,
    {
        let c = s[i];
        if is_special_char(c) {
            out.push('\\');
        }
        out.push(c);
        proof {
            let t = s@.subrange(from as int, i + 1);
            assert(t.drop_last() =~= s@.subrange(from as int, i as int));
        }
        i = i + 1;
    }
}

/// The wire form of `text`.
pub fn escaped_for_tg(text: &Vec<char>) -> (r: Vec<char>)
    ensures
        r@ == escape_seq(text@),
{
    let mut out: Vec<char> = Vec::new();
    push_escaped(&mut out, text, 0, text.len());
    proof {
        assert(text@.subrange(0, text@.len() as int) =~= text@);
    }
    out
}


/// The classes of characters that a run of the grammar is made of.
#[derive(Clone, Copy)]
pub enum Run {
    /// Neither reserved nor a line feed.
    Plain,
    /// Reserved characters.
    Reserved,
    /// The header marker `#`.
    Hashes,
    /// Spaces and tabs.
    Blanks,
    /// Spaces, tabs, carriage returns and line feeds.
    White,
}

pub open spec fn in_run(c: char, kind: Run) -> bool {
    match kind {
        Run::Plain => !is_reserved(c) && c != '\n',
        Run::Reserved => is_reserved(c),
        Run::Hashes => c == '#',
        Run::Blanks => c == ' ' || c == '\t',
        Run::White => c == ' ' || c == '\t' || c == '\r' || c == '\n',
    }
}

/// The end of the longest run of `kind` that starts at `i`.
pub open spec fn run_end(s: Seq<char>, i: int, kind: Run) -> int
    decreases s.len() - i,
{
    if 0 <= i < s.len() && in_run(s[i], kind) {
        run_end(s, i + 1, kind)
    } else {
        i
    }
}

/// Whether `s` holds `c` at `i`.
pub open spec fn has_at(s: Seq<char>, i: int, c: char) -> bool {
    0 <= i < s.len() && s[i] == c
}

/// Decoding of span content that starts at `i` and ends before an
/// unescaped `t`, a line feed, a backslash that starts no escape, or the end.
/// A backslash followed by a reserved character stands for that character.
/// Gives the position where decoding stopped and the logical text.
pub open spec fn decode_from(s: Seq<char>, i: int, t: char) -> (int, Seq<char>)
    decreases s.len() - i,
{
    if i < 0 || i >= s.len() || s[i] == t || s[i] == '\n' {
        (i, Seq::empty())
    } else if s[i] == '\\' {
        if i + 1 < s.len() && is_reserved(s[i + 1]) {
            let r = decode_from(s, i + 2, t);
            (r.0, seq![s[i + 1]] + r.1)
        } else {
            (i, Seq::empty())
        }
    } else {
        let r = decode_from(s, i + 1, t);
        (r.0, seq![s[i]] + r.1)
    }
}

/// Decoding of code block content that starts at `i` and ends before an
/// unescaped backtick or the end. Only a backtick can be escaped; any other
/// backslash stands for itself.
pub open spec fn decode_code_from(s: Seq<char>, i: int) -> (int, Seq<char>)
    decreases s.len() - i,
{
    if i < 0 || i >= s.len() || s[i] == '`' {
        (i, Seq::empty())
    } else if s[i] == '\\' && has_at(s, i + 1, '`') {
        let r = decode_code_from(s, i + 2);
        (r.0, seq!['`'] + r.1)
    } else {
        let r = decode_code_from(s, i + 1);
        (r.0, seq![s[i]] + r.1)
    }
}

proof fn lemma_run_end_bounds(s: Seq<char>, i: int, kind: Run)
    requires
        0 <= i <= s.len(),
    ensures
        i <= run_end(s, i, kind) <= s.len(),
    decreases s.len() - i,
{
    if i < s.len() && in_run(s[i], kind) {
        lemma_run_end_bounds(s, i + 1, kind);
    }
}

proof fn lemma_decode_bounds(s: Seq<char>, i: int, t: char)
    requires
        0 <= i <= s.len(),
    ensures
        i <= decode_from(s, i, t).0 <= s.len(),
    decreases s.len() - i,
{
    if i < s.len() && s[i] != t && s[i] != '\n' {
        if s[i] == '\\' {
            if i + 1 < s.len() && is_reserved(s[i + 1]) {
                lemma_decode_bounds(s, i + 2, t);
            }
        } else {
            lemma_decode_bounds(s, i + 1, t);
        }
    }
}

proof fn lemma_decode_code_bounds(s: Seq<char>, i: int)
    requires
        0 <= i <= s.len(),
    ensures
        i <= decode_code_from(s, i).0 <= s.len(),
    decreases s.len() - i,
{
    if i < s.len() && s[i] != '`' {
        if s[i] == '\\' && has_at(s, i + 1, '`') {
            lemma_decode_code_bounds(s, i + 2);
        } else {
            lemma_decode_code_bounds(s, i + 1);
        }
    }
}

fn char_at(s: &Vec<char>, i: usize, c: char) -> (r: bool)
    ensures
        r == has_at(s@, i as int, c),
        s@.len() <= usize::MAX,
{
    let n = s.len();
    i < n && s[i] == c
}

fn fits_run(c: char, kind: &Run) -> (r: bool)
    ensures
        r == in_run(c, *kind),
{
    match kind {
        Run::Plain => !is_special_char(c) && c != '\n',
        Run::Reserved => is_special_char(c),
        Run::Hashes => c == '#',
        Run::Blanks => c == ' ' || c == '\t',
        Run::White => c == ' ' || c == '\t' || c == '\r' || c == '\n',
    }
}

/// The end of the longest run of `kind` in `s` that starts at `start`.
fn scan_run(s: &Vec<char>, start: usize, kind: Run) -> (r: usize)
    requires
        start <= s@.len(),
    ensures
        r as int == run_end(s@, start as int, kind),
        start <= r <= s@.len(),
{
    let mut i: usize = start;
    while i < s.len() && fits_run(s[i], &kind)
        invariant
            start <= i <= s@.len(),
            run_end(s@, start as int, kind) == run_end(s@, i as int, kind),
        decreases s@.len() - i,
    {
        i = i + 1;
    }
    i
}


/// Decodes span content from `start` up to the terminator `t`, as
/// `decode_from` states.
fn parse_escaped_chars(s: &Vec<char>, start: usize, t: char) -> (r: (usize, Vec<char>))
    requires
        start <= s@.len(),
    ensures
        r.0 as int == decode_from(s@, start as int, t).0,
        r.1@ == decode_from(s@, start as int, t).1,
        start <= r.0 <= s@.len(),
{
    let mut out: Vec<char> = Vec::new();
    let mut i: usize = start;
    proof {
        lemma_decode_bounds(s@, start as int, t);
    }
    loop
        invariant
            start <= i <= s@.len(),
            decode_from(s@, start as int, t).0 == decode_from(s@, i as int, t).0,
            decode_from(s@, start as int, t).1 == out@ + decode_from(s@, i as int, t).1,
            start <= decode_from(s@, start as int, t).0 <= s@.len(),
        ensures
            start <= i <= s@.len(),
            decode_from(s@, start as int, t).1 == out@ + decode_from(s@, i as int, t).1,
            decode_from(s@, i as int, t) == (i as int, Seq::<char>::empty()),
            decode_from(s@, start as int, t).0 == i,
        decreases s@.len() - i,
    {
        if i >= s.len() || s[i] == t || s[i] == '\n' {
            break;
        }
        let c = s[i];
        let ghost prev = out@;
        if c == '\\' {
            if i + 1 < s.len() && is_special_char(s[i + 1]) {
                out.push(s[i + 1]);
                proof {
                    let r = decode_from(s@, i + 2, t);
                    assert(prev + (seq![s@[i + 1]] + r.1) =~= out@ + r.1);
                }
                i = i + 2;
            } else {
                break;
            }
        } else {
            out.push(c);
            proof {
                let r = decode_from(s@, i + 1, t);
                assert(prev + (seq![c] + r.1) =~= out@ + r.1);
            }
            i = i + 1;
        }
    }
    proof {
        assert(out@ + Seq::<char>::empty() =~= out@);
    }
    (i, out)
}


/// Decodes code block content from `start` up to an unescaped backtick, as
/// `decode_code_from` states.
fn parse_code_chars(s: &Vec<char>, start: usize) -> (r: (usize, Vec<char>))
    requires
        start <= s@.len(),
    ensures
        r.0 as int == decode_code_from(s@, start as int).0,
        r.1@ == decode_code_from(s@, start as int).1,
        start <= r.0 <= s@.len(),
{
    let mut out: Vec<char> = Vec::new();
    let mut i: usize = start;
    proof {
        lemma_decode_code_bounds(s@, start as int);
    }
    loop
        invariant
            start <= i <= s@.len(),
            decode_code_from(s@, start as int).0 == decode_code_from(s@, i as int).0,
            decode_code_from(s@, start as int).1 == out@ + decode_code_from(s@, i as int).1,
        ensures
            start <= i <= s@.len(),
            decode_code_from(s@, start as int).1 == out@ + decode_code_from(s@, i as int).1,
            decode_code_from(s@, i as int) == (i as int, Seq::<char>::empty()),
            decode_code_from(s@, start as int).0 == i,
        decreases s@.len() - i,
    {
        if i >= s.len() || s[i] == '`' {
            break;
        }
        let c = s[i];
        let ghost prev = out@;
        if c == '\\' && char_at(s, i + 1, '`') {
            out.push('`');
            proof {
                let r = decode_code_from(s@, i + 2);
                assert(prev + (seq!['`'] + r.1) =~= out@ + r.1);
            }
            i = i + 2;
        } else {
            out.push(c);
            proof {
                let r = decode_code_from(s@, i + 1);
                assert(prev + (seq![c] + r.1) =~= out@ + r.1);
            }
            i = i + 1;
        }
    }
    proof {
        assert(out@ + Seq::<char>::empty() =~= out@);
    }
    (i, out)
}

/// The view of a parser's answer.
pub open spec fn view_opt(r: Option<(usize, Vec<char>)>) -> Option<(int, Seq<char>)> {
    match r {
        Some(x) => Some((x.0 as int, x.1@)),
        None => None,
    }
}

/// Whether a parser's answer consumed at least one character of `s` from `i`.
pub open spec fn advances(r: Option<(int, Seq<char>)>, i: int, n: int) -> bool {
    r matches Some(x) ==> i < x.0 <= n
}

/// The opening `o`, content decoded up to `d`, and the closing `d`.
pub open spec fn single_span(s: Seq<char>, i: int, o: char, d: char) -> Option<(int, Seq<char>)> {
    let r = decode_from(s, i + 1, d);
    if has_at(s, i, o) && r.0 > i + 1 && has_at(s, r.0, d) {
        Some((r.0 + 1, r.1))
    } else {
        None
    }
}

/// The marker `d` twice, content decoded up to `d`, and `d` twice.
pub open spec fn double_span(s: Seq<char>, i: int, d: char) -> Option<(int, Seq<char>)> {
    let r = decode_from(s, i + 2, d);
    if has_at(s, i, d) && has_at(s, i + 1, d) && r.0 > i + 2 && has_at(s, r.0, d) && has_at(
        s,
        r.0 + 1,
        d,
    ) {
        Some((r.0 + 2, r.1))
    } else {
        None
    }
}

/// Content escaped and set between two single markers `d`.
pub open spec fn marked(d: char, c: Seq<char>) -> Seq<char> {
    seq![d] + escape_seq(c) + seq![d]
}

/// Bold (marker `*`) or emphasis (marker `_`): a doubled marker is tried
/// first; the output always has single markers.
pub open spec fn marked_span(s: Seq<char>, i: int, d: char) -> Option<(int, Seq<char>)> {
    match double_span(s, i, d) {
        Some(r) => Some((r.0, marked(d, r.1))),
        None => match single_span(s, i, d, d) {
            Some(r) => Some((r.0, marked(d, r.1))),
            None => None,
        },
    }
}

/// Inline code between backticks.
pub open spec fn code_span(s: Seq<char>, i: int) -> Option<(int, Seq<char>)> {
    match single_span(s, i, '`', '`') {
        Some(r) => Some((r.0, marked('`', r.1))),
        None => None,
    }
}

/// A link: text between brackets, then an address between parentheses.
pub open spec fn link_span(s: Seq<char>, i: int) -> Option<(int, Seq<char>)> {
    match single_span(s, i, '[', ']') {
        Some(a) => match single_span(s, a.0, '(', ')') {
            Some(b) => Some(
                (
                    b.0,
                    seq!['['] + escape_seq(a.1) + seq![']', '('] + escape_seq(b.1) + seq![')'],
                ),
            ),
            None => None,
        },
        None => None,
    }
}

/// A non-empty run of `kind`, escaped.
pub open spec fn run_span(s: Seq<char>, i: int, kind: Run) -> Option<(int, Seq<char>)> {
    let j = run_end(s, i, kind);
    if 0 <= i && j > i {
        Some((j, escape_seq(s.subrange(i, j))))
    } else {
        None
    }
}

/// The first of two alternatives that matched.
pub open spec fn first_of(a: Option<(int, Seq<char>)>, b: Option<(int, Seq<char>)>) -> Option<
    (int, Seq<char>),
> {
    if a is Some {
        a
    } else {
        b
    }
}

/// One span of a paragraph, the alternatives taken in order: emphasis, bold,
/// code, link, plain text, reserved characters.
pub open spec fn span(s: Seq<char>, i: int) -> Option<(int, Seq<char>)> {
    first_of(
        marked_span(s, i, '_'),
        first_of(
            marked_span(s, i, '*'),
            first_of(
                code_span(s, i),
                first_of(
                    link_span(s, i),
                    first_of(run_span(s, i, Run::Plain), run_span(s, i, Run::Reserved)),
                ),
            ),
        ),
    )
}

/// A header: `#` one or more times, blanks, and a plain title.
pub open spec fn header(s: Seq<char>, i: int) -> Option<(int, Seq<char>)> {
    let h = run_end(s, i, Run::Hashes);
    let b = run_end(s, h, Run::Blanks);
    let m = run_end(s, b, Run::Plain);
    if 0 <= i && h > i && b > h && m > b {
        Some(
            (
                m,
                seq!['`'] + escape_seq(s.subrange(i, h)) + seq!['`', ' ', '_', '_'] + escape_seq(
                    s.subrange(b, m),
                ) + seq!['_', '_'],
            ),
        )
    } else {
        None
    }
}

/// Three backticks at `i`.
pub open spec fn fence_at(s: Seq<char>, i: int) -> bool {
    has_at(s, i, '`') && has_at(s, i + 1, '`') && has_at(s, i + 2, '`')
}

/// A code block: a fence, content, a fence.
pub open spec fn code_block(s: Seq<char>, i: int) -> Option<(int, Seq<char>)> {
    let r = decode_code_from(s, i + 3);
    if fence_at(s, i) && r.0 > i + 3 && fence_at(s, r.0) {
        Some((r.0 + 3, seq!['`', '`', '`'] + escape_seq(r.1) + seq!['`', '`', '`']))
    } else {
        None
    }
}

/// Appends the wire form of `v` to `out`.
fn append_escaped(out: &mut Vec<char>, v: &Vec<char>)
    ensures
        final(out)@ == old(out)@ + escape_seq(v@),
{
    push_escaped(out, v, 0, v.len());
    proof {
        assert(v@.subrange(0, v@.len() as int) =~= v@);
    }
}

fn parse_single_span(s: &Vec<char>, i: usize, o: char, d: char) -> (r: Option<(usize, Vec<char>)>)
    requires
        i <= s@.len(),
    ensures
        view_opt(r) == single_span(s@, i as int, o, d),
        advances(view_opt(r), i as int, s@.len() as int),
{
    if !char_at(s, i, o) {
        return None;
    }
    let (j, c) = parse_escaped_chars(s, i + 1, d);
    if j > i + 1 && char_at(s, j, d) {
        Some((j + 1, c))
    } else {
        None
    }
}

fn parse_double_span(s: &Vec<char>, i: usize, d: char) -> (r: Option<(usize, Vec<char>)>)
    requires
        i <= s@.len(),
    ensures
        view_opt(r) == double_span(s@, i as int, d),
        advances(view_opt(r), i as int, s@.len() as int),
{
    if !(char_at(s, i, d) && char_at(s, i + 1, d)) {
        return None;
    }
    let (j, c) = parse_escaped_chars(s, i + 2, d);
    if j > i + 2 && char_at(s, j, d) && char_at(s, j + 1, d) {
        Some((j + 2, c))
    } else {
        None
    }
}

/// Parses bold (`d` is `*`) or emphasis (`d` is `_`) at `i`.
fn parse_marked(s: &Vec<char>, i: usize, d: char) -> (r: Option<(usize, Vec<char>)>)
    requires
        i <= s@.len(),
    ensures
        view_opt(r) == marked_span(s@, i as int, d),
        advances(view_opt(r), i as int, s@.len() as int),
{
    let inner = match parse_double_span(s, i, d) {
        Some(x) => Some(x),
        None => parse_single_span(s, i, d, d),
    };
    match inner {
        Some((j, c)) => {
            let mut out: Vec<char> = Vec::new();
            out.push(d);
            append_escaped(&mut out, &c);
            out.push(d);
            proof {
                assert(out@ =~= marked(d, c@));
            }
            Some((j, out))
        },
        None => None,
    }
}

/// Parses inline code at `i`.
fn parse_code(s: &Vec<char>, i: usize) -> (r: Option<(usize, Vec<char>)>)
    requires
        i <= s@.len(),
    ensures
        view_opt(r) == code_span(s@, i as int),
        advances(view_opt(r), i as int, s@.len() as int),
{
    match parse_single_span(s, i, '`', '`') {
        Some((j, c)) => {
            let mut out: Vec<char> = Vec::new();
            out.push('`');
            append_escaped(&mut out, &c);
            out.push('`');
            proof {
                assert(out@ =~= marked('`', c@));
            }
            Some((j, out))
        },
        None => None,
    }
}

/// Parses a link at `i`.
fn parse_link(s: &Vec<char>, i: usize) -> (r: Option<(usize, Vec<char>)>)
    requires
        i <= s@.len(),
    ensures
        view_opt(r) == link_span(s@, i as int),
        advances(view_opt(r), i as int, s@.len() as int),
{
    let (j, text) = match parse_single_span(s, i, '[', ']') {
        Some(x) => x,
        None => return None,
    };
    let (k, url) = match parse_single_span(s, j, '(', ')') {
        Some(x) => x,
        None => return None,
    };
    let mut out: Vec<char> = Vec::new();
    out.push('[');
    append_escaped(&mut out, &text);
    out.push(']');
    out.push('(');
    append_escaped(&mut out, &url);
    out.push(')');
    proof {
        assert(out@ =~= seq!['['] + escape_seq(text@) + seq![']', '('] + escape_seq(url@) + seq![
            ')',
        ]);
    }
    Some((k, out))
}

/// Parses a non-empty run of `kind` at `i`.
fn parse_run(s: &Vec<char>, i: usize, kind: Run) -> (r: Option<(usize, Vec<char>)>)
    requires
        i <= s@.len(),
    ensures
        view_opt(r) == run_span(s@, i as int, kind),
        advances(view_opt(r), i as int, s@.len() as int),
{
    let j = scan_run(s, i, kind);
    if j > i {
        let mut out: Vec<char> = Vec::new();
        push_escaped(&mut out, s, i, j);
        proof {
            assert(out@ =~= escape_seq(s@.subrange(i as int, j as int)));
        }
        Some((j, out))
    } else {
        None
    }
}

/// Parses one span of a paragraph at `i`.
fn parse_span(s: &Vec<char>, i: usize) -> (r: Option<(usize, Vec<char>)>)
    requires
        i <= s@.len(),
    ensures
        view_opt(r) == span(s@, i as int),
        advances(view_opt(r), i as int, s@.len() as int),
{
    let r = parse_marked(s, i, '_');
    if r.is_some() {
        return r;
    }
    let r = parse_marked(s, i, '*');
    if r.is_some() {
        return r;
    }
    let r = parse_code(s, i);
    if r.is_some() {
        return r;
    }
    let r = parse_link(s, i);
    if r.is_some() {
        return r;
    }
    let r = parse_run(s, i, Run::Plain);
    if r.is_some() {
        return r;
    }
    parse_run(s, i, Run::Reserved)
}

/// Parses a header at `i`.
fn parse_header(s: &Vec<char>, i: usize) -> (r: Option<(usize, Vec<char>)>)
    requires
        i <= s@.len(),
    ensures
        view_opt(r) == header(s@, i as int),
        advances(view_opt(r), i as int, s@.len() as int),
{
    let h = scan_run(s, i, Run::Hashes);
    if h == i {
        return None;
    }
    let b = scan_run(s, h, Run::Blanks);
    if b == h {
        return None;
    }
    let m = scan_run(s, b, Run::Plain);
    if m == b {
        return None;
    }
    let mut out: Vec<char> = Vec::new();
    out.push('`');
    push_escaped(&mut out, s, i, h);
    out.push('`');
    out.push(' ');
    out.push('_');
    out.push('_');
    push_escaped(&mut out, s, b, m);
    out.push('_');
    out.push('_');
    proof {
        assert(out@ =~= seq!['`'] + escape_seq(s@.subrange(i as int, h as int)) + seq![
            '`',
            ' ',
            '_',
            '_',
        ] + escape_seq(s@.subrange(b as int, m as int)) + seq!['_', '_']);
    }
    Some((m, out))
}

fn fence(s: &Vec<char>, i: usize) -> (r: bool)
    requires
        i <= s@.len(),
    ensures
        r == fence_at(s@, i as int),
        s@.len() <= usize::MAX,
{
    char_at(s, i, '`') && char_at(s, i + 1, '`') && char_at(s, i + 2, '`')
}

/// Parses a code block at `i`.
fn parse_codeblock(s: &Vec<char>, i: usize) -> (r: Option<(usize, Vec<char>)>)
    requires
        i <= s@.len(),
    ensures
        view_opt(r) == code_block(s@, i as int),
        advances(view_opt(r), i as int, s@.len() as int),
{
    if !fence(s, i) {
        return None;
    }
    let (j, c) = parse_code_chars(s, i + 3);
    if j > i + 3 && fence(s, j) {
        let mut out: Vec<char> = Vec::new();
        out.push('`');
        out.push('`');
        out.push('`');
        append_escaped(&mut out, &c);
        out.push('`');
        out.push('`');
        out.push('`');
        proof {
            assert(out@ =~= seq!['`', '`', '`'] + escape_seq(c@) + seq!['`', '`', '`']);
        }
        Some((j + 3, out))
    } else {
        None
    }
}


/// Spans taken one after another from `i` for as long as one matches; gives
/// where they stopped and their outputs concatenated.
pub open spec fn spans_from(s: Seq<char>, i: int) -> (int, Seq<char>)
    decreases s.len() - i,
{
    match span(s, i) {
        Some(x) => if 0 <= i < x.0 <= s.len() {
            let r = spans_from(s, x.0);
            (r.0, x.1 + r.1)
        } else {
            (i, Seq::empty())
        },
        None => (i, Seq::empty()),
    }
}

/// A paragraph: one or more spans.
pub open spec fn paragraph(s: Seq<char>, i: int) -> Option<(int, Seq<char>)> {
    if span(s, i) is Some {
        Some(spans_from(s, i))
    } else {
        None
    }
}

/// One block: a code block, else a header, else a paragraph.
pub open spec fn block(s: Seq<char>, i: int) -> Option<(int, Seq<char>)> {
    first_of(code_block(s, i), first_of(header(s, i), paragraph(s, i)))
}

/// The outputs of the blocks from `i` on, each after the white space before
/// it; `None` where some block matches nothing.
pub open spec fn blocks_from(s: Seq<char>, i: int) -> Option<Seq<Seq<char>>>
    decreases s.len() - i,
{
    let j = run_end(s, i, Run::White);
    if j >= s.len() {
        Some(Seq::empty())
    } else {
        match block(s, j) {
            Some(x) => if 0 <= i <= j < x.0 <= s.len() {
                match blocks_from(s, x.0) {
                    Some(rest) => Some(seq![x.1] + rest),
                    None => None,
                }
            } else {
                None
            },
            None => None,
        }
    }
}

/// The blocks' outputs with a blank line between two of them.
pub open spec fn join_blocks(bs: Seq<Seq<char>>) -> Seq<char>
    decreases bs.len(),
{
    if bs.len() == 0 {
        Seq::empty()
    } else if bs.len() == 1 {
        bs[0]
    } else {
        join_blocks(bs.drop_last()) + seq!['\n', '\n'] + bs.last()
    }
}

/// The wire form of a whole document, or `None` where it is not one: where
/// it holds no block, or where some block matches nothing.
pub open spec fn escaped_markdown(s: Seq<char>) -> Option<Seq<char>> {
    match blocks_from(s, 0) {
        Some(bs) => if bs.len() > 0 {
            Some(join_blocks(bs))
        } else {
            None
        },
        None => None,
    }
}

proof fn lemma_spans_bounds(s: Seq<char>, i: int)
    requires
        0 <= i <= s.len(),
    ensures
        i <= spans_from(s, i).0 <= s.len(),
    decreases s.len() - i,
{
    if let Some(x) = span(s, i) {
        if i < x.0 <= s.len() {
            lemma_spans_bounds(s, x.0);
        }
    }
}

/// Parses a paragraph at `start`.
fn parse_paragraph(s: &Vec<char>, start: usize) -> (r: Option<(usize, Vec<char>)>)
    requires
        start <= s@.len(),
    ensures
        view_opt(r) == paragraph(s@, start as int),
        advances(view_opt(r), start as int, s@.len() as int),
{
    let (mut i, mut out) = match parse_span(s, start) {
        Some(x) => x,
        None => return None,
    };
    proof {
        lemma_spans_bounds(s@, i as int);
    }
    loop
        invariant
            start < i <= s@.len(),
            spans_from(s@, start as int).0 == spans_from(s@, i as int).0,
            spans_from(s@, start as int).1 == out@ + spans_from(s@, i as int).1,
        ensures
            start < i <= s@.len(),
            spans_from(s@, start as int).1 == out@ + spans_from(s@, i as int).1,
            spans_from(s@, i as int) == (i as int, Seq::<char>::empty()),
            spans_from(s@, start as int).0 == i,
        decreases s@.len() - i,
    {
        match parse_span(s, i) {
            Some((k, mut o)) => {
                let ghost prev = out@;
                let ghost piece = o@;
                out.append(&mut o);
                proof {
                    let r = spans_from(s@, k as int);
                    assert(prev + (piece + r.1) =~= out@ + r.1);
                }
                i = k;
            },
            None => break,
        }
    }
    proof {
        assert(out@ + Seq::<char>::empty() =~= out@);
    }
    Some((i, out))
}

/// Parses one block at `i`.
fn parse_block(s: &Vec<char>, i: usize) -> (r: Option<(usize, Vec<char>)>)
    requires
        i <= s@.len(),
    ensures
        view_opt(r) == block(s@, i as int),
        advances(view_opt(r), i as int, s@.len() as int),
{
    let r = parse_codeblock(s, i);
    if r.is_some() {
        return r;
    }
    let r = parse_header(s, i);
    if r.is_some() {
        return r;
    }
    parse_paragraph(s, i)
}

/// Transcodes a whole document, given as its characters: the blocks'
/// outputs joined with a blank line, or `None` where it is white space alone.
pub fn parse_markdown(s: &Vec<char>) -> (r: Option<Vec<char>>)
    ensures
        match r {
            Some(w) => escaped_markdown(s@) == Some(w@),
            None => escaped_markdown(s@) is None,
        },
        r is None <==> blank_from(s@, 0),
{
    proof {
        lemma_fails_only_on_blank(s@);
    }
    let mut out: Vec<char> = Vec::new();
    let mut i: usize = 0;
    let mut any = false;
    let ghost mut done: Seq<Seq<char>> = Seq::empty();
    loop
        invariant
            i <= s@.len(),
            out@ == join_blocks(done),
            any == (done.len() > 0),
            escaped_markdown(s@) is None <==> blank_from(s@, 0),
            match blocks_from(s@, i as int) {
                Some(rest) => blocks_from(s@, 0) == Some(done + rest),
                None => blocks_from(s@, 0) is None,
            },
        ensures
            out@ == join_blocks(done),
            any == (done.len() > 0),
            blocks_from(s@, 0) == Some(done),
        decreases s@.len() - i,
    {
        let j = scan_run(s, i, Run::White);
        if j >= s.len() {
            proof {
                assert(done + Seq::<Seq<char>>::empty() =~= done);
            }
            break;
        }
        let (k, mut o) = match parse_block(s, j) {
            Some(x) => x,
            None => return None,
        };
        proof {
            let rest = blocks_from(s@, k as int);
            if let Some(bs) = rest {
                assert(done + (seq![o@] + bs) =~= done.push(o@) + bs);
            }
            let d2 = done.push(o@);
            assert(d2.drop_last() =~= done);
        }
        let ghost piece = o@;
        if any {
            out.push('\n');
            out.push('\n');
        }
        out.append(&mut o);
        proof {
            done = done.push(piece);
        }
        any = true;
        i = k;
    }
    if any {
        Some(out)
    } else {
        None
    }
}



/// Whether every character of `s` from `i` on is white space.
pub open spec fn blank_from(s: Seq<char>, i: int) -> bool {
    forall|k: int| i <= k < s.len() ==> in_run(#[trigger] s[k], Run::White)
}

proof fn lemma_run_end_facts(s: Seq<char>, i: int, kind: Run)
    requires
        0 <= i <= s.len(),
    ensures
        i <= run_end(s, i, kind) <= s.len(),
        forall|k: int| i <= k < run_end(s, i, kind) ==> in_run(#[trigger] s[k], kind),
        run_end(s, i, kind) < s.len() ==> !in_run(s[run_end(s, i, kind)], kind),
    decreases s.len() - i,
{
    if i < s.len() && in_run(s[i], kind) {
        lemma_run_end_facts(s, i + 1, kind);
    }
}

proof fn lemma_single_span_advances(s: Seq<char>, i: int, o: char, d: char)
    requires
        0 <= i <= s.len(),
    ensures
        advances(single_span(s, i, o, d), i, s.len() as int),
{
    if has_at(s, i, o) {
        lemma_decode_bounds(s, i + 1, d);
    }
}

proof fn lemma_double_span_advances(s: Seq<char>, i: int, d: char)
    requires
        0 <= i <= s.len(),
    ensures
        advances(double_span(s, i, d), i, s.len() as int),
{
    if has_at(s, i, d) && has_at(s, i + 1, d) {
        lemma_decode_bounds(s, i + 2, d);
    }
}

proof fn lemma_span_advances(s: Seq<char>, i: int)
    requires
        0 <= i <= s.len(),
    ensures
        advances(span(s, i), i, s.len() as int),
{
    lemma_double_span_advances(s, i, '_');
    lemma_single_span_advances(s, i, '_', '_');
    lemma_double_span_advances(s, i, '*');
    lemma_single_span_advances(s, i, '*', '*');
    lemma_single_span_advances(s, i, '`', '`');
    lemma_single_span_advances(s, i, '[', ']');
    if let Some(a) = single_span(s, i, '[', ']') {
        lemma_single_span_advances(s, a.0, '(', ')');
    }
    lemma_run_end_bounds(s, i, Run::Plain);
    lemma_run_end_bounds(s, i, Run::Reserved);
}

proof fn lemma_block_advances(s: Seq<char>, i: int)
    requires
        0 <= i <= s.len(),
    ensures
        advances(block(s, i), i, s.len() as int),
{
    if fence_at(s, i) {
        lemma_decode_code_bounds(s, i + 3);
    }
    lemma_run_end_bounds(s, i, Run::Hashes);
    let h = run_end(s, i, Run::Hashes);
    lemma_run_end_bounds(s, h, Run::Blanks);
    lemma_run_end_bounds(s, run_end(s, h, Run::Blanks), Run::Plain);
    lemma_span_advances(s, i);
    if let Some(x) = span(s, i) {
        lemma_spans_bounds(s, x.0);
    }
}

/// At a character that is not white space some block always matches.
proof fn lemma_block_matches(s: Seq<char>, i: int)
    requires
        0 <= i < s.len(),
        !in_run(s[i], Run::White),
    ensures
        block(s, i) is Some,
{
    lemma_run_end_bounds(s, i + 1, Run::Plain);
    lemma_run_end_bounds(s, i + 1, Run::Reserved);
    assert(run_span(s, i, Run::Plain) is Some || run_span(s, i, Run::Reserved) is Some);
}

/// The blocks from `i` on always parse, and there are none exactly where
/// only white space is left.
proof fn lemma_blocks_total(s: Seq<char>, i: int)
    requires
        0 <= i <= s.len(),
    ensures
        blocks_from(s, i) is Some,
        blocks_from(s, i)->0.len() == 0 <==> blank_from(s, i),
    decreases s.len() - i,
{
    lemma_run_end_facts(s, i, Run::White);
    let j = run_end(s, i, Run::White);
    if j < s.len() {
        lemma_block_matches(s, j);
        lemma_block_advances(s, j);
        let x = block(s, j)->0;
        lemma_blocks_total(s, x.0);
        assert(!blank_from(s, i)) by {
            assert(!in_run(s[j], Run::White));
        }
    } else {
        assert forall|k: int| i <= k < s.len() implies in_run(#[trigger] s[k], Run::White) by {}
    }
}

/// Transcoding fails exactly on a text of white space alone, the empty
/// text included.
pub proof fn lemma_fails_only_on_blank(s: Seq<char>)
    ensures
        escaped_markdown(s) is None <==> blank_from(s, 0),
{
    lemma_blocks_total(s, 0);
}


proof fn lemma_escape_concat(a: Seq<char>, b: Seq<char>)
    ensures
        escape_seq(a + b) == escape_seq(a) + escape_seq(b),
    decreases b.len(),
{
    if b.len() == 0 {
        assert(a + b =~= a);
        assert(escape_seq(a) + escape_seq(b) =~= escape_seq(a));
    } else {
        lemma_escape_concat(a, b.drop_last());
        assert((a + b).drop_last() =~= a + b.drop_last());
        assert(escape_seq(a) + escape_seq(b) =~= escape_seq(a) + escape_seq(b.drop_last())
            + escape_char(b.last()));
    }
}

/// Decoding from a position past a prefix does not depend on the prefix.
proof fn lemma_decode_shift(p: Seq<char>, q: Seq<char>, i: int, t: char)
    requires
        0 <= i <= q.len(),
    ensures
        decode_from(p + q, p.len() + i, t) == (p.len() + decode_from(q, i, t).0, decode_from(
            q,
            i,
            t,
        ).1),
    decreases q.len() - i,
{
    let s = p + q;
    let k = p.len() + i;
    if i < q.len() {
        assert(s[k] == q[i]);
        if i + 1 < q.len() {
            assert(s[k + 1] == q[i + 1]);
        }
        if q[i] != t && q[i] != '\n' {
            if q[i] == '\\' {
                if i + 1 < q.len() && is_reserved(q[i + 1]) {
                    lemma_decode_shift(p, q, i + 2, t);
                }
            } else {
                lemma_decode_shift(p, q, i + 1, t);
            }
        }
    }
}

/// The wire form of span content that holds no line feed, followed by the
/// reserved character other than the backslash that closes the span, decodes to that content and
/// stops right at the closing character.
pub proof fn lemma_span_content_round_trip(x: Seq<char>, t: char)
    requires
        is_reserved(t),
        t != '\\',
        forall|k: int| 0 <= k < x.len() ==> #[trigger] x[k] != '\n',
    ensures
        decode_from(escape_seq(x) + seq![t], 0, t) == (escape_seq(x).len() as int, x),
    decreases x.len(),
{
    let s = escape_seq(x) + seq![t];
    if x.len() == 0 {
        assert(s =~= seq![t]);
    } else {
        let c = x[0];
        let rest = x.drop_first();
        assert(x =~= seq![c] + rest);
        lemma_escape_concat(seq![c], rest);
        assert(seq![c].drop_last() =~= Seq::<char>::empty());
        assert(escape_seq(Seq::<char>::empty()) == Seq::<char>::empty());
        assert(escape_seq(seq![c]) == escape_seq(Seq::<char>::empty()) + escape_char(c));
        assert(escape_seq(seq![c]) =~= escape_char(c));
        assert forall|k: int| 0 <= k < rest.len() implies #[trigger] rest[k] != '\n' by {
            assert(rest[k] == x[k + 1]);
        }
        lemma_span_content_round_trip(rest, t);
        let e = escape_char(c);
        let tail = escape_seq(rest) + seq![t];
        assert(s =~= e + tail);
        lemma_decode_shift(e, tail, 0, t);
        if is_reserved(c) {
            assert(s[0] == '\\' && s[1] == c);
        } else {
            assert(s[0] == c);
        }
        assert(seq![c] + rest =~= x);
    }
}

/// The one way transcoding fails: the text is no document of the grammar.
#[derive(Debug, Clone, Copy, PartialEq, Eq)]
pub struct ParseError;

/// The characters of `text`, in order.
fn chars_of(text: &str) -> (r: Vec<char>)
    ensures
        r@ == text@,
{
    let n = text.unicode_len();
    let mut out: Vec<char> = Vec::new();
    let mut i: usize = 0;
    while i < n
        invariant
            i <= n,
            n == text@.len(),
            out@ == text@.subrange(0, i as int),
        decreases n - i,
    {
        out.push(text.get_char(i));
        proof {
            assert(out@ =~= text@.subrange(0, i + 1));
        }
        i = i + 1;
    }
    proof {
        assert(out@ =~= text@);
    }
    out
}

/// Relies on `String`'s `FromIterator<char>`: the string holds the
/// characters in their order.
#[verifier::external_body]
pub(crate) fn string_from_chars(v: &Vec<char>) -> (r: String)
    ensures
        r@ == v@,
{
    v.iter().collect()
}

/// Transcodes `text` into the wire dialect; fails exactly where the text
/// is white space alone.
pub fn escape_markdown(text: &str) -> (r: Result<String, ParseError>)
    ensures
        match r {
            Ok(w) => escaped_markdown(text@) == Some(w@),
            Err(_) => escaped_markdown(text@) is None,
        },
        r is Err <==> blank_from(text@, 0),
{
    proof {
        lemma_fails_only_on_blank(text@);
    }
    let chars = chars_of(text);
    match parse_markdown(&chars) {
        Some(w) => Ok(string_from_chars(&w)),
        None => Err(ParseError),
    }
}


/// Escaping leaves a string that holds no reserved character as it is.
pub proof fn lemma_escape_without_reserved(s: Seq<char>)
    requires
        forall|k: int| 0 <= k < s.len() ==> !is_reserved(#[trigger] s[k]),
    ensures
        escape_seq(s) == s,
    decreases s.len(),
{
    if s.len() > 0 {
        lemma_escape_without_reserved(s.drop_last());
        assert(escape_seq(s.drop_last()) + seq![s.last()] =~= s);
    }
}

proof fn lemma_run_to_end(s: Seq<char>, i: int, kind: Run)
    requires
        0 <= i <= s.len(),
        forall|k: int| i <= k < s.len() ==> in_run(#[trigger] s[k], kind),
    ensures
        run_end(s, i, kind) == s.len(),
    decreases s.len() - i,
{
    if i < s.len() {
        lemma_run_to_end(s, i + 1, kind);
    }
}

/// No span starts at the end of the text.
proof fn lemma_no_span_at_end(s: Seq<char>)
    ensures
        span(s, s.len() as int) is None,
        spans_from(s, s.len() as int) == (s.len() as int, Seq::<char>::empty()),
{
    let n = s.len() as int;
    assert(run_end(s, n, Run::Plain) == n);
    assert(run_end(s, n, Run::Reserved) == n);
}

/// A text that is one reserved character comes out as that character
/// after a backslash.
pub proof fn lemma_reserved_alone(c: char)
    requires
        is_reserved(c),
    ensures
        escaped_markdown(seq![c]) == Some(seq!['\\', c]),
{
    let s = seq![c];
    lemma_no_span_at_end(s);
    assert(run_end(s, 0, Run::White) == 0);
    assert(run_end(s, 1, Run::White) == 1);
    assert(run_end(s, 0, Run::Plain) == 0);
    assert(run_end(s, 1, Run::Reserved) == 1);
    assert(run_end(s, 0, Run::Reserved) == 1);
    assert(run_end(s, 1, Run::Blanks) == 1);
    assert(run_end(s, 0, Run::Hashes) <= 1) by {
        if c == '#' {
            assert(run_end(s, 1, Run::Hashes) == 1);
        }
    }
    assert(decode_from(s, 1, c).0 == 1);
    assert(decode_from(s, 1, ']').0 == 1);
    assert(decode_code_from(s, 3).0 == 3);
    assert(s.subrange(0, 1) =~= s);
    assert(s.drop_last() =~= Seq::<char>::empty());
    assert(escape_seq(s) =~= seq!['\\', c]);
    assert(span(s, 0) == Some((1int, seq!['\\', c])));
    assert(block(s, 0) == Some((1int, seq!['\\', c])));
    assert(blocks_from(s, 1) == Some(Seq::<Seq<char>>::empty()));
    assert(seq![seq!['\\', c]] + Seq::<Seq<char>>::empty() =~= seq![seq!['\\', c]]);
}

/// A non-empty text of plain characters (no reserved character and no line
/// feed) that does not start with white space comes out unchanged.
pub proof fn lemma_plain_text_unchanged(s: Seq<char>)
    requires
        s.len() > 0,
        forall|k: int| 0 <= k < s.len() ==> in_run(#[trigger] s[k], Run::Plain),
        !in_run(s[0], Run::White),
    ensures
        escaped_markdown(s) == Some(s),
{
    let n = s.len() as int;
    lemma_no_span_at_end(s);
    lemma_run_to_end(s, 0, Run::Plain);
    assert(run_end(s, 0, Run::White) == 0);
    assert(run_end(s, n, Run::White) == n);
    assert(run_end(s, 0, Run::Hashes) == 0);
    assert(s.subrange(0, n) =~= s);
    assert forall|k: int| 0 <= k < s.len() implies !is_reserved(#[trigger] s[k]) by {
        assert(in_run(s[k], Run::Plain));
    }
    lemma_escape_without_reserved(s);
    assert(span(s, 0) == Some((n, s)));
    assert(spans_from(s, 0) == (n, s + Seq::<char>::empty()));
    assert(s + Seq::<char>::empty() =~= s);
    assert(block(s, 0) == Some((n, s)));
    assert(blocks_from(s, n) == Some(Seq::<Seq<char>>::empty()));
    assert(seq![s] + Seq::<Seq<char>>::empty() =~= seq![s]);
}

} // verus!
