//! Line-oriented YAML highlighting that keeps multi-document streams intact.
//!
//! The source is cut into lines at `'\n'`.  Each line becomes a sequence of
//! segments: a piece of the line's text together with an optional token kind.
//! Styled segments are rendered as `<span class="yaml-...">text</span>`, plain
//! segments (whitespace and line breaks) are rendered bare; all text is
//! HTML-escaped.
use vstd::prelude::*;
use vstd::string::*;

use crate::text::{chars_of, push_char};

verus! {

/// The token classes that the highlighter distinguishes.
#[derive(Clone, Copy, Debug)]
pub enum Kind {
    Comment,
    Key,
    String,
    Number,
    Bool,
    Null,
    Punct,
    Doc,
    Anchor,
    Tag,
}

/// The CSS class of a token kind.
pub open spec fn kind_class(k: Kind) -> Seq<char> {
    match k {
        Kind::Comment => "yaml-comment"@,
        Kind::Key => "yaml-key"@,
        Kind::String => "yaml-string"@,
        Kind::Number => "yaml-number"@,
        Kind::Bool => "yaml-bool"@,
        Kind::Null => "yaml-null"@,
        Kind::Punct => "yaml-punct"@,
        Kind::Doc => "yaml-doc"@,
        Kind::Anchor => "yaml-anchor"@,
        Kind::Tag => "yaml-tag"@,
    }
}

impl Kind {
    pub fn class(self) -> (r: &'static str)
        ensures
            r@ == kind_class(self),
    {
        match self {
            Kind::Comment => "yaml-comment",
            Kind::Key => "yaml-key",
            Kind::String => "yaml-string",
            Kind::Number => "yaml-number",
            Kind::Bool => "yaml-bool",
            Kind::Null => "yaml-null",
            Kind::Punct => "yaml-punct",
            Kind::Doc => "yaml-doc",
            Kind::Anchor => "yaml-anchor",
            Kind::Tag => "yaml-tag",
        }
    }
}

// ---------------------------------------------------------------------------
// Character classes (all ASCII, as in `u8::is_ascii_*`).
// ---------------------------------------------------------------------------

/// `u8::is_ascii_whitespace`: space, tab, line feed, form feed, carriage return.
pub open spec fn is_ascii_ws(c: char) -> bool {
    c == ' ' || c == '\t' || c == '\n' || c == '\x0C' || c == '\r'
}

pub open spec fn is_ascii_digit(c: char) -> bool {
    '0' <= c && c <= '9'
}

pub open spec fn is_ascii_alnum(c: char) -> bool {
    is_ascii_digit(c) || ('a' <= c && c <= 'z') || ('A' <= c && c <= 'Z')
}

/// A character that continues a word (so a keyword must not be followed by it).
pub open spec fn is_word_char(c: char) -> bool {
    is_ascii_alnum(c) || c == '_'
}

/// Characters that end an anchor, alias, tag or plain scalar.
pub open spec fn is_flow_stop(c: char) -> bool {
    is_ascii_ws(c) || c == ',' || c == ':' || c == '#' || c == '[' || c == ']' || c == '{'
        || c == '}'
}

pub open spec fn is_key_start(c: char) -> bool {
    is_ascii_alnum(c) || c == '_' || c == '.'
}

pub open spec fn is_key_char(c: char) -> bool {
    is_key_start(c) || c == '-'
}

/// Block-scalar indicator modifiers after `|` or `>`.
pub open spec fn is_chomp(c: char) -> bool {
    c == '-' || c == '+' || ('1' <= c && c <= '9')
}

pub open spec fn is_flow_punct(c: char) -> bool {
    c == '{' || c == '}' || c == '[' || c == ']' || c == ',' || c == ':'
}

/// What a forward scan stops at.
#[derive(Clone, Copy)]
pub enum Stop {
    /// The first character that is not ASCII whitespace.
    NonSpace,
    /// The first flow stop (see `is_flow_stop`).
    FlowStop,
    /// The first character that is not a key character.
    NonKey,
    /// The first character that is not an ASCII digit.
    NonDigit,
    /// The first `'>'`.
    Angle,
    /// The first `'\n'`.
    Newline,
}

pub open spec fn stops_at(c: char, s: Stop) -> bool {
    match s {
        Stop::NonSpace => !is_ascii_ws(c),
        Stop::FlowStop => is_flow_stop(c),
        Stop::NonKey => !is_key_char(c),
        Stop::NonDigit => !is_ascii_digit(c),
        Stop::Angle => c == '>',
        Stop::Newline => c == '\n',
    }
}

/// The first index `j >= from` whose character stops the scan, or the length.
pub open spec fn first_stop(t: Seq<char>, from: int, s: Stop) -> int
    decreases t.len() - from,
{
    if from >= t.len() {
        t.len() as int
    } else if stops_at(t[from], s) {
        from
    } else {
        first_stop(t, from + 1, s)
    }
}

proof fn lemma_first_stop_bounds(t: Seq<char>, from: int, s: Stop)
    requires
        0 <= from <= t.len(),
    ensures
        from <= first_stop(t, from, s) <= t.len(),
        first_stop(t, from, s) < t.len() ==> stops_at(t[first_stop(t, from, s)], s),
        forall|k: int| from <= k < first_stop(t, from, s) ==> !stops_at(#[trigger] t[k], s),
    decreases t.len() - from,
{
    if from < t.len() && !stops_at(t[from], s) {
        lemma_first_stop_bounds(t, from + 1, s);
    }
}

// ---------------------------------------------------------------------------
// Token scanners.
// ---------------------------------------------------------------------------

/// End of a quoted scalar opened by `q`, scanning from `j`: just after the
/// closing quote, or the end of the line.  In double quotes a backslash
/// escapes the next character.
pub open spec fn quoted_end(t: Seq<char>, q: char, j: int) -> int
    decreases t.len() - j,
{
    if j >= t.len() {
        t.len() as int
    } else if t[j] == '\\' && q == '"' && j + 1 < t.len() {
        quoted_end(t, q, j + 2)
    } else if t[j] == q {
        j + 1
    } else {
        quoted_end(t, q, j + 1)
    }
}

/// End of a tag starting with `!` at `i`: a verbatim `!<...>` tag runs to the
/// closing `>`, any other tag to the next flow stop.
pub open spec fn tag_end(t: Seq<char>, i: int) -> int {
    if i + 1 < t.len() && t[i + 1] == '<' {
        let j = first_stop(t, i + 2, Stop::Angle);
        if j < t.len() {
            j + 1
        } else {
            j
        }
    } else {
        first_stop(t, i, Stop::FlowStop)
    }
}

/// End of a mapping key starting at `i` (the index of its `:`), if the text
/// at `i` is a key followed by `:` and then a space, a comment or the end.
pub open spec fn key_end(t: Seq<char>, i: int) -> Option<int> {
    if !is_key_start(t[i]) {
        None
    } else {
        let j = first_stop(t, i + 1, Stop::NonKey);
        if j >= t.len() || t[j] != ':' {
            None
        } else if j + 1 == t.len() || is_ascii_ws(t[j + 1]) || t[j + 1] == '#' {
            Some(j)
        } else {
            None
        }
    }
}

/// `w` occurs at `i` and is not followed by a word character.
pub open spec fn word_at(t: Seq<char>, i: int, w: Seq<char>) -> bool {
    &&& i + w.len() <= t.len()
    &&& t.subrange(i, i + w.len()) == w
    &&& (i + w.len() == t.len() || !is_word_char(t[i + w.len()]))
}

pub open spec fn bool_word_len(t: Seq<char>, i: int) -> Option<int> {
    if word_at(t, i, seq!['t', 'r', 'u', 'e']) {
        Some(4)
    } else if word_at(t, i, seq!['f', 'a', 'l', 's', 'e']) {
        Some(5)
    } else if word_at(t, i, seq!['T', 'r', 'u', 'e']) {
        Some(4)
    } else if word_at(t, i, seq!['F', 'a', 'l', 's', 'e']) {
        Some(5)
    } else if word_at(t, i, seq!['T', 'R', 'U', 'E']) {
        Some(4)
    } else if word_at(t, i, seq!['F', 'A', 'L', 'S', 'E']) {
        Some(5)
    } else {
        None
    }
}

pub open spec fn null_word_len(t: Seq<char>, i: int) -> Option<int> {
    if word_at(t, i, seq!['n', 'u', 'l', 'l']) {
        Some(4)
    } else if word_at(t, i, seq!['N', 'u', 'l', 'l']) {
        Some(4)
    } else if word_at(t, i, seq!['N', 'U', 'L', 'L']) {
        Some(4)
    } else if word_at(t, i, seq!['~']) {
        Some(1)
    } else {
        None
    }
}

/// End of the exponent part of a number whose mantissa ends at `f`, if any
/// exponent part that is present is well formed.
pub open spec fn exponent_end(t: Seq<char>, f: int) -> Option<int> {
    if f < t.len() && (t[f] == 'e' || t[f] == 'E') {
        let e0 = if f + 1 < t.len() && (t[f + 1] == '+' || t[f + 1] == '-') {
            f + 2
        } else {
            f + 1
        };
        let g = first_stop(t, e0, Stop::NonDigit);
        if g == e0 {
            None
        } else {
            Some(g)
        }
    } else {
        Some(f)
    }
}

/// End of the fraction part of a number whose integer digits end at `d`.
pub open spec fn fraction_end(t: Seq<char>, d: int) -> Option<int> {
    if d < t.len() && t[d] == '.' {
        let f = first_stop(t, d + 1, Stop::NonDigit);
        if f == d + 1 {
            None
        } else {
            Some(f)
        }
    } else {
        Some(d)
    }
}

/// End of a number at `i`: an optional sign, digits, an optional fraction and
/// an optional exponent, not followed by a word character.
pub open spec fn number_end(t: Seq<char>, i: int) -> Option<int> {
    let s0 = if i < t.len() && (t[i] == '+' || t[i] == '-') {
        i + 1
    } else {
        i
    };
    let d = first_stop(t, s0, Stop::NonDigit);
    if d == s0 {
        None
    } else {
        match fraction_end(t, d) {
            None => None,
            Some(f) => match exponent_end(t, f) {
                None => None,
                Some(g) => if g < t.len() && is_word_char(t[g]) {
                    None
                } else {
                    Some(g)
                },
            },
        }
    }
}

/// A boolean, null or numeric scalar at `i`, with its kind and end.
pub open spec fn scalar_at(t: Seq<char>, i: int) -> Option<(Kind, int)> {
    if bool_word_len(t, i) is Some {
        Some((Kind::Bool, i + bool_word_len(t, i)->0))
    } else if null_word_len(t, i) is Some {
        Some((Kind::Null, i + null_word_len(t, i)->0))
    } else if number_end(t, i) is Some {
        Some((Kind::Number, number_end(t, i)->0))
    } else {
        None
    }
}

/// The token that starts at index `i` of a line body: its kind (`None` for a
/// run of whitespace) and the index where it ends.
pub open spec fn flow_step(t: Seq<char>, i: int) -> (Option<Kind>, int) {
    let c = t[i];
    let n = t.len();
    if is_ascii_ws(c) {
        (None, first_stop(t, i, Stop::NonSpace))
    } else if c == '#' {
        (Some(Kind::Comment), n as int)
    } else if c == '"' || c == '\'' {
        (Some(Kind::String), quoted_end(t, c, i + 1))
    } else if c == '&' || c == '*' {
        (Some(Kind::Anchor), first_stop(t, i + 1, Stop::FlowStop))
    } else if c == '!' {
        (Some(Kind::Tag), tag_end(t, i))
    } else if (c == '|' || c == '>') && (i + 1 == n || is_ascii_ws(t[i + 1]) || is_chomp(t[i + 1])) {
        (Some(Kind::Punct), if i + 1 < n && is_chomp(t[i + 1]) { i + 2 } else { i + 1 })
    } else if c == '-' && (i + 1 == n || is_ascii_ws(t[i + 1])) {
        (Some(Kind::Punct), i + 1)
    } else if is_flow_punct(c) {
        (Some(Kind::Punct), i + 1)
    } else if key_end(t, i) is Some {
        (Some(Kind::Key), key_end(t, i)->0)
    } else {
        match scalar_at(t, i) {
            Some((k, e)) => (Some(k), e),
            None => (Some(Kind::String), first_stop(t, i + 1, Stop::FlowStop)),
        }
    }
}

/// A piece of output: an optional token kind and the text it covers.
pub type Segment = (Option<Kind>, Seq<char>);

/// The segments of a line body from index `i` on.
pub open spec fn flow_segments(t: Seq<char>, i: int) -> Seq<Segment>
    decreases t.len() - i,
{
    if 0 <= i < t.len() {
        let (k, e) = flow_step(t, i);
        if i < e <= t.len() {
            seq![(k, t.subrange(i, e))] + flow_segments(t, e)
        } else {
            seq![]
        }
    } else {
        seq![]
    }
}

/// Length of a line once its line break (`\r\n`, `\n`, or a final `\r`) is cut.
pub open spec fn body_len(line: Seq<char>) -> int {
    let n = line.len() as int;
    if n >= 2 && line[n - 2] == '\r' && line[n - 1] == '\n' {
        n - 2
    } else if n >= 1 && (line[n - 1] == '\n' || line[n - 1] == '\r') {
        n - 1
    } else {
        n
    }
}

/// `---` or `...` followed by whitespace or the end of the line.
pub open spec fn is_doc_marker(b: Seq<char>) -> bool {
    &&& b.len() >= 3
    &&& (b.take(3) == seq!['-', '-', '-'] || b.take(3) == seq!['.', '.', '.'])
    &&& (b.len() == 3 || is_ascii_ws(b[3]))
}

/// A `%YAML` or `%TAG` directive line.
pub open spec fn is_directive(b: Seq<char>) -> bool {
    (b.len() >= 5 && b.take(5) == seq!['%', 'Y', 'A', 'M', 'L']) || (b.len() >= 4 && b.take(4)
        == seq!['%', 'T', 'A', 'G'])
}

/// The segments of one line (which holds at most one `'\n'`, at its end).
/// Every line break is written as a single `'\n'`.
pub open spec fn line_segments(line: Seq<char>) -> Seq<Segment> {
    let b = line.take(body_len(line));
    let body = if is_doc_marker(b) {
        seq![(Some(Kind::Doc), b.take(3))] + flow_segments(b.skip(3), 0)
    } else if is_directive(b) {
        seq![(Some(Kind::Doc), b)]
    } else {
        flow_segments(b, 0)
    };
    if body_len(line) < line.len() {
        body + seq![(None, seq!['\n'])]
    } else {
        body
    }
}

/// Where the line that starts at `p` ends (just after its `'\n'`).
pub open spec fn line_end(s: Seq<char>, p: int) -> int {
    let j = first_stop(s, p, Stop::Newline);
    if j < s.len() {
        j + 1
    } else {
        j
    }
}

/// The segments of the source from index `p` on, line by line.
pub open spec fn source_segments(s: Seq<char>, p: int) -> Seq<Segment>
    decreases s.len() - p,
{
    if 0 <= p < s.len() {
        let e = line_end(s, p);
        if p < e <= s.len() {
            line_segments(s.subrange(p, e)) + source_segments(s, e)
        } else {
            seq![]
        }
    } else {
        seq![]
    }
}

// ---------------------------------------------------------------------------
// Rendering.
// ---------------------------------------------------------------------------

pub open spec fn escape_char(c: char) -> Seq<char> {
    if c == '&' {
        "&amp;"@
    } else if c == '<' {
        "&lt;"@
    } else if c == '>' {
        "&gt;"@
    } else if c == '"' {
        "&quot;"@
    } else {
        seq![c]
    }
}

/// HTML escaping of `&`, `<`, `>` and `"`.
pub open spec fn escape(t: Seq<char>) -> Seq<char>
    decreases t.len(),
{
    if t.len() == 0 {
        seq![]
    } else {
        escape(t.drop_last()) + escape_char(t.last())
    }
}

pub open spec fn render_segment(seg: Segment) -> Seq<char> {
    match seg.0 {
        None => escape(seg.1),
        Some(k) => "<span class=\""@ + kind_class(k) + "\">"@ + escape(seg.1) + "</span>"@,
    }
}

pub open spec fn render(segs: Seq<Segment>) -> Seq<char>
    decreases segs.len(),
{
    if segs.len() == 0 {
        seq![]
    } else {
        render_segment(segs[0]) + render(segs.drop_first())
    }
}

/// The highlighted HTML of a YAML source text.
pub open spec fn highlighted(s: Seq<char>) -> Seq<char> {
    render(source_segments(s, 0))
}

proof fn lemma_render_concat(a: Seq<Segment>, b: Seq<Segment>)
    ensures
        render(a + b) == render(a) + render(b),
    decreases a.len(),
{
    if a.len() == 0 {
        assert(a + b == b);
    } else {
        lemma_render_concat(a.drop_first(), b);
        assert((a + b).drop_first() == a.drop_first() + b);
        assert((a + b)[0] == a[0]);
    }
}

proof fn lemma_render_one(seg: Segment, rest: Seq<Segment>)
    ensures
        render(seq![seg] + rest) == render_segment(seg) + render(rest),
{
    assert((seq![seg] + rest).drop_first() == rest);
    assert((seq![seg] + rest)[0] == seg);
}

// ---------------------------------------------------------------------------
// Laws.
// ---------------------------------------------------------------------------

/// The text covered by a sequence of segments, in order.
pub open spec fn segment_texts(segs: Seq<Segment>) -> Seq<char>
    decreases segs.len(),
{
    if segs.len() == 0 {
        seq![]
    } else {
        segs[0].1 + segment_texts(segs.drop_first())
    }
}

/// The source with every `\r\n` written as `\n`, and a `\r` that ends the
/// source written as `\n`.
pub open spec fn normalize_newlines(s: Seq<char>) -> Seq<char>
    decreases s.len(),
{
    if s.len() == 0 {
        seq![]
    } else if s.len() >= 2 && s[0] == '\r' && s[1] == '\n' {
        seq!['\n'] + normalize_newlines(s.skip(2))
    } else if s.len() == 1 && s[0] == '\r' {
        seq!['\n']
    } else {
        seq![s[0]] + normalize_newlines(s.drop_first())
    }
}

/// Replaces each HTML entity that `escape` writes by the character it stands for.
pub open spec fn unescape(h: Seq<char>) -> Seq<char>
    decreases h.len(),
{
    if h.len() == 0 {
        seq![]
    } else if h.len() >= 5 && h.take(5) == "&amp;"@ {
        seq!['&'] + unescape(h.skip(5))
    } else if h.len() >= 4 && h.take(4) == "&lt;"@ {
        seq!['<'] + unescape(h.skip(4))
    } else if h.len() >= 4 && h.take(4) == "&gt;"@ {
        seq!['>'] + unescape(h.skip(4))
    } else if h.len() >= 6 && h.take(6) == "&quot;"@ {
        seq!['"'] + unescape(h.skip(6))
    } else {
        seq![h[0]] + unescape(h.drop_first())
    }
}

proof fn lemma_segment_texts_concat(a: Seq<Segment>, b: Seq<Segment>)
    ensures
        segment_texts(a + b) == segment_texts(a) + segment_texts(b),
    decreases a.len(),
{
    if a.len() == 0 {
        assert(a + b == b);
    } else {
        lemma_segment_texts_concat(a.drop_first(), b);
        assert((a + b).drop_first() == a.drop_first() + b);
        assert((a + b)[0] == a[0]);
    }
}

proof fn lemma_segment_texts_one(seg: Segment, rest: Seq<Segment>)
    ensures
        segment_texts(seq![seg] + rest) == seg.1 + segment_texts(rest),
{
    assert((seq![seg] + rest).drop_first() == rest);
    assert((seq![seg] + rest)[0] == seg);
}

proof fn lemma_quoted_end_bounds(t: Seq<char>, q: char, j: int)
    requires
        0 <= j <= t.len(),
    ensures
        j <= quoted_end(t, q, j) <= t.len(),
    decreases t.len() - j,
{
    if j < t.len() {
        if t[j] == '\\' && q == '"' && j + 1 < t.len() {
            lemma_quoted_end_bounds(t, q, j + 2);
        } else if t[j] != q {
            lemma_quoted_end_bounds(t, q, j + 1);
        }
    }
}

proof fn lemma_number_end_bounds(t: Seq<char>, i: int)
    requires
        0 <= i < t.len(),
    ensures
        number_end(t, i) matches Some(g) ==> i < g <= t.len(),
{
    let s0 = if i < t.len() && (t[i] == '+' || t[i] == '-') {
        i + 1
    } else {
        i
    };
    lemma_first_stop_bounds(t, s0, Stop::NonDigit);
    let d = first_stop(t, s0, Stop::NonDigit);
    if d < t.len() && t[d] == '.' {
        lemma_first_stop_bounds(t, d + 1, Stop::NonDigit);
    }
    if let Some(f) = fraction_end(t, d) {
        if f < t.len() && (t[f] == 'e' || t[f] == 'E') {
            let e0 = if f + 1 < t.len() && (t[f + 1] == '+' || t[f + 1] == '-') {
                f + 2
            } else {
                f + 1
            };
            lemma_first_stop_bounds(t, e0, Stop::NonDigit);
        }
    }
}

/// Every token is non-empty and stays within the line body.
proof fn lemma_flow_step_progress(t: Seq<char>, i: int)
    requires
        0 <= i < t.len(),
    ensures
        i < flow_step(t, i).1 <= t.len(),
{
    let c = t[i];
    let n = t.len();
    lemma_first_stop_bounds(t, i + 1, Stop::NonSpace);
    lemma_first_stop_bounds(t, i + 1, Stop::FlowStop);
    lemma_first_stop_bounds(t, i + 1, Stop::NonKey);
    lemma_quoted_end_bounds(t, c, i + 1);
    if i + 2 <= n {
        lemma_first_stop_bounds(t, i + 2, Stop::Angle);
    }
    lemma_number_end_bounds(t, i);
    assert(first_stop(t, i, Stop::NonSpace) == first_stop(t, i + 1, Stop::NonSpace) || !is_ascii_ws(c));
    assert(c == '!' ==> first_stop(t, i, Stop::FlowStop) == first_stop(t, i + 1, Stop::FlowStop));
    if bool_word_len(t, i) is Some || null_word_len(t, i) is Some {
        assert(seq!['t', 'r', 'u', 'e'].len() == 4);
        assert(seq!['f', 'a', 'l', 's', 'e'].len() == 5);
        assert(seq!['T', 'r', 'u', 'e'].len() == 4);
        assert(seq!['F', 'a', 'l', 's', 'e'].len() == 5);
        assert(seq!['T', 'R', 'U', 'E'].len() == 4);
        assert(seq!['F', 'A', 'L', 'S', 'E'].len() == 5);
        assert(seq!['n', 'u', 'l', 'l'].len() == 4);
        assert(seq!['N', 'u', 'l', 'l'].len() == 4);
        assert(seq!['N', 'U', 'L', 'L'].len() == 4);
        assert(seq!['~'].len() == 1);
    }
}

/// The flow segments of a line body from `i` on cover exactly `t[i..]`.
proof fn lemma_flow_segments_text(t: Seq<char>, i: int)
    requires
        0 <= i <= t.len(),
    ensures
        segment_texts(flow_segments(t, i)) == t.skip(i),
    decreases t.len() - i,
{
    if i < t.len() {
        lemma_flow_step_progress(t, i);
        let (k, e) = flow_step(t, i);
        lemma_flow_segments_text(t, e);
        lemma_segment_texts_one((k, t.subrange(i, e)), flow_segments(t, e));
        assert(t.subrange(i, e) + t.skip(e) == t.skip(i));
    } else {
        assert(t.skip(i) == Seq::<char>::empty());
    }
}

proof fn lemma_normalize_concat(a: Seq<char>, b: Seq<char>)
    requires
        a.len() > 0,
        a.last() == '\n',
    ensures
        normalize_newlines(a + b) == normalize_newlines(a) + normalize_newlines(b),
    decreases a.len(),
{
    let ab = a + b;
    assert(ab[0] == a[0]);
    if a.len() == 1 {
        assert(a[0] == '\n');
        assert(ab.drop_first() == b);
        assert(a.drop_first() == Seq::<char>::empty());
        assert(normalize_newlines(a) == seq!['\n'] + normalize_newlines(Seq::<char>::empty()));
        assert(normalize_newlines(a) == seq!['\n']);
        assert(normalize_newlines(ab) == seq!['\n'] + normalize_newlines(b));
    } else if a[0] == '\r' && a[1] == '\n' {
        assert(ab[1] == '\n');
        assert(ab.skip(2) == a.skip(2) + b);
        if a.len() == 2 {
            assert(a.skip(2) == Seq::<char>::empty());
            assert(a.skip(2) + b == b);
            assert(normalize_newlines(a) == seq!['\n'] + normalize_newlines(Seq::<char>::empty()));
        } else {
            lemma_normalize_concat(a.skip(2), b);
        }
        assert(normalize_newlines(ab) == seq!['\n'] + normalize_newlines(ab.skip(2)));
        assert(normalize_newlines(a) == seq!['\n'] + normalize_newlines(a.skip(2)));
    } else {
        assert(ab[1] == a[1]);
        assert(ab.drop_first() == a.drop_first() + b);
        lemma_normalize_concat(a.drop_first(), b);
        assert(normalize_newlines(ab) == seq![a[0]] + normalize_newlines(ab.drop_first()));
        assert(normalize_newlines(a) == seq![a[0]] + normalize_newlines(a.drop_first()));
        assert(seq![a[0]] + (normalize_newlines(a.drop_first()) + normalize_newlines(b)) == (seq![a[0]]
            + normalize_newlines(a.drop_first())) + normalize_newlines(b));
    }
}

/// Text without line feeds is unchanged, except for a final `\r`.
proof fn lemma_normalize_no_newline(t: Seq<char>)
    requires
        forall|k: int| 0 <= k < t.len() ==> t[k] != '\n',
    ensures
        normalize_newlines(t) == (if t.len() > 0 && t.last() == '\r' {
            t.drop_last().push('\n')
        } else {
            t
        }),
    decreases t.len(),
{
    if t.len() == 0 {
    } else if t.len() == 1 {
        if t[0] != '\r' {
            assert(t.drop_first() == Seq::<char>::empty());
            assert(normalize_newlines(t) == seq![t[0]] + normalize_newlines(t.drop_first()));
            assert(seq![t[0]] == t);
        } else {
            assert(normalize_newlines(t) == seq!['\n']);
            assert(t.drop_last().push('\n') == seq!['\n']);
        }
    } else {
        let r = t.drop_first();
        assert forall|k: int| 0 <= k < r.len() implies r[k] != '\n' by {
            assert(r[k] == t[k + 1]);
        }
        lemma_normalize_no_newline(r);
        assert(t[1] != '\n');
        assert(normalize_newlines(t) == seq![t[0]] + normalize_newlines(r));
        if t.last() == '\r' {
            assert(r.last() == '\r');
            assert(seq![t[0]] + r.drop_last().push('\n') == t.drop_last().push('\n'));
        } else {
            assert(r.last() == t.last());
            assert(seq![t[0]] + r == t);
        }
    }
}

/// Text without line feeds followed by one line feed: a `\r` before it is dropped.
proof fn lemma_normalize_line(t: Seq<char>)
    requires
        forall|k: int| 0 <= k < t.len() ==> t[k] != '\n',
    ensures
        normalize_newlines(t.push('\n')) == (if t.len() > 0 && t.last() == '\r' {
            t.drop_last().push('\n')
        } else {
            t.push('\n')
        }),
    decreases t.len(),
{
    let u = t.push('\n');
    if t.len() == 0 {
        assert(u.drop_first() == Seq::<char>::empty());
        assert(u[0] == '\n');
        assert(normalize_newlines(u) == seq![u[0]] + normalize_newlines(u.drop_first()));
        assert(seq!['\n'] == u);
    } else if t.len() == 1 && t[0] == '\r' {
        assert(u[0] == '\r' && u[1] == '\n');
        assert(u.skip(2) == Seq::<char>::empty());
        assert(normalize_newlines(u) == seq!['\n'] + normalize_newlines(u.skip(2)));
        assert(t.drop_last().push('\n') == seq!['\n']);
    } else {
        let r = t.drop_first();
        assert forall|k: int| 0 <= k < r.len() implies r[k] != '\n' by {
            assert(r[k] == t[k + 1]);
        }
        lemma_normalize_line(r);
        assert(u[0] == t[0]);
        assert(u.len() >= 2);
        assert(!(u[0] == '\r' && u[1] == '\n')) by {
            if t.len() == 1 {
                assert(t[0] != '\r');
            } else {
                assert(u[1] == t[1]);
            }
        }
        assert(u.drop_first() == r.push('\n'));
        assert(normalize_newlines(u) == seq![u[0]] + normalize_newlines(u.drop_first()));
        if t.last() == '\r' {
            assert(r.len() > 0 && r.last() == '\r');
            assert(seq![t[0]] + r.drop_last().push('\n') == t.drop_last().push('\n'));
        } else {
            if r.len() > 0 {
                assert(r.last() == t.last());
            }
            assert(seq![t[0]] + r.push('\n') == t.push('\n'));
        }
    }
}

/// The text of one line's segments is the line with its line break normalized.
proof fn lemma_line_segments_text(line: Seq<char>)
    requires
        forall|k: int| 0 <= k < line.len() - 1 ==> line[k] != '\n',
    ensures
        segment_texts(line_segments(line)) == normalize_newlines(line),
{
    let n = line.len() as int;
    let bl = body_len(line);
    let b = line.take(bl);
    let body = if is_doc_marker(b) {
        seq![(Some(Kind::Doc), b.take(3))] + flow_segments(b.skip(3), 0)
    } else if is_directive(b) {
        seq![(Some(Kind::Doc), b)]
    } else {
        flow_segments(b, 0)
    };
    if is_doc_marker(b) {
        lemma_segment_texts_one((Some(Kind::Doc), b.take(3)), flow_segments(b.skip(3), 0));
        lemma_flow_segments_text(b.skip(3), 0);
        assert(b.skip(3).skip(0) == b.skip(3));
        assert(b.take(3) + b.skip(3) == b);
    } else if is_directive(b) {
        lemma_segment_texts_one((Some(Kind::Doc), b), seq![]);
        assert(segment_texts(Seq::<Segment>::empty()) == Seq::<char>::empty());
        assert(b + Seq::<char>::empty() == b);
    } else {
        lemma_flow_segments_text(b, 0);
        assert(b.skip(0) == b);
    }
    assert(segment_texts(body) == b);
    if bl < n {
        lemma_segment_texts_concat(body, seq![(None, seq!['\n'])]);
        lemma_segment_texts_one((None, seq!['\n']), seq![]);
        assert(seq!['\n'] + Seq::<char>::empty() == seq!['\n']);
    }
    if n >= 1 && line[n - 1] == '\n' {
        let t = line.drop_last();
        assert forall|k: int| 0 <= k < t.len() implies t[k] != '\n' by {
            assert(t[k] == line[k]);
        }
        lemma_normalize_line(t);
        assert(t.push('\n') == line);
        if t.len() > 0 && t.last() == '\r' {
            assert(t.drop_last() == b);
        } else {
            assert(t == b);
        }
    } else {
        assert forall|k: int| 0 <= k < line.len() implies line[k] != '\n' by {}
        lemma_normalize_no_newline(line);
        if n >= 1 && line[n - 1] == '\r' {
            assert(line.drop_last() == b);
        } else {
            assert(line == b);
        }
    }
}

proof fn lemma_source_segments_text(s: Seq<char>, p: int)
    requires
        0 <= p <= s.len(),
    ensures
        segment_texts(source_segments(s, p)) == normalize_newlines(s.skip(p)),
    decreases s.len() - p,
{
    if p < s.len() {
        lemma_first_stop_bounds(s, p, Stop::Newline);
        let j = first_stop(s, p, Stop::Newline);
        let e = line_end(s, p);
        let line = s.subrange(p, e);
        assert forall|k: int| 0 <= k < line.len() - 1 implies line[k] != '\n' by {
            assert(line[k] == s[p + k]);
        }
        lemma_line_segments_text(line);
        lemma_source_segments_text(s, e);
        lemma_segment_texts_concat(line_segments(line), source_segments(s, e));
        assert(s.skip(p) == line + s.skip(e));
        if e < s.len() {
            assert(line.last() == '\n');
            lemma_normalize_concat(line, s.skip(e));
        } else {
            assert(s.skip(e) == Seq::<char>::empty());
            assert(line + s.skip(e) == line);
        }
    } else {
        assert(s.skip(p) == Seq::<char>::empty());
    }
}

/// Highlighting keeps the text: the texts of the segments, in order, are the
/// source itself, with `\r\n` (and a final `\r`) written as `\n`.
pub proof fn law_highlight_keeps_text(s: Seq<char>)
    ensures
        segment_texts(source_segments(s, 0)) == normalize_newlines(s),
        highlighted(s) == render(source_segments(s, 0)),
{
    lemma_source_segments_text(s, 0);
    assert(s.skip(0) == s);
}

proof fn lemma_first_stop_prefix(x: Seq<char>, y: Seq<char>, p: int, st: Stop)
    requires
        0 <= p <= x.len(),
        first_stop(x, p, st) < x.len(),
    ensures
        first_stop(x + y, p, st) == first_stop(x, p, st),
    decreases x.len() - p,
{
    assert((x + y)[p] == x[p]);
    if !stops_at(x[p], st) {
        lemma_first_stop_prefix(x, y, p + 1, st);
    }
}

proof fn lemma_first_stop_shift(x: Seq<char>, y: Seq<char>, q: int, st: Stop)
    requires
        0 <= q <= y.len(),
    ensures
        first_stop(x + y, x.len() + q, st) == x.len() + first_stop(y, q, st),
    decreases y.len() - q,
{
    if q < y.len() {
        assert((x + y)[x.len() + q] == y[q]);
        if !stops_at(y[q], st) {
            lemma_first_stop_shift(x, y, q + 1, st);
        }
    }
}

proof fn lemma_source_segments_shift(x: Seq<char>, y: Seq<char>, q: int)
    requires
        0 <= q <= y.len(),
    ensures
        source_segments(x + y, x.len() + q) == source_segments(y, q),
    decreases y.len() - q,
{
    if q < y.len() {
        lemma_first_stop_shift(x, y, q, Stop::Newline);
        lemma_first_stop_bounds(y, q, Stop::Newline);
        let e = line_end(y, q);
        assert(line_end(x + y, x.len() + q) == x.len() + e);
        assert((x + y).subrange(x.len() + q, x.len() + e) == y.subrange(q, e));
        lemma_source_segments_shift(x, y, e);
    }
}

proof fn lemma_source_segments_prefix(a: Seq<char>, b: Seq<char>, p: int)
    requires
        a.len() > 0,
        a.last() == '\n',
        0 <= p <= a.len(),
    ensures
        source_segments(a + b, p) == source_segments(a, p) + source_segments(a + b, a.len() as int),
    decreases a.len() - p,
{
    if p < a.len() {
        lemma_first_stop_bounds(a, p, Stop::Newline);
        if first_stop(a, p, Stop::Newline) == a.len() {
            assert(!stops_at(a[a.len() - 1], Stop::Newline));
        }
        lemma_first_stop_prefix(a, b, p, Stop::Newline);
        let e = line_end(a, p);
        assert(line_end(a + b, p) == e);
        assert((a + b).subrange(p, e) == a.subrange(p, e));
        lemma_source_segments_prefix(a, b, e);
        assert(line_segments(a.subrange(p, e)) + (source_segments(a, e) + source_segments(a + b, a.len() as int))
            == (line_segments(a.subrange(p, e)) + source_segments(a, e)) + source_segments(a + b, a.len() as int));
    } else {
        assert(source_segments(a, p) == Seq::<Segment>::empty());
        assert(Seq::<Segment>::empty() + source_segments(a + b, p) == source_segments(a + b, p));
    }
}

/// Lines are highlighted independently: the highlight of a text cut after a
/// line break is the highlight of the first part followed by that of the rest.
pub proof fn law_highlight_splits_at_lines(a: Seq<char>, b: Seq<char>)
    requires
        a.len() == 0 || a.last() == '\n',
    ensures
        highlighted(a + b) == highlighted(a) + highlighted(b),
        highlighted(Seq::<char>::empty()) == Seq::<char>::empty(),
{
    assert(source_segments(Seq::<char>::empty(), 0) == Seq::<Segment>::empty());
    assert(render(Seq::<Segment>::empty()) == Seq::<char>::empty());
    if a.len() == 0 {
        assert(a + b == b);
        assert(highlighted(a) == Seq::<char>::empty());
        assert(Seq::<char>::empty() + highlighted(b) == highlighted(b));
    } else {
        lemma_source_segments_prefix(a, b, 0);
        lemma_source_segments_shift(a, b, 0);
        assert(a.len() + 0 == a.len());
        lemma_render_concat(source_segments(a, 0), source_segments(b, 0));
    }
}

proof fn lemma_escape_concat(a: Seq<char>, b: Seq<char>)
    ensures
        escape(a + b) == escape(a) + escape(b),
    decreases b.len(),
{
    if b.len() == 0 {
        assert(a + b == a);
    } else {
        lemma_escape_concat(a, b.drop_last());
        assert((a + b).drop_last() == a + b.drop_last());
        assert((a + b).last() == b.last());
    }
}

proof fn lemma_escape_front(t: Seq<char>)
    requires
        t.len() > 0,
    ensures
        escape(t) == escape_char(t[0]) + escape(t.drop_first()),
{
    lemma_escape_concat(seq![t[0]], t.drop_first());
    assert(seq![t[0]] + t.drop_first() == t);
    assert(seq![t[0]].drop_last() == Seq::<char>::empty());
    assert(escape(seq![t[0]]) == escape(Seq::<char>::empty()) + escape_char(t[0]));
}

proof fn lemma_escape_char_clean(c: char)
    ensures
        forall|k: int| 0 <= k < escape_char(c).len() ==> escape_char(c)[k] != '<'
            && escape_char(c)[k] != '>' && escape_char(c)[k] != '"',
{
    reveal_strlit("&amp;");
    reveal_strlit("&lt;");
    reveal_strlit("&gt;");
    reveal_strlit("&quot;");
}

/// Escaping is undone by `unescape`, and escaped text holds no `<`, `>` or `"`.
pub proof fn law_escape_round_trip(t: Seq<char>)
    ensures
        unescape(escape(t)) == t,
        forall|k: int| 0 <= k < escape(t).len() ==> escape(t)[k] != '<' && escape(t)[k] != '>'
            && escape(t)[k] != '"',
    decreases t.len(),
{
    reveal_strlit("&amp;");
    reveal_strlit("&lt;");
    reveal_strlit("&gt;");
    reveal_strlit("&quot;");
    if t.len() > 0 {
        let c = t[0];
        let r = t.drop_first();
        lemma_escape_front(t);
        law_escape_round_trip(r);
        lemma_escape_char_clean(c);
        let e = escape_char(c);
        let h = e + escape(r);
        if c == '&' {
            assert(h.take(5) == "&amp;"@);
            assert(h.skip(5) == escape(r));
        } else if c == '<' {
            assert(h.take(5) != "&amp;"@ || h.len() < 5) by {
                if h.len() >= 5 {
                    assert(h.take(5)[1] == 'l');
                }
            }
            assert(h.take(4) == "&lt;"@);
            assert(h.skip(4) == escape(r));
        } else if c == '>' {
            assert(h.take(5) != "&amp;"@ || h.len() < 5) by {
                if h.len() >= 5 {
                    assert(h.take(5)[1] == 'g');
                }
            }
            assert(h.take(4) != "&lt;"@) by {
                assert(h.take(4)[1] == 'g');
            }
            assert(h.take(4) == "&gt;"@);
            assert(h.skip(4) == escape(r));
        } else if c == '"' {
            assert(h.take(5) != "&amp;"@) by {
                assert(h.take(5)[1] == 'q');
            }
            assert(h.take(4) != "&lt;"@) by {
                assert(h.take(4)[1] == 'q');
            }
            assert(h.take(4) != "&gt;"@) by {
                assert(h.take(4)[1] == 'q');
            }
            assert(h.take(6) == "&quot;"@);
            assert(h.skip(6) == escape(r));
        } else {
            assert(h[0] == c);
            assert(h.len() >= 5 ==> h.take(5)[0] == c);
            assert(h.len() >= 4 ==> h.take(4)[0] == c);
            assert(h.len() >= 6 ==> h.take(6)[0] == c);
            assert(h.drop_first() == escape(r));
        }
        assert(seq![c] + r == t);
        assert forall|k: int| 0 <= k < h.len() implies h[k] != '<' && h[k] != '>' && h[k] != '"' by {
            if k >= e.len() {
                assert(h[k] == escape(r)[k - e.len()]);
            }
        }
    }
}

/// The text that rendered HTML shows, read left to right: a tag (from `<`
/// through the next `>`) shows nothing, the entities that `escape` writes
/// show their character, and any other character shows itself.  `in_tag`
/// says whether the reading starts inside a tag.
pub open spec fn html_text(h: Seq<char>, in_tag: bool) -> Seq<char>
    decreases h.len(),
{
    if h.len() == 0 {
        seq![]
    } else if in_tag {
        html_text(h.drop_first(), h[0] != '>')
    } else if h[0] == '<' {
        html_text(h.drop_first(), true)
    } else if h.len() >= 5 && h.take(5) == "&amp;"@ {
        seq!['&'] + html_text(h.skip(5), false)
    } else if h.len() >= 4 && h.take(4) == "&lt;"@ {
        seq!['<'] + html_text(h.skip(4), false)
    } else if h.len() >= 4 && h.take(4) == "&gt;"@ {
        seq!['>'] + html_text(h.skip(4), false)
    } else if h.len() >= 6 && h.take(6) == "&quot;"@ {
        seq!['"'] + html_text(h.skip(6), false)
    } else {
        seq![h[0]] + html_text(h.drop_first(), false)
    }
}

proof fn lemma_html_text_escape(t: Seq<char>, r: Seq<char>)
    ensures
        html_text(escape(t) + r, false) == t + html_text(r, false),
    decreases t.len(),
{
    reveal_strlit("&amp;");
    reveal_strlit("&lt;");
    reveal_strlit("&gt;");
    reveal_strlit("&quot;");
    if t.len() == 0 {
        assert(escape(t) + r == r);
        assert(t + html_text(r, false) == html_text(r, false));
    } else {
        let c = t[0];
        let rest = t.drop_first();
        lemma_escape_front(t);
        lemma_html_text_escape(rest, r);
        let e = escape_char(c);
        let tail = escape(rest) + r;
        let h = e + tail;
        assert(escape(t) + r == h);
        if c == '&' {
            assert(h.take(5) == "&amp;"@);
            assert(h.skip(5) == tail);
        } else if c == '<' {
            assert(h.len() >= 5 ==> h.take(5)[1] == 'l');
            assert(h.take(4) == "&lt;"@);
            assert(h.skip(4) == tail);
        } else if c == '>' {
            assert(h.len() >= 5 ==> h.take(5)[1] == 'g');
            assert(h.take(4)[1] == 'g');
            assert(h.take(4) == "&gt;"@);
            assert(h.skip(4) == tail);
        } else if c == '"' {
            assert(h.take(5)[1] == 'q');
            assert(h.take(4)[1] == 'q');
            assert(h.take(6) == "&quot;"@);
            assert(h.skip(6) == tail);
        } else {
            assert(h[0] == c);
            assert(h.len() >= 5 ==> h.take(5)[0] == c);
            assert(h.len() >= 4 ==> h.take(4)[0] == c);
            assert(h.len() >= 6 ==> h.take(6)[0] == c);
            assert(h.drop_first() == tail);
        }
        assert(seq![c] + rest == t);
        assert(seq![c] + (rest + html_text(r, false)) == t + html_text(r, false));
    }
}

proof fn lemma_html_text_in_tag(y: Seq<char>, r: Seq<char>)
    requires
        y.len() > 0,
        y.last() == '>',
        forall|k: int| 0 <= k < y.len() - 1 ==> y[k] != '>',
    ensures
        html_text(y + r, true) == html_text(r, false),
    decreases y.len(),
{
    let h = y + r;
    assert(h[0] == y[0]);
    if y.len() == 1 {
        assert(h.drop_first() == r);
    } else {
        let z = y.drop_first();
        assert(h.drop_first() == z + r);
        assert(y[0] != '>');
        assert forall|k: int| 0 <= k < z.len() - 1 implies z[k] != '>' by {
            assert(z[k] == y[k + 1]);
        }
        lemma_html_text_in_tag(z, r);
    }
}

/// A tag followed by more HTML shows what the rest shows.
proof fn lemma_html_text_tag(x: Seq<char>, r: Seq<char>)
    requires
        x.len() >= 2,
        x[0] == '<',
        x.last() == '>',
        forall|k: int| 0 <= k < x.len() - 1 ==> x[k] != '>',
    ensures
        html_text(x + r, false) == html_text(r, false),
{
    let h = x + r;
    let y = x.drop_first();
    assert(h[0] == '<');
    assert(h.drop_first() == y + r);
    assert forall|k: int| 0 <= k < y.len() - 1 implies y[k] != '>' by {
        assert(y[k] == x[k + 1]);
    }
    lemma_html_text_in_tag(y, r);
}

proof fn lemma_kind_class_plain(k: Kind)
    ensures
        forall|i: int| 0 <= i < kind_class(k).len() ==> kind_class(k)[i] != '>',
{
    reveal_strlit("yaml-comment");
    reveal_strlit("yaml-key");
    reveal_strlit("yaml-string");
    reveal_strlit("yaml-number");
    reveal_strlit("yaml-bool");
    reveal_strlit("yaml-null");
    reveal_strlit("yaml-punct");
    reveal_strlit("yaml-doc");
    reveal_strlit("yaml-anchor");
    reveal_strlit("yaml-tag");
}

proof fn lemma_html_text_render(segs: Seq<Segment>)
    ensures
        html_text(render(segs), false) == segment_texts(segs),
    decreases segs.len(),
{
    if segs.len() > 0 {
        let seg = segs[0];
        let rest = segs.drop_first();
        let tail = render(rest);
        lemma_html_text_render(rest);
        match seg.0 {
            None => {
                lemma_html_text_escape(seg.1, tail);
            },
            Some(k) => {
                reveal_strlit("<span class=\"");
                reveal_strlit("\">");
                reveal_strlit("</span>");
                lemma_kind_class_plain(k);
                let open = "<span class=\""@ + kind_class(k) + "\">"@;
                let close = "</span>"@;
                assert forall|i: int| 0 <= i < open.len() - 1 implies open[i] != '>' by {
                    if i >= 13 && i < 13 + kind_class(k).len() {
                        assert(open[i] == kind_class(k)[i - 13]);
                    }
                }
                assert forall|i: int| 0 <= i < close.len() - 1 implies close[i] != '>' by {}
                assert(render_segment(seg) + tail == open + (escape(seg.1) + (close + tail)));
                lemma_html_text_tag(open, escape(seg.1) + (close + tail));
                lemma_html_text_escape(seg.1, close + tail);
                lemma_html_text_tag(close, tail);
            },
        }
        assert(render(segs) == render_segment(seg) + tail);
        assert(segment_texts(segs) == seg.1 + segment_texts(rest));
    }
}

/// The highlighted HTML shows exactly the source: with the tags taken out
/// and the entities decoded, it is the source with `\r\n` (and a final `\r`)
/// written as `\n`; nothing is dropped, repeated or moved.
pub proof fn law_highlight_shows_the_source(s: Seq<char>)
    ensures
        html_text(highlighted(s), false) == normalize_newlines(s),
{
    law_highlight_keeps_text(s);
    lemma_html_text_render(source_segments(s, 0));
}

/// The six spellings of a YAML boolean.
pub open spec fn is_bool_spelling(w: Seq<char>) -> bool {
    w == seq!['t', 'r', 'u', 'e'] || w == seq!['f', 'a', 'l', 's', 'e'] || w == seq!['T', 'r', 'u', 'e']
        || w == seq!['F', 'a', 'l', 's', 'e'] || w == seq!['T', 'R', 'U', 'E'] || w == seq![
        'F',
        'A',
        'L',
        'S',
        'E',
    ]
}

/// A boolean spelling that stands as a word at the start of a token (and is
/// not a mapping key) is one boolean token, rendered in a `yaml-bool` span.
pub proof fn law_booleans_are_highlighted(t: Seq<char>, i: int, w: Seq<char>)
    requires
        0 <= i < t.len(),
        is_bool_spelling(w),
        word_at(t, i, w),
        key_end(t, i) is None,
    ensures
        flow_step(t, i) == (Some(Kind::Bool), i + w.len()),
        render_segment((Some(Kind::Bool), t.subrange(i, i + w.len()))) == "<span class=\""@ + "yaml-bool"@
            + "\">"@ + w + "</span>"@,
{
    let u = t.subrange(i, i + w.len());
    assert(u == w);
    assert(t[i] == u[0]);
    assert(u[0] == w[0]);
    let s4 = t.subrange(i, i + 4);
    if w.len() == 5 {
        assert(s4 == w.take(4));
        assert(s4[1] == w[1]);
        assert(s4[0] == w[0]);
    } else {
        assert(s4 == w);
    }
    if w.len() == 4 && i + 5 <= t.len() {
        let s5 = t.subrange(i, i + 5);
        assert(s5[0] == w[0]);
        assert(s5[1] == w[1]);
    }
    lemma_escape_plain(w);
}

proof fn lemma_escape_plain(w: Seq<char>)
    requires
        forall|k: int| 0 <= k < w.len() ==> w[k] != '&' && w[k] != '<' && w[k] != '>' && w[k] != '"',
    ensures
        escape(w) == w,
    decreases w.len(),
{
    if w.len() > 0 {
        lemma_escape_plain(w.drop_last());
        assert(w.drop_last().push(w.last()) == w);
    }
}

// ---------------------------------------------------------------------------
// Executable highlighter.
// ---------------------------------------------------------------------------

/// The highlighted HTML of `source`.
pub fn html(source: &str) -> (out: String)
    ensures
        out@ == highlighted(source@),
{
    let s = chars_of(source);
    let n = s.len();
    let mut out = String::new();
    let mut p: usize = 0;
    while p < n
        invariant
            n == s@.len(),
            p <= n,
            s@ == source@,
            out@ + render(source_segments(s@, p as int)) == highlighted(s@),
        decreases n - p,
    {
        let j = scan(&s, p, Stop::Newline);
        let e = if j < n {
            j + 1
        } else {
            j
        };
        assert(e == line_end(s@, p as int));
        let line = copy_range(&s, p, e);
        let ghost before = out@;
        highlight_line(&line, &mut out);
        proof {
            lemma_render_concat(line_segments(s@.subrange(p as int, e as int)), source_segments(s@, e as int));
        }
        p = e;
    }
    proof {
        assert(render(source_segments(s@, p as int)) == Seq::<char>::empty());
        assert(out@ + Seq::<char>::empty() == out@);
    }
    out
}

/// A fresh vector holding `v[lo..hi]`.
fn copy_range(v: &Vec<char>, lo: usize, hi: usize) -> (r: Vec<char>)
    requires
        lo <= hi <= v.len(),
    ensures
        r@ == v@.subrange(lo as int, hi as int),
{
    let mut r: Vec<char> = Vec::new();
    let mut k = lo;
    while k < hi
        invariant
            lo <= k <= hi <= v.len(),
            r@ == v@.subrange(lo as int, k as int),
        decreases hi - k,
    {
        r.push(v[k]);
        assert(v@.subrange(lo as int, k + 1) == v@.subrange(lo as int, k as int).push(v@[k as int]));
        k = k + 1;
    }
    r
}

fn is_ascii_ws_exec(c: char) -> (r: bool)
    ensures
        r == is_ascii_ws(c),
{
    c == ' ' || c == '\t' || c == '\n' || c == '\x0C' || c == '\r'
}

fn is_ascii_digit_exec(c: char) -> (r: bool)
    ensures
        r == is_ascii_digit(c),
{
    '0' <= c && c <= '9'
}

fn is_ascii_alnum_exec(c: char) -> (r: bool)
    ensures
        r == is_ascii_alnum(c),
{
    ('0' <= c && c <= '9') || ('a' <= c && c <= 'z') || ('A' <= c && c <= 'Z')
}

fn is_word_char_exec(c: char) -> (r: bool)
    ensures
        r == is_word_char(c),
{
    is_ascii_alnum_exec(c) || c == '_'
}

fn is_chomp_exec(c: char) -> (r: bool)
    ensures
        r == is_chomp(c),
{
    c == '-' || c == '+' || ('1' <= c && c <= '9')
}

fn stops_at_exec(c: char, s: Stop) -> (r: bool)
    ensures
        r == stops_at(c, s),
{
    match s {
        Stop::NonSpace => !is_ascii_ws_exec(c),
        Stop::FlowStop => is_ascii_ws_exec(c) || c == ',' || c == ':' || c == '#' || c == '['
            || c == ']' || c == '{' || c == '}',
        Stop::NonKey => !(is_ascii_alnum_exec(c) || c == '_' || c == '.' || c == '-'),
        Stop::NonDigit => !is_ascii_digit_exec(c),
        Stop::Angle => c == '>',
        Stop::Newline => c == '\n',
    }
}

/// The first index `j >= from` whose character stops the scan, or the length.
fn scan(t: &Vec<char>, from: usize, s: Stop) -> (r: usize)
    requires
        from <= t.len(),
    ensures
        r == first_stop(t@, from as int, s),
        from <= r <= t.len(),
        r < t.len() ==> stops_at(t@[r as int], s),
{
    let mut i = from;
    while i < t.len() && !stops_at_exec(t[i], s)
        invariant
            from <= i <= t.len(),
            first_stop(t@, from as int, s) == first_stop(t@, i as int, s),
        decreases t.len() - i,
    {
        i = i + 1;
    }
    i
}

fn scan_quoted(t: &Vec<char>, start: usize) -> (r: usize)
    requires
        start < t.len(),
    ensures
        r == quoted_end(t@, t@[start as int], start + 1),
        start < r <= t.len(),
{
    let q = t[start];
    let mut i = start + 1;
    while i < t.len()
        invariant
            start < i <= t.len() + 1,
            i <= t.len() || quoted_end(t@, q, i as int) == t.len(),
            q == t@[start as int],
            quoted_end(t@, q, start + 1) == quoted_end(t@, q, i as int),
        decreases t.len() + 1 - i,
    {
        if t[i] == '\\' && q == '"' && i + 1 < t.len() {
            i = i + 2;
            continue;
        }
        if t[i] == q {
            return i + 1;
        }
        i = i + 1;
    }
    t.len()
}

fn scan_tag(t: &Vec<char>, start: usize) -> (r: usize)
    requires
        start < t.len(),
        t@[start as int] == '!',
    ensures
        r == tag_end(t@, start as int),
        start < r <= t.len(),
{
    if start + 1 < t.len() && t[start + 1] == '<' {
        let j = scan(t, start + 2, Stop::Angle);
        if j < t.len() {
            j + 1
        } else {
            j
        }
    } else {
        scan(t, start, Stop::FlowStop)
    }
}

fn scan_key(t: &Vec<char>, start: usize) -> (r: Option<usize>)
    requires
        start < t.len(),
    ensures
        match r {
            Some(e) => key_end(t@, start as int) == Some(e as int) && start < e < t.len(),
            None => key_end(t@, start as int) is None,
        },
{
    let c = t[start];
    if !(is_ascii_alnum_exec(c) || c == '_' || c == '.') {
        return None;
    }
    let i = scan(t, start + 1, Stop::NonKey);
    if i >= t.len() || t[i] != ':' {
        return None;
    }
    let after = i + 1;
    if after == t.len() || is_ascii_ws_exec(t[after]) || t[after] == '#' {
        Some(i)
    } else {
        None
    }
}

/// Whether the word `w` occurs at `i` and is not followed by a word character.
fn word_at_exec(t: &Vec<char>, i: usize, w: &[char]) -> (r: bool)
    requires
        i <= t.len(),
    ensures
        r == word_at(t@, i as int, w@),
{
    if w.len() > t.len() - i {
        return false;
    }
    let mut k: usize = 0;
    while k < w.len()
        invariant
            k <= w.len(),
            i + w.len() <= t.len(),
            t@.subrange(i as int, i + k) == w@.take(k as int),
        decreases w.len() - k,
    {
        if t[i + k] != w[k] {
            assert(t@.subrange(i as int, i + w.len())[k as int] != w@[k as int]);
            return false;
        }
        assert(t@.subrange(i as int, i + k + 1) == t@.subrange(i as int, i + k).push(t@[i + k]));
        assert(w@.take(k + 1) == w@.take(k as int).push(w@[k as int]));
        k = k + 1;
    }
    assert(w@.take(w.len() as int) == w@);
    let end = i + w.len();
    end == t.len() || !is_word_char_exec(t[end])
}

fn bool_word_len_exec(t: &Vec<char>, i: usize) -> (r: Option<usize>)
    requires
        i <= t.len(),
    ensures
        match r {
            Some(l) => bool_word_len(t@, i as int) == Some(l as int) && 1 <= l <= 5,
            None => bool_word_len(t@, i as int) is None,
        },
{
    let w1 = ['t', 'r', 'u', 'e'];
    let w2 = ['f', 'a', 'l', 's', 'e'];
    let w3 = ['T', 'r', 'u', 'e'];
    let w4 = ['F', 'a', 'l', 's', 'e'];
    let w5 = ['T', 'R', 'U', 'E'];
    let w6 = ['F', 'A', 'L', 'S', 'E'];
    assert(w1@ == seq!['t', 'r', 'u', 'e']);
    assert(w2@ == seq!['f', 'a', 'l', 's', 'e']);
    assert(w3@ == seq!['T', 'r', 'u', 'e']);
    assert(w4@ == seq!['F', 'a', 'l', 's', 'e']);
    assert(w5@ == seq!['T', 'R', 'U', 'E']);
    assert(w6@ == seq!['F', 'A', 'L', 'S', 'E']);
    if word_at_exec(t, i, &w1) {
        Some(4)
    } else if word_at_exec(t, i, &w2) {
        Some(5)
    } else if word_at_exec(t, i, &w3) {
        Some(4)
    } else if word_at_exec(t, i, &w4) {
        Some(5)
    } else if word_at_exec(t, i, &w5) {
        Some(4)
    } else if word_at_exec(t, i, &w6) {
        Some(5)
    } else {
        None
    }
}

fn null_word_len_exec(t: &Vec<char>, i: usize) -> (r: Option<usize>)
    requires
        i <= t.len(),
    ensures
        match r {
            Some(l) => null_word_len(t@, i as int) == Some(l as int) && 1 <= l <= 5,
            None => null_word_len(t@, i as int) is None,
        },
{
    let w1 = ['n', 'u', 'l', 'l'];
    let w2 = ['N', 'u', 'l', 'l'];
    let w3 = ['N', 'U', 'L', 'L'];
    let w4 = ['~'];
    assert(w1@ == seq!['n', 'u', 'l', 'l']);
    assert(w2@ == seq!['N', 'u', 'l', 'l']);
    assert(w3@ == seq!['N', 'U', 'L', 'L']);
    assert(w4@ == seq!['~']);
    if word_at_exec(t, i, &w1) {
        Some(4)
    } else if word_at_exec(t, i, &w2) {
        Some(4)
    } else if word_at_exec(t, i, &w3) {
        Some(4)
    } else if word_at_exec(t, i, &w4) {
        Some(1)
    } else {
        None
    }
}

fn scan_number(t: &Vec<char>, i: usize) -> (r: Option<usize>)
    requires
        i <= t.len(),
    ensures
        match r {
            Some(e) => number_end(t@, i as int) == Some(e as int) && i < e <= t.len(),
            None => number_end(t@, i as int) is None,
        },
{
    let n = t.len();
    let s0 = if i < n && (t[i] == '+' || t[i] == '-') {
        i + 1
    } else {
        i
    };
    let d = scan(t, s0, Stop::NonDigit);
    if d == s0 {
        return None;
    }
    let f = if d < n && t[d] == '.' {
        let f = scan(t, d + 1, Stop::NonDigit);
        if f == d + 1 {
            return None;
        }
        f
    } else {
        d
    };
    assert(fraction_end(t@, d as int) == Some(f as int));
    let g = if f < n && (t[f] == 'e' || t[f] == 'E') {
        let e0 = if f + 1 < n && (t[f + 1] == '+' || t[f + 1] == '-') {
            f + 2
        } else {
            f + 1
        };
        let g = scan(t, e0, Stop::NonDigit);
        if g == e0 {
            return None;
        }
        g
    } else {
        f
    };
    assert(exponent_end(t@, f as int) == Some(g as int));
    if g < n && is_word_char_exec(t[g]) {
        return None;
    }
    Some(g)
}

fn scan_scalar(t: &Vec<char>, i: usize) -> (r: Option<(Kind, usize)>)
    requires
        i < t.len(),
    ensures
        match r {
            Some((k, e)) => scalar_at(t@, i as int) == Some((k, e as int)) && i < e <= t.len(),
            None => scalar_at(t@, i as int) is None,
        },
{
    if let Some(l) = bool_word_len_exec(t, i) {
        return Some((Kind::Bool, i + l));
    }
    if let Some(l) = null_word_len_exec(t, i) {
        return Some((Kind::Null, i + l));
    }
    if let Some(e) = scan_number(t, i) {
        return Some((Kind::Number, e));
    }
    None
}

/// The token that starts at `i`: its kind and where it ends.
fn flow_step_exec(t: &Vec<char>, i: usize) -> (r: (Option<Kind>, usize))
    requires
        i < t.len(),
    ensures
        r.0 == flow_step(t@, i as int).0,
        r.1 == flow_step(t@, i as int).1,
        i < r.1 <= t.len(),
{
    let n = t.len();
    let c = t[i];
    if is_ascii_ws_exec(c) {
        return (None, scan(t, i, Stop::NonSpace));
    }
    if c == '#' {
        return (Some(Kind::Comment), n);
    }
    if c == '"' || c == '\'' {
        return (Some(Kind::String), scan_quoted(t, i));
    }
    if c == '&' || c == '*' {
        return (Some(Kind::Anchor), scan(t, i + 1, Stop::FlowStop));
    }
    if c == '!' {
        let e = scan_tag(t, i);
        return (Some(Kind::Tag), e);
    }
    if (c == '|' || c == '>') && (i + 1 == n || is_ascii_ws_exec(t[i + 1]) || is_chomp_exec(
        t[i + 1],
    )) {
        let mut end = i + 1;
        if end < n && is_chomp_exec(t[end]) {
            end = end + 1;
        }
        return (Some(Kind::Punct), end);
    }
    if c == '-' && (i + 1 == n || is_ascii_ws_exec(t[i + 1])) {
        return (Some(Kind::Punct), i + 1);
    }
    if c == '{' || c == '}' || c == '[' || c == ']' || c == ',' || c == ':' {
        return (Some(Kind::Punct), i + 1);
    }
    if let Some(end) = scan_key(t, i) {
        return (Some(Kind::Key), end);
    }
    if let Some((kind, end)) = scan_scalar(t, i) {
        return (Some(kind), end);
    }
    (Some(Kind::String), scan(t, i + 1, Stop::FlowStop))
}

fn push_str(out: &mut String, s: &str)
    ensures
        final(out)@ == old(out)@ + s@,
{
    out.append(s);
}

/// Appends the escaped text of `t[lo..hi]`.
fn escape_into(out: &mut String, t: &Vec<char>, lo: usize, hi: usize)
    requires
        lo <= hi <= t.len(),
    ensures
        final(out)@ == old(out)@ + escape(t@.subrange(lo as int, hi as int)),
{
    let mut k = lo;
    while k < hi
        invariant
            lo <= k <= hi <= t.len(),
            out@ == old(out)@ + escape(t@.subrange(lo as int, k as int)),
        decreases hi - k,
    {
        let c = t[k];
        proof {
            let prefix = t@.subrange(lo as int, k + 1);
            assert(prefix.drop_last() == t@.subrange(lo as int, k as int));
            assert(prefix.last() == c);
        }
        if c == '&' {
            push_str(out, "&amp;");
        } else if c == '<' {
            push_str(out, "&lt;");
        } else if c == '>' {
            push_str(out, "&gt;");
        } else if c == '"' {
            push_str(out, "&quot;");
        } else {
            push_char(out, c);
        }
        k = k + 1;
    }
}

/// Appends the rendering of the segment `(kind, t[lo..hi])`.
fn push_segment(out: &mut String, kind: Option<Kind>, t: &Vec<char>, lo: usize, hi: usize)
    requires
        lo <= hi <= t.len(),
    ensures
        final(out)@ == old(out)@ + render_segment((kind, t@.subrange(lo as int, hi as int))),
{
    match kind {
        None => escape_into(out, t, lo, hi),
        Some(k) => {
            push_str(out, "<span class=\"");
            push_str(out, k.class());
            push_str(out, "\">");
            escape_into(out, t, lo, hi);
            push_str(out, "</span>");
        },
    }
}

/// Appends the rendering of the segments of the line body `t`.
fn tokenize_flow(t: &Vec<char>, out: &mut String)
    ensures
        final(out)@ == old(out)@ + render(flow_segments(t@, 0)),
{
    let n = t.len();
    let mut i: usize = 0;
    while i < n
        invariant
            n == t.len(),
            i <= n,
            old(out)@ + render(flow_segments(t@, 0)) == out@ + render(flow_segments(t@, i as int)),
        decreases n - i,
    {
        let (kind, end) = flow_step_exec(t, i);
        proof {
            lemma_render_one((kind, t@.subrange(i as int, end as int)), flow_segments(t@, end as int));
        }
        push_segment(out, kind, t, i, end);
        i = end;
    }
}

/// Appends the rendering of one line.
#[verifier::rlimit(50)]
#[verifier::spinoff_prover]
fn highlight_line(line: &Vec<char>, out: &mut String)
    ensures
        final(out)@ == old(out)@ + render(line_segments(line@)),
{
    let n = line.len();
    let blen = if n >= 2 && line[n - 2] == '\r' && line[n - 1] == '\n' {
        n - 2
    } else if n >= 1 && (line[n - 1] == '\n' || line[n - 1] == '\r') {
        n - 1
    } else {
        n
    };
    assert(blen == body_len(line@));
    let body = copy_range(line, 0, blen);
    assert(body@ == line@.take(blen as int));
    let ghost b = body@;
    let marker = blen >= 3 && ((body[0] == '-' && body[1] == '-' && body[2] == '-') || (body[0]
        == '.' && body[1] == '.' && body[2] == '.')) && (blen == 3 || is_ascii_ws_exec(body[3]));
    proof {
        if blen >= 3 {
            assert(b.take(3) == seq![b[0], b[1], b[2]]);
        }
        assert(marker == is_doc_marker(b));
    }
    let directive = (blen >= 5 && body[0] == '%' && body[1] == 'Y' && body[2] == 'A' && body[3]
        == 'M' && body[4] == 'L') || (blen >= 4 && body[0] == '%' && body[1] == 'T' && body[2]
        == 'A' && body[3] == 'G');
    proof {
        if blen >= 5 {
            assert(b.take(5) == seq![b[0], b[1], b[2], b[3], b[4]]);
        }
        if blen >= 4 {
            assert(b.take(4) == seq![b[0], b[1], b[2], b[3]]);
        }
        assert(directive == is_directive(b));
    }
    let ghost body_segs = if is_doc_marker(b) {
        seq![(Some(Kind::Doc), b.take(3))] + flow_segments(b.skip(3), 0)
    } else if is_directive(b) {
        seq![(Some(Kind::Doc), b)]
    } else {
        flow_segments(b, 0)
    };
    let ghost start = out@;
    if marker {
        push_segment(out, Some(Kind::Doc), &body, 0, 3);
        let rest = copy_range(&body, 3, blen);
        assert(rest@ == b.skip(3));
        tokenize_flow(&rest, out);
        proof {
            lemma_render_one((Some(Kind::Doc), b.take(3)), flow_segments(b.skip(3), 0));
            assert(b.subrange(0, 3) == b.take(3));
        }
    } else if directive {
        push_segment(out, Some(Kind::Doc), &body, 0, blen);
        proof {
            lemma_render_one((Some(Kind::Doc), b), seq![]);
            assert(b.subrange(0, blen as int) == b);
        }
    } else {
        tokenize_flow(&body, out);
    }
    assert(out@ == start + render(body_segs));
    if blen < n {
        push_char(out, '\n');
        proof {
            lemma_render_concat(body_segs, seq![(None, seq!['\n'])]);
            lemma_render_one((None, seq!['\n']), seq![]);
            let nl = seq!['\n'];
            assert(nl.drop_last().len() == 0);
            assert(escape(nl.drop_last()) == Seq::<char>::empty());
            assert(escape(nl) == seq!['\n']);
        }
    }
}

} // verus!
