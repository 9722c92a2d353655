//! Character-level text helpers shared by the parsers and exporters.
//!
//! Text is reasoned about as `Seq<char>` (the view of `String` / `&str`);
//! executable code works on `Vec<char>` buffers and `String` builders.

use vstd::prelude::*;
use vstd::string::*;

verus! {

// ---------------------------------------------------------------------------
// Character classes
// ---------------------------------------------------------------------------

/// The Unicode `White_Space` characters, which `char::is_whitespace`
/// accepts: tab through carriage return, space, next line, no-break space,
/// ogham space mark, the en quad through hair space, line and paragraph
/// separators, narrow no-break space, medium mathematical space and
/// ideographic space.
pub open spec fn char_is_whitespace(c: char) -> bool {
    let u = c as u32;
    ||| 0x09 <= u <= 0x0D
    ||| u == 0x20
    ||| u == 0x85
    ||| u == 0xA0
    ||| u == 0x1680
    ||| 0x2000 <= u <= 0x200A
    ||| u == 0x2028
    ||| u == 0x2029
    ||| u == 0x202F
    ||| u == 0x205F
    ||| u == 0x3000
}

/// Unicode alphabetic-or-numeric, as decided by `char::is_alphanumeric`.
pub uninterp spec fn char_is_alphanumeric(c: char) -> bool;

pub open spec fn is_ascii_digit(c: char) -> bool {
    '0' <= c && c <= '9'
}

pub open spec fn is_ascii_alnum(c: char) -> bool {
    ('0' <= c && c <= '9') || ('a' <= c && c <= 'z') || ('A' <= c && c <= 'Z')
}

/// Whether `c` is whitespace, as `char::is_whitespace` decides: whether it
/// has the Unicode `White_Space` property (see [`char_is_whitespace`]).
pub(crate) fn is_whitespace(c: char) -> (r: bool)
    ensures
        r == char_is_whitespace(c),
{
    let u = c as u32;
    (0x09 <= u && u <= 0x0D) || u == 0x20 || u == 0x85 || u == 0xA0 || u == 0x1680 || (0x2000 <= u
        && u <= 0x200A) || u == 0x2028 || u == 0x2029 || u == 0x202F || u == 0x205F || u == 0x3000
}

/// Whether `c` is alphanumeric (`char::is_alphanumeric`). For ASCII input the
/// answer is `[0-9A-Za-z]`.
#[verifier::external_body]
pub(crate) fn is_alphanumeric(c: char) -> (r: bool)
    ensures
        r == char_is_alphanumeric(c),
        (c as u32) < 128 ==> (r <==> is_ascii_alnum(c)),
{
    c.is_alphanumeric()
}

/// ASCII lower-casing of one character (`char::to_ascii_lowercase`).
pub open spec fn lower_char_spec(c: char) -> char {
    if 'A' <= c && c <= 'Z' {
        ((c as u32) + 32) as char
    } else {
        c
    }
}

pub fn lower_char(c: char) -> (r: char)
    ensures
        r == lower_char_spec(c),
{
    if 'A' <= c && c <= 'Z' {
        let u: u32 = (c as u32) + 32;
        assert(0x61 <= u <= 0x7a);
        char_from_ascii(u)
    } else {
        c
    }
}

/// The character with ASCII code `u` (`char::from_u32` on an ASCII value).
#[verifier::external_body]
pub(crate) fn char_from_ascii(u: u32) -> (c: char)
    requires
        u < 128,
    ensures
        c == u as char,
        c as u32 == u,
{
    char::from_u32(u).unwrap()
}

/// ASCII lower-casing of a character sequence (`str::to_ascii_lowercase`).
pub open spec fn lower_spec(s: Seq<char>) -> Seq<char> {
    s.map_values(|c: char| lower_char_spec(c))
}

pub fn to_lower(v: &Vec<char>) -> (r: Vec<char>)
    ensures
        r@ == lower_spec(v@),
{
    let mut r: Vec<char> = Vec::new();
    let mut i: usize = 0;
    while i < v.len()
        invariant
            i <= v.len(),
            r@ == lower_spec(v@.take(i as int)),
        decreases v.len() - i,
    {
        let c = lower_char(v[i]);
        r.push(c);
        i += 1;
        assert(lower_spec(v@.take(i as int)) =~= lower_spec(v@.take(i - 1)).push(c));
    }
    assert(v@.take(v.len() as int) =~= v@);
    r
}

// ---------------------------------------------------------------------------
// Strings <-> character buffers
// ---------------------------------------------------------------------------

/// The characters of a string slice, in order.
pub fn chars_of(s: &str) -> (v: Vec<char>)
    ensures
        v@ == s@,
{
    broadcast use vstd::string::group_string_axioms;

    let mut v: Vec<char> = Vec::new();
    for c in it: s.chars()
        invariant
            it.seq() == s@,
            v@ == s@.take(it.index() as int),
    {
        assert(s@.take(it.index() as int).push(c) =~= s@.take(it.index() + 1));
        v.push(c);
    }
    assert(v@ =~= s@);
    v
}

/// Append one character to a string (`String::push`).
#[verifier::external_body]
pub(crate) fn push_char(s: &mut String, c: char)
    ensures
        final(s)@ == old(s)@.push(c),
{
    s.push(c);
}

/// Append a string slice to a string (`String::push_str`).
pub fn push_str(s: &mut String, t: &str)
    ensures
        final(s)@ == old(s)@ + t@,
{
    s.append(t);
}

/// Append a character buffer to a string.
pub fn push_chars(s: &mut String, v: &Vec<char>)
    ensures
        final(s)@ == old(s)@ + v@,
{
    let ghost s0 = s@;
    let mut i: usize = 0;
    while i < v.len()
        invariant
            i <= v.len(),
            s@ == s0 + v@.take(i as int),
        decreases v.len() - i,
    {
        push_char(s, v[i]);
        assert(s0 + v@.take(i as int) + seq![v@[i as int]] =~= s0 + v@.take(i + 1));
        i += 1;
    }
    assert(v@.take(v.len() as int) =~= v@);
}

/// Build a string from a character buffer.
pub fn string_of(v: &Vec<char>) -> (s: String)
    ensures
        s@ == v@,
{
    let mut s = String::new();
    push_chars(&mut s, v);
    s
}

/// An owned copy of a string slice.
pub fn owned(s: &str) -> (r: String)
    ensures
        r@ == s@,
{
    s.to_owned()
}

/// Copy of a string (`String::clone`).
pub fn copy_string(s: &String) -> (r: String)
    ensures
        r@ == s@,
        r == *s,
{
    s.clone()
}

/// Copy of an optional string.
pub fn copy_opt_string(s: &Option<String>) -> (r: Option<String>)
    ensures
        r == *s,
{
    match s {
        Some(t) => Some(t.clone()),
        None => None,
    }
}

/// Equality of two string slices by content.
pub fn str_eq(a: &str, b: &str) -> (r: bool)
    ensures
        r == (a@ == b@),
{
    let x = a.to_owned();
    let y = b.to_owned();
    x == y
}

/// Equality of two character buffers.
pub fn chars_eq(a: &Vec<char>, b: &Vec<char>) -> (r: bool)
    ensures
        r == (a@ == b@),
{
    if a.len() != b.len() {
        return false;
    }
    let mut i: usize = 0;
    while i < a.len()
        invariant
            a.len() == b.len(),
            i <= a.len(),
            forall|k: int| 0 <= k < i ==> a@[k] == b@[k],
        decreases a.len() - i,
    {
        if a[i] != b[i] {
            return false;
        }
        i += 1;
    }
    assert(a@ =~= b@);
    true
}

// ---------------------------------------------------------------------------
// Character-wise maps
// ---------------------------------------------------------------------------

/// Concatenate `f(c)` over the characters `c` of `s`, left to right.
pub open spec fn flat_map_chars(s: Seq<char>, f: spec_fn(char) -> Seq<char>) -> Seq<char>
    decreases s.len(),
{
    if s.len() == 0 {
        Seq::empty()
    } else {
        flat_map_chars(s.drop_last(), f) + f(s.last())
    }
}

pub proof fn lemma_flat_map_chars_push(s: Seq<char>, c: char, f: spec_fn(char) -> Seq<char>)
    ensures
        flat_map_chars(s.push(c), f) == flat_map_chars(s, f) + f(c),
{
    assert(s.push(c).drop_last() =~= s);
}

pub proof fn lemma_flat_map_chars_add(a: Seq<char>, b: Seq<char>, f: spec_fn(char) -> Seq<char>)
    ensures
        flat_map_chars(a + b, f) == flat_map_chars(a, f) + flat_map_chars(b, f),
    decreases b.len(),
{
    if b.len() == 0 {
        assert(a + b =~= a);
        assert(flat_map_chars(a, f) + Seq::<char>::empty() =~= flat_map_chars(a, f));
    } else {
        assert((a + b).drop_last() =~= a + b.drop_last());
        lemma_flat_map_chars_add(a, b.drop_last(), f);
        assert(flat_map_chars(a, f) + flat_map_chars(b.drop_last(), f) + f(b.last())
            =~= flat_map_chars(a, f) + (flat_map_chars(b.drop_last(), f) + f(b.last())));
    }
}

/// XML escaping of one character.
pub open spec fn xml_escape_char(c: char) -> Seq<char> {
    if c == '&' {
        "&amp;"@
    } else if c == '<' {
        "&lt;"@
    } else if c == '>' {
        "&gt;"@
    } else if c == '"' {
        "&quot;"@
    } else if c == '\'' {
        "&#39;"@
    } else {
        seq![c]
    }
}

/// Text escaped for an XML attribute or text node.
pub open spec fn xml_escape_spec(s: Seq<char>) -> Seq<char> {
    flat_map_chars(s, |c: char| xml_escape_char(c))
}

fn push_xml_escaped_char(out: &mut String, c: char)
    ensures
        final(out)@ == old(out)@ + xml_escape_char(c),
{
    if c == '&' {
        push_str(out, "&amp;");
    } else if c == '<' {
        push_str(out, "&lt;");
    } else if c == '>' {
        push_str(out, "&gt;");
    } else if c == '"' {
        push_str(out, "&quot;");
    } else if c == '\'' {
        push_str(out, "&#39;");
    } else {
        push_char(out, c);
        assert(old(out)@.push(c) =~= old(out)@ + seq![c]);
    }
}

/// Append the XML-escaped form of `v` to `out`.
pub fn push_xml_escaped(out: &mut String, v: &Vec<char>)
    ensures
        final(out)@ == old(out)@ + xml_escape_spec(v@),
{
    let ghost o0 = out@;
    let mut i: usize = 0;
    while i < v.len()
        invariant
            i <= v.len(),
            out@ == o0 + xml_escape_spec(v@.take(i as int)),
        decreases v.len() - i,
    {
        let c = v[i];
        push_xml_escaped_char(out, c);
        proof {
            lemma_flat_map_chars_push(v@.take(i as int), c, |c: char| xml_escape_char(c));
            assert(v@.take(i as int).push(c) =~= v@.take(i + 1));
        }
        i += 1;
    }
    assert(v@.take(v.len() as int) =~= v@);
}

/// One character of a PDF literal string: backslash and parentheses get a
/// backslash in front.
pub open spec fn pdf_escape_char(c: char) -> Seq<char> {
    if c == '\\' || c == '(' || c == ')' {
        seq!['\\', c]
    } else {
        seq![c]
    }
}

/// Text escaped for a PDF literal string (`s.replace('\\', "\\\\")
/// .replace('(', "\\(").replace(')', "\\)")`).
pub open spec fn pdf_escape_spec(s: Seq<char>) -> Seq<char> {
    flat_map_chars(s, |c: char| pdf_escape_char(c))
}

/// Escape text for a PDF literal string (see [`pdf_escape_spec`]).
pub fn pdf_text(s: &str) -> (r: String)
    ensures
        r@ == pdf_escape_spec(s@),
{
    let v = chars_of(s);
    let mut out = String::new();
    let mut i: usize = 0;
    while i < v.len()
        invariant
            i <= v.len(),
            v@ == s@,
            out@ == pdf_escape_spec(v@.take(i as int)),
        decreases v.len() - i,
    {
        let c = v[i];
        if c == '\\' || c == '(' || c == ')' {
            push_char(&mut out, '\\');
        }
        push_char(&mut out, c);
        proof {
            lemma_flat_map_chars_push(v@.take(i as int), c, |c: char| pdf_escape_char(c));
            assert(v@.take(i as int).push(c) =~= v@.take(i + 1));
        }
        assert(out@ =~= pdf_escape_spec(v@.take(i + 1)));
        i += 1;
    }
    assert(v@.take(v.len() as int) =~= v@);
    out
}

/// Escape text for XML attribute/text content.
pub fn xml_escape(s: &str) -> (r: String)
    ensures
        r@ == xml_escape_spec(s@),
{
    let v = chars_of(s);
    let mut out = String::new();
    push_xml_escaped(&mut out, &v);
    out
}

/// Whether `c` is kept in an identifier token: `_` and the alphanumeric
/// characters, which in ASCII are `[0-9A-Za-z]`.
pub open spec fn ident_keeps(c: char) -> bool {
    if (c as u32) < 128 {
        is_ascii_alnum(c) || c == '_'
    } else {
        char_is_alphanumeric(c)
    }
}

/// A character kept in an identifier token, or `_` in its place.
pub open spec fn ident_char(c: char) -> char {
    if ident_keeps(c) {
        c
    } else {
        '_'
    }
}

/// Sanitize `s` into a token safe for DOT / cell ids: every character that is
/// not alphanumeric or `_` becomes `_`, and `prefix` is put in front when the
/// result is empty or starts with an ASCII digit.
pub open spec fn ident_spec(s: Seq<char>, prefix: Seq<char>) -> Seq<char> {
    let t = s.map_values(|c: char| ident_char(c));
    if t.len() == 0 || is_ascii_digit(t[0]) {
        prefix + t
    } else {
        t
    }
}

/// Append `ident_spec(v, prefix)` to `out`.
pub fn push_ident(out: &mut String, v: &Vec<char>, prefix: &str)
    ensures
        final(out)@ == old(out)@ + ident_spec(v@, prefix@),
{
    let mut t: Vec<char> = Vec::new();
    let mut i: usize = 0;
    while i < v.len()
        invariant
            i <= v.len(),
            t@ == v@.take(i as int).map_values(|c: char| ident_char(c)),
        decreases v.len() - i,
    {
        let c = v[i];
        let k = if is_alphanumeric(c) || c == '_' {
            c
        } else {
            '_'
        };
        t.push(k);
        i += 1;
        assert(t@ =~= v@.take(i as int).map_values(|c: char| ident_char(c)));
    }
    assert(v@.take(v.len() as int) =~= v@);
    if t.len() == 0 || ('0' <= t[0] && t[0] <= '9') {
        push_str(out, prefix);
        push_chars(out, &t);
        assert(old(out)@ + prefix@ + t@ =~= old(out)@ + (prefix@ + t@));
    } else {
        push_chars(out, &t);
    }
}

/// Sanitize a string into an identifier token (see [`ident_spec`]).
pub fn ident(s: &str, prefix: &str) -> (r: String)
    ensures
        r@ == ident_spec(s@, prefix@),
{
    let v = chars_of(s);
    let mut out = String::new();
    push_ident(&mut out, &v, prefix);
    out
}

// ---------------------------------------------------------------------------
// Prefixes, search, trimming
// ---------------------------------------------------------------------------

/// `p` occurs in `s` at position `i`.
pub open spec fn occurs_at(s: Seq<char>, p: Seq<char>, i: int) -> bool {
    0 <= i && i + p.len() <= s.len() && s.subrange(i, i + p.len()) == p
}

/// The first position at or after `from` where `p` occurs in `s` (`str::find`).
pub open spec fn find_from(s: Seq<char>, p: Seq<char>, from: int) -> Option<int>
    decreases s.len() + 1 - from,
{
    if from < 0 || from + p.len() > s.len() {
        None
    } else if occurs_at(s, p, from) {
        Some(from)
    } else {
        find_from(s, p, from + 1)
    }
}

pub open spec fn find_spec(s: Seq<char>, p: Seq<char>) -> Option<int> {
    find_from(s, p, 0)
}

pub proof fn lemma_find_from_bounds(s: Seq<char>, p: Seq<char>, from: int)
    ensures
        find_from(s, p, from) matches Some(k) ==> from <= k && k + p.len() <= s.len()
            && occurs_at(s, p, k)
            && forall|j: int| from <= j < k ==> !occurs_at(s, p, j),
        find_from(s, p, from) is None ==> forall|j: int|
            from <= j && 0 <= from ==> !occurs_at(s, p, j),
    decreases s.len() + 1 - from,
{
    if from < 0 || from + p.len() > s.len() {
    } else if occurs_at(s, p, from) {
    } else {
        lemma_find_from_bounds(s, p, from + 1);
    }
}

/// Whether `p` occurs in `v` at position `i`.
pub fn matches_at(v: &Vec<char>, i: usize, p: &Vec<char>) -> (r: bool)
    ensures
        r == occurs_at(v@, p@, i as int),
{
    if i > v.len() || p.len() > v.len() - i {
        return false;
    }
    let mut k: usize = 0;
    while k < p.len()
        invariant
            i + p.len() <= v.len(),
            k <= p.len(),
            forall|j: int| 0 <= j < k ==> v@[i + j] == p@[j],
        decreases p.len() - k,
    {
        if v[i + k] != p[k] {
            assert(v@.subrange(i as int, i + p.len())[k as int] != p@[k as int]);
            return false;
        }
        k += 1;
    }
    assert(v@.subrange(i as int, i + p.len()) =~= p@);
    true
}

/// Whether `v` starts with the literal `p`.
pub fn starts_with(v: &Vec<char>, p: &str) -> (r: bool)
    ensures
        r == occurs_at(v@, p@, 0),
{
    let pv = chars_of(p);
    matches_at(v, 0, &pv)
}

/// First occurrence of `p` in `v` at or after `from`.
pub fn find_vec_from(v: &Vec<char>, p: &Vec<char>, from: usize) -> (r: Option<usize>)
    ensures
        match r {
            Some(k) => find_from(v@, p@, from as int) == Some(k as int),
            None => find_from(v@, p@, from as int) is None,
        },
{
    if from > v.len() {
        return None;
    }
    let mut i = from;
    while i < v.len() && p.len() <= v.len() - i
        invariant
            from <= i <= v.len(),
            find_from(v@, p@, from as int) == find_from(v@, p@, i as int),
        decreases v.len() + 1 - i,
    {
        if matches_at(v, i, p) {
            return Some(i);
        }
        i += 1;
    }
    if i == v.len() && p.len() == 0 {
        assert(occurs_at(v@, p@, i as int)) by {
            assert(v@.subrange(i as int, i as int) =~= p@);
        }
        return Some(i);
    }
    None
}

/// `s[i..]` with each occurrence of `p` (taken left to right, without
/// overlap) replaced by `w` (`str::replace` on the tail).
pub open spec fn replace_from(s: Seq<char>, p: Seq<char>, w: Seq<char>, i: int) -> Seq<char>
    recommends
        p.len() > 0,
    decreases s.len() - i,
{
    if i < 0 || i >= s.len() || p.len() == 0 {
        if 0 <= i < s.len() {
            s.subrange(i, s.len() as int)
        } else {
            Seq::empty()
        }
    } else if occurs_at(s, p, i) {
        w + replace_from(s, p, w, i + p.len())
    } else {
        seq![s[i]] + replace_from(s, p, w, i + 1)
    }
}

/// `str::replace` with a non-empty pattern.
pub open spec fn replace_spec(s: Seq<char>, p: Seq<char>, w: Seq<char>) -> Seq<char> {
    replace_from(s, p, w, 0)
}

/// `s.replace(p, w)` for a non-empty literal pattern `p`.
pub fn replace_lit(s: &str, p: &str, w: &str) -> (r: String)
    requires
        p@.len() > 0,
    ensures
        r@ == replace_spec(s@, p@, w@),
{
    let v = chars_of(s);
    let pv = chars_of(p);
    let mut out = String::new();
    let mut i: usize = 0;
    while i < v.len()
        invariant
            v@ == s@,
            pv@ == p@,
            p@.len() > 0,
            i <= v.len(),
            replace_spec(s@, p@, w@) == out@ + replace_from(s@, p@, w@, i as int),
        decreases v.len() - i,
    {
        if matches_at(&v, i, &pv) {
            push_str(&mut out, w);
            i += pv.len();
        } else {
            push_char(&mut out, v[i]);
            i += 1;
        }
    }
    out
}

/// First occurrence of the literal `p` in `v`.
pub fn find_lit(v: &Vec<char>, p: &str) -> (r: Option<usize>)
    ensures
        match r {
            Some(k) => find_spec(v@, p@) == Some(k as int),
            None => find_spec(v@, p@) is None,
        },
{
    let pv = chars_of(p);
    find_vec_from(v, &pv, 0)
}

/// First position of character `c` in `s`.
pub open spec fn find_char_spec(s: Seq<char>, c: char) -> Option<int> {
    find_spec(s, seq![c])
}

/// `v@.subrange(a, b)` as a new buffer.
pub fn slice_of(v: &Vec<char>, a: usize, b: usize) -> (r: Vec<char>)
    requires
        a <= b <= v.len(),
    ensures
        r@ == v@.subrange(a as int, b as int),
{
    let mut r: Vec<char> = Vec::new();
    let mut i = a;
    while i < b
        invariant
            a <= i <= b <= v.len(),
            r@ == v@.subrange(a as int, i as int),
        decreases b - i,
    {
        r.push(v[i]);
        i += 1;
        assert(r@ =~= v@.subrange(a as int, i as int));
    }
    r
}

/// Number of leading whitespace characters.
pub open spec fn lead_ws(s: Seq<char>) -> nat
    decreases s.len(),
{
    if s.len() > 0 && char_is_whitespace(s[0]) {
        1 + lead_ws(s.drop_first())
    } else {
        0
    }
}

/// Number of trailing whitespace characters.
pub open spec fn trail_ws(s: Seq<char>) -> nat
    decreases s.len(),
{
    if s.len() > 0 && char_is_whitespace(s.last()) {
        1 + trail_ws(s.drop_last())
    } else {
        0
    }
}

/// `s` without leading whitespace (`str::trim_start`).
pub open spec fn trim_start_spec(s: Seq<char>) -> Seq<char> {
    s.skip(lead_ws(s) as int)
}

/// `s` without trailing whitespace (`str::trim_end`).
pub open spec fn trim_end_spec(s: Seq<char>) -> Seq<char> {
    s.take(s.len() - trail_ws(s))
}

/// `s` without leading and trailing whitespace (`str::trim`).
pub open spec fn trim_spec(s: Seq<char>) -> Seq<char> {
    trim_end_spec(trim_start_spec(s))
}

/// All characters of `s` are whitespace.
pub open spec fn is_blank(s: Seq<char>) -> bool {
    forall|i: int| 0 <= i < s.len() ==> char_is_whitespace(#[trigger] s[i])
}

pub proof fn lemma_lead_ws_bound(s: Seq<char>)
    ensures
        lead_ws(s) <= s.len(),
        forall|i: int| 0 <= i < lead_ws(s) ==> char_is_whitespace(#[trigger] s[i]),
        lead_ws(s) < s.len() ==> !char_is_whitespace(s[lead_ws(s) as int]),
    decreases s.len(),
{
    if s.len() > 0 && char_is_whitespace(s[0]) {
        lemma_lead_ws_bound(s.drop_first());
        assert forall|i: int| 0 <= i < lead_ws(s) implies char_is_whitespace(#[trigger] s[i]) by {
            if i > 0 {
                assert(s[i] == s.drop_first()[i - 1]);
            }
        }
    }
}

pub proof fn lemma_trail_ws_bound(s: Seq<char>)
    ensures
        trail_ws(s) <= s.len(),
        forall|i: int| s.len() - trail_ws(s) <= i < s.len() ==> char_is_whitespace(#[trigger] s[i]),
        trail_ws(s) < s.len() ==> !char_is_whitespace(s[s.len() - trail_ws(s) - 1]),
    decreases s.len(),
{
    if s.len() > 0 && char_is_whitespace(s.last()) {
        lemma_trail_ws_bound(s.drop_last());
        assert forall|i: int| s.len() - trail_ws(s) <= i < s.len() implies char_is_whitespace(
            #[trigger] s[i],
        ) by {
            if i < s.len() - 1 {
                assert(s[i] == s.drop_last()[i]);
            }
        }
    }
}

/// A blank sequence trims to nothing, and a sequence trims to nothing only
/// when it is blank.
pub proof fn lemma_trim_empty_iff_blank(s: Seq<char>)
    ensures
        (trim_spec(s).len() == 0) == is_blank(s),
{
    lemma_lead_ws_bound(s);
    let t = trim_start_spec(s);
    lemma_trail_ws_bound(t);
    if lead_ws(s) < s.len() {
        assert(!char_is_whitespace(s[lead_ws(s) as int]));
        assert(t[0] == s[lead_ws(s) as int]);
        if trail_ws(t) == t.len() {
            assert(char_is_whitespace(t[0]));
        }
    }
}

pub fn count_lead_ws(v: &Vec<char>) -> (n: usize)
    ensures
        n == lead_ws(v@),
{
    let mut i: usize = 0;
    assert(v@.skip(0) =~= v@);
    while i < v.len() && is_whitespace(v[i])
        invariant
            i <= v.len(),
            lead_ws(v@) == i + lead_ws(v@.skip(i as int)),
        decreases v.len() - i,
    {
        assert(v@.skip(i as int).drop_first() =~= v@.skip(i + 1));
        i += 1;
    }
    assert(v@.skip(i as int).len() > 0 ==> v@.skip(i as int)[0] == v@[i as int]);
    i
}

fn count_trail_ws(v: &Vec<char>) -> (n: usize)
    ensures
        n == trail_ws(v@),
{
    let mut i: usize = v.len();
    assert(v@.take(v.len() as int) =~= v@);
    while i > 0 && is_whitespace(v[i - 1])
        invariant
            i <= v.len(),
            trail_ws(v@) == (v.len() - i) + trail_ws(v@.take(i as int)),
        decreases i,
    {
        assert(v@.take(i as int).drop_last() =~= v@.take(i - 1));
        i -= 1;
    }
    (v.len() - i) as usize
}

/// `trim_spec(v)` as a new buffer.
pub fn trim(v: &Vec<char>) -> (r: Vec<char>)
    ensures
        r@ == trim_spec(v@),
{
    let a = count_lead_ws(v);
    proof {
        lemma_lead_ws_bound(v@);
    }
    let t = slice_of(v, a, v.len());
    assert(t@ =~= trim_start_spec(v@));
    let b = count_trail_ws(&t);
    proof {
        lemma_trail_ws_bound(t@);
    }
    let r = slice_of(&t, 0, t.len() - b);
    assert(r@ =~= trim_spec(v@));
    r
}

/// Whether `v` trims to nothing (`s.trim().is_empty()`).
pub fn blank(v: &Vec<char>) -> (r: bool)
    ensures
        r == is_blank(v@),
        r == (trim_spec(v@).len() == 0),
{
    proof {
        lemma_trim_empty_iff_blank(v@);
    }
    let t = trim(v);
    t.len() == 0
}

/// Whether a string slice is blank.
pub fn str_blank(s: &str) -> (r: bool)
    ensures
        r == is_blank(s@),
{
    let v = chars_of(s);
    blank(&v)
}

// ---------------------------------------------------------------------------
// Decimal numbers
// ---------------------------------------------------------------------------

pub open spec fn digit_char(d: nat) -> char {
    (('0' as u32) + d) as char
}

/// Decimal representation of `n` (as produced by `Display` for integers).
pub open spec fn decimal(n: nat) -> Seq<char>
    decreases n,
{
    if n < 10 {
        seq![digit_char(n)]
    } else {
        decimal(n / 10).push(digit_char(n % 10))
    }
}

/// Append the decimal representation of `n` to `out`.
pub fn push_decimal(out: &mut String, n: usize)
    ensures
        final(out)@ == old(out)@ + decimal(n as nat),
{
    push_decimal_wide(out, n as u128);
}

/// Append the decimal representation of a wide integer `n` to `out`.
pub fn push_decimal_wide(out: &mut String, n: u128)
    ensures
        final(out)@ == old(out)@ + decimal(n as nat),
    decreases n,
{
    if n >= 10 {
        push_decimal_wide(out, n / 10);
    }
    let d = (n % 10) as u32;
    let c = char_from_ascii(48 + d);
    push_char(out, c);
    proof {
        if n >= 10 {
            assert(old(out)@ + decimal((n / 10) as nat) + seq![c] =~= old(out)@ + decimal(
                n as nat,
            ));
        } else {
            assert(old(out)@.push(c) =~= old(out)@ + decimal(n as nat));
        }
    }
}

/// Decimal representation of `n`.
pub fn decimal_string(n: usize) -> (r: String)
    ensures
        r@ == decimal(n as nat),
{
    let mut s = String::new();
    push_decimal(&mut s, n);
    assert(s@ =~= decimal(n as nat));
    s
}

} // verus!

verus! {

// ---------------------------------------------------------------------------
// Lookup keys
// ---------------------------------------------------------------------------

/// One character of a lookup key: ASCII lower-cased, with `-` and space
/// turned into `_`.
pub open spec fn key_char(c: char) -> char {
    if c == '-' || c == ' ' {
        '_'
    } else {
        lower_char_spec(c)
    }
}

/// `s.to_ascii_lowercase().replace(['-', ' '], "_")`.
pub open spec fn key_spec(s: Seq<char>) -> Seq<char> {
    s.map_values(|c: char| key_char(c))
}

/// ASCII upper-casing of one character (`char::to_ascii_uppercase`).
pub open spec fn upper_char_spec(c: char) -> char {
    if 'a' <= c && c <= 'z' {
        ((c as u32) - 32) as char
    } else {
        c
    }
}

/// `str::to_ascii_uppercase`.
pub open spec fn upper_spec(s: Seq<char>) -> Seq<char> {
    s.map_values(|c: char| upper_char_spec(c))
}

/// The lookup key of `s` (see [`key_spec`]).
pub fn key_of(s: &str) -> (r: Vec<char>)
    ensures
        r@ == key_spec(s@),
{
    let v = chars_of(s);
    let mut r: Vec<char> = Vec::new();
    let mut i: usize = 0;
    while i < v.len()
        invariant
            i <= v.len(),
            v@ == s@,
            r@ == key_spec(v@.take(i as int)),
        decreases v.len() - i,
    {
        let c = v[i];
        let k = if c == '-' || c == ' ' {
            '_'
        } else {
            lower_char(c)
        };
        r.push(k);
        i += 1;
        assert(r@ =~= key_spec(v@.take(i as int)));
    }
    assert(v@.take(v.len() as int) =~= v@);
    r
}

/// The ASCII lower-cased characters of `s`.
pub fn lower_of(s: &str) -> (r: Vec<char>)
    ensures
        r@ == lower_spec(s@),
{
    let v = chars_of(s);
    to_lower(&v)
}

/// The ASCII upper-cased characters of `s`.
pub fn upper_of(s: &str) -> (r: Vec<char>)
    ensures
        r@ == upper_spec(s@),
{
    let v = chars_of(s);
    let mut r: Vec<char> = Vec::new();
    let mut i: usize = 0;
    while i < v.len()
        invariant
            i <= v.len(),
            v@ == s@,
            r@ == upper_spec(v@.take(i as int)),
        decreases v.len() - i,
    {
        let c = v[i];
        let k = if 'a' <= c && c <= 'z' {
            let u: u32 = (c as u32) - 32;
            char_from_ascii(u)
        } else {
            c
        };
        r.push(k);
        i += 1;
        assert(r@ =~= upper_spec(v@.take(i as int)));
    }
    assert(v@.take(v.len() as int) =~= v@);
    r
}

/// Whether a buffer holds exactly the literal `lit`.
pub fn eq_lit(v: &Vec<char>, lit: &str) -> (r: bool)
    ensures
        r == (v@ == lit@),
{
    let l = chars_of(lit);
    chars_eq(v, &l)
}

// ---------------------------------------------------------------------------
// Concatenation over a sequence
// ---------------------------------------------------------------------------

/// `f(x)` concatenated over the items `x` of `s`, in order.
pub open spec fn concat_map<T>(s: Seq<T>, f: spec_fn(T) -> Seq<char>) -> Seq<char>
    decreases s.len(),
{
    if s.len() == 0 {
        Seq::empty()
    } else {
        concat_map(s.drop_last(), f) + f(s.last())
    }
}

pub proof fn lemma_concat_map_step<T>(s: Seq<T>, i: int, f: spec_fn(T) -> Seq<char>)
    requires
        0 <= i < s.len(),
    ensures
        concat_map(s.take(i + 1), f) == concat_map(s.take(i), f) + f(s[i]),
{
    assert(s.take(i + 1).drop_last() =~= s.take(i));
}

/// The parts joined by `sep` (`[..].join(sep)`).
pub open spec fn join_spec(parts: Seq<Seq<char>>, sep: Seq<char>) -> Seq<char>
    decreases parts.len(),
{
    if parts.len() == 0 {
        Seq::empty()
    } else if parts.len() == 1 {
        parts[0]
    } else {
        join_spec(parts.drop_last(), sep) + sep + parts.last()
    }
}

/// The views of a list of strings.
pub open spec fn views_of(v: Seq<String>) -> Seq<Seq<char>> {
    v.map_values(|s: String| s@)
}

/// Append `parts` joined by `sep` to `out`.
pub fn push_joined(out: &mut String, parts: &Vec<String>, sep: &str)
    ensures
        final(out)@ == old(out)@ + join_spec(views_of(parts@), sep@),
{
    let ghost o0 = out@;
    let mut i: usize = 0;
    while i < parts.len()
        invariant
            i <= parts.len(),
            out@ == o0 + join_spec(views_of(parts@).take(i as int), sep@),
        decreases parts.len() - i,
    {
        proof {
            let t = views_of(parts@).take(i + 1);
            assert(t.drop_last() =~= views_of(parts@).take(i as int));
            assert(t.last() == parts@[i as int]@);
            if i == 0 {
                assert(t =~= seq![parts@[0]@]);
            }
        }
        if i > 0 {
            push_str(out, sep);
        }
        push_str(out, parts[i].as_str());
        proof {
            if i == 0 {
                assert(out@ =~= o0 + join_spec(views_of(parts@).take(i + 1), sep@));
            } else {
                assert(out@ =~= o0 + join_spec(views_of(parts@).take(i + 1), sep@));
            }
        }
        i += 1;
    }
    assert(views_of(parts@).take(parts.len() as int) =~= views_of(parts@));
}

/// Add a string to a list of strings.
pub fn push_part(parts: &mut Vec<String>, part: String)
    ensures
        views_of(final(parts)@) == views_of(old(parts)@).push(part@),
{
    parts.push(part);
    assert(views_of(parts@) =~= views_of(old(parts)@).push(part@));
}

} // verus!


