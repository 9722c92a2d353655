//! Mermaid `flowchart` / `graph` parser. Handles the common subset: direction
//! header, node shape definitions, edges (solid/dotted/thick, with/without
//! labels and arrows), and `subgraph ... end` blocks.
//!
//! The grammar is stated over the characters of the source. The scan that
//! looks for an edge connector walks the statement one byte at a time, so a
//! statement with a non-ASCII character before its connector (or with one
//! anywhere, when it has no connector) cannot be read; such a source is
//! reported as unreadable rather than parsed.

use vstd::prelude::*;

use super::{Shape, LineStyle};
use super::{first_index, lemma_first_index, lemma_first_index_push, node_ids};
use super::chart::string_views;
use crate::text::{
    is_blank, chars_of, find_char_spec, find_from, find_spec, find_vec_from, lemma_find_from_bounds, matches_at,
    occurs_at, slice_of, starts_with, trim, trim_spec, lead_ws, trim_start_spec, lemma_lead_ws_bound,
};

verus! {

/// `s` begins with `p`.
pub open spec fn starts(s: Seq<char>, p: Seq<char>) -> bool {
    occurs_at(s, p, 0)
}

/// `s` ends with `p`.
pub open spec fn ends(s: Seq<char>, p: Seq<char>) -> bool {
    p.len() <= s.len() && s.skip(s.len() - p.len()) == p
}

fn ends_with(v: &Vec<char>, p: &str) -> (r: bool)
    ensures
        r == ends(v@, p@),
{
    let pv = chars_of(p);
    if pv.len() > v.len() {
        return false;
    }
    let r = matches_at(v, v.len() - pv.len(), &pv);
    assert(v@.subrange(v.len() - pv.len(), v.len() - pv.len() + pv.len()) =~= v@.skip(
        v.len() - pv.len(),
    ));
    r
}

// ---------------------------------------------------------------------------
// Node tokens
// ---------------------------------------------------------------------------

/// `s` trimmed, then stripped of one pair of surrounding double quotes.
pub open spec fn unquote_spec(s: Seq<char>) -> Seq<char> {
    let t = trim_spec(s);
    if t.len() >= 2 && t[0] == '"' && t.last() == '"' {
        t.subrange(1, t.len() - 1)
    } else {
        t
    }
}

fn unquote(v: &Vec<char>) -> (r: Vec<char>)
    ensures
        r@ == unquote_spec(v@),
{
    let t = trim(v);
    if t.len() >= 2 && t[0] == '"' && t[t.len() - 1] == '"' {
        slice_of(&t, 1, t.len() - 1)
    } else {
        t
    }
}

/// The delimiter pairs of node shapes, longest first.
pub open spec fn body_pair(k: int) -> (Seq<char>, Seq<char>, Shape) {
    if k == 0 {
        ("((("@, ")))"@, Shape::DoubleCircle)
    } else if k == 1 {
        ("(("@, "))"@, Shape::Circle)
    } else if k == 2 {
        ("(["@, "])"@, Shape::Stadium)
    } else if k == 3 {
        ("[["@, "]]"@, Shape::Subroutine)
    } else if k == 4 {
        ("[("@, ")]"@, Shape::Cylinder)
    } else if k == 5 {
        ("{{"@, "}}"@, Shape::Hexagon)
    } else if k == 6 {
        ("[/"@, "/]"@, Shape::Parallelogram)
    } else if k == 7 {
        ("[\\"@, "\\]"@, Shape::ParallelogramAlt)
    } else if k == 8 {
        ("[/"@, "\\]"@, Shape::Trapezoid)
    } else if k == 9 {
        ("[\\"@, "/]"@, Shape::TrapezoidAlt)
    } else if k == 10 {
        ("("@, ")"@, Shape::RoundRect)
    } else if k == 11 {
        ("{"@, "}"@, Shape::Diamond)
    } else {
        ("["@, "]"@, Shape::Rectangle)
    }
}

fn body_pair_exec(k: usize) -> (r: (&'static str, &'static str, Shape))
    requires
        k < 13,
    ensures
        (r.0@, r.1@, r.2) == body_pair(k as int),
{
    if k == 0 {
        ("(((", ")))", Shape::DoubleCircle)
    } else if k == 1 {
        ("((", "))", Shape::Circle)
    } else if k == 2 {
        ("([", "])", Shape::Stadium)
    } else if k == 3 {
        ("[[", "]]", Shape::Subroutine)
    } else if k == 4 {
        ("[(", ")]", Shape::Cylinder)
    } else if k == 5 {
        ("{{", "}}", Shape::Hexagon)
    } else if k == 6 {
        ("[/", "/]", Shape::Parallelogram)
    } else if k == 7 {
        ("[\\", "\\]", Shape::ParallelogramAlt)
    } else if k == 8 {
        ("[/", "\\]", Shape::Trapezoid)
    } else if k == 9 {
        ("[\\", "/]", Shape::TrapezoidAlt)
    } else if k == 10 {
        ("(", ")", Shape::RoundRect)
    } else if k == 11 {
        ("{", "}", Shape::Diamond)
    } else {
        ("[", "]", Shape::Rectangle)
    }
}

/// The shape and label of a delimiter-wrapped body: the first pair (from
/// position `k` on) that opens and closes it.
pub open spec fn shape_body_from(b: Seq<char>, k: int) -> Option<(Shape, Seq<char>)>
    decreases 13 - k,
{
    if k >= 13 || k < 0 {
        None
    } else {
        let p = body_pair(k);
        if starts(b, p.0) && ends(b, p.1) && b.len() >= p.0.len() + p.1.len() {
            Some((p.2, unquote_spec(b.subrange(p.0.len() as int, b.len() - p.1.len()))))
        } else {
            shape_body_from(b, k + 1)
        }
    }
}

pub fn parse_shape_body(b: &Vec<char>) -> (r: Option<(Shape, Vec<char>)>)
    ensures
        match shape_body_from(b@, 0) {
            None => r is None,
            Some((sh, l)) => r matches Some((s2, l2)) && s2 == sh && l2@ == l,
        },
{
    let mut k: usize = 0;
    while k < 13
        invariant
            k <= 13,
            shape_body_from(b@, 0) == shape_body_from(b@, k as int),
        decreases 13 - k,
    {
        let (o, c, sh) = body_pair_exec(k);
        let ov = chars_of(o);
        let cv = chars_of(c);
        if starts_with(b, o) && ends_with(b, c) && ov.len() <= b.len() && cv.len() <= b.len() - ov.len() {
            let inner = slice_of(b, ov.len(), b.len() - cv.len());
            return Some((sh, unquote(&inner)));
        }
        k += 1;
    }
    None
}

/// Position of the first shape-opening delimiter (`[`, `(` or `{`).
pub open spec fn first_open(t: Seq<char>, from: int) -> Option<int>
    decreases t.len() - from,
{
    if from < 0 || from >= t.len() {
        None
    } else if t[from] == '[' || t[from] == '(' || t[from] == '{' {
        Some(from)
    } else {
        first_open(t, from + 1)
    }
}

/// A parsed node token: id, shape and label when given.
pub type NodeToken = (Seq<char>, Option<Shape>, Option<Seq<char>>);

/// A node token like `A[Label]`, `A(Round)`, `B{Decide}`, or bare `A`; an
/// error carries the parse detail.
pub open spec fn node_token_spec(tok: Seq<char>) -> Result<NodeToken, Seq<char>> {
    let t = trim_spec(tok);
    if t.len() == 0 {
        Err("empty node token"@)
    } else {
        match first_open(t, 0) {
            None => Ok((t, None, None)),
            Some(o) => {
                let id = trim_spec(t.take(o));
                if id.len() == 0 {
                    Err("node token missing id: '"@ + t + "'"@)
                } else {
                    match shape_body_from(t.skip(o), 0) {
                        None => Err("unrecognized node shape: '"@ + t.skip(o) + "'"@),
                        Some((sh, l)) => Ok((id, Some(sh), Some(l))),
                    }
                }
            },
        }
    }
}

fn find_open(t: &Vec<char>) -> (r: Option<usize>)
    ensures
        match r {
            Some(i) => first_open(t@, 0) == Some(i as int),
            None => first_open(t@, 0) is None,
        },
        r matches Some(i) ==> i < t@.len(),
{
    let mut i: usize = 0;
    while i < t.len()
        invariant
            i <= t.len(),
            first_open(t@, 0) == first_open(t@, i as int),
        decreases t.len() - i,
    {
        if t[i] == '[' || t[i] == '(' || t[i] == '{' {
            return Some(i);
        }
        i += 1;
    }
    None
}

fn quoted_detail(prefix: &str, v: &Vec<char>) -> (r: String)
    ensures
        r@ == prefix@ + v@ + "'"@,
{
    let mut m = crate::text::owned(prefix);
    crate::text::push_chars(&mut m, v);
    crate::text::push_str(&mut m, "'");
    m
}

/// Parse a node token (see [`node_token_spec`]).
fn parse_node_token(tok: &Vec<char>) -> (r: Result<(Vec<char>, Option<Shape>, Option<Vec<char>>), String>)
    ensures
        match node_token_spec(tok@) {
            Ok((id, sh, l)) => r matches Ok((id2, sh2, l2)) && id2@ == id && sh2 == sh && match l {
                Some(x) => l2 matches Some(y) && y@ == x,
                None => l2 is None,
            },
            Err(d) => r matches Err(m) && m@ == d,
        },
{
    let t = trim(tok);
    if t.len() == 0 {
        return Err(crate::text::owned("empty node token"));
    }
    match find_open(&t) {
        None => Ok((t, None, None)),
        Some(o) => {
            let head = slice_of(&t, 0, o);
            let id = trim(&head);
            assert(head@ =~= t@.take(o as int));
            if id.len() == 0 {
                return Err(quoted_detail("node token missing id: '", &t));
            }
            let body = slice_of(&t, o, t.len());
            assert(body@ =~= t@.skip(o as int));
            match parse_shape_body(&body) {
                None => Err(quoted_detail("unrecognized node shape: '", &body)),
                Some((sh, l)) => Ok((id, Some(sh), Some(l))),
            }
        },
    }
}

// ---------------------------------------------------------------------------
// Connectors
// ---------------------------------------------------------------------------

/// A leading `|label|` (after optional whitespace): the trimmed label and
/// what follows it; otherwise no label and `s` itself.
pub open spec fn pipe_label_spec(s: Seq<char>) -> (Option<Seq<char>>, Seq<char>) {
    let t = trim_start_spec(s);
    if t.len() > 0 && t[0] == '|' {
        let rest = t.skip(1);
        match find_char_spec(rest, '|') {
            Some(e) => (Some(trim_spec(rest.take(e))), rest.skip(e + 1)),
            None => (None, s),
        }
    } else {
        (None, s)
    }
}

fn take_pipe_label(s: &Vec<char>) -> (r: (Option<Vec<char>>, Vec<char>))
    ensures
        r.1@ == pipe_label_spec(s@).1,
        match pipe_label_spec(s@).0 {
            Some(l) => r.0 matches Some(x) && x@ == l,
            None => r.0 is None,
        },
{
    let a = crate::text::count_lead_ws(s);
    proof {
        lemma_lead_ws_bound(s@);
    }
    let t = slice_of(s, a, s.len());
    assert(t@ =~= trim_start_spec(s@));
    if t.len() > 0 && t[0] == '|' {
        let rest = slice_of(&t, 1, t.len());
        assert(rest@ =~= t@.skip(1));
        let bar: Vec<char> = vec!['|'];
        assert(bar@ =~= seq!['|']);
        match find_vec_from(&rest, &bar, 0) {
            Some(e) => {
                proof {
                    lemma_find_from_bounds(rest@, bar@, 0);
                }
                let inner = slice_of(&rest, 0, e);
                assert(inner@ =~= rest@.take(e as int));
                let after = slice_of(&rest, e + 1, rest.len());
                assert(after@ =~= rest@.skip(e + 1));
                (Some(trim(&inner)), after)
            },
            None => (None, slice_of(s, 0, s.len())),
        }
    } else {
        let all = slice_of(s, 0, s.len());
        assert(all@ =~= s@);
        (None, all)
    }
}

/// A connector read at the start of a statement's remainder: line style,
/// arrow, inline label, and how many characters it spans.
pub type Conn = (LineStyle, bool, Option<Seq<char>>, nat);

/// Whether a `>` follows the closing run `marker` that starts `tail`, and
/// how many characters the closing operator spans.
pub open spec fn arrow_after_spec(tail: Seq<char>, marker: Seq<char>) -> (bool, nat) {
    let after = tail.skip(marker.len() as int);
    if after.len() > 0 && after[0] == '>' {
        (true, marker.len() + 1)
    } else {
        (false, marker.len())
    }
}

/// `-- label -->` / `== label ==>`: the inline-label form with a doubled
/// marker (`--` or `==`), when the text after the opening marker does not
/// start with `first` or `>`.
pub open spec fn inline_doubled(s: Seq<char>, marker: Seq<char>, first: char, style: LineStyle) -> Option<Conn> {
    if starts(s, marker) {
        let rest = s.skip(2);
        if !(rest.len() > 0 && (rest[0] == first || rest[0] == '>')) {
            match find_spec(rest, marker) {
                Some(end) => {
                    let tail = rest.skip(end);
                    let aa = arrow_after_spec(tail, marker);
                    Some((style, aa.0, Some(trim_spec(rest.take(end))), (2 + end + aa.1) as nat))
                },
                None => None,
            }
        } else {
            None
        }
    } else {
        None
    }
}

/// `-. label .->`: the dotted inline-label form.
pub open spec fn inline_dotted(s: Seq<char>) -> Option<Conn> {
    if starts(s, "-."@) {
        let rest = s.skip(2);
        match find_spec(rest, ".-"@) {
            Some(end) => {
                let label = trim_spec(rest.take(end));
                let tail = rest.skip(end);
                let arrow = starts(tail, ".->"@);
                let extra: nat = if arrow { 3 } else { 2 };
                Some((LineStyle::Dotted, arrow, if label.len() == 0 {
                    None
                } else {
                    Some(label)
                }, (2 + end + extra) as nat))
            },
            None => None,
        }
    } else {
        None
    }
}

/// The plain connectors, longest first.
pub open spec fn plain_op(k: int) -> (Seq<char>, LineStyle, bool) {
    if k == 0 {
        ("-.->"@, LineStyle::Dotted, true)
    } else if k == 1 {
        ("-.-"@, LineStyle::Dotted, false)
    } else if k == 2 {
        ("==>"@, LineStyle::Thick, true)
    } else if k == 3 {
        ("==="@, LineStyle::Thick, false)
    } else if k == 4 {
        ("-->"@, LineStyle::Solid, true)
    } else {
        ("---"@, LineStyle::Solid, false)
    }
}

pub open spec fn plain_from(s: Seq<char>, k: int) -> Option<Conn>
    decreases 6 - k,
{
    if k >= 6 || k < 0 {
        None
    } else if starts(s, plain_op(k).0) {
        Some((plain_op(k).1, plain_op(k).2, None, plain_op(k).0.len()))
    } else {
        plain_from(s, k + 1)
    }
}

/// The connector at the start of `s`, inline-label forms first.
pub open spec fn connector_spec(s: Seq<char>) -> Option<Conn> {
    if inline_doubled(s, "--"@, '-', LineStyle::Solid) is Some {
        inline_doubled(s, "--"@, '-', LineStyle::Solid)
    } else if inline_dotted(s) is Some {
        inline_dotted(s)
    } else if inline_doubled(s, "=="@, '=', LineStyle::Thick) is Some {
        inline_doubled(s, "=="@, '=', LineStyle::Thick)
    } else {
        plain_from(s, 0)
    }
}

/// An exec connector: line, arrow, inline label, span.
pub struct ConnExec {
    pub line: LineStyle,
    pub arrow: bool,
    pub label: Option<Vec<char>>,
    pub len: usize,
}

pub open spec fn conn_is(c: ConnExec, m: Conn) -> bool {
    &&& c.line == m.0
    &&& c.arrow == m.1
    &&& match m.2 {
        Some(l) => c.label matches Some(x) && x@ == l,
        None => c.label is None,
    }
    &&& c.len == m.3
}

fn inline_doubled_exec(s: &Vec<char>, marker: &str, first: char, style: LineStyle) -> (r: Option<ConnExec>)
    requires
        marker@.len() == 2,
    ensures
        match inline_doubled(s@, marker@, first, style) {
            Some(m) => r matches Some(c) && conn_is(c, m),
            None => r is None,
        },
        r matches Some(c) ==> c.len <= s@.len(),
{
    if !starts_with(s, marker) {
        return None;
    }
    let rest = slice_of(s, 2, s.len());
    assert(rest@ =~= s@.skip(2));
    if rest.len() > 0 && (rest[0] == first || rest[0] == '>') {
        return None;
    }
    let mv = chars_of(marker);
    match find_vec_from(&rest, &mv, 0) {
        Some(end) => {
            proof {
                lemma_find_from_bounds(rest@, mv@, 0);
            }
            let head = slice_of(&rest, 0, end);
            assert(head@ =~= rest@.take(end as int));
            let tail = slice_of(&rest, end, rest.len());
            assert(tail@ =~= rest@.skip(end as int));
            let (arrow, extra) = if tail.len() > 2 && tail[2] == '>' {
                (true, 3usize)
            } else {
                (false, 2usize)
            };
            assert(tail@.skip(2).len() > 0 ==> tail@.skip(2)[0] == tail@[2]);
            Some(ConnExec { line: style, arrow, label: Some(trim(&head)), len: 2 + end + extra })
        },
        None => None,
    }
}

fn inline_dotted_exec(s: &Vec<char>) -> (r: Option<ConnExec>)
    ensures
        match inline_dotted(s@) {
            Some(m) => r matches Some(c) && conn_is(c, m),
            None => r is None,
        },
        r matches Some(c) ==> c.len <= s@.len(),
{
    proof {
        reveal_strlit("-.");
        reveal_strlit(".-");
        reveal_strlit(".->");
    }
    if !starts_with(s, "-.") {
        return None;
    }
    let rest = slice_of(s, 2, s.len());
    assert(rest@ =~= s@.skip(2));
    let close = chars_of(".-");
    match find_vec_from(&rest, &close, 0) {
        Some(end) => {
            proof {
                lemma_find_from_bounds(rest@, close@, 0);
            }
            let head = slice_of(&rest, 0, end);
            assert(head@ =~= rest@.take(end as int));
            let tail = slice_of(&rest, end, rest.len());
            assert(tail@ =~= rest@.skip(end as int));
            let label = trim(&head);
            let arrow = starts_with(&tail, ".->");
            let extra: usize = if arrow {
                3
            } else {
                2
            };
            Some(
                ConnExec {
                    line: LineStyle::Dotted,
                    arrow,
                    label: if label.len() == 0 {
                        None
                    } else {
                        Some(label)
                    },
                    len: 2 + end + extra,
                },
            )
        },
        None => None,
    }
}

fn plain_op_exec(k: usize) -> (r: (&'static str, LineStyle, bool))
    requires
        k < 6,
    ensures
        (r.0@, r.1, r.2) == plain_op(k as int),
{
    if k == 0 {
        ("-.->", LineStyle::Dotted, true)
    } else if k == 1 {
        ("-.-", LineStyle::Dotted, false)
    } else if k == 2 {
        ("==>", LineStyle::Thick, true)
    } else if k == 3 {
        ("===", LineStyle::Thick, false)
    } else if k == 4 {
        ("-->", LineStyle::Solid, true)
    } else {
        ("---", LineStyle::Solid, false)
    }
}

fn plain_connector(s: &Vec<char>) -> (r: Option<ConnExec>)
    ensures
        match plain_from(s@, 0) {
            Some(m) => r matches Some(c) && conn_is(c, m),
            None => r is None,
        },
        r matches Some(c) ==> c.len <= s@.len(),
{
    let mut k: usize = 0;
    while k < 6
        invariant
            k <= 6,
            plain_from(s@, 0) == plain_from(s@, k as int),
        decreases 6 - k,
    {
        let (op, line, arrow) = plain_op_exec(k);
        if starts_with(s, op) {
            let n = chars_of(op).len();
            return Some(ConnExec { line, arrow, label: None, len: n });
        }
        k += 1;
    }
    None
}

/// The connector at the start of `s` (see [`connector_spec`]).
fn match_connector(s: &Vec<char>) -> (r: Option<ConnExec>)
    ensures
        match connector_spec(s@) {
            Some(m) => r matches Some(c) && conn_is(c, m),
            None => r is None,
        },
        r matches Some(c) ==> c.len <= s@.len(),
{
    proof {
        reveal_strlit("--");
        reveal_strlit("==");
    }
    if let Some(c) = inline_doubled_exec(s, "--", '-', LineStyle::Solid) {
        return Some(c);
    }
    if let Some(c) = inline_dotted_exec(s) {
        return Some(c);
    }
    if let Some(c) = inline_doubled_exec(s, "==", '=', LineStyle::Thick) {
        return Some(c);
    }
    plain_connector(s)
}

// ---------------------------------------------------------------------------
// Statements
// ---------------------------------------------------------------------------

/// An edge statement split at its connector, a statement without one, or
/// one that cannot be scanned (a non-ASCII character is met first).
pub enum Split {
    Edge(Seq<char>, LineStyle, bool, Option<Seq<char>>, Seq<char>),
    NoEdge,
    Unreadable,
}

/// A connector may start here.
pub open spec fn connector_start(rest: Seq<char>) -> bool {
    starts(rest, "--"@) || starts(rest, "-."@) || starts(rest, "=="@)
}

/// Scan `line` from position `p` for the first connector with a non-empty
/// node on each side.
pub open spec fn split_from(line: Seq<char>, p: int) -> Split
    decreases line.len() - p,
{
    if p < 0 || p >= line.len() {
        Split::NoEdge
    } else if (line[p] as u32) >= 128 {
        Split::Unreadable
    } else {
        let rest = line.skip(p);
        match connector_spec(rest) {
            Some(c) => if connector_start(rest) {
                let after = rest.skip(c.3 as int);
                let pl = pipe_label_spec(after);
                let left = trim_spec(line.take(p));
                let right = trim_spec(pl.1);
                if left.len() > 0 && right.len() > 0 {
                    Split::Edge(left, c.0, c.1, if pl.0 is Some { pl.0 } else { c.2 }, right)
                } else {
                    split_from(line, p + 1)
                }
            } else {
                split_from(line, p + 1)
            },
            None => split_from(line, p + 1),
        }
    }
}

/// An exec split: left token, connector, right token.
pub enum SplitExec {
    Edge(Vec<char>, LineStyle, bool, Option<Vec<char>>, Vec<char>),
    NoEdge,
    Unreadable,
}

pub open spec fn split_is(x: SplitExec, m: Split) -> bool {
    match (x, m) {
        (SplitExec::Edge(l, st, ar, lb, r), Split::Edge(l2, st2, ar2, lb2, r2)) => {
            &&& l@ == l2
            &&& st == st2
            &&& ar == ar2
            &&& r@ == r2
            &&& match lb2 {
                Some(y) => lb matches Some(z) && z@ == y,
                None => lb is None,
            }
        },
        (SplitExec::NoEdge, Split::NoEdge) => true,
        (SplitExec::Unreadable, Split::Unreadable) => true,
        _ => false,
    }
}

fn split_edge(line: &Vec<char>) -> (r: SplitExec)
    ensures
        split_is(r, split_from(line@, 0)),
{
    proof {
        reveal_strlit("--");
        reveal_strlit("-.");
        reveal_strlit("==");
    }
    let mut p: usize = 0;
    while p < line.len()
        invariant
            p <= line.len(),
            split_from(line@, 0) == split_from(line@, p as int),
        decreases line.len() - p,
    {
        if (line[p] as u32) >= 128 {
            return SplitExec::Unreadable;
        }
        let rest = slice_of(line, p, line.len());
        assert(rest@ =~= line@.skip(p as int));
        let cand = starts_with(&rest, "--") || starts_with(&rest, "-.") || starts_with(&rest, "==");
        if cand {
            if let Some(c) = match_connector(&rest) {
                let after = slice_of(&rest, c.len, rest.len());
                assert(after@ =~= rest@.skip(c.len as int));
                let (plabel, tail) = take_pipe_label(&after);
                let head = slice_of(line, 0, p);
                assert(head@ =~= line@.take(p as int));
                let left = trim(&head);
                let right = trim(&tail);
                if left.len() > 0 && right.len() > 0 {
                    let label = match plabel {
                        Some(l) => Some(l),
                        None => c.label,
                    };
                    return SplitExec::Edge(left, c.line, c.arrow, label, right);
                }
            }
        }
        p += 1;
    }
    SplitExec::NoEdge
}

// ---------------------------------------------------------------------------
// Lines and headers
// ---------------------------------------------------------------------------

/// The lines of `s` (`str::lines`): split at `\n`, a `\r` before the `\n`
/// dropped; a final line without `\n` is kept as it is.
pub open spec fn lines_spec(s: Seq<char>) -> Seq<Seq<char>>
    decreases s.len(),
{
    match find_char_spec(s, '\n') {
        None => if s.len() == 0 {
            Seq::empty()
        } else {
            seq![s]
        },
        Some(k) => {
            proof {
                lemma_find_from_bounds(s, seq!['\n'], 0);
            }
            let l = s.take(k);
            let l2 = if l.len() > 0 && l.last() == '\r' {
                l.drop_last()
            } else {
                l
            };
            seq![l2] + lines_spec(s.skip(k + 1))
        },
    }
}

/// A line cut at the first `%%` comment marker.
pub open spec fn strip_comment_spec(l: Seq<char>) -> Seq<char> {
    match find_spec(l, "%%"@) {
        Some(i) => l.take(i),
        None => l,
    }
}

/// The lines that hold something once comments are cut, comment-free.
pub open spec fn content_lines(ls: Seq<Seq<char>>) -> Seq<Seq<char>>
    decreases ls.len(),
{
    if ls.len() == 0 {
        Seq::empty()
    } else {
        let c = strip_comment_spec(ls[0]);
        (if trim_spec(c).len() == 0 {
            Seq::empty()
        } else {
            seq![c]
        }) + content_lines(ls.drop_first())
    }
}

fn split_lines(src: &Vec<char>) -> (r: Vec<Vec<char>>)
    ensures
        r@.map_values(|l: Vec<char>| l@) == lines_spec(src@),
{
    let mut out: Vec<Vec<char>> = Vec::new();
    let mut start: usize = 0;
    let nl: Vec<char> = vec!['\n'];
    assert(nl@ =~= seq!['\n']);
    assert(src@.skip(0) =~= src@);
    while start < src.len()
        invariant
            start <= src.len(),
            nl@ == seq!['\n'],
            out@.map_values(|l: Vec<char>| l@) + lines_spec(src@.skip(start as int)) == lines_spec(
                src@,
            ),
        decreases src.len() - start,
    {
        let rest = slice_of(src, start, src.len());
        assert(rest@ =~= src@.skip(start as int));
        match find_vec_from(&rest, &nl, 0) {
            Some(k) => {
                proof {
                    lemma_find_from_bounds(rest@, nl@, 0);
                }
                let l = slice_of(&rest, 0, k);
                assert(l@ =~= rest@.take(k as int));
                let l2 = if l.len() > 0 && l[l.len() - 1] == '\r' {
                    let t = slice_of(&l, 0, l.len() - 1);
                    assert(t@ =~= l@.drop_last());
                    t
                } else {
                    l
                };
                let ghost before = out@.map_values(|l: Vec<char>| l@);
                out.push(l2);
                assert(out@.map_values(|l: Vec<char>| l@) =~= before.push(l2@));
                assert(src@.skip(start as int).skip(k + 1) =~= src@.skip(start + k + 1));
                assert(before + lines_spec(src@.skip(start as int)) =~= before.push(l2@)
                    + lines_spec(src@.skip(start + k + 1)));
                start = start + k + 1;
            },
            None => {
                let ghost before = out@.map_values(|l: Vec<char>| l@);
                out.push(rest);
                assert(out@.map_values(|l: Vec<char>| l@) =~= before.push(src@.skip(start as int)));
                assert(src@.skip(src.len() as int) =~= Seq::<char>::empty());
                assert(lines_spec(Seq::<char>::empty()) =~= Seq::<Seq<char>>::empty());
                start = src.len();
            },
        }
    }
    assert(src@.skip(start as int) =~= Seq::<char>::empty());
    assert(lines_spec(Seq::<char>::empty()) =~= Seq::<Seq<char>>::empty());
    out
}

fn strip_comment(l: &Vec<char>) -> (r: Vec<char>)
    ensures
        r@ == strip_comment_spec(l@),
{
    match crate::text::find_lit(l, "%%") {
        Some(i) => {
            proof {
                lemma_find_from_bounds(l@, "%%"@, 0);
            }
            let t = slice_of(l, 0, i);
            assert(t@ =~= l@.take(i as int));
            t
        },
        None => slice_of(l, 0, l.len()),
    }
}

/// The header's direction, or the parse detail.
pub open spec fn header_spec(h: Seq<char>) -> Result<super::Direction, Seq<char>> {
    let rest = if starts(h, "flowchart"@) {
        Some(h.skip("flowchart"@.len() as int))
    } else if starts(h, "graph"@) {
        Some(h.skip("graph"@.len() as int))
    } else {
        None
    };
    match rest {
        None => Err("expected 'flowchart' or 'graph' header"@),
        Some(r) => {
            let dir = trim_spec(r);
            if dir.len() == 0 {
                Ok(super::Direction::TB)
            } else {
                match super::Direction::parse_spec(crate::text::upper_spec(dir)) {
                    Some(d) => Ok(d),
                    None => Err("unknown direction '"@ + dir + "'"@),
                }
            }
        },
    }
}

fn parse_header(h: &Vec<char>) -> (r: Result<super::Direction, String>)
    ensures
        match header_spec(h@) {
            Ok(d) => r == Ok::<super::Direction, String>(d),
            Err(m) => r matches Err(x) && x@ == m,
        },
{
    let rest = if starts_with(h, "flowchart") {
        let n = chars_of("flowchart").len();
        slice_of(h, n, h.len())
    } else if starts_with(h, "graph") {
        let n = chars_of("graph").len();
        slice_of(h, n, h.len())
    } else {
        return Err(crate::text::owned("expected 'flowchart' or 'graph' header"));
    };
    assert(rest@ =~= (if starts(h@, "flowchart"@) {
        h@.skip("flowchart"@.len() as int)
    } else {
        h@.skip("graph"@.len() as int)
    }));
    let dir = trim(&rest);
    if dir.len() == 0 {
        return Ok(super::Direction::TB);
    }
    let mut ds = String::new();
    crate::text::push_chars(&mut ds, &dir);
    match super::Direction::parse(ds.as_str()) {
        Some(d) => Ok(d),
        None => Err(quoted_detail("unknown direction '", &dir)),
    }
}

/// `s` without trailing `c`s.
pub open spec fn strip_trailing(s: Seq<char>, c: char) -> Seq<char>
    decreases s.len(),
{
    if s.len() > 0 && s.last() == c {
        strip_trailing(s.drop_last(), c)
    } else {
        s
    }
}

/// `s` without leading `c`s.
pub open spec fn strip_leading(s: Seq<char>, c: char) -> Seq<char>
    decreases s.len(),
{
    if s.len() > 0 && s[0] == c {
        strip_leading(s.drop_first(), c)
    } else {
        s
    }
}

/// `s` without leading and trailing double quotes.
pub open spec fn trim_quotes(s: Seq<char>) -> Seq<char> {
    strip_trailing(strip_leading(s, '"'), '"')
}

/// The id (when bracketed) and label of a subgraph header: `one`,
/// `id [Title]` or `"Title"`.
pub open spec fn subgraph_header_spec(s: Seq<char>) -> (Option<Seq<char>>, Seq<char>) {
    match find_char_spec(s, '[') {
        Some(o) => (
            Some(trim_spec(s.take(o))),
            trim_quotes(trim_spec(strip_trailing(s.skip(o + 1), ']'))),
        ),
        None => (None, trim_quotes(trim_spec(s))),
    }
}

fn strip_trailing_exec(v: &Vec<char>, c: char) -> (r: Vec<char>)
    ensures
        r@ == strip_trailing(v@, c),
{
    let mut n: usize = v.len();
    assert(v@.take(n as int) =~= v@);
    while n > 0 && v[n - 1] == c
        invariant
            n <= v.len(),
            strip_trailing(v@, c) == strip_trailing(v@.take(n as int), c),
        decreases n,
    {
        assert(v@.take(n as int).drop_last() =~= v@.take(n - 1));
        n -= 1;
    }
    slice_of(v, 0, n)
}

fn strip_leading_exec(v: &Vec<char>, c: char) -> (r: Vec<char>)
    ensures
        r@ == strip_leading(v@, c),
{
    let mut n: usize = 0;
    assert(v@.skip(0) =~= v@);
    while n < v.len() && v[n] == c
        invariant
            n <= v.len(),
            strip_leading(v@, c) == strip_leading(v@.skip(n as int), c),
        decreases v.len() - n,
    {
        assert(v@.skip(n as int).drop_first() =~= v@.skip(n + 1));
        n += 1;
    }
    let r = slice_of(v, n, v.len());
    assert(r@ =~= v@.skip(n as int));
    r
}

fn trim_quotes_exec(v: &Vec<char>) -> (r: Vec<char>)
    ensures
        r@ == trim_quotes(v@),
{
    let a = strip_leading_exec(v, '"');
    strip_trailing_exec(&a, '"')
}

fn parse_subgraph_header(s: &Vec<char>) -> (r: (Option<Vec<char>>, Vec<char>))
    ensures
        r.1@ == subgraph_header_spec(s@).1,
        match subgraph_header_spec(s@).0 {
            Some(id) => r.0 matches Some(x) && x@ == id,
            None => r.0 is None,
        },
{
    let open: Vec<char> = vec!['['];
    assert(open@ =~= seq!['[']);
    match find_vec_from(s, &open, 0) {
        Some(o) => {
            proof {
                lemma_find_from_bounds(s@, open@, 0);
                assert(open@.len() == 1);
                assert(o + 1 <= s@.len());
            }
            let head = slice_of(s, 0, o);
            assert(head@ =~= s@.take(o as int));
            let n = s.len();
            let tail = slice_of(s, o + 1, n);
            assert(tail@ =~= s@.skip(o + 1));
            let t1 = strip_trailing_exec(&tail, ']');
            let t2 = trim(&t1);
            (Some(trim(&head)), trim_quotes_exec(&t2))
        },
        None => {
            let t = trim(s);
            (None, trim_quotes_exec(&t))
        },
    }
}

// ---------------------------------------------------------------------------
// The import state
// ---------------------------------------------------------------------------

/// The kind of an import error.
#[derive(Debug, Clone, Copy, PartialEq, Eq, Structural)]
pub enum ErrKind {
    NotFound,
    Invalid,
    Parse,
}

/// A node as read: id, label, shape.
pub type NodeM = (Seq<char>, Seq<char>, Shape);

/// An edge as read: endpoints, label, line style, arrow.
pub type EdgeM = (Seq<char>, Seq<char>, Option<Seq<char>>, LineStyle, bool);

/// A subgraph as read: id, label, member ids.
pub type SubM = (Seq<char>, Seq<char>, Seq<Seq<char>>);

/// An open subgraph: its id and the ids referenced inside it so far.
pub type Frame = (Seq<char>, Seq<Seq<char>>);

/// Titles of open subgraphs, by id.
pub type Labels = Seq<(Seq<char>, Seq<char>)>;

/// Everything read so far: direction, nodes, edges, closed subgraphs, open
/// subgraphs, and the titles of open subgraphs.
pub type ImportState = (super::Direction, Seq<NodeM>, Seq<EdgeM>, Seq<SubM>, Seq<Frame>, Labels);

/// The state after a line, an error, or an unreadable statement.
pub enum Step {
    Next(ImportState),
    Fail(ErrKind, Seq<char>),
    Unreadable,
}

pub open spec fn node_keys(nodes: Seq<NodeM>) -> Seq<Seq<char>> {
    nodes.map_values(|n: NodeM| n.0)
}

/// Make sure a node exists: add it (rectangle, labeled by its id, unless
/// the token says otherwise), or update the label and shape the token gives.
pub open spec fn ensure_spec(nodes: Seq<NodeM>, t: NodeToken) -> Result<Seq<NodeM>, (ErrKind, Seq<char>)> {
    match first_index(node_keys(nodes), t.0) {
        Some(i) => if t.1 is Some || t.2 is Some {
            Ok(
                nodes.update(
                    i,
                    (nodes[i].0, match t.2 {
                        Some(l) => l,
                        None => nodes[i].1,
                    }, match t.1 {
                        Some(sh) => sh,
                        None => nodes[i].2,
                    }),
                ),
            )
        } else {
            Ok(nodes)
        },
        None => if is_blank(t.0) {
            Err((ErrKind::Invalid, "node id must not be empty"@))
        } else {
            Ok(nodes.push((t.0, match t.2 {
                Some(l) => l,
                None => t.0,
            }, match t.1 {
                Some(sh) => sh,
                None => Shape::Rectangle,
            })))
        },
    }
}

/// `ids` added to `ms` in order, skipping those already there.
pub open spec fn add_members(ms: Seq<Seq<char>>, ids: Seq<Seq<char>>) -> Seq<Seq<char>>
    decreases ids.len(),
{
    if ids.len() == 0 {
        ms
    } else {
        let m = add_members(ms, ids.drop_last());
        if m.contains(ids.last()) {
            m
        } else {
            m.push(ids.last())
        }
    }
}

/// The referenced ids joined to the innermost open subgraph.
pub open spec fn touch(stack: Seq<Frame>, ids: Seq<Seq<char>>) -> Seq<Frame> {
    if stack.len() == 0 {
        stack
    } else {
        stack.update(stack.len() - 1, (stack.last().0, add_members(stack.last().1, ids)))
    }
}

/// A node or edge statement.
pub open spec fn statement_spec(st: ImportState, line: Seq<char>) -> Step {
    match split_from(line, 0) {
        Split::Unreadable => Step::Unreadable,
        Split::NoEdge => match node_token_spec(line) {
            Err(d) => Step::Fail(ErrKind::Parse, d),
            Ok(t) => match ensure_spec(st.1, t) {
                Err(e) => Step::Fail(e.0, e.1),
                Ok(ns) => Step::Next((st.0, ns, st.2, st.3, touch(st.4, seq![t.0]), st.5)),
            },
        },
        Split::Edge(l, ls, ar, lb, r) => match node_token_spec(l) {
            Err(d) => Step::Fail(ErrKind::Parse, d),
            Ok(a) => match node_token_spec(r) {
                Err(d) => Step::Fail(ErrKind::Parse, d),
                Ok(b) => match ensure_spec(st.1, a) {
                    Err(e) => Step::Fail(e.0, e.1),
                    Ok(n1) => match ensure_spec(n1, b) {
                        Err(e) => Step::Fail(e.0, e.1),
                        Ok(n2) => Step::Next(
                            (
                                st.0,
                                n2,
                                st.2.push((a.0, b.0, lb, ls, ar)),
                                st.3,
                                touch(st.4, seq![a.0, b.0]),
                                st.5,
                            ),
                        ),
                    },
                },
            },
        },
    }
}

/// The title stored for an open subgraph (its id when none), and the
/// titles left.
pub open spec fn take_label(labels: Labels, id: Seq<char>) -> (Seq<char>, Labels) {
    match first_index(labels.map_values(|p: (Seq<char>, Seq<char>)| p.0), id) {
        Some(k) => (labels[k].1, labels.remove(k)),
        None => (id, labels),
    }
}

/// `end`: the innermost open subgraph becomes a group, unless its id is
/// taken or it refers to an unknown node.
pub open spec fn close_spec(st: ImportState) -> ImportState {
    if st.4.len() == 0 {
        st
    } else {
        let f = st.4.last();
        let tl = take_label(st.5, f.0);
        let subs = if first_index(st.3.map_values(|x: SubM| x.0), f.0) is Some
            || super::chart::first_unknown(f.1, node_keys(st.1)) is Some {
            st.3
        } else {
            st.3.push((f.0, tl.0, f.1))
        };
        (st.0, st.1, st.2, subs, st.4.drop_last(), tl.1)
    }
}

/// One (trimmed, non-empty) line of the body.
pub open spec fn line_step(st: ImportState, line: Seq<char>) -> Step {
    let lower = crate::text::lower_spec(line);
    if starts(lower, "subgraph"@) {
        let h = subgraph_header_spec(trim_spec(line.skip("subgraph"@.len() as int)));
        let sid = match h.0 {
            Some(x) => x,
            None => h.1,
        };
        Step::Next((st.0, st.1, st.2, st.3, st.4.push((sid, Seq::empty())), st.5.push((sid, h.1))))
    } else if lower == "end"@ {
        Step::Next(close_spec(st))
    } else if starts(lower, "direction "@) {
        match super::Direction::parse_spec(
            crate::text::upper_spec(trim_spec(line.skip("direction "@.len() as int))),
        ) {
            Some(d) => Step::Next((d, st.1, st.2, st.3, st.4, st.5)),
            None => Step::Next(st),
        }
    } else if starts(lower, "style "@) || starts(lower, "classdef"@) || starts(lower, "class "@) {
        Step::Next(st)
    } else {
        statement_spec(st, line)
    }
}

/// The body lines in order, each trimmed; stops at the first error.
pub open spec fn run_lines(lines: Seq<Seq<char>>, st: ImportState) -> Step
    decreases lines.len(),
{
    if lines.len() == 0 {
        Step::Next(st)
    } else {
        match line_step(st, trim_spec(lines[0])) {
            Step::Next(s2) => run_lines(lines.drop_first(), s2),
            other => other,
        }
    }
}

/// What reading a Mermaid flowchart source gives.
pub open spec fn import_spec(src: Seq<char>) -> Step {
    let ls = content_lines(lines_spec(src));
    if ls.len() == 0 {
        Step::Fail(ErrKind::Parse, "empty input"@)
    } else {
        match header_spec(trim_spec(ls[0])) {
            Err(d) => Step::Fail(ErrKind::Parse, d),
            Ok(dir) => match run_lines(
                ls.drop_first(),
                (dir, Seq::empty(), Seq::empty(), Seq::empty(), Seq::empty(), Seq::empty()),
            ) {
                Step::Next(st) => if st.1.len() == 0 {
                    Step::Fail(ErrKind::Parse, "no nodes found"@)
                } else {
                    Step::Next(st)
                },
                other => other,
            },
        }
    }
}

// ---------------------------------------------------------------------------
// Reading into a chart
// ---------------------------------------------------------------------------

pub open spec fn node_m(n: super::Node) -> NodeM {
    (n.id@, n.label@, n.shape)
}

pub open spec fn opt_seq(o: Option<String>) -> Option<Seq<char>> {
    match o {
        Some(s) => Some(s@),
        None => None,
    }
}

pub open spec fn edge_m(e: super::Edge) -> EdgeM {
    (e.from@, e.to@, opt_seq(e.label), e.line, e.arrow)
}

pub open spec fn sub_m(s: super::Subgraph) -> SubM {
    (s.id@, s.label@, string_views(s.members@))
}

pub open spec fn nodes_m(v: Seq<super::Node>) -> Seq<NodeM> {
    v.map_values(|n: super::Node| node_m(n))
}

pub open spec fn edges_m(v: Seq<super::Edge>) -> Seq<EdgeM> {
    v.map_values(|e: super::Edge| edge_m(e))
}

pub open spec fn subs_m(v: Seq<super::Subgraph>) -> Seq<SubM> {
    v.map_values(|s: super::Subgraph| sub_m(s))
}

pub open spec fn frames_m(v: Seq<(String, Vec<String>)>) -> Seq<Frame> {
    v.map_values(|f: (String, Vec<String>)| (f.0@, string_views(f.1@)))
}

pub open spec fn labels_m(v: Seq<(String, String)>) -> Labels {
    v.map_values(|p: (String, String)| (p.0@, p.1@))
}

/// A chart as read: only ids, labels, shapes, endpoints, edge labels and
/// styles, arrows, and plain groups are set.
pub open spec fn plain_chart(fc: super::Flowchart) -> bool {
    &&& fc.title is None
    &&& fc.layout == super::LayoutKind::Layered
    &&& fc.layers@.len() == 0
    &&& !fc.number_steps
    &&& forall|i: int| 0 <= i < fc.nodes@.len() ==> (#[trigger] fc.nodes@[i]).is_fresh(
        fc.nodes@[i].id@,
        fc.nodes@[i].label@,
        fc.nodes@[i].shape,
    )
    &&& forall|i: int| 0 <= i < fc.edges@.len() ==> (#[trigger] fc.edges@[i]).is_fresh(
        fc.edges@[i].from@,
        fc.edges@[i].to@,
        fc.edges@[i].label,
        fc.edges@[i].line,
        fc.edges@[i].arrow,
    )
    &&& forall|i: int|
        0 <= i < fc.subgraphs@.len() ==> (#[trigger] fc.subgraphs@[i]).kind
            == super::ContainerKind::Group && fc.subgraphs@[i].orientation is None
            && fc.subgraphs@[i].parent is None
}

/// The import state held by a chart, the open subgraphs and their titles.
pub open spec fn state_of(
    fc: super::Flowchart,
    stack: Seq<(String, Vec<String>)>,
    labels: Seq<(String, String)>,
) -> ImportState {
    (
        fc.direction,
        nodes_m(fc.nodes@),
        edges_m(fc.edges@),
        subs_m(fc.subgraphs@),
        frames_m(stack),
        labels_m(labels),
    )
}

/// The engine error matches an error kind and detail.
pub open spec fn err_is(e: crate::error::FlowError, k: ErrKind, d: Seq<char>) -> bool {
    match e {
        crate::error::FlowError::NotFound(s) => k == ErrKind::NotFound && s@ == d,
        crate::error::FlowError::InvalidInput(s) => k == ErrKind::Invalid && s@ == d,
        crate::error::FlowError::Parse(s) => k == ErrKind::Parse && s@ == d,
        crate::error::FlowError::Duplicate(_) => false,
    }
}

proof fn lemma_keys(nodes: Seq<super::Node>)
    ensures
        node_keys(nodes_m(nodes)) == node_ids(nodes),
{
    assert(node_keys(nodes_m(nodes)) =~= node_ids(nodes));
}

/// Make sure the token's node exists (see [`ensure_spec`]).
fn ensure_node(fc: &mut super::Flowchart, id: &String, shape: Option<Shape>, label: &Option<String>) -> (r: Result<(), crate::error::FlowError>)
    requires
        plain_chart(*old(fc)),
    ensures
        match ensure_spec(nodes_m(old(fc).nodes@), (id@, shape, opt_seq(*label))) {
            Ok(ns) => r is Ok && nodes_m(final(fc).nodes@) == ns && plain_chart(*final(fc))
                && final(fc).same_except_nodes(*old(fc)),
            Err(e) => r matches Err(x) && err_is(x, e.0, e.1),
        },
{
    proof {
        lemma_keys(fc.nodes@);
    }
    if fc.has_node(id.as_str()) {
        if shape.is_some() || label.is_some() {
            let l: Option<&str> = match label {
                Some(x) => Some(x.as_str()),
                None => None,
            };
            let ghost before = *fc;
            let _ = fc.update_node(id.as_str(), l, shape);
            proof {
                let i = before.node_index_spec(id@)->0;
                lemma_first_index(node_ids(before.nodes@), id@);
                assert(nodes_m(fc.nodes@) =~= nodes_m(before.nodes@).update(
                    i,
                    (nodes_m(before.nodes@)[i].0, match opt_seq(*label) {
                        Some(x) => x,
                        None => nodes_m(before.nodes@)[i].1,
                    }, match shape {
                        Some(sh) => sh,
                        None => nodes_m(before.nodes@)[i].2,
                    }),
                ));
                assert forall|j: int| 0 <= j < fc.nodes@.len() implies (#[trigger] fc.nodes@[j]).is_fresh(
                    fc.nodes@[j].id@,
                    fc.nodes@[j].label@,
                    fc.nodes@[j].shape,
                ) by {
                    if j != i {
                        assert(fc.nodes@[j] == before.nodes@[j]);
                    }
                }
            }
        }
        Ok(())
    } else {
        let l: &str = match label {
            Some(x) => x.as_str(),
            None => id.as_str(),
        };
        let sh = match shape {
            Some(x) => x,
            None => Shape::Rectangle,
        };
        let ghost before = *fc;
        let r = fc.add_node(id.as_str(), l, sh);
        proof {
            if r is Ok {
                assert(nodes_m(fc.nodes@) =~= nodes_m(before.nodes@).push(node_m(fc.nodes@.last())));
                assert forall|j: int| 0 <= j < fc.nodes@.len() implies (#[trigger] fc.nodes@[j]).is_fresh(
                    fc.nodes@[j].id@,
                    fc.nodes@[j].label@,
                    fc.nodes@[j].shape,
                ) by {
                    if j < before.nodes@.len() {
                        assert(fc.nodes@[j] == before.nodes@[j]);
                    }
                }
            }
        }
        r
    }
}

fn add_members_exec(ms: &mut Vec<String>, ids: &Vec<String>)
    ensures
        string_views(final(ms)@) == add_members(string_views(old(ms)@), string_views(ids@)),
{
    let ghost m0 = string_views(ms@);
    let mut k: usize = 0;
    while k < ids.len()
        invariant
            k <= ids.len(),
            string_views(ms@) == add_members(m0, string_views(ids@).take(k as int)),
        decreases ids.len() - k,
    {
        assert(string_views(ids@).take(k + 1).drop_last() =~= string_views(ids@).take(k as int));
        assert(string_views(ids@).take(k + 1).last() == ids@[k as int]@);
        if !super::validate::holds(ms, ids[k].as_str()) {
            proof {
                super::validate::lemma_views_push(ms@, ids@[k as int]);
            }
            ms.push(crate::text::copy_string(&ids[k]));
        }
        k += 1;
    }
    assert(string_views(ids@).take(ids.len() as int) =~= string_views(ids@));
}

fn touch_exec(stack: &mut Vec<(String, Vec<String>)>, ids: &Vec<String>)
    ensures
        frames_m(final(stack)@) == touch(frames_m(old(stack)@), string_views(ids@)),
{
    if stack.len() == 0 {
        return;
    }
    let (fid, mut ms) = stack.pop().unwrap();
    add_members_exec(&mut ms, ids);
    stack.push((fid, ms));
    assert(frames_m(stack@) =~= touch(frames_m(old(stack)@), string_views(ids@)));
}

/// What reading one line did.
pub enum LineOutcome {
    Continue,
    Failed(crate::error::FlowError),
    Unreadable,
}

fn token_string(v: &Vec<char>) -> (r: String)
    ensures
        r@ == v@,
{
    crate::text::string_of(v)
}

fn opt_token_string(v: &Option<Vec<char>>) -> (r: Option<String>)
    ensures
        opt_seq(r) == match v {
            Some(x) => Some(x@),
            None => None::<Seq<char>>,
        },
{
    match v {
        Some(x) => Some(crate::text::string_of(x)),
        None => None,
    }
}

/// Read a node or edge statement (see [`statement_spec`]).
fn apply_statement(
    fc: &mut super::Flowchart,
    stack: &mut Vec<(String, Vec<String>)>,
    line: &Vec<char>,
) -> (r: LineOutcome)
    requires
        plain_chart(*old(fc)),
    ensures
        match statement_spec(state_of(*old(fc), old(stack)@, Seq::empty()), line@) {
            Step::Next(st) => {
                &&& r is Continue
                &&& plain_chart(*final(fc))
                &&& final(fc).direction == st.0
                &&& nodes_m(final(fc).nodes@) == st.1
                &&& edges_m(final(fc).edges@) == st.2
                &&& final(fc).subgraphs == old(fc).subgraphs
                &&& frames_m(final(stack)@) == st.4
            },
            Step::Fail(k, d) => r matches LineOutcome::Failed(e) && err_is(e, k, d),
            Step::Unreadable => r is Unreadable,
        },
{
    match split_edge(line) {
        SplitExec::Unreadable => LineOutcome::Unreadable,
        SplitExec::NoEdge => {
            let (id, shape, label) = match parse_node_token(line) {
                Ok(t) => t,
                Err(d) => {
                    return LineOutcome::Failed(crate::error::FlowError::Parse(d));
                },
            };
            let ids = token_string(&id);
            let ls = opt_token_string(&label);
            match ensure_node(fc, &ids, shape, &ls) {
                Ok(()) => {},
                Err(e) => {
                    return LineOutcome::Failed(e);
                },
            }
            let mut touched: Vec<String> = Vec::new();
            touched.push(ids);
            assert(string_views(touched@) =~= seq![id@]);
            touch_exec(stack, &touched);
            LineOutcome::Continue
        },
        SplitExec::Edge(left, line_style, arrow, elabel, right) => {
            let (aid, ashape, alabel) = match parse_node_token(&left) {
                Ok(t) => t,
                Err(d) => {
                    return LineOutcome::Failed(crate::error::FlowError::Parse(d));
                },
            };
            let (bid, bshape, blabel) = match parse_node_token(&right) {
                Ok(t) => t,
                Err(d) => {
                    return LineOutcome::Failed(crate::error::FlowError::Parse(d));
                },
            };
            let a = token_string(&aid);
            let b = token_string(&bid);
            let al = opt_token_string(&alabel);
            let bl = opt_token_string(&blabel);
            let ghost f0 = *fc;
            match ensure_node(fc, &a, ashape, &al) {
                Ok(()) => {},
                Err(e) => {
                    return LineOutcome::Failed(e);
                },
            }
            let ghost f1 = *fc;
            match ensure_node(fc, &b, bshape, &bl) {
                Ok(()) => {},
                Err(e) => {
                    return LineOutcome::Failed(e);
                },
            }
            let ghost f2 = *fc;
            proof {
                lemma_keys(f1.nodes@);
                lemma_keys(f2.nodes@);
                lemma_ensure_has(nodes_m(f0.nodes@), (a@, ashape, opt_seq(al)));
                lemma_ensure_has(nodes_m(f1.nodes@), (b@, bshape, opt_seq(bl)));
                lemma_ensure_keeps(nodes_m(f1.nodes@), (b@, bshape, opt_seq(bl)), a@);
            }
            let el = opt_token_string(&elabel);
            match fc.add_edge(a.as_str(), b.as_str(), el, line_style, arrow) {
                Ok(_) => {},
                Err(e) => {
                    return LineOutcome::Failed(e);
                },
            }
            proof {
                assert(edges_m(fc.edges@) =~= edges_m(f2.edges@).push(edge_m(fc.edges@.last())));
                assert forall|j: int| 0 <= j < fc.edges@.len() implies (#[trigger] fc.edges@[j]).is_fresh(
                    fc.edges@[j].from@,
                    fc.edges@[j].to@,
                    fc.edges@[j].label,
                    fc.edges@[j].line,
                    fc.edges@[j].arrow,
                ) by {
                    if j < f2.edges@.len() {
                        assert(fc.edges@[j] == f2.edges@[j]);
                    }
                }
            }
            let mut touched: Vec<String> = Vec::new();
            touched.push(a);
            touched.push(b);
            assert(string_views(touched@) =~= seq![aid@, bid@]);
            touch_exec(stack, &touched);
            LineOutcome::Continue
        },
    }
}

/// After `ensure_spec` succeeds, the token's node exists.
proof fn lemma_ensure_has(nodes: Seq<NodeM>, t: NodeToken)
    requires
        ensure_spec(nodes, t) is Ok,
    ensures
        first_index(node_keys(ensure_spec(nodes, t)->Ok_0), t.0) is Some,
{
    let r = ensure_spec(nodes, t)->Ok_0;
    lemma_first_index(node_keys(nodes), t.0);
    match first_index(node_keys(nodes), t.0) {
        Some(i) => {
            assert(node_keys(r)[i] == t.0);
            lemma_first_index(node_keys(r), t.0);
        },
        None => {
            assert(node_keys(r) =~= node_keys(nodes).push(t.0));
            lemma_first_index_push(node_keys(nodes), t.0, t.0);
        },
    }
}

/// `ensure_spec` keeps every existing id.
proof fn lemma_ensure_keeps(nodes: Seq<NodeM>, t: NodeToken, k: Seq<char>)
    requires
        ensure_spec(nodes, t) is Ok,
        first_index(node_keys(nodes), k) is Some,
    ensures
        first_index(node_keys(ensure_spec(nodes, t)->Ok_0), k) is Some,
{
    let r = ensure_spec(nodes, t)->Ok_0;
    lemma_first_index(node_keys(nodes), k);
    let j = first_index(node_keys(nodes), k)->0;
    match first_index(node_keys(nodes), t.0) {
        Some(i) => {
            lemma_first_index(node_keys(nodes), t.0);
            assert(node_keys(r).len() == node_keys(nodes).len());
            assert forall|q: int| 0 <= q < node_keys(nodes).len() implies node_keys(r)[q] == node_keys(
                nodes,
            )[q] by {
                if q == i {
                    assert(node_keys(nodes)[i] == t.0);
                }
            }
            assert(node_keys(r) =~= node_keys(nodes));
        },
        None => {
            assert(node_keys(r) =~= node_keys(nodes).push(t.0));
            lemma_first_index_push(node_keys(nodes), t.0, k);
        },
    }
}

proof fn lemma_sub_keys(v: Seq<super::Subgraph>)
    ensures
        subs_m(v).map_values(|x: SubM| x.0) == super::subgraph_ids(v),
{
    assert(subs_m(v).map_values(|x: SubM| x.0) =~= super::subgraph_ids(v));
}

fn find_label(labels: &Vec<(String, String)>, id: &String) -> (r: Option<usize>)
    ensures
        match r {
            Some(k) => first_index(labels_m(labels@).map_values(|p: (Seq<char>, Seq<char>)| p.0), id@)
                == Some(k as int),
            None => first_index(labels_m(labels@).map_values(|p: (Seq<char>, Seq<char>)| p.0), id@) is None,
        },
        r matches Some(k) ==> k < labels@.len(),
{
    let ghost keys = labels_m(labels@).map_values(|p: (Seq<char>, Seq<char>)| p.0);
    let mut k: usize = 0;
    while k < labels.len()
        invariant
            k <= labels@.len(),
            keys == labels_m(labels@).map_values(|p: (Seq<char>, Seq<char>)| p.0),
            forall|j: int| 0 <= j < k ==> keys[j] != id@,
        decreases labels.len() - k,
    {
        if crate::text::str_eq(labels[k].0.as_str(), id.as_str()) {
            proof {
                lemma_first_index(keys, id@);
                if let Some(q) = first_index(keys, id@) {
                    if q < k {
                        assert(keys[q] != id@);
                    }
                }
                assert(keys[k as int] == id@);
            }
            return Some(k);
        }
        k += 1;
    }
    proof {
        lemma_first_index(keys, id@);
    }
    None
}

/// Close the innermost open subgraph (see [`close_spec`]).
fn close_subgraph(
    fc: &mut super::Flowchart,
    stack: &mut Vec<(String, Vec<String>)>,
    labels: &mut Vec<(String, String)>,
)
    requires
        plain_chart(*old(fc)),
    ensures
        state_of(*final(fc), final(stack)@, final(labels)@) == close_spec(
            state_of(*old(fc), old(stack)@, old(labels)@),
        ),
        plain_chart(*final(fc)),
{
    let ghost st0 = state_of(*fc, stack@, labels@);
    if stack.len() == 0 {
        return;
    }
    let (id, members) = stack.pop().unwrap();
    assert(frames_m(stack@) =~= st0.4.drop_last());
    let ghost l0 = labels@;
    let label = match find_label(labels, &id) {
        Some(k) => {
            let (_, l) = labels.remove(k);
            assert(labels_m(labels@) =~= labels_m(l0).remove(k as int));
            l
        },
        None => crate::text::copy_string(&id),
    };
    proof {
        lemma_sub_keys(fc.subgraphs@);
        lemma_keys(fc.nodes@);
    }
    let ghost before = *fc;
    let _ = fc.add_subgraph(id.as_str(), label.as_str(), members, super::ContainerKind::Group, None, None);
    proof {
        if fc.subgraphs@.len() == before.subgraphs@.len() + 1 {
            assert(subs_m(fc.subgraphs@) =~= subs_m(before.subgraphs@).push(sub_m(fc.subgraphs@.last())));
            assert forall|j: int| 0 <= j < fc.subgraphs@.len() implies (#[trigger] fc.subgraphs@[j]).kind
                == super::ContainerKind::Group && fc.subgraphs@[j].orientation is None
                && fc.subgraphs@[j].parent is None by {
                if j < before.subgraphs@.len() {
                    assert(fc.subgraphs@[j] == before.subgraphs@[j]);
                }
            }
        }
    }
}

/// Read one trimmed body line (see [`line_step`]).
fn apply_line(
    fc: &mut super::Flowchart,
    stack: &mut Vec<(String, Vec<String>)>,
    labels: &mut Vec<(String, String)>,
    line: &Vec<char>,
) -> (r: LineOutcome)
    requires
        plain_chart(*old(fc)),
    ensures
        match line_step(state_of(*old(fc), old(stack)@, old(labels)@), line@) {
            Step::Next(st) => r is Continue && state_of(*final(fc), final(stack)@, final(labels)@)
                == st && plain_chart(*final(fc)),
            Step::Fail(k, d) => r matches LineOutcome::Failed(e) && err_is(e, k, d),
            Step::Unreadable => r is Unreadable,
        },
{
    let lower = crate::text::to_lower(line);
    if starts_with(&lower, "subgraph") {
        let n = chars_of("subgraph").len();
        let rest = slice_of(line, n, line.len());
        assert(rest@ =~= line@.skip("subgraph"@.len() as int));
        let title = trim(&rest);
        let (id, label) = parse_subgraph_header(&title);
        let sid = match id {
            Some(x) => x,
            None => slice_of(&label, 0, label.len()),
        };
        assert(label@.subrange(0, label@.len() as int) =~= label@);
        let ghost s0 = frames_m(stack@);
        let ghost l0 = labels_m(labels@);
        let empty: Vec<String> = Vec::new();
        assert(string_views(empty@) =~= Seq::<Seq<char>>::empty());
        stack.push((crate::text::string_of(&sid), empty));
        labels.push((crate::text::string_of(&sid), crate::text::string_of(&label)));
        proof {
            assert(frames_m(stack@) =~= s0.push((sid@, Seq::empty())));
            assert(labels_m(labels@) =~= l0.push((sid@, label@)));
        }
        return LineOutcome::Continue;
    }
    if crate::text::eq_lit(&lower, "end") {
        close_subgraph(fc, stack, labels);
        return LineOutcome::Continue;
    }
    if starts_with(&lower, "direction ") {
        let n = chars_of("direction ").len();
        let rest = slice_of(line, n, line.len());
        assert(rest@ =~= line@.skip("direction "@.len() as int));
        let t = trim(&rest);
        let ts = crate::text::string_of(&t);
        if let Some(d) = super::Direction::parse(ts.as_str()) {
            fc.set_direction(d);
        }
        return LineOutcome::Continue;
    }
    if starts_with(&lower, "style ") || starts_with(&lower, "classdef") || starts_with(&lower, "class ") {
        return LineOutcome::Continue;
    }
    let ghost l0 = labels@;
    let ghost st0 = state_of(*fc, stack@, labels@);
    let ghost fc0 = *fc;
    let r = apply_statement(fc, stack, line);
    proof {
        assert(state_of(fc0, old(stack)@, Seq::empty()).4 == st0.4);
        match statement_spec(st0, line@) {
            Step::Next(st) => {
                assert(statement_spec(state_of(fc0, old(stack)@, Seq::empty()), line@) == Step::Next(
                    (st.0, st.1, st.2, st.3, st.4, labels_m(Seq::<(String, String)>::empty())),
                ));
            },
            _ => {},
        }
    }
    r
}

/// What a kept line contributes to the content lines.
pub open spec fn content_piece(l: Seq<char>) -> Seq<Seq<char>> {
    let c = strip_comment_spec(l);
    if trim_spec(c).len() == 0 {
        Seq::empty()
    } else {
        seq![c]
    }
}

proof fn lemma_content_push(ls: Seq<Seq<char>>, l: Seq<char>)
    ensures
        content_lines(ls.push(l)) == content_lines(ls) + content_piece(l),
    decreases ls.len(),
{
    if ls.len() == 0 {
        assert(ls.push(l).drop_first() =~= Seq::<Seq<char>>::empty());
        assert(content_lines(Seq::<Seq<char>>::empty()) =~= Seq::<Seq<char>>::empty());
        assert(content_lines(ls.push(l)) =~= content_piece(l));
    } else {
        assert(ls.push(l).drop_first() =~= ls.drop_first().push(l));
        lemma_content_push(ls.drop_first(), l);
        assert(ls.push(l)[0] == ls[0]);
        assert(content_lines(ls.push(l)) =~= content_lines(ls) + content_piece(l));
    }
}

/// A chart read from Mermaid: the state's direction, nodes, edges and
/// groups, nothing else set.
pub open spec fn chart_read(fc: super::Flowchart, st: ImportState) -> bool {
    &&& fc.direction == st.0
    &&& nodes_m(fc.nodes@) == st.1
    &&& edges_m(fc.edges@) == st.2
    &&& subs_m(fc.subgraphs@) == st.3
    &&& plain_chart(fc)
}

/// The result of reading a Mermaid source.
pub enum ImportResult {
    Chart(super::Flowchart),
    Failed(crate::error::FlowError),
    Unreadable,
}

fn content_of(src: &str) -> (r: Vec<Vec<char>>)
    ensures
        r@.map_values(|l: Vec<char>| l@) == content_lines(lines_spec(src@)),
{
    let v = chars_of(src);
    let raw = split_lines(&v);
    let ghost rv = raw@.map_values(|l: Vec<char>| l@);
    let mut out: Vec<Vec<char>> = Vec::new();
    let mut k: usize = 0;
    assert(rv.take(0) =~= Seq::<Seq<char>>::empty());
    assert(content_lines(Seq::<Seq<char>>::empty()) =~= Seq::<Seq<char>>::empty());
    while k < raw.len()
        invariant
            k <= raw@.len(),
            rv == raw@.map_values(|l: Vec<char>| l@),
            out@.map_values(|l: Vec<char>| l@) == content_lines(rv.take(k as int)),
        decreases raw.len() - k,
    {
        proof {
            assert(rv.take(k + 1) =~= rv.take(k as int).push(raw@[k as int]@));
            lemma_content_push(rv.take(k as int), raw@[k as int]@);
        }
        let c = strip_comment(&raw[k]);
        if !crate::text::blank(&c) {
            let ghost before = out@.map_values(|l: Vec<char>| l@);
            out.push(c);
            assert(out@.map_values(|l: Vec<char>| l@) =~= before + seq![c@]);
        } else {
            assert(content_piece(raw@[k as int]@) =~= Seq::<Seq<char>>::empty());
        }
        k += 1;
    }
    assert(rv.take(raw.len() as int) =~= rv);
    out
}

/// Read a Mermaid flowchart source (see [`import_spec`]).
pub fn parse_mermaid(src: &str) -> (r: ImportResult)
    ensures
        match import_spec(src@) {
            Step::Next(st) => r matches ImportResult::Chart(fc) && chart_read(fc, st),
            Step::Fail(k, d) => r matches ImportResult::Failed(e) && err_is(e, k, d),
            Step::Unreadable => r is Unreadable,
        },
{
    let ls = content_of(src);
    let ghost lv = ls@.map_values(|l: Vec<char>| l@);
    if ls.len() == 0 {
        return ImportResult::Failed(crate::error::FlowError::Parse(crate::text::owned("empty input")));
    }
    let header = trim(&ls[0]);
    assert(lv[0] == ls@[0]@);
    let dir = match parse_header(&header) {
        Ok(d) => d,
        Err(m) => {
            return ImportResult::Failed(crate::error::FlowError::Parse(m));
        },
    };
    let mut fc = super::Flowchart::new(dir);
    let mut stack: Vec<(String, Vec<String>)> = Vec::new();
    let mut labels: Vec<(String, String)> = Vec::new();
    let ghost st0: ImportState = (dir, Seq::empty(), Seq::empty(), Seq::empty(), Seq::empty(), Seq::empty());
    proof {
        assert(state_of(fc, stack@, labels@) =~~= st0);
        assert(lv.drop_first() =~= lv.skip(1));
    }
    let mut k: usize = 1;
    while k < ls.len()
        invariant
            1 <= k <= ls@.len(),
            lv == ls@.map_values(|l: Vec<char>| l@),
            lv == content_lines(lines_spec(src@)),
            header_spec(trim_spec(lv[0])) == Ok::<super::Direction, Seq<char>>(dir),
            st0 == (dir, Seq::<NodeM>::empty(), Seq::<EdgeM>::empty(), Seq::<SubM>::empty(), Seq::<Frame>::empty(), Seq::<(Seq<char>, Seq<char>)>::empty()),
            plain_chart(fc),
            run_lines(lv.drop_first(), st0) == run_lines(lv.skip(k as int), state_of(fc, stack@, labels@)),
        decreases ls.len() - k,
    {
        let line = trim(&ls[k]);
        proof {
            assert(lv.skip(k as int)[0] == ls@[k as int]@);
            assert(lv.skip(k as int).drop_first() =~= lv.skip(k + 1));
        }
        match apply_line(&mut fc, &mut stack, &mut labels, &line) {
            LineOutcome::Continue => {},
            LineOutcome::Failed(e) => {
                return ImportResult::Failed(e);
            },
            LineOutcome::Unreadable => {
                return ImportResult::Unreadable;
            },
        }
        k += 1;
    }
    proof {
        assert(lv.skip(k as int) =~= Seq::<Seq<char>>::empty());
    }
    if fc.nodes.len() == 0 {
        return ImportResult::Failed(crate::error::FlowError::Parse(crate::text::owned("no nodes found")));
    }
    ImportResult::Chart(fc)
}

/// Parse Mermaid flowchart text into a [`super::Flowchart`]. The source
/// must be one whose statements can be scanned (see the module notes).
pub fn from_mermaid(src: &str) -> (r: Result<super::Flowchart, crate::error::FlowError>)
    requires
        !(import_spec(src@) is Unreadable),
    ensures
        match import_spec(src@) {
            Step::Next(st) => r matches Ok(fc) && chart_read(fc, st),
            Step::Fail(k, d) => r matches Err(e) && err_is(e, k, d),
            Step::Unreadable => false,
        },
{
    match parse_mermaid(src) {
        ImportResult::Chart(fc) => Ok(fc),
        ImportResult::Failed(e) => Err(e),
        ImportResult::Unreadable => Err(crate::error::FlowError::Parse(crate::text::owned("unreadable statement"))),
    }
}

} // verus!
