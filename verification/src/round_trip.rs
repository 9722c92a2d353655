//! Reading a chart's Mermaid export back: for charts with plain ids and
//! labels, the importer gives back the direction, the nodes and the edges.

use vstd::prelude::*;

use crate::engine::export::{
    mermaid_edge_line, mermaid_edge_spec, mermaid_style_line, mermaid_style_spec, mermaid_top_node,
    node_token, to_mermaid_spec,
};
use crate::engine::import::{
    connector_start, content_lines, ensure_spec, first_open, line_step, lines_spec, node_keys,
    arrow_after_spec, connector_spec, edge_m, edges_m, header_spec, import_spec, inline_doubled, inline_dotted, opt_seq, pipe_label_spec,
    plain_from, Conn, EdgeM, node_token_spec, run_lines, shape_body_from, split_from, starts, statement_spec,
    strip_comment_spec, touch, ImportState, NodeM, Split, Step,
};
use crate::engine::{first_index, lemma_first_index, node_ids, Direction, Edge, Flowchart, LineStyle, Node, Shape};
use crate::laws::{law_shape_body_inverts_wrap, mermaid_read_shape};
use crate::text::{
    char_is_whitespace, ident_spec, is_blank, find_char_spec, find_from, find_spec, is_ascii_alnum, lead_ws,
    lemma_find_from_bounds, lemma_trail_ws_bound, upper_spec, lower_char_spec, trim_start_spec, lower_spec, occurs_at, trail_ws, trim_spec,
};

verus! {

/// Lines joined, each ended by a line feed.
pub open spec fn unlines(ls: Seq<Seq<char>>) -> Seq<char>
    decreases ls.len(),
{
    if ls.len() == 0 {
        Seq::empty()
    } else {
        ls[0] + seq!['\n'] + unlines(ls.drop_first())
    }
}

/// A line with no line feed in it and no carriage return at its end.
pub open spec fn one_line(l: Seq<char>) -> bool {
    &&& forall|i: int| 0 <= i < l.len() ==> #[trigger] l[i] != '\n'
    &&& (l.len() == 0 || l.last() != '\r')
}

proof fn lemma_unlines_add(a: Seq<Seq<char>>, b: Seq<Seq<char>>)
    ensures
        unlines(a + b) == unlines(a) + unlines(b),
    decreases a.len(),
{
    if a.len() == 0 {
        assert(a + b =~= b);
        assert(unlines(a) + unlines(b) =~= unlines(b));
    } else {
        assert((a + b).drop_first() =~= a.drop_first() + b);
        lemma_unlines_add(a.drop_first(), b);
        assert((a + b)[0] == a[0]);
        assert(unlines(a + b) =~= unlines(a) + unlines(b));
    }
}

/// `p` first occurs in `s` at `k` when it occurs there and its first
/// character does not stand earlier.
proof fn lemma_find_first(s: Seq<char>, p: Seq<char>, k: int)
    requires
        p.len() > 0,
        occurs_at(s, p, k),
        forall|j: int| 0 <= j < k ==> #[trigger] s[j] != p[0],
    ensures
        find_spec(s, p) == Some(k),
{
    lemma_find_from_bounds(s, p, 0);
    match find_from(s, p, 0) {
        Some(k2) => {
            if k2 < k {
                assert(s.subrange(k2, k2 + p.len())[0] == s[k2]);
            }
        },
        None => {},
    }
}

/// `p` does not occur in `s` when its first character stands nowhere in it.
proof fn lemma_find_none(s: Seq<char>, p: Seq<char>)
    requires
        p.len() > 0,
        forall|j: int| 0 <= j < s.len() ==> #[trigger] s[j] != p[0],
    ensures
        find_spec(s, p) is None,
{
    lemma_find_from_bounds(s, p, 0);
    match find_from(s, p, 0) {
        Some(k2) => {
            assert(s.subrange(k2, k2 + p.len())[0] == s[k2]);
        },
        None => {},
    }
}

/// Splitting joined lines gives the lines back.
proof fn lemma_lines_unlines(ls: Seq<Seq<char>>)
    requires
        forall|i: int| 0 <= i < ls.len() ==> one_line(#[trigger] ls[i]),
    ensures
        lines_spec(unlines(ls)) == ls,
    decreases ls.len(),
{
    if ls.len() == 0 {
        assert(lines_spec(unlines(ls)) =~= ls);
    } else {
        let l = ls[0];
        let rest = ls.drop_first();
        let s = unlines(ls);
        assert(one_line(l));
        assert forall|i: int| 0 <= i < rest.len() implies one_line(#[trigger] rest[i]) by {
            assert(rest[i] == ls[i + 1]);
        }
        lemma_lines_unlines(rest);
        assert(s == l + seq!['\n'] + unlines(rest));
        assert(s[l.len() as int] == '\n');
        assert(s.subrange(l.len() as int, l.len() as int + 1) =~= seq!['\n']);
        assert forall|j: int| 0 <= j < l.len() implies #[trigger] s[j] != seq!['\n'][0] by {
            assert(s[j] == l[j]);
        }
        lemma_find_first(s, seq!['\n'], l.len() as int);
        assert(find_char_spec(s, '\n') == Some(l.len() as int));
        assert(s.take(l.len() as int) =~= l);
        assert(s.skip(l.len() as int + 1) =~= unlines(rest));
        assert(lines_spec(s) =~= seq![l] + rest);
        assert(seq![l] + rest =~= ls);
    }
}

/// A line with no `%` that holds more than whitespace.
pub open spec fn content_line(l: Seq<char>) -> bool {
    &&& forall|i: int| 0 <= i < l.len() ==> #[trigger] l[i] != '%'
    &&& trim_spec(l).len() > 0
}

proof fn lemma_content_lines_id(ls: Seq<Seq<char>>)
    requires
        forall|i: int| 0 <= i < ls.len() ==> content_line(#[trigger] ls[i]),
    ensures
        content_lines(ls) == ls,
    decreases ls.len(),
{
    reveal_strlit("%%");
    if ls.len() > 0 {
        let l = ls[0];
        assert(content_line(l));
        lemma_find_none(l, "%%"@);
        assert(strip_comment_spec(l) == l);
        let rest = ls.drop_first();
        assert forall|i: int| 0 <= i < rest.len() implies content_line(#[trigger] rest[i]) by {
            assert(rest[i] == ls[i + 1]);
        }
        lemma_content_lines_id(rest);
        assert(seq![l] + rest =~= ls);
    }
}

/// Running two runs of lines one after the other.
proof fn lemma_run_lines_add(a: Seq<Seq<char>>, b: Seq<Seq<char>>, st: ImportState)
    ensures
        run_lines(a + b, st) == match run_lines(a, st) {
            Step::Next(s2) => run_lines(b, s2),
            other => other,
        },
    decreases a.len(),
{
    if a.len() == 0 {
        assert(a + b =~= b);
    } else {
        assert((a + b).drop_first() =~= a.drop_first() + b);
        assert((a + b)[0] == a[0]);
        match crate::engine::import::line_step(st, trim_spec(a[0])) {
            Step::Next(s2) => {
                lemma_run_lines_add(a.drop_first(), b, s2);
            },
            _ => {},
        }
    }
}


/// A character the connector scanner passes over: ASCII, and neither `-`
/// nor `=`.
pub open spec fn passable(c: char) -> bool {
    (c as u32) < 128 && c != '-' && c != '='
}

/// The scanner passes over a stretch of passable characters.
proof fn lemma_split_skip(line: Seq<char>, p: int, q: int)
    requires
        0 <= p <= q <= line.len(),
        forall|i: int| p <= i < q ==> passable(#[trigger] line[i]),
    ensures
        split_from(line, p) == split_from(line, q),
    decreases q - p,
{
    reveal_strlit("--");
    reveal_strlit("-.");
    reveal_strlit("==");
    if p < q {
        let rest = line.skip(p);
        assert(rest[0] == line[p]);
        if starts(rest, "--"@) {
            assert(rest.subrange(0, 2)[0] == rest[0]);
        }
        if starts(rest, "-."@) {
            assert(rest.subrange(0, 2)[0] == rest[0]);
        }
        if starts(rest, "=="@) {
            assert(rest.subrange(0, 2)[0] == rest[0]);
        }
        assert(!connector_start(rest));
        lemma_split_skip(line, p + 1, q);
    }
}

/// `[`, `(` or `{`: a character that opens a node body.
pub open spec fn opener(c: char) -> bool {
    c == '[' || c == '(' || c == '{'
}

proof fn lemma_first_open_skip(t: Seq<char>, p: int, q: int)
    requires
        0 <= p <= q <= t.len(),
        forall|i: int| p <= i < q ==> !opener(#[trigger] t[i]),
    ensures
        first_open(t, p) == first_open(t, q),
    decreases q - p,
{
    if p < q {
        lemma_first_open_skip(t, p + 1, q);
    }
}

/// Whitespace at neither end: trimming changes nothing.
proof fn lemma_trim_id(x: Seq<char>)
    requires
        x.len() > 0,
        !char_is_whitespace(x[0]),
        !char_is_whitespace(x.last()),
    ensures
        trim_spec(x) == x,
{
    assert(lead_ws(x) == 0);
    assert(x.skip(0) =~= x);
    assert(trail_ws(x) == 0);
    assert(x.take(x.len() as int) =~= x);
}

/// Four spaces in front are trimmed away.
proof fn lemma_trim_indent(x: Seq<char>)
    requires
        x.len() > 0,
        !char_is_whitespace(x[0]),
        !char_is_whitespace(x.last()),
    ensures
        trim_spec(seq![' ', ' ', ' ', ' '] + x) == x,
{
    let w = seq![' ', ' ', ' ', ' '] + x;
    assert(w.drop_first() =~= seq![' ', ' ', ' '] + x);
    assert(w.drop_first().drop_first() =~= seq![' ', ' '] + x);
    assert(w.drop_first().drop_first().drop_first() =~= seq![' '] + x);
    assert(w.drop_first().drop_first().drop_first().drop_first() =~= x);
    assert(lead_ws(x) == 0);
    assert(lead_ws(seq![' '] + x) == 1);
    assert(lead_ws(seq![' ', ' '] + x) == 2);
    assert(lead_ws(seq![' ', ' ', ' '] + x) == 3);
    assert(lead_ws(w) == 4);
    assert(w.skip(4) =~= x);
    lemma_trim_id(x);
}

/// One space after `x` is trimmed away.
proof fn lemma_trim_space_after(x: Seq<char>)
    requires
        x.len() > 0,
        !char_is_whitespace(x[0]),
        !char_is_whitespace(x.last()),
    ensures
        trim_spec(x + seq![' ']) == x,
{
    let w = x + seq![' '];
    assert(lead_ws(w) == 0);
    assert(w.skip(0) =~= w);
    assert(w.drop_last() =~= x);
    assert(trail_ws(x) == 0);
    assert(trail_ws(w) == 1);
    assert(w.take(w.len() - 1) =~= x);
}

/// One space before `x` is trimmed away.
proof fn lemma_trim_space_before(x: Seq<char>)
    requires
        x.len() > 0,
        !char_is_whitespace(x[0]),
        !char_is_whitespace(x.last()),
    ensures
        trim_spec(seq![' '] + x) == x,
{
    let w = seq![' '] + x;
    assert(w.drop_first() =~= x);
    assert(lead_ws(x) == 0);
    assert(lead_ws(w) == 1);
    assert(w.skip(1) =~= x);
    lemma_trim_id(x);
}

/// A keyword of lower-case letters that the lower-cased `id` does not start
/// with does not start the lower-cased `id` followed by a non-letter.
proof fn lemma_not_keyword(id: Seq<char>, tail: Seq<char>, w: Seq<char>)
    requires
        !starts(lower_spec(id), w),
        forall|i: int| 0 <= i < w.len() ==> 'a' <= #[trigger] w[i] <= 'z',
        tail.len() > 0,
        !('a' <= tail[0] <= 'z' || 'A' <= tail[0] <= 'Z'),
    ensures
        !starts(lower_spec(id + tail), w),
{
    let l = lower_spec(id + tail);
    assert(l =~= lower_spec(id) + lower_spec(tail));
    if starts(l, w) {
        if id.len() >= w.len() {
            assert(l.subrange(0, w.len() as int) =~= lower_spec(id).subrange(0, w.len() as int));
        } else {
            assert(l.subrange(0, w.len() as int)[id.len() as int] == l[id.len() as int]);
            assert(l[id.len() as int] == lower_char_spec(tail[0]));
        }
    }
}

/// A prefix of a prefix.
proof fn lemma_starts_prefix(s: Seq<char>, w: Seq<char>, n: int)
    requires
        starts(s, w),
        0 <= n <= w.len(),
    ensures
        starts(s, w.take(n)),
{
    assert(s.subrange(0, n) =~= s.subrange(0, w.len() as int).take(n));
}


/// A character of a plain id: an ASCII letter or digit, or `_`.
pub open spec fn id_char(c: char) -> bool {
    is_ascii_alnum(c) || c == '_'
}

/// A plain node id: an ASCII letter, then ASCII letters, digits and `_`,
/// not starting (in any case) with a word the importer reads as a keyword.
pub open spec fn plain_id(id: Seq<char>) -> bool {
    &&& id.len() > 0
    &&& ('a' <= id[0] <= 'z' || 'A' <= id[0] <= 'Z')
    &&& forall|i: int| 0 <= i < id.len() ==> id_char(#[trigger] id[i])
    &&& !starts(lower_spec(id), "subgraph"@)
    &&& !starts(lower_spec(id), "class"@)
    &&& !starts(lower_spec(id), "style"@)
    &&& !starts(lower_spec(id), "direction"@)
}

/// A plain label: ASCII letters, digits and spaces, starting and ending
/// with a letter or digit.
pub open spec fn plain_text(l: Seq<char>) -> bool {
    &&& l.len() > 0
    &&& forall|i: int| 0 <= i < l.len() ==> is_ascii_alnum(#[trigger] l[i]) || l[i] == ' '
    &&& is_ascii_alnum(l[0])
    &&& is_ascii_alnum(l.last())
}

/// A node with a plain id and a plain, non-HTML label.
pub open spec fn plain_node(n: Node) -> bool {
    &&& plain_id(n.id@)
    &&& n.html != Some(true)
    &&& plain_text(n.label@)
}

/// What the importer makes of a plain node's Mermaid line.
pub open spec fn read_node(n: Node) -> NodeM {
    (n.id@, n.label@, mermaid_read_shape(n.shape))
}

/// A node's Mermaid line without its indent and line feed.
pub open spec fn node_text(n: Node) -> Seq<char> {
    n.id@ + n.shape.mermaid_wrap_spec(n.label@)
}

/// Four spaces.
pub open spec fn indent() -> Seq<char> {
    seq![' ', ' ', ' ', ' ']
}

/// A plain id is its own Mermaid token.
proof fn lemma_plain_token(id: Seq<char>)
    requires
        plain_id(id),
    ensures
        node_token(id) == id,
{
    let t = id.map_values(|c: char| crate::text::ident_char(c));
    assert forall|i: int| 0 <= i < id.len() implies t[i] == id[i] by {
        assert(id_char(id[i]));
    }
    assert(t =~= id);
}

/// The Mermaid delimiters of every shape: an opener first, and characters
/// the scanner passes over.
proof fn lemma_delims(sh: Shape)
    ensures
        sh.mermaid_delims().0.len() > 0,
        sh.mermaid_delims().1.len() > 0,
        opener(sh.mermaid_delims().0[0]),
        forall|i: int|
            0 <= i < sh.mermaid_delims().0.len() ==> passable(#[trigger] sh.mermaid_delims().0[i])
                && sh.mermaid_delims().0[i] != '\n' && sh.mermaid_delims().0[i] != '%'
                && sh.mermaid_delims().0[i] != '\r' && !is_ascii_alnum(sh.mermaid_delims().0[i]),
        forall|i: int|
            0 <= i < sh.mermaid_delims().1.len() ==> passable(#[trigger] sh.mermaid_delims().1[i])
                && sh.mermaid_delims().1[i] != '\n' && sh.mermaid_delims().1[i] != '%'
                && sh.mermaid_delims().1[i] != '\r' && !char_is_whitespace(sh.mermaid_delims().1[i]),
{
    reveal_strlit("(((");
    reveal_strlit(")))");
    reveal_strlit("((");
    reveal_strlit("))");
    reveal_strlit("([");
    reveal_strlit("])");
    reveal_strlit("[[");
    reveal_strlit("]]");
    reveal_strlit("[(");
    reveal_strlit(")]");
    reveal_strlit("{{");
    reveal_strlit("}}");
    reveal_strlit("[/");
    reveal_strlit("/]");
    reveal_strlit("[\\");
    reveal_strlit("\\]");
    reveal_strlit("(");
    reveal_strlit(")");
    reveal_strlit("{");
    reveal_strlit("}");
    reveal_strlit("[");
    reveal_strlit("]");
}

/// The line-step keywords do not start a line that begins with a plain id
/// followed by a non-letter.
proof fn lemma_no_keyword(id: Seq<char>, tail: Seq<char>)
    requires
        plain_id(id),
        tail.len() > 0,
        !('a' <= tail[0] <= 'z' || 'A' <= tail[0] <= 'Z'),
    ensures
        ({
            let lower = lower_spec(id + tail);
            &&& !starts(lower, "subgraph"@)
            &&& (id + tail).len() > 3 ==> lower != "end"@
            &&& !starts(lower, "direction "@)
            &&& !starts(lower, "style "@)
            &&& !starts(lower, "classdef"@)
            &&& !starts(lower, "class "@)
        }),
{
    reveal_strlit("subgraph");
    reveal_strlit("class");
    reveal_strlit("style");
    reveal_strlit("direction");
    reveal_strlit("direction ");
    reveal_strlit("style ");
    reveal_strlit("classdef");
    reveal_strlit("class ");
    reveal_strlit("end");
    let lower = lower_spec(id + tail);
    lemma_not_keyword(id, tail, "subgraph"@);
    lemma_not_keyword(id, tail, "class"@);
    lemma_not_keyword(id, tail, "style"@);
    lemma_not_keyword(id, tail, "direction"@);
    if starts(lower, "direction "@) {
        lemma_starts_prefix(lower, "direction "@, 9);
        assert("direction "@.take(9) =~= "direction"@);
    }
    if starts(lower, "style "@) {
        lemma_starts_prefix(lower, "style "@, 5);
        assert("style "@.take(5) =~= "style"@);
    }
    if starts(lower, "classdef"@) {
        lemma_starts_prefix(lower, "classdef"@, 5);
        assert("classdef"@.take(5) =~= "class"@);
    }
    if starts(lower, "class "@) {
        lemma_starts_prefix(lower, "class "@, 5);
        assert("class "@.take(5) =~= "class"@);
    }
}


/// A plain node's Mermaid line adds the node, as read back, to the nodes
/// read so far when its id is new.
#[verifier::spinoff_prover]
#[verifier::rlimit(40)]
proof fn lemma_node_line(st: ImportState, n: Node)
    requires
        plain_node(n),
        first_index(node_keys(st.1), n.id@) is None,
        st.4.len() == 0,
    ensures
        line_step(st, trim_spec(indent() + node_text(n))) == Step::Next(
            (st.0, st.1.push(read_node(n)), st.2, st.3, st.4, st.5),
        ),
{
    reveal_strlit("end");
    let id = n.id@;
    let l = n.label@;
    let sh = n.shape;
    let o = sh.mermaid_delims().0;
    let c = sh.mermaid_delims().1;
    let w = sh.mermaid_wrap_spec(l);
    let t = node_text(n);
    lemma_delims(sh);
    assert(t =~= id + o + l + c);
    assert(w =~= o + l + c);
    assert(t[0] == id[0]);
    assert(t.last() == c.last());
    assert(!char_is_whitespace(t[0]));
    assert(indent() + t =~= seq![' ', ' ', ' ', ' '] + t);
    lemma_trim_indent(t);
    lemma_trim_id(t);
    assert(w[0] == o[0]);
    lemma_no_keyword(id, w);
    assert(t == id + w);
    assert(lower_spec(t).len() == t.len());
    assert(t.len() > 3);
    assert forall|i: int| 0 <= i < t.len() implies passable(#[trigger] t[i]) by {
        if i < id.len() {
            assert(t[i] == id[i]);
            assert(id_char(id[i]));
        } else if i < id.len() + o.len() {
            assert(t[i] == o[i - id.len()]);
        } else if i < id.len() + o.len() + l.len() {
            assert(t[i] == l[i - id.len() - o.len()]);
        } else {
            assert(t[i] == c[i - id.len() - o.len() - l.len()]);
        }
    }
    lemma_split_skip(t, 0, t.len() as int);
    assert(split_from(t, 0) == Split::NoEdge);
    assert forall|i: int| 0 <= i < id.len() implies !opener(#[trigger] t[i]) by {
        assert(t[i] == id[i]);
        assert(id_char(id[i]));
    }
    lemma_first_open_skip(t, 0, id.len() as int);
    assert(t[id.len() as int] == o[0]);
    assert(first_open(t, 0) == Some(id.len() as int));
    assert(t.take(id.len() as int) =~= id);
    assert(id_char(id.last()));
    lemma_trim_id(id);
    assert(t.skip(id.len() as int) =~= w);
    law_shape_body_inverts_wrap(sh, l);
    assert(node_token_spec(t) == Ok::<_, Seq<char>>((id, Some(mermaid_read_shape(sh)), Some(l))));
    assert(!is_blank(id));
    assert(ensure_spec(st.1, (id, Some(mermaid_read_shape(sh)), Some(l))) == Ok::<
        _,
        (crate::engine::import::ErrKind, Seq<char>),
    >(st.1.push(read_node(n))));
    assert(touch(st.4, seq![id]) == st.4);
}


/// `s` does not start with `p` when they differ at position `i`.
proof fn lemma_not_starts(s: Seq<char>, p: Seq<char>, i: int)
    requires
        0 <= i < p.len(),
        i < s.len(),
        s[i] != p[i],
    ensures
        !starts(s, p),
{
    if starts(s, p) {
        assert(s.subrange(0, p.len() as int)[i] == s[i]);
    }
}

/// One space on each side is trimmed away.
proof fn lemma_trim_spaces_around(x: Seq<char>)
    requires
        x.len() > 0,
        !char_is_whitespace(x[0]),
        !char_is_whitespace(x.last()),
    ensures
        trim_spec(seq![' '] + x + seq![' ']) == x,
{
    let w = seq![' '] + x + seq![' '];
    assert(w.drop_first() =~= x + seq![' ']);
    assert(lead_ws(x + seq![' ']) == 0);
    assert(lead_ws(w) == 1);
    assert(w.skip(1) =~= x + seq![' ']);
    lemma_trim_space_after(x);
    assert(lead_ws(x + seq![' ']) == 0);
    assert((x + seq![' ']).skip(0) =~= x + seq![' ']);
}

/// A plain edge: plain ids at both ends, an arrow, and a plain label or
/// none (a thick edge needs its label: unlabeled it exports as `===>`,
/// which reads back as another connector).
pub open spec fn plain_edge(e: Edge) -> bool {
    &&& plain_id(e.from@)
    &&& plain_id(e.to@)
    &&& e.arrow
    &&& match e.label {
        Some(l) => plain_text(l@),
        None => e.line != LineStyle::Thick,
    }
}

/// An edge's Mermaid line without its indent and line feed.
pub open spec fn edge_text(e: Edge) -> Seq<char> {
    e.from@ + mermaid_edge_spec(e)
}


/// `-- label -->`, then a space and the target.
proof fn lemma_conn_solid_labeled(l: Seq<char>, to: Seq<char>)
    requires
        plain_text(l),
    ensures
        ({
            let rest = seq!['-', '-'] + l + seq!['-', '-', '>', ' '] + to;
            &&& connector_spec(rest) == Some::<Conn>((LineStyle::Solid, true, Some(l), (l.len() + 5) as nat))
            &&& connector_start(rest)
            &&& rest.skip(l.len() as int + 5) == seq![' '] + to
        }),
{
    reveal_strlit("--");
    reveal_strlit("-.");
    reveal_strlit("==");
    reveal_strlit("-.-");
    reveal_strlit("===");
    reveal_strlit("-.->");
    reveal_strlit("==>");
    reveal_strlit("-->");
    reveal_strlit("---");
    reveal_strlit(".-");
    reveal_strlit(".->");
    reveal_with_fuel(plain_from, 7);
    let rest = seq!['-', '-'] + l + seq!['-', '-', '>', ' '] + to;
    lemma_trim_id(l);
    assert(rest.subrange(0, 2) =~= "--"@);
    let r2 = rest.skip(2);
    assert(r2 =~= l + seq!['-', '-', '>', ' '] + to);
    assert(r2.subrange(l.len() as int, l.len() as int + 2) =~= "--"@);
    assert forall|j: int| 0 <= j < l.len() implies #[trigger] r2[j] != "--"@[0] by {
        assert(r2[j] == l[j]);
    }
    lemma_find_first(r2, "--"@, l.len() as int);
    let tail = r2.skip(l.len() as int);
    assert(tail.skip(2)[0] == '>');
    assert(arrow_after_spec(tail, "--"@) == (true, 3nat));
    assert(r2.take(l.len() as int) =~= l);
    assert(rest.skip(l.len() as int + 5) =~= seq![' '] + to);
}

/// `== label ==>`, then a space and the target.
proof fn lemma_conn_thick_labeled(l: Seq<char>, to: Seq<char>)
    requires
        plain_text(l),
    ensures
        ({
            let rest = seq!['=', '='] + l + seq!['=', '=', '>', ' '] + to;
            &&& connector_spec(rest) == Some::<Conn>((LineStyle::Thick, true, Some(l), (l.len() + 5) as nat))
            &&& connector_start(rest)
            &&& rest.skip(l.len() as int + 5) == seq![' '] + to
        }),
{
    reveal_strlit("--");
    reveal_strlit("-.");
    reveal_strlit("==");
    reveal_strlit("-.-");
    reveal_strlit("===");
    reveal_strlit("-.->");
    reveal_strlit("==>");
    reveal_strlit("-->");
    reveal_strlit("---");
    reveal_strlit(".-");
    reveal_strlit(".->");
    reveal_with_fuel(plain_from, 7);
    let rest = seq!['=', '='] + l + seq!['=', '=', '>', ' '] + to;
    lemma_trim_id(l);
    lemma_not_starts(rest, "--"@, 0);
    lemma_not_starts(rest, "-."@, 0);
    assert(rest.subrange(0, 2) =~= "=="@);
    let r2 = rest.skip(2);
    assert(r2 =~= l + seq!['=', '=', '>', ' '] + to);
    assert(r2.subrange(l.len() as int, l.len() as int + 2) =~= "=="@);
    assert forall|j: int| 0 <= j < l.len() implies #[trigger] r2[j] != "=="@[0] by {
        assert(r2[j] == l[j]);
    }
    lemma_find_first(r2, "=="@, l.len() as int);
    let tail = r2.skip(l.len() as int);
    assert(tail.skip(2)[0] == '>');
    assert(arrow_after_spec(tail, "=="@) == (true, 3nat));
    assert(r2.take(l.len() as int) =~= l);
    assert(rest.skip(l.len() as int + 5) =~= seq![' '] + to);
}

/// `-. label .->`, then a space and the target.
proof fn lemma_conn_dotted_labeled(l: Seq<char>, to: Seq<char>)
    requires
        plain_text(l),
    ensures
        ({
            let rest = seq!['-', '.', ' '] + l + seq![' ', '.', '-', '>', ' '] + to;
            &&& connector_spec(rest) == Some::<Conn>((LineStyle::Dotted, true, Some(l), (l.len() + 7) as nat))
            &&& connector_start(rest)
            &&& rest.skip(l.len() as int + 7) == seq![' '] + to
        }),
{
    reveal_strlit("--");
    reveal_strlit("-.");
    reveal_strlit("==");
    reveal_strlit("-.-");
    reveal_strlit("===");
    reveal_strlit("-.->");
    reveal_strlit("==>");
    reveal_strlit("-->");
    reveal_strlit("---");
    reveal_strlit(".-");
    reveal_strlit(".->");
    reveal_with_fuel(plain_from, 7);
    let rest = seq!['-', '.', ' '] + l + seq![' ', '.', '-', '>', ' '] + to;
    lemma_not_starts(rest, "--"@, 1);
    assert(rest.subrange(0, 2) =~= "-."@);
    let r2 = rest.skip(2);
    assert(r2 =~= seq![' '] + l + seq![' ', '.', '-', '>', ' '] + to);
    assert(r2.subrange(l.len() as int + 2, l.len() as int + 4) =~= ".-"@);
    assert forall|j: int| 0 <= j < l.len() + 2 implies #[trigger] r2[j] != ".-"@[0] by {
        if 1 <= j < l.len() + 1 {
            assert(r2[j] == l[j - 1]);
        }
    }
    lemma_find_first(r2, ".-"@, l.len() as int + 2);
    assert(r2.take(l.len() as int + 2) =~= seq![' '] + l + seq![' ']);
    lemma_trim_spaces_around(l);
    let tail = r2.skip(l.len() as int + 2);
    assert(tail.subrange(0, 3) =~= ".->"@);
    assert(rest.skip(l.len() as int + 7) =~= seq![' '] + to);
}

/// `-->`, then a space and the target.
proof fn lemma_conn_solid(to: Seq<char>)
    ensures
        ({
            let rest = seq!['-', '-', '>', ' '] + to;
            &&& connector_spec(rest) == Some::<Conn>((LineStyle::Solid, true, None, 3nat))
            &&& connector_start(rest)
            &&& rest.skip(3) == seq![' '] + to
        }),
{
    reveal_strlit("--");
    reveal_strlit("-.");
    reveal_strlit("==");
    reveal_strlit("-.-");
    reveal_strlit("===");
    reveal_strlit("-.->");
    reveal_strlit("==>");
    reveal_strlit("-->");
    reveal_strlit("---");
    reveal_strlit(".-");
    reveal_strlit(".->");
    reveal_with_fuel(plain_from, 7);
    let rest = seq!['-', '-', '>', ' '] + to;
    assert(rest.subrange(0, 2) =~= "--"@);
    assert(rest.skip(2)[0] == '>');
    lemma_not_starts(rest, "-."@, 1);
    lemma_not_starts(rest, "=="@, 0);
    lemma_not_starts(rest, "-.->"@, 1);
    lemma_not_starts(rest, "-.-"@, 1);
    lemma_not_starts(rest, "==>"@, 0);
    lemma_not_starts(rest, "==="@, 0);
    assert(rest.subrange(0, 3) =~= "-->"@);
    assert(rest.skip(3) =~= seq![' '] + to);
}

/// `-.->`, then a space and the target.
proof fn lemma_conn_dotted(to: Seq<char>)
    requires
        plain_id(to),
    ensures
        ({
            let rest = seq!['-', '.', '-', '>', ' '] + to;
            &&& connector_spec(rest) == Some::<Conn>((LineStyle::Dotted, true, None, 4nat))
            &&& connector_start(rest)
            &&& rest.skip(4) == seq![' '] + to
        }),
{
    reveal_strlit("--");
    reveal_strlit("-.");
    reveal_strlit("==");
    reveal_strlit("-.-");
    reveal_strlit("===");
    reveal_strlit("-.->");
    reveal_strlit("==>");
    reveal_strlit("-->");
    reveal_strlit("---");
    reveal_strlit(".-");
    reveal_strlit(".->");
    reveal_with_fuel(plain_from, 7);
    let rest = seq!['-', '.', '-', '>', ' '] + to;
    lemma_not_starts(rest, "--"@, 1);
    assert(rest.subrange(0, 2) =~= "-."@);
    let r2 = rest.skip(2);
    assert(r2 =~= seq!['-', '>', ' '] + to);
    assert forall|j: int| 0 <= j < r2.len() implies #[trigger] r2[j] != ".-"@[0] by {
        if j >= 3 {
            assert(r2[j] == to[j - 3]);
            assert(id_char(to[j - 3]));
        }
    }
    lemma_find_none(r2, ".-"@);
    lemma_not_starts(rest, "=="@, 0);
    assert(rest.subrange(0, 4) =~= "-.->"@);
    assert(rest.skip(4) =~= seq![' '] + to);
}

/// The connector of a plain edge's line reads back as the edge's line
/// style, arrow and label, and is followed by a space and the target.
#[verifier::spinoff_prover]
#[verifier::rlimit(40)]
proof fn lemma_connector(e: Edge) -> (n: nat)
    requires
        plain_edge(e),
    ensures
        connector_spec(mermaid_edge_spec(e).skip(1)) == Some::<Conn>((e.line, true, opt_seq(e.label), n)),
        connector_start(mermaid_edge_spec(e).skip(1)),
        mermaid_edge_spec(e).skip(1).skip(n as int) == seq![' '] + e.to@,
        mermaid_edge_spec(e)[0] == ' ',
        n + 1 < mermaid_edge_spec(e).len(),
{
    reveal_strlit(">");
    reveal_strlit("-");
    reveal_strlit(" -. ");
    reveal_strlit(" .-");
    reveal_strlit(" ");
    reveal_strlit(" --");
    reveal_strlit(" ==");
    reveal_strlit("--");
    reveal_strlit("==");
    reveal_strlit("-.-");
    reveal_strlit("===");
    let to = e.to@;
    lemma_plain_token(to);
    let big_e = mermaid_edge_spec(e);
    match e.label {
        Some(ls) => {
            let l = ls@;
            match e.line {
                LineStyle::Solid => {
                    assert(big_e =~= seq![' '] + (seq!['-', '-'] + l + seq!['-', '-', '>', ' '] + to));
                    assert(big_e.skip(1) =~= seq!['-', '-'] + l + seq!['-', '-', '>', ' '] + to);
                    lemma_conn_solid_labeled(l, to);
                    (l.len() + 5) as nat
                },
                LineStyle::Thick => {
                    assert(big_e =~= seq![' '] + (seq!['=', '='] + l + seq!['=', '=', '>', ' '] + to));
                    assert(big_e.skip(1) =~= seq!['=', '='] + l + seq!['=', '=', '>', ' '] + to);
                    lemma_conn_thick_labeled(l, to);
                    (l.len() + 5) as nat
                },
                LineStyle::Dotted => {
                    assert(big_e =~= seq![' '] + (seq!['-', '.', ' '] + l + seq![' ', '.', '-', '>', ' ']
                        + to));
                    assert(big_e.skip(1) =~= seq!['-', '.', ' '] + l + seq![' ', '.', '-', '>', ' ']
                        + to);
                    lemma_conn_dotted_labeled(l, to);
                    (l.len() + 7) as nat
                },
            }
        },
        None => {
            match e.line {
                LineStyle::Solid => {
                    assert(big_e =~= seq![' '] + (seq!['-', '-', '>', ' '] + to));
                    assert(big_e.skip(1) =~= seq!['-', '-', '>', ' '] + to);
                    lemma_conn_solid(to);
                    3
                },
                LineStyle::Dotted => {
                    assert(big_e =~= seq![' '] + (seq!['-', '.', '-', '>', ' '] + to));
                    assert(big_e.skip(1) =~= seq!['-', '.', '-', '>', ' '] + to);
                    lemma_conn_dotted(to);
                    4
                },
                LineStyle::Thick => {
                    0
                },
            }
        },
    }
}


/// A plain id holds no opener.
proof fn lemma_bare_token(id: Seq<char>)
    requires
        plain_id(id),
    ensures
        node_token_spec(id) == Ok::<_, Seq<char>>((id, None::<Shape>, None::<Seq<char>>)),
        trim_spec(id) == id,
{
    assert(id_char(id.last()));
    lemma_trim_id(id);
    assert forall|i: int| 0 <= i < id.len() implies !opener(#[trigger] id[i]) by {
        assert(id_char(id[i]));
    }
    lemma_first_open_skip(id, 0, id.len() as int);
}

/// A plain edge's Mermaid line adds the edge to the edges read so far when
/// both its ends have been read.
#[verifier::spinoff_prover]
#[verifier::rlimit(40)]
proof fn lemma_edge_line(st: ImportState, e: Edge)
    requires
        plain_edge(e),
        first_index(node_keys(st.1), e.from@) is Some,
        first_index(node_keys(st.1), e.to@) is Some,
        st.4.len() == 0,
    ensures
        line_step(st, trim_spec(indent() + edge_text(e))) == Step::Next(
            (st.0, st.1, st.2.push(edge_m(e)), st.3, st.4, st.5),
        ),
{
    reveal_strlit("end");
    let from = e.from@;
    let to = e.to@;
    let big_e = mermaid_edge_spec(e);
    let n = lemma_connector(e);
    let u = edge_text(e);
    let q = from.len() + 1;
    assert(u =~= from + big_e);
    assert(u[0] == from[0]);
    assert(big_e.skip(1).skip(n as int).last() == to.last());
    assert(big_e.last() == to.last());
    assert(u.last() == to.last());
    assert(id_char(to.last()));
    assert(indent() + u =~= seq![' ', ' ', ' ', ' '] + u);
    lemma_trim_indent(u);
    lemma_no_keyword(from, big_e);
    assert(lower_spec(u).len() == u.len());
    assert forall|i: int| 0 <= i < q implies passable(#[trigger] u[i]) by {
        if i < from.len() {
            assert(u[i] == from[i]);
            assert(id_char(from[i]));
        } else {
            assert(u[i] == big_e[0]);
        }
    }
    lemma_split_skip(u, 0, q as int);
    let rest = u.skip(q as int);
    assert(rest =~= big_e.skip(1));
    assert(u[q as int] == rest[0]);
    reveal_strlit("--");
    reveal_strlit("-.");
    reveal_strlit("==");
    assert(rest.subrange(0, 2)[0] == rest[0]);
    assert(rest[0] == '-' || rest[0] == '=');
    let after = rest.skip(n as int);
    assert(after == seq![' '] + to);
    lemma_trim_space_before(to);
    assert(after.drop_first() =~= to);
    assert(lead_ws(to) == 0);
    assert(lead_ws(after) == 1);
    assert(trim_start_spec(after) =~= to);
    assert(pipe_label_spec(after) == (None::<Seq<char>>, after));
    assert(u.take(q as int) =~= from + seq![' ']);
    lemma_trim_space_after(from);
    assert(split_from(u, q as int) == Split::Edge(from, e.line, true, opt_seq(e.label), to));
    lemma_bare_token(from);
    lemma_bare_token(to);
    assert(touch(st.4, seq![from, to]) == st.4);
}


/// No line feed, `%` or carriage return in `s`.
pub open spec fn line_safe(s: Seq<char>) -> bool {
    forall|i: int| 0 <= i < s.len() ==> #[trigger] s[i] != '\n' && s[i] != '%' && s[i] != '\r'
}

proof fn lemma_line_safe_add(a: Seq<char>, b: Seq<char>)
    requires
        line_safe(a),
        line_safe(b),
    ensures
        line_safe(a + b),
{
    assert forall|i: int| 0 <= i < (a + b).len() implies #[trigger] (a + b)[i] != '\n' && (a + b)[i] != '%'
        && (a + b)[i] != '\r' by {
        if i < a.len() {
            assert((a + b)[i] == a[i]);
        } else {
            assert((a + b)[i] == b[i - a.len()]);
        }
    }
}

/// A line whose text holds more than whitespace and no line feed, `%` or
/// carriage return is read as it stands.
proof fn lemma_safe_line(l: Seq<char>)
    requires
        line_safe(l),
        trim_spec(l).len() > 0,
    ensures
        one_line(l),
        content_line(l),
{
    if l.len() > 0 {
        assert(l[l.len() - 1] != '\r');
    }
}

/// A node's style as a Mermaid `style` line, if it has one.
pub open spec fn style_lines_of(n: Node) -> Seq<Seq<char>> {
    match crate::engine::export::mermaid_style_spec(n.style) {
        Some(t) => seq![indent() + "style "@ + n.id@ + " "@ + t],
        None => Seq::empty(),
    }
}

/// A node's style text holds no line feed, `%` or carriage return.
pub open spec fn style_safe(n: Node) -> bool {
    match crate::engine::export::mermaid_style_spec(n.style) {
        Some(t) => line_safe(t),
        None => true,
    }
}

/// A `style` line leaves what was read as it is.
#[verifier::spinoff_prover]
#[verifier::rlimit(40)]
proof fn lemma_style_line(st: ImportState, id: Seq<char>, t: Seq<char>)
    requires
        plain_id(id),
    ensures
        line_step(st, trim_spec(indent() + "style "@ + id + " "@ + t)) == Step::Next(st),
        trim_spec(indent() + "style "@ + id + " "@ + t).len() > 0,
{
    reveal_strlit("style ");
    reveal_strlit(" ");
    reveal_strlit("subgraph");
    reveal_strlit("end");
    reveal_strlit("direction ");
    let x = "style "@ + id + " "@ + t;
    let w = indent() + "style "@ + id + " "@ + t;
    assert(w =~= seq![' ', ' ', ' ', ' '] + x);
    assert(w.drop_first().drop_first().drop_first().drop_first() =~= x);
    assert(w.drop_first().drop_first().drop_first().drop_first() =~= x);
    assert(lead_ws(x) == 0);
    assert(lead_ws(w.drop_first().drop_first().drop_first()) == 1);
    assert(lead_ws(w.drop_first().drop_first()) == 2);
    assert(lead_ws(w.drop_first()) == 3);
    assert(lead_ws(w) == 4);
    assert(w.skip(4) =~= x);
    assert(x[6] == id[0]);
    lemma_trail_ws_bound(x);
    let y = trim_spec(w);
    assert(y == x.take(x.len() - trail_ws(x)));
    assert(y.len() >= 7);
    let lower = lower_spec(y);
    assert(forall|i: int| 0 <= i < 7 ==> y[i] == x[i]);
    assert(lower.subrange(0, 6) =~= "style "@);
    lemma_not_starts(lower, "subgraph"@, 1);
    lemma_not_starts(lower, "direction "@, 0);
    assert(lower[0] != "end"@[0]);
}

/// Lines of each item, one after the other.
pub open spec fn flat_lines<T>(s: Seq<T>, g: spec_fn(T) -> Seq<Seq<char>>) -> Seq<Seq<char>>
    decreases s.len(),
{
    if s.len() == 0 {
        Seq::empty()
    } else {
        flat_lines(s.drop_last(), g) + g(s.last())
    }
}

proof fn lemma_concat_flat<T>(s: Seq<T>, f: spec_fn(T) -> Seq<char>, g: spec_fn(T) -> Seq<Seq<char>>)
    requires
        forall|i: int| 0 <= i < s.len() ==> f(#[trigger] s[i]) == unlines(g(s[i])),
    ensures
        crate::text::concat_map(s, f) == unlines(flat_lines(s, g)),
    decreases s.len(),
{
    if s.len() > 0 {
        assert forall|i: int| 0 <= i < s.drop_last().len() implies f(#[trigger] s.drop_last()[i]) == unlines(
            g(s.drop_last()[i]),
        ) by {
            assert(s.drop_last()[i] == s[i]);
        }
        lemma_concat_flat(s.drop_last(), f, g);
        lemma_unlines_add(flat_lines(s.drop_last(), g), g(s.last()));
        assert(f(s[s.len() - 1]) == unlines(g(s[s.len() - 1])));
    } else {
        assert(unlines(flat_lines(s, g)) =~= Seq::<char>::empty());
    }
}

/// Every line of every item is read as it stands.
proof fn lemma_flat_safe<T>(s: Seq<T>, g: spec_fn(T) -> Seq<Seq<char>>)
    requires
        forall|i: int, j: int|
            0 <= i < s.len() && 0 <= j < g(s[i]).len() ==> one_line(#[trigger] g(s[i])[j]) && content_line(
                g(s[i])[j],
            ),
    ensures
        forall|j: int|
            0 <= j < flat_lines(s, g).len() ==> one_line(#[trigger] flat_lines(s, g)[j]) && content_line(
                flat_lines(s, g)[j],
            ),
    decreases s.len(),
{
    if s.len() > 0 {
        let d = s.drop_last();
        assert forall|i: int, j: int| 0 <= i < d.len() && 0 <= j < g(d[i]).len() implies one_line(
            #[trigger] g(d[i])[j],
        ) && content_line(g(d[i])[j]) by {
            assert(d[i] == s[i]);
        }
        lemma_flat_safe(d, g);
        let a = flat_lines(d, g);
        let b = g(s.last());
        assert forall|j: int| 0 <= j < (a + b).len() implies one_line(#[trigger] (a + b)[j]) && content_line(
            (a + b)[j],
        ) by {
            if j < a.len() {
                assert((a + b)[j] == a[j]);
            } else {
                assert((a + b)[j] == b[j - a.len()]);
                assert(s.last() == s[s.len() - 1]);
            }
        }
    }
}


/// A plain node's line: safe, and its text once trimmed.
proof fn lemma_node_text(n: Node)
    requires
        plain_node(n),
    ensures
        trim_spec(indent() + node_text(n)) == node_text(n),
        node_text(n).len() > 0,
        line_safe(indent() + node_text(n)),
{
    let id = n.id@;
    let l = n.label@;
    let o = n.shape.mermaid_delims().0;
    let c = n.shape.mermaid_delims().1;
    let t = node_text(n);
    lemma_delims(n.shape);
    assert(t =~= id + o + l + c);
    assert(t[0] == id[0]);
    assert(t.last() == c.last());
    assert(indent() + t =~= seq![' ', ' ', ' ', ' '] + t);
    lemma_trim_indent(t);
    assert forall|i: int| 0 <= i < id.len() implies #[trigger] id[i] != '\n' && id[i] != '%' && id[i] != '\r' by {
        assert(id_char(id[i]));
    }
    assert forall|i: int| 0 <= i < l.len() implies #[trigger] l[i] != '\n' && l[i] != '%' && l[i] != '\r' by {
        assert(is_ascii_alnum(l[i]) || l[i] == ' ');
    }
    lemma_line_safe_add(indent(), id);
    lemma_line_safe_add(indent() + id, o);
    lemma_line_safe_add(indent() + id + o, l);
    lemma_line_safe_add(indent() + id + o + l, c);
    assert(indent() + t =~= indent() + id + o + l + c);
}

/// A plain id or label holds no line feed, `%` or carriage return.
proof fn lemma_plain_safe(id: Seq<char>, l: Seq<char>)
    requires
        plain_id(id),
        plain_text(l),
    ensures
        line_safe(id),
        line_safe(l),
{
    assert forall|i: int| 0 <= i < id.len() implies #[trigger] id[i] != '\n' && id[i] != '%' && id[i] != '\r' by {
        assert(id_char(id[i]));
    }
    assert forall|i: int| 0 <= i < l.len() implies #[trigger] l[i] != '\n' && l[i] != '%' && l[i] != '\r' by {
        assert(is_ascii_alnum(l[i]) || l[i] == ' ');
    }
}

/// A plain edge's line: safe, and its text once trimmed.
#[verifier::spinoff_prover]
#[verifier::rlimit(40)]
proof fn lemma_edge_text(e: Edge)
    requires
        plain_edge(e),
    ensures
        trim_spec(indent() + edge_text(e)) == edge_text(e),
        edge_text(e).len() > 0,
        line_safe(indent() + edge_text(e)),
{
    reveal_strlit(">");
    reveal_strlit("-");
    reveal_strlit(" -. ");
    reveal_strlit(" .-");
    reveal_strlit(" ");
    reveal_strlit(" --");
    reveal_strlit(" ==");
    reveal_strlit("--");
    reveal_strlit("==");
    reveal_strlit("-.-");
    reveal_strlit("===");
    let from = e.from@;
    let to = e.to@;
    lemma_plain_token(to);
    let big_e = mermaid_edge_spec(e);
    let u = edge_text(e);
    let ghost pl: Seq<char> = match e.label {
        Some(ls) => ls@,
        None => seq!['a'],
    };
    assert(plain_text(pl)) by {
        if e.label is None {
            assert(is_ascii_alnum('a'));
        }
    }
    lemma_plain_safe(from, pl);
    lemma_plain_safe(to, pl);
    let head: Seq<char> = match e.label {
        Some(ls) => match e.line {
            LineStyle::Solid => seq![' ', '-', '-'] + pl + seq!['-', '-', '>', ' '],
            LineStyle::Thick => seq![' ', '=', '='] + pl + seq!['=', '=', '>', ' '],
            LineStyle::Dotted => seq![' ', '-', '.', ' '] + pl + seq![' ', '.', '-', '>', ' '],
        },
        None => match e.line {
            LineStyle::Solid => seq![' ', '-', '-', '>', ' '],
            LineStyle::Dotted => seq![' ', '-', '.', '-', '>', ' '],
            LineStyle::Thick => seq![' ', '=', '=', '=', '>', ' '],
        },
    };
    assert(big_e =~= head + to);
    let p1: Seq<char> = seq![' ', '-', '-'];
    let p2: Seq<char> = seq!['-', '-', '>', ' '];
    let p3: Seq<char> = seq![' ', '=', '='];
    let p4: Seq<char> = seq!['=', '=', '>', ' '];
    let p5: Seq<char> = seq![' ', '-', '.', ' '];
    let p6: Seq<char> = seq![' ', '.', '-', '>', ' '];
    assert(line_safe(p1) && line_safe(p2) && line_safe(p3) && line_safe(p4) && line_safe(p5) && line_safe(p6));
    lemma_line_safe_add(p1, pl);
    lemma_line_safe_add(p1 + pl, p2);
    lemma_line_safe_add(p3, pl);
    lemma_line_safe_add(p3 + pl, p4);
    lemma_line_safe_add(p5, pl);
    lemma_line_safe_add(p5 + pl, p6);
    assert(line_safe(seq![' ', '-', '-', '>', ' ']));
    assert(line_safe(seq![' ', '-', '.', '-', '>', ' ']));
    assert(line_safe(seq![' ', '=', '=', '=', '>', ' ']));
    assert(line_safe(head));
    lemma_line_safe_add(head, to);
    lemma_line_safe_add(indent(), from);
    lemma_line_safe_add(indent() + from, big_e);
    assert(indent() + u =~= indent() + from + big_e);
    assert(u =~= from + big_e);
    assert(u[0] == from[0]);
    assert(u.last() == to.last());
    assert(id_char(to.last()));
    assert(indent() + u =~= seq![' ', ' ', ' ', ' '] + u);
    lemma_trim_indent(u);
}

pub open spec fn node_line_of() -> spec_fn(Node) -> Seq<Seq<char>> {
    |n: Node| seq![indent() + node_text(n)]
}

pub open spec fn edge_line_of() -> spec_fn(Edge) -> Seq<Seq<char>> {
    |e: Edge| seq![indent() + edge_text(e)]
}

pub open spec fn style_line_of() -> spec_fn(Node) -> Seq<Seq<char>> {
    |n: Node| style_lines_of(n)
}

/// No two nodes share an id.
pub open spec fn unique_ids(ns: Seq<Node>) -> bool {
    forall|a: int, b: int| 0 <= a < ns.len() && 0 <= b < ns.len() && a != b ==> #[trigger] ns[a].id@ != #[trigger] ns[b].id@
}

/// The nodes as read back from their Mermaid lines.
pub open spec fn read_nodes(ns: Seq<Node>) -> Seq<NodeM> {
    ns.map_values(|n: Node| read_node(n))
}

proof fn lemma_run_one(line: Seq<char>, st: ImportState, st2: ImportState)
    requires
        line_step(st, trim_spec(line)) == Step::Next(st2),
    ensures
        run_lines(seq![line], st) == Step::Next(st2),
{
    reveal_with_fuel(run_lines, 2);
    assert(seq![line][0] == line);
    assert(seq![line].drop_first() =~= Seq::<Seq<char>>::empty());
}

proof fn lemma_run_nodes(ns: Seq<Node>, st0: ImportState)
    requires
        forall|i: int| 0 <= i < ns.len() ==> plain_node(#[trigger] ns[i]),
        unique_ids(ns),
        st0.1 == Seq::<NodeM>::empty(),
        st0.4.len() == 0,
    ensures
        run_lines(flat_lines(ns, node_line_of()), st0) == Step::Next(
            (st0.0, read_nodes(ns), st0.2, st0.3, st0.4, st0.5),
        ),
    decreases ns.len(),
{
    if ns.len() == 0 {
        assert(read_nodes(ns) =~= st0.1);
        assert(flat_lines(ns, node_line_of()) =~= Seq::<Seq<char>>::empty());
    } else {
        let d = ns.drop_last();
        let n = ns.last();
        assert forall|i: int| 0 <= i < d.len() implies plain_node(#[trigger] d[i]) by {
            assert(d[i] == ns[i]);
        }
        assert forall|a: int, b: int| 0 <= a < d.len() && 0 <= b < d.len() && a != b implies #[trigger] d[a].id@
            != #[trigger] d[b].id@ by {
            assert(d[a] == ns[a] && d[b] == ns[b]);
        }
        lemma_run_nodes(d, st0);
        let st1 = (st0.0, read_nodes(d), st0.2, st0.3, st0.4, st0.5);
        lemma_run_lines_add(flat_lines(d, node_line_of()), node_line_of()(n), st0);
        let keys = node_keys(read_nodes(d));
        lemma_first_index(keys, n.id@);
        assert forall|j: int| 0 <= j < keys.len() implies keys[j] != n.id@ by {
            assert(keys[j] == d[j].id@);
            assert(d[j] == ns[j]);
            assert(n == ns[ns.len() - 1]);
        }
        assert(plain_node(ns[ns.len() - 1]));
        lemma_node_line(st1, n);
        lemma_run_one(indent() + node_text(n), st1, (st0.0, read_nodes(d).push(read_node(n)), st0.2, st0.3, st0.4, st0.5));
        assert(read_nodes(d).push(read_node(n)) =~= read_nodes(ns));
    }
}

proof fn lemma_run_edges(es: Seq<Edge>, st0: ImportState)
    requires
        forall|k: int| 0 <= k < es.len() ==> plain_edge(#[trigger] es[k]),
        forall|k: int|
            0 <= k < es.len() ==> first_index(node_keys(st0.1), (#[trigger] es[k]).from@) is Some
                && first_index(node_keys(st0.1), es[k].to@) is Some,
        st0.4.len() == 0,
    ensures
        run_lines(flat_lines(es, edge_line_of()), st0) == Step::Next(
            (st0.0, st0.1, st0.2 + edges_m(es), st0.3, st0.4, st0.5),
        ),
    decreases es.len(),
{
    if es.len() == 0 {
        assert(st0.2 + edges_m(es) =~= st0.2);
        assert(flat_lines(es, edge_line_of()) =~= Seq::<Seq<char>>::empty());
    } else {
        let d = es.drop_last();
        let e = es.last();
        assert forall|k: int| 0 <= k < d.len() implies plain_edge(#[trigger] d[k]) by {
            assert(d[k] == es[k]);
        }
        assert forall|k: int| 0 <= k < d.len() implies first_index(node_keys(st0.1), (#[trigger] d[k]).from@) is Some
            && first_index(node_keys(st0.1), d[k].to@) is Some by {
            assert(d[k] == es[k]);
        }
        lemma_run_edges(d, st0);
        let st1 = (st0.0, st0.1, st0.2 + edges_m(d), st0.3, st0.4, st0.5);
        lemma_run_lines_add(flat_lines(d, edge_line_of()), edge_line_of()(e), st0);
        assert(e == es[es.len() - 1]);
        lemma_edge_line(st1, e);
        lemma_run_one(indent() + edge_text(e), st1, (st0.0, st0.1, (st0.2 + edges_m(d)).push(edge_m(e)), st0.3, st0.4, st0.5));
        assert((st0.2 + edges_m(d)).push(edge_m(e)) =~= st0.2 + edges_m(es));
    }
}

proof fn lemma_run_styles(ns: Seq<Node>, st0: ImportState)
    requires
        forall|i: int| 0 <= i < ns.len() ==> plain_node(#[trigger] ns[i]),
    ensures
        run_lines(flat_lines(ns, style_line_of()), st0) == Step::Next(st0),
    decreases ns.len(),
{
    if ns.len() == 0 {
        assert(flat_lines(ns, style_line_of()) =~= Seq::<Seq<char>>::empty());
    } else {
        let d = ns.drop_last();
        let n = ns.last();
        assert forall|i: int| 0 <= i < d.len() implies plain_node(#[trigger] d[i]) by {
            assert(d[i] == ns[i]);
        }
        lemma_run_styles(d, st0);
        lemma_run_lines_add(flat_lines(d, style_line_of()), style_line_of()(n), st0);
        assert(n == ns[ns.len() - 1]);
        match mermaid_style_spec(n.style) {
            Some(t) => {
                lemma_style_line(st0, n.id@, t);
                lemma_run_one(indent() + "style "@ + n.id@ + " "@ + t, st0, st0);
            },
            None => {
                assert(style_lines_of(n) =~= Seq::<Seq<char>>::empty());
            },
        }
    }
}


proof fn lemma_unlines_one(x: Seq<char>)
    ensures
        unlines(seq![x]) == x + seq!['\n'],
{
    reveal_with_fuel(unlines, 2);
    assert(seq![x].drop_first() =~= Seq::<Seq<char>>::empty());
    assert(seq![x][0] == x);
    assert(x + seq!['\n'] + Seq::<char>::empty() =~= x + seq!['\n']);
}

/// The header line `flowchart` and the direction token.
pub open spec fn header_line(d: Direction) -> Seq<char> {
    "flowchart "@ + d.mermaid_spec()
}

#[verifier::spinoff_prover]
#[verifier::rlimit(40)]
proof fn lemma_header(d: Direction)
    ensures
        header_spec(trim_spec(header_line(d))) == Ok::<Direction, Seq<char>>(d),
        line_safe(header_line(d)),
        trim_spec(header_line(d)).len() > 0,
{
    reveal_strlit("flowchart ");
    reveal_strlit("flowchart");
    reveal_strlit("TD");
    reveal_strlit("TB");
    reveal_strlit("DOWN");
    reveal_strlit("BT");
    reveal_strlit("UP");
    reveal_strlit("LR");
    reveal_strlit("RIGHT");
    reveal_strlit("RL");
    reveal_strlit("LEFT");
    let h = header_line(d);
    let t = d.mermaid_spec();
    assert(t.len() == 2);
    assert(h =~= "flowchart "@ + t);
    assert(h[0] == 'f');
    assert(h.last() == t[1]);
    lemma_trim_id(h);
    assert(h.subrange(0, 9) =~= "flowchart"@);
    assert(h.skip(9) =~= seq![' '] + t);
    lemma_trim_space_before(t);
    assert(upper_spec(t) =~= t);
    assert(line_safe(h));
}

/// A chart whose Mermaid export reads back: no containers, at least one
/// node, unique plain node ids, plain labels, style text without line
/// breaks or `%`, and plain edges between existing nodes.
pub open spec fn mermaid_plain(fc: Flowchart) -> bool {
    &&& fc.subgraphs@.len() == 0
    &&& fc.nodes@.len() > 0
    &&& unique_ids(fc.nodes@)
    &&& forall|i: int| 0 <= i < fc.nodes@.len() ==> plain_node(#[trigger] fc.nodes@[i]) && style_safe(fc.nodes@[i])
    &&& forall|k: int|
        0 <= k < fc.edges@.len() ==> plain_edge(#[trigger] fc.edges@[k]) && first_index(
            node_ids(fc.nodes@),
            fc.edges@[k].from@,
        ) is Some && first_index(node_ids(fc.nodes@), fc.edges@[k].to@) is Some
}

/// The export is the header line, the node lines, the edge lines and the
/// style lines, each ended by a line feed.
#[verifier::spinoff_prover]
#[verifier::rlimit(40)]
proof fn lemma_export_lines(fc: Flowchart)
    requires
        mermaid_plain(fc),
    ensures
        to_mermaid_spec(fc) == unlines(
            seq![header_line(fc.direction)] + (flat_lines(fc.nodes@, node_line_of()) + flat_lines(
                fc.edges@,
                edge_line_of(),
            ) + flat_lines(fc.nodes@, style_line_of())),
        ),
{
    reveal_strlit("    ");
    reveal_strlit("\n");
    reveal_strlit("    style ");
    reveal_strlit("style ");
    let ns = fc.nodes@;
    let es = fc.edges@;
    assert forall|i: int| 0 <= i < ns.len() implies mermaid_top_node(fc.subgraphs@)(#[trigger] ns[i]) == unlines(
        node_line_of()(ns[i]),
    ) by {
        let n = ns[i];
        assert(plain_node(n));
        lemma_plain_token(n.id@);
        assert(!crate::engine::export::in_any_container(fc.subgraphs@, n.id@));
        lemma_unlines_one(indent() + node_text(n));
        assert(crate::engine::export::plain_label_spec(n) == n.label@);
        assert("    "@ =~= indent());
        assert("\n"@ =~= seq!['\n']);
        assert(mermaid_top_node(fc.subgraphs@)(n) =~= indent() + node_text(n) + seq!['\n']);
    }
    lemma_concat_flat(ns, mermaid_top_node(fc.subgraphs@), node_line_of());
    assert forall|k: int| 0 <= k < es.len() implies mermaid_edge_line()(#[trigger] es[k]) == unlines(
        edge_line_of()(es[k]),
    ) by {
        let e = es[k];
        assert(plain_edge(e));
        lemma_plain_token(e.from@);
        lemma_unlines_one(indent() + edge_text(e));
        assert("    "@ =~= indent());
        assert("\n"@ =~= seq!['\n']);
        assert(mermaid_edge_line()(e) =~= indent() + edge_text(e) + seq!['\n']);
    }
    lemma_concat_flat(es, mermaid_edge_line(), edge_line_of());
    assert forall|i: int| 0 <= i < ns.len() implies mermaid_style_line()(#[trigger] ns[i]) == unlines(
        style_line_of()(ns[i]),
    ) by {
        let n = ns[i];
        assert(plain_node(n));
        lemma_plain_token(n.id@);
        match mermaid_style_spec(n.style) {
            Some(t) => {
                lemma_unlines_one(indent() + "style "@ + n.id@ + " "@ + t);
                assert("    style "@ =~= indent() + "style "@);
                assert("\n"@ =~= seq!['\n']);
                assert(mermaid_style_line()(n) =~= indent() + "style "@ + n.id@ + " "@ + t + seq!['\n']);
            },
            None => {
                assert(unlines(Seq::<Seq<char>>::empty()) =~= Seq::<char>::empty());
            },
        }
    }
    lemma_concat_flat(ns, mermaid_style_line(), style_line_of());
    assert(crate::text::concat_map(fc.subgraphs@, crate::engine::export::mermaid_subgraph(ns))
        =~= Seq::<char>::empty());
    let nl = flat_lines(ns, node_line_of());
    let el = flat_lines(es, edge_line_of());
    let sl = flat_lines(ns, style_line_of());
    lemma_unlines_add(nl, el);
    lemma_unlines_add(nl + el, sl);
    let all = seq![header_line(fc.direction)] + (nl + el + sl);
    assert(all[0] == header_line(fc.direction));
    assert(all.drop_first() =~= nl + el + sl);
    assert(to_mermaid_spec(fc) =~= unlines(all));
}

/// Every exported line is read as it stands.
#[verifier::spinoff_prover]
#[verifier::rlimit(40)]
proof fn lemma_export_lines_safe(fc: Flowchart)
    requires
        mermaid_plain(fc),
    ensures
        ({
            let all = seq![header_line(fc.direction)] + (flat_lines(fc.nodes@, node_line_of())
                + flat_lines(fc.edges@, edge_line_of()) + flat_lines(fc.nodes@, style_line_of()));
            forall|j: int| 0 <= j < all.len() ==> one_line(#[trigger] all[j]) && content_line(all[j])
        }),
{
    reveal_strlit("style ");
    reveal_strlit(" ");
    let ns = fc.nodes@;
    let es = fc.edges@;
    assert forall|i: int, j: int| 0 <= i < ns.len() && 0 <= j < node_line_of()(ns[i]).len() implies one_line(
        #[trigger] node_line_of()(ns[i])[j],
    ) && content_line(node_line_of()(ns[i])[j]) by {
        assert(plain_node(ns[i]));
        lemma_node_text(ns[i]);
        lemma_safe_line(indent() + node_text(ns[i]));
    }
    lemma_flat_safe(ns, node_line_of());
    assert forall|i: int, j: int| 0 <= i < es.len() && 0 <= j < edge_line_of()(es[i]).len() implies one_line(
        #[trigger] edge_line_of()(es[i])[j],
    ) && content_line(edge_line_of()(es[i])[j]) by {
        assert(plain_edge(es[i]));
        lemma_edge_text(es[i]);
        lemma_safe_line(indent() + edge_text(es[i]));
    }
    lemma_flat_safe(es, edge_line_of());
    assert forall|i: int, j: int| 0 <= i < ns.len() && 0 <= j < style_line_of()(ns[i]).len() implies one_line(
        #[trigger] style_line_of()(ns[i])[j],
    ) && content_line(style_line_of()(ns[i])[j]) by {
        let n = ns[i];
        assert(plain_node(n) && style_safe(n));
        match mermaid_style_spec(n.style) {
            Some(t) => {
                let id = n.id@;
                lemma_plain_safe(id, seq!['a']);
                assert(line_safe("style "@));
                assert(line_safe(" "@));
                lemma_line_safe_add(indent(), "style "@);
                lemma_line_safe_add(indent() + "style "@, id);
                lemma_line_safe_add(indent() + "style "@ + id, " "@);
                lemma_line_safe_add(indent() + "style "@ + id + " "@, t);
                lemma_style_line(any_state(), id, t);
                lemma_safe_line(indent() + "style "@ + id + " "@ + t);
            },
            None => {},
        }
    }
    lemma_flat_safe(ns, style_line_of());
    lemma_header(fc.direction);
    lemma_safe_line(header_line(fc.direction));
    let nl = flat_lines(ns, node_line_of());
    let el = flat_lines(es, edge_line_of());
    let sl = flat_lines(ns, style_line_of());
    let all = seq![header_line(fc.direction)] + (nl + el + sl);
    assert forall|j: int| 0 <= j < all.len() implies one_line(#[trigger] all[j]) && content_line(all[j]) by {
        if j == 0 {
            assert(all[j] == header_line(fc.direction));
        } else if j < 1 + nl.len() {
            assert(all[j] == nl[j - 1]);
        } else if j < 1 + nl.len() + el.len() {
            assert(all[j] == el[j - 1 - nl.len()]);
        } else {
            assert(all[j] == sl[j - 1 - nl.len() - el.len()]);
        }
    }
}

/// Some import state (the style-line step holds in every one).
spec fn any_state() -> ImportState {
    (Direction::TB, Seq::empty(), Seq::empty(), Seq::empty(), Seq::empty(), Seq::empty())
}

/// Reading a chart's Mermaid export back gives its direction, its nodes
/// (id, label, and shape, the shapes Mermaid writes as rectangles coming
/// back as rectangles) and its edges (ends, label, line style, arrow), in
/// order, with no containers: for charts without containers whose node ids
/// and labels are plain, whose style text has no line break or `%`, and
/// whose edges are plain, join existing nodes, and are not unlabeled thick
/// edges.
pub proof fn law_mermaid_round_trip(fc: Flowchart)
    requires
        mermaid_plain(fc),
    ensures
        import_spec(to_mermaid_spec(fc)) == Step::Next(
            (
                fc.direction,
                read_nodes(fc.nodes@),
                edges_m(fc.edges@),
                Seq::empty(),
                Seq::empty(),
                Seq::empty(),
            ),
        ),
{
    let ns = fc.nodes@;
    let es = fc.edges@;
    let nl = flat_lines(ns, node_line_of());
    let el = flat_lines(es, edge_line_of());
    let sl = flat_lines(ns, style_line_of());
    let all = seq![header_line(fc.direction)] + (nl + el + sl);
    lemma_export_lines(fc);
    lemma_export_lines_safe(fc);
    lemma_lines_unlines(all);
    lemma_content_lines_id(all);
    lemma_header(fc.direction);
    assert(all[0] == header_line(fc.direction));
    assert(all.drop_first() =~= nl + el + sl);
    let st0: ImportState = (fc.direction, Seq::empty(), Seq::empty(), Seq::empty(), Seq::empty(), Seq::empty());
    lemma_run_lines_add(nl + el, sl, st0);
    lemma_run_lines_add(nl, el, st0);
    assert forall|i: int| 0 <= i < ns.len() implies plain_node(#[trigger] ns[i]) by {
        assert(plain_node(ns[i]) && style_safe(ns[i]));
    }
    lemma_run_nodes(ns, st0);
    let st1: ImportState = (fc.direction, read_nodes(ns), Seq::empty(), Seq::empty(), Seq::empty(), Seq::empty());
    assert(node_keys(read_nodes(ns)) =~= node_ids(ns));
    lemma_run_edges(es, st1);
    let st2: ImportState = (fc.direction, read_nodes(ns), Seq::<EdgeM>::empty() + edges_m(es), Seq::empty(), Seq::empty(), Seq::empty());
    assert(Seq::<EdgeM>::empty() + edges_m(es) =~= edges_m(es));
    lemma_run_styles(ns, st2);
    assert(read_nodes(ns).len() > 0);
}

} // verus!
