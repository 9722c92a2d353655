//! Text exporters for one flowchart page: Mermaid and Graphviz DOT, and the
//! helpers the other exporters share (plain labels, export file extensions).

use vstd::prelude::*;

use super::{
    find_node, first_index, node_ids, Arrow, Edge, Flowchart, LineStyle, Node, Shape, Style,
    Subgraph,
};
use crate::text::{
    chars_of, char_is_whitespace, concat_map, copy_string, decimal, eq_lit, flat_map_chars,
    ident_spec, is_whitespace, join_spec, lemma_concat_map_step, lemma_flat_map_chars_push,
    lower_of, lower_spec, matches_at, occurs_at, owned, push_char, push_chars, push_decimal,
    push_ident, push_joined, push_part, push_str, str_eq, to_lower, views_of,
};

verus! {

// ---------------------------------------------------------------------------
// Plain labels
// ---------------------------------------------------------------------------

/// A tag that starts at `k` breaks the line: `<br`, `</p` or `</div`
/// (compared case-insensitively).
pub open spec fn breaks_line(lower: Seq<char>, k: int) -> bool {
    occurs_at(lower, "<br"@, k) || occurs_at(lower, "</p"@, k) || occurs_at(lower, "</div"@, k)
}

/// Text outside tags after the first `n` characters of `s`, and whether
/// the scan is inside a tag. A line-breaking tag leaves one space.
pub open spec fn strip_tags(s: Seq<char>, n: nat) -> (Seq<char>, bool)
    decreases n,
{
    if n == 0 || n > s.len() {
        (Seq::empty(), false)
    } else {
        let prev = strip_tags(s, (n - 1) as nat);
        let out = prev.0;
        let in_tag = prev.1;
        let c = s[n - 1];
        if c == '<' {
            (
                if breaks_line(lower_spec(s), n - 1) && !(out.len() > 0 && out.last() == ' ') {
                    out.push(' ')
                } else {
                    out
                },
                true,
            )
        } else if c == '>' {
            (out, false)
        } else if !in_tag {
            (out.push(c), false)
        } else {
            (out, true)
        }
    }
}

/// The words of the first `n` characters of `s` joined by single spaces
/// (`split_whitespace` then `join(" ")`), and whether a space is pending.
pub open spec fn squash_ws(s: Seq<char>, n: nat) -> (Seq<char>, bool)
    decreases n,
{
    if n == 0 || n > s.len() {
        (Seq::empty(), false)
    } else {
        let prev = squash_ws(s, (n - 1) as nat);
        let acc = prev.0;
        let c = s[n - 1];
        if char_is_whitespace(c) {
            (acc, acc.len() > 0)
        } else {
            ((if prev.1 {
                acc.push(' ')
            } else {
                acc
            }).push(c), false)
        }
    }
}

/// HTML tags stripped to plain text, `<br>`/`</p>`/`</div>` turned into
/// spaces and runs of whitespace collapsed.
pub open spec fn strip_html_spec(s: Seq<char>) -> Seq<char> {
    let t = strip_tags(s, s.len()).0;
    squash_ws(t, t.len()).0
}

/// A node's label as plain text: tags stripped only when it is HTML.
pub open spec fn plain_label_spec(n: Node) -> Seq<char> {
    if n.html == Some(true) {
        strip_html_spec(n.label@)
    } else {
        n.label@
    }
}

fn squash_whitespace(t: &Vec<char>) -> (r: Vec<char>)
    ensures
        r@ == squash_ws(t@, t@.len()).0,
{
    let mut acc: Vec<char> = Vec::new();
    let mut gap = false;
    let mut i: usize = 0;
    while i < t.len()
        invariant
            i <= t.len(),
            (acc@, gap) == squash_ws(t@, i as nat),
        decreases t.len() - i,
    {
        let c = t[i];
        if is_whitespace(c) {
            gap = acc.len() > 0;
        } else {
            if gap {
                acc.push(' ');
            }
            acc.push(c);
            gap = false;
        }
        i += 1;
    }
    acc
}

/// Strip HTML tags to plain text (see [`strip_html_spec`]).
pub fn strip_html(s: &str) -> (r: String)
    ensures
        r@ == strip_html_spec(s@),
{
    let v = chars_of(s);
    let lower = to_lower(&v);
    let br: Vec<char> = chars_of("<br");
    let p: Vec<char> = chars_of("</p");
    let div: Vec<char> = chars_of("</div");
    let mut out: Vec<char> = Vec::new();
    let mut in_tag = false;
    let mut i: usize = 0;
    while i < v.len()
        invariant
            i <= v.len(),
            v@ == s@,
            lower@ == lower_spec(s@),
            br@ == "<br"@,
            p@ == "</p"@,
            div@ == "</div"@,
            (out@, in_tag) == strip_tags(s@, i as nat),
        decreases v.len() - i,
    {
        let c = v[i];
        if c == '<' {
            let brk = matches_at(&lower, i, &br) || matches_at(&lower, i, &p) || matches_at(
                &lower,
                i,
                &div,
            );
            if brk && !(out.len() > 0 && out[out.len() - 1] == ' ') {
                out.push(' ');
            }
            in_tag = true;
        } else if c == '>' {
            in_tag = false;
        } else if !in_tag {
            out.push(c);
        }
        i += 1;
    }
    let squashed = squash_whitespace(&out);
    let mut r = String::new();
    push_chars(&mut r, &squashed);
    r
}

/// A node's label as plain text (see [`plain_label_spec`]).
pub fn plain_label(node: &Node) -> (r: String)
    ensures
        r@ == plain_label_spec(*node),
{
    if node.html == Some(true) {
        strip_html(node.label.as_str())
    } else {
        copy_string(&node.label)
    }
}

// ---------------------------------------------------------------------------
// Mermaid
// ---------------------------------------------------------------------------

/// A node id as a Mermaid / DOT token.
pub open spec fn node_token(id: Seq<char>) -> Seq<char> {
    ident_spec(id, "n_"@)
}

fn push_token(out: &mut String, id: &str)
    ensures
        final(out)@ == old(out)@ + node_token(id@),
{
    let v = chars_of(id);
    push_ident(out, &v, "n_");
}

/// The Mermaid connector and target of an edge.
pub open spec fn mermaid_edge_spec(e: Edge) -> Seq<char> {
    let arrow: Seq<char> = if e.arrow {
        ">"@
    } else {
        "-"@
    };
    let to = node_token(e.to@);
    if e.label is Some && e.label->0@.len() > 0 {
        let l = e.label->0@;
        match e.line {
            LineStyle::Dotted => " -. "@ + l + " .-"@ + arrow + " "@ + to,
            LineStyle::Thick => " =="@ + l + "=="@ + arrow + " "@ + to,
            LineStyle::Solid => " --"@ + l + "--"@ + arrow + " "@ + to,
        }
    } else {
        let connector: Seq<char> = match e.line {
            LineStyle::Solid => "--"@ + arrow,
            LineStyle::Dotted => "-.-"@ + arrow,
            LineStyle::Thick => "==="@ + arrow,
        };
        " "@ + connector + " "@ + to
    }
}

fn push_mermaid_edge(out: &mut String, e: &Edge)
    ensures
        final(out)@ == old(out)@ + mermaid_edge_spec(*e),
{
    let arrow = if e.arrow {
        ">"
    } else {
        "-"
    };
    let labeled = match &e.label {
        Some(l) => chars_of(l.as_str()).len() > 0,
        None => false,
    };
    proof {
        broadcast use vstd::string::group_string_axioms;
    }
    if labeled {
        let l = e.label.as_ref().unwrap();
        match e.line {
            LineStyle::Dotted => {
                push_str(out, " -. ");
                push_str(out, l.as_str());
                push_str(out, " .-");
            },
            LineStyle::Thick => {
                push_str(out, " ==");
                push_str(out, l.as_str());
                push_str(out, "==");
            },
            LineStyle::Solid => {
                push_str(out, " --");
                push_str(out, l.as_str());
                push_str(out, "--");
            },
        }
    } else {
        push_str(out, " ");
        match e.line {
            LineStyle::Solid => push_str(out, "--"),
            LineStyle::Dotted => push_str(out, "-.-"),
            LineStyle::Thick => push_str(out, "==="),
        }
    }
    push_str(out, arrow);
    push_str(out, " ");
    push_token(out, e.to.as_str());
    assert(out@ =~= old(out)@ + mermaid_edge_spec(*e));
}

/// An optional style value as one `key` + value part.
pub open spec fn opt_part(v: Option<String>, key: Seq<char>) -> Seq<Seq<char>> {
    match v {
        Some(x) => seq![key + x@],
        None => Seq::empty(),
    }
}

/// The Mermaid `style` declarations a node style asks for.
pub open spec fn mermaid_style_parts(s: Style) -> Seq<Seq<char>> {
    opt_part(s.fill, "fill:"@) + opt_part(s.stroke, "stroke:"@) + opt_part(s.text_color, "color:"@)
        + (match s.stroke_width {
        Some(w) => seq!["stroke-width:"@ + w.text@ + "px"@],
        None => Seq::empty(),
    }) + (if s.dashed == Some(true) {
        seq!["stroke-dasharray:5 5"@]
    } else {
        Seq::empty()
    })
}

/// The Mermaid style text of a node style, if it sets anything Mermaid shows.
pub open spec fn mermaid_style_spec(s: Style) -> Option<Seq<char>> {
    let parts = mermaid_style_parts(s);
    if s.is_empty_spec() || parts.len() == 0 {
        None
    } else {
        Some(join_spec(parts, ","@))
    }
}

fn push_keyed(parts: &mut Vec<String>, key: &str, v: &Option<String>)
    ensures
        views_of(final(parts)@) == views_of(old(parts)@) + opt_part(*v, key@),
{
    match v {
        Some(x) => {
            let mut t = owned(key);
            push_str(&mut t, x.as_str());
            push_part(parts, t);
            assert(views_of(parts@) =~= views_of(old(parts)@) + opt_part(*v, key@));
        },
        None => {
            assert(views_of(parts@) =~= views_of(old(parts)@) + opt_part(*v, key@));
        },
    }
}

/// The Mermaid style text of a node style (see [`mermaid_style_spec`]).
pub fn mermaid_style(s: &Style) -> (r: Option<String>)
    ensures
        match r {
            Some(t) => mermaid_style_spec(*s) == Some(t@),
            None => mermaid_style_spec(*s) is None,
        },
{
    if s.is_empty() {
        return None;
    }
    let mut parts: Vec<String> = Vec::new();
    assert(views_of(parts@) =~= Seq::<Seq<char>>::empty());
    push_keyed(&mut parts, "fill:", &s.fill);
    push_keyed(&mut parts, "stroke:", &s.stroke);
    push_keyed(&mut parts, "color:", &s.text_color);
    let ghost before = views_of(parts@);
    match &s.stroke_width {
        Some(w) => {
            let mut t = owned("stroke-width:");
            push_str(&mut t, w.text.as_str());
            push_str(&mut t, "px");
            push_part(&mut parts, t);
        },
        None => {},
    }
    if s.dashed == Some(true) {
        push_part(&mut parts, owned("stroke-dasharray:5 5"));
    }
    assert(views_of(parts@) =~= mermaid_style_parts(*s));
    if parts.len() == 0 {
        None
    } else {
        let mut out = String::new();
        push_joined(&mut out, &parts, ",");
        assert(out@ =~= join_spec(mermaid_style_parts(*s), ","@));
        Some(out)
    }
}

/// A node line: indent, token and the shape-wrapped plain label.
pub open spec fn mermaid_node_line(n: Node, indent: Seq<char>) -> Seq<char> {
    indent + node_token(n.id@) + n.shape.mermaid_wrap_spec(plain_label_spec(n)) + "\n"@
}

/// Some container lists `id` among its members.
pub open spec fn in_any_container(sgs: Seq<Subgraph>, id: Seq<char>) -> bool {
    exists|i: int, j: int|
        0 <= i < sgs.len() && 0 <= j < sgs[i].members@.len() && #[trigger] sgs[i].members@[j]@
            == id
}

pub open spec fn mermaid_top_node(sgs: Seq<Subgraph>) -> spec_fn(Node) -> Seq<char> {
    |n: Node|
        if in_any_container(sgs, n.id@) {
            Seq::empty()
        } else {
            mermaid_node_line(n, "    "@)
        }
}

pub open spec fn mermaid_member(nodes: Seq<Node>) -> spec_fn(String) -> Seq<char> {
    |m: String|
        match first_index(node_ids(nodes), m@) {
            Some(i) => mermaid_node_line(nodes[i], "        "@),
            None => Seq::empty(),
        }
}

pub open spec fn mermaid_subgraph(nodes: Seq<Node>) -> spec_fn(Subgraph) -> Seq<char> {
    |sg: Subgraph|
        "    subgraph "@ + node_token(sg.id@) + " ["@ + sg.label@ + "]\n"@ + concat_map(
            sg.members@,
            mermaid_member(nodes),
        ) + "    end\n"@
}

pub open spec fn mermaid_edge_line() -> spec_fn(Edge) -> Seq<char> {
    |e: Edge| "    "@ + node_token(e.from@) + mermaid_edge_spec(e) + "\n"@
}

pub open spec fn mermaid_style_line() -> spec_fn(Node) -> Seq<char> {
    |n: Node|
        match mermaid_style_spec(n.style) {
            Some(st) => "    style "@ + node_token(n.id@) + " "@ + st + "\n"@,
            None => Seq::empty(),
        }
}

/// The Mermaid flowchart text of a chart.
pub open spec fn to_mermaid_spec(fc: Flowchart) -> Seq<char> {
    "flowchart "@ + fc.direction.mermaid_spec() + "\n"@ + concat_map(
        fc.nodes@,
        mermaid_top_node(fc.subgraphs@),
    ) + concat_map(fc.subgraphs@, mermaid_subgraph(fc.nodes@)) + concat_map(
        fc.edges@,
        mermaid_edge_line(),
    ) + concat_map(fc.nodes@, mermaid_style_line())
}

fn push_mermaid_node(out: &mut String, n: &Node, indent: &str)
    ensures
        final(out)@ == old(out)@ + mermaid_node_line(*n, indent@),
{
    push_str(out, indent);
    push_token(out, n.id.as_str());
    let label = plain_label(n);
    let lv = chars_of(label.as_str());
    n.shape.push_mermaid_wrap(out, &lv);
    push_str(out, "\n");
    assert(out@ =~= old(out)@ + mermaid_node_line(*n, indent@));
}

fn in_container(sgs: &Vec<Subgraph>, id: &str) -> (r: bool)
    ensures
        r == in_any_container(sgs@, id@),
{
    let mut i: usize = 0;
    while i < sgs.len()
        invariant
            i <= sgs.len(),
            forall|a: int, b: int|
                0 <= a < i && 0 <= b < sgs@[a].members@.len() ==> #[trigger] sgs@[a].members@[b]@
                    != id@,
        decreases sgs.len() - i,
    {
        let ms = &sgs[i].members;
        let mut j: usize = 0;
        while j < ms.len()
            invariant
                i < sgs.len(),
                ms == sgs@[i as int].members,
                j <= ms.len(),
                forall|a: int, b: int|
                    0 <= a < i && 0 <= b < sgs@[a].members@.len()
                        ==> #[trigger] sgs@[a].members@[b]@ != id@,
                forall|b: int| 0 <= b < j ==> #[trigger] ms@[b]@ != id@,
            decreases ms.len() - j,
        {
            if str_eq(ms[j].as_str(), id) {
                assert(sgs@[i as int].members@[j as int]@ == id@);
                return true;
            }
            j += 1;
        }
        i += 1;
    }
    false
}

fn push_mermaid_subgraph(out: &mut String, fc: &Flowchart, sg: &Subgraph)
    ensures
        final(out)@ == old(out)@ + mermaid_subgraph(fc.nodes@)(*sg),
{
    push_str(out, "    subgraph ");
    push_token(out, sg.id.as_str());
    push_str(out, " [");
    push_str(out, sg.label.as_str());
    push_str(out, "]\n");
    let ghost mid = out@;
    let ghost f = mermaid_member(fc.nodes@);
    let mut j: usize = 0;
    while j < sg.members.len()
        invariant
            j <= sg.members.len(),
            f == mermaid_member(fc.nodes@),
            out@ == mid + concat_map(sg.members@.take(j as int), f),
        decreases sg.members.len() - j,
    {
        proof {
            lemma_concat_map_step(sg.members@, j as int, f);
        }
        match find_node(&fc.nodes, sg.members[j].as_str()) {
            Some(k) => {
                push_mermaid_node(out, &fc.nodes[k], "        ");
            },
            None => {},
        }
        assert(out@ =~= mid + concat_map(sg.members@.take(j + 1), f));
        j += 1;
    }
    assert(sg.members@.take(sg.members.len() as int) =~= sg.members@);
    push_str(out, "    end\n");
    assert(out@ =~= old(out)@ + mermaid_subgraph(fc.nodes@)(*sg));
}

/// Mermaid flowchart text (see [`to_mermaid_spec`]).
pub fn to_mermaid(fc: &Flowchart) -> (r: String)
    ensures
        r@ == to_mermaid_spec(*fc),
{
    let mut out = owned("flowchart ");
    push_str(&mut out, fc.direction.as_mermaid());
    push_str(&mut out, "\n");
    let ghost a = out@;
    let ghost f1 = mermaid_top_node(fc.subgraphs@);
    let mut i: usize = 0;
    while i < fc.nodes.len()
        invariant
            i <= fc.nodes.len(),
            f1 == mermaid_top_node(fc.subgraphs@),
            out@ == a + concat_map(fc.nodes@.take(i as int), f1),
        decreases fc.nodes.len() - i,
    {
        proof {
            lemma_concat_map_step(fc.nodes@, i as int, f1);
        }
        let n = &fc.nodes[i];
        if !in_container(&fc.subgraphs, n.id.as_str()) {
            push_mermaid_node(&mut out, n, "    ");
        }
        assert(out@ =~= a + concat_map(fc.nodes@.take(i + 1), f1));
        i += 1;
    }
    assert(fc.nodes@.take(fc.nodes.len() as int) =~= fc.nodes@);
    let ghost b = out@;
    let ghost f2 = mermaid_subgraph(fc.nodes@);
    let mut i: usize = 0;
    while i < fc.subgraphs.len()
        invariant
            i <= fc.subgraphs.len(),
            f2 == mermaid_subgraph(fc.nodes@),
            out@ == b + concat_map(fc.subgraphs@.take(i as int), f2),
        decreases fc.subgraphs.len() - i,
    {
        proof {
            lemma_concat_map_step(fc.subgraphs@, i as int, f2);
        }
        push_mermaid_subgraph(&mut out, fc, &fc.subgraphs[i]);
        assert(out@ =~= b + concat_map(fc.subgraphs@.take(i + 1), f2));
        i += 1;
    }
    assert(fc.subgraphs@.take(fc.subgraphs.len() as int) =~= fc.subgraphs@);
    let ghost c = out@;
    let ghost f3 = mermaid_edge_line();
    let mut i: usize = 0;
    while i < fc.edges.len()
        invariant
            i <= fc.edges.len(),
            f3 == mermaid_edge_line(),
            out@ == c + concat_map(fc.edges@.take(i as int), f3),
        decreases fc.edges.len() - i,
    {
        proof {
            lemma_concat_map_step(fc.edges@, i as int, f3);
        }
        let e = &fc.edges[i];
        push_str(&mut out, "    ");
        push_token(&mut out, e.from.as_str());
        push_mermaid_edge(&mut out, e);
        push_str(&mut out, "\n");
        assert(out@ =~= c + concat_map(fc.edges@.take(i + 1), f3));
        i += 1;
    }
    assert(fc.edges@.take(fc.edges.len() as int) =~= fc.edges@);
    let ghost d = out@;
    let ghost f4 = mermaid_style_line();
    let mut i: usize = 0;
    while i < fc.nodes.len()
        invariant
            i <= fc.nodes.len(),
            f4 == mermaid_style_line(),
            out@ == d + concat_map(fc.nodes@.take(i as int), f4),
        decreases fc.nodes.len() - i,
    {
        proof {
            lemma_concat_map_step(fc.nodes@, i as int, f4);
        }
        let n = &fc.nodes[i];
        match mermaid_style(&n.style) {
            Some(st) => {
                push_str(&mut out, "    style ");
                push_token(&mut out, n.id.as_str());
                push_str(&mut out, " ");
                push_str(&mut out, st.as_str());
                push_str(&mut out, "\n");
            },
            None => {},
        }
        assert(out@ =~= d + concat_map(fc.nodes@.take(i + 1), f4));
        i += 1;
    }
    assert(fc.nodes@.take(fc.nodes.len() as int) =~= fc.nodes@);
    assert(out@ =~= to_mermaid_spec(*fc));
    out
}

// ---------------------------------------------------------------------------
// Graphviz DOT
// ---------------------------------------------------------------------------

pub open spec fn dot_escape_char(c: char) -> Seq<char> {
    if c == '\\' {
        "\\\\"@
    } else if c == '"' {
        "\\\""@
    } else {
        seq![c]
    }
}

/// Backslashes and double quotes escaped for a DOT string.
pub open spec fn dot_escape_spec(s: Seq<char>) -> Seq<char> {
    flat_map_chars(s, |c: char| dot_escape_char(c))
}

fn push_dot_escaped(out: &mut String, s: &str)
    ensures
        final(out)@ == old(out)@ + dot_escape_spec(s@),
{
    let v = chars_of(s);
    let ghost o0 = out@;
    let mut i: usize = 0;
    while i < v.len()
        invariant
            i <= v.len(),
            v@ == s@,
            out@ == o0 + dot_escape_spec(v@.take(i as int)),
        decreases v.len() - i,
    {
        let c = v[i];
        if c == '\\' {
            push_str(out, "\\\\");
        } else if c == '"' {
            push_str(out, "\\\"");
        } else {
            push_char(out, c);
        }
        proof {
            lemma_flat_map_chars_push(v@.take(i as int), c, |c: char| dot_escape_char(c));
            assert(v@.take(i as int).push(c) =~= v@.take(i + 1));
            assert(out@ =~= o0 + dot_escape_spec(v@.take(i + 1)));
        }
        i += 1;
    }
    assert(v@.take(v.len() as int) =~= v@);
}

/// Escape backslashes and double quotes for a DOT string.
pub fn dot_escape(s: &str) -> (r: String)
    ensures
        r@ == dot_escape_spec(s@),
{
    let mut out = String::new();
    push_dot_escaped(&mut out, s);
    assert(out@ =~= dot_escape_spec(s@));
    out
}

/// The Graphviz shape of a node shape.
pub open spec fn dot_shape_spec(shape: Shape) -> Seq<char> {
    match shape {
        Shape::Rectangle | Shape::Card | Shape::Subroutine => "box"@,
        Shape::RoundRect | Shape::Stadium => "box style=rounded"@,
        Shape::Cylinder => "cylinder"@,
        Shape::Circle => "circle"@,
        Shape::DoubleCircle => "doublecircle"@,
        Shape::Diamond => "diamond"@,
        Shape::Hexagon => "hexagon"@,
        Shape::Parallelogram | Shape::ParallelogramAlt => "parallelogram"@,
        Shape::Trapezoid | Shape::TrapezoidAlt => "trapezium"@,
        Shape::Note | Shape::Document => "note"@,
        Shape::UmlClass => "record"@,
    }
}

/// The Graphviz shape of a node shape.
pub fn dot_shape(shape: Shape) -> (r: &'static str)
    ensures
        r@ == dot_shape_spec(shape),
{
    match shape {
        Shape::Rectangle | Shape::Card | Shape::Subroutine => "box",
        Shape::RoundRect | Shape::Stadium => "box style=rounded",
        Shape::Cylinder => "cylinder",
        Shape::Circle => "circle",
        Shape::DoubleCircle => "doublecircle",
        Shape::Diamond => "diamond",
        Shape::Hexagon => "hexagon",
        Shape::Parallelogram | Shape::ParallelogramAlt => "parallelogram",
        Shape::Trapezoid | Shape::TrapezoidAlt => "trapezium",
        Shape::Note | Shape::Document => "note",
        Shape::UmlClass => "record",
    }
}

/// An optional color as a quoted DOT attribute.
pub open spec fn quoted_part(v: Option<String>, key: Seq<char>) -> Seq<Seq<char>> {
    match v {
        Some(x) => seq![key + x@ + "\""@],
        None => Seq::empty(),
    }
}

/// The DOT node attributes a style asks for.
pub open spec fn dot_style_parts(s: Style) -> Seq<Seq<char>> {
    quoted_part(s.fill, "style=filled, fillcolor=\""@) + quoted_part(s.stroke, "color=\""@)
        + quoted_part(s.text_color, "fontcolor=\""@)
}

/// The extra DOT node attributes of a style, with a leading `, `.
pub open spec fn dot_style_spec(s: Style) -> Seq<char> {
    let parts = dot_style_parts(s);
    if parts.len() == 0 {
        Seq::empty()
    } else {
        ", "@ + join_spec(parts, ", "@)
    }
}

fn push_quoted_part(parts: &mut Vec<String>, key: &str, v: &Option<String>)
    ensures
        views_of(final(parts)@) == views_of(old(parts)@) + quoted_part(*v, key@),
{
    match v {
        Some(x) => {
            let mut t = owned(key);
            push_str(&mut t, x.as_str());
            push_str(&mut t, "\"");
            push_part(parts, t);
            assert(views_of(parts@) =~= views_of(old(parts)@) + quoted_part(*v, key@));
        },
        None => {
            assert(views_of(parts@) =~= views_of(old(parts)@) + quoted_part(*v, key@));
        },
    }
}

/// The extra DOT node attributes of a style (see [`dot_style_spec`]).
pub fn dot_style(s: &Style) -> (r: String)
    ensures
        r@ == dot_style_spec(*s),
{
    let mut parts: Vec<String> = Vec::new();
    assert(views_of(parts@) =~= Seq::<Seq<char>>::empty());
    push_quoted_part(&mut parts, "style=filled, fillcolor=\"", &s.fill);
    push_quoted_part(&mut parts, "color=\"", &s.stroke);
    push_quoted_part(&mut parts, "fontcolor=\"", &s.text_color);
    assert(views_of(parts@) =~= dot_style_parts(*s));
    let mut out = String::new();
    if parts.len() > 0 {
        push_str(&mut out, ", ");
        push_joined(&mut out, &parts, ", ");
    }
    assert(out@ =~= dot_style_spec(*s));
    out
}

/// The DOT attributes of an edge.
pub open spec fn dot_edge_parts(e: Edge) -> Seq<Seq<char>> {
    (if e.label is Some && e.label->0@.len() > 0 {
        seq!["label=\""@ + dot_escape_spec(e.label->0@) + "\""@]
    } else {
        Seq::empty()
    }) + (match e.line {
        LineStyle::Dotted => seq!["style=dashed"@],
        LineStyle::Thick => seq!["penwidth=2.5"@],
        LineStyle::Solid => Seq::empty(),
    }) + (if e.resolved_end_spec() == Arrow::NoArrow {
        seq!["dir=none"@]
    } else {
        Seq::empty()
    }) + quoted_part(e.color, "color=\""@)
}

pub open spec fn dot_edge_line() -> spec_fn(Edge) -> Seq<char> {
    |e: Edge|
        {
            let parts = dot_edge_parts(e);
            "  "@ + node_token(e.from@) + " -> "@ + node_token(e.to@) + (if parts.len() == 0 {
                Seq::empty()
            } else {
                " ["@ + join_spec(parts, ", "@) + "]"@
            }) + ";\n"@
        }
}

pub open spec fn dot_node_line() -> spec_fn(Node) -> Seq<char> {
    |n: Node|
        "  "@ + node_token(n.id@) + " [label=\""@ + dot_escape_spec(plain_label_spec(n))
            + "\", shape="@ + dot_shape_spec(n.shape) + dot_style_spec(n.style) + "];\n"@
}

pub open spec fn dot_member_line() -> spec_fn(String) -> Seq<char> {
    |m: String| "    "@ + node_token(m@) + ";\n"@
}

pub open spec fn dot_cluster(i: nat, sg: Subgraph) -> Seq<char> {
    "  subgraph cluster_"@ + decimal(i) + " {\n"@ + "    label=\""@ + dot_escape_spec(sg.label@)
        + "\";\n"@ + concat_map(sg.members@, dot_member_line()) + "  }\n"@
}

/// One cluster per container, numbered from 0.
pub open spec fn dot_clusters(sgs: Seq<Subgraph>) -> Seq<char>
    decreases sgs.len(),
{
    if sgs.len() == 0 {
        Seq::empty()
    } else {
        dot_clusters(sgs.drop_last()) + dot_cluster((sgs.len() - 1) as nat, sgs.last())
    }
}

/// The Graphviz DOT text of a chart.
pub open spec fn to_dot_spec(fc: Flowchart) -> Seq<char> {
    "digraph G {\n"@ + "  rankdir="@ + fc.direction.dot_spec() + ";\n"@
        + "  node [fontname=\"Helvetica\"];\n"@ + "  edge [fontname=\"Helvetica\"];\n"@
        + (match fc.title {
        Some(t) => "  label=\""@ + dot_escape_spec(t@) + "\";\n  labelloc=t;\n"@,
        None => Seq::empty(),
    }) + dot_clusters(fc.subgraphs@) + concat_map(fc.nodes@, dot_node_line()) + concat_map(
        fc.edges@,
        dot_edge_line(),
    ) + "}\n"@
}

fn push_dot_cluster(out: &mut String, i: usize, sg: &Subgraph)
    ensures
        final(out)@ == old(out)@ + dot_cluster(i as nat, *sg),
{
    push_str(out, "  subgraph cluster_");
    push_decimal(out, i);
    push_str(out, " {\n");
    push_str(out, "    label=\"");
    push_dot_escaped(out, sg.label.as_str());
    push_str(out, "\";\n");
    let ghost mid = out@;
    let ghost f = dot_member_line();
    let mut j: usize = 0;
    while j < sg.members.len()
        invariant
            j <= sg.members.len(),
            f == dot_member_line(),
            out@ == mid + concat_map(sg.members@.take(j as int), f),
        decreases sg.members.len() - j,
    {
        proof {
            lemma_concat_map_step(sg.members@, j as int, f);
        }
        push_str(out, "    ");
        push_token(out, sg.members[j].as_str());
        push_str(out, ";\n");
        assert(out@ =~= mid + concat_map(sg.members@.take(j + 1), f));
        j += 1;
    }
    assert(sg.members@.take(sg.members.len() as int) =~= sg.members@);
    push_str(out, "  }\n");
    assert(out@ =~= old(out)@ + dot_cluster(i as nat, *sg));
}

fn push_dot_node(out: &mut String, n: &Node)
    ensures
        final(out)@ == old(out)@ + dot_node_line()(*n),
{
    push_str(out, "  ");
    push_token(out, n.id.as_str());
    push_str(out, " [label=\"");
    let label = plain_label(n);
    push_dot_escaped(out, label.as_str());
    push_str(out, "\", shape=");
    push_str(out, dot_shape(n.shape));
    let st = dot_style(&n.style);
    push_str(out, st.as_str());
    push_str(out, "];\n");
    assert(out@ =~= old(out)@ + dot_node_line()(*n));
}

fn push_dot_edge(out: &mut String, e: &Edge)
    ensures
        final(out)@ == old(out)@ + dot_edge_line()(*e),
{
    let mut parts: Vec<String> = Vec::new();
    assert(views_of(parts@) =~= Seq::<Seq<char>>::empty());
    let labeled = match &e.label {
        Some(l) => chars_of(l.as_str()).len() > 0,
        None => false,
    };
    if labeled {
        let l = e.label.as_ref().unwrap();
        let mut t = owned("label=\"");
        push_dot_escaped(&mut t, l.as_str());
        push_str(&mut t, "\"");
        push_part(&mut parts, t);
    }
    match e.line {
        LineStyle::Dotted => push_part(&mut parts, owned("style=dashed")),
        LineStyle::Thick => push_part(&mut parts, owned("penwidth=2.5")),
        LineStyle::Solid => {},
    }
    if e.resolved_end() == Arrow::NoArrow {
        push_part(&mut parts, owned("dir=none"));
    }
    let ghost before = views_of(parts@);
    push_quoted_part(&mut parts, "color=\"", &e.color);
    assert(views_of(parts@) =~= dot_edge_parts(*e));
    push_str(out, "  ");
    push_token(out, e.from.as_str());
    push_str(out, " -> ");
    push_token(out, e.to.as_str());
    if parts.len() > 0 {
        push_str(out, " [");
        push_joined(out, &parts, ", ");
        push_str(out, "]");
    }
    push_str(out, ";\n");
    assert(out@ =~= old(out)@ + dot_edge_line()(*e));
}

/// Graphviz DOT text (see [`to_dot_spec`]).
pub fn to_dot(fc: &Flowchart) -> (r: String)
    ensures
        r@ == to_dot_spec(*fc),
{
    let mut out = owned("digraph G {\n");
    push_str(&mut out, "  rankdir=");
    push_str(&mut out, fc.direction.as_dot());
    push_str(&mut out, ";\n");
    push_str(&mut out, "  node [fontname=\"Helvetica\"];\n");
    push_str(&mut out, "  edge [fontname=\"Helvetica\"];\n");
    match &fc.title {
        Some(t) => {
            push_str(&mut out, "  label=\"");
            push_dot_escaped(&mut out, t.as_str());
            push_str(&mut out, "\";\n  labelloc=t;\n");
        },
        None => {},
    }
    let ghost a = out@;
    let mut i: usize = 0;
    while i < fc.subgraphs.len()
        invariant
            i <= fc.subgraphs.len(),
            out@ == a + dot_clusters(fc.subgraphs@.take(i as int)),
        decreases fc.subgraphs.len() - i,
    {
        proof {
            assert(fc.subgraphs@.take(i + 1).drop_last() =~= fc.subgraphs@.take(i as int));
        }
        push_dot_cluster(&mut out, i, &fc.subgraphs[i]);
        assert(out@ =~= a + dot_clusters(fc.subgraphs@.take(i + 1)));
        i += 1;
    }
    assert(fc.subgraphs@.take(fc.subgraphs.len() as int) =~= fc.subgraphs@);
    let ghost b = out@;
    let ghost f1 = dot_node_line();
    let mut i: usize = 0;
    while i < fc.nodes.len()
        invariant
            i <= fc.nodes.len(),
            f1 == dot_node_line(),
            out@ == b + concat_map(fc.nodes@.take(i as int), f1),
        decreases fc.nodes.len() - i,
    {
        proof {
            lemma_concat_map_step(fc.nodes@, i as int, f1);
        }
        push_dot_node(&mut out, &fc.nodes[i]);
        assert(out@ =~= b + concat_map(fc.nodes@.take(i + 1), f1));
        i += 1;
    }
    assert(fc.nodes@.take(fc.nodes.len() as int) =~= fc.nodes@);
    let ghost c = out@;
    let ghost f2 = dot_edge_line();
    let mut i: usize = 0;
    while i < fc.edges.len()
        invariant
            i <= fc.edges.len(),
            f2 == dot_edge_line(),
            out@ == c + concat_map(fc.edges@.take(i as int), f2),
        decreases fc.edges.len() - i,
    {
        proof {
            lemma_concat_map_step(fc.edges@, i as int, f2);
        }
        push_dot_edge(&mut out, &fc.edges[i]);
        assert(out@ =~= c + concat_map(fc.edges@.take(i + 1), f2));
        i += 1;
    }
    assert(fc.edges@.take(fc.edges.len() as int) =~= fc.edges@);
    push_str(&mut out, "}\n");
    assert(out@ =~= to_dot_spec(*fc));
    out
}

// ---------------------------------------------------------------------------
// Export file extensions
// ---------------------------------------------------------------------------

/// The file extension of an export format token (compared
/// case-insensitively); `txt` for an unknown one.
pub open spec fn format_ext_spec(format: Seq<char>) -> Seq<char> {
    let k = lower_spec(format);
    if k == "drawio"@ || k == "xml"@ {
        "drawio"@
    } else if k == "mermaid"@ || k == "mmd"@ {
        "mmd"@
    } else if k == "dot"@ || k == "graphviz"@ {
        "dot"@
    } else if k == "svg"@ {
        "svg"@
    } else if k == "json"@ {
        "json"@
    } else {
        "txt"@
    }
}

/// File extension for an export format token.
pub fn format_ext(format: &str) -> (r: &'static str)
    ensures
        r@ == format_ext_spec(format@),
{
    let k = lower_of(format);
    if eq_lit(&k, "drawio") || eq_lit(&k, "xml") {
        "drawio"
    } else if eq_lit(&k, "mermaid") || eq_lit(&k, "mmd") {
        "mmd"
    } else if eq_lit(&k, "dot") || eq_lit(&k, "graphviz") {
        "dot"
    } else if eq_lit(&k, "svg") {
        "svg"
    } else if eq_lit(&k, "json") {
        "json"
    } else {
        "txt"
    }
}

} // verus!


