//! draw.io (mxGraph) cell values and styles for the parts of a flowchart
//! page: swimlane bands, containers, nodes and edges, and the sequential
//! step numbers shown as badges.

use vstd::prelude::*;

use super::{ContainerKind, Decimal, Edge, EdgeRouting, LineStyle, Node, Shape, Style, Subgraph};
use crate::stencils::{drawio_base, resolve, resolve_spec};
use crate::text::{
    chars_of, decimal, find_lit, find_spec, lemma_find_from_bounds, occurs_at, owned, push_decimal,
    push_str, push_xml_escaped, xml_escape, xml_escape_spec,
};

verus! {

/// `key=value;`, one entry of a draw.io style string.
pub open spec fn kv(key: Seq<char>, value: Seq<char>) -> Seq<char> {
    key + "="@ + value + ";"@
}

/// `key=value;` when the value is set, nothing otherwise.
pub open spec fn opt_kv(key: Seq<char>, value: Option<String>) -> Seq<char> {
    match value {
        Some(v) => kv(key, v@),
        None => Seq::empty(),
    }
}

fn push_kv(s: &mut String, key: &str, value: &str)
    ensures
        final(s)@ == old(s)@ + kv(key@, value@),
{
    push_str(s, key);
    push_str(s, "=");
    push_str(s, value);
    push_str(s, ";");
    assert(s@ =~= old(s)@ + kv(key@, value@));
}

fn push_opt_kv(s: &mut String, key: &str, value: &Option<String>)
    ensures
        final(s)@ == old(s)@ + opt_kv(key@, *value),
{
    match value {
        Some(v) => push_kv(s, key, v.as_str()),
        None => {
            assert(s@ =~= old(s)@ + opt_kv(key@, *value));
        },
    }
}

/// `p` occurs somewhere in `s`.
pub open spec fn contains_spec(s: Seq<char>, p: Seq<char>) -> bool {
    exists|i: int| occurs_at(s, p, i)
}

fn contains_lit(s: &String, p: &str) -> (r: bool)
    ensures
        r == contains_spec(s@, p@),
{
    let v = chars_of(s.as_str());
    proof {
        lemma_find_from_bounds(v@, p@, 0);
    }
    match find_lit(&v, p) {
        Some(_) => true,
        None => {
            assert forall|i: int| !occurs_at(s@, p@, i) by {
                if i >= 0 {
                    assert(!occurs_at(v@, p@, i));
                }
            }
            false
        },
    }
}

// ---------------------------------------------------------------------------
// Bands and containers
// ---------------------------------------------------------------------------

/// Swimlane band style: the title bar sits on top for vertical flow and on
/// the left for horizontal flow.
pub open spec fn lane_style_spec(vertical: bool) -> Seq<char> {
    "swimlane;whiteSpace=wrap;html=1;startSize=30;horizontal="@ + (if vertical {
        "1"@
    } else {
        "0"@
    }) + ";fillColor=#F5F8FB;swimlaneFillColor=#FFFFFF;strokeColor=#9DB3C8;"@
        + "fontColor=#1F2A37;fontStyle=1;fontSize=13;"@
}

/// Swimlane band style (see [`lane_style_spec`]).
pub fn drawio_lane_style(vertical: bool) -> (r: String)
    ensures
        r@ == lane_style_spec(vertical),
{
    let mut s = owned("swimlane;whiteSpace=wrap;html=1;startSize=30;horizontal=");
    push_str(
        &mut s,
        if vertical {
            "1"
        } else {
            "0"
        },
    );
    push_str(&mut s, ";fillColor=#F5F8FB;swimlaneFillColor=#FFFFFF;strokeColor=#9DB3C8;");
    push_str(&mut s, "fontColor=#1F2A37;fontStyle=1;fontSize=13;");
    assert(s@ =~= lane_style_spec(vertical));
    s
}

/// The container stacks vertically.
pub open spec fn is_vertical_container(sg: Subgraph) -> bool {
    sg.orientation matches Some(o) && o@ == "vertical"@
}

/// Style of a container cell, by kind.
pub open spec fn container_style_spec(sg: Subgraph) -> Seq<char> {
    let v = is_vertical_container(sg);
    match sg.kind {
        ContainerKind::Group => "rounded=0;whiteSpace=wrap;html=1;dashed=1;verticalAlign=top;fillColor=none;"@,
        ContainerKind::Container => "rounded=0;whiteSpace=wrap;html=1;verticalAlign=top;container=1;collapsible=0;fillColor=none;"@,
        ContainerKind::Swimlane => "swimlane;whiteSpace=wrap;html=1;startSize=24;horizontal="@ + (if v {
            "0"@
        } else {
            "1"@
        }) + ";"@,
        ContainerKind::Pool => "swimlane;whiteSpace=wrap;html=1;startSize=24;childLayout=stackLayout;horizontal="@
            + (if v {
            "0"@
        } else {
            "1"@
        }) + ";horizontalStack="@ + (if v {
            "1"@
        } else {
            "0"@
        }) + ";resizeParent=1;collapsible=0;"@,
    }
}

/// Style of a container cell (see [`container_style_spec`]).
pub fn drawio_container_style(sg: &Subgraph) -> (r: String)
    ensures
        r@ == container_style_spec(*sg),
{
    let v = match &sg.orientation {
        Some(o) => {
            let ov = chars_of(o.as_str());
            crate::text::eq_lit(&ov, "vertical")
        },
        None => false,
    };
    let (zero_if_v, one_if_v) = if v {
        ("0", "1")
    } else {
        ("1", "0")
    };
    match sg.kind {
        ContainerKind::Group => owned(
            "rounded=0;whiteSpace=wrap;html=1;dashed=1;verticalAlign=top;fillColor=none;",
        ),
        ContainerKind::Container => owned(
            "rounded=0;whiteSpace=wrap;html=1;verticalAlign=top;container=1;collapsible=0;fillColor=none;",
        ),
        ContainerKind::Swimlane => {
            let mut s = owned("swimlane;whiteSpace=wrap;html=1;startSize=24;horizontal=");
            push_str(&mut s, zero_if_v);
            push_str(&mut s, ";");
            assert(s@ =~= container_style_spec(*sg));
            s
        },
        ContainerKind::Pool => {
            let mut s = owned(
                "swimlane;whiteSpace=wrap;html=1;startSize=24;childLayout=stackLayout;horizontal=",
            );
            push_str(&mut s, zero_if_v);
            push_str(&mut s, ";horizontalStack=");
            push_str(&mut s, one_if_v);
            push_str(&mut s, ";resizeParent=1;collapsible=0;");
            assert(s@ =~= container_style_spec(*sg));
            s
        },
    }
}

// ---------------------------------------------------------------------------
// Node values
// ---------------------------------------------------------------------------

/// The `<br/>`-joined escaped lines of one compartment.
pub open spec fn compartment_lines(lines: Seq<String>) -> Seq<char>
    decreases lines.len(),
{
    if lines.len() == 0 {
        Seq::empty()
    } else if lines.len() == 1 {
        xml_escape_spec(lines[0]@)
    } else {
        compartment_lines(lines.drop_last()) + "<br/>"@ + xml_escape_spec(lines.last()@)
    }
}

pub open spec fn compartment_html(c: Vec<String>) -> Seq<char> {
    "<hr size=\"1\"/>"@ + "<p style=\"margin:0px;margin-left:4px;\">"@ + compartment_lines(c@)
        + "</p>"@
}

pub open spec fn compartments_html(cs: Seq<Vec<String>>) -> Seq<char>
    decreases cs.len(),
{
    if cs.len() == 0 {
        Seq::empty()
    } else {
        compartments_html(cs.drop_last()) + compartment_html(cs.last())
    }
}

/// A UML class as HTML: the bold title, then each compartment under a rule.
pub open spec fn uml_class_html(n: Node) -> Seq<char> {
    "<p style=\"margin:0px;margin-top:4px;text-align:center;\"><b>"@ + xml_escape_spec(n.label@)
        + "</b></p>"@ + compartments_html(n.compartments@)
}

/// The draw.io `value` of a node: the escaped label, or for a UML class the
/// escaped HTML of its table.
pub open spec fn node_value_spec(n: Node) -> Seq<char> {
    if n.shape == Shape::UmlClass {
        xml_escape_spec(uml_class_html(n))
    } else {
        xml_escape_spec(n.label@)
    }
}

fn push_compartment(html: &mut String, c: &Vec<String>)
    ensures
        final(html)@ == old(html)@ + compartment_html(*c),
{
    push_str(html, "<hr size=\"1\"/>");
    push_str(html, "<p style=\"margin:0px;margin-left:4px;\">");
    let ghost mid = html@;
    let mut j: usize = 0;
    while j < c.len()
        invariant
            j <= c.len(),
            html@ == mid + compartment_lines(c@.take(j as int)),
        decreases c.len() - j,
    {
        proof {
            let t = c@.take(j + 1);
            assert(t.drop_last() =~= c@.take(j as int));
            if j == 0 {
                assert(c@.take(0) =~= Seq::<String>::empty());
            }
        }
        if j > 0 {
            push_str(html, "<br/>");
        }
        let v = chars_of(c[j].as_str());
        push_xml_escaped(html, &v);
        assert(html@ =~= mid + compartment_lines(c@.take(j + 1)));
        j += 1;
    }
    assert(c@.take(c.len() as int) =~= c@);
    push_str(html, "</p>");
    assert(html@ =~= old(html)@ + compartment_html(*c));
}

/// The draw.io `value` of a node (see [`node_value_spec`]).
pub fn drawio_node_value(node: &Node) -> (r: String)
    ensures
        r@ == node_value_spec(*node),
{
    if node.shape == Shape::UmlClass {
        let mut html = owned("<p style=\"margin:0px;margin-top:4px;text-align:center;\"><b>");
        let lv = chars_of(node.label.as_str());
        push_xml_escaped(&mut html, &lv);
        push_str(&mut html, "</b></p>");
        let ghost mid = html@;
        let mut k: usize = 0;
        while k < node.compartments.len()
            invariant
                k <= node.compartments.len(),
                html@ == mid + compartments_html(node.compartments@.take(k as int)),
            decreases node.compartments.len() - k,
        {
            assert(node.compartments@.take(k + 1).drop_last() =~= node.compartments@.take(
                k as int,
            ));
            push_compartment(&mut html, &node.compartments[k]);
            assert(html@ =~= mid + compartments_html(node.compartments@.take(k + 1)));
            k += 1;
        }
        assert(node.compartments@.take(node.compartments.len() as int) =~= node.compartments@);
        assert(html@ =~= uml_class_html(*node));
        return xml_escape(html.as_str());
    }
    xml_escape(node.label.as_str())
}

// ---------------------------------------------------------------------------
// Node styles
// ---------------------------------------------------------------------------

/// Default fill, stroke and font color of a shape.
pub open spec fn theme_colors_spec(shape: Shape) -> (Seq<char>, Seq<char>, Seq<char>) {
    match shape {
        Shape::Stadium | Shape::Circle | Shape::DoubleCircle => (
            "#1F6FB8"@,
            "#15527F"@,
            "#FFFFFF"@,
        ),
        Shape::Diamond => ("#FFF2CC"@, "#D6B656"@, "#7A5C00"@),
        Shape::Document | Shape::Note | Shape::Card => ("#DAE8FC"@, "#6C8EBF"@, "#1F2A37"@),
        Shape::Cylinder => ("#E1D5E7"@, "#9673A6"@, "#1F2A37"@),
        _ => ("#EAF2FB"@, "#4A7AAA"@, "#1F2A37"@),
    }
}

/// Default fill, stroke and font color of a shape (see [`theme_colors_spec`]).
pub fn theme_colors(shape: Shape) -> (r: (&'static str, &'static str, &'static str))
    ensures
        (r.0@, r.1@, r.2@) == theme_colors_spec(shape),
{
    match shape {
        Shape::Stadium | Shape::Circle | Shape::DoubleCircle => ("#1F6FB8", "#15527F", "#FFFFFF"),
        Shape::Diamond => ("#FFF2CC", "#D6B656", "#7A5C00"),
        Shape::Document | Shape::Note | Shape::Card => ("#DAE8FC", "#6C8EBF", "#1F2A37"),
        Shape::Cylinder => ("#E1D5E7", "#9673A6", "#1F2A37"),
        _ => ("#EAF2FB", "#4A7AAA", "#1F2A37"),
    }
}

/// A node's style with the shape's default colors filled in where unset,
/// a 13 pt font when none is set, and bold start/end terminators.
pub fn themed_style(shape: Shape, style: Style) -> (r: Style)
    ensures
        match style.fill {
            Some(f) => r.fill == Some(f),
            None => r.fill matches Some(x) && x@ == theme_colors_spec(shape).0,
        },
        match style.stroke {
            Some(f) => r.stroke == Some(f),
            None => r.stroke matches Some(x) && x@ == theme_colors_spec(shape).1,
        },
        match style.text_color {
            Some(f) => r.text_color == Some(f),
            None => r.text_color matches Some(x) && x@ == theme_colors_spec(shape).2,
        },
        match style.font_size {
            Some(f) => r.font_size == Some(f),
            None => r.font_size matches Some(x) && x.text@ == "13"@,
        },
        r.bold == (if shape == Shape::Stadium && style.bold is None {
            Some(true)
        } else {
            style.bold
        }),
        r.stroke_width == style.stroke_width,
        r.font_family == style.font_family,
        r.italic == style.italic,
        r.align == style.align,
        r.opacity == style.opacity,
        r.rounded == style.rounded,
        r.shadow == style.shadow,
        r.dashed == style.dashed,
        r.gradient == style.gradient,
        r.sketch == style.sketch,
        r.glass == style.glass,
{
    let (fill, stroke, font) = theme_colors(shape);
    let mut s = style;
    if s.fill.is_none() {
        s.fill = Some(owned(fill));
    }
    if s.stroke.is_none() {
        s.stroke = Some(owned(stroke));
    }
    if s.text_color.is_none() {
        s.text_color = Some(owned(font));
    }
    if s.font_size.is_none() {
        s.font_size = Some(Decimal::new("13"));
    }
    if shape == Shape::Stadium && s.bold.is_none() {
        s.bold = Some(true);
    }
    s
}

/// The draw.io base style of a shape.
pub open spec fn shape_style_spec(shape: Shape) -> Seq<char> {
    match shape {
        Shape::Rectangle => "rounded=0;whiteSpace=wrap;html=1;"@,
        Shape::RoundRect => "rounded=1;whiteSpace=wrap;html=1;"@,
        Shape::Stadium => "rounded=1;whiteSpace=wrap;html=1;arcSize=40;"@,
        Shape::Subroutine => "shape=process;whiteSpace=wrap;html=1;"@,
        Shape::Cylinder => "shape=cylinder3;whiteSpace=wrap;html=1;boundedLbl=1;"@,
        Shape::Circle => "ellipse;whiteSpace=wrap;html=1;aspect=fixed;"@,
        Shape::DoubleCircle => "ellipse;shape=doubleEllipse;whiteSpace=wrap;html=1;aspect=fixed;"@,
        Shape::Diamond => "rhombus;whiteSpace=wrap;html=1;"@,
        Shape::Hexagon => "shape=hexagon;perimeter=hexagonPerimeter2;whiteSpace=wrap;html=1;"@,
        Shape::Parallelogram => "shape=parallelogram;perimeter=parallelogramPerimeter;whiteSpace=wrap;html=1;"@,
        Shape::ParallelogramAlt => "shape=parallelogram;perimeter=parallelogramPerimeter;whiteSpace=wrap;html=1;flipH=1;"@,
        Shape::Trapezoid => "shape=trapezoid;perimeter=trapezoidPerimeter;whiteSpace=wrap;html=1;"@,
        Shape::TrapezoidAlt => "shape=trapezoid;perimeter=trapezoidPerimeter;whiteSpace=wrap;html=1;direction=south;"@,
        Shape::Note => "shape=note;whiteSpace=wrap;html=1;size=14;"@,
        Shape::Card => "shape=card;whiteSpace=wrap;html=1;size=14;"@,
        Shape::Document => "shape=document;whiteSpace=wrap;html=1;boundedLbl=1;"@,
        Shape::UmlClass => "verticalAlign=top;align=left;overflow=fill;html=1;whiteSpace=wrap;"@,
    }
}

fn shape_style(shape: Shape) -> (r: &'static str)
    ensures
        r@ == shape_style_spec(shape),
{
    match shape {
        Shape::Rectangle => "rounded=0;whiteSpace=wrap;html=1;",
        Shape::RoundRect => "rounded=1;whiteSpace=wrap;html=1;",
        Shape::Stadium => "rounded=1;whiteSpace=wrap;html=1;arcSize=40;",
        Shape::Subroutine => "shape=process;whiteSpace=wrap;html=1;",
        Shape::Cylinder => "shape=cylinder3;whiteSpace=wrap;html=1;boundedLbl=1;",
        Shape::Circle => "ellipse;whiteSpace=wrap;html=1;aspect=fixed;",
        Shape::DoubleCircle => "ellipse;shape=doubleEllipse;whiteSpace=wrap;html=1;aspect=fixed;",
        Shape::Diamond => "rhombus;whiteSpace=wrap;html=1;",
        Shape::Hexagon => "shape=hexagon;perimeter=hexagonPerimeter2;whiteSpace=wrap;html=1;",
        Shape::Parallelogram => "shape=parallelogram;perimeter=parallelogramPerimeter;whiteSpace=wrap;html=1;",
        Shape::ParallelogramAlt => "shape=parallelogram;perimeter=parallelogramPerimeter;whiteSpace=wrap;html=1;flipH=1;",
        Shape::Trapezoid => "shape=trapezoid;perimeter=trapezoidPerimeter;whiteSpace=wrap;html=1;",
        Shape::TrapezoidAlt => "shape=trapezoid;perimeter=trapezoidPerimeter;whiteSpace=wrap;html=1;direction=south;",
        Shape::Note => "shape=note;whiteSpace=wrap;html=1;size=14;",
        Shape::Card => "shape=card;whiteSpace=wrap;html=1;size=14;",
        Shape::Document => "shape=document;whiteSpace=wrap;html=1;boundedLbl=1;",
        Shape::UmlClass => "verticalAlign=top;align=left;overflow=fill;html=1;whiteSpace=wrap;",
    }
}

/// The default colors and font settings of a shape, for the fields the
/// style leaves unset.
pub open spec fn theme_defaults_spec(shape: Shape, st: Style) -> Seq<char> {
    let c = theme_colors_spec(shape);
    when(st.fill is None, kv("fillColor"@, c.0)) + when(st.stroke is None, kv("strokeColor"@, c.1))
        + when(st.text_color is None, kv("fontColor"@, c.2)) + when(
        shape == Shape::Stadium && st.bold is None,
        "fontStyle=1;"@,
    ) + when(st.font_size is None, "fontSize=12;"@)
}

/// `t` when `b` holds, nothing otherwise.
pub open spec fn when(b: bool, t: Seq<char>) -> Seq<char> {
    if b {
        t
    } else {
        Seq::empty()
    }
}

fn push_when(s: &mut String, b: bool, t: &str)
    ensures
        final(s)@ == old(s)@ + when(b, t@),
{
    if b {
        push_str(s, t);
    } else {
        assert(s@ =~= old(s)@ + when(b, t@));
    }
}

fn push_kv_when(s: &mut String, b: bool, key: &str, value: &str)
    ensures
        final(s)@ == old(s)@ + when(b, kv(key@, value@)),
{
    if b {
        push_kv(s, key, value);
    } else {
        assert(s@ =~= old(s)@ + when(b, kv(key@, value@)));
    }
}

/// Append the theme defaults of a shape (see [`theme_defaults_spec`]).
#[verifier::spinoff_prover]
#[verifier::rlimit(40)]
pub fn apply_theme(s: &mut String, shape: Shape, style: &Style)
    ensures
        final(s)@ == old(s)@ + theme_defaults_spec(shape, *style),
{
    let (fill, stroke, font) = theme_colors(shape);
    push_kv_when(s, style.fill.is_none(), "fillColor", fill);
    push_kv_when(s, style.stroke.is_none(), "strokeColor", stroke);
    push_kv_when(s, style.text_color.is_none(), "fontColor", font);
    push_when(s, shape == Shape::Stadium && style.bold.is_none(), "fontStyle=1;");
    push_when(s, style.font_size.is_none(), "fontSize=12;");
    assert(s@ =~= old(s)@ + theme_defaults_spec(shape, *style));
}

/// The font-style bitmask: 1 for bold, 2 for italic.
pub open spec fn font_style_bits(st: Style) -> nat {
    (if st.bold == Some(true) {
        1nat
    } else {
        0nat
    }) + (if st.italic == Some(true) {
        2nat
    } else {
        0nat
    })
}

/// `key=value;` for a number when it is set.
pub open spec fn dec_kv(key: Seq<char>, value: Option<super::Decimal>) -> Seq<char> {
    match value {
        Some(d) => kv(key, d.text@),
        None => Seq::empty(),
    }
}

/// The font-style entry, when bold or italic is asked for.
pub open spec fn font_style_part(st: Style) -> Seq<char> {
    when(font_style_bits(st) != 0, kv("fontStyle"@, decimal(font_style_bits(st))))
}

/// The style entries up to and including the opacity.
pub open spec fn common_head(st: Style) -> Seq<char> {
    opt_kv("fillColor"@, st.fill) + opt_kv("strokeColor"@, st.stroke) + opt_kv(
        "fontColor"@,
        st.text_color,
    ) + dec_kv("strokeWidth"@, st.stroke_width) + opt_kv("fontFamily"@, st.font_family) + dec_kv(
        "fontSize"@,
        st.font_size,
    ) + font_style_part(st) + opt_kv("align"@, st.align) + dec_kv("opacity"@, st.opacity)
}

/// The entries after the corner rounding.
pub open spec fn common_tail(st: Style) -> Seq<char> {
    when(st.shadow == Some(true), "shadow=1;"@) + when(st.dashed == Some(true), "dashed=1;"@)
        + opt_kv("gradientColor"@, st.gradient) + when(st.sketch == Some(true), "sketch=1;"@)
        + when(st.glass == Some(true), "glass=1;"@)
}

/// The style entries a node style adds after `before`: rounding is added
/// only when asked for and not already present.
pub open spec fn common_spec(before: Seq<char>, st: Style) -> Seq<char> {
    let head = before + common_head(st);
    common_head(st) + when(
        st.rounded == Some(true) && !contains_spec(head, "rounded=1"@),
        "rounded=1;"@,
    ) + common_tail(st)
}

fn push_dec_kv(s: &mut String, key: &str, value: &Option<super::Decimal>)
    ensures
        final(s)@ == old(s)@ + dec_kv(key@, *value),
{
    match value {
        Some(d) => push_kv(s, key, d.text.as_str()),
        None => {
            assert(s@ =~= old(s)@ + dec_kv(key@, *value));
        },
    }
}

fn push_font_style(s: &mut String, style: &Style)
    ensures
        final(s)@ == old(s)@ + font_style_part(*style),
{
    let mut fs: usize = 0;
    if style.bold == Some(true) {
        fs = fs + 1;
    }
    if style.italic == Some(true) {
        fs = fs + 2;
    }
    assert(fs == font_style_bits(*style));
    if fs != 0 {
        let d = crate::text::decimal_string(fs);
        push_kv(s, "fontStyle", d.as_str());
    }
    assert(s@ =~= old(s)@ + font_style_part(*style));
}

fn push_common_head(s: &mut String, style: &Style)
    ensures
        final(s)@ == old(s)@ + common_head(*style),
{
    push_opt_kv(s, "fillColor", &style.fill);
    push_opt_kv(s, "strokeColor", &style.stroke);
    push_opt_kv(s, "fontColor", &style.text_color);
    push_dec_kv(s, "strokeWidth", &style.stroke_width);
    push_opt_kv(s, "fontFamily", &style.font_family);
    push_dec_kv(s, "fontSize", &style.font_size);
    push_font_style(s, style);
    push_opt_kv(s, "align", &style.align);
    push_dec_kv(s, "opacity", &style.opacity);
    assert(s@ =~= old(s)@ + common_head(*style));
}

fn push_common_tail(s: &mut String, style: &Style)
    ensures
        final(s)@ == old(s)@ + common_tail(*style),
{
    push_when(s, style.shadow == Some(true), "shadow=1;");
    push_when(s, style.dashed == Some(true), "dashed=1;");
    push_opt_kv(s, "gradientColor", &style.gradient);
    push_when(s, style.sketch == Some(true), "sketch=1;");
    push_when(s, style.glass == Some(true), "glass=1;");
    assert(s@ =~= old(s)@ + common_tail(*style));
}

/// Append the shared style entries of a node style (see [`common_spec`]).
pub fn push_common(s: &mut String, style: &Style)
    ensures
        final(s)@ == old(s)@ + common_spec(old(s)@, *style),
{
    push_common_head(s, style);
    let round = style.rounded == Some(true) && !contains_lit(s, "rounded=1");
    push_when(s, round, "rounded=1;");
    push_common_tail(s, style);
    assert(s@ =~= old(s)@ + common_spec(old(s)@, *style));
}

/// The style of an image node, an image-less shape node, by priority.
pub open spec fn drawio_style_spec(shape: Shape, st: Style, image: Option<Seq<char>>) -> Seq<char> {
    match image {
        Some(uri) => {
            let base = "shape=image;html=1;imageAspect=0;aspect=fixed;verticalLabelPosition=bottom;"@
                + "verticalAlign=top;image="@ + xml_escape_spec(uri) + ";"@;
            base + common_spec(base, st)
        },
        None => {
            let base = shape_style_spec(shape) + theme_defaults_spec(shape, st);
            base + common_spec(base, st)
        },
    }
}

/// The draw.io style of a shape with a style and optional image.
pub fn drawio_style(shape: Shape, style: &Style, image: Option<&str>) -> (r: String)
    ensures
        r@ == drawio_style_spec(
            shape,
            *style,
            match image {
                Some(u) => Some(u@),
                None => None,
            },
        ),
{
    match image {
        Some(uri) => {
            let mut s = owned(
                "shape=image;html=1;imageAspect=0;aspect=fixed;verticalLabelPosition=bottom;",
            );
            push_str(&mut s, "verticalAlign=top;image=");
            let uv = chars_of(uri);
            push_xml_escaped(&mut s, &uv);
            push_str(&mut s, ";");
            push_common(&mut s, style);
            s
        },
        None => {
            let mut s = owned(shape_style(shape));
            apply_theme(&mut s, shape, style);
            push_common(&mut s, style);
            s
        },
    }
}

/// The draw.io style of a node: its stencil when the stencil resolves, else
/// its image or shape.
pub open spec fn node_style_spec(n: Node) -> Seq<char> {
    let fallback = drawio_style_spec(
        n.shape,
        n.style,
        match n.image {
            Some(u) => Some(u@),
            None => None,
        },
    );
    match n.stencil {
        Some(key) => match resolve_spec(key@) {
            Some((shape, lib)) => {
                let base = shape + ";"@ + lib.base_style_spec();
                base + common_spec(base, n.style)
            },
            None => fallback,
        },
        None => fallback,
    }
}

/// The draw.io style of a node (see [`node_style_spec`]).
pub fn drawio_node_style(node: &Node) -> (r: String)
    ensures
        r@ == node_style_spec(*node),
{
    match &node.stencil {
        Some(key) => match resolve(key.as_str()) {
            Some(res) => {
                let mut s = drawio_base(&res);
                push_common(&mut s, &node.style);
                return s;
            },
            None => {},
        },
        None => {},
    }
    let image = match &node.image {
        Some(u) => Some(u.as_str()),
        None => None,
    };
    drawio_style(node.shape, &node.style, image)
}

// ---------------------------------------------------------------------------
// Edge styles
// ---------------------------------------------------------------------------

pub open spec fn line_style_part(line: LineStyle) -> Seq<char> {
    match line {
        LineStyle::Dotted => "dashed=1;"@,
        LineStyle::Thick => "strokeWidth=3;"@,
        LineStyle::Solid => Seq::empty(),
    }
}

/// The stroke color of an edge, with the default when unset.
pub open spec fn edge_color(e: Edge) -> Seq<char> {
    match e.color {
        Some(c) => c@,
        None => "#44515E"@,
    }
}

/// Arrowheads of an edge.
pub open spec fn arrows_part(e: Edge) -> Seq<char> {
    "startArrow="@ + e.resolved_start_spec().drawio_spec() + ";endArrow="@
        + e.resolved_end_spec().drawio_spec() + ";endFill=1;"@
}

/// Stroke color, label font and label backing of an edge.
pub open spec fn color_part(e: Edge) -> Seq<char> {
    "strokeColor="@ + edge_color(e) + ";fontColor=#44515E;fontSize=11;labelBackgroundColor=#FFFFFF;"@
}

/// How the edge is routed: loop routing for a self-loop, else the routing
/// asked for (orthogonal by default).
pub open spec fn routing_part(e: Edge) -> Seq<char> {
    if e.from@ == e.to@ {
        "edgeStyle=loopEdgeStyle;html=1;rounded=1;"@
    } else {
        let routing = match e.routing {
            Some(r) => r,
            None => EdgeRouting::Orthogonal,
        };
        routing.drawio_spec() + "html=1;jettySize=auto;"@
    }
}

/// The draw.io style of an edge: routing, line, arrowheads, color and label
/// backing.
pub open spec fn edge_style_spec(e: Edge) -> Seq<char> {
    routing_part(e) + line_style_part(e.line) + arrows_part(e) + color_part(e)
}

fn push_arrows(s: &mut String, e: &Edge)
    ensures
        final(s)@ == old(s)@ + arrows_part(*e),
{
    push_str(s, "startArrow=");
    push_str(s, e.resolved_start().drawio());
    push_str(s, ";endArrow=");
    push_str(s, e.resolved_end().drawio());
    push_str(s, ";endFill=1;");
    assert(s@ =~= old(s)@ + arrows_part(*e));
}

fn push_color(s: &mut String, e: &Edge)
    ensures
        final(s)@ == old(s)@ + color_part(*e),
{
    push_str(s, "strokeColor=");
    match &e.color {
        Some(c) => push_str(s, c.as_str()),
        None => push_str(s, "#44515E"),
    }
    push_str(s, ";fontColor=#44515E;fontSize=11;labelBackgroundColor=#FFFFFF;");
    assert(s@ =~= old(s)@ + color_part(*e));
}

fn routing_of(e: &Edge) -> (r: String)
    ensures
        r@ == routing_part(*e),
{
    if crate::text::str_eq(e.from.as_str(), e.to.as_str()) {
        owned("edgeStyle=loopEdgeStyle;html=1;rounded=1;")
    } else {
        let routing = match e.routing {
            Some(r) => r,
            None => EdgeRouting::Orthogonal,
        };
        let mut t = owned(routing.drawio());
        push_str(&mut t, "html=1;jettySize=auto;");
        t
    }
}

/// The draw.io style of an edge (see [`edge_style_spec`]).
pub fn drawio_edge_style(e: &Edge) -> (r: String)
    ensures
        r@ == edge_style_spec(*e),
{
    let mut s = routing_of(e);
    match e.line {
        LineStyle::Dotted => push_str(&mut s, "dashed=1;"),
        LineStyle::Thick => push_str(&mut s, "strokeWidth=3;"),
        LineStyle::Solid => {},
    }
    assert(s@ =~= routing_part(*e) + line_style_part(e.line));
    push_arrows(&mut s, e);
    push_color(&mut s, e);
    assert(s@ =~= edge_style_spec(*e));
    s
}

} // verus!
