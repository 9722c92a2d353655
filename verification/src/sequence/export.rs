//! Exporters for sequence diagrams: draw.io (mxGraph XML), SVG, and Mermaid.
//!
//! Layout: participants are columns 160px apart; each message is one 44px
//! row, stacked top-to-bottom in declaration order. Every coordinate is a
//! whole number of pixels, so the geometry is exact integer arithmetic.

use vstd::prelude::*;

use super::{participant_ids, Message, MessageKind, Participant, Sequence};
use crate::engine::first_index;
use crate::text::{
    chars_of, decimal, ident_spec, push_chars, push_decimal, push_decimal_wide, push_ident,
    push_str, push_xml_escaped, xml_escape_spec,
};

verus! {

/// Center x of column `i`.
pub open spec fn col_x(i: nat) -> nat {
    84 + 160 * i
}

/// Baseline y of message row `m`.
pub open spec fn row_y(m: nat) -> nat {
    132 + 44 * m
}

/// Canvas width for `n` participants.
pub open spec fn canvas_w(n: nat) -> nat {
    if n <= 1 {
        240
    } else {
        168 + 160 * ((n - 1) as nat)
    }
}

/// Canvas height for `n` messages.
pub open spec fn canvas_h(n: nat) -> nat {
    176 + 44 * n
}

/// An integral value printed with one decimal (`{:.1}`).
pub open spec fn num1(v: nat) -> Seq<char> {
    decimal(v) + ".0"@
}

fn push_num1(out: &mut String, v: u128)
    ensures
        final(out)@ == old(out)@ + num1(v as nat),
{
    push_decimal_wide(out, v);
    push_str(out, ".0");
    assert(final(out)@ =~= old(out)@ + num1(v as nat));
}

// ---------------------------------------------------------------------------
// Mermaid
// ---------------------------------------------------------------------------

pub open spec fn mermaid_participant(p: Participant) -> Seq<char> {
    "    "@ + (if p.actor {
        "actor"@
    } else {
        "participant"@
    }) + " "@ + ident_spec(p.id@, "p_"@) + (if p.label@ == p.id@ {
        Seq::empty()
    } else {
        " as "@ + p.label@
    }) + "\n"@
}

pub open spec fn mermaid_message(m: Message) -> Seq<char> {
    "    "@ + ident_spec(m.from@, "p_"@) + m.kind.mermaid_spec() + ident_spec(m.to@, "p_"@) + ": "@
        + m.label@ + "\n"@ + (if m.kind == MessageKind::Destroy {
        "    destroy "@ + ident_spec(m.to@, "p_"@) + "\n"@
    } else {
        Seq::empty()
    })
}

pub open spec fn mermaid_participants(ps: Seq<Participant>) -> Seq<char>
    decreases ps.len(),
{
    if ps.len() == 0 {
        Seq::empty()
    } else {
        mermaid_participants(ps.drop_last()) + mermaid_participant(ps.last())
    }
}

pub open spec fn mermaid_messages(ms: Seq<Message>) -> Seq<char>
    decreases ms.len(),
{
    if ms.len() == 0 {
        Seq::empty()
    } else {
        mermaid_messages(ms.drop_last()) + mermaid_message(ms.last())
    }
}

/// The Mermaid `sequenceDiagram` text of a sequence.
pub open spec fn mermaid_spec(seq: Sequence) -> Seq<char> {
    "sequenceDiagram\n"@ + mermaid_participants(seq.participants@) + mermaid_messages(
        seq.messages@,
    )
}

fn push_mermaid_participant(out: &mut String, p: &Participant)
    ensures
        final(out)@ == old(out)@ + mermaid_participant(*p),
{
    push_str(out, "    ");
    push_str(out, if p.actor { "actor" } else { "participant" });
    push_str(out, " ");
    let id = chars_of(p.id.as_str());
    push_ident(out, &id, "p_");
    if p.label != p.id {
        push_str(out, " as ");
        push_str(out, p.label.as_str());
    }
    push_str(out, "\n");
    assert(final(out)@ =~= old(out)@ + mermaid_participant(*p));
}

fn push_mermaid_message(out: &mut String, m: &Message)
    ensures
        final(out)@ == old(out)@ + mermaid_message(*m),
{
    let from = chars_of(m.from.as_str());
    let to = chars_of(m.to.as_str());
    push_str(out, "    ");
    push_ident(out, &from, "p_");
    push_str(out, m.kind.mermaid());
    push_ident(out, &to, "p_");
    push_str(out, ": ");
    push_str(out, m.label.as_str());
    push_str(out, "\n");
    if m.kind == MessageKind::Destroy {
        push_str(out, "    destroy ");
        push_ident(out, &to, "p_");
        push_str(out, "\n");
    }
    assert(final(out)@ =~= old(out)@ + mermaid_message(*m));
}

/// Mermaid `sequenceDiagram` source for a sequence.
pub fn to_mermaid(seq: &Sequence) -> (r: String)
    ensures
        r@ == mermaid_spec(*seq),
{
    let mut out = String::new();
    push_str(&mut out, "sequenceDiagram\n");
    let mut i: usize = 0;
    while i < seq.participants.len()
        invariant
            i <= seq.participants@.len(),
            out@ == "sequenceDiagram\n"@ + mermaid_participants(seq.participants@.take(i as int)),
        decreases seq.participants@.len() - i,
    {
        push_mermaid_participant(&mut out, &seq.participants[i]);
        assert(seq.participants@.take(i + 1).drop_last() =~= seq.participants@.take(i as int));
        i += 1;
    }
    assert(seq.participants@.take(i as int) =~= seq.participants@);
    let mut k: usize = 0;
    while k < seq.messages.len()
        invariant
            k <= seq.messages@.len(),
            out@ == "sequenceDiagram\n"@ + mermaid_participants(seq.participants@)
                + mermaid_messages(seq.messages@.take(k as int)),
        decreases seq.messages@.len() - k,
    {
        push_mermaid_message(&mut out, &seq.messages[k]);
        assert(seq.messages@.take(k + 1).drop_last() =~= seq.messages@.take(k as int));
        k += 1;
    }
    assert(seq.messages@.take(k as int) =~= seq.messages@);
    out
}

// ---------------------------------------------------------------------------
// Shared: message columns
// ---------------------------------------------------------------------------

/// Columns of a message's endpoints, when both are participants.
pub open spec fn message_cols(seq: Sequence, m: Message) -> Option<(nat, nat)> {
    match (seq.col_of_spec(m.from@), seq.col_of_spec(m.to@)) {
        (Some(a), Some(b)) => Some((a as nat, b as nat)),
        _ => None,
    }
}

// ---------------------------------------------------------------------------
// SVG
// ---------------------------------------------------------------------------

pub open spec fn svg_participant(i: nat, p: Participant, h: nat) -> Seq<char> {
    let cx = col_x(i);
    "  <line x1=\""@ + num1(cx) + "\" y1=\"64.0\" x2=\""@ + num1(cx) + "\" y2=\""@ + num1(
        (h - 24) as nat,
    ) + "\" stroke=\"#9DB3C8\" stroke-dasharray=\"4 4\"/>\n"@ + "  <rect x=\""@ + num1(
        (cx - 60) as nat,
    ) + "\" y=\"24.0\" width=\"120.0\" height=\"40.0\" rx=\"6\" fill=\"#EAF2FB\" stroke=\"#4A7AAA\"/>\n  <text x=\""@
        + num1(cx)
        + "\" y=\"48.0\" font-family=\"Helvetica\" font-size=\"13\" font-weight=\"bold\" text-anchor=\"middle\" fill=\"#1F2A37\">"@
        + xml_escape_spec(p.label@) + "</text>\n"@
}

pub open spec fn dash_attr(k: MessageKind) -> Seq<char> {
    if k.dashed_spec() {
        " stroke-dasharray=\"5 4\""@
    } else {
        Seq::empty()
    }
}

pub open spec fn svg_self_message(x: nat, y: nat, k: MessageKind, label: Seq<char>) -> Seq<char> {
    "  <path d=\"M"@ + num1(x) + ","@ + num1(y) + " h40 v22 h-40\" fill=\"none\" stroke=\"#33415C\""@
        + dash_attr(k) + " marker-end=\"url(#seqarrow)\"/>\n  <text x=\""@ + num1(x + 44) + "\" y=\""@
        + num1((y - 4) as nat)
        + "\" font-family=\"Helvetica\" font-size=\"11\" fill=\"#33415C\">"@
        + xml_escape_spec(label) + "</text>\n"@
}

pub open spec fn svg_line_part(x1: nat, x2: nat, y: nat, k: MessageKind) -> Seq<char> {
    "  <line x1=\""@ + num1(x1) + "\" y1=\""@ + num1(y) + "\" x2=\""@ + num1(x2) + "\" y2=\""@ + num1(y)
        + "\" stroke=\"#33415C\""@ + dash_attr(k) + " marker-end=\"url(#seqarrow)\"/>\n"@
}

pub open spec fn svg_line_label(x1: nat, x2: nat, y: nat, label: Seq<char>) -> Seq<char> {
    "  <text x=\""@ + num1(((x1 + x2) / 2) as nat) + "\" y=\""@ + num1((y - 5) as nat)
        + "\" font-family=\"Helvetica\" font-size=\"11\" fill=\"#33415C\" text-anchor=\"middle\">"@
        + xml_escape_spec(label) + "</text>\n"@
}

pub open spec fn svg_line_message(x1: nat, x2: nat, y: nat, k: MessageKind, label: Seq<char>) -> Seq<
    char,
> {
    svg_line_part(x1, x2, y, k) + svg_line_label(x1, x2, y, label)
}

pub open spec fn svg_message(seq: Sequence, mi: nat, m: Message) -> Seq<char> {
    let y = row_y(mi);
    match message_cols(seq, m) {
        None => Seq::empty(),
        Some((a, b)) => if m.from@ == m.to@ {
            svg_self_message(col_x(a), y, m.kind, m.label@)
        } else {
            svg_line_message(col_x(a), col_x(b), y, m.kind, m.label@)
        },
    }
}

pub open spec fn svg_participants(ps: Seq<Participant>, h: nat) -> Seq<char>
    decreases ps.len(),
{
    if ps.len() == 0 {
        Seq::empty()
    } else {
        svg_participants(ps.drop_last(), h) + svg_participant(
            (ps.len() - 1) as nat,
            ps.last(),
            h,
        )
    }
}

pub open spec fn svg_messages(seq: Sequence, ms: Seq<Message>) -> Seq<char>
    decreases ms.len(),
{
    if ms.len() == 0 {
        Seq::empty()
    } else {
        svg_messages(seq, ms.drop_last()) + svg_message(seq, (ms.len() - 1) as nat, ms.last())
    }
}

pub open spec fn svg_header(w: nat, h: nat) -> Seq<char> {
    "<svg xmlns=\"http://www.w3.org/2000/svg\" width=\""@ + decimal(w) + "\" height=\""@ + decimal(h)
        + "\" viewBox=\"0 0 "@ + decimal(w) + " "@ + decimal(h)
        + "\">\n  <defs><marker id=\"seqarrow\" markerWidth=\"10\" markerHeight=\"10\" refX=\"8\" refY=\"3\" orient=\"auto\" markerUnits=\"strokeWidth\"><path d=\"M0,0 L8,3 L0,6 z\" fill=\"#33415C\"/></marker></defs>\n  <rect width=\"100%\" height=\"100%\" fill=\"#ffffff\"/>\n"@
}

/// The SVG rendering of a sequence.
pub open spec fn svg_spec(seq: Sequence) -> Seq<char> {
    let w = canvas_w(seq.participants@.len());
    let h = canvas_h(seq.messages@.len());
    svg_header(w, h) + svg_participants(seq.participants@, h) + svg_messages(seq, seq.messages@)
        + "</svg>\n"@
}

fn canvas(seq: &Sequence) -> (r: (u128, u128))
    ensures
        r.0 == canvas_w(seq.participants@.len()),
        r.1 == canvas_h(seq.messages@.len()),
        r.0 < 0x1_0000_0000_0000_0000_0000,
        r.1 < 0x1_0000_0000_0000_0000_0000,
{
    let n = seq.participants.len() as u128;
    let w: u128 = if n <= 1 {
        240
    } else {
        168 + 160 * (n - 1)
    };
    let h: u128 = 176 + 44 * (seq.messages.len() as u128);
    (w, h)
}

fn push_svg_participant(out: &mut String, i: usize, p: &Participant, h: u128)
    requires
        h >= 176,
        h == canvas_h((h - 176) as nat / 44) || true,
    ensures
        final(out)@ == old(out)@ + svg_participant(i as nat, *p, h as nat),
{
    let cx: u128 = 84 + 160 * (i as u128);
    push_str(out, "  <line x1=\"");
    push_num1(out, cx);
    push_str(out, "\" y1=\"64.0\" x2=\"");
    push_num1(out, cx);
    push_str(out, "\" y2=\"");
    push_num1(out, h - 24);
    push_str(out, "\" stroke=\"#9DB3C8\" stroke-dasharray=\"4 4\"/>\n");
    push_str(out, "  <rect x=\"");
    push_num1(out, cx - 60);
    push_str(
        out,
        "\" y=\"24.0\" width=\"120.0\" height=\"40.0\" rx=\"6\" fill=\"#EAF2FB\" stroke=\"#4A7AAA\"/>\n  <text x=\"",
    );
    push_num1(out, cx);
    push_str(
        out,
        "\" y=\"48.0\" font-family=\"Helvetica\" font-size=\"13\" font-weight=\"bold\" text-anchor=\"middle\" fill=\"#1F2A37\">",
    );
    let label = chars_of(p.label.as_str());
    push_xml_escaped(out, &label);
    push_str(out, "</text>\n");
    assert(final(out)@ =~= old(out)@ + svg_participant(i as nat, *p, h as nat));
}

fn push_dash_attr(out: &mut String, k: MessageKind)
    ensures
        final(out)@ == old(out)@ + dash_attr(k),
{
    if k.dashed() {
        push_str(out, " stroke-dasharray=\"5 4\"");
    } else {
        assert(old(out)@ + Seq::<char>::empty() =~= old(out)@);
    }
}

fn push_svg_self_message(out: &mut String, x: u128, y: u128, k: MessageKind, label: &Vec<char>)
    requires
        x < 0x1_0000_0000_0000_0000_0000,
        4 <= y,
    ensures
        final(out)@ == old(out)@ + svg_self_message(x as nat, y as nat, k, label@),
{
    push_str(out, "  <path d=\"M");
    push_num1(out, x);
    push_str(out, ",");
    push_num1(out, y);
    push_str(out, " h40 v22 h-40\" fill=\"none\" stroke=\"#33415C\"");
    push_dash_attr(out, k);
    push_str(out, " marker-end=\"url(#seqarrow)\"/>\n  <text x=\"");
    push_num1(out, x + 44);
    push_str(out, "\" y=\"");
    push_num1(out, y - 4);
    push_str(out, "\" font-family=\"Helvetica\" font-size=\"11\" fill=\"#33415C\">");
    push_xml_escaped(out, label);
    push_str(out, "</text>\n");
    assert(final(out)@ =~= old(out)@ + svg_self_message(x as nat, y as nat, k, label@));
}

fn push_svg_line_part(out: &mut String, x1: u128, x2: u128, y: u128, k: MessageKind)
    ensures
        final(out)@ == old(out)@ + svg_line_part(x1 as nat, x2 as nat, y as nat, k),
{
    push_str(out, "  <line x1=\"");
    push_num1(out, x1);
    push_str(out, "\" y1=\"");
    push_num1(out, y);
    push_str(out, "\" x2=\"");
    push_num1(out, x2);
    push_str(out, "\" y2=\"");
    push_num1(out, y);
    push_str(out, "\" stroke=\"#33415C\"");
    push_dash_attr(out, k);
    push_str(out, " marker-end=\"url(#seqarrow)\"/>\n");
    assert(final(out)@ =~= old(out)@ + svg_line_part(x1 as nat, x2 as nat, y as nat, k));
}

fn push_svg_line_label(out: &mut String, x1: u128, x2: u128, y: u128, label: &Vec<char>)
    requires
        x1 < 0x1_0000_0000_0000_0000_0000,
        x2 < 0x1_0000_0000_0000_0000_0000,
        5 <= y,
    ensures
        final(out)@ == old(out)@ + svg_line_label(x1 as nat, x2 as nat, y as nat, label@),
{
    push_str(out, "  <text x=\"");
    push_num1(out, (x1 + x2) / 2);
    push_str(out, "\" y=\"");
    push_num1(out, y - 5);
    push_str(
        out,
        "\" font-family=\"Helvetica\" font-size=\"11\" fill=\"#33415C\" text-anchor=\"middle\">",
    );
    push_xml_escaped(out, label);
    push_str(out, "</text>\n");
    assert(final(out)@ =~= old(out)@ + svg_line_label(x1 as nat, x2 as nat, y as nat, label@));
}

fn push_svg_line_message(
    out: &mut String,
    x1: u128,
    x2: u128,
    y: u128,
    k: MessageKind,
    label: &Vec<char>,
)
    requires
        x1 < 0x1_0000_0000_0000_0000_0000,
        x2 < 0x1_0000_0000_0000_0000_0000,
        5 <= y,
    ensures
        final(out)@ == old(out)@ + svg_line_message(x1 as nat, x2 as nat, y as nat, k, label@),
{
    push_svg_line_part(out, x1, x2, y, k);
    push_svg_line_label(out, x1, x2, y, label);
    assert(final(out)@ =~= old(out)@ + svg_line_message(x1 as nat, x2 as nat, y as nat, k, label@));
}

fn push_svg_message(out: &mut String, seq: &Sequence, mi: usize, m: &Message)
    ensures
        final(out)@ == old(out)@ + svg_message(*seq, mi as nat, *m),
{
    let y: u128 = 132 + 44 * (mi as u128);
    let a = seq.col_of(m.from.as_str());
    let b = seq.col_of(m.to.as_str());
    if a.is_none() || b.is_none() {
        assert(old(out)@ + Seq::<char>::empty() =~= old(out)@);
        return;
    }
    let a = a.unwrap();
    let b = b.unwrap();
    let label = chars_of(m.label.as_str());
    if m.from == m.to {
        push_svg_self_message(out, 84 + 160 * (a as u128), y, m.kind, &label);
    } else {
        push_svg_line_message(out, 84 + 160 * (a as u128), 84 + 160 * (b as u128), y, m.kind, &label);
    }
}

/// SVG rendering of a sequence diagram.
pub fn to_svg(seq: &Sequence) -> (r: String)
    ensures
        r@ == svg_spec(*seq),
{
    let (w, h) = canvas(seq);
    let mut out = String::new();
    push_str(&mut out, "<svg xmlns=\"http://www.w3.org/2000/svg\" width=\"");
    push_decimal_wide(&mut out, w);
    push_str(&mut out, "\" height=\"");
    push_decimal_wide(&mut out, h);
    push_str(&mut out, "\" viewBox=\"0 0 ");
    push_decimal_wide(&mut out, w);
    push_str(&mut out, " ");
    push_decimal_wide(&mut out, h);
    push_str(
        &mut out,
        "\">\n  <defs><marker id=\"seqarrow\" markerWidth=\"10\" markerHeight=\"10\" refX=\"8\" refY=\"3\" orient=\"auto\" markerUnits=\"strokeWidth\"><path d=\"M0,0 L8,3 L0,6 z\" fill=\"#33415C\"/></marker></defs>\n  <rect width=\"100%\" height=\"100%\" fill=\"#ffffff\"/>\n",
    );
    let ghost head = out@;
    assert(head =~= svg_header(w as nat, h as nat));
    let mut i: usize = 0;
    while i < seq.participants.len()
        invariant
            i <= seq.participants@.len(),
            h == canvas_h(seq.messages@.len()),
            h >= 176,
            out@ == head + svg_participants(seq.participants@.take(i as int), h as nat),
        decreases seq.participants@.len() - i,
    {
        push_svg_participant(&mut out, i, &seq.participants[i], h);
        assert(seq.participants@.take(i + 1).drop_last() =~= seq.participants@.take(i as int));
        i += 1;
    }
    assert(seq.participants@.take(i as int) =~= seq.participants@);
    let ghost mid = out@;
    let mut k: usize = 0;
    while k < seq.messages.len()
        invariant
            k <= seq.messages@.len(),
            out@ == mid + svg_messages(*seq, seq.messages@.take(k as int)),
        decreases seq.messages@.len() - k,
    {
        push_svg_message(&mut out, seq, k, &seq.messages[k]);
        assert(seq.messages@.take(k + 1).drop_last() =~= seq.messages@.take(k as int));
        k += 1;
    }
    assert(seq.messages@.take(k as int) =~= seq.messages@);
    push_str(&mut out, "</svg>\n");
    assert(out@ =~= svg_spec(*seq));
    out
}

// ---------------------------------------------------------------------------
// draw.io (mxGraph XML)
// ---------------------------------------------------------------------------

pub open spec fn lifeline_style(actor: bool) -> Seq<char> {
    if actor {
        "shape=umlActor;verticalLabelPosition=bottom;verticalAlign=top;html=1;outlineConnect=0;"@
    } else {
        "shape=umlLifeline;perimeter=lifelinePerimeter;whiteSpace=wrap;html=1;container=0;collapsible=0;recursiveResize=0;outlineConnect=0;fillColor=#EAF2FB;strokeColor=#4A7AAA;"@
    }
}

pub open spec fn drawio_participant(i: nat, p: Participant, h: nat) -> Seq<char> {
    "        <mxCell id=\""@ + ident_spec(p.id@, "p_"@) + "\" value=\""@ + xml_escape_spec(p.label@)
        + "\" style=\""@ + lifeline_style(p.actor)
        + "\" vertex=\"1\" parent=\"1\">\n          <mxGeometry x=\""@ + decimal(
        (col_x(i) - 60) as nat,
    ) + "\" y=\"24\" width=\"120\" height=\""@ + decimal((h - 24) as nat)
        + "\" as=\"geometry\"/>\n        </mxCell>\n"@
}

pub open spec fn message_style(k: MessageKind) -> Seq<char> {
    match k {
        MessageKind::Sync => "endArrow=block;endFill=1;"@,
        MessageKind::Async => "endArrow=open;endFill=0;"@,
        MessageKind::Return => "endArrow=open;endFill=0;dashed=1;"@,
        MessageKind::Create => "endArrow=open;endFill=0;dashed=1;"@,
        MessageKind::Destroy => "endArrow=cross;endFill=0;"@,
    }
}

pub open spec fn drawio_message_cell(
    mi: nat,
    label: Seq<char>,
    k: MessageKind,
    sx: nat,
    sy: nat,
    tx: nat,
    ty: nat,
) -> Seq<char> {
    "        <mxCell id=\"msg"@ + decimal(mi) + "\" value=\""@ + xml_escape_spec(label) + "\" style=\""@
        + "html=1;rounded=0;"@ + message_style(k)
        + "strokeColor=#33415C;fontColor=#33415C;fontSize=11;labelBackgroundColor=#FFFFFF;"@
        + "\" edge=\"1\" parent=\"1\">\n          <mxGeometry relative=\"1\" as=\"geometry\">\n            <mxPoint x=\""@
        + decimal(sx) + "\" y=\""@ + decimal(sy) + "\" as=\"sourcePoint\"/>\n            <mxPoint x=\""@
        + decimal(tx) + "\" y=\""@ + decimal(ty)
        + "\" as=\"targetPoint\"/>\n          </mxGeometry>\n        </mxCell>\n"@
}

pub open spec fn drawio_message(seq: Sequence, mi: nat, m: Message) -> Seq<char> {
    let y = row_y(mi);
    match message_cols(seq, m) {
        None => Seq::empty(),
        Some((a, b)) => {
            let x1 = col_x(a);
            let self_msg = m.from@ == m.to@;
            let tx = if self_msg {
                x1 + 50
            } else {
                col_x(b)
            };
            let ty = if self_msg {
                y + 22
            } else {
                y
            };
            drawio_message_cell(mi, m.label@, m.kind, x1, y, tx, ty)
        },
    }
}

pub open spec fn drawio_participants(ps: Seq<Participant>, h: nat) -> Seq<char>
    decreases ps.len(),
{
    if ps.len() == 0 {
        Seq::empty()
    } else {
        drawio_participants(ps.drop_last(), h) + drawio_participant(
            (ps.len() - 1) as nat,
            ps.last(),
            h,
        )
    }
}

pub open spec fn drawio_messages(seq: Sequence, ms: Seq<Message>) -> Seq<char>
    decreases ms.len(),
{
    if ms.len() == 0 {
        Seq::empty()
    } else {
        drawio_messages(seq, ms.drop_last()) + drawio_message(seq, (ms.len() - 1) as nat, ms.last())
    }
}

pub open spec fn max_nat(a: nat, b: nat) -> nat {
    if a >= b {
        a
    } else {
        b
    }
}

/// The draw.io (mxGraph XML) rendering of a sequence.
pub open spec fn drawio_spec(seq: Sequence) -> Seq<char> {
    let w = canvas_w(seq.participants@.len());
    let h = canvas_h(seq.messages@.len());
    let title = match seq.title {
        Some(t) => t@,
        None => "Sequence"@,
    };
    "<mxfile host=\"app.diagrams.net\" type=\"device\">\n  <diagram id=\"sequence\" name=\""@
        + xml_escape_spec(title) + "\">\n    <mxGraphModel dx=\""@ + decimal(max_nat(w + 40, 400))
        + "\" dy=\""@ + decimal(max_nat(h + 40, 400))
        + "\" grid=\"1\" gridSize=\"10\" guides=\"1\" tooltips=\"1\" connect=\"1\" arrows=\"1\" fold=\"1\" page=\"1\" pageScale=\"1\" math=\"0\" shadow=\"0\">\n      <root>\n        <mxCell id=\"0\"/>\n        <mxCell id=\"1\" parent=\"0\"/>\n"@
        + drawio_participants(seq.participants@, h) + drawio_messages(seq, seq.messages@)
        + "      </root>\n    </mxGraphModel>\n  </diagram>\n</mxfile>\n"@
}

fn push_drawio_participant(out: &mut String, i: usize, p: &Participant, h: u128)
    requires
        h >= 176,
    ensures
        final(out)@ == old(out)@ + drawio_participant(i as nat, *p, h as nat),
{
    let x: u128 = 24 + 160 * (i as u128);
    push_str(out, "        <mxCell id=\"");
    let id = chars_of(p.id.as_str());
    push_ident(out, &id, "p_");
    push_str(out, "\" value=\"");
    let label = chars_of(p.label.as_str());
    push_xml_escaped(out, &label);
    push_str(out, "\" style=\"");
    if p.actor {
        push_str(
            out,
            "shape=umlActor;verticalLabelPosition=bottom;verticalAlign=top;html=1;outlineConnect=0;",
        );
    } else {
        push_str(
            out,
            "shape=umlLifeline;perimeter=lifelinePerimeter;whiteSpace=wrap;html=1;container=0;collapsible=0;recursiveResize=0;outlineConnect=0;fillColor=#EAF2FB;strokeColor=#4A7AAA;",
        );
    }
    push_str(out, "\" vertex=\"1\" parent=\"1\">\n          <mxGeometry x=\"");
    push_decimal_wide(out, x);
    push_str(out, "\" y=\"24\" width=\"120\" height=\"");
    push_decimal_wide(out, h - 24);
    push_str(out, "\" as=\"geometry\"/>\n        </mxCell>\n");
    assert(final(out)@ =~= old(out)@ + drawio_participant(i as nat, *p, h as nat));
}

fn message_style_str(k: MessageKind) -> (r: &'static str)
    ensures
        r@ == message_style(k),
{
    match k {
        MessageKind::Sync => "endArrow=block;endFill=1;",
        MessageKind::Async => "endArrow=open;endFill=0;",
        MessageKind::Return => "endArrow=open;endFill=0;dashed=1;",
        MessageKind::Create => "endArrow=open;endFill=0;dashed=1;",
        MessageKind::Destroy => "endArrow=cross;endFill=0;",
    }
}

fn push_drawio_message_cell(
    out: &mut String,
    mi: usize,
    label: &Vec<char>,
    k: MessageKind,
    sx: u128,
    sy: u128,
    tx: u128,
    ty: u128,
)
    ensures
        final(out)@ == old(out)@ + drawio_message_cell(
            mi as nat,
            label@,
            k,
            sx as nat,
            sy as nat,
            tx as nat,
            ty as nat,
        ),
{
    push_str(out, "        <mxCell id=\"msg");
    push_decimal(out, mi);
    push_str(out, "\" value=\"");
    push_xml_escaped(out, label);
    push_str(out, "\" style=\"");
    push_str(out, "html=1;rounded=0;");
    push_str(out, message_style_str(k));
    push_str(
        out,
        "strokeColor=#33415C;fontColor=#33415C;fontSize=11;labelBackgroundColor=#FFFFFF;",
    );
    push_str(
        out,
        "\" edge=\"1\" parent=\"1\">\n          <mxGeometry relative=\"1\" as=\"geometry\">\n            <mxPoint x=\"",
    );
    push_decimal_wide(out, sx);
    push_str(out, "\" y=\"");
    push_decimal_wide(out, sy);
    push_str(out, "\" as=\"sourcePoint\"/>\n            <mxPoint x=\"");
    push_decimal_wide(out, tx);
    push_str(out, "\" y=\"");
    push_decimal_wide(out, ty);
    push_str(out, "\" as=\"targetPoint\"/>\n          </mxGeometry>\n        </mxCell>\n");
    assert(final(out)@ =~= old(out)@ + drawio_message_cell(
        mi as nat,
        label@,
        k,
        sx as nat,
        sy as nat,
        tx as nat,
        ty as nat,
    ));
}

fn push_drawio_message(out: &mut String, seq: &Sequence, mi: usize, m: &Message)
    ensures
        final(out)@ == old(out)@ + drawio_message(*seq, mi as nat, *m),
{
    let y: u128 = 132 + 44 * (mi as u128);
    let a = seq.col_of(m.from.as_str());
    let b = seq.col_of(m.to.as_str());
    if a.is_none() || b.is_none() {
        assert(old(out)@ + Seq::<char>::empty() =~= old(out)@);
        return;
    }
    let a = a.unwrap();
    let b = b.unwrap();
    let x1: u128 = 84 + 160 * (a as u128);
    let self_msg = m.from == m.to;
    let tx: u128 = if self_msg {
        x1 + 50
    } else {
        84 + 160 * (b as u128)
    };
    let ty: u128 = if self_msg {
        y + 22
    } else {
        y
    };
    let label = chars_of(m.label.as_str());
    push_drawio_message_cell(out, mi, &label, m.kind, x1, y, tx, ty);
}

/// draw.io (mxGraph XML) rendering of a sequence diagram.
pub fn to_drawio(seq: &Sequence) -> (r: String)
    ensures
        r@ == drawio_spec(*seq),
{
    let (w, h) = canvas(seq);
    let mut out = String::new();
    push_str(
        &mut out,
        "<mxfile host=\"app.diagrams.net\" type=\"device\">\n  <diagram id=\"sequence\" name=\"",
    );
    let title = match &seq.title {
        Some(t) => chars_of(t.as_str()),
        None => chars_of("Sequence"),
    };
    push_xml_escaped(&mut out, &title);
    push_str(&mut out, "\">\n    <mxGraphModel dx=\"");
    push_decimal_wide(&mut out, if w + 40 >= 400 { w + 40 } else { 400 });
    push_str(&mut out, "\" dy=\"");
    push_decimal_wide(&mut out, if h + 40 >= 400 { h + 40 } else { 400 });
    push_str(
        &mut out,
        "\" grid=\"1\" gridSize=\"10\" guides=\"1\" tooltips=\"1\" connect=\"1\" arrows=\"1\" fold=\"1\" page=\"1\" pageScale=\"1\" math=\"0\" shadow=\"0\">\n      <root>\n        <mxCell id=\"0\"/>\n        <mxCell id=\"1\" parent=\"0\"/>\n",
    );
    let ghost head = out@;
    let mut i: usize = 0;
    while i < seq.participants.len()
        invariant
            i <= seq.participants@.len(),
            h == canvas_h(seq.messages@.len()),
            h >= 176,
            out@ == head + drawio_participants(seq.participants@.take(i as int), h as nat),
        decreases seq.participants@.len() - i,
    {
        push_drawio_participant(&mut out, i, &seq.participants[i], h);
        assert(seq.participants@.take(i + 1).drop_last() =~= seq.participants@.take(i as int));
        i += 1;
    }
    assert(seq.participants@.take(i as int) =~= seq.participants@);
    let ghost mid = out@;
    let mut k: usize = 0;
    while k < seq.messages.len()
        invariant
            k <= seq.messages@.len(),
            out@ == mid + drawio_messages(*seq, seq.messages@.take(k as int)),
        decreases seq.messages@.len() - k,
    {
        push_drawio_message(&mut out, seq, k, &seq.messages[k]);
        assert(seq.messages@.take(k + 1).drop_last() =~= seq.messages@.take(k as int));
        k += 1;
    }
    assert(seq.messages@.take(k as int) =~= seq.messages@);
    push_str(&mut out, "      </root>\n    </mxGraphModel>\n  </diagram>\n</mxfile>\n");
    assert(out@ =~= drawio_spec(*seq));
    out
}

} // verus!
