//! The gradient document.

use crate::color::{quote_free, CSSColor};
use crate::kind::GradientType;
use crate::offset::{decimal_value, lemma_offset_ends, offset_text, stop_offset};
use crate::reading::quoted_values;
use crate::structure::{document_values, lemma_colors_are_read_back};
use vstd::prelude::*;
use vstd::string::StringExecFns;

verus! {

/// One gradient stop as markup: an empty `stop` element that carries the
/// offset and the color, each in a double-quoted attribute.
pub open spec fn stop_text(offset: Seq<char>, color: Seq<char>) -> Seq<char> {
    "<stop offset=\""@ + offset + "\" stop-color=\""@ + color + "\"/>"@
}

/// The stops for `colors`, one for each color and in the same order, spread
/// evenly from offset 0 to offset 1.
pub open spec fn stops(colors: Seq<Seq<char>>) -> Seq<Seq<char>> {
    Seq::new(colors.len(), |i: int| stop_text(offset_text(i as nat, colors.len()), colors[i]))
}

/// The attribute that turns a linear gradient by a quarter so that it runs
/// from top to bottom. A radial gradient has none.
pub open spec fn turn(kind: GradientType) -> Seq<char> {
    match kind {
        GradientType::Linear => " gradientTransform=\"rotate(90)\""@,
        GradientType::Radial => Seq::empty(),
    }
}

/// The document up to the first stop: the XML declaration, the opening of
/// the root element and of `defs`, and the start tag of the gradient.
pub open spec fn head(kind: GradientType) -> Seq<char> {
    "<?xml version=\"1.0\" encoding=\"utf-8\"?><svg xmlns=\"http://www.w3.org/2000/svg\"><defs><"@
        + kind.name() + "Gradient id=\"g\""@ + turn(kind) + ">"@
}

/// The document after the last stop: the end tag of the gradient and of
/// `defs`, the rectangle that the gradient fills, and the end of the root.
pub open spec fn tail(kind: GradientType) -> Seq<char> {
    "</"@ + kind.name()
        + "Gradient></defs><rect width=\"100%\" height=\"100%\" fill=\"url(#g)\"/></svg>"@
}

/// The whole document for a gradient of `kind` over `colors`.
pub open spec fn document(kind: GradientType, colors: Seq<Seq<char>>) -> Seq<char> {
    head(kind) + stops(colors).flatten() + tail(kind)
}

/// Appends the stop at `index` among `count` stops to `out`.
fn write_stop(out: &mut String, index: usize, count: usize, color: &CSSColor)
    requires
        index < count,
    ensures
        final(out)@ == old(out)@ + stop_text(offset_text(index as nat, count as nat), color@),
        quote_free(color@),
{
    let offset = stop_offset(index, count);
    out.append("<stop offset=\"");
    out.append(offset.as_str());
    out.append("\" stop-color=\"");
    out.append(color.as_str());
    out.append("\"/>");
    assert(out@ =~= old(out)@ + stop_text(offset_text(index as nat, count as nat), color@));
}

/// Writes the SVG document that fills the viewport with a gradient of kind
/// `t` over `colors`, in the order given.
///
/// The first color lies at offset 0 and, where there are two or more, the
/// last at offset 1, the others evenly between them. A linear gradient is
/// turned by a quarter so that it runs from top to bottom. An empty list
/// gives a gradient without stops.
///
/// Whatever the colors hold, each stays inside its own attribute: read from
/// one double quote to the next, the document yields the values that were
/// written into it and nothing else.
pub fn generate(t: &GradientType, colors: Vec<CSSColor>) -> (doc: String)
    ensures
        doc@ == document(*t, colors.deep_view()),
        quoted_values(doc@) == document_values(*t, colors.deep_view()),
{
    let count = colors.len();
    let ghost texts = colors.deep_view();
    let mut body = String::new();
    assert(stops(texts).take(0) =~= Seq::<Seq<char>>::empty());
    for index in 0..count
        invariant
            count == colors.len(),
            texts == colors.deep_view(),
            body@ == stops(texts).take(index as int).flatten(),
            forall|i: int| 0 <= i < index ==> quote_free(#[trigger] texts[i]),
    {
        write_stop(&mut body, index, count, &colors[index]);
        proof {
            let all = stops(texts);
            assert(all.take(index + 1) =~= all.take(index as int).push(all[index as int]));
            all.take(index as int).lemma_flatten_push(all[index as int]);
        }
    }
    assert(stops(texts).take(count as int) =~= stops(texts));
    let mut out = String::new();
    out.append(
        "<?xml version=\"1.0\" encoding=\"utf-8\"?><svg xmlns=\"http://www.w3.org/2000/svg\"><defs><",
    );
    out.append(t.as_str());
    out.append("Gradient id=\"g\"");
    if *t == GradientType::Linear {
        out.append(" gradientTransform=\"rotate(90)\"");
    }
    out.append(">");
    assert(out@ =~= head(*t));
    out.append(body.as_str());
    out.append("</");
    out.append(t.as_str());
    out.append("Gradient></defs><rect width=\"100%\" height=\"100%\" fill=\"url(#g)\"/></svg>");
    proof {
        assert(out@ =~= document(*t, texts));
        lemma_colors_are_read_back(*t, texts);
    }
    out
}

/// A gradient of a single color has a single stop, at offset 0.
pub proof fn lemma_single_stop(kind: GradientType, color: Seq<char>)
    ensures
        stops(seq![color]) == seq![stop_text(seq!['0'], color)],
        decimal_value(offset_text(0, 1)) == 0,
        document(kind, seq![color]) == head(kind) + stop_text(seq!['0'], color) + tail(kind),
{
    lemma_offset_ends(1);
    assert(stops(seq![color]) =~= seq![stop_text(seq!['0'], color)]);
    seq![stop_text(seq!['0'], color)].lemma_flatten_one_element();
}

/// The document depends on nothing but the kind and the colors: equal
/// arguments give the same text, character for character.
pub proof fn lemma_document_is_determined(
    kind: GradientType,
    colors: Seq<Seq<char>>,
    other_kind: GradientType,
    other_colors: Seq<Seq<char>>,
)
    requires
        kind == other_kind,
        colors.len() == other_colors.len(),
        forall|i: int| 0 <= i < colors.len() ==> colors[i] == other_colors[i],
    ensures
        document(kind, colors) == document(other_kind, other_colors),
{
    assert(colors =~= other_colors);
}

} // verus!
