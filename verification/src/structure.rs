//! The shape of the gradient document.
//!
//! The document that [`generate`](crate::gradient::generate) writes is
//! stated as a text. Here the same document is stated as a tree of elements,
//! and the text is shown to be that tree written out.

use crate::color::quote_free;
use crate::gradient::{document, head, stop_text, stops, tail, turn};
use crate::kind::GradientType;
use crate::markup::{
    attribute_text,
    element_text,
    elements_text,
    end_tag,
    lemma_one_attribute,
    lemma_one_element,
    lemma_three_attributes,
    lemma_two_attributes,
    lemma_two_elements,
    start_tag,
    well_quoted,
    well_quoted_attributes,
    Attribute,
    Element,
};
use crate::offset::{
    decimal_char,
    decimal_value,
    lemma_offset_chars,
    lemma_offset_ends,
    lemma_offsets_increase,
    offset_text,
    unit,
};
use crate::reading::{
    attribute_values,
    children_values,
    lemma_read_element,
    lemma_read_value,
    lemma_skip_plain,
    lemma_values_of_one,
    lemma_values_of_two,
    quoted_values,
    values_of,
};
use vstd::prelude::*;

verus! {

/// The XML declaration that a document starts with.
pub open spec fn declaration() -> Seq<char> {
    "<?xml version=\"1.0\" encoding=\"utf-8\"?>"@
}

/// One gradient stop as an element.
pub open spec fn stop_element(offset: Seq<char>, color: Seq<char>) -> Element {
    Element::Empty {
        name: "stop"@,
        attributes: seq![
            Attribute { name: "offset"@, value: offset },
            Attribute { name: "stop-color"@, value: color },
        ],
    }
}

/// The stops for `colors` as elements, one for each color and in the same
/// order.
pub open spec fn stop_elements(colors: Seq<Seq<char>>) -> Seq<Element> {
    Seq::new(
        colors.len(),
        |i: int| stop_element(offset_text(i as nat, colors.len()), colors[i]),
    )
}

/// The name of the gradient element.
pub open spec fn gradient_name(kind: GradientType) -> Seq<char> {
    kind.name() + "Gradient"@
}

/// The attribute that names the namespace of the root element.
pub open spec fn namespace() -> Attribute {
    Attribute { name: "xmlns"@, value: "http://www.w3.org/2000/svg"@ }
}

/// The attributes of the gradient element: its identifier and, for a linear
/// gradient only, the quarter turn.
pub open spec fn gradient_attributes(kind: GradientType) -> Seq<Attribute> {
    match kind {
        GradientType::Linear => seq![
            Attribute { name: "id"@, value: "g"@ },
            Attribute { name: "gradientTransform"@, value: "rotate(90)"@ },
        ],
        GradientType::Radial => seq![Attribute { name: "id"@, value: "g"@ }],
    }
}

/// The gradient element: `linearGradient` or `radialGradient`, with the
/// stops as its children.
pub open spec fn gradient_element(kind: GradientType, colors: Seq<Seq<char>>) -> Element {
    Element::Parent {
        name: gradient_name(kind),
        attributes: gradient_attributes(kind),
        children: stop_elements(colors),
    }
}

/// The rectangle that covers the viewport and is filled with the gradient.
pub open spec fn rect_element() -> Element {
    Element::Empty {
        name: "rect"@,
        attributes: seq![
            Attribute { name: "width"@, value: "100%"@ },
            Attribute { name: "height"@, value: "100%"@ },
            Attribute { name: "fill"@, value: "url(#g)"@ },
        ],
    }
}

/// The `defs` element that holds the gradient.
pub open spec fn defs_element(kind: GradientType, colors: Seq<Seq<char>>) -> Element {
    Element::Parent {
        name: "defs"@,
        attributes: Seq::empty(),
        children: seq![gradient_element(kind, colors)],
    }
}

/// The root of the document: an `svg` element that holds the gradient,
/// inside `defs`, and the rectangle that shows it.
pub open spec fn root_element(kind: GradientType, colors: Seq<Seq<char>>) -> Element {
    Element::Parent {
        name: "svg"@,
        attributes: seq![namespace()],
        children: seq![defs_element(kind, colors), rect_element()],
    }
}

/// A stop is written as the empty element `stop` with its two attributes.
pub proof fn lemma_stop_is_markup(offset: Seq<char>, color: Seq<char>)
    ensures
        stop_text(offset, color) == element_text(stop_element(offset, color)),
{
    let first = Attribute { name: "offset"@, value: offset };
    let second = Attribute { name: "stop-color"@, value: color };
    lemma_two_attributes(first, second);
    reveal_strlit("<stop offset=\"");
    reveal_strlit("\" stop-color=\"");
    reveal_strlit("\"/>");
    reveal_strlit("<");
    reveal_strlit("stop");
    reveal_strlit(" ");
    reveal_strlit("offset");
    reveal_strlit("=\"");
    reveal_strlit("\"");
    reveal_strlit("stop-color");
    reveal_strlit("/>");
    assert(stop_text(offset, color) =~= element_text(stop_element(offset, color)));
}

/// The stops, written one after the other, are the text of the stop
/// elements.
pub proof fn lemma_stops_are_markup(colors: Seq<Seq<char>>)
    ensures
        stops(colors).flatten() == elements_text(stop_elements(colors)),
{
    lemma_stops_prefix(colors, colors.len());
    assert(stops(colors).take(colors.len() as int) =~= stops(colors));
    assert(stop_elements(colors).take(colors.len() as int) =~= stop_elements(colors));
}

proof fn lemma_stops_prefix(colors: Seq<Seq<char>>, upto: nat)
    requires
        upto <= colors.len(),
    ensures
        stops(colors).take(upto as int).flatten() == elements_text(
            stop_elements(colors).take(upto as int),
        ),
    decreases upto,
{
    let texts = stops(colors).take(upto as int);
    let elements = stop_elements(colors).take(upto as int);
    if upto == 0 {
        assert(texts.flatten() =~= Seq::<char>::empty());
        assert(elements_text(elements) =~= Seq::<char>::empty());
    } else {
        let below = (upto - 1) as nat;
        lemma_stops_prefix(colors, below);
        lemma_stop_is_markup(offset_text(below, colors.len()), colors[below as int]);
        assert(texts =~= stops(colors).take(below as int).push(stops(colors)[below as int]));
        stops(colors).take(below as int).lemma_flatten_push(stops(colors)[below as int]);
        assert(elements.drop_last() =~= stop_elements(colors).take(below as int));
        assert(elements.last() == stop_elements(colors)[below as int]);
    }
}

/// The start tag of the gradient element, as the document has it.
proof fn lemma_gradient_start(kind: GradientType)
    ensures
        "<"@ + kind.name() + "Gradient id=\"g\""@ + turn(kind) + ">"@ == start_tag(
            gradient_name(kind),
            gradient_attributes(kind),
        ),
{
    let id = Attribute { name: "id"@, value: "g"@ };
    let quarter = Attribute { name: "gradientTransform"@, value: "rotate(90)"@ };
    lemma_one_attribute(id);
    lemma_two_attributes(id, quarter);
    reveal_strlit("Gradient id=\"g\"");
    reveal_strlit(" gradientTransform=\"rotate(90)\"");
    reveal_strlit("Gradient");
    reveal_strlit(" ");
    reveal_strlit("id");
    reveal_strlit("=\"");
    reveal_strlit("g");
    reveal_strlit("\"");
    reveal_strlit("gradientTransform");
    reveal_strlit("rotate(90)");
    assert("Gradient id=\"g\""@ =~= "Gradient"@ + attribute_text(id));
    assert(" gradientTransform=\"rotate(90)\""@ =~= attribute_text(quarter));
    assert("<"@ + kind.name() + "Gradient id=\"g\""@ + turn(kind) + ">"@ =~= start_tag(
        gradient_name(kind),
        gradient_attributes(kind),
    ));
}

/// The end tag of the gradient element, as the document has it.
proof fn lemma_gradient_end(kind: GradientType)
    ensures
        "</"@ + kind.name() + "Gradient>"@ == end_tag(gradient_name(kind)),
{
    reveal_strlit("Gradient>");
    reveal_strlit("Gradient");
    reveal_strlit(">");
    assert("</"@ + kind.name() + "Gradient>"@ =~= end_tag(gradient_name(kind)));
}

/// The rectangle as the document has it.
proof fn lemma_rect_is_markup()
    ensures
        element_text(rect_element()) == "<rect width=\"100%\" height=\"100%\" fill=\"url(#g)\"/>"@,
{
    let width = Attribute { name: "width"@, value: "100%"@ };
    let height = Attribute { name: "height"@, value: "100%"@ };
    let fill = Attribute { name: "fill"@, value: "url(#g)"@ };
    lemma_three_attributes(width, height, fill);
    reveal_strlit("<rect width=\"100%\" height=\"100%\" fill=\"url(#g)\"/>");
    reveal_strlit("<");
    reveal_strlit("rect");
    reveal_strlit(" ");
    reveal_strlit("width");
    reveal_strlit("height");
    reveal_strlit("fill");
    reveal_strlit("=\"");
    reveal_strlit("100%");
    reveal_strlit("url(#g)");
    reveal_strlit("\"");
    reveal_strlit("/>");
    assert(element_text(rect_element())
        =~= "<rect width=\"100%\" height=\"100%\" fill=\"url(#g)\"/>"@);
}



/// The opening of the document, tag by tag.
proof fn lemma_opening()
    ensures
        "<?xml version=\"1.0\" encoding=\"utf-8\"?><svg xmlns=\"http://www.w3.org/2000/svg\"><defs><"@
            == declaration() + start_tag("svg"@, seq![namespace()]) + start_tag(
            "defs"@,
            Seq::empty(),
        ) + "<"@,
{
    lemma_one_attribute(namespace());
    reveal_strlit(
        "<?xml version=\"1.0\" encoding=\"utf-8\"?><svg xmlns=\"http://www.w3.org/2000/svg\"><defs><",
    );
    reveal_strlit("<?xml version=\"1.0\" encoding=\"utf-8\"?>");
    reveal_strlit("<");
    reveal_strlit("svg");
    reveal_strlit(" ");
    reveal_strlit("xmlns");
    reveal_strlit("=\"");
    reveal_strlit("http://www.w3.org/2000/svg");
    reveal_strlit("\"");
    reveal_strlit(">");
    reveal_strlit("defs");
    assert("<?xml version=\"1.0\" encoding=\"utf-8\"?><svg xmlns=\"http://www.w3.org/2000/svg\"><defs><"@
        =~= declaration() + start_tag("svg"@, seq![namespace()]) + start_tag(
        "defs"@,
        Seq::empty(),
    ) + "<"@);
}

/// The closing of the document, tag by tag.
proof fn lemma_closing()
    ensures
        "Gradient></defs><rect width=\"100%\" height=\"100%\" fill=\"url(#g)\"/></svg>"@
            == "Gradient>"@ + end_tag("defs"@) + element_text(rect_element()) + end_tag("svg"@),
{
    lemma_rect_is_markup();
    reveal_strlit("Gradient></defs><rect width=\"100%\" height=\"100%\" fill=\"url(#g)\"/></svg>");
    reveal_strlit("<rect width=\"100%\" height=\"100%\" fill=\"url(#g)\"/>");
    reveal_strlit("Gradient>");
    reveal_strlit("</");
    reveal_strlit("defs");
    reveal_strlit("svg");
    reveal_strlit(">");
    assert("Gradient></defs><rect width=\"100%\" height=\"100%\" fill=\"url(#g)\"/></svg>"@
        =~= "Gradient>"@ + end_tag("defs"@) + element_text(rect_element()) + end_tag("svg"@));
}

/// Texts in a row, grouped as the head of the document has them and tag by
/// tag.
proof fn lemma_regroup_head(
    d: Seq<char>,
    s: Seq<char>,
    f: Seq<char>,
    lt: Seq<char>,
    n: Seq<char>,
    i: Seq<char>,
    t: Seq<char>,
    gt: Seq<char>,
)
    ensures
        (d + s + f + lt) + n + i + t + gt == d + s + f + (lt + n + i + t + gt),
{
    assert((d + s + f + lt) + n + i + t + gt =~= d + s + f + (lt + n + i + t + gt));
}

/// Texts in a row, grouped as the tail of the document has them and tag by
/// tag.
proof fn lemma_regroup_tail(
    lt: Seq<char>,
    n: Seq<char>,
    g: Seq<char>,
    e: Seq<char>,
    r: Seq<char>,
    z: Seq<char>,
)
    ensures
        lt + n + (g + e + r + z) == (lt + n + g) + e + r + z,
{
    assert(lt + n + (g + e + r + z) =~= (lt + n + g) + e + r + z);
}

/// Texts in a row, grouped as the document has them and as the tree has
/// them.
proof fn lemma_regroup(
    d: Seq<char>,
    s: Seq<char>,
    f: Seq<char>,
    g: Seq<char>,
    b: Seq<char>,
    h: Seq<char>,
    e: Seq<char>,
    r: Seq<char>,
    z: Seq<char>,
)
    ensures
        (d + s + f + g) + b + (h + e + r + z) == d + (s + ((f + (g + b + h) + e) + r) + z),
{
    assert((d + s + f + g) + b + (h + e + r + z) =~= d + (s + ((f + (g + b + h) + e) + r) + z));
}

/// The head of the document, tag by tag.
proof fn lemma_head(kind: GradientType)
    ensures
        head(kind) == declaration() + start_tag("svg"@, seq![namespace()]) + start_tag(
            "defs"@,
            Seq::empty(),
        ) + start_tag(gradient_name(kind), gradient_attributes(kind)),
{
    lemma_opening();
    lemma_gradient_start(kind);
    lemma_regroup_head(
        declaration(),
        start_tag("svg"@, seq![namespace()]),
        start_tag("defs"@, Seq::empty()),
        "<"@,
        kind.name(),
        "Gradient id=\"g\""@,
        turn(kind),
        ">"@,
    );
}

/// The tail of the document, tag by tag.
proof fn lemma_tail(kind: GradientType)
    ensures
        tail(kind) == end_tag(gradient_name(kind)) + end_tag("defs"@) + element_text(
            rect_element(),
        ) + end_tag("svg"@),
{
    lemma_closing();
    lemma_gradient_end(kind);
    lemma_regroup_tail(
        "</"@,
        kind.name(),
        "Gradient>"@,
        end_tag("defs"@),
        element_text(rect_element()),
        end_tag("svg"@),
    );
}

/// The text of the root element, tag by tag.
proof fn lemma_root(kind: GradientType, colors: Seq<Seq<char>>)
    ensures
        element_text(root_element(kind, colors)) == start_tag("svg"@, seq![namespace()]) + ((
        start_tag("defs"@, Seq::empty()) + (start_tag(
            gradient_name(kind),
            gradient_attributes(kind),
        ) + stops(colors).flatten() + end_tag(gradient_name(kind))) + end_tag("defs"@))
            + element_text(rect_element())) + end_tag("svg"@),
{
    let gradient = gradient_element(kind, colors);
    let defs = defs_element(kind, colors);
    lemma_stops_are_markup(colors);
    lemma_one_element(gradient);
    lemma_two_elements(defs, rect_element());
    assert(element_text(gradient) == start_tag(gradient_name(kind), gradient_attributes(kind))
        + stops(colors).flatten() + end_tag(gradient_name(kind)));
    assert(element_text(defs) == start_tag("defs"@, Seq::empty()) + element_text(gradient)
        + end_tag("defs"@));
}

/// A document is markup: the XML declaration, and after it the text of one
/// tree of elements, whose root is `svg`. So every element that the document
/// opens is closed again, inside the element that holds it, and every
/// attribute value stands between two double quotes.
pub proof fn lemma_document_is_markup(kind: GradientType, colors: Seq<Seq<char>>)
    ensures
        document(kind, colors) == declaration() + element_text(root_element(kind, colors)),
{
    lemma_head(kind);
    lemma_tail(kind);
    lemma_root(kind, colors);
    lemma_regroup(
        declaration(),
        start_tag("svg"@, seq![namespace()]),
        start_tag("defs"@, Seq::empty()),
        start_tag(gradient_name(kind), gradient_attributes(kind)),
        stops(colors).flatten(),
        end_tag(gradient_name(kind)),
        end_tag("defs"@),
        element_text(rect_element()),
        end_tag("svg"@),
    );
}

/// The only double quotes of a document are those around its attribute
/// values, as long as no color holds one: a color cannot end the attribute
/// that it stands in.
pub proof fn lemma_document_is_well_quoted(kind: GradientType, colors: Seq<Seq<char>>)
    requires
        forall|i: int| 0 <= i < colors.len() ==> quote_free(#[trigger] colors[i]),
    ensures
        well_quoted(root_element(kind, colors)),
{
    reveal_strlit("svg");
    reveal_strlit("xmlns");
    reveal_strlit("http://www.w3.org/2000/svg");
    reveal_strlit("defs");
    reveal_strlit("linear");
    reveal_strlit("radial");
    reveal_strlit("Gradient");
    reveal_strlit("id");
    reveal_strlit("g");
    reveal_strlit("gradientTransform");
    reveal_strlit("rotate(90)");
    reveal_strlit("stop");
    reveal_strlit("offset");
    reveal_strlit("stop-color");
    reveal_strlit("rect");
    reveal_strlit("width");
    reveal_strlit("height");
    reveal_strlit("fill");
    reveal_strlit("100%");
    reveal_strlit("url(#g)");
    let gradient = gradient_element(kind, colors);
    let defs = defs_element(kind, colors);
    let count = colors.len();
    assert forall|i: int| 0 <= i < count implies well_quoted(
        #[trigger] stop_elements(colors)[i],
    ) by {
        lemma_offset_chars(i as nat, count);
        let offset = offset_text(i as nat, count);
        assert(quote_free(offset)) by {
            assert forall|j: int| 0 <= j < offset.len() implies offset[j] != '"' by {
                assert(decimal_char(offset[j]));
            }
        }
        assert(quote_free(colors[i]));
    }
    assert(quote_free(gradient_name(kind)));
    assert(well_quoted_attributes(gradient_attributes(kind)));
    assert(well_quoted(gradient));
    assert(well_quoted(defs));
    assert(well_quoted(rect_element()));
    assert(well_quoted(root_element(kind, colors)));
}

/// The attribute values of the stops for `colors`, in the order in which
/// they are written: for each color its offset, and then the color itself.
pub open spec fn stop_values(colors: Seq<Seq<char>>) -> Seq<Seq<char>> {
    Seq::new(
        2 * colors.len(),
        |j: int|
            if j % 2 == 0 {
                offset_text((j / 2) as nat, colors.len())
            } else {
                colors[j / 2]
            },
    )
}

/// The attribute values of a document, in the order in which they are
/// written: those of the XML declaration, the namespace, those of the
/// gradient element, those of the stops, and those of the rectangle.
pub open spec fn document_values(kind: GradientType, colors: Seq<Seq<char>>) -> Seq<Seq<char>> {
    seq!["1.0"@, "utf-8"@, "http://www.w3.org/2000/svg"@] + values_of(gradient_attributes(kind))
        + stop_values(colors) + seq!["100%"@, "100%"@, "url(#g)"@]
}

/// The attribute values of the first `upto` stop elements.
proof fn lemma_stop_values_prefix(colors: Seq<Seq<char>>, upto: nat)
    requires
        upto <= colors.len(),
    ensures
        children_values(stop_elements(colors).take(upto as int)) == stop_values(colors).take(
            2 * upto as int,
        ),
    decreases upto,
{
    let elements = stop_elements(colors).take(upto as int);
    if upto == 0 {
        assert(stop_values(colors).take(0) =~= Seq::<Seq<char>>::empty());
    } else {
        let below = (upto - 1) as nat;
        lemma_stop_values_prefix(colors, below);
        assert(elements.drop_last() =~= stop_elements(colors).take(below as int));
        let last = elements.last();
        assert(last == stop_element(offset_text(below, colors.len()), colors[below as int]));
        assert(attribute_values(last) =~= seq![
            offset_text(below, colors.len()),
            colors[below as int],
        ]);
        assert(stop_values(colors).take(2 * upto as int) =~= stop_values(colors).take(2 * below as int)
            + attribute_values(last));
    }
}

/// The attribute values of the root element, in the order in which they
/// are written.
proof fn lemma_root_values(kind: GradientType, colors: Seq<Seq<char>>)
    ensures
        attribute_values(root_element(kind, colors)) == seq!["http://www.w3.org/2000/svg"@]
            + values_of(gradient_attributes(kind)) + stop_values(colors) + seq![
            "100%"@,
            "100%"@,
            "url(#g)"@,
        ],
{
    let gradient = gradient_element(kind, colors);
    let defs = defs_element(kind, colors);
    let rect = rect_element();
    let none = Seq::<Attribute>::empty();
    lemma_stop_values_prefix(colors, colors.len());
    assert(stop_elements(colors).take(colors.len() as int) =~= stop_elements(colors));
    assert(stop_values(colors).take(2 * colors.len() as int) =~= stop_values(colors));
    assert(attribute_values(gradient) == values_of(gradient_attributes(kind)) + stop_values(
        colors,
    ));
    lemma_values_of_one(gradient);
    lemma_values_of_two(defs, rect);
    assert(attribute_values(defs) =~= attribute_values(gradient)) by {
        assert(values_of(none) =~= Seq::<Seq<char>>::empty());
    }
    assert(attribute_values(rect) =~= seq!["100%"@, "100%"@, "url(#g)"@]);
    assert(values_of(seq![namespace()]) =~= seq!["http://www.w3.org/2000/svg"@]);
    assert(attribute_values(root_element(kind, colors)) =~= seq!["http://www.w3.org/2000/svg"@]
        + values_of(gradient_attributes(kind)) + stop_values(colors) + seq![
        "100%"@,
        "100%"@,
        "url(#g)"@,
    ]);
}

/// The two values of the XML declaration are read back from it.
proof fn lemma_read_declaration(rest: Seq<char>)
    ensures
        quoted_values(declaration() + rest) == seq!["1.0"@, "utf-8"@] + quoted_values(rest),
{
    reveal_strlit("<?xml version=\"1.0\" encoding=\"utf-8\"?>");
    reveal_strlit("<?xml version=");
    reveal_strlit("1.0");
    reveal_strlit(" encoding=");
    reveal_strlit("utf-8");
    reveal_strlit("?>");
    let quote = seq!['"'];
    let end = "?>"@ + rest;
    let second = quote + "utf-8"@ + quote + end;
    let middle = " encoding="@ + second;
    let first = quote + "1.0"@ + quote + middle;
    assert(declaration() + rest =~= "<?xml version="@ + first);
    lemma_skip_plain("<?xml version="@, first);
    lemma_read_value("1.0"@, middle);
    lemma_skip_plain(" encoding="@, second);
    lemma_read_value("utf-8"@, end);
    lemma_skip_plain("?>"@, rest);
    assert(seq!["1.0"@] + (seq!["utf-8"@] + quoted_values(rest)) =~= seq!["1.0"@, "utf-8"@]
        + quoted_values(rest));
}

/// Every color is read back from the document as it was given. Going from
/// one double quote to the next, a reader of the document finds the
/// attribute values of the document, each in its place, and among them each
/// color after its offset: no color ends its attribute early, adds an
/// attribute, or changes what another attribute holds.
pub proof fn lemma_colors_are_read_back(kind: GradientType, colors: Seq<Seq<char>>)
    requires
        forall|i: int| 0 <= i < colors.len() ==> quote_free(#[trigger] colors[i]),
    ensures
        quoted_values(document(kind, colors)) == document_values(kind, colors),
        forall|i: int|
            0 <= i < colors.len() ==> #[trigger] stop_values(colors)[2 * i + 1] == colors[i],
        forall|i: int|
            0 <= i < colors.len() ==> #[trigger] stop_values(colors)[2 * i] == offset_text(
                i as nat,
                colors.len(),
            ),
{
    let root = root_element(kind, colors);
    let none = Seq::<char>::empty();
    lemma_document_is_markup(kind, colors);
    lemma_document_is_well_quoted(kind, colors);
    lemma_root_values(kind, colors);
    assert(document(kind, colors) =~= declaration() + (element_text(root) + none));
    lemma_read_declaration(element_text(root) + none);
    lemma_read_element(root, none);
    assert(quoted_values(none) =~= Seq::<Seq<char>>::empty());
    assert(seq!["1.0"@, "utf-8"@] + (attribute_values(root) + Seq::<Seq<char>>::empty())
        =~= document_values(kind, colors));
}

/// A gradient of two colors or more has one stop for each color, in the
/// order of the colors. The first stop lies at offset 0, the last at offset
/// 1, and every stop lies further along than the one before it.
pub proof fn lemma_stops_are_spread(kind: GradientType, colors: Seq<Seq<char>>)
    requires
        2 <= colors.len() <= usize::MAX,
    ensures
        gradient_element(kind, colors)->Parent_children == stop_elements(colors),
        stop_elements(colors).len() == colors.len(),
        stops(colors).len() == colors.len(),
        forall|i: int|
            0 <= i < colors.len() ==> #[trigger] stop_elements(colors)[i] == stop_element(
                offset_text(i as nat, colors.len()),
                colors[i],
            ),
        forall|i: int|
            0 <= i < colors.len() ==> #[trigger] stops(colors)[i] == stop_text(
                offset_text(i as nat, colors.len()),
                colors[i],
            ),
        decimal_value(offset_text(0, colors.len())) == 0,
        decimal_value(offset_text((colors.len() - 1) as nat, colors.len())) == unit(),
        forall|i: int, j: int|
            0 <= i < j < colors.len() ==> decimal_value(
                #[trigger] offset_text(i as nat, colors.len()),
            ) < decimal_value(#[trigger] offset_text(j as nat, colors.len())),
{
    let count = colors.len();
    lemma_offset_ends(count);
    assert forall|i: int, j: int| 0 <= i < j < count implies decimal_value(
        #[trigger] offset_text(i as nat, count),
    ) < decimal_value(#[trigger] offset_text(j as nat, count)) by {
        lemma_offsets_increase(i as nat, j as nat, count);
    }
}

/// A linear gradient is turned by a quarter, a radial gradient is not: the
/// gradient element of the one has the attribute `gradientTransform` with
/// the value `rotate(90)`, where that of the other has no attribute of that
/// name.
pub proof fn lemma_quarter_turn(kind: GradientType, colors: Seq<Seq<char>>)
    ensures
        gradient_element(kind, colors)->Parent_attributes == gradient_attributes(kind),
        kind == GradientType::Linear ==> gradient_attributes(kind).contains(
            Attribute { name: "gradientTransform"@, value: "rotate(90)"@ },
        ),
        kind == GradientType::Radial ==> forall|i: int|
            0 <= i < gradient_attributes(kind).len() ==> (#[trigger] gradient_attributes(
                kind,
            )[i]).name != "gradientTransform"@,
{
    reveal_strlit("id");
    reveal_strlit("gradientTransform");
    assert("id"@.len() != "gradientTransform"@.len());
    if kind == GradientType::Linear {
        assert(gradient_attributes(kind)[1] == Attribute {
            name: "gradientTransform"@,
            value: "rotate(90)"@,
        });
    }
}

} // verus!
