//! Elements and how they are written.
//!
//! This is the vocabulary in which the shape of a document is stated: a tree
//! of elements with attributes, and the text that such a tree is written as.
//! A text that is the writing of a tree has every element that it opens
//! closed again, in the right order, and every attribute value between two
//! double quotes.

use crate::color::quote_free;
use vstd::prelude::*;

verus! {

/// A name with a value.
pub struct Attribute {
    pub name: Seq<char>,
    pub value: Seq<char>,
}

/// An element: either one written as a single empty-element tag, or one
/// written as a start tag, its children in order, and an end tag.
pub enum Element {
    Empty { name: Seq<char>, attributes: Seq<Attribute> },
    Parent { name: Seq<char>, attributes: Seq<Attribute>, children: Seq<Element> },
}

/// An attribute as it stands in a tag: a space, the name, and the value
/// between double quotes.
pub open spec fn attribute_text(attribute: Attribute) -> Seq<char> {
    " "@ + attribute.name + "=\""@ + attribute.value + "\""@
}

/// The attributes of one tag, in order.
pub open spec fn attributes_text(attributes: Seq<Attribute>) -> Seq<char>
    decreases attributes.len(),
{
    if attributes.len() == 0 {
        Seq::empty()
    } else {
        attributes_text(attributes.drop_last()) + attribute_text(attributes.last())
    }
}

/// The tag that opens an element.
pub open spec fn start_tag(name: Seq<char>, attributes: Seq<Attribute>) -> Seq<char> {
    "<"@ + name + attributes_text(attributes) + ">"@
}

/// The tag that closes an element.
pub open spec fn end_tag(name: Seq<char>) -> Seq<char> {
    "</"@ + name + ">"@
}

/// The tag that is a whole element without children.
pub open spec fn empty_tag(name: Seq<char>, attributes: Seq<Attribute>) -> Seq<char> {
    "<"@ + name + attributes_text(attributes) + "/>"@
}

/// The text that an element is written as.
pub open spec fn element_text(element: Element) -> Seq<char>
    decreases element,
{
    match element {
        Element::Empty { name, attributes } => empty_tag(name, attributes),
        Element::Parent { name, attributes, children } => start_tag(name, attributes)
            + elements_text(children) + end_tag(name),
    }
}

/// The texts of several elements, one after the other.
pub open spec fn elements_text(elements: Seq<Element>) -> Seq<char>
    decreases elements,
{
    if elements.len() == 0 {
        Seq::empty()
    } else {
        elements_text(elements.drop_last()) + element_text(elements.last())
    }
}

/// Whether no name and no value among `attributes` holds a double quote.
pub open spec fn well_quoted_attributes(attributes: Seq<Attribute>) -> bool {
    forall|i: int|
        0 <= i < attributes.len() ==> quote_free((#[trigger] attributes[i]).name) && quote_free(
            attributes[i].value,
        )
}

/// Whether the only double quotes in the text of `element` are those that
/// stand around attribute values: no name and no attribute value in
/// `element` or below it holds one. Every value then ends where its closing
/// quote stands.
pub open spec fn well_quoted(element: Element) -> bool
    decreases element,
{
    match element {
        Element::Empty { name, attributes } => quote_free(name) && well_quoted_attributes(
            attributes,
        ),
        Element::Parent { name, attributes, children } => {
            &&& quote_free(name)
            &&& well_quoted_attributes(attributes)
            &&& forall|i: int| 0 <= i < children.len() ==> well_quoted(#[trigger] children[i])
        },
    }
}

/// The attributes of a tag with one attribute.
pub proof fn lemma_one_attribute(a: Attribute)
    ensures
        attributes_text(seq![a]) == attribute_text(a),
{
    let attributes = seq![a];
    assert(attributes.drop_last() =~= Seq::<Attribute>::empty());
    assert(attributes_text(attributes.drop_last()) =~= Seq::<char>::empty());
    assert(attributes_text(attributes) =~= attribute_text(a));
}

/// The attributes of a tag with two attributes.
pub proof fn lemma_two_attributes(a: Attribute, b: Attribute)
    ensures
        attributes_text(seq![a, b]) == attribute_text(a) + attribute_text(b),
{
    let attributes = seq![a, b];
    assert(attributes.drop_last() =~= seq![a]);
    lemma_one_attribute(a);
}

/// The attributes of a tag with three attributes.
pub proof fn lemma_three_attributes(a: Attribute, b: Attribute, c: Attribute)
    ensures
        attributes_text(seq![a, b, c]) == attribute_text(a) + attribute_text(b) + attribute_text(c),
{
    let attributes = seq![a, b, c];
    assert(attributes.drop_last() =~= seq![a, b]);
    lemma_two_attributes(a, b);
}

/// The text of a list of one element.
pub proof fn lemma_one_element(e: Element)
    ensures
        elements_text(seq![e]) == element_text(e),
{
    let elements = seq![e];
    assert(elements.drop_last() =~= Seq::<Element>::empty());
    assert(elements_text(elements.drop_last()) =~= Seq::<char>::empty());
    assert(elements_text(elements) =~= element_text(e));
}

/// The text of a list of two elements.
pub proof fn lemma_two_elements(d: Element, e: Element)
    ensures
        elements_text(seq![d, e]) == element_text(d) + element_text(e),
{
    let elements = seq![d, e];
    assert(elements.drop_last() =~= seq![d]);
    lemma_one_element(d);
}

} // verus!
