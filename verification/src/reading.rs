//! Reading attribute values back out of a text.
//!
//! A reader of markup finds an attribute value by going from one double
//! quote to the next. What such a reader finds in a text is stated here, and
//! shown to be the attribute values of the tree that the text was written
//! from, each unchanged and in order, as long as no name and no value of the
//! tree holds a double quote.

use crate::color::quote_free;
use crate::markup::{
    attribute_text,
    attributes_text,
    element_text,
    elements_text,
    end_tag,
    well_quoted,
    well_quoted_attributes,
    Attribute,
    Element,
};
use vstd::prelude::*;

verus! {

/// How many characters of `text` stand before its first double quote; the
/// length of `text` where it holds none.
pub open spec fn first_quote(text: Seq<char>) -> nat
    decreases text.len(),
{
    if text.len() == 0 || text[0] == '"' {
        0
    } else {
        1 + first_quote(text.drop_first())
    }
}

/// What stands between the first double quote of `text` and the second,
/// between the third and the fourth, and so on. A quote that is never
/// closed opens no value.
pub open spec fn quoted_values(text: Seq<char>) -> Seq<Seq<char>>
    decreases text.len(),
{
    if text.len() == 0 {
        Seq::empty()
    } else if text[0] != '"' {
        quoted_values(text.drop_first())
    } else {
        let inner = text.drop_first();
        let close = first_quote(inner) as int;
        if close >= inner.len() {
            Seq::empty()
        } else {
            seq![inner.take(close)] + quoted_values(inner.skip(close + 1))
        }
    }
}

/// The values of `attributes`, in order.
pub open spec fn values_of(attributes: Seq<Attribute>) -> Seq<Seq<char>> {
    Seq::new(attributes.len(), |i: int| attributes[i].value)
}

/// The attribute values of `element` and of the elements below it, in the
/// order in which they are written.
pub open spec fn attribute_values(element: Element) -> Seq<Seq<char>>
    decreases element,
{
    match element {
        Element::Empty { name, attributes } => values_of(attributes),
        Element::Parent { name, attributes, children } => values_of(attributes) + children_values(
            children,
        ),
    }
}

/// The attribute values of several elements, one element after the other.
pub open spec fn children_values(elements: Seq<Element>) -> Seq<Seq<char>>
    decreases elements,
{
    if elements.len() == 0 {
        Seq::empty()
    } else {
        children_values(elements.drop_last()) + attribute_values(elements.last())
    }
}

/// The attribute values of a list of one element.
pub proof fn lemma_values_of_one(e: Element)
    ensures
        children_values(seq![e]) == attribute_values(e),
{
    let elements = seq![e];
    assert(elements.drop_last() =~= Seq::<Element>::empty());
    assert(children_values(elements.drop_last()) =~= Seq::<Seq<char>>::empty());
    assert(children_values(elements) =~= attribute_values(e));
}

/// The attribute values of a list of two elements.
pub proof fn lemma_values_of_two(d: Element, e: Element)
    ensures
        children_values(seq![d, e]) == attribute_values(d) + attribute_values(e),
{
    let elements = seq![d, e];
    assert(elements.drop_last() =~= seq![d]);
    lemma_values_of_one(d);
}

/// Text without a double quote holds no value and hides none: what follows
/// it is read as if it stood alone.
pub proof fn lemma_skip_plain(plain: Seq<char>, rest: Seq<char>)
    requires
        quote_free(plain),
    ensures
        quoted_values(plain + rest) == quoted_values(rest),
    decreases plain.len(),
{
    if plain.len() == 0 {
        assert(plain + rest =~= rest);
    } else {
        let text = plain + rest;
        assert(text[0] == plain[0]);
        assert(text.drop_first() =~= plain.drop_first() + rest);
        lemma_skip_plain(plain.drop_first(), rest);
    }
}

/// A value without a double quote ends at the quote that follows it.
proof fn lemma_first_quote(value: Seq<char>, rest: Seq<char>)
    requires
        quote_free(value),
    ensures
        first_quote(value + seq!['"'] + rest) == value.len(),
    decreases value.len(),
{
    let text = value + seq!['"'] + rest;
    if value.len() == 0 {
        assert(text[0] == '"');
    } else {
        assert(text[0] == value[0]);
        assert(text.drop_first() =~= value.drop_first() + seq!['"'] + rest);
        lemma_first_quote(value.drop_first(), rest);
    }
}

/// A value between two double quotes is read back as it is, whatever else
/// it holds, as long as it holds no double quote itself.
pub proof fn lemma_read_value(value: Seq<char>, rest: Seq<char>)
    requires
        quote_free(value),
    ensures
        quoted_values(seq!['"'] + value + seq!['"'] + rest) == seq![value] + quoted_values(rest),
{
    let text = seq!['"'] + value + seq!['"'] + rest;
    let inner = text.drop_first();
    assert(text[0] == '"');
    assert(inner =~= value + seq!['"'] + rest);
    lemma_first_quote(value, rest);
    assert(inner.take(value.len() as int) =~= value);
    assert(inner.skip(value.len() as int + 1) =~= rest);
}

/// An attribute's value is read back from the attribute as it is written.
proof fn lemma_read_attribute(attribute: Attribute, rest: Seq<char>)
    requires
        quote_free(attribute.name),
        quote_free(attribute.value),
    ensures
        quoted_values(attribute_text(attribute) + rest) == seq![attribute.value] + quoted_values(
            rest,
        ),
{
    reveal_strlit(" ");
    reveal_strlit("=\"");
    reveal_strlit("\"");
    let plain = " "@ + attribute.name + seq!['='];
    let quoted = seq!['"'] + attribute.value + seq!['"'] + rest;
    assert(attribute_text(attribute) + rest =~= plain + quoted);
    assert(quote_free(plain));
    lemma_skip_plain(plain, quoted);
    lemma_read_value(attribute.value, rest);
}

/// The values of the attributes of one tag are read back in order.
proof fn lemma_read_attributes(attributes: Seq<Attribute>, rest: Seq<char>)
    requires
        well_quoted_attributes(attributes),
    ensures
        quoted_values(attributes_text(attributes) + rest) == values_of(attributes) + quoted_values(
            rest,
        ),
    decreases attributes.len(),
{
    if attributes.len() == 0 {
        assert(attributes_text(attributes) + rest =~= rest);
        assert(values_of(attributes) + quoted_values(rest) =~= quoted_values(rest));
    } else {
        let before = attributes.drop_last();
        let last = attributes.last();
        let after = attribute_text(last) + rest;
        assert(attributes_text(attributes) + rest =~= attributes_text(before) + after);
        assert(well_quoted_attributes(before)) by {
            assert forall|i: int| 0 <= i < before.len() implies quote_free(
                (#[trigger] before[i]).name,
            ) && quote_free(before[i].value) by {
                assert(before[i] == attributes[i]);
            }
        }
        lemma_read_attributes(before, after);
        lemma_read_attribute(last, rest);
        assert(values_of(before) + (seq![last.value] + quoted_values(rest)) =~= values_of(
            attributes,
        ) + quoted_values(rest));
    }
}

/// The attribute values of a tree are read back from its text: each value
/// unchanged, all of them in the order in which they are written, and
/// nothing else. `rest` is whatever text follows the element.
pub proof fn lemma_read_element(element: Element, rest: Seq<char>)
    requires
        well_quoted(element),
    ensures
        quoted_values(element_text(element) + rest) == attribute_values(element) + quoted_values(
            rest,
        ),
    decreases element,
{
    reveal_strlit("<");
    reveal_strlit(">");
    reveal_strlit("/>");
    reveal_strlit("</");
    match element {
        Element::Empty { name, attributes } => {
            let open = "<"@ + name;
            let close = "/>"@ + rest;
            assert(element_text(element) + rest =~= open + (attributes_text(attributes) + close));
            assert(quote_free(open));
            lemma_skip_plain(open, attributes_text(attributes) + close);
            lemma_read_attributes(attributes, close);
            lemma_skip_plain("/>"@, rest);
        },
        Element::Parent { name, attributes, children } => {
            let open = "<"@ + name;
            let end = end_tag(name);
            let inside = elements_text(children) + (end + rest);
            let close = ">"@ + inside;
            assert(element_text(element) + rest =~= open + (attributes_text(attributes) + close));
            assert(quote_free(open));
            assert(quote_free(end));
            lemma_skip_plain(open, attributes_text(attributes) + close);
            lemma_read_attributes(attributes, close);
            lemma_skip_plain(">"@, inside);
            lemma_read_elements(children, end + rest);
            lemma_skip_plain(end, rest);
            assert(values_of(attributes) + (children_values(children) + quoted_values(rest))
                =~= attribute_values(element) + quoted_values(rest));
        },
    }
}

/// The attribute values of several trees are read back from their texts,
/// one tree after the other.
pub proof fn lemma_read_elements(elements: Seq<Element>, rest: Seq<char>)
    requires
        forall|i: int| 0 <= i < elements.len() ==> well_quoted(#[trigger] elements[i]),
    ensures
        quoted_values(elements_text(elements) + rest) == children_values(elements) + quoted_values(
            rest,
        ),
    decreases elements,
{
    if elements.len() == 0 {
        assert(elements_text(elements) + rest =~= rest);
        assert(children_values(elements) + quoted_values(rest) =~= quoted_values(rest));
    } else {
        let before = elements.drop_last();
        let last = elements.last();
        let after = element_text(last) + rest;
        assert(elements_text(elements) + rest =~= elements_text(before) + after);
        assert forall|i: int| 0 <= i < before.len() implies well_quoted(#[trigger] before[i]) by {
            assert(before[i] == elements[i]);
        }
        lemma_read_elements(before, after);
        lemma_read_element(last, rest);
        assert(children_values(before) + (attribute_values(last) + quoted_values(rest))
            =~= children_values(elements) + quoted_values(rest));
    }
}

} // verus!
