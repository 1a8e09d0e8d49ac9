//! Color values that are safe inside a double-quoted attribute.

use vstd::prelude::*;
use vstd::string::StringExecFns;

verus! {

/// Whether `text` can stand between two double quotes without ending the
/// quoted value early: no character of it is a double quote.
pub open spec fn quote_free(text: Seq<char>) -> bool {
    forall|i: int| 0 <= i < text.len() ==> text[i] != '"'
}

/// Tells whether `s` holds a double quote anywhere.
pub fn holds_quote(s: &str) -> (found: bool)
    ensures
        found == !quote_free(s@),
{
    let mut found = false;
    for c in it: s.chars()
        invariant
            it.seq() == s@,
            found == !quote_free(s@.take(it.index())),
    {
        proof {
            let k = it.index();
            let before = s@.take(k);
            let upto = s@.take(k + 1);
            assert(upto[k] == c);
            assert(forall|i: int| 0 <= i < k ==> before[i] == upto[i]);
        }
        if c == '"' {
            found = true;
        }
    }
    proof {
        assert(s@.take(s@.len() as int) =~= s@);
    }
    found
}

/// The error of [`CSSColor::new`]: the text held at least one double quote.
#[derive(Debug)]
pub struct ColorQuotes;

impl ColorQuotes {
    /// The message shown to a user whose color was refused.
    pub fn to_string(&self) -> (message: String)
        ensures
            message@ == "CSS colors must not contain quotes"@,
    {
        String::from_str("CSS colors must not contain quotes")
    }
}

/// A CSS color as text, known to hold no double quote.
///
/// The text is otherwise taken as it comes: nothing is trimmed, folded or
/// checked against the CSS color grammar. The only way to make one is
/// [`CSSColor::new`], so every value of this type is safe to write into a
/// double-quoted attribute.
#[derive(Debug)]
pub struct CSSColor(String);

impl View for CSSColor {
    type V = Seq<char>;

    /// The color's text.
    closed spec fn view(&self) -> Seq<char> {
        self.0@
    }
}

impl DeepView for CSSColor {
    type V = Seq<char>;

    open spec fn deep_view(&self) -> Seq<char> {
        self@
    }
}

impl CSSColor {
    #[verifier::type_invariant]
    spec fn well_formed(self) -> bool {
        quote_free(self.0@)
    }

    /// Wraps `s` as a color if it holds no double quote, and refuses it with
    /// [`ColorQuotes`] if it holds one or more. The text is kept unchanged.
    pub fn new(s: String) -> (made: Result<Self, ColorQuotes>)
        ensures
            match made {
                Ok(color) => quote_free(s@) && color@ == s@,
                Err(_) => !quote_free(s@),
            },
    {
        if holds_quote(s.as_str()) {
            return Err(ColorQuotes);
        }
        Ok(Self(s))
    }

    /// The color's text, which holds no double quote.
    pub fn as_str(&self) -> (text: &str)
        ensures
            text@ == self@,
            quote_free(text@),
    {
        proof {
            use_type_invariant(self);
        }
        self.0.as_str()
    }

    /// A copy of the color's text.
    pub fn to_string(&self) -> (text: String)
        ensures
            text@ == self@,
            quote_free(text@),
    {
        proof {
            use_type_invariant(self);
        }
        self.0.clone()
    }
}

impl Clone for CSSColor {
    fn clone(&self) -> (copy: Self)
        ensures
            copy@ == self@,
    {
        proof {
            use_type_invariant(self);
        }
        Self(self.0.clone())
    }
}

impl PartialEq for CSSColor {
    /// Two colors are equal when their texts are.
    fn eq(&self, other: &Self) -> (same: bool) {
        self.0 == other.0
    }
}

impl vstd::std_specs::cmp::PartialEqSpecImpl for CSSColor {
    open spec fn obeys_eq_spec() -> bool {
        true
    }

    open spec fn eq_spec(&self, other: &Self) -> bool {
        self@ == other@
    }
}

impl Eq for CSSColor {

}

} // verus!
