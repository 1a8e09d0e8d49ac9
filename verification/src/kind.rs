//! The two kinds of gradient, with their names.

use crate::text::{eq_ignore_ascii_case, lowercase};
use vstd::prelude::*;
use vstd::string::StringExecFns;

verus! {

/// The name of [`GradientType::Linear`].
pub const LINE: &'static str = "linear";

/// The name of [`GradientType::Radial`].
pub const RAD: &'static str = "radial";

/// The kind of a gradient.
#[derive(Debug, PartialEq, Eq, Structural)]
pub enum GradientType {
    /// Colors change along a line.
    Linear,
    /// Colors change from the center outwards.
    Radial,
}

/// The kind that `text` names, if it names one: the full name or its first
/// letter, in capitals or small letters or a mixture.
pub open spec fn named_kind(text: Seq<char>) -> Option<GradientType> {
    let folded = lowercase(text);
    if folded == "l"@ || folded == "linear"@ {
        Some(GradientType::Linear)
    } else if folded == "r"@ || folded == "radial"@ {
        Some(GradientType::Radial)
    } else {
        None
    }
}

impl GradientType {
    /// The kind's name as a sequence of characters.
    pub open spec fn name(self) -> Seq<char> {
        match self {
            GradientType::Linear => LINE@,
            GradientType::Radial => RAD@,
        }
    }

    /// The kind's name: `linear` or `radial`.
    pub fn as_str(&self) -> (name: &'static str)
        ensures
            name@ == self.name(),
    {
        match self {
            GradientType::Linear => LINE,
            GradientType::Radial => RAD,
        }
    }

    /// The kind's name as an owned string.
    pub fn to_string(&self) -> (name: String)
        ensures
            name@ == self.name(),
    {
        String::from_str(self.as_str())
    }

    /// Reads a kind from its name or from the first letter of its name,
    /// whatever the case of the letters. Any other text is refused.
    pub fn from_str(s: &str) -> (parsed: Result<Self, ()>)
        ensures
            match parsed {
                Ok(kind) => named_kind(s@) == Some(kind),
                Err(_) => named_kind(s@) is None,
            },
    {
        proof {
            lemma_words_are_lowercase();
        }
        if eq_ignore_ascii_case(s, "l") || eq_ignore_ascii_case(s, LINE) {
            Ok(GradientType::Linear)
        } else if eq_ignore_ascii_case(s, "r") || eq_ignore_ascii_case(s, RAD) {
            Ok(GradientType::Radial)
        } else {
            Err(())
        }
    }
}

impl core::str::FromStr for GradientType {
    type Err = ();

    /// Reads a kind as [`GradientType::from_str`] does.
    fn from_str(s: &str) -> (parsed: Result<Self, ()>)
        ensures
            match parsed {
                Ok(kind) => named_kind(s@) == Some(kind),
                Err(_) => named_kind(s@) is None,
            },
    {
        GradientType::from_str(s)
    }
}

/// The four words that name a kind are written in small letters.
pub proof fn lemma_words_are_lowercase()
    ensures
        LINE@ == "linear"@,
        RAD@ == "radial"@,
        lowercase("l"@) == "l"@,
        lowercase("r"@) == "r"@,
        lowercase("linear"@) == "linear"@,
        lowercase("radial"@) == "radial"@,
{
    reveal_strlit("l");
    reveal_strlit("r");
    reveal_strlit("linear");
    reveal_strlit("radial");
    assert(lowercase("l"@) =~= "l"@);
    assert(lowercase("r"@) =~= "r"@);
    assert(lowercase("linear"@) =~= "linear"@);
    assert(lowercase("radial"@) =~= "radial"@);
}

/// A kind is read back from its own name.
pub proof fn lemma_name_is_read_back(kind: GradientType)
    ensures
        named_kind(kind.name()) == Some(kind),
{
    lemma_words_are_lowercase();
    reveal_strlit("l");
    reveal_strlit("r");
    reveal_strlit("linear");
    reveal_strlit("radial");
    assert("radial"@.len() != "l"@.len());
    assert("radial"@[0] != "linear"@[0]);
}

} // verus!
