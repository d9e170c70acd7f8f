//! Title case.

use crate::heck::{transform, transformed, Casing};
use vstd::prelude::*;

verus! {

/// A text in title case: its words, each with its first letter in upper
/// case and its other letters in lower case, with a space between each two.
pub open spec fn title_case_of(text: Seq<char>) -> Seq<char> {
    transformed(text, Casing::Capitalized, Casing::Capitalized, " "@)
}

/// This trait defines a title case conversion.
///
/// In Title Case, word boundaries are indicated by spaces, and every word is
/// capitalized.
pub trait TitleCase {
    /// Convert this type to title case.
    fn to_title_case(&self) -> String;
}

impl TitleCase for str {
    fn to_title_case(&self) -> (title: String)
        ensures
            title@ == title_case_of(self@),
    {
        transform(self, Casing::Capitalized, Casing::Capitalized, " ")
    }
}

} // verus!
