//! The filter predicate: five optional constraints over a string's metrics.

use vstd::prelude::*;

verus! {

/// A conjunction of optional constraints over a string's metrics; an absent
/// field leaves that metric unconstrained.
#[derive(Debug, Clone, PartialEq, Eq)]
pub struct StringFilters {
    pub is_palindrome: Option<bool>,
    /// Lower bound on the length, inclusive.
    pub min_length: Option<i32>,
    /// Upper bound on the length, inclusive.
    pub max_length: Option<i32>,
    /// Exact number of whitespace-separated words.
    pub word_count: Option<i32>,
    /// A character that must occur in the string, ignoring case.
    pub contains_character: Option<String>,
}

/// The mathematical value of a [`StringFilters`].
pub struct FilterModel {
    pub is_palindrome: Option<bool>,
    pub min_length: Option<int>,
    pub max_length: Option<int>,
    pub word_count: Option<int>,
    pub contains_character: Option<Seq<char>>,
}

impl FilterModel {
    /// No constraint at all.
    pub open spec fn empty() -> FilterModel {
        FilterModel {
            is_palindrome: None,
            min_length: None,
            max_length: None,
            word_count: None,
            contains_character: None,
        }
    }

    /// Every field is absent.
    pub open spec fn is_empty(self) -> bool {
        &&& self.is_palindrome is None
        &&& self.min_length is None
        &&& self.max_length is None
        &&& self.word_count is None
        &&& self.contains_character is None
    }

    /// Both length bounds are set and no length lies between them.
    pub open spec fn has_conflict(self) -> bool {
        match (self.min_length, self.max_length) {
            (Some(lo), Some(hi)) => lo > hi,
            _ => false,
        }
    }
}

impl View for StringFilters {
    type V = FilterModel;

    open spec fn view(&self) -> FilterModel {
        FilterModel {
            is_palindrome: self.is_palindrome,
            min_length: match self.min_length {
                Some(v) => Some(v as int),
                None => None,
            },
            max_length: match self.max_length {
                Some(v) => Some(v as int),
                None => None,
            },
            word_count: match self.word_count {
                Some(v) => Some(v as int),
                None => None,
            },
            contains_character: match &self.contains_character {
                Some(s) => Some(s@),
                None => None,
            },
        }
    }
}

impl StringFilters {
    /// The filter that constrains nothing and so matches every record; the
    /// starting point of a filter built from query parameters.
    pub fn none() -> (r: StringFilters)
        ensures
            r@ == FilterModel::empty(),
    {
        StringFilters {
            is_palindrome: None,
            min_length: None,
            max_length: None,
            word_count: None,
            contains_character: None,
        }
    }

    /// Whether no field is set.
    pub fn is_empty(&self) -> (r: bool)
        ensures
            r == self@.is_empty(),
    {
        self.is_palindrome.is_none() && self.min_length.is_none() && self.max_length.is_none()
            && self.word_count.is_none() && self.contains_character.is_none()
    }

    /// Whether both length bounds are set with the lower above the upper.
    pub fn has_conflict(&self) -> (r: bool)
        ensures
            r == self@.has_conflict(),
    {
        match (self.min_length, self.max_length) {
            (Some(lo), Some(hi)) => lo > hi,
            _ => false,
        }
    }
}

} // verus!
