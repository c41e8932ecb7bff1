//! The predicate compiler: a filter becomes an ordered list of conjunctive
//! constraints over the stored metrics, one per field that is set.

use vstd::prelude::*;

use crate::filters::{FilterModel, StringFilters};
use crate::text::{char_lower_of, char_to_lowercase};

verus! {

/// One constraint over a stored metrics record.
#[derive(Debug, Clone, PartialEq, Eq)]
pub enum Clause {
    /// The palindrome flag equals the value.
    IsPalindrome(bool),
    /// The length is at least the value.
    MinLength(i32),
    /// The length is at most the value.
    MaxLength(i32),
    /// The word count equals the value.
    WordCount(i32),
    /// The character-frequency mapping has the value as a key.
    ContainsCharacter(String),
}

/// The mathematical value of a [`Clause`].
pub enum ClauseModel {
    IsPalindrome(bool),
    MinLength(int),
    MaxLength(int),
    WordCount(int),
    ContainsCharacter(Seq<char>),
}

impl View for Clause {
    type V = ClauseModel;

    open spec fn view(&self) -> ClauseModel {
        match self {
            Clause::IsPalindrome(b) => ClauseModel::IsPalindrome(*b),
            Clause::MinLength(n) => ClauseModel::MinLength(*n as int),
            Clause::MaxLength(n) => ClauseModel::MaxLength(*n as int),
            Clause::WordCount(n) => ClauseModel::WordCount(*n as int),
            Clause::ContainsCharacter(s) => ClauseModel::ContainsCharacter(s@),
        }
    }
}

/// The views of a sequence of clauses.
pub open spec fn clause_views(v: Seq<Clause>) -> Seq<ClauseModel> {
    v.map_values(|c: Clause| c@)
}

/// The place of a clause's kind in the order of the filter's fields.
pub open spec fn rank(c: ClauseModel) -> int {
    match c {
        ClauseModel::IsPalindrome(_) => 0,
        ClauseModel::MinLength(_) => 1,
        ClauseModel::MaxLength(_) => 2,
        ClauseModel::WordCount(_) => 3,
        ClauseModel::ContainsCharacter(_) => 4,
    }
}

/// The key that a character constraint tests: the lowercase form of the
/// constraint's first character; an empty constraint tests nothing.
pub open spec fn character_key(s: Seq<char>) -> Option<Seq<char>> {
    if s.len() > 0 {
        Some(char_lower_of(s[0]))
    } else {
        None
    }
}

/// The clause of the palindrome field, if it is set.
pub open spec fn palindrome_part(f: FilterModel) -> Seq<ClauseModel> {
    match f.is_palindrome {
        Some(b) => seq![ClauseModel::IsPalindrome(b)],
        None => seq![],
    }
}

/// The clause of the lower length bound, if it is set.
pub open spec fn min_length_part(f: FilterModel) -> Seq<ClauseModel> {
    match f.min_length {
        Some(n) => seq![ClauseModel::MinLength(n)],
        None => seq![],
    }
}

/// The clause of the upper length bound, if it is set.
pub open spec fn max_length_part(f: FilterModel) -> Seq<ClauseModel> {
    match f.max_length {
        Some(n) => seq![ClauseModel::MaxLength(n)],
        None => seq![],
    }
}

/// The clause of the word count, if it is set.
pub open spec fn word_count_part(f: FilterModel) -> Seq<ClauseModel> {
    match f.word_count {
        Some(n) => seq![ClauseModel::WordCount(n)],
        None => seq![],
    }
}

/// The clause of the character constraint, if it is set and not empty.
pub open spec fn character_part(f: FilterModel) -> Seq<ClauseModel> {
    match f.contains_character {
        Some(s) => match character_key(s) {
            Some(k) => seq![ClauseModel::ContainsCharacter(k)],
            None => seq![],
        },
        None => seq![],
    }
}

/// The clause list of a filter: one clause per field that is set, in the
/// order of the fields.
pub open spec fn compile_spec(f: FilterModel) -> Seq<ClauseModel> {
    palindrome_part(f) + min_length_part(f) + max_length_part(f) + word_count_part(f)
        + character_part(f)
}

/// Compiles a filter into its clause list.  Every filter compiles, the one
/// with no field set to no clause at all.
pub fn compile(filters: &StringFilters) -> (r: Vec<Clause>)
    ensures
        clause_views(r@) == compile_spec(filters@),
        filters@.is_empty() ==> r@.len() == 0,
{
    let ghost f = filters@;
    let mut r: Vec<Clause> = Vec::new();
    if let Some(b) = filters.is_palindrome {
        r.push(Clause::IsPalindrome(b));
    }
    if let Some(n) = filters.min_length {
        r.push(Clause::MinLength(n));
    }
    if let Some(n) = filters.max_length {
        r.push(Clause::MaxLength(n));
    }
    if let Some(n) = filters.word_count {
        r.push(Clause::WordCount(n));
    }
    if let Some(s) = &filters.contains_character {
        if s.unicode_len() > 0 {
            r.push(Clause::ContainsCharacter(char_to_lowercase(s.get_char(0))));
        }
    }
    assert(clause_views(r@) =~= compile_spec(f));
    r
}

/// Compiling is deterministic: equal filters give equal clause lists, so a
/// filter compiled twice gives the same list twice.
pub proof fn compile_is_deterministic(a: FilterModel, b: FilterModel)
    requires
        a == b,
    ensures
        compile_spec(a) == compile_spec(b),
{
}

/// The clauses come in the order of the filter's fields, each kind at most
/// once.
pub proof fn compile_follows_field_order(f: FilterModel)
    ensures
        compile_spec(f).len() <= 5,
        forall|i: int, j: int|
            0 <= i < j < compile_spec(f).len() ==> rank(#[trigger] compile_spec(f)[i]) < rank(
                #[trigger] compile_spec(f)[j],
            ),
{
    let p = palindrome_part(f);
    let lo = min_length_part(f);
    let hi = max_length_part(f);
    let w = word_count_part(f);
    let c = character_part(f);
    let r = compile_spec(f);
    assert(r == p + lo + hi + w + c);
    // Each part holds only clauses of its own rank, and the parts come in
    // order of rank.
    assert forall|i: int, j: int| 0 <= i < j < r.len() implies rank(#[trigger] r[i]) < rank(
        #[trigger] r[j],
    ) by {
        let q1 = p + lo;
        let q2 = q1 + hi;
        let q3 = q2 + w;
        assert(r == q3 + c);
        assert(forall|k: int| 0 <= k < p.len() ==> rank(#[trigger] p[k]) == 0);
        assert(forall|k: int| 0 <= k < lo.len() ==> rank(#[trigger] lo[k]) == 1);
        assert(forall|k: int| 0 <= k < hi.len() ==> rank(#[trigger] hi[k]) == 2);
        assert(forall|k: int| 0 <= k < w.len() ==> rank(#[trigger] w[k]) == 3);
        assert(forall|k: int| 0 <= k < c.len() ==> rank(#[trigger] c[k]) == 4);
        assert(p.len() <= 1 && lo.len() <= 1 && hi.len() <= 1 && w.len() <= 1 && c.len() <= 1);
    }
}

/// The filter with no field set compiles to no clause, so it matches every
/// record.
pub proof fn empty_filter_compiles_to_nothing()
    ensures
        compile_spec(FilterModel::empty()) == Seq::<ClauseModel>::empty(),
{
    assert(compile_spec(FilterModel::empty()) =~= Seq::<ClauseModel>::empty());
}

impl Clause {
    /// The condition this clause adds to a query over the stored records,
    /// up to the bound value that follows it.
    pub fn condition(&self) -> (r: &'static str)
        ensures
            self is IsPalindrome ==> r@ == " AND is_palindrome = "@,
            self is MinLength ==> r@ == " AND length >= "@,
            self is MaxLength ==> r@ == " AND length <= "@,
            self is WordCount ==> r@ == " AND word_count = "@,
            self is ContainsCharacter ==> r@ == " AND char_frequency_map ? "@,
    {
        match self {
            Clause::IsPalindrome(_) => " AND is_palindrome = ",
            Clause::MinLength(_) => " AND length >= ",
            Clause::MaxLength(_) => " AND length <= ",
            Clause::WordCount(_) => " AND word_count = ",
            Clause::ContainsCharacter(_) => " AND char_frequency_map ? ",
        }
    }
}

} // verus!
