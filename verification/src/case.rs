//! Converting names between cases, by splitting them into words at chosen boundaries.

use vstd::prelude::*;

use crate::mir::WordBoundary;

verus! {

#[verifier::external_type_specification]
#[verifier::external_body]
pub struct ExBoundary(convert_case::Boundary);

/// The case a name is converted to.
#[derive(Debug, Clone, Copy, PartialEq, Eq, Structural)]
pub enum TargetCase {
    /// Words capitalized and joined without a delimiter: `MyName`.
    Pascal,
    /// Words in lower case and joined by underscores: `my_name`.
    Snake,
}

/// What `convert_case` makes of the name when it splits it into words at the
/// boundaries and joins the words again in the case.
pub uninterp spec fn case_converted(
    name: Seq<char>,
    boundaries: Seq<WordBoundary>,
    case: TargetCase,
) -> Seq<char>;

/// The `convert_case::Boundary` that the word boundary stands for: a one to one
/// conversion between the two enums.
#[verifier::external_body]
fn outside_boundary(b: WordBoundary) -> convert_case::Boundary {
    match b {
        WordBoundary::Hyphen => convert_case::Boundary::Hyphen,
        WordBoundary::Underscore => convert_case::Boundary::Underscore,
        WordBoundary::Space => convert_case::Boundary::Space,
        WordBoundary::UpperLower => convert_case::Boundary::UpperLower,
        WordBoundary::LowerUpper => convert_case::Boundary::LowerUpper,
        WordBoundary::DigitUpper => convert_case::Boundary::DigitUpper,
        WordBoundary::UpperDigit => convert_case::Boundary::UpperDigit,
        WordBoundary::DigitLower => convert_case::Boundary::DigitLower,
        WordBoundary::LowerDigit => convert_case::Boundary::LowerDigit,
        WordBoundary::Acronym => convert_case::Boundary::Acronym,
    }
}

/// Calls `convert_case::Converter::convert` on a converter made by
/// `Converter::new().set_boundaries(..).to_case(..)`: the name is split into words at
/// the boundaries and the words are joined again in the case. The result is a function
/// of the name, the boundaries and the case alone; nothing more of it is stated.
#[verifier::external_body]
pub(crate) fn convert_name(name: &str, boundaries: &Vec<WordBoundary>, case: TargetCase) -> (res:
    String)
    ensures
        res@ == case_converted(name@, boundaries@, case),
{
    let bs: Vec<convert_case::Boundary> = boundaries.iter().map(|b| outside_boundary(*b)).collect();
    let case = match case {
        TargetCase::Pascal => convert_case::Case::Pascal,
        TargetCase::Snake => convert_case::Case::Snake,
    };
    convert_case::Converter::new().set_boundaries(&bs).to_case(case).convert(name)
}

/// What `convert_case::Boundary::defaults_from` finds in the pattern, each boundary as
/// the word boundary it stands for, or `None` for a custom boundary.
pub uninterp spec fn boundaries_in_pattern(pattern: Seq<char>) -> Seq<Option<WordBoundary>>;

/// The word boundary that a `convert_case::Boundary` stands for, the inverse of the
/// conversion above, or `None` for a custom boundary, which has none.
#[verifier::external_body]
fn word_boundary(b: convert_case::Boundary) -> Option<WordBoundary> {
    match b {
        convert_case::Boundary::Hyphen => Some(WordBoundary::Hyphen),
        convert_case::Boundary::Underscore => Some(WordBoundary::Underscore),
        convert_case::Boundary::Space => Some(WordBoundary::Space),
        convert_case::Boundary::UpperLower => Some(WordBoundary::UpperLower),
        convert_case::Boundary::LowerUpper => Some(WordBoundary::LowerUpper),
        convert_case::Boundary::DigitUpper => Some(WordBoundary::DigitUpper),
        convert_case::Boundary::UpperDigit => Some(WordBoundary::UpperDigit),
        convert_case::Boundary::DigitLower => Some(WordBoundary::DigitLower),
        convert_case::Boundary::LowerDigit => Some(WordBoundary::LowerDigit),
        convert_case::Boundary::Acronym => Some(WordBoundary::Acronym),
        convert_case::Boundary::Custom { .. } => None,
    }
}

/// Calls `convert_case::Boundary::defaults_from`: the default boundaries that occur in
/// the pattern, in the order of `Boundary::defaults`. The result is a function of the
/// pattern alone, named `boundaries_in_pattern`; nothing more of it is stated.
#[verifier::external_body]
pub(crate) fn boundaries_from_pattern(pattern: &str) -> (res: Vec<Option<WordBoundary>>)
    ensures
        res@ == boundaries_in_pattern(pattern@),
{
    convert_case::Boundary::defaults_from(pattern).into_iter().map(word_boundary).collect()
}

} // verus!
