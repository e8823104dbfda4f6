//! Calls into the crates this library builds on.
//!
//! Nothing in this module is proved: each function's contract is taken from the
//! documentation and source of the crate it calls.

use vstd::prelude::*;

verus! {

/// The snake case form that `heck` gives to a text.
pub uninterp spec fn snake_case_text(text: Seq<char>) -> Seq<char>;

/// The character of a decimal digit.
pub open spec fn digit(d: nat) -> char {
    if d == 0 {
        '0'
    } else if d == 1 {
        '1'
    } else if d == 2 {
        '2'
    } else if d == 3 {
        '3'
    } else if d == 4 {
        '4'
    } else if d == 5 {
        '5'
    } else if d == 6 {
        '6'
    } else if d == 7 {
        '7'
    } else if d == 8 {
        '8'
    } else {
        '9'
    }
}

/// The decimal digits of a number, most significant first, without leading
/// zeros.
pub open spec fn decimal(n: nat) -> Seq<char>
    decreases n,
{
    if n < 10 {
        seq![digit(n)]
    } else {
        decimal(n / 10).push(digit(n % 10))
    }
}

/// `heck::SnakeCase::to_snake_case` on a `str`: the text in snake case. The
/// conversion is a function of the text alone, named by [`snake_case_text`].
#[verifier::external_body]
pub(crate) fn to_snake_case(text: &str) -> (snake: String)
    ensures
        snake@ == snake_case_text(text@),
{
    heck::SnakeCase::to_snake_case(text)
}

/// `proc_macro2::Literal::usize_unsuffixed` and the literal's `Display`: the
/// integer literal without a suffix, which is the number in decimal.
#[verifier::external_body]
pub(crate) fn index_literal(index: usize) -> (text: String)
    ensures
        text@ == decimal(index as nat),
{
    proc_macro2::Literal::usize_unsuffixed(index).to_string()
}

} // verus!
