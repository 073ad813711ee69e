//! The rules that the fields of every form are held to.

use vstd::prelude::*;

verus! {

/// The fewest characters that a name may have.
pub const MIN_NAME_LENGTH: usize = 2;

/// A name is accepted if it has at least two characters.
pub open spec fn name_is_valid(name: Seq<char>) -> bool {
    name.len() >= MIN_NAME_LENGTH
}

/// A minimum stock is accepted if it is not negative.
pub open spec fn min_stock_is_valid(min_stock: i32) -> bool {
    min_stock >= 0
}

/// Whether a name has at least two characters.
pub fn check_name(name: &str) -> (r: bool)
    ensures
        r == name_is_valid(name@),
{
    name.unicode_len() >= MIN_NAME_LENGTH
}

/// Whether a minimum stock is not negative.
pub fn check_min_stock(min_stock: i32) -> (r: bool)
    ensures
        r == min_stock_is_valid(min_stock),
{
    min_stock >= 0
}

/// What the form says of a name that is too short.
pub fn name_message() -> (text: String)
    ensures
        text@ == "Name must contain at least two characters"@,
{
    String::from_str("Name must contain at least two characters")
}

/// What the form says of a minimum stock that is no integer.
pub fn min_stock_message() -> (text: String)
    ensures
        text@ == "Min stock should be a valide integer"@,
{
    String::from_str("Min stock should be a valide integer")
}

/// What the form says of a minimum stock below 0.
pub fn min_stock_range_message() -> (text: String)
    ensures
        text@ == "Min stock must not be negative"@,
{
    String::from_str("Min stock must not be negative")
}

} // verus!
