use vstd::prelude::*;

verus! {

/// Equality of two string slices.
///
/// Trusted: calls `<str as PartialEq>::eq`, which std documents as comparing
/// the two strings character for character; the contract says the result is
/// true exactly when both hold the same characters.
#[verifier::external_body]
pub fn str_eq(a: &str, b: &str) -> (res: bool)
    ensures
        res == (a@ == b@),
{
    a == b
}


/// The characters of `s` are all ASCII decimal digits.
pub open spec fn all_digits(s: Seq<char>) -> bool {
    forall|i: int| 0 <= i < s.len() ==> '0' <= #[trigger] s[i] <= '9'
}

/// The number written by the decimal digits `s` (most significant first).
pub open spec fn digits_value(s: Seq<char>) -> int
    decreases s.len(),
{
    if s.len() == 0 {
        0
    } else {
        digits_value(s.drop_last()) * 10 + (s.last() as int - '0' as int)
    }
}

/// What `str::parse::<i32>` accepts: an optional `+` or `-` sign followed by
/// one or more ASCII digits, whose value fits in an `i32`.
pub open spec fn parsed_i32(s: Seq<char>) -> Option<i32> {
    let negative = s.len() > 0 && s[0] == '-';
    let digits = if s.len() > 0 && (s[0] == '-' || s[0] == '+') {
        s.drop_first()
    } else {
        s
    };
    let value = if negative {
        -digits_value(digits)
    } else {
        digits_value(digits)
    };
    if digits.len() > 0 && all_digits(digits) && i32::MIN <= value <= i32::MAX {
        Some(value as i32)
    } else {
        None
    }
}

/// Decimal parse of a string into an `i32`.
///
/// Trusted: calls `str::parse::<i32>`. Its documentation (`i32::from_str`,
/// `from_str_radix` with radix 10) accepts an optional `+` or `-` followed by
/// ASCII digits only, and reports an error for an empty string, a lone sign,
/// any other character, or a value outside the range of `i32`; the contract
/// states exactly that through `parsed_i32`.
#[verifier::external_body]
pub fn parse_i32(s: &str) -> (res: Option<i32>)
    ensures
        res == parsed_i32(s@),
{
    s.parse::<i32>().ok()
}

/// `s` is exactly the one character `c`.
pub fn is_single_char(s: &str, c: char) -> (res: bool)
    ensures
        res == (s@ == seq![c]),
{
    if s.unicode_len() == 1 {
        let d = s.get_char(0);
        if d == c {
            assert(s@ =~= seq![c]);
            true
        } else {
            false
        }
    } else {
        false
    }
}

} // verus!
