//! Text building: decimal rendering for error indices and the message
//! formats that load and save failures carry.

use vstd::prelude::*;

verus! {

/// The decimal digit character for `d` (below ten).
pub open spec fn digit_char(d: nat) -> char {
    ((48 + d) as u8) as char
}

/// The decimal text of `n`, most significant digit first, no leading zeros.
pub open spec fn dec_of(n: nat) -> Seq<char>
    decreases n,
{
    if n < 10 {
        seq![digit_char(n)]
    } else {
        dec_of(n / 10).push(digit_char(n % 10))
    }
}

/// Appends the decimal text of `n` to `out`.
pub fn push_dec(n: usize, out: &mut Vec<char>)
    ensures
        final(out)@ == old(out)@ + dec_of(n as nat),
    decreases n,
{
    if n >= 10 {
        push_dec(n / 10, out);
    }
    let d: u8 = 48 + (n % 10) as u8;
    out.push(d as char);
    proof {
        assert(out@ =~= old(out)@ + dec_of(n as nat));
    }
}

/// Relies on `String`'s `FromIterator` implementation: collecting characters
/// yields the string of exactly those characters in order.
#[verifier::external_body]
pub(crate) fn chars_to_string(cs: &Vec<char>) -> (r: String)
    ensures
        r@ == cs@,
{
    cs.iter().collect()
}

/// The text of the error a book entry without a usable path reference fails
/// with, naming the entry's zero-based index.
pub open spec fn missing_field_text(i: nat) -> Seq<char> {
    "books["@ + dec_of(i) + "].dataPath is missing or invalid"@
}

pub fn missing_field_message(index: usize) -> (r: String)
    ensures
        r@ == missing_field_text(index as nat),
{
    let mut digits: Vec<char> = Vec::new();
    push_dec(index, &mut digits);
    let mid = chars_to_string(&digits);
    String::from_str("books[").concat(mid.as_str()).concat("].dataPath is missing or invalid")
}

/// The text of a store failure: the failed action, the offending location,
/// and the underlying cause.
pub open spec fn failure_text(action: Seq<char>, path: Seq<char>, cause: Seq<char>) -> Seq<char> {
    "Failed to "@ + action + " "@ + path + ": "@ + cause
}

pub fn failure_message(action: &str, path: &str, cause: &str) -> (r: String)
    ensures
        r@ == failure_text(action@, path@, cause@),
{
    String::from_str("Failed to ").concat(action).concat(" ").concat(path).concat(": ").concat(
        cause,
    )
}

} // verus!
