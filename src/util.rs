//! Reading integers and booleans from text, and writing integers as text.
use std::num::ParseIntError;
use std::str::ParseBoolError;
use vstd::prelude::*;

verus! {

#[verifier::external_type_specification]
#[verifier::external_body]
pub struct ExParseIntError(std::num::ParseIntError);

#[verifier::external_type_specification]
#[verifier::external_body]
pub struct ExParseBoolError(std::str::ParseBoolError);

#[verifier::external_type_specification]
#[verifier::external_body]
pub struct ExIoError(std::io::Error);

/// What went wrong, in the model of a hard failure.
pub enum Fault {
    /// An integer field or argument that is no `i32` text.
    BadInt,
    /// A boolean argument other than `true` or `false`.
    BadBool,
    /// A database record with fewer fields than its format has.
    MissingField,
}

/// Whether `s` is the text of a boolean.
pub open spec fn is_bool_text(s: Seq<char>) -> bool {
    s == "true"@ || s == "false"@
}

/// Whether `c` is a decimal digit.
pub open spec fn is_digit(c: char) -> bool {
    '0' <= c && c <= '9'
}

/// The value of a decimal digit.
pub open spec fn digit_value(c: char) -> int {
    c as int - '0' as int
}

/// The value of a sequence of decimal digits, most significant first.
pub open spec fn digits_value(d: Seq<char>) -> int
    decreases d.len(),
{
    if d.len() == 0 {
        0
    } else {
        digits_value(d.drop_last()) * 10 + digit_value(d.last())
    }
}

/// A text without its leading sign, if it has one.
pub open spec fn unsigned_part(s: Seq<char>) -> Seq<char> {
    if s.len() > 0 && (s[0] == '+' || s[0] == '-') {
        s.drop_first()
    } else {
        s
    }
}

/// The value of an optionally signed decimal text.
pub open spec fn text_value(s: Seq<char>) -> int {
    if s.len() > 0 && s[0] == '-' {
        -digits_value(unsigned_part(s))
    } else {
        digits_value(unsigned_part(s))
    }
}

/// Whether `s` is the text of an `i32`: an optional sign, then at least one
/// decimal digit, and a value in range.
pub open spec fn is_i32_text(s: Seq<char>) -> bool {
    let d = unsigned_part(s);
    &&& d.len() > 0
    &&& forall|i: int| 0 <= i < d.len() ==> is_digit(#[trigger] d[i])
    &&& i32::MIN <= text_value(s) <= i32::MAX
}

/// The digit for a value below ten.
pub open spec fn digit_char(d: int) -> char {
    seq!['0', '1', '2', '3', '4', '5', '6', '7', '8', '9'][d]
}

/// The decimal digits of a natural number, without leading zeros.
pub open spec fn nat_text(n: nat) -> Seq<char>
    decreases n,
{
    if n < 10 {
        seq![digit_char(n as int)]
    } else {
        nat_text(n / 10).push(digit_char((n % 10) as int))
    }
}

/// The decimal text of an integer, with a minus sign when it is negative.
pub open spec fn decimal_text(n: int) -> Seq<char> {
    if n < 0 {
        seq!['-'] + nat_text((-n) as nat)
    } else {
        nat_text(n as nat)
    }
}

/// Relies on `str::parse::<i32>` (`i32::from_str`): an optional `+` or `-`,
/// then decimal digits only, and a value that fits.
#[verifier::external_body]
pub(crate) fn parse_i32(s: &str) -> (r: Result<i32, ParseIntError>)
    ensures
        r is Ok <==> is_i32_text(s@),
        r is Ok ==> r->Ok_0 == text_value(s@),
{
    s.parse::<i32>()
}

/// Relies on `str::parse::<bool>` (`bool::from_str`): only `true` and
/// `false` are accepted.
#[verifier::external_body]
pub(crate) fn parse_bool_text(s: &str) -> (r: Result<bool, ParseBoolError>)
    ensures
        r is Ok <==> is_bool_text(s@),
        r is Ok ==> (r->Ok_0 <==> s@ == "true"@),
{
    s.parse::<bool>()
}

/// Relies on `i32`'s `Display` (through `to_string`): decimal digits, with a
/// minus sign for a negative value.
#[verifier::external_body]
pub(crate) fn int_text(n: i32) -> (r: String)
    ensures
        r@ == decimal_text(n as int),
{
    n.to_string()
}

/// Reads an optional integer: nothing stays nothing, a text must be the
/// text of an `i32`.
pub fn parse_int(value: Option<&str>) -> (r: Result<Option<i32>, ParseIntError>)
    ensures
        value is None ==> r == Ok::<Option<i32>, ParseIntError>(None),
        value matches Some(v) ==> {
            &&& (r is Ok <==> is_i32_text(v@))
            &&& r is Ok ==> r->Ok_0 == Some(text_value(v@) as i32)
        },
{
    match value {
        None => Ok(None),
        Some(v) => {
            match parse_i32(v) {
                Ok(n) => Ok(Some(n)),
                Err(e) => Err(e),
            }
        },
    }
}

/// Reads an optional boolean: nothing stays nothing, a text must be `true`
/// or `false`.
pub fn parse_bool(value: Option<&str>) -> (r: Result<Option<bool>, ParseBoolError>)
    ensures
        value is None ==> r == Ok::<Option<bool>, ParseBoolError>(None),
        value matches Some(v) ==> {
            &&& (r is Ok <==> is_bool_text(v@))
            &&& r is Ok ==> r->Ok_0 == Some(v@ == "true"@)
        },
{
    match value {
        None => Ok(None),
        Some(v) => {
            match parse_bool_text(v) {
                Ok(b) => Ok(Some(b)),
                Err(e) => Err(e),
            }
        },
    }
}

proof fn lemma_digit_char(d: int)
    requires
        0 <= d < 10,
    ensures
        is_digit(digit_char(d)),
        digit_value(digit_char(d)) == d,
{
    let t = seq!['0', '1', '2', '3', '4', '5', '6', '7', '8', '9'];
    if d == 0 { assert(t[0] == '0'); } else if d == 1 { assert(t[1] == '1'); } else if d == 2 {
        assert(t[2] == '2');
    } else if d == 3 { assert(t[3] == '3'); } else if d == 4 { assert(t[4] == '4'); } else if d
        == 5 { assert(t[5] == '5'); } else if d == 6 { assert(t[6] == '6'); } else if d == 7 {
        assert(t[7] == '7');
    } else if d == 8 { assert(t[8] == '8'); } else { assert(t[9] == '9'); }
}

proof fn lemma_nat_text_digits(n: nat)
    ensures
        nat_text(n).len() > 0,
        forall|i: int| 0 <= i < nat_text(n).len() ==> is_digit(#[trigger] nat_text(n)[i]),
        nat_text(n)[0] != '-' && nat_text(n)[0] != '+',
        digits_value(nat_text(n)) == n,
    decreases n,
{
    if n >= 10 {
        lemma_nat_text_digits(n / 10);
        lemma_digit_char((n % 10) as int);
        let t = nat_text(n);
        assert(t.drop_last() =~= nat_text(n / 10));
        assert(t.last() == digit_char((n % 10) as int));
        assert(digits_value(t) == digits_value(nat_text(n / 10)) * 10 + (n % 10));
        assert((n / 10) * 10 + n % 10 == n);
    } else {
        lemma_digit_char(n as int);
        assert(nat_text(n).drop_last() =~= Seq::<char>::empty());
        assert(digits_value(Seq::<char>::empty()) == 0);
    }
}

/// Writing an `i32` in decimal and reading it back gives the same value.
pub proof fn lemma_decimal_round_trip(n: i32)
    ensures
        is_i32_text(decimal_text(n as int)),
        text_value(decimal_text(n as int)) == n,
{
    if n < 0 {
        let m = (-n) as nat;
        lemma_nat_text_digits(m);
        assert(unsigned_part(decimal_text(n as int)) =~= nat_text(m));
    } else {
        lemma_nat_text_digits(n as nat);
    }
}

} // verus!
