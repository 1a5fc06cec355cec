//! Numbers of any size: what the `num` crate is trusted to do.

use vstd::prelude::*;
use vstd::arithmetic::power::pow;
use crate::radix::digit_value;

verus! {

/// `num::BigInt`, an integer of any size; nothing inside it is seen here.
#[verifier::external_type_specification]
#[verifier::external_body]
pub struct ExBigInt(num::BigInt);

/// `num::bigint::ParseBigIntError`, why a text is no integer.
#[verifier::external_type_specification]
#[verifier::external_body]
pub struct ExParseBigIntError(num::bigint::ParseBigIntError);

/// `num::rational::Ratio`, a fraction; `num::BigRational` is the ratio of two
/// `BigInt`s. Nothing inside it is seen here.
#[verifier::external_type_specification]
#[verifier::external_body]
#[verifier::reject_recursive_types(T)]
pub struct ExRatio<T>(num::rational::Ratio<T>);

/// `num::rational::ParseRatioError`, why a text is no fraction.
#[verifier::external_type_specification]
#[verifier::external_body]
pub struct ExParseRatioError(num::rational::ParseRatioError);

/// The integer that a `BigInt` holds.
pub uninterp spec fn bigint_value(n: num::BigInt) -> int;

/// The numerator and the denominator of the fraction that a `BigRational`
/// holds.
pub uninterp spec fn ratio_value(q: num::BigRational) -> (int, int);

/// What `BigInt::from_str_radix` reads from `text` in base `radix`: an
/// integer, or nothing where it rejects the text.
pub uninterp spec fn parsed_integer(text: Seq<char>, radix: int) -> Option<int>;

/// What `BigRational::from_str` reads from `text`: a fraction, or nothing
/// where it rejects the text.
pub uninterp spec fn parsed_ratio(text: Seq<char>) -> Option<(int, int)>;

/// Whether `text` is a run of digits of base `radix` with underscores
/// between or after them: it is not empty, it does not begin with an
/// underscore, and each of its characters is an underscore or a digit of the
/// base.
pub open spec fn is_digits(text: Seq<char>, radix: int) -> bool {
    &&& text.len() > 0
    &&& text[0] != '_'
    &&& forall|i: int|
        0 <= i < text.len() ==> #[trigger] text[i] == '_' || (digit_value(text[i]) matches Some(d)
            && d < radix)
}

/// The number that the digits of `text` write in base `radix`, the
/// underscores left out.
pub open spec fn digits_number(text: Seq<char>, radix: int) -> int
    decreases text.len(),
{
    if text.len() == 0 {
        0
    } else if text.last() == '_' {
        digits_number(text.drop_last(), radix)
    } else {
        digits_number(text.drop_last(), radix) * radix + digit_value(text.last()).unwrap()
    }
}

/// `BigInt::from_str_radix` of `num`. Trusted: what it reads depends on the
/// text and the base alone; and, as its source shows, it accepts a run of
/// digits of the base with underscores between or after them and gives the
/// number that the digits write.
#[verifier::external_body]
pub(crate) fn bigint_from_str_radix(text: &str, radix: u32) -> (r: Result<
    num::BigInt,
    num::bigint::ParseBigIntError,
>)
    requires
        2 <= radix <= 36,
    ensures
        match r {
            Ok(n) => parsed_integer(text@, radix as int) == Some(bigint_value(n)),
            Err(_) => parsed_integer(text@, radix as int) is None,
        },
        r is Err ==> !is_digits(text@, radix as int),
        r matches Ok(n) ==> (is_digits(text@, radix as int) ==> bigint_value(n) == digits_number(
            text@,
            radix as int,
        )),
{
    <num::BigInt as num::Num>::from_str_radix(text, radix)
}

/// `BigInt::from` of `num` for an `i32`. Trusted: the result holds the same
/// number.
#[verifier::external_body]
pub(crate) fn bigint_from_i32(n: i32) -> (r: num::BigInt)
    ensures
        bigint_value(r) == n,
{
    num::BigInt::from(n)
}

/// `BigInt::pow` of `num`. Trusted: the result holds the base raised to the
/// exponent.
#[verifier::external_body]
pub(crate) fn bigint_pow(base: &num::BigInt, exponent: u32) -> (r: num::BigInt)
    ensures
        bigint_value(r) == pow(bigint_value(*base), exponent as nat),
{
    base.pow(exponent)
}

/// The product of two `BigInt`s of `num`. Trusted: the result holds the
/// product of the two numbers.
#[verifier::external_body]
pub(crate) fn bigint_mul(a: &num::BigInt, b: &num::BigInt) -> (r: num::BigInt)
    ensures
        bigint_value(r) == bigint_value(*a) * bigint_value(*b),
{
    a * b
}

/// `BigRational::from_str` of `num`. Trusted: what it reads depends on the
/// text alone.
#[verifier::external_body]
pub(crate) fn ratio_from_str(text: &str) -> (r: Result<
    num::BigRational,
    num::rational::ParseRatioError,
>)
    ensures
        match r {
            Ok(q) => parsed_ratio(text@) == Some(ratio_value(q)),
            Err(_) => parsed_ratio(text@) is None,
        },
{
    text.parse::<num::BigRational>()
}

/// Why a literal has no value.
#[derive(Debug, Clone, Copy, PartialEq, Eq, Structural)]
pub enum NumberError {
    /// The text is not a number of the expected form.
    Malformed,
    /// The exponent is larger than `u32::MAX`.
    ExponentTooLarge,
}

} // verus!
