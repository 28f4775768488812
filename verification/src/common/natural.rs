//! Natural numbers of arbitrary size, held as base 2^32 digits. The
//! arithmetic itself is done by `num_bigint::BigUint`.
use vstd::prelude::*;
use num_bigint::BigUint;
use num_traits::Zero;
use crate::common::text::decimal_digits;

verus! {

/// The number that the little-endian base 2^32 digits `d` denote.
pub open spec fn digits_value(d: Seq<u32>) -> nat
    decreases d.len(),
{
    if d.len() == 0 {
        0
    } else {
        d[0] as nat + 4294967296 * digits_value(d.drop_first())
    }
}

/// The value of a decimal digit character.
pub open spec fn digit_value(c: char) -> nat {
    if c == '1' {
        1
    } else if c == '2' {
        2
    } else if c == '3' {
        3
    } else if c == '4' {
        4
    } else if c == '5' {
        5
    } else if c == '6' {
        6
    } else if c == '7' {
        7
    } else if c == '8' {
        8
    } else if c == '9' {
        9
    } else {
        0
    }
}

/// `c` is one of `0` to `9`.
pub open spec fn is_decimal_digit(c: char) -> bool {
    '0' <= c && c <= '9'
}

/// The number that the decimal digits `s` denote, most significant first.
pub open spec fn decimal_value(s: Seq<char>) -> nat
    decreases s.len(),
{
    if s.len() == 0 {
        0
    } else {
        decimal_value(s.drop_last()) * 10 + digit_value(s.last())
    }
}

/// `BigUint::new` on both digit vectors, `+`, and `to_u32_digits`: the digits
/// of the sum.
#[verifier::external_body]
fn big_add(a: &Vec<u32>, b: &Vec<u32>) -> (r: Vec<u32>)
    ensures
        digits_value(r@) == digits_value(a@) + digits_value(b@),
{
    (BigUint::new(a.clone()) + BigUint::new(b.clone())).to_u32_digits()
}

/// `BigUint`'s `-`, which panics on a negative difference: the digits of
/// the difference of a number and one not larger.
#[verifier::external_body]
fn big_sub(a: &Vec<u32>, b: &Vec<u32>) -> (r: Vec<u32>)
    requires
        digits_value(a@) >= digits_value(b@),
    ensures
        digits_value(r@) == digits_value(a@) - digits_value(b@),
{
    (BigUint::new(a.clone()) - BigUint::new(b.clone())).to_u32_digits()
}

/// `BigUint`'s `*`: the digits of the product.
#[verifier::external_body]
fn big_mul(a: &Vec<u32>, b: &Vec<u32>) -> (r: Vec<u32>)
    ensures
        digits_value(r@) == digits_value(a@) * digits_value(b@),
{
    (BigUint::new(a.clone()) * BigUint::new(b.clone())).to_u32_digits()
}

/// `BigUint`'s `/`, which panics on a zero divisor: the digits of the
/// quotient rounded down.
#[verifier::external_body]
fn big_div(a: &Vec<u32>, b: &Vec<u32>) -> (r: Vec<u32>)
    requires
        digits_value(b@) != 0,
    ensures
        digits_value(r@) == digits_value(a@) / digits_value(b@),
{
    (BigUint::new(a.clone()) / BigUint::new(b.clone())).to_u32_digits()
}

/// `BigUint`'s `%`, which panics on a zero divisor: the digits of the
/// remainder.
#[verifier::external_body]
fn big_rem(a: &Vec<u32>, b: &Vec<u32>) -> (r: Vec<u32>)
    requires
        digits_value(b@) != 0,
    ensures
        digits_value(r@) == digits_value(a@) % digits_value(b@),
{
    (BigUint::new(a.clone()) % BigUint::new(b.clone())).to_u32_digits()
}

/// `BigUint`'s `==` on the normalised numbers: whether the two digit vectors
/// denote the same number.
#[verifier::external_body]
fn big_eq(a: &Vec<u32>, b: &Vec<u32>) -> (r: bool)
    ensures
        r == (digits_value(a@) == digits_value(b@)),
{
    BigUint::new(a.clone()) == BigUint::new(b.clone())
}

/// `BigUint`'s `<`: whether the first number is the smaller.
#[verifier::external_body]
fn big_lt(a: &Vec<u32>, b: &Vec<u32>) -> (r: bool)
    ensures
        r == (digits_value(a@) < digits_value(b@)),
{
    BigUint::new(a.clone()) < BigUint::new(b.clone())
}

/// `num_traits::Zero::is_zero` on the normalised number.
#[verifier::external_body]
fn big_is_zero(a: &Vec<u32>) -> (r: bool)
    ensures
        r == (digits_value(a@) == 0),
{
    BigUint::new(a.clone()).is_zero()
}

/// `BigUint::parse_bytes` with radix 10 on a non-empty run of decimal digits,
/// on which it returns `Some`: the digits of the number written there.
#[verifier::external_body]
fn big_from_decimal(s: &Vec<char>) -> (r: Vec<u32>)
    requires
        s@.len() > 0,
        forall|i: int| 0 <= i < s@.len() ==> is_decimal_digit(#[trigger] s@[i]),
    ensures
        digits_value(r@) == decimal_value(s@),
{
    let text: String = s.iter().collect();
    BigUint::parse_bytes(text.as_bytes(), 10).unwrap().to_u32_digits()
}

/// `BigUint`'s `to_string`: the decimal notation without leading zeros.
#[verifier::external_body]
fn big_to_decimal(a: &Vec<u32>) -> (r: String)
    ensures
        r@ == decimal_digits(digits_value(a@)),
{
    BigUint::new(a.clone()).to_string()
}

/// A natural number of arbitrary size.
#[derive(Debug)]
pub struct Natural {
    /// Base 2^32 digits, least significant first.
    pub digits: Vec<u32>,
}

impl View for Natural {
    type V = nat;

    open spec fn view(&self) -> nat {
        digits_value(self.digits@)
    }
}

impl Clone for Natural {
    fn clone(&self) -> (r: Self)
        ensures
            r@ == self@,
    {
        let d = self.digits.clone();
        assert(d@ =~= self.digits@);
        Natural { digits: d }
    }
}

impl Natural {
    /// The number zero.
    pub fn zero() -> (r: Natural)
        ensures
            r@ == 0,
    {
        Natural { digits: Vec::new() }
    }

    /// The number `n`.
    pub fn from_u32(n: u32) -> (r: Natural)
        ensures
            r@ == n,
    {
        let mut digits: Vec<u32> = Vec::new();
        digits.push(n);
        proof {
            assert(digits@.drop_first() =~= Seq::<u32>::empty());
            reveal_with_fuel(digits_value, 2);
        }
        Natural { digits }
    }

    /// The number written in `s`, or `None` where `s` is empty or holds
    /// anything but decimal digits.
    pub fn from_decimal(s: &Vec<char>) -> (r: Option<Natural>)
        ensures
            r is Some <==> (s@.len() > 0 && forall|i: int|
                0 <= i < s@.len() ==> is_decimal_digit(#[trigger] s@[i])),
            r is Some ==> r->0@ == decimal_value(s@),
    {
        if s.len() == 0 {
            return None;
        }
        let mut i: usize = 0;
        while i < s.len()
            invariant
                i <= s.len(),
                forall|j: int| 0 <= j < i ==> is_decimal_digit(#[trigger] s@[j]),
            decreases s.len() - i,
        {
            let c = s[i];
            if !('0' <= c && c <= '9') {
                return None;
            }
            i += 1;
        }
        Some(Natural { digits: big_from_decimal(s) })
    }

    /// The decimal notation.
    pub fn to_string(&self) -> (r: String)
        ensures
            r@ == decimal_digits(self@),
    {
        big_to_decimal(&self.digits)
    }

    /// Whether the number is zero.
    pub fn is_zero(&self) -> (r: bool)
        ensures
            r == (self@ == 0),
    {
        big_is_zero(&self.digits)
    }

    /// Whether the two numbers are the same.
    pub fn equals(&self, other: &Natural) -> (r: bool)
        ensures
            r == (self@ == other@),
    {
        big_eq(&self.digits, &other.digits)
    }

    /// Whether the number is smaller than `other`.
    pub fn less_than(&self, other: &Natural) -> (r: bool)
        ensures
            r == (self@ < other@),
    {
        big_lt(&self.digits, &other.digits)
    }

    /// The sum.
    pub fn plus(&self, other: &Natural) -> (r: Natural)
        ensures
            r@ == self@ + other@,
    {
        Natural { digits: big_add(&self.digits, &other.digits) }
    }

    /// The difference, or zero where `other` is the larger.
    pub fn minus_saturating(&self, other: &Natural) -> (r: Natural)
        ensures
            r@ == if self@ < other@ {
                0
            } else {
                self@ - other@
            },
    {
        if self.less_than(other) {
            Natural::zero()
        } else {
            Natural { digits: big_sub(&self.digits, &other.digits) }
        }
    }

    /// The product.
    pub fn times(&self, other: &Natural) -> (r: Natural)
        ensures
            r@ == self@ * other@,
    {
        Natural { digits: big_mul(&self.digits, &other.digits) }
    }

    /// The quotient rounded down, or `None` for a zero divisor.
    pub fn quotient(&self, other: &Natural) -> (r: Option<Natural>)
        ensures
            r is Some <==> other@ != 0,
            r is Some ==> r->0@ == self@ / other@,
    {
        if other.is_zero() {
            None
        } else {
            Some(Natural { digits: big_div(&self.digits, &other.digits) })
        }
    }

    /// The remainder, or `None` for a zero divisor.
    pub fn remainder(&self, other: &Natural) -> (r: Option<Natural>)
        ensures
            r is Some <==> other@ != 0,
            r is Some ==> r->0@ == self@ % other@,
    {
        if other.is_zero() {
            None
        } else {
            Some(Natural { digits: big_rem(&self.digits, &other.digits) })
        }
    }
}

} // verus!
