//! The progress estimator: a fixed-size window of recent throughput samples
//! and the projection of expected search time from the averaged rate, the
//! search-space size and the requested match count.
//!
//! The projection multiplies numbers far beyond 64 bits (the search space is
//! 16 raised to the affix length), so it is computed on `num::BigInt` behind
//! trusted wrappers, each of which states exactly what one `BigInt`
//! operation does to the integer the value holds.

use vstd::prelude::*;

use vstd::arithmetic::mul::lemma_mul_nonnegative;
use vstd::arithmetic::power::{lemma_pow_positive, pow};

verus! {

/// How many rate samples are averaged before an estimate is projected.
pub const RATE_WINDOW_SIZE: usize = 5;

/// How many sampling intervals make one second: samples are taken every
/// 100 milliseconds.
pub const SAMPLES_PER_SECOND: u64 = 10;

/// The sum of a sequence of samples.
pub open spec fn sum_of(s: Seq<u64>) -> int
    decreases s.len(),
{
    if s.len() == 0 {
        0
    } else {
        sum_of(s.drop_last()) + s.last()
    }
}

/// A rolling window of recent instantaneous rate samples.
pub struct RateWindow {
    pub samples: Vec<u64>,
}

impl RateWindow {
    pub open spec fn wf(self) -> bool {
        self.samples@.len() <= RATE_WINDOW_SIZE
    }

    pub fn new() -> (w: RateWindow)
        ensures
            w.samples@ == Seq::<u64>::empty(),
            w.wf(),
    {
        RateWindow { samples: Vec::new() }
    }

    /// The window holds as many samples as are averaged.
    pub fn is_full(&self) -> (full: bool)
        ensures
            full <==> self.samples@.len() == RATE_WINDOW_SIZE,
    {
        self.samples.len() == RATE_WINDOW_SIZE
    }

    /// Record one more rate sample.
    pub fn push_sample(&mut self, sample: u64)
        requires
            old(self).samples@.len() < RATE_WINDOW_SIZE,
        ensures
            final(self).samples@ == old(self).samples@.push(sample),
            final(self).wf(),
    {
        self.samples.push(sample);
    }

    /// The average of a full window of samples.
    pub fn average(&self) -> (avg: u64)
        requires
            self.samples@.len() == RATE_WINDOW_SIZE,
        ensures
            avg == sum_of(self.samples@) / (RATE_WINDOW_SIZE as int),
    {
        let mut acc: u128 = 0;
        let mut i: usize = 0;
        let n = self.samples.len();
        while i < n
            invariant
                0 <= i <= n,
                n == self.samples@.len() == RATE_WINDOW_SIZE,
                acc == sum_of(self.samples@.take(i as int)),
                acc <= i * (u64::MAX as int),
            decreases n - i,
        {
            proof {
                assert(self.samples@.take(i + 1).drop_last() =~= self.samples@.take(i as int));
            }
            acc = acc + self.samples[i] as u128;
            i = i + 1;
        }
        proof {
            assert(self.samples@.take(n as int) =~= self.samples@);
        }
        (acc / (RATE_WINDOW_SIZE as u128)) as u64
    }
}

/// The instantaneous rate projected to one second from two counter readings
/// taken one sampling interval (100 milliseconds) apart.
pub fn instantaneous_rate(previous: u64, current: u64) -> (rate: u64)
    requires
        previous <= current,
        SAMPLES_PER_SECOND * (current - previous) <= u64::MAX,
    ensures
        rate == SAMPLES_PER_SECOND * (current - previous),
{
    SAMPLES_PER_SECOND * (current - previous)
}

/// The integer a `num::BigInt` holds.
pub uninterp spec fn big_int_value(b: num::BigInt) -> int;

/// What `BigInt`'s decimal rendering returns for a nonnegative value.
pub uninterp spec fn decimal_digits(v: int) -> Seq<char>;

#[verifier::external_type_specification]
#[verifier::external_body]
pub struct ExBigInt(num::BigInt);

/// Relies on `<num::BigInt as From<u64>>::from`: the big integer with the
/// given value.
#[verifier::external_body]
fn big_from_u64(v: u64) -> (r: num::BigInt)
    ensures
        big_int_value(r) == v as int,
{
    num::BigInt::from(v)
}

/// Relies on `num::BigInt::pow`: exponentiation.
#[verifier::external_body]
fn big_pow(base: &num::BigInt, exponent: u32) -> (r: num::BigInt)
    ensures
        big_int_value(r) == pow(big_int_value(*base), exponent as nat),
{
    base.pow(exponent)
}

/// Relies on `<num::BigInt as core::ops::Mul>::mul`: multiplication.
#[verifier::external_body]
fn big_mul(a: num::BigInt, b: num::BigInt) -> (r: num::BigInt)
    ensures
        big_int_value(r) == big_int_value(a) * big_int_value(b),
{
    a * b
}

/// Relies on `<num::BigInt as core::ops::Div>::div`: the quotient, truncated
/// toward zero, which on nonnegative operands is the floor.  Division by
/// zero panics, so the divisor is required to be positive.
#[verifier::external_body]
fn big_div(a: num::BigInt, b: &num::BigInt) -> (r: num::BigInt)
    requires
        big_int_value(a) >= 0,
        big_int_value(*b) > 0,
    ensures
        big_int_value(r) == big_int_value(a) / big_int_value(*b),
{
    a / b
}

/// Relies on `num::BigInt::to_str_radix` with radix 10: the decimal digits
/// of the value, a function of the value alone.
#[verifier::external_body]
fn big_to_decimal(b: &num::BigInt) -> (r: String)
    requires
        big_int_value(*b) >= 0,
    ensures
        r@ == decimal_digits(big_int_value(*b)),
{
    b.to_str_radix(10)
}

/// The projected number of minutes until the requested matches are found:
/// the search space (16 to the power of the total affix length in hex
/// digits) times the requested count, divided by the guesses per minute.
pub open spec fn estimate_minutes_spec(affix_len: nat, match_count: u64, per_second: u64) -> int
    recommends
        per_second > 0,
{
    pow(16, affix_len) * match_count / (per_second * 60)
}

/// Project the expected minutes until completion from the averaged rate.
/// An observed rate of zero projects nothing.
pub fn estimate_minutes(affix_len: u32, match_count: u64, per_second: u64) -> (r: Option<String>)
    ensures
        r is Some <==> per_second > 0,
        r matches Some(s) ==> s@ == decimal_digits(
            estimate_minutes_spec(affix_len as nat, match_count, per_second),
        ),
{
    if per_second == 0 {
        return None;
    }
    let sixteen = big_from_u64(16);
    let chance = big_pow(&sixteen, affix_len);
    let numerator = big_mul(chance, big_from_u64(match_count));
    let per_minute = big_mul(big_from_u64(per_second), big_from_u64(60));
    proof {
        lemma_pow_positive(16, affix_len as nat);
        lemma_mul_nonnegative(pow(16, affix_len as nat), match_count as int);
        assert(big_int_value(per_minute) > 0);
    }
    let estimate = big_div(numerator, &per_minute);
    Some(big_to_decimal(&estimate))
}

} // verus!
