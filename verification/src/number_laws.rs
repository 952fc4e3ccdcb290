//! What the operations on numbers and springs do, told by the bits.
use crate::scalar::Scalar;
use crate::spring::{Spring, SpringStep, Tolerance};
use vstd::arithmetic::power2::{lemma2_to64, lemma_pow2_unfold, pow2};
use vstd::prelude::*;

verus! {

/// The bits below the sign.
pub open spec fn size_bits(x: Scalar) -> int {
    if x.bits >= 0x8000_0000 {
        x.bits - 0x8000_0000
    } else {
        x.bits as int
    }
}

/// The bits below the sign, counted down from zero where the sign is set. Of two
/// patterns that are numbers, the one with the larger count is the larger number.
pub open spec fn signed_bits(x: Scalar) -> int {
    if x.bits >= 0x8000_0000 {
        0x8000_0000 - x.bits
    } else {
        x.bits as int
    }
}

/// Whether a pattern is a number: all that lies past infinity is not.
pub open spec fn is_number(x: Scalar) -> bool {
    size_bits(x) <= 0x7f80_0000
}

/// From one number to the next the value grows by one unit up to the second
/// binade and by twice as much in each one after, a set sign turns it over, and
/// nothing starts at nothing.
pub proof fn lemma_units_count_up(b: u32)
    requires
        b < 0x7f80_0000,
    ensures
        (Scalar { bits: 0 }).units() == 0,
        (Scalar { bits: (b + 1) as u32 }).units() - (Scalar { bits: b }).units() == pow2(
            (if b < 0x0100_0000 {
                0
            } else {
                b / 0x0080_0000 - 1
            }) as nat,
        ),
        (Scalar { bits: (b + 0x8000_0000) as u32 }).units() == -(Scalar { bits: b }).units(),
{
    lemma2_to64();
    let unit = 0x0080_0000int;
    let e = b as int / unit;
    let f = b as int % unit;
    let n = b as int + 1;
    if f < unit - 1 {
        assert(n / unit == e && n % unit == f + 1);
        if e > 0 {
            let p = pow2((e - 1) as nat);
            assert((unit + f + 1) * p - (unit + f) * p == p) by (nonlinear_arith);
        }
    } else {
        assert(n / unit == e + 1 && n % unit == 0);
        if e > 0 {
            let p = pow2((e - 1) as nat);
            lemma_pow2_unfold(e as nat);
            assert(unit * (2 * p) - (unit + f) * p == p) by (nonlinear_arith)
                requires
                    f == unit - 1,
            ;
        }
    }
}

/// The order of numbers is that of their signed bits.
pub proof fn lemma_less_by_bits(a: Scalar, b: Scalar)
    ensures
        a.less(b) <==> is_number(a) && is_number(b) && signed_bits(a) < signed_bits(b),
{
    lemma_units_by_size(a, b);
}

/// Two patterns are the same number where their signed bits are.
pub proof fn lemma_equals_by_bits(a: Scalar, b: Scalar)
    ensures
        a.equals(b) <==> is_number(a) && is_number(b) && signed_bits(a) == signed_bits(b),
{
    lemma_units_by_size(a, b);
}

proof fn lemma_units_by_size(a: Scalar, b: Scalar)
    ensures
        signed_bits(a) < signed_bits(b) ==> a.units() < b.units(),
        signed_bits(b) < signed_bits(a) ==> b.units() < a.units(),
        signed_bits(a) == signed_bits(b) ==> a.units() == b.units(),
{
    crate::scalar::lemma_units_follow_magnitude(size_bits(a), size_bits(b));
    crate::scalar::lemma_units_follow_magnitude(size_bits(b), size_bits(a));
    crate::scalar::lemma_units_follow_magnitude(0, size_bits(a));
    crate::scalar::lemma_units_follow_magnitude(0, size_bits(b));
}

/// `lt` tells which of two numbers is the smaller, and of what is no number, that
/// it is not.
pub proof fn lemma_lt_orders(a: Scalar, b: Scalar, r: bool)
    requires
        call_ensures(Scalar::lt, (a, b), r),
    ensures
        r <==> is_number(a) && is_number(b) && signed_bits(a) < signed_bits(b),
{
    lemma_less_by_bits(a, b);
}

/// `same_number` holds of equal patterns and of the two zeros.
pub proof fn lemma_same_number_compares(a: Scalar, b: Scalar, r: bool)
    requires
        call_ensures(Scalar::same_number, (a, b), r),
    ensures
        r <==> is_number(a) && is_number(b) && (a.bits == b.bits || size_bits(a) == 0 && size_bits(
            b,
        ) == 0),
{
    lemma_equals_by_bits(a, b);
}

/// `finite` holds of all that lies before infinity on either side.
pub proof fn lemma_finite_excludes_infinity(a: Scalar, r: bool)
    requires
        call_ensures(Scalar::finite, (a,), r),
    ensures
        r <==> size_bits(a) < 0x7f80_0000,
{
}

/// `abs` clears the sign and leaves the other bits.
pub proof fn lemma_abs_clears_sign(a: Scalar, r: Scalar)
    requires
        call_ensures(Scalar::abs, (a,), r),
    ensures
        r.bits == size_bits(a),
{
}

/// `clamp` moves a number below the interval to its low end and one above to its
/// high end, and leaves every other pattern as it is.
pub proof fn lemma_clamp_moves_to_the_ends(x: Scalar, low: Scalar, high: Scalar, r: Scalar)
    requires
        call_ensures(Scalar::clamp, (x, low, high), r),
        is_number(low),
        is_number(high),
        signed_bits(low) <= signed_bits(high),
    ensures
        is_number(x) && signed_bits(x) < signed_bits(low) ==> r == low,
        is_number(x) && signed_bits(x) > signed_bits(high) ==> r == high,
        is_number(x) && signed_bits(low) <= signed_bits(x) <= signed_bits(high) ==> r == x,
        !is_number(x) ==> r == x,
{
    lemma_clamped_by_bits(x, low, high);
}

/// The same of the value that `clamp` is stated over.
pub proof fn lemma_clamped_by_bits(x: Scalar, low: Scalar, high: Scalar)
    requires
        is_number(low),
        is_number(high),
        signed_bits(low) <= signed_bits(high),
    ensures
        is_number(x) && signed_bits(x) < signed_bits(low) ==> x.clamped(low, high) == low,
        is_number(x) && signed_bits(x) > signed_bits(high) ==> x.clamped(low, high) == high,
        is_number(x) && signed_bits(low) <= signed_bits(x) <= signed_bits(high) ==> x.clamped(
            low,
            high,
        ) == x,
        !is_number(x) ==> x.clamped(low, high) == x,
{
    lemma_less_by_bits(x, low);
    lemma_less_by_bits(high, x);
}

/// A new spring stands at the value given, and does not move.
pub proof fn lemma_new_spring_is_still(value: Scalar, r: Spring)
    requires
        call_ensures(Spring::new, (value,), r),
    ensures
        r.value == value,
        r.velocity.bits == 0,
{
}

/// A snapped spring stands at the value given, wherever it was.
pub proof fn lemma_snap_stops(spring: &mut Spring, value: Scalar)
    requires
        call_ensures(Spring::snap, (spring, value), ()),
    ensures
        final(spring).value == value,
        final(spring).velocity.bits == 0,
{
}

/// A spring has settled where both its offset and its velocity, without their
/// signs, are below their limits.
pub proof fn lemma_settled_needs_both(
    spring: Spring,
    offset: Scalar,
    tolerance: Tolerance,
    r: bool,
)
    requires
        call_ensures(Spring::settled, (&spring, offset, tolerance), r),
    ensures
        r <==> is_within(offset, tolerance.distance) && is_within(spring.velocity, tolerance.speed),
{
    lemma_at_rest_by_bits(spring, offset, tolerance);
}

/// Whether a number, without its sign, is below a limit.
pub open spec fn is_within(x: Scalar, limit: Scalar) -> bool {
    is_number(x) && is_number(limit) && size_bits(x) < signed_bits(limit)
}

/// The same of the condition that `settled` is stated over.
pub proof fn lemma_at_rest_by_bits(spring: Spring, offset: Scalar, tolerance: Tolerance)
    ensures
        spring.at_rest(offset, tolerance) <==> is_within(offset, tolerance.distance) && is_within(
            spring.velocity,
            tolerance.speed,
        ),
{
    lemma_less_by_bits(offset.absolute(), tolerance.distance);
    lemma_less_by_bits(spring.velocity.absolute(), tolerance.speed);
}

/// Whether every product in a step is a zero: a finite value at its target, no
/// velocity, and factors that are finite and not negative.
pub open spec fn step_is_void(step: SpringStep) -> bool {
    &&& size_bits(step.from.value) < 0x7f80_0000
    &&& signed_bits(step.from.value) == signed_bits(step.target)
    &&& size_bits(step.from.velocity) == 0
    &&& step.dt.bits < 0x7f80_0000
    &&& step.stiffness.bits < 0x7f80_0000
    &&& step.damping.bits < 0x7f80_0000
}

/// The same of the condition that landing is stated over.
pub proof fn lemma_step_is_void_by_bits(step: SpringStep)
    ensures
        step.is_at_rest() <==> step_is_void(step),
{
    lemma_equals_by_bits(step.from.value, step.target);
    lemma_equals_by_bits(step.from.velocity, Scalar { bits: 0 });
}

/// Whether a spring has come to `after` by a step whose arithmetic says `next`: it
/// is there, unless the step is void, which leaves a spring where it was with no
/// velocity and no sign on a zero.
pub open spec fn has_landed(step: SpringStep, next: Spring, after: Spring) -> bool {
    if step_is_void(step) {
        &&& after.velocity.bits == 0
        &&& after.value.bits == (if size_bits(step.from.value) == 0 {
            0
        } else {
            step.from.value.bits as int
        })
    } else {
        after == next
    }
}

/// A step leads where its arithmetic says, unless it is void.
pub proof fn lemma_land_takes_the_result(step: SpringStep, next: Spring, r: Spring)
    requires
        call_ensures(SpringStep::land, (&step, next), r),
    ensures
        has_landed(step, next, r),
{
    lemma_landing_by_bits(step, next);
}

/// The same of the value that landing is stated over.
pub proof fn lemma_landing_by_bits(step: SpringStep, next: Spring)
    ensures
        has_landed(step, next, step.landing(next)),
{
    lemma_step_is_void_by_bits(step);
    lemma_equals_by_bits(step.from.value, Scalar { bits: 0 });
}

} // verus!
