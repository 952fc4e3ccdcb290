//! Damped springs that animate one number each.
use crate::scalar::{Scalar, SIGN, ZERO};
use vstd::prelude::*;

verus! {

/// A number on its way, and how fast it moves.
#[derive(Clone, Copy, Debug, PartialEq, Eq, Structural)]
pub struct Spring {
    pub value: Scalar,
    pub velocity: Scalar,
}

/// Everything that one integration step of a spring depends on:
///
/// ```text
/// velocity' = velocity + (stiffness * (target - value) - damping * velocity) * dt
/// value'    = value + velocity' * dt
/// ```
#[derive(Clone, Copy, Debug, PartialEq, Eq, Structural)]
pub struct SpringStep {
    pub from: Spring,
    pub target: Scalar,
    pub dt: Scalar,
    pub stiffness: Scalar,
    pub damping: Scalar,
}

/// How close to its target, and how slow, a spring has to be to count as at rest.
#[derive(Clone, Copy, Debug, PartialEq, Eq, Structural)]
pub struct Tolerance {
    pub distance: Scalar,
    pub speed: Scalar,
}

/// Whether a number can only scale another one, and keeps its sign.
pub open spec fn is_factor(x: Scalar) -> bool {
    x.is_finite() && !x.is_negative()
}

/// The number with a zero made positive, as adding a positive zero makes it.
pub open spec fn plus_zero(x: Scalar) -> Scalar {
    if x.equals(Scalar { bits: ZERO }) {
        Scalar { bits: ZERO }
    } else {
        x
    }
}

impl SpringStep {
    /// Whether the spring stands still at its target, so that every product in
    /// the step is a zero.
    pub open spec fn is_at_rest(self) -> bool {
        &&& self.from.value.is_finite()
        &&& self.from.value.equals(self.target)
        &&& self.from.velocity.equals(Scalar { bits: ZERO })
        &&& is_factor(self.dt)
        &&& is_factor(self.stiffness)
        &&& is_factor(self.damping)
    }

    /// Where the step leads, if the arithmetic says `next`. A spring at rest stays
    /// where it is.
    pub open spec fn landing(self, next: Spring) -> Spring {
        if self.is_at_rest() {
            Spring::still(plus_zero(self.from.value))
        } else {
            next
        }
    }

    /// Takes in where the arithmetic of the step has led.
    pub fn land(&self, next: Spring) -> (r: Spring)
        ensures
            r == self.landing(next),
    {
        let zero: Scalar = Scalar { bits: ZERO };
        let rest: bool = self.from.value.finite() && self.from.value.same_number(self.target)
            && self.from.velocity.same_number(zero) && scales(self.dt) && scales(self.stiffness) && scales(
            self.damping,
        );
        if rest {
            if self.from.value.same_number(zero) {
                Spring::new(zero)
            } else {
                Spring::new(self.from.value)
            }
        } else {
            next
        }
    }
}

fn scales(x: Scalar) -> (r: bool)
    ensures
        r == is_factor(x),
{
    x.finite() && x.bits < SIGN
}

impl Spring {
    /// A spring that stands still at `value`.
    pub open spec fn still(value: Scalar) -> Spring {
        Spring { value, velocity: Scalar { bits: ZERO } }
    }

    /// Whether a spring that is `offset` away from its target is at rest there.
    pub open spec fn at_rest(self, offset: Scalar, tolerance: Tolerance) -> bool {
        &&& offset.absolute().less(tolerance.distance)
        &&& self.velocity.absolute().less(tolerance.speed)
    }

    pub fn new(value: Scalar) -> (r: Spring)
        ensures
            r == Spring::still(value),
    {
        Spring { value, velocity: Scalar { bits: ZERO } }
    }

    /// Jumps to `value` and stops there.
    pub fn snap(&mut self, value: Scalar)
        ensures
            *final(self) == Spring::still(value),
    {
        self.value = value;
        self.velocity = Scalar { bits: ZERO };
    }

    /// Whether the spring has come to rest; `offset` is its value less its target.
    pub fn settled(&self, offset: Scalar, tolerance: Tolerance) -> (r: bool)
        ensures
            r == self.at_rest(offset, tolerance),
    {
        offset.abs().lt(tolerance.distance) && self.velocity.abs().lt(tolerance.speed)
    }
}

} // verus!
