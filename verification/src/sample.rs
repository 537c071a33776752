//! What the arithmetic of a sample type is known to do.
//!
//! The signal functions of this crate work on any sample type that has the operators they use.
//! Nothing is assumed of what those operators compute: an operator of a floating-point type need
//! not give the same result twice, so each is described as a relation between its operands and
//! a result that it may give. The contracts of the signal functions are stated over these
//! relations.
//!
//! The functions do ask that the operators they use can be applied to any operands, as those of
//! the floating-point types can, which give infinities and NaN where integers would fail.

use vstd::prelude::*;
use core::ops::{Add, Div, Mul, Neg, Sub};

verus! {

/// `zero` is a value that `T::default()` may give: the silent sample, which is zero for the
/// numeric types.
pub open spec fn is_silence<T: Default>(zero: T) -> bool {
    call_ensures(T::default, (), zero)
}

/// `sum` is a value that `x + y` may give.
pub open spec fn adds_to<T: Add<Output = T>>(x: T, y: T, sum: T) -> bool {
    call_ensures(T::add, (x, y), sum)
}

/// `difference` is a value that `x - y` may give.
pub open spec fn subtracts_to<T: Sub<Output = T>>(x: T, y: T, difference: T) -> bool {
    call_ensures(T::sub, (x, y), difference)
}

/// `product` is a value that `x * y` may give.
pub open spec fn multiplies_to<T: Mul<Output = T>>(x: T, y: T, product: T) -> bool {
    call_ensures(T::mul, (x, y), product)
}

/// `quotient` is a value that `x / y` may give.
pub open spec fn divides_to<T: Div<Output = T>>(x: T, y: T, quotient: T) -> bool {
    call_ensures(T::div, (x, y), quotient)
}

/// `negated` is a value that `-x` may give.
pub open spec fn negates_to<T: Neg<Output = T>>(x: T, negated: T) -> bool {
    call_ensures(T::neg, (x,), negated)
}

/// `answer` is a value that `x > y` may give.
pub open spec fn exceeds<T: PartialOrd>(x: T, y: T, answer: bool) -> bool {
    call_ensures(T::gt, (&x, &y), answer)
}

/// `answer` is a value that `x < y` may give.
pub open spec fn falls_below<T: PartialOrd>(x: T, y: T, answer: bool) -> bool {
    call_ensures(T::lt, (&x, &y), answer)
}

/// Any two samples can be added: `+` accepts every pair of operands.
pub open spec fn always_adds<T: Add<Output = T>>() -> bool {
    forall|x: T, y: T| #[trigger] call_requires(T::add, (x, y))
}

/// Any two samples can be subtracted.
pub open spec fn always_subtracts<T: Sub<Output = T>>() -> bool {
    forall|x: T, y: T| #[trigger] call_requires(T::sub, (x, y))
}

/// Any two samples can be multiplied.
pub open spec fn always_multiplies<T: Mul<Output = T>>() -> bool {
    forall|x: T, y: T| #[trigger] call_requires(T::mul, (x, y))
}

/// Any sample can be divided by any other, zero included.
pub open spec fn always_divides<T: Div<Output = T>>() -> bool {
    forall|x: T, y: T| #[trigger] call_requires(T::div, (x, y))
}

/// Any sample can be negated.
pub open spec fn always_negates<T: Neg<Output = T>>() -> bool {
    forall|x: T| #[trigger] call_requires(T::neg, (x,))
}

} // verus!
