//! Classifying a number by the first of 4, 3 and 2 that divides it.
use vstd::prelude::*;

verus! {

/// The first of 4, 3 and 2 that divides a number, if any.
#[derive(Debug, Clone, Copy, PartialEq, Eq, Structural)]
pub enum Divisibility {
    ByFour,
    ByThree,
    ByTwo,
    ByNone,
}

/// The class of `n`: 4 is tried first, then 3, then 2.
pub open spec fn divisibility_spec(n: int) -> Divisibility {
    if n % 4 == 0 {
        Divisibility::ByFour
    } else if n % 3 == 0 {
        Divisibility::ByThree
    } else if n % 2 == 0 {
        Divisibility::ByTwo
    } else {
        Divisibility::ByNone
    }
}

/// Every multiple of 4 is `ByFour` and only those; among the rest, the
/// multiples of 3 are `ByThree`; among what remains, the even numbers are
/// `ByTwo`; everything else is `ByNone`.
pub proof fn law_first_divisor(n: int)
    ensures
        divisibility_spec(n) == Divisibility::ByFour <==> n % 4 == 0,
        divisibility_spec(n) == Divisibility::ByThree <==> (n % 4 != 0 && n % 3 == 0),
        divisibility_spec(n) == Divisibility::ByTwo <==> (n % 4 != 0 && n % 3 != 0 && n % 2 == 0),
        divisibility_spec(n) == Divisibility::ByNone <==> (n % 4 != 0 && n % 3 != 0 && n % 2 != 0),
{
}

/// Classifies `number` by divisibility (see [`divisibility_spec`]).
pub fn divisibility(number: i32) -> (d: Divisibility)
    ensures
        d == divisibility_spec(number as int),
{
    if number % 4 == 0 {
        Divisibility::ByFour
    } else if number % 3 == 0 {
        Divisibility::ByThree
    } else if number % 2 == 0 {
        Divisibility::ByTwo
    } else {
        Divisibility::ByNone
    }
}

/// Whether `number` is below three.
pub fn below_three(number: i32) -> (b: bool)
    ensures
        b == (number < 3),
{
    number < 3
}

} // verus!
