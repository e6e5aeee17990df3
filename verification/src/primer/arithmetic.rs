//! Sums, differences and counting loops on `i32`.

use vstd::prelude::*;

verus! {

/// What `calculate_something` computes: the difference where the first
/// number is the greater, the sum where it is not.
pub open spec fn calculate_something_spec(x: int, y: int) -> int {
    if x > y {
        x - y
    } else {
        x + y
    }
}

/// The difference of `x` and `y` where `x` is the greater, their sum where
/// it is not.
pub fn calculate_something(x: i32, y: i32) -> (r: i32)
    requires
        i32::MIN <= calculate_something_spec(x as int, y as int) <= i32::MAX,
    ensures
        r == calculate_something_spec(x as int, y as int),
{
    if x > y {
        return x - y;
    }
    x + y
}

/// The sum of `a` and `b`.
pub fn add(a: i32, b: i32) -> (sum: i32)
    requires
        i32::MIN <= a + b <= i32::MAX,
    ensures
        sum == a + b,
{
    a + b
}

/// Counts up from zero while the count is below `i`, and returns the count:
/// `i` itself, or zero where `i` is negative.
pub fn whileing_function(i: i32) -> (a: i32)
    ensures
        a == if i > 0 {
            i
        } else {
            0
        },
{
    let mut a: i32 = 0;
    while a < i
        invariant
            0 <= a,
            i > 0 ==> a <= i,
            i <= 0 ==> a == 0,
        decreases i - a,
    {
        a += 1;
    }
    a
}

/// Counts up from zero until the count is `i`, and returns the count.
pub fn looping_function(i: i32) -> (a: i32)
    requires
        i >= 0,
    ensures
        a == i,
{
    let mut a: i32 = 0;
    loop
        invariant
            0 <= a <= i,
        ensures
            a == i,
        decreases i - a,
    {
        if a == i {
            break ;
        }
        a += 1;
    }
    a
}

} // verus!
