//! The plain calls of the boundary: a number, a greeting, and a line of text.

use vstd::prelude::*;
use vstd::string::StringExecFns;
use crate::text::nul_free;

verus! {

/// The sum of `x` and `y`, taken in the integers.
pub open spec fn sum_of(x: i32, y: i32) -> int {
    x + y
}

/// The sum of `x` and `y` can be held in 32 bits.
pub open spec fn sum_fits(x: i32, y: i32) -> bool {
    i32::MIN <= sum_of(x, y) <= i32::MAX
}

/// Adds two numbers whose sum can be held in 32 bits. `try_add` tests that
/// first.
pub fn add(x: i32, y: i32) -> (sum: i32)
    requires
        sum_fits(x, y),
    ensures
        sum == sum_of(x, y),
{
    x + y
}

/// Adds two numbers if their sum can be held in 32 bits, and gives nothing
/// otherwise.
pub fn try_add(x: i32, y: i32) -> (sum: Option<i32>)
    ensures
        sum is Some <==> sum_fits(x, y),
        sum matches Some(s) ==> s == sum_of(x, y),
{
    if (y > 0 && x > i32::MAX - y) || (y < 0 && x < i32::MIN - y) {
        None
    } else {
        Some(self::add(x, y))
    }
}

/// Zero is neutral on both sides, and adding it always fits.
pub proof fn lemma_add_zero(x: i32)
    ensures
        sum_fits(x, 0),
        sum_fits(0, x),
        sum_of(x, 0) == x,
        sum_of(0, x) == x,
{
}

/// The order of the two numbers does not matter, neither for the sum nor for
/// whether it fits.
pub proof fn lemma_add_commutes(x: i32, y: i32)
    ensures
        sum_fits(x, y) <==> sum_fits(y, x),
        sum_of(x, y) == sum_of(y, x),
{
}

/// Three numbers add up to the same value however they are grouped, where
/// both groupings fit at every step.
pub proof fn lemma_add_associates(x: i32, y: i32, z: i32)
    requires
        sum_fits(x, y),
        sum_fits(y, z),
        sum_fits(sum_of(x, y) as i32, z),
    ensures
        sum_fits(x, sum_of(y, z) as i32),
        sum_of(sum_of(x, y) as i32, z) == sum_of(x, sum_of(y, z) as i32),
        sum_of(sum_of(x, y) as i32, z) == x + y + z,
{
}

/// Adding the negation undoes the addition: from `x + y`, adding `-y` leads
/// back to `x`, and that second sum always fits.
pub proof fn lemma_add_negation_undoes(x: i32, y: i32)
    requires
        y != i32::MIN,
        sum_fits(x, y),
    ensures
        sum_fits(sum_of(x, y) as i32, (-y) as i32),
        sum_of(sum_of(x, y) as i32, (-y) as i32) == x,
{
}

/// Adding the same number keeps the order and the distance of two numbers.
pub proof fn lemma_add_keeps_order(x1: i32, x2: i32, y: i32)
    requires
        x1 < x2,
    ensures
        sum_of(x1, y) < sum_of(x2, y),
        sum_of(x2, y) - sum_of(x1, y) == x2 - x1,
{
}

/// The greeting that `time` returns.
pub open spec fn greeting() -> Seq<char> {
    "Es ist fünf vor Zwölf!!"@
}

/// The fixed greeting, as a borrowed view that stays valid for the whole
/// run. It holds no NUL character, so it can be handed over as owned text.
pub fn time() -> (text: &'static str)
    ensures
        text@ == greeting(),
        nul_free(text@),
{
    proof {
        reveal_strlit("Es ist fünf vor Zwölf!!");
    }
    "Es ist fünf vor Zwölf!!"
}

/// The line that greets `name`: the words `Hello, ` and then the name as it
/// was given. Printing is left to the caller.
pub fn hi(name: &str) -> (line: String)
    ensures
        line@ == "Hello, "@ + name@,
{
    let mut line = String::from_str("Hello, ");
    line.append(name);
    line
}

} // verus!
