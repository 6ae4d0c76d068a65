//! Basic arithmetic warm-ups.

use vstd::prelude::*;

verus! {

use crate::tag::{dec_digits, push_decimal, chars_string};

/// The product of two numbers; it must fit the machine word.
pub fn multiply(a: i32, b: i32) -> (r: i32)
    requires
        i32::MIN <= a as int * b as int <= i32::MAX,
    ensures
        r as int == a as int * b as int,
{
    a * b
}

/// The word a number gets in the counting game: multiples of three say
/// Fizz, multiples of five Buzz, multiples of both FizzBuzz, and any
/// other number its decimal digits.
pub open spec fn spec_fizz_buzz(i: int) -> Seq<char> {
    if i % 3 == 0 && i % 5 == 0 {
        "FizzBuzz"@
    } else if i % 3 == 0 {
        "Fizz"@
    } else if i % 5 == 0 {
        "Buzz"@
    } else {
        dec_digits(i)
    }
}

/// Plays one round of the counting game.
pub fn fizz_buzz(i: u32) -> (r: String)
    ensures
        r@ == spec_fizz_buzz(i as int),
{
    if i % 3 == 0 {
        if i % 5 == 0 {
            "FizzBuzz".to_owned()
        } else {
            "Fizz".to_owned()
        }
    } else if i % 5 == 0 {
        "Buzz".to_owned()
    } else {
        let mut v: Vec<char> = Vec::new();
        push_decimal(&mut v, i as usize);
        proof {
            assert(v@ =~= dec_digits(i as int));
        }
        chars_string(&v)
    }
}

} // verus!
