//! Tests for the verified course-exercise solutions.

use modmod::solutions::arith::{fizz_buzz, multiply};
use modmod::solutions::list::LinkedList;
use modmod::solutions::sorting::merge_sort;

#[test]
fn test_iter() {
    let list = LinkedList::range(0..5);

    assert_eq!(vec![0, 1, 2, 3, 4], list.to_vec())
}

#[test]
fn test_reverse() {
    let mut list = LinkedList::range(0..5);

    list.reverse();

    assert_eq!(vec![4, 3, 2, 1, 0], list.to_vec())
}

#[test]
fn test_list_sum() {
    let list = LinkedList::range(0..5);
    assert_eq!(list.sum(), 10);
    let empty = LinkedList::default();
    assert_eq!(empty.sum(), 0);
}

#[test]
fn test_sort() {
    assert_eq!(merge_sort(&[]), Vec::<i32>::new());
    assert_eq!(merge_sort(&[5]), vec![5]);
    assert_eq!(merge_sort(&[1, 2, 3]), vec![1, 2, 3]);
    assert_eq!(merge_sort(&[47, 42, 5, 1]), vec![1, 5, 42, 47]);
    assert_eq!(merge_sort(&[6, 47, 42, 5, 1, 123]), vec![1, 5, 6, 42, 47, 123]);
}

#[test]
fn it_multiplies() {
    assert!(multiply(10, 10) == 100);
    assert!(multiply(2, 2) == 4);
}

#[test]
fn fizz_buzz_rounds() {
    assert_eq!(fizz_buzz(1), "1");
    assert_eq!(fizz_buzz(3), "Fizz");
    assert_eq!(fizz_buzz(5), "Buzz");
    assert_eq!(fizz_buzz(15), "FizzBuzz");
    assert_eq!(fizz_buzz(98), "98");
}

#[test]
fn unsafe_test_iter() {
    let list = LinkedList::range(0..5);

    assert_eq!(vec![0, 1, 2, 3, 4], list.to_vec())
}

#[test]
fn unsafe_test_reverse() {
    let mut list = LinkedList::range(0..5);

    list.reverse();

    assert_eq!(vec![4, 3, 2, 1, 0], list.to_vec())
}

use modmod::solutions::expr;
use modmod::solutions::expr::eval;
use modmod::solutions::expr::Expr::{Const, Summation, Var};

#[test]
fn test_cases() {
    let x = 42;
    assert_eq!(eval(&Const(5), x), 5);
    assert_eq!(eval(&Var, x), 42);
    assert_eq!(eval(&expr::sub(Var, Const(5)), x), 37);
    assert_eq!(eval(&expr::sub(Var, Var), x), 0);
    assert_eq!(eval(&expr::add(expr::sub(Var, Const(5)), Const(5)), x), 42);
    assert_eq!(eval(&Summation(vec![Var, Const(1)]), x), 43);
}
