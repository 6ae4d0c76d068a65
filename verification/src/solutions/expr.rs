//! An abstract syntax tree for arithmetic expressions over one variable,
//! and its evaluator.

use vstd::prelude::*;

verus! {

/// An expression: a constant, the variable, a sum or difference of two
/// expressions, or the sum of a list of expressions.
pub enum Expr {
    Const(i64),
    Add(Box<Expr>, Box<Expr>),
    Sub(Box<Expr>, Box<Expr>),
    Var,
    Summation(Vec<Expr>),
}

/// The mathematical value of an expression at `var`.
pub open spec fn eval_spec(e: Expr, var: int) -> int
    decreases e, 0int,
{
    match e {
        Expr::Const(k) => k as int,
        Expr::Var => var,
        Expr::Add(l, r) => eval_spec(*l, var) + eval_spec(*r, var),
        Expr::Sub(l, r) => eval_spec(*l, var) - eval_spec(*r, var),
        Expr::Summation(es) => eval_sum_spec(es, var, 0),
    }
}

/// The sum of the values of `es[i..]` at `var`.
pub open spec fn eval_sum_spec(es: Vec<Expr>, var: int, i: int) -> int
    decreases es, es@.len() - i,
{
    if i < 0 || i >= es@.len() {
        0
    } else {
        eval_spec(es@[i], var) + eval_sum_spec(es, var, i + 1)
    }
}

/// Every intermediate value of the evaluation fits the machine word.
pub open spec fn eval_in_bounds(e: Expr, var: int) -> bool
    decreases e, 0int,
{
    i64::MIN <= eval_spec(e, var) <= i64::MAX && match e {
        Expr::Const(_) => true,
        Expr::Var => true,
        Expr::Add(l, r) => eval_in_bounds(*l, var) && eval_in_bounds(*r, var),
        Expr::Sub(l, r) => eval_in_bounds(*l, var) && eval_in_bounds(*r, var),
        Expr::Summation(es) => eval_sum_in_bounds(es, var, 0),
    }
}

/// Every intermediate value of summing `es[i..]` fits the machine word.
pub open spec fn eval_sum_in_bounds(es: Vec<Expr>, var: int, i: int) -> bool
    decreases es, es@.len() - i,
{
    i64::MIN <= eval_sum_spec(es, var, i) <= i64::MAX && (0 <= i < es@.len() ==> eval_in_bounds(
        es@[i],
        var,
    ) && eval_sum_in_bounds(es, var, i + 1))
}

/// Evaluates an expression at `var`; every intermediate value must fit
/// the machine word.
#[verifier::loop_isolation(false)]
pub fn eval(expr: &Expr, var: i64) -> (r: i64)
    requires
        eval_in_bounds(*expr, var as int),
    ensures
        r as int == eval_spec(*expr, var as int),
    decreases *expr, 0int,
{
    match expr {
        Expr::Const(k) => *k,
        Expr::Var => var,
        Expr::Add(lhs, rhs) => eval(lhs, var) + eval(rhs, var),
        Expr::Sub(lhs, rhs) => eval(lhs, var) - eval(rhs, var),
        Expr::Summation(exprs) => {
            let mut acc: i64 = 0;
            let mut j: usize = exprs.len();
            proof {
                assert(eval_sum_spec(*exprs, var as int, j as int) == 0);
            }
            // Summing from the tail keeps the running total aligned with
            // the suffix sums the bound speaks of.
            while j > 0
                invariant
                    j <= exprs@.len(),
                    eval_sum_in_bounds(*exprs, var as int, 0),
                    acc as int == eval_sum_spec(*exprs, var as int, j as int),
                decreases j,
            {
                proof {
                    lemma_sum_suffix_bounds(exprs, var as int, j - 1);
                }
                j -= 1;
                let v = eval(&exprs[j], var);
                acc = v + acc;
            }
            acc
        },
    }
}

proof fn lemma_sum_suffix_bounds(es: &Vec<Expr>, var: int, i: int)
    requires
        eval_sum_in_bounds(*es, var, 0),
        0 <= i < es@.len(),
    ensures
        eval_in_bounds(es@[i], var),
        eval_sum_in_bounds(*es, var, i),
        eval_sum_in_bounds(*es, var, i + 1),
    decreases i,
{
    if i == 0 {
    } else {
        lemma_sum_suffix_bounds(es, var, i - 1);
    }
}

/// A sum of two expressions.
pub fn add(x: Expr, y: Expr) -> (r: Expr)
    ensures
        r == Expr::Add(Box::new(x), Box::new(y)),
{
    Expr::Add(Box::new(x), Box::new(y))
}

/// A difference of two expressions.
pub fn sub(x: Expr, y: Expr) -> (r: Expr)
    ensures
        r == Expr::Sub(Box::new(x), Box::new(y)),
{
    Expr::Sub(Box::new(x), Box::new(y))
}

} // verus!
