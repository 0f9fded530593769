//! The constraint expression algebra.
//!
//! Chips state their polynomial relations over symbolic expressions: trace
//! variables, field constants, sums and products. An expression's meaning is
//! its evaluation under an assignment of field values to the trace variables,
//! and every contract about expressions is stated over that evaluation.

use vstd::prelude::*;

verus! {

use vstd::arithmetic::div_mod::lemma_mod_bound;
use crate::felt::{FIELD_ORDER, add_mod, mul_mod, spec_field_add, spec_field_mul};

/// A trace variable: one column of a chip's trace, identified by position.
#[derive(Clone, Copy, Debug, PartialEq, Eq, Hash, Structural)]
pub struct Var {
    pub index: usize,
}

/// A symbolic constraint expression over trace variables.
#[derive(Debug)]
pub enum Expr {
    /// A field constant in canonical form.
    Const(u64),
    /// A trace variable.
    Var(Var),
    /// The sum of two expressions, in the field.
    Add(Box<Expr>, Box<Expr>),
    /// The product of two expressions, in the field.
    Mul(Box<Expr>, Box<Expr>),
}

/// An assignment of canonical field values to trace variables, by position.
pub open spec fn spec_env_wf(env: Seq<int>) -> bool {
    forall|i: int| 0 <= i < env.len() ==> 0 <= #[trigger] env[i] < FIELD_ORDER
}

/// The value an assignment gives a variable; a variable beyond the
/// assignment's length reads as zero.
pub open spec fn spec_var_val(v: Var, env: Seq<int>) -> int {
    if v.index < env.len() {
        env[v.index as int]
    } else {
        0
    }
}

/// The canonical field values of an assignment given as machine words.
pub open spec fn spec_env_ints(env: Seq<u64>) -> Seq<int> {
    Seq::new(env.len(), |i: int| env[i] as int)
}

impl Expr {
    /// Every constant of a well-formed expression is in canonical form.
    pub open spec fn wf(self) -> bool
        decreases self,
    {
        match self {
            Expr::Const(c) => c < FIELD_ORDER,
            Expr::Var(_) => true,
            Expr::Add(a, b) => (*a).wf() && (*b).wf(),
            Expr::Mul(a, b) => (*a).wf() && (*b).wf(),
        }
    }

    /// The value of the expression under an assignment, reduced to canonical
    /// form at every operation.
    pub open spec fn eval(self, env: Seq<int>) -> int
        decreases self,
    {
        match self {
            Expr::Const(c) => c as int,
            Expr::Var(v) => spec_var_val(v, env),
            Expr::Add(a, b) => ((*a).eval(env) + (*b).eval(env)) % (FIELD_ORDER as int),
            Expr::Mul(a, b) => ((*a).eval(env) * (*b).eval(env)) % (FIELD_ORDER as int),
        }
    }

    /// Under a well-formed assignment, a well-formed expression evaluates to
    /// a canonical field value.
    pub proof fn lemma_eval_in_range(self, env: Seq<int>)
        requires
            self.wf(),
            spec_env_wf(env),
        ensures
            0 <= self.eval(env) < FIELD_ORDER,
        decreases self,
    {
        match self {
            Expr::Const(_) => {},
            Expr::Var(_) => {},
            Expr::Add(a, b) => {
                lemma_mod_bound((*a).eval(env) + (*b).eval(env), FIELD_ORDER as int);
            },
            Expr::Mul(a, b) => {
                lemma_mod_bound((*a).eval(env) * (*b).eval(env), FIELD_ORDER as int);
            },
        }
    }

    /// Lifts a canonical field constant into the expression algebra.
    pub fn constant(value: u64) -> (e: Expr)
        requires
            value < FIELD_ORDER,
        ensures
            e.wf(),
            forall|env: Seq<int>| #[trigger] e.eval(env) == value as int,
    {
        Expr::Const(value)
    }

    /// The additive identity of the expression algebra.
    pub fn zero() -> (e: Expr)
        ensures
            e.wf(),
            forall|env: Seq<int>| #[trigger] e.eval(env) == 0,
    {
        Expr::Const(0)
    }

    /// Lifts a trace variable into the expression algebra.
    pub fn from_var(v: Var) -> (e: Expr)
        ensures
            e.wf(),
            forall|env: Seq<int>| #[trigger] e.eval(env) == spec_var_val(v, env),
    {
        Expr::Var(v)
    }

    /// The sum of two expressions.
    pub fn add(self, other: Expr) -> (e: Expr)
        requires
            self.wf(),
            other.wf(),
        ensures
            e.wf(),
            forall|env: Seq<int>| #[trigger] e.eval(env) == spec_field_add(
                self.eval(env),
                other.eval(env),
            ),
    {
        Expr::Add(Box::new(self), Box::new(other))
    }

    /// The product of two expressions.
    pub fn mul(self, other: Expr) -> (e: Expr)
        requires
            self.wf(),
            other.wf(),
        ensures
            e.wf(),
            forall|env: Seq<int>| #[trigger] e.eval(env) == spec_field_mul(
                self.eval(env),
                other.eval(env),
            ),
    {
        Expr::Mul(Box::new(self), Box::new(other))
    }

    /// Evaluates the expression at a concrete assignment of canonical field
    /// values to trace variables.
    pub fn evaluate(&self, env: &Vec<u64>) -> (r: u64)
        requires
            self.wf(),
            forall|i: int| 0 <= i < env@.len() ==> #[trigger] env@[i] < FIELD_ORDER,
        ensures
            r as int == self.eval(spec_env_ints(env@)),
            r < FIELD_ORDER,
        decreases *self,
    {
        match self {
            Expr::Const(c) => *c,
            Expr::Var(v) => {
                if v.index < env.len() {
                    env[v.index]
                } else {
                    0
                }
            },
            Expr::Add(a, b) => {
                let x = a.evaluate(env);
                let y = b.evaluate(env);
                add_mod(x, y)
            },
            Expr::Mul(a, b) => {
                let x = a.evaluate(env);
                let y = b.evaluate(env);
                mul_mod(x, y)
            },
        }
    }
}

impl Clone for Expr {
    /// A clone is the identical expression.
    fn clone(&self) -> (r: Self)
        ensures
            r == *self,
        decreases *self,
    {
        match self {
            Expr::Const(c) => Expr::Const(*c),
            Expr::Var(v) => Expr::Var(*v),
            Expr::Add(a, b) => Expr::Add(Box::new((**a).clone()), Box::new((**b).clone())),
            Expr::Mul(a, b) => Expr::Mul(Box::new((**a).clone()), Box::new((**b).clone())),
        }
    }
}

} // verus!
