//! The word codec: a 32-bit machine value represented as four little-endian
//! byte limbs.
//!
//! A `Word<T>` is the shape every chip uses for 32-bit quantities. The limb
//! type `T` is a concrete field element (`Felt`) for witness values and a
//! symbolic expression (`Expr`) for constrained quantities; both share the
//! same packing rules.

use vstd::prelude::*;

verus! {

use vstd::arithmetic::div_mod::{
    lemma_add_mod_noop, lemma_fundamental_div_mod, lemma_mod_bound, lemma_small_mod,
};
use crate::expr::{Expr, Var, spec_env_wf, spec_var_val};
use crate::felt::{Felt, FIELD_ORDER, spec_field_add, spec_field_mul};

/// The size of a word in bytes.
pub const WORD_SIZE: usize = 4;

/// A word is a 32-bit value represented in an AIR: four limbs, little-endian,
/// each standing for one byte.
#[derive(Clone, Copy, Debug, PartialEq, Eq, Hash)]
pub struct Word<T>(pub T, pub T, pub T, pub T);

impl<T> View for Word<T> {
    type V = Seq<T>;

    open spec fn view(&self) -> Seq<T> {
        seq![self.0, self.1, self.2, self.3]
    }
}

/// The little-endian byte decomposition of a 32-bit value.
pub open spec fn spec_le_bytes(value: u32) -> Seq<int> {
    seq![
        value as int % 256,
        (value as int / 256) % 256,
        (value as int / 256 / 256) % 256,
        (value as int / 256 / 256 / 256) % 256,
    ]
}

/// The positional recombination of four byte limbs: the weighted sum with the
/// exact powers of 256 as weights.
pub open spec fn spec_recombine(bytes: Seq<int>) -> int
    recommends
        bytes.len() == 4,
{
    bytes[0] + 256 * bytes[1] + 65536 * bytes[2] + 16777216 * bytes[3]
}

/// The canonical representatives of a sequence of field elements.
pub open spec fn spec_limb_ints(limbs: Seq<Felt>) -> Seq<int> {
    Seq::new(limbs.len(), |i: int| limbs[i]@)
}

impl<T> Word<T> {
    /// Applies `f` to each element of the word, preserving its shape.
    pub fn map<S, F: Fn(T) -> S>(self, f: F) -> (w: Word<S>)
        requires
            forall|i: int| 0 <= i < 4 ==> call_requires(f, (self@[i],)),
        ensures
            w@.len() == 4,
            forall|i: int| 0 <= i < 4 ==> call_ensures(f, (self@[i],), #[trigger] w@[i]),
    {
        proof {
            assert(call_requires(f, (self@[0],)));
            assert(call_requires(f, (self@[1],)));
            assert(call_requires(f, (self@[2],)));
            assert(call_requires(f, (self@[3],)));
        }
        let r0 = f(self.0);
        let r1 = f(self.1);
        let r2 = f(self.2);
        let r3 = f(self.3);
        let w = Word(r0, r1, r2, r3);
        proof {
            assert forall|i: int| 0 <= i < 4 implies call_ensures(
                f,
                (self@[i],),
                #[trigger] w@[i],
            ) by {
                if i == 0 {
                    assert(w@[0] == r0);
                } else if i == 1 {
                    assert(w@[1] == r1);
                } else if i == 2 {
                    assert(w@[2] == r2);
                } else {
                    assert(w@[3] == r3);
                }
            }
        }
        w
    }

    /// Collects the first four limbs of `limbs` into a word, in order; any
    /// further elements are ignored. Fewer than four limbs is a caller error.
    pub fn from_limbs(limbs: Vec<T>) -> (w: Word<T>)
        requires
            limbs@.len() >= 4,
        ensures
            w@ =~= limbs@.subrange(0, 4),
    {
        let mut rest = limbs;
        let a = rest.remove(0);
        let b = rest.remove(0);
        let c = rest.remove(0);
        let d = rest.remove(0);
        Word(a, b, c, d)
    }

    /// The limb at `index`; positions run `0..4`, out-of-range access is a
    /// caller error.
    pub fn limb(&self, index: usize) -> (r: &T)
        requires
            index < 4,
        ensures
            *r == self@[index as int],
    {
        match index {
            0 => &self.0,
            1 => &self.1,
            2 => &self.2,
            _ => &self.3,
        }
    }

    /// The limbs of the word as a sequence, in order.
    pub fn into_limbs(self) -> (r: Vec<T>)
        ensures
            r@ =~= self@,
    {
        let mut limbs: Vec<T> = Vec::new();
        limbs.push(self.0);
        limbs.push(self.1);
        limbs.push(self.2);
        limbs.push(self.3);
        limbs
    }

    /// Replaces the limb at `index`; positions run `0..4`, out-of-range
    /// access is a caller error.
    pub fn set_limb(&mut self, index: usize, value: T)
        requires
            index < 4,
        ensures
            final(self)@ =~= old(self)@.update(index as int, value),
    {
        match index {
            0 => self.0 = value,
            1 => self.1 = value,
            2 => self.2 = value,
            _ => self.3 = value,
        }
    }
}

impl Word<Felt> {
    /// Decomposes `value` into four little-endian bytes and lifts each into
    /// the field through the canonical byte embedding. Total: every `u32`
    /// decomposes into exactly four bytes.
    pub fn from_u32(value: u32) -> (w: Word<Felt>)
        ensures
            spec_limb_ints(w@) =~= spec_le_bytes(value),
    {
        let b0 = (value % 256) as u8;
        let b1 = ((value / 256) % 256) as u8;
        let b2 = ((value / 256 / 256) % 256) as u8;
        let b3 = ((value / 256 / 256 / 256) % 256) as u8;
        Word(
            Felt::from_canonical_u8(b0),
            Felt::from_canonical_u8(b1),
            Felt::from_canonical_u8(b2),
            Felt::from_canonical_u8(b3),
        )
    }

    /// Converts the word back to a `u32`. Every limb must be the canonical
    /// embedding of a byte; that is enforced upstream by range-checking
    /// chips, and a word that breaks it is a caller error here.
    pub fn to_u32(&self) -> (value: u32)
        requires
            forall|i: int| 0 <= i < 4 ==> 0 <= #[trigger] spec_limb_ints(self@)[i] < 256,
        ensures
            value as int == spec_recombine(spec_limb_ints(self@)),
    {
        proof {
            lemma_limb_int_views(*self);
        }
        let b0 = self.0.as_canonical_u64();
        let b1 = self.1.as_canonical_u64();
        let b2 = self.2.as_canonical_u64();
        let b3 = self.3.as_canonical_u64();
        (b0 + 256 * b1 + 65536 * b2 + 16777216 * b3) as u32
    }

    /// Converts the word back to a `u32`, reporting a malformed word — one
    /// with a limb that embeds no byte — instead of requiring the caller to
    /// rule it out.
    pub fn try_to_u32(&self) -> (r: Option<u32>)
        ensures
            r is Some <==> (forall|i: int|
                0 <= i < 4 ==> 0 <= #[trigger] spec_limb_ints(self@)[i] < 256),
            r matches Some(value) ==> value as int == spec_recombine(spec_limb_ints(self@)),
    {
        proof {
            lemma_limb_int_views(*self);
        }
        let b0 = self.0.as_canonical_u64();
        let b1 = self.1.as_canonical_u64();
        let b2 = self.2.as_canonical_u64();
        let b3 = self.3.as_canonical_u64();
        if b0 < 256 && b1 < 256 && b2 < 256 && b3 < 256 {
            proof {
                assert forall|i: int| 0 <= i < 4 implies 0 <= #[trigger] spec_limb_ints(
                    self@,
                )[i] < 256 by {
                    assert(self@[i] == if i == 0 {
                        self.0
                    } else if i == 1 {
                        self.1
                    } else if i == 2 {
                        self.2
                    } else {
                        self.3
                    });
                }
            }
            Some(self.to_u32())
        } else {
            None
        }
    }

    /// Reduces the word to a single field element: the weighted sum of its
    /// limbs with weights `1, 256, 65536, 16777216`, computed in the field.
    pub fn reduce(&self) -> (r: Felt)
        ensures
            r@ == spec_recombine(spec_limb_ints(self@)) % (FIELD_ORDER as int),
    {
        let t0 = Felt::from_canonical_u32(1).mul(self.0);
        let t1 = Felt::from_canonical_u32(256).mul(self.1);
        let t2 = Felt::from_canonical_u32(65536).mul(self.2);
        let t3 = Felt::from_canonical_u32(16777216).mul(self.3);
        let r = t0.add(t1).add(t2).add(t3);
        proof {
            lemma_limb_weighted_sum_mod(self.0@, self.1@, self.2@, self.3@);
            assert(spec_limb_ints(self@) =~= seq![self.0@, self.1@, self.2@, self.3@]);
        }
        r
    }
}

/// Every word has exactly four limbs, whatever its limb type and however it
/// was built; the element-wise operations preserve this by returning words
/// again.
pub proof fn lemma_word_shape<T>(w: Word<T>)
    ensures
        w@.len() == 4,
{
}

/// A word of expressions is well-formed when each limb is.
pub open spec fn spec_word_wf(w: Word<Expr>) -> bool {
    w.0.wf() && w.1.wf() && w.2.wf() && w.3.wf()
}

/// The reduction of an expression word under an assignment: the weighted sum
/// of the limbs' values with the exact powers of 256 as weights, in the
/// field.
pub open spec fn spec_word_eval_reduced(w: Word<Expr>, env: Seq<int>) -> int {
    spec_recombine(seq![w.0.eval(env), w.1.eval(env), w.2.eval(env), w.3.eval(env)]) % (
    FIELD_ORDER as int)
}

/// The reduction of a word of trace variables under an assignment.
pub open spec fn spec_var_word_reduced(w: Word<Var>, env: Seq<int>) -> int {
    spec_recombine(
        seq![
            spec_var_val(w.0, env),
            spec_var_val(w.1, env),
            spec_var_val(w.2, env),
            spec_var_val(w.3, env),
        ],
    ) % (FIELD_ORDER as int)
}

impl Word<Expr> {
    /// A word whose four limbs are all the zero constant of the expression
    /// algebra.
    pub fn zero() -> (w: Word<Expr>)
        ensures
            spec_word_wf(w),
            forall|env: Seq<int>| #[trigger] w.0.eval(env) == 0,
            forall|env: Seq<int>| #[trigger] w.1.eval(env) == 0,
            forall|env: Seq<int>| #[trigger] w.2.eval(env) == 0,
            forall|env: Seq<int>| #[trigger] w.3.eval(env) == 0,
    {
        Word(Expr::zero(), Expr::zero(), Expr::zero(), Expr::zero())
    }

    /// Extends a trace variable to a word: the low limb carries the
    /// variable's value, the three high limbs are zero.
    pub fn extend_var(var: Var) -> (w: Word<Expr>)
        ensures
            spec_word_wf(w),
            forall|env: Seq<int>|
                spec_env_wf(env) ==> #[trigger] w.0.eval(env) == spec_var_val(var, env),
            forall|env: Seq<int>| #[trigger] w.1.eval(env) == 0,
            forall|env: Seq<int>| #[trigger] w.2.eval(env) == 0,
            forall|env: Seq<int>| #[trigger] w.3.eval(env) == 0,
    {
        let low = Expr::zero().add(Expr::from_var(var));
        let w = Word(low, Expr::zero(), Expr::zero(), Expr::zero());
        proof {
            assert forall|env: Seq<int>| spec_env_wf(env) implies #[trigger] w.0.eval(env)
                == spec_var_val(var, env) by {
                lemma_small_mod(spec_var_val(var, env) as nat, FIELD_ORDER as nat);
            }
        }
        w
    }

    /// Extends an arbitrary expression to a word: the low limb carries the
    /// expression's value, the three high limbs are zero.
    pub fn extend_expr(expr: Expr) -> (w: Word<Expr>)
        requires
            expr.wf(),
        ensures
            spec_word_wf(w),
            forall|env: Seq<int>|
                spec_env_wf(env) ==> #[trigger] w.0.eval(env) == expr.eval(env),
            forall|env: Seq<int>| #[trigger] w.1.eval(env) == 0,
            forall|env: Seq<int>| #[trigger] w.2.eval(env) == 0,
            forall|env: Seq<int>| #[trigger] w.3.eval(env) == 0,
    {
        let ghost e = expr;
        let low = Expr::zero().add(expr);
        let w = Word(low, Expr::zero(), Expr::zero(), Expr::zero());
        proof {
            assert forall|env: Seq<int>| spec_env_wf(env) implies #[trigger] w.0.eval(env)
                == e.eval(env) by {
                e.lemma_eval_in_range(env);
                lemma_small_mod(e.eval(env) as nat, FIELD_ORDER as nat);
            }
        }
        w
    }

    /// Reduces an expression word to a single expression: the weighted sum of
    /// its limbs with weights `1, 256, 65536, 16777216`, lifted as field
    /// constants.
    pub fn reduce(&self) -> (r: Expr)
        requires
            spec_word_wf(*self),
        ensures
            r.wf(),
            forall|env: Seq<int>| #[trigger] r.eval(env) == spec_word_eval_reduced(*self, env),
    {
        let t0 = Expr::constant(1).mul(self.0.clone());
        let t1 = Expr::constant(256).mul(self.1.clone());
        let t2 = Expr::constant(65536).mul(self.2.clone());
        let t3 = Expr::constant(16777216).mul(self.3.clone());
        let r = t0.add(t1).add(t2).add(t3);
        proof {
            assert forall|env: Seq<int>| #[trigger] r.eval(env) == spec_word_eval_reduced(
                *self,
                env,
            ) by {
                lemma_limb_weighted_sum_mod(
                    self.0.eval(env),
                    self.1.eval(env),
                    self.2.eval(env),
                    self.3.eval(env),
                );
            }
        }
        r
    }
}

impl Word<Var> {
    /// Reduces a word of trace variables to a single expression: the
    /// weighted sum of the variables with weights `1, 256, 65536, 16777216`.
    pub fn reduce(&self) -> (r: Expr)
        ensures
            r.wf(),
            forall|env: Seq<int>| #[trigger] r.eval(env) == spec_var_word_reduced(*self, env),
    {
        let lifted = Word(
            Expr::from_var(self.0),
            Expr::from_var(self.1),
            Expr::from_var(self.2),
            Expr::from_var(self.3),
        );
        let r = lifted.reduce();
        proof {
            assert forall|env: Seq<int>| #[trigger] r.eval(env) == spec_var_word_reduced(
                *self,
                env,
            ) by {
                assert(r.eval(env) == spec_word_eval_reduced(lifted, env));
            }
        }
        r
    }
}

/// Extending and reducing cancel: a word produced by extending a variable —
/// low limb the variable's value, high limbs zero — reduces back to exactly
/// that variable's value, for any assignment giving the variable a byte
/// value.
pub proof fn lemma_extend_var_reduces(w: Word<Expr>, x: Var, env: Seq<int>)
    requires
        spec_env_wf(env),
        0 <= spec_var_val(x, env) < 256,
        w.0.eval(env) == spec_var_val(x, env),
        w.1.eval(env) == 0,
        w.2.eval(env) == 0,
        w.3.eval(env) == 0,
    ensures
        spec_word_eval_reduced(w, env) == spec_var_val(x, env),
{
    lemma_small_mod(spec_var_val(x, env) as nat, FIELD_ORDER as nat);
}

/// The views of a felt word's limbs, limb by limb.
proof fn lemma_limb_int_views(w: Word<Felt>)
    ensures
        spec_limb_ints(w@).len() == 4,
        spec_limb_ints(w@)[0] == w.0@,
        spec_limb_ints(w@)[1] == w.1@,
        spec_limb_ints(w@)[2] == w.2@,
        spec_limb_ints(w@)[3] == w.3@,
{
}

/// The weighted-sum reduction, carried out one field operation at a time,
/// equals the reduction of the whole sum.
proof fn lemma_limb_weighted_sum_mod(v0: int, v1: int, v2: int, v3: int)
    ensures
        spec_field_add(
            spec_field_add(
                spec_field_add(spec_field_mul(1, v0), spec_field_mul(256, v1)),
                spec_field_mul(65536, v2),
            ),
            spec_field_mul(16777216, v3),
        ) == (v0 + 256 * v1 + 65536 * v2 + 16777216 * v3) % (FIELD_ORDER as int),
{
    let p = FIELD_ORDER as int;
    let t0 = spec_field_mul(1, v0);
    let s1 = spec_field_add(t0, spec_field_mul(256, v1));
    let s2 = spec_field_add(s1, spec_field_mul(65536, v2));
    let s3 = spec_field_add(s2, spec_field_mul(16777216, v3));
    assert(t0 == v0 % p);
    assert(s1 == (v0 + 256 * v1) % p) by {
        lemma_add_mod_noop(v0, 256 * v1, p);
    }
    assert(s2 == (v0 + 256 * v1 + 65536 * v2) % p) by {
        lemma_mod_twice(v0 + 256 * v1, p);
        lemma_add_mod_noop(v0 + 256 * v1, 65536 * v2, p);
    }
    assert(s3 == (v0 + 256 * v1 + 65536 * v2 + 16777216 * v3) % p) by {
        lemma_mod_twice(v0 + 256 * v1 + 65536 * v2, p);
        lemma_add_mod_noop(v0 + 256 * v1 + 65536 * v2, 16777216 * v3, p);
    }
}

/// Reducing twice is the same as reducing once.
proof fn lemma_mod_twice(x: int, m: int)
    requires
        0 < m,
    ensures
        (x % m) % m == x % m,
{
    lemma_mod_bound(x, m);
    lemma_small_mod((x % m) as nat, m as nat);
}

/// Round trip: recombining the little-endian byte decomposition of any
/// 32-bit value gives back exactly that value, and every limb of the
/// decomposition is a byte. Together with the contracts of `from_u32` and
/// `to_u32` this says `to_u32(from_u32(v)) == v` for every `v`.
pub proof fn lemma_round_trip(value: u32)
    ensures
        forall|i: int| 0 <= i < 4 ==> 0 <= #[trigger] spec_le_bytes(value)[i] < 256,
        spec_recombine(spec_le_bytes(value)) == value as int,
{
    let v = value as int;
    let q1 = v / 256;
    let q2 = q1 / 256;
    let q3 = q2 / 256;
    lemma_fundamental_div_mod(v, 256);
    lemma_fundamental_div_mod(q1, 256);
    lemma_fundamental_div_mod(q2, 256);
    lemma_fundamental_div_mod(q3, 256);
    lemma_mod_bound(v, 256);
    lemma_mod_bound(q1, 256);
    lemma_mod_bound(q2, 256);
    lemma_mod_bound(q3, 256);
    assert(0 <= q3 < 256) by (nonlinear_arith)
        requires
            q3 == v / 256 / 256 / 256,
            0 <= v < 0x100000000,
    ;
    lemma_small_mod(q3 as nat, 256);
}

/// Reduction recovers the encoded value exactly: on the word encoding a
/// 32-bit value, `reduce` produces the canonical embedding of that value —
/// the field is large enough that no wrap-around occurs.
pub proof fn lemma_reduce_from_u32(value: u32)
    ensures
        spec_recombine(spec_le_bytes(value)) % (FIELD_ORDER as int) == value as int,
{
    lemma_round_trip(value);
    lemma_small_mod(value as nat, FIELD_ORDER as nat);
}

} // verus!
