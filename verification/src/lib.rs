//! Verified integer core of an incomplete-Gamma evaluation library.
//!
//! The floating-point engine (Lanczos log-Gamma, power series, continued
//! fraction, Gauss-Legendre quadrature) lives outside the verified crate;
//! what is proved here is everything the engine decides or computes over
//! plain values: the exact factorial used by the Gamma evaluator on integer
//! arguments, and the routing table by which the dispatchers `gammp` and
//! `gammq` pick a numerical method and decide whether to return the
//! complement `1 - r` of the method's natural result.

use vstd::prelude::*;

verus! {

/// Threshold on the shape parameter `a`: at `a >= ASWITCH` the dispatchers
/// route to fixed-order Gauss-Legendre quadrature, because the series and
/// continued-fraction iteration counts grow with `a`.
pub const ASWITCH: usize = 100;

/// Mathematical factorial: `fact(n) == 1 * 2 * ... * n`, with `fact(0) == 1`.
pub open spec fn fact(n: nat) -> nat
    decreases n,
{
    if n == 0 {
        1
    } else {
        n * fact((n - 1) as nat)
    }
}

/// The factorial is positive.
pub proof fn lemma_fact_pos(n: nat)
    ensures
        fact(n) >= 1,
    decreases n,
{
    if n > 0 {
        lemma_fact_pos((n - 1) as nat);
        assert(n * fact((n - 1) as nat) >= fact((n - 1) as nat)) by (nonlinear_arith)
            requires
                n >= 1,
                fact((n - 1) as nat) >= 1,
        ;
    }
}

/// The factorial is non-decreasing.
pub proof fn lemma_fact_monotonic(i: nat, j: nat)
    requires
        i <= j,
    ensures
        fact(i) <= fact(j),
    decreases j,
{
    if i < j {
        lemma_fact_monotonic(i, (j - 1) as nat);
        lemma_fact_pos((j - 1) as nat);
        assert(j * fact((j - 1) as nat) >= fact((j - 1) as nat)) by (nonlinear_arith)
            requires
                j >= 1,
                fact((j - 1) as nat) >= 1,
        ;
    }
}

/// Just factorial: exact `n!` by iterative multiplication.
///
/// The caller must keep the result inside the machine range; `checked_factorial`
/// is the entry point that detects overflow instead of requiring this bound.
pub fn factorial(n: usize) -> (p: usize)
    requires
        fact(n as nat) <= usize::MAX,
    ensures
        p == fact(n as nat),
{
    let mut p: usize = 1;
    let mut i: usize = 0;
    while i < n
        invariant
            i <= n,
            p == fact(i as nat),
            fact(n as nat) <= usize::MAX,
        decreases n - i,
    {
        let next: usize = i + 1;
        proof {
            lemma_fact_monotonic(next as nat, n as nat);
            assert(fact(next as nat) == next * fact(i as nat));
            assert(p * next == fact(next as nat)) by (nonlinear_arith)
                requires
                    p == fact(i as nat),
                    fact(next as nat) == next * fact(i as nat),
            ;
        }
        p = p * next;
        i = next;
    }
    p
}

/// Exact `n!`, or `None` when the value does not fit in the machine range.
pub fn checked_factorial(n: usize) -> (r: Option<usize>)
    ensures
        match r {
            Some(p) => p == fact(n as nat),
            None => fact(n as nat) > usize::MAX,
        },
{
    let mut p: usize = 1;
    let mut i: usize = 0;
    while i < n
        invariant
            i <= n,
            p == fact(i as nat),
        decreases n - i,
    {
        let next: usize = i + 1;
        proof {
            assert(fact(next as nat) == next * fact(i as nat));
            assert(p * next == fact(next as nat)) by (nonlinear_arith)
                requires
                    p == fact(i as nat),
                    fact(next as nat) == next * fact(i as nat),
            ;
        }
        match p.checked_mul(next) {
            Some(q) => {
                p = q;
            }
            None => {
                proof {
                    lemma_fact_monotonic(next as nat, n as nat);
                }
                return None;
            }
        }
        i = next;
    }
    Some(p)
}

/// Kinds of Incomplete Gamma function: the lower tail `P(a,x)` or the upper
/// tail `Q(a,x) == 1 - P(a,x)`.
#[derive(Debug, Copy, Clone, PartialEq, Eq, Structural)]
pub enum IncGamma {
    P,
    Q,
}

/// The numerical method the dispatchers route an evaluation to.
#[derive(Debug, Copy, Clone, PartialEq, Eq, Structural)]
pub enum GammaMethod {
    /// `x == 0`: no numerics run; `P(a,0) == 0` and `Q(a,0) == 1` exactly.
    Boundary,
    /// Large `a` (`a >= ASWITCH`): fixed-order Gauss-Legendre quadrature,
    /// which yields the requested tail directly.
    Quadrature,
    /// `x < a + 1`: the power series, whose natural result is `P(a,x)`.
    Series,
    /// `x >= a + 1`: the continued fraction, whose natural result is `Q(a,x)`.
    ContinuedFraction,
}

/// How a dispatcher obtains the requested tail value: run `method`, take its
/// natural result (`0` for `Boundary`, the series' `P`, the continued
/// fraction's `Q`, the requested tail itself for `Quadrature`), and replace it
/// by one minus that result exactly when `complement` is set.
#[derive(Debug, Copy, Clone, PartialEq, Eq, Structural)]
pub struct EvalPlan {
    pub method: GammaMethod,
    pub complement: bool,
}

/// The dispatchers' routing table, shared by `gammp` and `gammq`.
///
/// The flags are the dispatchers' three domain tests, in the order they are
/// made: `x == 0`, `a >= ASWITCH`, `x < a + 1`; a later flag decides only
/// when every earlier one is false. Both tails route to the same method;
/// they differ only in which of the complementary pair `P + Q == 1` the
/// method yields directly, so `complement` is set exactly where the natural
/// result is the opposite tail.
pub fn plan_eval(kind: IncGamma, x_is_zero: bool, a_at_switch: bool, x_below_a_plus_one: bool) -> (p: EvalPlan)
    ensures
        p.method == (if x_is_zero {
            GammaMethod::Boundary
        } else if a_at_switch {
            GammaMethod::Quadrature
        } else if x_below_a_plus_one {
            GammaMethod::Series
        } else {
            GammaMethod::ContinuedFraction
        }),
        p.complement == (if x_is_zero {
            kind == IncGamma::Q
        } else if a_at_switch {
            false
        } else if x_below_a_plus_one {
            kind == IncGamma::Q
        } else {
            kind == IncGamma::P
        }),
{
    if x_is_zero {
        EvalPlan { method: GammaMethod::Boundary, complement: kind == IncGamma::Q }
    } else if a_at_switch {
        EvalPlan { method: GammaMethod::Quadrature, complement: false }
    } else if x_below_a_plus_one {
        EvalPlan { method: GammaMethod::Series, complement: kind == IncGamma::Q }
    } else {
        EvalPlan { method: GammaMethod::ContinuedFraction, complement: kind == IncGamma::P }
    }
}

} // verus!
