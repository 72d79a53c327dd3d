use incgamma::plan_eval;
use incgamma::EvalPlan;
use incgamma::GammaMethod;
use incgamma::IncGamma;
use incgamma::ASWITCH;

#[test]
fn switch_threshold_value() {
    assert_eq!(ASWITCH, 100);
}

#[test]
fn boundary_row() {
    // x == 0: P(a,0) == 0 directly, Q(a,0) == 1 as the complement of 0.
    let p = plan_eval(IncGamma::P, true, false, false);
    assert_eq!(p, EvalPlan { method: GammaMethod::Boundary, complement: false });
    let q = plan_eval(IncGamma::Q, true, false, false);
    assert_eq!(q, EvalPlan { method: GammaMethod::Boundary, complement: true });
}

#[test]
fn boundary_row_wins_over_later_flags() {
    // x == 0 decides even when the later domain tests are also true.
    let p = plan_eval(IncGamma::P, true, true, true);
    assert_eq!(p.method, GammaMethod::Boundary);
    let q = plan_eval(IncGamma::Q, true, true, true);
    assert_eq!(q, EvalPlan { method: GammaMethod::Boundary, complement: true });
}

#[test]
fn quadrature_row() {
    // a >= ASWITCH: the quadrature yields the requested tail itself.
    let p = plan_eval(IncGamma::P, false, true, true);
    assert_eq!(p, EvalPlan { method: GammaMethod::Quadrature, complement: false });
    let q = plan_eval(IncGamma::Q, false, true, false);
    assert_eq!(q, EvalPlan { method: GammaMethod::Quadrature, complement: false });
}

#[test]
fn series_row() {
    // x < a + 1: the series yields P, so Q takes the complement.
    let p = plan_eval(IncGamma::P, false, false, true);
    assert_eq!(p, EvalPlan { method: GammaMethod::Series, complement: false });
    let q = plan_eval(IncGamma::Q, false, false, true);
    assert_eq!(q, EvalPlan { method: GammaMethod::Series, complement: true });
}

#[test]
fn continued_fraction_row() {
    // x >= a + 1: the continued fraction yields Q, so P takes the complement.
    let p = plan_eval(IncGamma::P, false, false, false);
    assert_eq!(p, EvalPlan { method: GammaMethod::ContinuedFraction, complement: true });
    let q = plan_eval(IncGamma::Q, false, false, false);
    assert_eq!(q, EvalPlan { method: GammaMethod::ContinuedFraction, complement: false });
}

#[test]
fn both_tails_use_the_same_method() {
    let flags = [
        (true, false, false),
        (false, true, false),
        (false, false, true),
        (false, false, false),
    ];
    for (x_is_zero, a_at_switch, x_below) in flags {
        let p = plan_eval(IncGamma::P, x_is_zero, a_at_switch, x_below);
        let q = plan_eval(IncGamma::Q, x_is_zero, a_at_switch, x_below);
        assert_eq!(p.method, q.method);
    }
}
