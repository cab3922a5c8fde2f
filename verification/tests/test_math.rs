//! Activation functions: known values, symmetries and bounds.

use rshgf::math;

/// Tolerance for floating-point comparisons.
const TOL: f64 = 1e-6;

fn b(x: f64) -> u64 {
    x.to_bits()
}

fn v(x: u64) -> f64 {
    f64::from_bits(x)
}

fn assert_close(actual: f64, expected: f64, label: &str) {
    assert!(
        (actual - expected).abs() < TOL,
        "{}: expected {:.10}, got {:.10} (diff = {:.2e})",
        label,
        expected,
        actual,
        (actual - expected).abs()
    );
}

// -- sufficient_statistics ---------------------------------------------------

#[test]
fn test_sufficient_statistics_positive() {
    let s = math::sufficient_statistics(b(3.0));
    assert_close(v(s[0]), 3.0, "sufficient_statistics[0] for x=3");
    assert_close(v(s[1]), 9.0, "sufficient_statistics[1] for x=3");
}

#[test]
fn test_sufficient_statistics_negative() {
    let s = math::sufficient_statistics(b(-2.5));
    assert_close(v(s[0]), -2.5, "sufficient_statistics[0] for x=-2.5");
    assert_close(v(s[1]), 6.25, "sufficient_statistics[1] for x=-2.5");
}

#[test]
fn test_sufficient_statistics_zero() {
    let s = math::sufficient_statistics(b(0.0));
    assert_close(v(s[0]), 0.0, "sufficient_statistics[0] for x=0");
    assert_close(v(s[1]), 0.0, "sufficient_statistics[1] for x=0");
}

// -- relu --------------------------------------------------------------------

#[test]
fn test_relu_positive() {
    assert_close(v(math::relu(b(3.5))), 3.5, "relu(3.5)");
}

#[test]
fn test_relu_negative() {
    assert_close(v(math::relu(b(-2.0))), 0.0, "relu(-2.0)");
}

#[test]
fn test_relu_zero() {
    assert_close(v(math::relu(b(0.0))), 0.0, "relu(0.0)");
}

// -- sigmoid -----------------------------------------------------------------

#[test]
fn test_sigmoid_zero() {
    // sigmoid(0) = 0.5 exactly
    assert_close(v(math::sigmoid(b(0.0))), 0.5, "sigmoid(0)");
}

#[test]
fn test_sigmoid_positive_large() {
    // sigmoid(10) is close below one
    assert!(v(math::sigmoid(b(10.0))) > 0.999, "sigmoid(10) should be > 0.999");
    assert!(v(math::sigmoid(b(10.0))) < 1.0, "sigmoid(10) should be < 1");
}

#[test]
fn test_sigmoid_negative_large() {
    assert!(v(math::sigmoid(b(-10.0))) < 0.001, "sigmoid(-10) should be < 0.001");
    assert!(v(math::sigmoid(b(-10.0))) > 0.0, "sigmoid(-10) should be > 0");
}

#[test]
fn test_sigmoid_known_value() {
    // sigmoid(1) = 1 / (1 + e^-1)
    assert_close(v(math::sigmoid(b(1.0))), 0.731_058_578_6, "sigmoid(1)");
}

#[test]
fn test_sigmoid_symmetry() {
    // sigmoid(x) + sigmoid(-x) = 1
    let x = 2.3;
    assert_close(v(math::sigmoid(b(x))) + v(math::sigmoid(b(-x))), 1.0, "sigmoid symmetry");
}

// -- tanh --------------------------------------------------------------------

#[test]
fn test_tanh_zero() {
    assert_close(v(math::tanh(b(0.0))), 0.0, "tanh(0)");
}

#[test]
fn test_tanh_known_value() {
    assert_close(v(math::tanh(b(1.0))), 0.761_594_155_9, "tanh(1)");
}

#[test]
fn test_tanh_antisymmetry() {
    // tanh is odd: tanh(-x) = -tanh(x)
    let x = 1.7;
    assert_close(v(math::tanh(b(-x))), -v(math::tanh(b(x))), "tanh antisymmetry");
}

#[test]
fn test_tanh_bounds() {
    assert!(v(math::tanh(b(20.0))) <= 1.0, "tanh(20) <= 1");
    assert!(v(math::tanh(b(20.0))) > 0.99, "tanh(20) > 0.99");
    assert!(v(math::tanh(b(-20.0))) >= -1.0, "tanh(-20) >= -1");
    assert!(v(math::tanh(b(-20.0))) < -0.99, "tanh(-20) < -0.99");
}

// -- leaky_relu --------------------------------------------------------------

#[test]
fn test_leaky_relu_positive() {
    assert_close(v(math::leaky_relu(b(4.0))), 4.0, "leaky_relu(4.0)");
}

#[test]
fn test_leaky_relu_zero() {
    assert_close(v(math::leaky_relu(b(0.0))), 0.0, "leaky_relu(0.0)");
}

#[test]
fn test_leaky_relu_negative() {
    // slope 0.01, so leaky_relu(-3) = -0.03
    assert_close(v(math::leaky_relu(b(-3.0))), -0.03, "leaky_relu(-3.0)");
}

// -- prelu -------------------------------------------------------------------

#[test]
fn test_prelu_positive() {
    assert_close(v(math::prelu(b(5.0), b(0.25))), 5.0, "prelu(5, alpha=0.25)");
}

#[test]
fn test_prelu_zero() {
    assert_close(v(math::prelu(b(0.0), b(0.25))), 0.0, "prelu(0, alpha=0.25)");
}

#[test]
fn test_prelu_negative() {
    assert_close(v(math::prelu(b(-4.0), b(0.25))), -1.0, "prelu(-4, alpha=0.25)");
}

#[test]
fn test_prelu_alpha_zero() {
    // alpha = 0 collapses to standard ReLU
    assert_close(v(math::prelu(b(-2.0), b(0.0))), 0.0, "prelu(-2, alpha=0) == relu");
    assert_close(v(math::prelu(b(2.0), b(0.0))), 2.0, "prelu(2,  alpha=0) == relu");
}

#[test]
fn test_prelu_matches_leaky_relu() {
    // prelu with alpha = 0.01 must equal leaky_relu
    for &x in &[-5.0, -1.0, 0.0, 1.0, 5.0] {
        assert_close(
            v(math::prelu(b(x), b(0.01))),
            v(math::leaky_relu(b(x))),
            &format!("prelu(alpha=0.01) == leaky_relu at x={}", x),
        );
    }
}

// -- gelu --------------------------------------------------------------------

#[test]
fn test_gelu_zero() {
    assert_close(v(math::gelu(b(0.0))), 0.0, "gelu(0)");
}

#[test]
fn test_gelu_positive_large() {
    // for large x the normal CDF goes to one, so GELU(x) goes to x
    let x = 10.0_f64;
    assert_close(v(math::gelu(b(x))), x, "gelu(10) close to 10");
}

#[test]
fn test_gelu_negative_large() {
    assert!(v(math::gelu(b(-10.0))).abs() < 1e-4, "gelu(-10) close to 0");
}

#[test]
fn test_gelu_known_value() {
    let expected = 0.841_344_7;
    let got = v(math::gelu(b(1.0)));
    assert!(
        (got - expected).abs() < 1e-5,
        "gelu(1) expected close to {}, got {}",
        expected,
        got
    );
}

#[test]
fn test_gelu_negative_value() {
    let expected = -0.158_655_3;
    let got = v(math::gelu(b(-1.0)));
    assert!(
        (got - expected).abs() < 1e-5,
        "gelu(-1) expected close to {}, got {}",
        expected,
        got
    );
}

// -- erfc --------------------------------------------------------------------

#[test]
fn test_erfc_approximation_error() {
    // The rational approximation stays within 1.5e-6 of a high-accuracy
    // series evaluation over [-5, 5].
    let mut x = -5.0_f64;
    while x <= 5.0 {
        let approx = v(math::erfc(b(x)));
        let exact = erfc_reference(x);
        assert!(
            (approx - exact).abs() < 1.5e-6,
            "erfc({}) approx {} vs reference {}",
            x,
            approx,
            exact
        );
        x += 0.01;
    }
}

/// A high-accuracy complementary error function via the Taylor series of
/// erf for small arguments and the continued-fraction-free asymptotic
/// regime handled through symmetry.
fn erfc_reference(x: f64) -> f64 {
    if x < 0.0 {
        return 2.0 - erfc_reference(-x);
    }
    // erf(x) = 2/sqrt(pi) * sum_{n>=0} (-1)^n x^(2n+1) / (n! (2n+1))
    // converges for the range used here; for larger x accumulate in f64
    // with enough terms.
    let mut term = x;
    let mut sum = x;
    let mut n = 1.0_f64;
    while term.abs() > 1e-18 && n < 200.0 {
        term = -term * x * x / n;
        sum += term / (2.0 * n + 1.0);
        n += 1.0;
    }
    1.0 - 2.0 / std::f64::consts::PI.sqrt() * sum
}

// -- derivative spot checks --------------------------------------------------

#[test]
fn test_sigmoid_derivatives() {
    let s = v(math::sigmoid(b(0.7)));
    assert_close(v(math::sigmoid_d1(b(0.7))), s * (1.0 - s), "sigmoid first derivative");
    assert_close(
        v(math::sigmoid_d2(b(0.7))),
        s * (1.0 - s) * (1.0 - 2.0 * s),
        "sigmoid second derivative",
    );
}

#[test]
fn test_tanh_derivatives() {
    let t = v(math::tanh(b(0.4)));
    assert_close(v(math::tanh_d1(b(0.4))), 1.0 - t * t, "tanh first derivative");
    assert_close(v(math::tanh_d2(b(0.4))), -2.0 * t * (1.0 - t * t), "tanh second derivative");
}

#[test]
fn test_linear_and_constant_derivatives() {
    assert_eq!(v(math::linear(b(2.5))), 2.5);
    assert_eq!(v(math::linear_d1(b(2.5))), 1.0);
    assert_eq!(v(math::linear_d2(b(2.5))), 0.0);
    assert_eq!(v(math::relu_d1(b(3.0))), 1.0);
    assert_eq!(v(math::relu_d1(b(-3.0))), 0.0);
    assert_eq!(v(math::relu_d2(b(3.0))), 0.0);
    assert_eq!(v(math::leaky_relu_d1(b(2.0))), 1.0);
    assert_eq!(v(math::leaky_relu_d1(b(-2.0))), 0.01);
    assert_eq!(v(math::leaky_relu_d2(b(-2.0))), 0.0);
    assert_eq!(v(math::prelu_d1(b(-2.0), b(0.3))), 0.3);
    assert_eq!(v(math::prelu_d2(b(-2.0), b(0.3))), 0.0);
}

#[test]
fn test_gelu_derivatives() {
    // f'(x) = Phi(x) + x phi(x); check against a central difference wide
    // enough that the erfc approximation error does not dominate.
    for &x in &[-1.5, -0.3, 0.0, 0.8, 2.0] {
        let h = 1e-3;
        let numeric = (v(math::gelu(b(x + h))) - v(math::gelu(b(x - h)))) / (2.0 * h);
        assert!(
            (v(math::gelu_d1(b(x))) - numeric).abs() < 1e-3,
            "gelu_d1 at {}",
            x
        );
    }
    // f''(x) = phi(x) (2 - x^2)
    let x = 0.5_f64;
    let pdf = (-(x * x) / 2.0).exp() / (2.0 * std::f64::consts::PI).sqrt();
    assert_close(v(math::gelu_d2(b(x))), pdf * (2.0 - x * x), "gelu second derivative");
}

#[test]
fn test_resolver_falls_back_to_linear() {
    assert_eq!(math::resolve_coupling_fn("relu"), math::CouplingFn::Relu);
    assert_eq!(math::resolve_coupling_fn("sigmoid"), math::CouplingFn::Sigmoid);
    assert_eq!(math::resolve_coupling_fn("tanh"), math::CouplingFn::Tanh);
    assert_eq!(math::resolve_coupling_fn("leaky_relu"), math::CouplingFn::LeakyRelu);
    assert_eq!(math::resolve_coupling_fn("gelu"), math::CouplingFn::Gelu);
    assert_eq!(math::resolve_coupling_fn("linear"), math::CouplingFn::Linear);
    assert_eq!(math::resolve_coupling_fn("anything else"), math::CouplingFn::Linear);
}
