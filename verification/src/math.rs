//! Activation functions and their first and second derivatives.
//!
//! Each activation is a scalar function on binary64 bit patterns, computed by
//! the arithmetic of [`crate::num`] and specified exactly by an open spec
//! function over the named operations.  A [`CouplingFn`] tag bundles an
//! activation `f` with its derivatives `f'` and `f''`; the resolver maps an
//! activation name to its tag, with unknown names falling back to the linear
//! (identity) activation.

use vstd::prelude::*;

use crate::num::{
    abs_bits, abs_of, add_bits, add_of, div_bits, div_of, exp_bits, exp_of, le_bits, le_of,
    lt_bits, lt_of, max_bits, max_of, mul_bits, mul_of, neg_bits, neg_of, sub_bits, sub_of,
    sqrt_of, CENT_BITS, HALF_BITS, NEG_TWO_BITS, ONE_BITS, SQRT_2_BITS, TAU_BITS, TWO_BITS,
    ZERO_BITS,
};

verus! {

// ---------------------------------------------------------------------------
// Specification formulas.
// ---------------------------------------------------------------------------

/// `x`, the identity.
pub open spec fn linear_of(x: u64) -> u64 {
    x
}

/// `max(0, x)`.
pub open spec fn relu_of(x: u64) -> u64 {
    max_of(x, ZERO_BITS)
}

/// `1` where `x > 0`, else `0`.
pub open spec fn relu_d1_of(x: u64) -> u64 {
    if lt_of(ZERO_BITS, x) {
        ONE_BITS
    } else {
        ZERO_BITS
    }
}

/// `1 / (1 + exp(-x))`.
pub open spec fn sigmoid_of(x: u64) -> u64 {
    div_of(ONE_BITS, add_of(ONE_BITS, exp_of(neg_of(x))))
}

/// `sigmoid(x) * (1 - sigmoid(x))`.
pub open spec fn sigmoid_d1_of(x: u64) -> u64 {
    mul_of(sigmoid_of(x), sub_of(ONE_BITS, sigmoid_of(x)))
}

/// `sigmoid'(x) * (1 - 2 * sigmoid(x))`.
pub open spec fn sigmoid_d2_of(x: u64) -> u64 {
    mul_of(sigmoid_d1_of(x), sub_of(ONE_BITS, mul_of(TWO_BITS, sigmoid_of(x))))
}

/// `1 - tanh(x)^2`.
pub open spec fn tanh_d1_of(x: u64) -> u64 {
    sub_of(ONE_BITS, mul_of(crate::num::tanh_of(x), crate::num::tanh_of(x)))
}

/// `-2 * tanh(x) * (1 - tanh(x)^2)`.
pub open spec fn tanh_d2_of(x: u64) -> u64 {
    mul_of(
        mul_of(NEG_TWO_BITS, crate::num::tanh_of(x)),
        sub_of(ONE_BITS, mul_of(crate::num::tanh_of(x), crate::num::tanh_of(x))),
    )
}

/// The leaky ReLU: `x` where `x >= 0`, else `0.01 * x`.
pub open spec fn leaky_relu_of(x: u64) -> u64 {
    if le_of(ZERO_BITS, x) {
        x
    } else {
        mul_of(CENT_BITS, x)
    }
}

/// `x` where `x >= 0`, else `alpha * x`.
pub open spec fn prelu_of(x: u64, alpha: u64) -> u64 {
    if le_of(ZERO_BITS, x) {
        x
    } else {
        mul_of(alpha, x)
    }
}

/// `1` where `x >= 0`, else `alpha`.
pub open spec fn prelu_d1_of(x: u64, alpha: u64) -> u64 {
    if le_of(ZERO_BITS, x) {
        ONE_BITS
    } else {
        alpha
    }
}

/// The Abramowitz-Stegun 7.1.26 rational polynomial in `t = 1/(1 + p|x|)`.
pub open spec fn erfc_poly_of(t: u64) -> u64 {
    mul_of(
        t,
        add_of(
            crate::num::ERFC_A1_BITS,
            mul_of(
                t,
                add_of(
                    crate::num::ERFC_A2_BITS,
                    mul_of(
                        t,
                        add_of(
                            crate::num::ERFC_A3_BITS,
                            mul_of(
                                t,
                                add_of(
                                    crate::num::ERFC_A4_BITS,
                                    mul_of(t, crate::num::ERFC_A5_BITS),
                                ),
                            ),
                        ),
                    ),
                ),
            ),
        ),
    )
}

/// The complementary error function, by the Abramowitz-Stegun 7.1.26
/// rational approximation: `poly(t) * exp(-x^2)` for `x >= 0`, reflected as
/// `2 - erfc(-x)` for negative `x`.
pub open spec fn erfc_of(x: u64) -> u64 {
    let t = div_of(ONE_BITS, add_of(ONE_BITS, mul_of(crate::num::ERFC_P_BITS, abs_of(x))));
    let approx = mul_of(erfc_poly_of(t), exp_of(neg_of(mul_of(x, x))));
    if le_of(ZERO_BITS, x) {
        approx
    } else {
        sub_of(TWO_BITS, approx)
    }
}

/// `x * 0.5 * erfc(-x / sqrt(2))`, the GELU activation.
pub open spec fn gelu_of(x: u64) -> u64 {
    mul_of(mul_of(x, HALF_BITS), erfc_of(div_of(neg_of(x), SQRT_2_BITS)))
}

/// The standard-normal density at `x`: `exp(-x^2 / 2) / sqrt(2*pi)`.
pub open spec fn normal_pdf_of(x: u64) -> u64 {
    div_of(exp_of(div_of(neg_of(mul_of(x, x)), TWO_BITS)), sqrt_of(TAU_BITS))
}

/// `Phi(x) + x * pdf(x)` with `Phi(x) = 0.5 * erfc(-x / sqrt(2))`.
pub open spec fn gelu_d1_of(x: u64) -> u64 {
    add_of(
        mul_of(HALF_BITS, erfc_of(div_of(neg_of(x), SQRT_2_BITS))),
        mul_of(x, normal_pdf_of(x)),
    )
}

/// `pdf(x) * (2 - x^2)`.
pub open spec fn gelu_d2_of(x: u64) -> u64 {
    mul_of(normal_pdf_of(x), sub_of(TWO_BITS, mul_of(x, x)))
}

// ---------------------------------------------------------------------------
// Executable activations.
// ---------------------------------------------------------------------------

/// The sufficient statistics of a scalar observation: the pair `(x, x^2)`.
pub fn sufficient_statistics(x: u64) -> (r: Vec<u64>)
    ensures
        r@ == seq![x, mul_of(x, x)],
{
    let mut r: Vec<u64> = Vec::new();
    r.push(x);
    r.push(mul_bits(x, x));
    proof {
        assert(r@ =~= seq![x, mul_of(x, x)]);
    }
    r
}

/// Linear (identity) activation.
pub fn linear(x: u64) -> (r: u64)
    ensures
        r == linear_of(x),
{
    x
}

/// First derivative of linear: constantly `1`.
pub fn linear_d1(_x: u64) -> (r: u64)
    ensures
        r == ONE_BITS,
{
    ONE_BITS
}

/// Second derivative of linear: constantly `0`.
pub fn linear_d2(_x: u64) -> (r: u64)
    ensures
        r == ZERO_BITS,
{
    ZERO_BITS
}

/// Rectified linear unit.
pub fn relu(x: u64) -> (r: u64)
    ensures
        r == relu_of(x),
{
    max_bits(x, ZERO_BITS)
}

/// First derivative of ReLU.
pub fn relu_d1(x: u64) -> (r: u64)
    ensures
        r == relu_d1_of(x),
{
    if lt_bits(ZERO_BITS, x) {
        ONE_BITS
    } else {
        ZERO_BITS
    }
}

/// Second derivative of ReLU: constantly `0`.
pub fn relu_d2(_x: u64) -> (r: u64)
    ensures
        r == ZERO_BITS,
{
    ZERO_BITS
}

/// Sigmoid activation.
pub fn sigmoid(x: u64) -> (r: u64)
    ensures
        r == sigmoid_of(x),
{
    div_bits(ONE_BITS, add_bits(ONE_BITS, exp_bits(neg_bits(x))))
}

/// First derivative of sigmoid.
pub fn sigmoid_d1(x: u64) -> (r: u64)
    ensures
        r == sigmoid_d1_of(x),
{
    let s = sigmoid(x);
    mul_bits(s, sub_bits(ONE_BITS, s))
}

/// Second derivative of sigmoid.
pub fn sigmoid_d2(x: u64) -> (r: u64)
    ensures
        r == sigmoid_d2_of(x),
{
    let s = sigmoid(x);
    mul_bits(sigmoid_d1(x), sub_bits(ONE_BITS, mul_bits(TWO_BITS, s)))
}

/// Hyperbolic tangent activation.
pub fn tanh(x: u64) -> (r: u64)
    ensures
        r == crate::num::tanh_of(x),
{
    crate::num::tanh_bits(x)
}

/// First derivative of tanh.
pub fn tanh_d1(x: u64) -> (r: u64)
    ensures
        r == tanh_d1_of(x),
{
    let t = crate::num::tanh_bits(x);
    sub_bits(ONE_BITS, mul_bits(t, t))
}

/// Second derivative of tanh.
pub fn tanh_d2(x: u64) -> (r: u64)
    ensures
        r == tanh_d2_of(x),
{
    let t = crate::num::tanh_bits(x);
    mul_bits(mul_bits(NEG_TWO_BITS, t), sub_bits(ONE_BITS, mul_bits(t, t)))
}

/// Leaky ReLU with fixed slope `0.01`.
pub fn leaky_relu(x: u64) -> (r: u64)
    ensures
        r == leaky_relu_of(x),
{
    if le_bits(ZERO_BITS, x) {
        x
    } else {
        mul_bits(CENT_BITS, x)
    }
}

/// First derivative of leaky ReLU.
pub fn leaky_relu_d1(x: u64) -> (r: u64)
    ensures
        r == prelu_d1_of(x, CENT_BITS),
{
    if le_bits(ZERO_BITS, x) {
        ONE_BITS
    } else {
        CENT_BITS
    }
}

/// Second derivative of leaky ReLU: constantly `0`.
pub fn leaky_relu_d2(_x: u64) -> (r: u64)
    ensures
        r == ZERO_BITS,
{
    ZERO_BITS
}

/// Parametric ReLU with free slope `alpha`.
pub fn prelu(x: u64, alpha: u64) -> (r: u64)
    ensures
        r == prelu_of(x, alpha),
{
    if le_bits(ZERO_BITS, x) {
        x
    } else {
        mul_bits(alpha, x)
    }
}

/// First derivative of parametric ReLU.
pub fn prelu_d1(x: u64, alpha: u64) -> (r: u64)
    ensures
        r == prelu_d1_of(x, alpha),
{
    if le_bits(ZERO_BITS, x) {
        ONE_BITS
    } else {
        alpha
    }
}

/// Second derivative of parametric ReLU: constantly `0`.
pub fn prelu_d2(_x: u64, _alpha: u64) -> (r: u64)
    ensures
        r == ZERO_BITS,
{
    ZERO_BITS
}

/// Law: the parametric ReLU with slope `0.01` computes the leaky ReLU, on
/// every input.
pub proof fn prelu_matches_leaky_relu(x: u64)
    ensures
        prelu_of(x, CENT_BITS) == leaky_relu_of(x),
{
}

/// Complementary error function (Abramowitz-Stegun 7.1.26 rational
/// approximation; maximum error below `1.5e-7`).
pub fn erfc(x: u64) -> (r: u64)
    ensures
        r == erfc_of(x),
{
    let t = div_bits(
        ONE_BITS,
        add_bits(ONE_BITS, mul_bits(crate::num::ERFC_P_BITS, abs_bits(x))),
    );
    let poly = mul_bits(
        t,
        add_bits(
            crate::num::ERFC_A1_BITS,
            mul_bits(
                t,
                add_bits(
                    crate::num::ERFC_A2_BITS,
                    mul_bits(
                        t,
                        add_bits(
                            crate::num::ERFC_A3_BITS,
                            mul_bits(
                                t,
                                add_bits(
                                    crate::num::ERFC_A4_BITS,
                                    mul_bits(t, crate::num::ERFC_A5_BITS),
                                ),
                            ),
                        ),
                    ),
                ),
            ),
        ),
    );
    let approx = mul_bits(poly, exp_bits(neg_bits(mul_bits(x, x))));
    if le_bits(ZERO_BITS, x) {
        approx
    } else {
        sub_bits(TWO_BITS, approx)
    }
}

/// GELU activation: `x * Phi(x)` with `Phi` the standard-normal CDF.
pub fn gelu(x: u64) -> (r: u64)
    ensures
        r == gelu_of(x),
{
    mul_bits(mul_bits(x, HALF_BITS), erfc(div_bits(neg_bits(x), SQRT_2_BITS)))
}

/// First derivative of GELU: `Phi(x) + x * pdf(x)`.
pub fn gelu_d1(x: u64) -> (r: u64)
    ensures
        r == gelu_d1_of(x),
{
    let phi = mul_bits(HALF_BITS, erfc(div_bits(neg_bits(x), SQRT_2_BITS)));
    let pdf = div_bits(
        exp_bits(div_bits(neg_bits(mul_bits(x, x)), TWO_BITS)),
        crate::num::sqrt_bits(TAU_BITS),
    );
    add_bits(phi, mul_bits(x, pdf))
}

/// Second derivative of GELU: `pdf(x) * (2 - x^2)`.
pub fn gelu_d2(x: u64) -> (r: u64)
    ensures
        r == gelu_d2_of(x),
{
    let pdf = div_bits(
        exp_bits(div_bits(neg_bits(mul_bits(x, x)), TWO_BITS)),
        crate::num::sqrt_bits(TAU_BITS),
    );
    mul_bits(pdf, sub_bits(TWO_BITS, mul_bits(x, x)))
}

// ---------------------------------------------------------------------------
// Coupling-function tags and the resolver.
// ---------------------------------------------------------------------------

/// A coupling (activation) function together with its first and second
/// derivatives, as a closed tag dispatched by the update kernels.
#[derive(Clone, Copy, Debug, PartialEq, Eq, Structural)]
pub enum CouplingFn {
    Linear,
    Relu,
    Sigmoid,
    Tanh,
    LeakyRelu,
    Gelu,
}

/// `f(x)` of a coupling tag.
pub open spec fn coupling_f_of(cf: CouplingFn, x: u64) -> u64 {
    match cf {
        CouplingFn::Linear => x,
        CouplingFn::Relu => relu_of(x),
        CouplingFn::Sigmoid => sigmoid_of(x),
        CouplingFn::Tanh => crate::num::tanh_of(x),
        CouplingFn::LeakyRelu => leaky_relu_of(x),
        CouplingFn::Gelu => gelu_of(x),
    }
}

/// `f'(x)` of a coupling tag.
pub open spec fn coupling_d1_of(cf: CouplingFn, x: u64) -> u64 {
    match cf {
        CouplingFn::Linear => ONE_BITS,
        CouplingFn::Relu => relu_d1_of(x),
        CouplingFn::Sigmoid => sigmoid_d1_of(x),
        CouplingFn::Tanh => tanh_d1_of(x),
        CouplingFn::LeakyRelu => prelu_d1_of(x, CENT_BITS),
        CouplingFn::Gelu => gelu_d1_of(x),
    }
}

/// `f''(x)` of a coupling tag.
pub open spec fn coupling_d2_of(cf: CouplingFn, x: u64) -> u64 {
    match cf {
        CouplingFn::Linear => ZERO_BITS,
        CouplingFn::Relu => ZERO_BITS,
        CouplingFn::Sigmoid => sigmoid_d2_of(x),
        CouplingFn::Tanh => tanh_d2_of(x),
        CouplingFn::LeakyRelu => ZERO_BITS,
        CouplingFn::Gelu => gelu_d2_of(x),
    }
}

impl CouplingFn {
    /// Evaluate the activation itself.
    pub fn f(self, x: u64) -> (r: u64)
        ensures
            r == coupling_f_of(self, x),
    {
        match self {
            CouplingFn::Linear => linear(x),
            CouplingFn::Relu => relu(x),
            CouplingFn::Sigmoid => sigmoid(x),
            CouplingFn::Tanh => tanh(x),
            CouplingFn::LeakyRelu => leaky_relu(x),
            CouplingFn::Gelu => gelu(x),
        }
    }

    /// Evaluate the first derivative.
    pub fn df(self, x: u64) -> (r: u64)
        ensures
            r == coupling_d1_of(self, x),
    {
        match self {
            CouplingFn::Linear => linear_d1(x),
            CouplingFn::Relu => relu_d1(x),
            CouplingFn::Sigmoid => sigmoid_d1(x),
            CouplingFn::Tanh => tanh_d1(x),
            CouplingFn::LeakyRelu => leaky_relu_d1(x),
            CouplingFn::Gelu => gelu_d1(x),
        }
    }

    /// Evaluate the second derivative.
    pub fn d2f(self, x: u64) -> (r: u64)
        ensures
            r == coupling_d2_of(self, x),
    {
        match self {
            CouplingFn::Linear => linear_d2(x),
            CouplingFn::Relu => relu_d2(x),
            CouplingFn::Sigmoid => sigmoid_d2(x),
            CouplingFn::Tanh => tanh_d2(x),
            CouplingFn::LeakyRelu => leaky_relu_d2(x),
            CouplingFn::Gelu => gelu_d2(x),
        }
    }
}

/// String equality with a contract over the character views.
pub fn str_eq(a: &str, b: &str) -> (r: bool)
    ensures
        r == (a@ == b@),
{
    let x = a.to_owned();
    let y = b.to_owned();
    x.eq(&y)
}

/// The coupling tag a name resolves to: unknown names fall back to the
/// linear (identity) activation.
pub open spec fn resolve_of(name: Seq<char>) -> CouplingFn {
    if name == "relu"@ {
        CouplingFn::Relu
    } else if name == "sigmoid"@ {
        CouplingFn::Sigmoid
    } else if name == "tanh"@ {
        CouplingFn::Tanh
    } else if name == "leaky_relu"@ {
        CouplingFn::LeakyRelu
    } else if name == "gelu"@ {
        CouplingFn::Gelu
    } else {
        CouplingFn::Linear
    }
}

/// Resolve an activation name to its coupling tag.
pub fn resolve_coupling_fn(name: &str) -> (r: CouplingFn)
    ensures
        r == resolve_of(name@),
{
    if str_eq(name, "relu") {
        CouplingFn::Relu
    } else if str_eq(name, "sigmoid") {
        CouplingFn::Sigmoid
    } else if str_eq(name, "tanh") {
        CouplingFn::Tanh
    } else if str_eq(name, "leaky_relu") {
        CouplingFn::LeakyRelu
    } else if str_eq(name, "gelu") {
        CouplingFn::Gelu
    } else {
        CouplingFn::Linear
    }
}

} // verus!
