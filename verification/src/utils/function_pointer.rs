//! Kernel tags.  The scheduler emits pairs of a node id and a kernel tag;
//! the belief-propagation driver dispatches on the tag.  Node kinds are a
//! closed set, so the tags are an enum rather than function pointers.

use vstd::prelude::*;

verus! {

/// One update kernel, identified by kind, phase and variant.
#[derive(Clone, Copy, Debug, PartialEq, Eq, Structural)]
pub enum FnType {
    PredictionContinuous,
    PredictionVolatile,
    PredictionErrorContinuous,
    PredictionErrorVolatile,
    PredictionErrorExponential,
    PosteriorContinuousStandard,
    PosteriorContinuousEhgf,
    PosteriorContinuousUnbounded,
    PosteriorVolatileStandard,
    PosteriorVolatileEhgf,
    PosteriorVolatileUnbounded,
    LearningFixed,
    LearningDynamic,
}

/// Whether a tag is a prediction-error kernel.
pub open spec fn is_prediction_error_of(f: FnType) -> bool {
    f == FnType::PredictionErrorContinuous || f == FnType::PredictionErrorVolatile || f
        == FnType::PredictionErrorExponential
}

/// Whether a tag is a posterior kernel.
pub open spec fn is_posterior_of(f: FnType) -> bool {
    f == FnType::PosteriorContinuousStandard || f == FnType::PosteriorContinuousEhgf || f
        == FnType::PosteriorContinuousUnbounded || f == FnType::PosteriorVolatileStandard || f
        == FnType::PosteriorVolatileEhgf || f == FnType::PosteriorVolatileUnbounded
}

/// Whether a tag is a learning kernel.
pub open spec fn is_learning_of(f: FnType) -> bool {
    f == FnType::LearningFixed || f == FnType::LearningDynamic
}

/// The name of a kernel tag.
pub open spec fn name_of(f: FnType) -> Seq<char> {
    match f {
        FnType::PredictionContinuous => "prediction_continuous_state_node"@,
        FnType::PredictionVolatile => "prediction_volatile_state_node"@,
        FnType::PredictionErrorContinuous => "prediction_error_continuous_state_node"@,
        FnType::PredictionErrorVolatile => "prediction_error_volatile_state_node"@,
        FnType::PredictionErrorExponential => "prediction_error_exponential_state_node"@,
        FnType::PosteriorContinuousStandard => "posterior_update_continuous_state_node"@,
        FnType::PosteriorContinuousEhgf => "posterior_update_continuous_state_node_ehgf"@,
        FnType::PosteriorContinuousUnbounded => "posterior_update_continuous_state_node_unbounded"@,
        FnType::PosteriorVolatileStandard => "posterior_update_volatile_state_node"@,
        FnType::PosteriorVolatileEhgf => "posterior_update_volatile_state_node_ehgf"@,
        FnType::PosteriorVolatileUnbounded => "posterior_update_volatile_state_node_unbounded"@,
        FnType::LearningFixed => "learning_weights_fixed"@,
        FnType::LearningDynamic => "learning_weights_dynamic"@,
    }
}

impl FnType {
    /// Whether this tag is a prediction-error kernel.
    pub fn is_prediction_error(self) -> (r: bool)
        ensures
            r == is_prediction_error_of(self),
    {
        match self {
            FnType::PredictionErrorContinuous => true,
            FnType::PredictionErrorVolatile => true,
            FnType::PredictionErrorExponential => true,
            _ => false,
        }
    }

    /// Whether this tag is a posterior kernel.
    pub fn is_posterior(self) -> (r: bool)
        ensures
            r == is_posterior_of(self),
    {
        match self {
            FnType::PosteriorContinuousStandard => true,
            FnType::PosteriorContinuousEhgf => true,
            FnType::PosteriorContinuousUnbounded => true,
            FnType::PosteriorVolatileStandard => true,
            FnType::PosteriorVolatileEhgf => true,
            FnType::PosteriorVolatileUnbounded => true,
            _ => false,
        }
    }

    /// Whether this tag is a learning kernel.
    pub fn is_learning(self) -> (r: bool)
        ensures
            r == is_learning_of(self),
    {
        match self {
            FnType::LearningFixed => true,
            FnType::LearningDynamic => true,
            _ => false,
        }
    }

    /// The kernel's name.
    pub fn name(self) -> (r: String)
        ensures
            r@ == name_of(self),
    {
        match self {
            FnType::PredictionContinuous => "prediction_continuous_state_node".to_owned(),
            FnType::PredictionVolatile => "prediction_volatile_state_node".to_owned(),
            FnType::PredictionErrorContinuous => "prediction_error_continuous_state_node".to_owned(),
            FnType::PredictionErrorVolatile => "prediction_error_volatile_state_node".to_owned(),
            FnType::PredictionErrorExponential => "prediction_error_exponential_state_node".to_owned(),
            FnType::PosteriorContinuousStandard => "posterior_update_continuous_state_node".to_owned(),
            FnType::PosteriorContinuousEhgf => "posterior_update_continuous_state_node_ehgf".to_owned(),
            FnType::PosteriorContinuousUnbounded => "posterior_update_continuous_state_node_unbounded".to_owned(),
            FnType::PosteriorVolatileStandard => "posterior_update_volatile_state_node".to_owned(),
            FnType::PosteriorVolatileEhgf => "posterior_update_volatile_state_node_ehgf".to_owned(),
            FnType::PosteriorVolatileUnbounded => "posterior_update_volatile_state_node_unbounded".to_owned(),
            FnType::LearningFixed => "learning_weights_fixed".to_owned(),
            FnType::LearningDynamic => "learning_weights_dynamic".to_owned(),
        }
    }
}

/// The name of every kernel tag, as pairs.
pub fn get_func_map() -> (r: Vec<(FnType, String)>)
    ensures
        r@.len() == 13,
        forall|i: int| 0 <= i < r@.len() ==> (#[trigger] r@[i].1)@ == name_of(r@[i].0),
{
    let mut r: Vec<(FnType, String)> = Vec::new();
    r.push((FnType::PredictionContinuous, FnType::PredictionContinuous.name()));
    r.push((FnType::PredictionVolatile, FnType::PredictionVolatile.name()));
    r.push((FnType::PredictionErrorContinuous, FnType::PredictionErrorContinuous.name()));
    r.push((FnType::PredictionErrorVolatile, FnType::PredictionErrorVolatile.name()));
    r.push((FnType::PredictionErrorExponential, FnType::PredictionErrorExponential.name()));
    r.push((FnType::PosteriorContinuousStandard, FnType::PosteriorContinuousStandard.name()));
    r.push((FnType::PosteriorContinuousEhgf, FnType::PosteriorContinuousEhgf.name()));
    r.push((FnType::PosteriorContinuousUnbounded, FnType::PosteriorContinuousUnbounded.name()));
    r.push((FnType::PosteriorVolatileStandard, FnType::PosteriorVolatileStandard.name()));
    r.push((FnType::PosteriorVolatileEhgf, FnType::PosteriorVolatileEhgf.name()));
    r.push((FnType::PosteriorVolatileUnbounded, FnType::PosteriorVolatileUnbounded.name()));
    r.push((FnType::LearningFixed, FnType::LearningFixed.name()));
    r.push((FnType::LearningDynamic, FnType::LearningDynamic.name()));
    r
}

} // verus!
