//! User settings: the colors of the progress gradient and how it moves.
use vstd::prelude::*;
use vstd::string::StringExecFns;

verus! {

/// The number of steps of a transition unless the settings say otherwise.
pub const DEFAULT_STEPS: u32 = 100;

#[derive(Clone, Debug)]
pub struct Config {
    pub colors: ColorStopsConfig,
    pub transition: TransitionConfig,
}

/// Hex color strings for the stages of a session.
#[derive(Clone, Debug)]
pub struct ColorStopsConfig {
    pub start: String,
    pub mid: String,
    pub end: String,
    pub paused: String,
}

#[derive(Clone, Debug)]
pub struct TransitionConfig {
    pub curve: CurveType,
    pub steps: u32,
}

/// How progress maps onto the gradient.
#[derive(Clone, Copy, Debug, PartialEq, Eq, Structural)]
pub enum CurveType {
    /// Evenly over time.
    Linear,
    /// Slower at the beginning.
    Sigmoid,
}

impl Default for TransitionConfig {
    fn default() -> (r: TransitionConfig)
        ensures
            r.curve == CurveType::Linear,
            r.steps == DEFAULT_STEPS,
    {
        TransitionConfig { curve: CurveType::Linear, steps: DEFAULT_STEPS }
    }
}

impl Default for Config {
    fn default() -> (r: Config)
        ensures
            r.colors.start@ == "#00ff00"@,
            r.colors.mid@ == "#ffff00"@,
            r.colors.end@ == "#ff0000"@,
            r.colors.paused@ == "#00ffff"@,
            r.transition.curve == CurveType::Linear,
            r.transition.steps == DEFAULT_STEPS,
    {
        Config {
            colors: ColorStopsConfig {
                start: String::from_str("#00ff00"),
                mid: String::from_str("#ffff00"),
                end: String::from_str("#ff0000"),
                paused: String::from_str("#00ffff"),
            },
            transition: TransitionConfig::default(),
        }
    }
}

} // verus!
