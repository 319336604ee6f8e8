//! The flag data model: the state of a single feature flag as the server
//! describes it, together with the pieces it is built from.

use vstd::prelude::*;

verus! {

/// Where a flag may be read from; carried through unchanged.
#[derive(Clone, Copy, Debug, PartialEq, Eq)]
pub struct ClientSideAvailability {
    pub using_environment_id: bool,
    pub using_mobile_key: bool,
}

/// One slice of a percentage rollout: a variation index and its weight in
/// thousandths of a percent (0 to 100000).
#[derive(Clone, Copy, Debug, PartialEq, Eq)]
pub struct WeightedVariation {
    pub variation: Option<i64>,
    pub weight: Option<i64>,
}

/// A percentage-based split of users across variations.
#[derive(Clone, Debug, PartialEq, Eq)]
pub struct Rollout {
    pub variations: Option<Vec<WeightedVariation>>,
}

/// What a flag falls through to when no target matches: either a fixed
/// variation index or a rollout.
#[derive(Clone, Debug, PartialEq, Eq)]
pub struct Fallthrough {
    pub variation: Option<i64>,
    pub rollout: Option<Rollout>,
}

/// A dependency on another flag evaluating to a given variation.
#[derive(Clone, Debug, PartialEq, Eq)]
pub struct Prerequisite {
    pub key: Option<String>,
    pub variation: Option<i64>,
}

/// An explicit user-key-to-variation override.
#[derive(Clone, Debug, PartialEq, Eq)]
pub struct Target {
    pub values: Option<Vec<String>>,
    pub variation: Option<i64>,
}

/// A targeting rule. Rule matching is not supported: a flag with any rules
/// fails evaluation.
#[derive(Clone, Debug, PartialEq, Eq)]
pub struct Rule {
    pub variation: Option<i64>,
}

/// One possible output value of a flag.
///
/// The server's variation values are arbitrary JSON; the library holds the
/// shapes it can reason about as plain values and keeps the rest opaque.
#[derive(Debug, PartialEq, Eq)]
pub enum Variation {
    Null,
    Bool(bool),
    Int(i64),
    Text(String),
    Other,
}

impl Clone for Variation {
    fn clone(&self) -> (r: Self)
        ensures
            r == *self,
    {
        match self {
            Variation::Null => Variation::Null,
            Variation::Bool(b) => Variation::Bool(*b),
            Variation::Int(n) => Variation::Int(*n),
            Variation::Text(s) => Variation::Text(s.clone()),
            Variation::Other => Variation::Other,
        }
    }
}

/// The full state of one feature flag.
#[derive(Clone, Debug, PartialEq, Eq)]
pub struct FeatureFlagState {
    pub client_side: bool,
    pub client_side_availability: ClientSideAvailability,
    pub deleted: bool,
    pub fallthrough: Fallthrough,
    pub key: String,
    pub off_variation: usize,
    pub on: bool,
    pub prerequisites: Vec<Prerequisite>,
    pub rules: Vec<Rule>,
    pub salt: String,
    pub targets: Vec<Target>,
    pub track_events: bool,
    pub track_events_fallthrough: bool,
    pub variations: Vec<Variation>,
    pub version: u64,
}

} // verus!
