//! Settings from the environment, and the usage that a reply reports.
use vstd::prelude::*;

verus! {

/// Tokens of a request.
#[derive(Clone, Copy, Debug, PartialEq, Eq, Structural)]
pub struct Usage {
    pub prompt_tokens: usize,
    pub completion_tokens: usize,
    pub total_tokens: usize,
}

/// What a setting resolves to.
pub struct Knob {
    pub value: Option<String>,
    /// The value came from the deprecated name, and that has not been said yet.
    pub warn: bool,
}

/// Resolves a setting that has a generic name and a deprecated one: the generic one wins where both are
/// set. `warned` says whether the deprecated name has been complained about before.
pub fn env_knob(generic: Option<String>, deprecated: Option<String>, warned: bool) -> (k: Knob)
    ensures
        k.value == (match generic {
            Some(v) => Some(v),
            None => deprecated,
        }),
        k.warn == (generic is None && deprecated is Some && !warned),
{
    match generic {
        Some(v) => Knob { value: Some(v), warn: false },
        None => match deprecated {
            Some(v) => Knob { value: Some(v), warn: !warned },
            None => Knob { value: None, warn: false },
        },
    }
}

} // verus!
