//! The error taxonomy of the update core.

use vstd::prelude::*;

verus! {

/// Why one fetch attempt failed: the connection failed, or the response
/// body was not a well-formed feed. Either way the diagnostic is a
/// human-readable message that the ticker surfaces inline.
#[derive(Debug)]
pub enum FetchError {
    Network(String),
    Parse(String),
}

/// Mathematical model of a `FetchError`.
#[verifier::ext_equal]
pub enum FetchErrorData {
    Network(Seq<char>),
    Parse(Seq<char>),
}

impl FetchErrorData {
    /// The human-readable diagnostic the failure carries.
    pub open spec fn message(self) -> Seq<char> {
        match self {
            FetchErrorData::Network(m) => m,
            FetchErrorData::Parse(m) => m,
        }
    }
}

impl View for FetchError {
    type V = FetchErrorData;

    open spec fn view(&self) -> FetchErrorData {
        match self {
            FetchError::Network(m) => FetchErrorData::Network(m@),
            FetchError::Parse(m) => FetchErrorData::Parse(m@),
        }
    }
}

impl DeepView for FetchError {
    type V = FetchErrorData;

    open spec fn deep_view(&self) -> FetchErrorData {
        self.view()
    }
}

impl FetchError {
    /// The diagnostic the failure carries.
    pub fn message(&self) -> (r: &String)
        ensures
            r@ == self@.message(),
    {
        match self {
            FetchError::Network(m) => m,
            FetchError::Parse(m) => m,
        }
    }
}

impl Clone for FetchError {
    fn clone(&self) -> (r: Self)
        ensures
            r == *self,
    {
        match self {
            FetchError::Network(m) => FetchError::Network(m.clone()),
            FetchError::Parse(m) => FetchError::Parse(m.clone()),
        }
    }
}

/// Faults of the core outside fetching: a feed URL rejected by
/// configuration validation, an event that names no configured target,
/// and an event that could not be handed to the dispatch loop at all.
#[derive(Clone, Copy, PartialEq, Eq, Structural, Debug)]
pub enum CoreError {
    InvalidFeedUrl,
    UnknownTarget,
    CouldNotDispatch,
}

} // verus!
