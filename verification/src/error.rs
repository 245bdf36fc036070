use vstd::prelude::*;

verus! {

/// An error type for reporting errors related to TensorDock API
/// interactions, carrying a human-readable message.
#[derive(Debug)]
pub struct TensorDockAPIError {
    pub message: String,
}

/// The two failure kinds a fetch can surface: a transport-level failure
/// (network, connection, HTTP protocol), or a schema failure (the response
/// body was not JSON, or did not match the expected shape). Each carries a
/// diagnostic message.
#[derive(Debug, PartialEq, Eq)]
pub enum FetchError {
    Transport(String),
    Schema(String),
}

impl FetchError {
    /// A schema error carrying the given diagnostic.
    pub fn schema(msg: &str) -> (r: Self)
        ensures
            r is Schema,
    {
        FetchError::Schema(msg.to_owned())
    }

    /// The diagnostic message carried by this error.
    pub fn message(&self) -> (r: &String)
        ensures
            self matches FetchError::Transport(m) ==> r@ == m@,
            self matches FetchError::Schema(m) ==> r@ == m@,
    {
        match self {
            FetchError::Transport(m) => m,
            FetchError::Schema(m) => m,
        }
    }
}

} // verus!
