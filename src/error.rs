use vstd::prelude::*;

verus! {

/// The kinds of failure a blockade operation reports.
#[derive(Clone, Debug)]
pub enum BlockadeError {
    /// The service could not be reached.
    HttpError(String),
    /// The service answered with a failure status; the text is its reply body.
    ServerError(String),
    /// A local precondition did not hold.
    OtherError(String),
    /// A reply did not have the expected shape.
    JsonError(String),
}

} // verus!
