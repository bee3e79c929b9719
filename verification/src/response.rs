//! The outcome of one controller action.

use vstd::prelude::*;

verus! {

/// What an action reports back to the routing layer: a generic success
/// acknowledgment, or an error carrying one human-readable message.
/// No structured error codes are exposed at this layer.
pub enum Response {
    Success,
    Failure(String),
}

impl Response {
    /// True on the success acknowledgment.
    pub open spec fn is_success(self) -> bool {
        self is Success
    }

    /// The message carried by a failure, as a sequence of characters;
    /// the empty sequence on success.
    pub open spec fn message(self) -> Seq<char> {
        match self {
            Response::Success => Seq::empty(),
            Response::Failure(m) => m@,
        }
    }
}

/// The acknowledgment that a persistence write went through.
pub fn respond_ok() -> (r: Response)
    ensures
        r.is_success(),
{
    Response::Success
}

/// An error response carrying the given message verbatim.
pub fn respond_error(message: String) -> (r: Response)
    ensures
        !r.is_success(),
        r.message() == message@,
{
    Response::Failure(message)
}

} // verus!
