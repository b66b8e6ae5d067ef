//! Why a message is refused.
use vstd::prelude::*;

verus! {

/// A refusal, and whether another attempt could fare better.
#[derive(Clone, Debug, PartialEq, Eq)]
pub struct TransportError {
    /// What is wrong, for a person to read.
    pub message: String,
    /// Whether the same attempt may succeed later.
    pub retryable: bool,
}

/// What a [`TransportError`] says.
#[verifier::ext_equal]
pub struct Refusal {
    pub message: Seq<char>,
    pub retryable: bool,
}

impl View for TransportError {
    type V = Refusal;

    open spec fn view(&self) -> Refusal {
        Refusal { message: self.message@, retryable: self.retryable }
    }
}

/// The refusal that no later attempt lifts.
pub open spec fn refusal(message: Seq<char>) -> Refusal {
    Refusal { message, retryable: false }
}

/// What a result holds, each side by its view.
pub open spec fn seen<T: View, E: View>(result: Result<T, E>) -> Result<T::V, E::V> {
    match result {
        Ok(value) => Ok(value@),
        Err(error) => Err(error@),
    }
}

impl TransportError {
    /// A refusal that no later attempt lifts.
    pub fn permanent(message: String) -> (error: Self)
        ensures
            error@ == refusal(message@),
            error.message == message,
    {
        TransportError { message, retryable: false }
    }
}

/// The refusal of what does not keep to the protocol; no later attempt lifts it.
pub fn protocol_error(message: String) -> (error: TransportError)
    ensures
        error@ == refusal(message@),
        error.message == message,
{
    TransportError::permanent(message)
}

} // verus!
