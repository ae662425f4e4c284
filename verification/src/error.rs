//! The errors that a witness or an aggregator reports to its caller.

use vstd::prelude::*;

verus! {

/// Why a message was not acted upon. None of these is fatal: the state of the
/// component that reports one is as it was before the message.
#[derive(Clone, Copy, Debug, PartialEq, Eq, Structural)]
pub enum WitnessError {
    /// The sequence number does not immediately follow the committed one.
    StaleOrFutureSequence,
    /// Another root is already locked for this sequence number.
    Equivocation,
    /// A signature does not verify under the key of its claimed author.
    InvalidSignature,
    /// The audit proof does not show the claimed transition.
    InvalidProof,
    /// A certificate carries fewer votes than the quorum threshold.
    InsufficientVotes,
    /// No certificate is archived for the sequence number asked for.
    UnknownSequence,
    /// The transport gave up delivering a message.
    DeliveryFailure,
}

} // verus!
