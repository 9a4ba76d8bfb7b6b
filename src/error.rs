use vstd::prelude::*;

use crate::serialization;

verus! {

/// Failures of the protocol steps and of the commands around them.
#[derive(Debug)]
pub enum Error {
    /// A cluster label that names no cluster.
    WrongNetwork(String),
    /// Text that is not base58.
    BadBase58,
    /// Key material of the wrong shape.
    WrongKeyPair,
    /// The signer's key is not in the participant list.
    KeyPairIsNotInKeys,
    /// The aggregated signature does not verify.
    InvalidSignature,
    /// Partial signatures disagree on the round nonce.
    MismatchMessages,
    /// A participant of the list sent no first-round message.
    MissingFirstMessage,
    /// Bytes that are not a valid point of the group.
    PointDeserializationFailed,
    /// Bytes that are not a canonical scalar.
    ScalarDeserializationFailed,
    /// A wire artifact could not be decoded.
    SerializationError(serialization::Error),
}

} // verus!
