//! Chain identities: the account keys of the destination chain.

use vstd::prelude::*;
use crate::bytes::copy_all;

verus! {

/// A destination-chain identity. Identities produced by the receipt verifier
/// are 32 bytes long.
#[derive(Debug, Clone, PartialEq, Eq, Hash)]
pub struct ActorId {
    pub bytes: Vec<u8>,
}

impl View for ActorId {
    type V = Seq<u8>;

    open spec fn view(&self) -> Seq<u8> {
        self.bytes@
    }
}

impl ActorId {
    /// Wraps raw identity bytes.
    pub fn from_bytes(bytes: Vec<u8>) -> (r: ActorId)
        ensures
            r@ == bytes@,
    {
        ActorId { bytes }
    }

    /// A fresh copy of this identity.
    pub fn duplicate(&self) -> (r: ActorId)
        ensures
            r@ == self@,
    {
        ActorId { bytes: copy_all(&self.bytes) }
    }
}

} // verus!
