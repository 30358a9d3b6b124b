use vstd::prelude::*;

use crate::addr::NodeAddr;
use crate::hex::hex_of;
use crate::hex::hex_upper;

verus! {

/// A macaroon: an opaque bearer token read verbatim from a file.  Its only
/// behaviour is producing the metadata key/value pair attached to a call.
pub struct Macaroon {
    pub bytes: Vec<u8>,
}

impl View for Macaroon {
    type V = Seq<u8>;

    open spec fn view(&self) -> Seq<u8> {
        self.bytes@
    }
}

impl Macaroon {
    pub fn new(bytes: Vec<u8>) -> (m: Macaroon)
        ensures
            m@ == bytes@,
    {
        Macaroon { bytes }
    }

    /// The key under which a macaroon travels as call metadata.
    pub fn metadata_key() -> (r: &'static str)
        ensures
            r@ == "macaroon"@,
    {
        "macaroon"
    }

    /// The metadata value of this macaroon: its bytes, hex-encoded uppercase.
    pub fn metadata_value(&self) -> (v: Vec<u8>)
        ensures
            v@ == hex_of(self@),
    {
        hex_upper(&self.bytes)
    }
}

/// Everything the wallet needs to reach its node: the TLS certificate, the
/// two scoped macaroons, and the resolved address of the RPC endpoint.
/// Immutable after construction.
pub struct Credentials {
    pub certificate: Vec<u8>,
    pub invoice_macaroon: Option<Macaroon>,
    pub readonly_macaroon: Option<Macaroon>,
    pub socket_addr: NodeAddr,
}

} // verus!
