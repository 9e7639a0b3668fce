//! The peer descriptor: where to connect for one request, and how.
use vstd::prelude::*;
use crate::addr::{slice_to_vec, BackendAddr};

verus! {

/// The connection target for one proxied request.
pub struct PeerDescriptor {
    pub addr: BackendAddr,
    /// Whether to speak TLS to the backend.
    pub tls: bool,
    /// The server name to present in the backend handshake.
    pub sni: Vec<u8>,
}

/// The fixed part of every peer descriptor: TLS toward backends or not, and
/// the server name to present.
pub struct PeerPolicy {
    pub tls: bool,
    pub sni: Vec<u8>,
}

impl PeerPolicy {
    pub fn new(tls: bool, sni: &[u8]) -> (r: PeerPolicy)
        ensures
            r.tls == tls,
            r.sni@ == sni@,
    {
        PeerPolicy { tls, sni: slice_to_vec(sni) }
    }

    /// The descriptor for `backend` under this policy.
    pub fn build(&self, backend: BackendAddr) -> (r: PeerDescriptor)
        ensures
            r.addr@ == backend@,
            r.tls == self.tls,
            r.sni@ == self.sni@,
    {
        PeerDescriptor { addr: backend, tls: self.tls, sni: slice_to_vec(self.sni.as_slice()) }
    }
}

} // verus!
