//! The load balancer: the pool, the peer policy and the host rewriter that
//! every session shares.
use vstd::prelude::*;
use crate::addr::BackendAddr;
use crate::headers::{host_name, valid_value, with_header, HeaderError, HostRewriter, RequestHeaders};
use crate::peer::{PeerDescriptor, PeerPolicy};
use crate::pool::{built_from, first_invalid, pool_from_list, rr_index, PoolError, UpstreamPool};
use crate::session::{Phase, SessionContext};

verus! {

/// A round-robin load balancer over a fixed pool of backends.
pub struct LB {
    pool: UpstreamPool,
    policy: PeerPolicy,
    rewriter: HostRewriter,
}

impl LB {
    pub closed spec fn pool(&self) -> UpstreamPool {
        self.pool
    }

    pub closed spec fn policy(&self) -> PeerPolicy {
        self.policy
    }

    pub closed spec fn rewriter(&self) -> HostRewriter {
        self.rewriter
    }

    pub closed spec fn wf(&self) -> bool {
        self.pool.wf()
    }

    pub fn new(pool: UpstreamPool, policy: PeerPolicy, rewriter: HostRewriter) -> (r: LB)
        requires
            pool.wf(),
        ensures
            r.wf(),
            r.pool() == pool,
            r.policy() == policy,
            r.rewriter() == rewriter,
    {
        LB { pool, policy, rewriter }
    }

    /// A balancer over the `host:port` texts `addrs` that connects in plain
    /// text, presents `sni`, and sets `Host` to `host`. Fails as
    /// `pool_from_list` does.
    pub fn from_list(addrs: &Vec<Vec<u8>>, sni: &[u8], host: &[u8]) -> (r: Result<LB, PoolError>)
        ensures
            addrs@.len() == 0 ==> r == Err::<LB, PoolError>(PoolError::Empty),
            addrs@.len() > 0 ==> match r {
                Ok(lb) => built_from(lb.pool(), addrs@),
                Err(PoolError::InvalidAddress { index, error }) => first_invalid(addrs@, index, error),
                Err(PoolError::Empty) => false,
            },
            r matches Ok(lb) ==> {
                &&& lb.wf()
                &&& !lb.policy().tls
                &&& lb.policy().sni@ == sni@
                &&& lb.rewriter().host@ == host@
            },
    {
        match pool_from_list(addrs) {
            Ok(pool) => Ok(LB { pool, policy: PeerPolicy::new(false, sni), rewriter: HostRewriter::new(host) }),
            Err(e) => Err(e),
        }
    }

    /// A fresh context for a connection just accepted.
    pub fn new_ctx(&self) -> (r: SessionContext)
        ensures
            r.phase == Phase::Start,
            r.identity is None,
            r.trace_id is None,
    {
        SessionContext::new()
    }

    /// The peer for the next request: the next backend in rotation, under
    /// the peer policy.
    pub fn upstream_peer(&mut self) -> (r: PeerDescriptor)
        requires
            old(self).wf(),
        ensures
            final(self).wf(),
            final(self).policy() == old(self).policy(),
            final(self).rewriter() == old(self).rewriter(),
            final(self).pool().backends() == old(self).pool().backends(),
            final(self).pool().calls() == old(self).pool().calls() + 1,
            r.addr@ == old(self).pool().backends()[rr_index(
                old(self).pool().calls(),
                old(self).pool().backends().len(),
            ) as int],
            r.tls == old(self).policy().tls,
            r.sni@ == old(self).policy().sni@,
    {
        let backend: BackendAddr = self.pool.select();
        self.policy.build(backend)
    }

    /// Sets the outbound request's `Host` header to the configured value.
    pub fn upstream_request_filter(&self, upstream_request: &mut RequestHeaders) -> (r: Result<(), HeaderError>)
        ensures
            r is Ok <==> valid_value(self.rewriter().host@),
            r is Err ==> final(upstream_request)@ == old(upstream_request)@,
            r is Ok ==> final(upstream_request)@ == with_header(
                old(upstream_request)@,
                host_name(),
                self.rewriter().host@,
            ),
    {
        self.rewriter.rewrite(upstream_request)
    }
}

} // verus!
