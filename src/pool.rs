//! The upstream pool: a fixed, non-empty list of backends and a round-robin
//! cursor over it.
use vstd::prelude::*;
use vstd::arithmetic::div_mod::{
    lemma_add_mod_noop,
    lemma_fundamental_div_mod,
    lemma_fundamental_div_mod_converse_mod,
    lemma_mod_twice,
    lemma_small_mod,
};
use crate::addr::{parse_backend, parse_spec, AddrError, BackendAddr};

verus! {

/// Why a pool could not be built.
#[derive(Debug, PartialEq, Eq, Structural, Clone, Copy)]
pub enum PoolError {
    /// The list of backends is empty.
    Empty,
    /// The entry at `index` is not a valid `host:port`.
    InvalidAddress { index: usize, error: AddrError },
}

/// Which backend the call made after `calls` earlier calls picks, in a pool
/// of `n` backends.
pub open spec fn rr_index(calls: nat, n: nat) -> nat
    recommends
        n > 0,
{
    calls % n
}

/// A fixed list of backends with a round-robin cursor. The cursor is the
/// number of selections made so far, kept modulo the pool size.
pub struct UpstreamPool {
    backends: Vec<BackendAddr>,
    cursor: usize,
    calls: Ghost<nat>,
}

/// The addresses that a list of backends holds.
pub open spec fn addrs_view(v: Seq<BackendAddr>) -> Seq<(Seq<u8>, u16)> {
    v.map_values(|b: BackendAddr| b@)
}

proof fn lemma_mod_succ(x: nat, n: nat)
    requires
        n > 0,
    ensures
        (x + 1) % n == if x % n + 1 == n { 0 } else { x % n + 1 },
{
    let q = (x as int) / (n as int);
    let r = (x as int) % (n as int);
    lemma_fundamental_div_mod(x as int, n as int);
    assert(x == q * n + r) by (nonlinear_arith)
        requires x == n * q + r;
    if r + 1 == n {
        assert(x + 1 == (q + 1) * n + 0) by (nonlinear_arith)
            requires x == q * n + r, r + 1 == n;
        lemma_fundamental_div_mod_converse_mod((x + 1) as int, n as int, q + 1, 0);
    } else {
        lemma_fundamental_div_mod_converse_mod((x + 1) as int, n as int, q, r + 1);
    }
}

impl UpstreamPool {
    /// The backends, in the order given at construction.
    pub closed spec fn backends(&self) -> Seq<(Seq<u8>, u16)> {
        addrs_view(self.backends@)
    }

    /// How many selections have been made on this pool.
    pub closed spec fn calls(&self) -> nat {
        self.calls@
    }

    pub closed spec fn wf(&self) -> bool {
        &&& self.backends@.len() > 0
        &&& self.cursor as nat == rr_index(self.calls@, self.backends@.len())
    }

    /// A pool over `backends`; fails exactly when the list is empty.
    pub fn new(backends: Vec<BackendAddr>) -> (r: Result<UpstreamPool, PoolError>)
        ensures
            backends@.len() == 0 <==> r is Err,
            r is Err ==> r == Err::<UpstreamPool, PoolError>(PoolError::Empty),
            r matches Ok(p) ==> p.wf() && p.backends() == addrs_view(backends@) && p.calls()
                == 0,
    {
        if backends.len() == 0 {
            return Err(PoolError::Empty);
        }
        Ok(UpstreamPool { backends, cursor: 0, calls: Ghost(0) })
    }

    /// Number of backends in the pool.
    pub fn len(&self) -> (r: usize)
        requires
            self.wf(),
        ensures
            r == self.backends().len(),
            r > 0,
    {
        self.backends.len()
    }

    /// The backend at `index`.
    pub fn backend(&self, index: usize) -> (r: &BackendAddr)
        requires
            self.wf(),
            index < self.backends().len(),
        ensures
            r@ == self.backends()[index as int],
    {
        &self.backends[index]
    }

    /// Picks the next backend in rotation: the selection made after `k`
    /// earlier ones is backend `k mod n`.
    pub fn select(&mut self) -> (r: BackendAddr)
        requires
            old(self).wf(),
        ensures
            final(self).wf(),
            final(self).backends() == old(self).backends(),
            final(self).calls() == old(self).calls() + 1,
            r@ == old(self).backends()[rr_index(old(self).calls(), old(self).backends().len()) as int],
    {
        let r = self.backends[self.cursor].duplicate();
        let n = self.backends.len();
        proof {
            lemma_mod_succ(self.calls@, n as nat);
        }
        if self.cursor + 1 == n {
            self.cursor = 0;
        } else {
            self.cursor = self.cursor + 1;
        }
        self.calls = Ghost(self.calls@ + 1);
        r
    }
}

/// `p` is a fresh pool over the addresses that `addrs` spell, in order.
pub open spec fn built_from(p: UpstreamPool, addrs: Seq<Vec<u8>>) -> bool {
    &&& p.wf()
    &&& p.calls() == 0
    &&& p.backends().len() == addrs.len()
    &&& forall|i: int|
        0 <= i < addrs.len() ==> parse_spec(#[trigger] addrs[i]@) == Ok::<(Seq<u8>, u16), AddrError>(
            p.backends()[i],
        )
}

/// Entry `index` of `addrs` is the first that does not parse, and fails with
/// `error`.
pub open spec fn first_invalid(addrs: Seq<Vec<u8>>, index: usize, error: AddrError) -> bool {
    &&& index < addrs.len()
    &&& parse_spec(addrs[index as int]@) == Err::<(Seq<u8>, u16), AddrError>(error)
    &&& forall|i: int| 0 <= i < index ==> (#[trigger] parse_spec(addrs[i]@)) is Ok
}

/// Builds a pool from `host:port` texts. Fails with `Empty` on an empty list,
/// else with `InvalidAddress` naming the first entry that does not parse.
pub fn pool_from_list(addrs: &Vec<Vec<u8>>) -> (r: Result<UpstreamPool, PoolError>)
    ensures
        addrs@.len() == 0 ==> r == Err::<UpstreamPool, PoolError>(PoolError::Empty),
        addrs@.len() > 0 ==> match r {
            Ok(p) => built_from(p, addrs@),
            Err(PoolError::InvalidAddress { index, error }) => first_invalid(addrs@, index, error),
            Err(PoolError::Empty) => false,
        },
{
    if addrs.len() == 0 {
        return Err(PoolError::Empty);
    }
    let mut out: Vec<BackendAddr> = Vec::with_capacity(addrs.len());
    let mut i: usize = 0;
    while i < addrs.len()
        invariant
            i <= addrs@.len(),
            out@.len() == i,
            forall|j: int|
                0 <= j < i ==> parse_spec(#[trigger] addrs@[j]@) == Ok::<(Seq<u8>, u16), AddrError>(
                    out@[j]@,
                ),
        decreases addrs.len() - i,
    {
        match parse_backend(addrs[i].as_slice()) {
            Ok(a) => {
                out.push(a);
            },
            Err(e) => {
                return Err(PoolError::InvalidAddress { index: i, error: e });
            },
        }
        i = i + 1;
    }
    let ghost v = out@;
    match UpstreamPool::new(out) {
        Ok(p) => {
            assert(forall|j: int| 0 <= j < v.len() ==> addrs_view(v)[j] == (#[trigger] v[j])@);
            Ok(p)
        },
        Err(e) => Err(e),
    }
}

/// Some selection among the `n` made after `k` earlier ones picks backend `j`.
pub open spec fn picked_within(k: nat, n: nat, j: nat) -> bool {
    exists|i: nat| i < n && #[trigger] rr_index(k + i, n) == j
}

/// A pool that is well formed holds at least one backend, so every
/// selection has a backend to return: only a non-empty list builds one.
pub proof fn lemma_pool_never_empty(p: UpstreamPool)
    requires
        p.wf(),
    ensures
        p.backends().len() > 0,
{
}

/// Over any `n` consecutive selections on a pool of `n` backends, starting
/// after any number `k` of earlier ones, each backend is picked exactly once.
pub proof fn lemma_round_picks_each_once(k: nat, n: nat)
    requires
        n > 0,
    ensures
        forall|j: nat| j < n ==> #[trigger] picked_within(k, n, j),
        forall|i1: nat, i2: nat|
            i1 < n && i2 < n && #[trigger] rr_index(k + i1, n) == #[trigger] rr_index(k + i2, n)
                ==> i1 == i2,
{
    let q = (k as int) / (n as int);
    let r = (k as int) % (n as int);
    lemma_fundamental_div_mod(k as int, n as int);
    assert(k == q * n + r) by (nonlinear_arith)
        requires k == n * q + r;
    assert forall|j: nat| j < n implies #[trigger] picked_within(k, n, j) by {
        if j >= r {
            let i = (j - r) as nat;
            lemma_fundamental_div_mod_converse_mod((k + i) as int, n as int, q, j as int);
            assert(rr_index(k + i, n) == j);
        } else {
            let i = (j + n - r) as nat;
            assert(k + i == (q + 1) * n + j) by (nonlinear_arith)
                requires k == q * n + r, i == j + n - r;
            lemma_fundamental_div_mod_converse_mod((k + i) as int, n as int, q + 1, j as int);
            assert(rr_index(k + i, n) == j);
        }
    }
    assert forall|i1: nat, i2: nat|
        i1 < n && i2 < n && #[trigger] rr_index(k + i1, n) == #[trigger] rr_index(k + i2, n)
        implies i1 == i2 by {
        let a = k + i1;
        let b = k + i2;
        lemma_fundamental_div_mod(a as int, n as int);
        lemma_fundamental_div_mod(b as int, n as int);
        let qa = (a as int) / (n as int);
        let qb = (b as int) / (n as int);
        let m = (a as int) % (n as int);
        assert((b as int) % (n as int) == m);
        assert(i1 - i2 == (qa - qb) * n) by (nonlinear_arith)
            requires a == n * qa + m, b == n * qb + m, a == k + i1, b == k + i2;
        if qa > qb {
            assert((qa - qb) * n >= n) by (nonlinear_arith)
                requires qa - qb >= 1, n > 0;
        } else if qa < qb {
            assert((qa - qb) * n <= -n) by (nonlinear_arith)
                requires qb - qa >= 1, n > 0;
        } else {
            assert((qa - qb) * n == 0) by (nonlinear_arith)
                requires qa == qb;
        }
    }
}

/// A fresh pool picks its backends in order: the selection made after `i`
/// earlier ones, for `i < n`, is backend `i`.
pub proof fn lemma_first_round_in_order(i: nat, n: nat)
    requires
        i < n,
    ensures
        rr_index(i, n) == i,
{
    lemma_small_mod(i, n);
}

/// The selections made after `k` earlier ones are those of a fresh pool
/// rotated by `k mod n`.
pub proof fn lemma_round_is_rotation(k: nat, i: nat, n: nat)
    requires
        n > 0,
        i < n,
    ensures
        rr_index(k + i, n) == rr_index((i + k % n) % n, n),
{
    lemma_add_mod_noop(k as int, i as int, n as int);
    lemma_small_mod(i, n);
    lemma_mod_twice((i + k % n) as int, n as int);
}

} // verus!
