//! Backend addresses: a host and a port, parsed from `host:port` text.
use vstd::prelude::*;

verus! {

/// One upstream server, identified by its host and its port.
pub struct BackendAddr {
    pub host: Vec<u8>,
    pub port: u16,
}

/// Why a `host:port` text was refused.
#[derive(Debug, PartialEq, Eq, Structural, Clone, Copy)]
pub enum AddrError {
    /// No `:` separates a host from a port.
    MissingPort,
    /// Nothing stands before the last `:`.
    EmptyHost,
    /// What follows the last `:` is not a decimal number below 65536.
    BadPort,
}

impl BackendAddr {
    pub open spec fn view(&self) -> (Seq<u8>, u16) {
        (self.host@, self.port)
    }

    /// A copy of this address.
    pub fn duplicate(&self) -> (r: BackendAddr)
        ensures
            r@ == self@,
    {
        BackendAddr { host: slice_to_vec(self.host.as_slice()), port: self.port }
    }
}

/// A vector holding the bytes of `s`.
pub fn slice_to_vec(s: &[u8]) -> (r: Vec<u8>)
    ensures
        r@ == s@,
{
    let mut r: Vec<u8> = Vec::with_capacity(s.len());
    let mut i: usize = 0;
    while i < s.len()
        invariant
            i <= s.len(),
            r@ == s@.subrange(0, i as int),
        decreases s.len() - i,
    {
        r.push(s[i]);
        i = i + 1;
        assert(r@ =~= s@.subrange(0, i as int));
    }
    assert(r@ =~= s@);
    r
}

pub open spec fn is_digit(b: u8) -> bool {
    48 <= b <= 57
}

/// The number that a run of decimal digits spells.
pub open spec fn decimal_value(s: Seq<u8>) -> nat
    decreases s.len(),
{
    if s.len() == 0 {
        0
    } else {
        decimal_value(s.drop_last()) * 10 + (s.last() - 48) as nat
    }
}

/// Index of the last `:` in `s`, if any.
pub open spec fn last_colon(s: Seq<u8>) -> Option<int>
    decreases s.len(),
{
    if s.len() == 0 {
        None
    } else if s.last() == 58 {
        Some(s.len() - 1)
    } else {
        last_colon(s.drop_last())
    }
}

pub open spec fn valid_port(p: Seq<u8>) -> bool {
    &&& 0 < p.len() <= 5
    &&& forall|i: int| 0 <= i < p.len() ==> is_digit(#[trigger] p[i])
    &&& decimal_value(p) < 65536
}

/// What parsing `s` as `host:port` gives: the host is everything before the
/// last `:`, the port the decimal number after it.
pub open spec fn parse_spec(s: Seq<u8>) -> Result<(Seq<u8>, u16), AddrError> {
    match last_colon(s) {
        None => Err(AddrError::MissingPort),
        Some(c) => if c == 0 {
            Err(AddrError::EmptyHost)
        } else if !valid_port(s.subrange(c + 1, s.len() as int)) {
            Err(AddrError::BadPort)
        } else {
            Ok((s.subrange(0, c), decimal_value(s.subrange(c + 1, s.len() as int)) as u16))
        },
    }
}

proof fn lemma_last_colon(s: Seq<u8>)
    ensures
        match last_colon(s) {
            None => forall|i: int| 0 <= i < s.len() ==> s[i] != 58,
            Some(c) => 0 <= c < s.len() && s[c] == 58 && forall|i: int|
                c < i < s.len() ==> s[i] != 58,
        },
    decreases s.len(),
{
    if s.len() > 0 && s.last() != 58 {
        let t = s.drop_last();
        lemma_last_colon(t);
        assert forall|i: int| 0 <= i < t.len() implies t[i] == s[i] by {}
    }
}

/// Parses `host:port`: the host is what stands before the last `:`.
pub fn parse_backend(s: &[u8]) -> (r: Result<BackendAddr, AddrError>)
    ensures
        match (r, parse_spec(s@)) {
            (Ok(a), Ok(m)) => a@ == m,
            (Err(e), Err(f)) => e == f,
            _ => false,
        },
{
    proof { lemma_last_colon(s@); }
    let mut c: usize = s.len();
    while c > 0 && s[c - 1] != 58
        invariant
            c <= s.len(),
            forall|i: int| c <= i < s.len() ==> s@[i] != 58,
        decreases c,
    {
        c = c - 1;
    }
    if c == 0 {
        return Err(AddrError::MissingPort);
    }
    let colon = c - 1;
    assert(last_colon(s@) == Some(colon as int));
    if colon == 0 {
        return Err(AddrError::EmptyHost);
    }
    let ghost p = s@.subrange(colon + 1, s@.len() as int);
    let n = s.len() - (colon + 1);
    if n == 0 || n > 5 {
        return Err(AddrError::BadPort);
    }
    let mut value: u32 = 0;
    let mut j: usize = colon + 1;
    while j < s.len()
        invariant
            colon + 1 <= j <= s.len(),
            0 < colon,
            last_colon(s@) == Some(colon as int),
            s.len() - (colon + 1) <= 5,
            p == s@.subrange(colon + 1, s@.len() as int),
            forall|i: int| 0 <= i < j - (colon + 1) ==> is_digit(#[trigger] p[i]),
            value as nat == decimal_value(p.subrange(0, j - (colon + 1))),
            value < 100000u32,
            j - (colon + 1) < 5 ==> value < 10000u32,
            j - (colon + 1) < 4 ==> value < 1000u32,
            j - (colon + 1) < 3 ==> value < 100u32,
            j - (colon + 1) < 2 ==> value < 10u32,
            j - (colon + 1) < 1 ==> value == 0,
        decreases s.len() - j,
    {
        let b = s[j];
        if b < 48 || b > 57 {
            assert(p[j - (colon + 1)] == b);
            assert(!is_digit(p[j - (colon + 1)]));
            return Err(AddrError::BadPort);
        }
        let ghost k = j - (colon + 1);
        assert(p.subrange(0, k + 1).drop_last() =~= p.subrange(0, k));
        value = value * 10 + (b - 48) as u32;
        j = j + 1;
    }
    assert(p.subrange(0, p.len() as int) =~= p);
    if value >= 65536 {
        return Err(AddrError::BadPort);
    }
    let mut host: Vec<u8> = Vec::with_capacity(colon);
    let mut i: usize = 0;
    while i < colon
        invariant
            i <= colon < s.len(),
            host@ == s@.subrange(0, i as int),
        decreases colon - i,
    {
        host.push(s[i]);
        i = i + 1;
        assert(host@ =~= s@.subrange(0, i as int));
    }
    Ok(BackendAddr { host, port: value as u16 })
}

} // verus!
