//! The choice of a TLS identity for an inbound handshake, by the server name
//! that the client presents.
use vstd::prelude::*;
use crate::addr::slice_to_vec;
use crate::headers::{eq_ignore_case, names_match};

verus! {

/// A server name and the identity (an index into the loaded certificate and
/// key pairs) served for it.
pub struct SniEntry {
    pub hostname: Vec<u8>,
    pub identity: usize,
}

/// Server names mapped to identities, with an optional default for names
/// that no entry lists and for handshakes that present none.
pub struct IdentityMap {
    entries: Vec<SniEntry>,
    default: Option<usize>,
}

/// The identity of the first entry whose name matches `sni`, up to ASCII case.
pub open spec fn lookup(entries: Seq<(Seq<u8>, usize)>, sni: Seq<u8>) -> Option<usize>
    decreases entries.len(),
{
    if entries.len() == 0 {
        None
    } else if names_match(entries[0].0, sni) {
        Some(entries[0].1)
    } else {
        lookup(entries.subrange(1, entries.len() as int), sni)
    }
}

/// The identity that a handshake presenting `sni` gets; `None` refuses it.
pub open spec fn identity_for(
    entries: Seq<(Seq<u8>, usize)>,
    default: Option<usize>,
    sni: Option<Seq<u8>>,
) -> Option<usize> {
    match sni {
        Some(s) => match lookup(entries, s) {
            Some(id) => Some(id),
            None => default,
        },
        None => default,
    }
}

impl IdentityMap {
    pub closed spec fn entries(&self) -> Seq<(Seq<u8>, usize)> {
        self.entries@.map_values(|e: SniEntry| (e.hostname@, e.identity))
    }

    pub closed spec fn default_identity(&self) -> Option<usize> {
        self.default
    }

    /// One identity for every server name.
    pub fn single(identity: usize) -> (r: IdentityMap)
        ensures
            r.entries() == Seq::<(Seq<u8>, usize)>::empty(),
            r.default_identity() == Some(identity),
    {
        let r = IdentityMap { entries: Vec::new(), default: Some(identity) };
        assert(r.entries() =~= Seq::<(Seq<u8>, usize)>::empty());
        r
    }

    /// No names and no default: every handshake is refused until names are
    /// added.
    pub fn empty() -> (r: IdentityMap)
        ensures
            r.entries() == Seq::<(Seq<u8>, usize)>::empty(),
            r.default_identity() == None::<usize>,
    {
        let r = IdentityMap { entries: Vec::new(), default: None };
        assert(r.entries() =~= Seq::<(Seq<u8>, usize)>::empty());
        r
    }

    /// Serves `identity` for `hostname`; an earlier entry for the same name
    /// keeps precedence.
    pub fn add(&mut self, hostname: &[u8], identity: usize)
        ensures
            final(self).entries() == old(self).entries().push((hostname@, identity)),
            final(self).default_identity() == old(self).default_identity(),
    {
        self.entries.push(SniEntry { hostname: slice_to_vec(hostname), identity });
        assert(self.entries() =~= old(self).entries().push((hostname@, identity)));
    }

    /// The identity to complete a handshake with, or `None` to refuse it.
    pub fn select_identity(&self, sni: Option<&[u8]>) -> (r: Option<usize>)
        ensures
            sni is None ==> r == identity_for(self.entries(), self.default_identity(), None),
            sni matches Some(s) ==> r == identity_for(
                self.entries(),
                self.default_identity(),
                Some(s@),
            ),
    {
        match sni {
            None => self.default,
            Some(s) => {
                let ghost e = self.entries();
                let mut i: usize = 0;
                assert(e.subrange(0, e.len() as int) =~= e);
                while i < self.entries.len()
                    invariant
                        i <= e.len(),
                        e == self.entries(),
                        sni == Some(s),
                        lookup(e, s@) == lookup(e.subrange(i as int, e.len() as int), s@),
                    decreases self.entries.len() - i,
                {
                    let ghost rest = e.subrange(i as int, e.len() as int);
                    assert(rest.subrange(1, rest.len() as int) =~= e.subrange(
                        i + 1,
                        e.len() as int,
                    ));
                    assert(rest[0] == (self.entries@[i as int].hostname@, self.entries@[i as int].identity));
                    if eq_ignore_case(self.entries[i].hostname.as_slice(), s) {
                        return Some(self.entries[i].identity);
                    }
                    i = i + 1;
                }
                self.default
            },
        }
    }
}

/// A handshake whose server name no entry lists completes with the default
/// identity when there is one, and is refused when there is none.
pub proof fn lemma_unknown_name_uses_default(
    entries: Seq<(Seq<u8>, usize)>,
    default: Option<usize>,
    sni: Seq<u8>,
)
    requires
        forall|i: int| 0 <= i < entries.len() ==> !names_match(#[trigger] entries[i].0, sni),
    ensures
        identity_for(entries, default, Some(sni)) == default,
    decreases entries.len(),
{
    if entries.len() > 0 {
        let rest = entries.subrange(1, entries.len() as int);
        assert(!names_match(entries[0].0, sni));
        assert forall|i: int| 0 <= i < rest.len() implies !names_match(#[trigger] rest[i].0, sni) by {
            assert(rest[i] == entries[i + 1]);
        }
        lemma_unknown_name_uses_default(rest, default, sni);
    }
}

} // verus!
