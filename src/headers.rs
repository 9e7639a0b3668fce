//! Outbound request headers: an ordered list of (name, value) pairs whose
//! names compare without regard to ASCII case, and the rewriting that sets
//! one header to a single fixed value.
use vstd::prelude::*;
use crate::addr::slice_to_vec;

verus! {

/// Why a header could not be set.
#[derive(Debug, PartialEq, Eq, Structural, Clone, Copy)]
pub enum HeaderError {
    /// The name is empty or holds a byte that is not an HTTP token byte.
    InvalidName,
    /// The value holds a control byte other than horizontal tab, or DEL.
    InvalidValue,
}

pub struct Header {
    pub name: Vec<u8>,
    pub value: Vec<u8>,
}

/// Request headers in their order of arrival; duplicates are allowed.
pub struct RequestHeaders {
    entries: Vec<Header>,
}

pub open spec fn lower_byte(b: u8) -> u8 {
    if 65 <= b <= 90 {
        (b + 32) as u8
    } else {
        b
    }
}

/// Equal names up to ASCII case.
pub open spec fn names_match(a: Seq<u8>, b: Seq<u8>) -> bool {
    a.len() == b.len() && forall|i: int| 0 <= i < a.len() ==> lower_byte(#[trigger] a[i]) == lower_byte(b[i])
}

/// A token byte of HTTP: a letter, a digit, or one of ``!#$%&'*+-.^_`|~``.
pub open spec fn is_token_byte(b: u8) -> bool {
    (48 <= b <= 57) || (65 <= b <= 90) || (97 <= b <= 122) || b == 33 || (35 <= b <= 39) || b == 42
        || b == 43 || b == 45 || b == 46 || b == 94 || b == 95 || b == 96 || b == 124 || b == 126
}

pub open spec fn valid_name(s: Seq<u8>) -> bool {
    s.len() > 0 && forall|i: int| 0 <= i < s.len() ==> is_token_byte(#[trigger] s[i])
}

/// A byte allowed in a header value: horizontal tab, or any byte from space
/// upward but DEL.
pub open spec fn is_value_byte(b: u8) -> bool {
    b == 9 || (b >= 32 && b != 127)
}

pub open spec fn valid_value(s: Seq<u8>) -> bool {
    forall|i: int| 0 <= i < s.len() ==> is_value_byte(#[trigger] s[i])
}

pub open spec fn header_view(h: Header) -> (Seq<u8>, Seq<u8>) {
    (h.name@, h.value@)
}

/// The entries of `h` whose name is not `name`, in their order.
pub open spec fn without_name(h: Seq<(Seq<u8>, Seq<u8>)>, name: Seq<u8>) -> Seq<(Seq<u8>, Seq<u8>)>
    decreases h.len(),
{
    if h.len() == 0 {
        h
    } else {
        let rest = without_name(h.drop_last(), name);
        if names_match(h.last().0, name) {
            rest
        } else {
            rest.push(h.last())
        }
    }
}

/// How many entries of `h` carry `name`.
pub open spec fn count_named(h: Seq<(Seq<u8>, Seq<u8>)>, name: Seq<u8>) -> nat
    decreases h.len(),
{
    if h.len() == 0 {
        0
    } else {
        count_named(h.drop_last(), name) + if names_match(h.last().0, name) { 1nat } else { 0 }
    }
}

/// `h` after setting `name` to `value`: every entry of that name is dropped,
/// the others keep their order, and one entry `(name, value)` ends the list.
pub open spec fn with_header(h: Seq<(Seq<u8>, Seq<u8>)>, name: Seq<u8>, value: Seq<u8>) -> Seq<
    (Seq<u8>, Seq<u8>),
> {
    without_name(h, name).push((name, value))
}

proof fn lemma_names_match_refl(a: Seq<u8>)
    ensures
        names_match(a, a),
{
}

proof fn lemma_without_has_none(h: Seq<(Seq<u8>, Seq<u8>)>, name: Seq<u8>)
    ensures
        count_named(without_name(h, name), name) == 0,
    decreases h.len(),
{
    if h.len() > 0 {
        lemma_without_has_none(h.drop_last(), name);
        let rest = without_name(h.drop_last(), name);
        if !names_match(h.last().0, name) {
            assert(rest.push(h.last()).drop_last() =~= rest);
        }
    }
}

/// Setting a header leaves exactly one entry of that name, and it carries the
/// value set, whether the name was absent, present once, or repeated.
pub proof fn lemma_set_leaves_one(h: Seq<(Seq<u8>, Seq<u8>)>, name: Seq<u8>, value: Seq<u8>)
    ensures
        count_named(with_header(h, name, value), name) == 1,
        with_header(h, name, value).last() == (name, value),
        forall|i: int|
            0 <= i < with_header(h, name, value).len() && names_match(
                #[trigger] with_header(h, name, value)[i].0,
                name,
            ) ==> with_header(h, name, value)[i] == (name, value),
{
    lemma_without_has_none(h, name);
    lemma_names_match_refl(name);
    let w = without_name(h, name);
    assert(w.push((name, value)).drop_last() =~= w);
    assert forall|i: int|
        0 <= i < w.len() implies !names_match(#[trigger] w[i].0, name) by {
        lemma_count_zero_none(w, name, i);
    }
}

proof fn lemma_count_zero_none(h: Seq<(Seq<u8>, Seq<u8>)>, name: Seq<u8>, i: int)
    requires
        count_named(h, name) == 0,
        0 <= i < h.len(),
    ensures
        !names_match(h[i].0, name),
    decreases h.len(),
{
    if i < h.len() - 1 {
        lemma_count_zero_none(h.drop_last(), name, i);
    }
}

/// Compares two names without regard to ASCII case.
pub fn eq_ignore_case(a: &[u8], b: &[u8]) -> (r: bool)
    ensures
        r == names_match(a@, b@),
{
    if a.len() != b.len() {
        return false;
    }
    let mut i: usize = 0;
    while i < a.len()
        invariant
            a.len() == b.len(),
            i <= a.len(),
            forall|j: int| 0 <= j < i ==> lower_byte(#[trigger] a@[j]) == lower_byte(b@[j]),
        decreases a.len() - i,
    {
        let x = a[i];
        let y = b[i];
        let lx = if 65 <= x && x <= 90 { x + 32 } else { x };
        let ly = if 65 <= y && y <= 90 { y + 32 } else { y };
        if lx != ly {
            assert(lower_byte(a@[i as int]) != lower_byte(b@[i as int]));
            return false;
        }
        i = i + 1;
    }
    true
}

fn token_byte(b: u8) -> (r: bool)
    ensures
        r == is_token_byte(b),
{
    (48 <= b && b <= 57) || (65 <= b && b <= 90) || (97 <= b && b <= 122) || b == 33 || (35 <= b
        && b <= 39) || b == 42 || b == 43 || b == 45 || b == 46 || b == 94 || b == 95 || b == 96
        || b == 124 || b == 126
}

/// Whether `s` is a valid header name.
pub fn check_name(s: &[u8]) -> (r: bool)
    ensures
        r == valid_name(s@),
{
    if s.len() == 0 {
        return false;
    }
    let mut i: usize = 0;
    while i < s.len()
        invariant
            i <= s.len(),
            forall|j: int| 0 <= j < i ==> is_token_byte(#[trigger] s@[j]),
        decreases s.len() - i,
    {
        if !token_byte(s[i]) {
            return false;
        }
        i = i + 1;
    }
    true
}

/// Whether `s` is a valid header value.
pub fn check_value(s: &[u8]) -> (r: bool)
    ensures
        r == valid_value(s@),
{
    let mut i: usize = 0;
    while i < s.len()
        invariant
            i <= s.len(),
            forall|j: int| 0 <= j < i ==> is_value_byte(#[trigger] s@[j]),
        decreases s.len() - i,
    {
        let b = s[i];
        if !(b == 9 || (b >= 32 && b != 127)) {
            assert(!is_value_byte(s@[i as int]));
            return false;
        }
        i = i + 1;
    }
    true
}

impl RequestHeaders {
    pub closed spec fn view(&self) -> Seq<(Seq<u8>, Seq<u8>)> {
        self.entries@.map_values(|h: Header| header_view(h))
    }

    /// No headers.
    pub fn new() -> (r: RequestHeaders)
        ensures
            r@ == Seq::<(Seq<u8>, Seq<u8>)>::empty(),
    {
        let r = RequestHeaders { entries: Vec::new() };
        assert(r@ =~= Seq::<(Seq<u8>, Seq<u8>)>::empty());
        r
    }

    pub fn len(&self) -> (r: usize)
        ensures
            r == self@.len(),
    {
        self.entries.len()
    }

    pub fn name_at(&self, i: usize) -> (r: &Vec<u8>)
        requires
            i < self@.len(),
        ensures
            r@ == self@[i as int].0,
    {
        &self.entries[i].name
    }

    pub fn value_at(&self, i: usize) -> (r: &Vec<u8>)
        requires
            i < self@.len(),
        ensures
            r@ == self@[i as int].1,
    {
        &self.entries[i].value
    }

    /// Adds one more entry at the end, beside any of the same name.
    pub fn append(&mut self, name: &[u8], value: &[u8]) -> (r: Result<(), HeaderError>)
        ensures
            !valid_name(name@) ==> r == Err::<(), HeaderError>(HeaderError::InvalidName),
            valid_name(name@) && !valid_value(value@) ==> r == Err::<(), HeaderError>(
                HeaderError::InvalidValue,
            ),
            r is Ok <==> valid_name(name@) && valid_value(value@),
            r is Err ==> final(self)@ == old(self)@,
            r is Ok ==> valid_name(name@) && valid_value(value@) && final(self)@ == old(self)@.push(
                (name@, value@),
            ),
    {
        if !check_name(name) {
            return Err(HeaderError::InvalidName);
        }
        if !check_value(value) {
            return Err(HeaderError::InvalidValue);
        }
        let h = Header { name: slice_to_vec(name), value: slice_to_vec(value) };
        self.entries.push(h);
        assert(self@ =~= old(self)@.push((name@, value@)));
        Ok(())
    }

    /// How many entries carry `name`, up to ASCII case.
    pub fn count_named(&self, name: &[u8]) -> (r: usize)
        ensures
            r == count_named(self@, name@),
    {
        let mut n: usize = 0;
        let mut i: usize = 0;
        while i < self.entries.len()
            invariant
                i <= self@.len(),
                n <= i,
                n == count_named(self@.subrange(0, i as int), name@),
            decreases self.entries.len() - i,
        {
            assert(self@.subrange(0, i + 1).drop_last() =~= self@.subrange(0, i as int));
            if eq_ignore_case(self.entries[i].name.as_slice(), name) {
                n = n + 1;
            }
            i = i + 1;
        }
        assert(self@.subrange(0, self@.len() as int) =~= self@);
        n
    }

    /// Sets `name` to `value`: drops every entry of that name and adds one
    /// `(name, value)` at the end; the other entries keep their order.
    pub fn set(&mut self, name: &[u8], value: &[u8]) -> (r: Result<(), HeaderError>)
        ensures
            !valid_name(name@) ==> r == Err::<(), HeaderError>(HeaderError::InvalidName),
            valid_name(name@) && !valid_value(value@) ==> r == Err::<(), HeaderError>(
                HeaderError::InvalidValue,
            ),
            r is Ok <==> valid_name(name@) && valid_value(value@),
            r is Err ==> final(self)@ == old(self)@,
            r is Ok ==> valid_name(name@) && valid_value(value@) && final(self)@ == with_header(
                old(self)@,
                name@,
                value@,
            ),
    {
        if !check_name(name) {
            return Err(HeaderError::InvalidName);
        }
        if !check_value(value) {
            return Err(HeaderError::InvalidValue);
        }
        let ghost h = self@;
        let mut kept: Vec<Header> = Vec::new();
        let mut i: usize = 0;
        while i < self.entries.len()
            invariant
                i <= self@.len(),
                h == self@,
                kept@.map_values(|e: Header| header_view(e)) == without_name(
                    h.subrange(0, i as int),
                    name@,
                ),
            decreases self.entries.len() - i,
        {
            let e = &self.entries[i];
            assert(h.subrange(0, i + 1).drop_last() =~= h.subrange(0, i as int));
            assert(h.subrange(0, i + 1).last() == header_view(*e));
            if !eq_ignore_case(e.name.as_slice(), name) {
                let ghost before = kept@;
                kept.push(
                    Header { name: slice_to_vec(e.name.as_slice()), value: slice_to_vec(e.value.as_slice()) },
                );
                assert(kept@.map_values(|e: Header| header_view(e)) =~= before.map_values(
                    |e: Header| header_view(e),
                ).push(h.subrange(0, i + 1).last()));
            }
            i = i + 1;
        }
        assert(h.subrange(0, h.len() as int) =~= h);
        let ghost before = kept@;
        kept.push(Header { name: slice_to_vec(name), value: slice_to_vec(value) });
        assert(kept@.map_values(|e: Header| header_view(e)) =~= before.map_values(
            |e: Header| header_view(e),
        ).push((name@, value@)));
        self.entries = kept;
        Ok(())
    }
}

/// The bytes of the name `Host`.
pub open spec fn host_name() -> Seq<u8> {
    seq![72u8, 111u8, 115u8, 116u8]
}

/// Sets the `Host` header of outbound requests to one fixed value.
pub struct HostRewriter {
    pub host: Vec<u8>,
}

impl HostRewriter {
    pub fn new(host: &[u8]) -> (r: HostRewriter)
        ensures
            r.host@ == host@,
    {
        HostRewriter { host: slice_to_vec(host) }
    }

    /// Replaces every `Host` entry of `headers` by one carrying the
    /// configured value; fails, leaving them as they were, if that value is
    /// not a valid header value.
    pub fn rewrite(&self, headers: &mut RequestHeaders) -> (r: Result<(), HeaderError>)
        ensures
            r is Ok <==> valid_value(self.host@),
            r is Err ==> r == Err::<(), HeaderError>(HeaderError::InvalidValue) && final(headers)@
                == old(headers)@,
            r is Ok ==> final(headers)@ == with_header(old(headers)@, host_name(), self.host@),
    {
        let name: [u8; 4] = [72u8, 111u8, 115u8, 116u8];
        assert(name@ =~= host_name());
        assert(valid_name(host_name()));
        headers.set(name.as_slice(), self.host.as_slice())
    }
}

} // verus!
