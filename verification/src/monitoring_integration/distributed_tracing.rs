//! Carrier of trace-context headers inside mesh messages.

use vstd::prelude::*;
use vstd::utf8::{decode_utf8, encode_utf8, encode_utf8_decode_utf8, encode_utf8_valid_utf8, valid_utf8};
use crate::keyed::{keyed, keys_distinct, lemma_keyed, lemma_keyed_push, lemma_keyed_update};
use crate::monitoring_integration::error::MonitoringError;

verus! {

/// The four bytes of `n` (below 2^32), most significant first.
pub open spec fn be32(n: nat) -> Seq<u8> {
    seq![(n / 0x1000000) as u8, ((n / 0x10000) % 0x100) as u8, ((n / 0x100) % 0x100) as u8, (n % 0x100) as u8]
}

/// The number that four bytes give, most significant first.
pub open spec fn be32_value(b: Seq<u8>) -> nat {
    (b[0] as nat) * 0x1000000 + (b[1] as nat) * 0x10000 + (b[2] as nat) * 0x100 + (b[3] as nat)
}

/// The eight bytes of `n` (below 2^64), most significant first.
pub open spec fn be64(n: nat) -> Seq<u8> {
    be32(n / 0x1_0000_0000) + be32(n % 0x1_0000_0000)
}

/// The number that eight bytes give, most significant first.
pub open spec fn be64_value(b: Seq<u8>) -> nat {
    be32_value(b) * 0x1_0000_0000 + be32_value(b.subrange(4, 8))
}

/// A text framed for a payload: the length of its UTF-8 encoding in eight
/// bytes, then the encoding.
pub open spec fn framed(t: Seq<char>) -> Seq<u8> {
    be64(encode_utf8(t).len()) + encode_utf8(t)
}

/// The payload of a list of headers: each name and then its value,
/// framed, in order.
pub open spec fn encode_headers(h: Seq<(Seq<char>, Seq<char>)>) -> Seq<u8>
    decreases h.len(),
{
    if h.len() == 0 {
        Seq::empty()
    } else {
        framed(h[0].0) + framed(h[0].1) + encode_headers(h.drop_first())
    }
}

/// Every name and value of the list can be framed: its UTF-8 encoding is
/// shorter than 2^64 bytes (true of every string held in memory).
pub open spec fn frameable(h: Seq<(Seq<char>, Seq<char>)>) -> bool {
    forall|i: int| 0 <= i < h.len() ==> encode_utf8((#[trigger] h[i]).0).len() <= u64::MAX && encode_utf8(h[i].1).len()
        <= u64::MAX
}

/// The framed text at the start of `b`, and what follows it; none when
/// `b` does not start with a complete frame of valid UTF-8.
#[verifier::opaque]
pub open spec fn read_framed(b: Seq<u8>) -> Option<(Seq<char>, Seq<u8>)> {
    if b.len() < 8 {
        None
    } else {
        let n = be64_value(b) as int;
        if 8 + n > b.len() {
            None
        } else if valid_utf8(b.subrange(8, 8 + n)) {
            Some((decode_utf8(b.subrange(8, 8 + n)), b.subrange(8 + n, b.len() as int)))
        } else {
            None
        }
    }
}

/// The headers of a payload, in order; none when the payload is not a
/// sequence of framed name and value pairs.
pub open spec fn decode_headers(b: Seq<u8>) -> Option<Seq<(Seq<char>, Seq<char>)>>
    decreases b.len(),
{
    if b.len() == 0 {
        Some(Seq::empty())
    } else {
        match read_framed(b) {
            None => None,
            Some((k, r1)) => if r1.len() >= b.len() {
                None
            } else {
                match read_framed(r1) {
                    None => None,
                    Some((v, r2)) => if r2.len() >= r1.len() {
                        None
                    } else {
                        match decode_headers(r2) {
                            None => None,
                            Some(rest) => Some(seq![(k, v)] + rest),
                        }
                    },
                }
            },
        }
    }
}

/// A header list as a map; a later header overrides an earlier one.
pub open spec fn headers_map(h: Seq<(Seq<char>, Seq<char>)>) -> Map<Seq<char>, Seq<char>> {
    keyed(h, |p: (Seq<char>, Seq<char>)| p.0, |p: (Seq<char>, Seq<char>)| p.1)
}

proof fn lemma_be32(n: nat)
    requires
        n <= u32::MAX,
    ensures
        be32_value(be32(n)) == n,
        be32(n).len() == 4,
{
    let b = be32(n);
    assert(b[0] as nat == n / 0x1000000);
    assert(b[1] as nat == (n / 0x10000) % 0x100);
    assert(b[2] as nat == (n / 0x100) % 0x100);
    assert(b[3] as nat == n % 0x100);
    assert((n / 0x1000000) * 0x1000000 + ((n / 0x10000) % 0x100) * 0x10000 + ((n / 0x100) % 0x100) * 0x100 + n % 0x100
        == n) by (nonlinear_arith)
        requires
            n <= u32::MAX,
    ;
}

proof fn lemma_be64(n: nat)
    requires
        n <= u64::MAX,
    ensures
        be64_value(be64(n)) == n,
        be64(n).len() == 8,
{
    let hi = n / 0x1_0000_0000;
    let lo = n % 0x1_0000_0000;
    assert(hi <= u32::MAX && lo <= u32::MAX) by (nonlinear_arith)
        requires
            n <= u64::MAX,
            hi == n / 0x1_0000_0000,
            lo == n % 0x1_0000_0000,
    ;
    lemma_be32(hi);
    lemma_be32(lo);
    let b = be64(n);
    assert(be32_value(b) == be32_value(be32(hi)));
    assert(b.subrange(4, 8) =~= be32(lo));
    assert(hi * 0x1_0000_0000 + lo == n) by (nonlinear_arith)
        requires
            hi == n / 0x1_0000_0000,
            lo == n % 0x1_0000_0000,
    ;
}

proof fn lemma_read_framed(t: Seq<char>, rest: Seq<u8>)
    requires
        encode_utf8(t).len() <= u64::MAX,
    ensures
        read_framed(framed(t) + rest) == Some((t, rest)),
        (framed(t) + rest).len() == 8 + encode_utf8(t).len() + rest.len(),
{
    reveal(read_framed);
    let e = encode_utf8(t);
    let b = framed(t) + rest;
    lemma_be64(e.len());
    assert(be32_value(b) == be32_value(be64(e.len())));
    assert(b.subrange(4, 8) =~= be64(e.len()).subrange(4, 8));
    assert(be64_value(b) == be64_value(be64(e.len())));
    assert(b.subrange(8, 8 + e.len() as int) =~= e);
    assert(b.subrange(8 + e.len() as int, b.len() as int) =~= rest);
    encode_utf8_valid_utf8(t);
    encode_utf8_decode_utf8(t);
}

/// Decoding the payload of a list of headers gives the list back.
pub proof fn lemma_decode_encode(h: Seq<(Seq<char>, Seq<char>)>)
    requires
        frameable(h),
    ensures
        decode_headers(encode_headers(h)) == Some(h),
    decreases h.len(),
{
    if h.len() > 0 {
        let t = h.drop_first();
        assert(frameable(t)) by {
            assert forall|i: int| 0 <= i < t.len() implies encode_utf8((#[trigger] t[i]).0).len() <= u64::MAX
                && encode_utf8(t[i].1).len() <= u64::MAX by {
                assert(t[i] == h[i + 1]);
            }
        }
        lemma_decode_encode(t);
        assert(encode_utf8(h[0].0).len() <= u64::MAX);
        let r2 = encode_headers(t);
        let r1 = framed(h[0].1) + r2;
        let b = framed(h[0].0) + r1;
        lemma_read_framed(h[0].1, r2);
        lemma_read_framed(h[0].0, r1);
        assert(encode_headers(h) =~= b);
        assert(read_framed(b) == Some((h[0].0, r1)));
        assert(read_framed(r1) == Some((h[0].1, r2)));
        assert(r1.len() < b.len());
        assert(r2.len() < r1.len());
        assert(decode_headers(r2) == Some(t));
        assert(decode_headers(b) == Some(seq![(h[0].0, h[0].1)] + t));
        assert(seq![(h[0].0, h[0].1)] + t =~= h);
    }
}

fn push_be32(out: &mut Vec<u8>, n: u64)
    requires
        n <= u32::MAX,
    ensures
        final(out)@ == old(out)@ + be32(n as nat),
{
    out.push((n / 0x1000000) as u8);
    out.push(((n / 0x10000) % 0x100) as u8);
    out.push(((n / 0x100) % 0x100) as u8);
    out.push((n % 0x100) as u8);
    assert(final(out)@ =~= old(out)@ + be32(n as nat));
}

fn push_be64(out: &mut Vec<u8>, n: usize)
    ensures
        final(out)@ == old(out)@ + be64(n as nat),
{
    let m = n as u64;
    push_be32(out, m / 0x1_0000_0000);
    push_be32(out, m % 0x1_0000_0000);
    assert(final(out)@ =~= old(out)@ + be64(n as nat));
}

fn push_bytes(out: &mut Vec<u8>, bytes: &[u8])
    ensures
        final(out)@ == old(out)@ + bytes@,
{
    let n = bytes.len();
    let mut i: usize = 0;
    while i < n
        invariant
            n == bytes@.len(),
            i <= n,
            out@ == old(out)@ + bytes@.subrange(0, i as int),
        decreases n - i,
    {
        out.push(bytes[i]);
        assert(bytes@.subrange(0, i + 1) =~= bytes@.subrange(0, i as int).push(bytes@[i as int]));
        i = i + 1;
    }
    assert(bytes@.subrange(0, n as int) =~= bytes@);
}

/// Trusted: `std::str::from_utf8` accepts exactly the valid UTF-8 byte
/// strings and then reads the characters they encode, copied into a
/// `String`.
#[verifier::external_body]
fn utf8_text(bytes: &[u8]) -> (r: Option<String>)
    ensures
        r is Some <==> valid_utf8(bytes@),
        r matches Some(s) ==> s@ == decode_utf8(bytes@),
{
    match std::str::from_utf8(bytes) {
        Ok(s) => Some(s.to_string()),
        Err(_) => None,
    }
}

fn read_framed_at(b: &[u8], pos: usize) -> (r: Option<(String, usize)>)
    requires
        pos <= b@.len(),
    ensures
        match r {
            Some((t, next)) => pos < next <= b@.len() && read_framed(b@.subrange(pos as int, b@.len() as int)) == Some(
                (t@, b@.subrange(next as int, b@.len() as int)),
            ),
            None => read_framed(b@.subrange(pos as int, b@.len() as int)) is None,
        },
{
    let ghost s = b@.subrange(pos as int, b@.len() as int);
    proof { reveal(read_framed); }
    let len = b.len();
    if len - pos < 8 {
        return None;
    }
    let hi: u64 = (b[pos] as u64) * 0x1000000 + (b[pos + 1] as u64) * 0x10000 + (b[pos + 2] as u64) * 0x100
        + (b[pos + 3] as u64);
    let lo: u64 = (b[pos + 4] as u64) * 0x1000000 + (b[pos + 5] as u64) * 0x10000 + (b[pos + 6] as u64) * 0x100
        + (b[pos + 7] as u64);
    assert(hi == be32_value(s));
    assert(s.subrange(4, 8)[0] == s[4] && s.subrange(4, 8)[1] == s[5] && s.subrange(4, 8)[2] == s[6]
        && s.subrange(4, 8)[3] == s[7]);
    assert(lo == be32_value(s.subrange(4, 8)));
    let room = (len - pos - 8) as u64;
    let total: u64 = hi * 0x1_0000_0000 + lo;
    assert(total == be64_value(s));
    if total > room {
        return None;
    }
    let n = total as usize;
    assert(n == be64_value(s));
    let body = vstd::slice::slice_subrange(b, pos + 8, pos + 8 + n);
    assert(body@ =~= s.subrange(8, 8 + n));
    match utf8_text(body) {
        None => None,
        Some(t) => {
            assert(b@.subrange(pos + 8 + n, b@.len() as int) =~= s.subrange(8 + n, s.len() as int));
            Some((t, pos + 8 + n))
        },
    }
}

/// Carrier of trace-context headers for a mesh message.
pub struct MeshMessageCarrier {
    headers: Vec<(String, String)>,
}

/// The name and value of a stored header.
pub open spec fn header_view() -> spec_fn((String, String)) -> (Seq<char>, Seq<char>) {
    |e: (String, String)| (e.0@, e.1@)
}

/// The name of a stored header.
pub open spec fn header_name() -> spec_fn((String, String)) -> Seq<char> {
    |e: (String, String)| e.0@
}

/// The value of a stored header.
pub open spec fn header_value() -> spec_fn((String, String)) -> Seq<char> {
    |e: (String, String)| e.1@
}

impl MeshMessageCarrier {
    /// The headers, by name.
    pub closed spec fn headers_view(&self) -> Map<Seq<char>, Seq<char>> {
        keyed(self.headers@, header_name(), header_value())
    }

    /// The headers in the order they were first set, each name once.
    pub closed spec fn headers_list(&self) -> Seq<(Seq<char>, Seq<char>)> {
        self.headers@.map_values(header_view())
    }

    /// The invariant: no header name occurs twice, and every name and
    /// value can be framed.
    pub closed spec fn wf(&self) -> bool {
        &&& keys_distinct(self.headers@, header_name())
        &&& frameable(self.headers_list())
    }

    /// The list of headers is the map of headers, in order.
    pub proof fn lemma_headers_list(&self)
        requires
            self.wf(),
        ensures
            headers_map(self.headers_list()) == self.headers_view(),
    {
        lemma_headers_list_map(self.headers@);
    }

    /// Creates a carrier with no headers.
    pub fn new() -> (r: Self)
        ensures
            r.wf(),
            r.headers_view() == Map::<Seq<char>, Seq<char>>::empty(),
            r.headers_list() == Seq::<(Seq<char>, Seq<char>)>::empty(),
    {
        let r = MeshMessageCarrier { headers: Vec::new() };
        assert(r.headers_list() =~= Seq::<(Seq<char>, Seq<char>)>::empty());
        r
    }

    /// Creates a carrier from a mesh message payload: the headers that
    /// [`Self::to_payload`] wrote, set in order. A payload that is not such
    /// a sequence of headers is refused.
    pub fn from_payload(payload: &[u8]) -> (r: Result<Self, MonitoringError>)
        ensures
            match decode_headers(payload@) {
                Some(h) => r matches Ok(c) && c.wf() && c.headers_view() == headers_map(h),
                None => r matches Err(MonitoringError::Serialization(_)),
            },
    {
        let mut c = MeshMessageCarrier::new();
        let len = payload.len();
        let mut pos: usize = 0;
        let ghost mut done: Seq<(Seq<char>, Seq<char>)> = Seq::empty();
        assert(payload@.subrange(0, len as int) =~= payload@);
        while pos < len
            invariant
                len == payload@.len(),
                pos <= len,
                c.wf(),
                c.headers_view() == headers_map(done),
                decode_headers(payload@) == match decode_headers(payload@.subrange(pos as int, len as int)) {
                    Some(rest) => Some(done + rest),
                    None => None::<Seq<(Seq<char>, Seq<char>)>>,
                },
            decreases len - pos,
        {
            let ghost s = payload@.subrange(pos as int, len as int);
            let (k, p1) = match read_framed_at(payload, pos) {
                Some(x) => x,
                None => {
                    return Err(MonitoringError::Serialization(String::from_str("malformed header payload")));
                },
            };
            let (v, p2) = match read_framed_at(payload, p1) {
                Some(x) => x,
                None => {
                    return Err(MonitoringError::Serialization(String::from_str("malformed header payload")));
                },
            };
            proof {
                let r2 = payload@.subrange(p2 as int, len as int);
                match decode_headers(r2) {
                    Some(rest) => {
                        assert(decode_headers(s) == Some(seq![(k@, v@)] + rest));
                        assert(done + (seq![(k@, v@)] + rest) =~= done.push((k@, v@)) + rest);
                    },
                    None => {
                        assert(decode_headers(s) is None);
                    },
                }
                lemma_headers_map_push(done, (k@, v@));
                done = done.push((k@, v@));
            }
            c.set(k.as_str(), v.as_str());
            pos = p2;
        }
        assert(payload@.subrange(len as int, len as int) =~= Seq::<u8>::empty());
        assert(done + Seq::<(Seq<char>, Seq<char>)>::empty() =~= done);
        Ok(c)
    }

    /// Converts to a payload: each header's name and value, framed, in the
    /// order of [`Self::headers_list`].
    pub fn to_payload(&self) -> (r: Result<Vec<u8>, MonitoringError>)
        requires
            self.wf(),
        ensures
            r matches Ok(p) && p@ == encode_headers(self.headers_list()),
    {
        let ghost h = self.headers_list();
        let n = self.headers.len();
        let mut out: Vec<u8> = Vec::new();
        let mut i: usize = 0;
        assert(h.subrange(0, n as int) =~= h);
        assert(out@ + encode_headers(h) =~= encode_headers(h));
        while i < n
            invariant
                n == self.headers@.len(),
                h == self.headers_list(),
                h.len() == n,
                i <= n,
                out@ + encode_headers(h.subrange(i as int, n as int)) == encode_headers(h),
            decreases n - i,
        {
            let name = self.headers[i].0.as_str();
            let value = self.headers[i].1.as_str();
            assert(h[i as int] == (name@, value@));
            let kb = name.as_bytes();
            let vb = value.as_bytes();
            let ghost before = out@;
            push_be64(&mut out, kb.len());
            push_bytes(&mut out, kb);
            push_be64(&mut out, vb.len());
            push_bytes(&mut out, vb);
            proof {
                let t = h.subrange(i as int, n as int);
                assert(t.drop_first() =~= h.subrange(i + 1, n as int));
                assert(t[0] == h[i as int]);
                assert(out@ =~= before + framed(name@) + framed(value@));
                assert(encode_headers(t) == framed(name@) + framed(value@) + encode_headers(h.subrange(i + 1, n as int)));
                assert(out@ + encode_headers(h.subrange(i + 1, n as int)) =~= before + encode_headers(t));
            }
            i = i + 1;
        }
        proof {
            assert(h.subrange(n as int, n as int) =~= Seq::<(Seq<char>, Seq<char>)>::empty());
            assert(out@ + Seq::<u8>::empty() =~= out@);
        }
        Ok(out)
    }

    fn find(&self, key: &str) -> (r: Option<usize>)
        requires
            self.wf(),
        ensures
            match r {
                Some(i) => i < self.headers@.len() && self.headers@[i as int].0@ == key@,
                None => !self.headers_view().contains_key(key@),
            },
    {
        proof { lemma_keyed(self.headers@, header_name(), header_value()); }
        let n = self.headers.len();
        let mut i: usize = 0;
        while i < n
            invariant
                n == self.headers@.len(),
                i <= n,
                forall|j: int| 0 <= j < i ==> self.headers@[j].0@ != key@,
            decreases n - i,
        {
            if crate::text::str_eq(self.headers[i].0.as_str(), key) {
                return Some(i);
            }
            i = i + 1;
        }
        None
    }

    /// Sets a header.
    pub fn set(&mut self, key: &str, value: &str)
        requires
            old(self).wf(),
        ensures
            final(self).wf(),
            final(self).headers_view() == old(self).headers_view().insert(key@, value@),
    {
        let kl = key.as_bytes().len();
        let vl = value.as_bytes().len();
        let e = (String::from_str(key), String::from_str(value));
        assert(encode_utf8(e.0@).len() <= u64::MAX && encode_utf8(e.1@).len() <= u64::MAX);
        let ghost h0 = self.headers_list();
        match self.find(key) {
            Some(i) => {
                proof { lemma_keyed_update(self.headers@, header_name(), header_value(), i as int, e); }
                self.headers.set(i, e);
                assert(self.headers_list() =~= h0.update(i as int, (e.0@, e.1@)));
            },
            None => {
                proof { lemma_keyed_push(self.headers@, header_name(), header_value(), e); }
                self.headers.push(e);
                assert(self.headers_list() =~= h0.push((e.0@, e.1@)));
            },
        }
    }

    /// Returns a header.
    pub fn get(&self, key: &str) -> (r: Option<&str>)
        requires
            self.wf(),
        ensures
            self.headers_view().contains_key(key@) ==> (r matches Some(v) && v@ == self.headers_view()[key@]),
            !self.headers_view().contains_key(key@) ==> r is None,
    {
        proof { lemma_keyed(self.headers@, header_name(), header_value()); }
        match self.find(key) {
            Some(i) => Some(self.headers[i].1.as_str()),
            None => None,
        }
    }
}

impl Default for MeshMessageCarrier {
    fn default() -> (r: Self)
        ensures
            r.headers_view() == Map::<Seq<char>, Seq<char>>::empty(),
    {
        Self::new()
    }
}

proof fn lemma_headers_map_push(h: Seq<(Seq<char>, Seq<char>)>, p: (Seq<char>, Seq<char>))
    ensures
        headers_map(h.push(p)) == headers_map(h).insert(p.0, p.1),
{
    assert(h.push(p).drop_last() =~= h);
}

proof fn lemma_headers_list_map(v: Seq<(String, String)>)
    ensures
        headers_map(v.map_values(header_view())) == keyed(v, header_name(), header_value()),
    decreases v.len(),
{
    if v.len() > 0 {
        lemma_headers_list_map(v.drop_last());
        assert(v.map_values(header_view()).drop_last() =~= v.drop_last().map_values(header_view()));
    }
}

/// A carrier rebuilt from the payload of another holds the same headers.
pub proof fn law_payload_round_trip(c: MeshMessageCarrier, payload: Seq<u8>)
    requires
        c.wf(),
        payload == encode_headers(c.headers_list()),
    ensures
        decode_headers(payload) == Some(c.headers_list()),
        headers_map(c.headers_list()) == c.headers_view(),
{
    lemma_decode_encode(c.headers_list());
    c.lemma_headers_list();
}

/// A header set on a carrier is read back as set, and the other headers
/// stay as they were.
pub proof fn law_set_then_get(headers: Map<Seq<char>, Seq<char>>, key: Seq<char>, value: Seq<char>)
    ensures
        headers.insert(key, value).contains_key(key),
        headers.insert(key, value)[key] == value,
        forall|k: Seq<char>| k != key ==> (#[trigger] headers.insert(key, value).contains_key(k) == headers.contains_key(k)),
        forall|k: Seq<char>| k != key && headers.contains_key(k) ==> #[trigger] headers.insert(key, value)[k] == headers[k],
{
}

} // verus!
