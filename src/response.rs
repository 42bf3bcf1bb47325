//! The frozen response that a completed execution leaves behind.
use vstd::prelude::*;

verus! {

/// A header as name and value bytes.
pub type Header = (Vec<u8>, Vec<u8>);

/// What a header is to the contracts: its name and value bytes.
pub open spec fn header_view(h: Header) -> (Seq<u8>, Seq<u8>) {
    (h.0@, h.1@)
}

/// What a list of headers is to the contracts.
pub open spec fn headers_view(hs: Seq<Header>) -> Seq<(Seq<u8>, Seq<u8>)> {
    hs.map_values(|h: Header| header_view(h))
}

/// ASCII lower case of one byte; other bytes are left alone.
pub open spec fn lower_byte_spec(b: u8) -> u8 {
    if 65 <= b <= 90 {
        (b + 32) as u8
    } else {
        b
    }
}

/// ASCII lower case of a byte string.
pub open spec fn lower_spec(s: Seq<u8>) -> Seq<u8> {
    s.map_values(|b: u8| lower_byte_spec(b))
}

/// Whether a header name is one of the hop-by-hop headers, which concern a
/// single connection and are never replayed. Names compare without regard
/// to ASCII case.
pub open spec fn hop_by_hop_spec(name: Seq<u8>) -> bool {
    let l = lower_spec(name);
    // connection
    ||| l == seq![99u8, 111, 110, 110, 101, 99, 116, 105, 111, 110]
    // keep-alive
    ||| l == seq![107u8, 101, 101, 112, 45, 97, 108, 105, 118, 101]
    // proxy-authenticate
    ||| l == seq![112u8, 114, 111, 120, 121, 45, 97, 117, 116, 104, 101, 110, 116, 105, 99, 97, 116, 101]
    // proxy-authorization
    ||| l == seq![112u8, 114, 111, 120, 121, 45, 97, 117, 116, 104, 111, 114, 105, 122, 97, 116, 105, 111, 110]
    // te
    ||| l == seq![116u8, 101]
    // trailer
    ||| l == seq![116u8, 114, 97, 105, 108, 101, 114]
    // transfer-encoding
    ||| l == seq![116u8, 114, 97, 110, 115, 102, 101, 114, 45, 101, 110, 99, 111, 100, 105, 110, 103]
    // upgrade
    ||| l == seq![117u8, 112, 103, 114, 97, 100, 101]
}

/// The headers that a replay carries: the end-to-end ones, in their order.
pub open spec fn kept_headers(hs: Seq<(Seq<u8>, Seq<u8>)>) -> Seq<(Seq<u8>, Seq<u8>)>
    decreases hs.len(),
{
    if hs.len() == 0 {
        Seq::empty()
    } else {
        let rest = kept_headers(hs.drop_last());
        if hop_by_hop_spec(hs.last().0) {
            rest
        } else {
            rest.push(hs.last())
        }
    }
}

fn lower_byte(b: u8) -> (r: u8)
    ensures
        r == lower_byte_spec(b),
{
    if 65 <= b && b <= 90 {
        b + 32
    } else {
        b
    }
}

/// Whether `s` equals the lower-case byte string `lit` once lower-cased.
fn eq_lower(s: &[u8], lit: &[u8]) -> (r: bool)
    ensures
        r == (lower_spec(s@) == lit@),
{
    if s.len() != lit.len() {
        assert(lower_spec(s@).len() != lit@.len());
        return false;
    }
    let mut i: usize = 0;
    while i < s.len()
        invariant
            s@.len() == lit@.len(),
            0 <= i <= s@.len(),
            forall|j: int| 0 <= j < i ==> lower_byte_spec(s@[j]) == lit@[j],
        decreases s@.len() - i,
    {
        if lower_byte(s[i]) != lit[i] {
            assert(lower_spec(s@)[i as int] != lit@[i as int]);
            return false;
        }
        i = i + 1;
    }
    assert(lower_spec(s@) =~= lit@);
    true
}

/// Whether a header name is hop-by-hop.
pub fn is_hop_by_hop(name: &[u8]) -> (r: bool)
    ensures
        r == hop_by_hop_spec(name@),
{
    let connection: [u8; 10] = [99, 111, 110, 110, 101, 99, 116, 105, 111, 110];
    let keep_alive: [u8; 10] = [107, 101, 101, 112, 45, 97, 108, 105, 118, 101];
    let proxy_authenticate: [u8; 18] = [
        112, 114, 111, 120, 121, 45, 97, 117, 116, 104, 101, 110, 116, 105, 99, 97, 116, 101,
    ];
    let proxy_authorization: [u8; 19] = [
        112, 114, 111, 120, 121, 45, 97, 117, 116, 104, 111, 114, 105, 122, 97, 116, 105, 111, 110,
    ];
    let te: [u8; 2] = [116, 101];
    let trailer: [u8; 7] = [116, 114, 97, 105, 108, 101, 114];
    let transfer_encoding: [u8; 17] = [
        116, 114, 97, 110, 115, 102, 101, 114, 45, 101, 110, 99, 111, 100, 105, 110, 103,
    ];
    let upgrade: [u8; 7] = [117, 112, 103, 114, 97, 100, 101];
    assert(connection@ =~= seq![99u8, 111, 110, 110, 101, 99, 116, 105, 111, 110]);
    assert(keep_alive@ =~= seq![107u8, 101, 101, 112, 45, 97, 108, 105, 118, 101]);
    assert(proxy_authenticate@ =~= seq![112u8, 114, 111, 120, 121, 45, 97, 117, 116, 104, 101, 110, 116, 105, 99, 97, 116, 101]);
    assert(proxy_authorization@ =~= seq![112u8, 114, 111, 120, 121, 45, 97, 117, 116, 104, 111, 114, 105, 122, 97, 116, 105, 111, 110]);
    assert(te@ =~= seq![116u8, 101]);
    assert(trailer@ =~= seq![116u8, 114, 97, 105, 108, 101, 114]);
    assert(transfer_encoding@ =~= seq![116u8, 114, 97, 110, 115, 102, 101, 114, 45, 101, 110, 99, 111, 100, 105, 110, 103]);
    assert(upgrade@ =~= seq![117u8, 112, 103, 114, 97, 100, 101]);
    eq_lower(name, &connection) || eq_lower(name, &keep_alive) || eq_lower(
        name,
        &proxy_authenticate,
    ) || eq_lower(name, &proxy_authorization) || eq_lower(name, &te) || eq_lower(name, &trailer)
        || eq_lower(name, &transfer_encoding) || eq_lower(name, &upgrade)
}


/// A copy of a byte vector with the same contents.
pub fn copy_bytes(v: &Vec<u8>) -> (r: Vec<u8>)
    ensures
        r@ == v@,
{
    let r = v.clone();
    assert(r@ =~= v@);
    r
}

/// The stored outcome of a successful execution.
pub struct CacheElement {
    response: Vec<u8>,
    headers: Vec<Header>,
    statuscode: u16,
    created_at: u64,
}

/// What a stored response is to the contracts.
pub struct CacheView {
    pub status: u16,
    pub headers: Seq<(Seq<u8>, Seq<u8>)>,
    pub body: Seq<u8>,
    pub created_at: u64,
}

impl View for CacheElement {
    type V = CacheView;

    closed spec fn view(&self) -> CacheView {
        CacheView {
            status: self.statuscode,
            headers: headers_view(self.headers@),
            body: self.response@,
            created_at: self.created_at,
        }
    }
}

/// Whether two stored responses are the same on the wire: status, headers
/// and body bytes (the capture time is bookkeeping).
pub open spec fn same_wire(a: CacheView, b: CacheView) -> bool {
    a.status == b.status && a.headers == b.headers && a.body == b.body
}

impl CacheElement {
    /// Freezes a handler's response taken at time `created_at`: status and
    /// body as they are, headers without the hop-by-hop ones.
    pub fn capture(statuscode: u16, headers: &Vec<Header>, response: Vec<u8>, created_at: u64) -> (r:
        CacheElement)
        ensures
            (r@ == CacheView {
                status: statuscode,
                headers: kept_headers(headers_view(headers@)),
                body: response@,
                created_at,
            }),
    {
        let mut kept: Vec<Header> = Vec::new();
        let mut i: usize = 0;
        while i < headers.len()
            invariant
                0 <= i <= headers@.len(),
                headers_view(kept@) == kept_headers(headers_view(headers@.take(i as int))),
            decreases headers@.len() - i,
        {
            let name = copy_bytes(&headers[i].0);
            let value = copy_bytes(&headers[i].1);
            let keep = !is_hop_by_hop(&name);
            proof {
                let hv = headers_view(headers@.take(i + 1));
                assert(hv.drop_last() =~= headers_view(headers@.take(i as int)));
                assert(hv.last() == header_view(headers@[i as int]));
            }
            if keep {
                kept.push((name, value));
                assert(headers_view(kept@) =~= kept_headers(
                    headers_view(headers@.take(i as int)),
                ).push(header_view(headers@[i as int])));
            }
            i = i + 1;
        }
        assert(headers@.take(headers@.len() as int) =~= headers@);
        CacheElement { response, headers: kept, statuscode, created_at }
    }

    /// A second copy of this response, equal to it in every part.
    pub fn duplicate(&self) -> (r: CacheElement)
        ensures
            r@ == self@,
    {
        let mut headers: Vec<Header> = Vec::new();
        let mut i: usize = 0;
        while i < self.headers.len()
            invariant
                0 <= i <= self.headers@.len(),
                headers_view(headers@) == headers_view(self.headers@.take(i as int)),
            decreases self.headers@.len() - i,
        {
            let name = copy_bytes(&self.headers[i].0);
            let value = copy_bytes(&self.headers[i].1);
            let ghost before = headers@;
            headers.push((name, value));
            proof {
                let want = headers_view(self.headers@.take(i + 1));
                assert(want.drop_last() =~= headers_view(self.headers@.take(i as int)));
                assert(headers_view(headers@).drop_last() =~= headers_view(before));
                assert(headers_view(headers@).last() == want.last());
                let got = headers_view(headers@);
                assert(got =~= got.drop_last().push(got.last()));
                assert(want =~= want.drop_last().push(want.last()));
            }
            i = i + 1;
        }
        assert(self.headers@.take(self.headers@.len() as int) =~= self.headers@);
        CacheElement {
            response: copy_bytes(&self.response),
            headers,
            statuscode: self.statuscode,
            created_at: self.created_at,
        }
    }

    /// The status code of the stored response.
    pub fn statuscode(&self) -> (r: u16)
        ensures
            r == self@.status,
    {
        self.statuscode
    }

    /// The body bytes of the stored response.
    pub fn response(&self) -> (r: &Vec<u8>)
        ensures
            r@ == self@.body,
    {
        &self.response
    }

    /// The headers that a replay carries.
    pub fn headers(&self) -> (r: &Vec<Header>)
        ensures
            headers_view(r@) == self@.headers,
    {
        &self.headers
    }

    /// When the response was captured, in milliseconds since the epoch.
    pub fn created_at(&self) -> (r: u64)
        ensures
            r == self@.created_at,
    {
        self.created_at
    }
}

} // verus!
