//! The immutable per-request snapshot handed to the evaluation task, and
//! the bounded body capture that feeds it.

use vstd::prelude::*;

use crate::filter::{Headers, ModSecurityWAF};

verus! {

/// Immutable snapshot of one request's inspected fields, built once per
/// request during the payload phase and owned by the task that evaluates it.
pub struct RequestDescriptor {
    pub uri: String,
    pub method: String,
    pub version: String,
    pub headers: Headers,
    pub body: Vec<u8>,
    pub client_ip: String,
    pub client_port: u16,
    pub server_addr: String,
    pub id: String,
}

/// The mathematical content of a request descriptor.
pub ghost struct DescriptorView {
    pub uri: Seq<char>,
    pub method: Seq<char>,
    pub version: Seq<char>,
    pub headers: Seq<(Seq<char>, Seq<Seq<char>>)>,
    pub body: Seq<u8>,
    pub client_ip: Seq<char>,
    pub client_port: u16,
    pub server_addr: Seq<char>,
    pub id: Seq<char>,
}

impl View for RequestDescriptor {
    type V = DescriptorView;

    open spec fn view(&self) -> DescriptorView {
        DescriptorView {
            uri: self.uri@,
            method: self.method@,
            version: self.version@,
            headers: self.headers.deep_view(),
            body: self.body@,
            client_ip: self.client_ip@,
            client_port: self.client_port,
            server_addr: self.server_addr@,
            id: self.id@,
        }
    }
}

/// The transaction attributes the proxy exposes for one request, as plain
/// values. The protocol version may be unavailable, in which case the
/// descriptor defaults it.
pub struct RequestAttributes {
    pub url: String,
    pub server_addr: String,
    pub client_ip: String,
    pub client_port: u16,
    pub method: String,
    pub id: String,
    pub version: Option<String>,
}

/// The protocol version used when the proxy does not expose one.
pub open spec fn default_version() -> Seq<char> {
    "1.1"@
}

/// What bounded capture keeps of a body: everything when it fits under the
/// cap, otherwise exactly the first `max` bytes.
pub open spec fn spec_captured(body: Seq<u8>, max: int) -> Seq<u8> {
    if body.len() <= max {
        body
    } else {
        body.take(max)
    }
}

/// Captures a request body under the byte cap: a body of length at most
/// `max` is kept unchanged; a longer one is cut to exactly its first `max`
/// bytes.
pub fn capture_body(body: Vec<u8>, max: usize) -> (r: Vec<u8>)
    ensures
        r@ == spec_captured(body@, max as int),
        body@.len() <= max ==> r@ == body@,
        body@.len() > max ==> r@ == body@.take(max as int),
{
    let ghost b0: Seq<u8> = body@;
    let mut r = body;
    r.truncate(max);
    proof {
        if b0.len() > max {
            assert(r@ =~= b0.take(max as int));
        }
    }
    r
}

/// The descriptor a filter state assembles from the proxy's transaction
/// attributes, the accumulated header buffer, and the captured body.
pub open spec fn spec_descriptor(
    s: ModSecurityWAF,
    attrs: RequestAttributes,
    body: Option<Vec<u8>>,
) -> DescriptorView {
    DescriptorView {
        uri: attrs.url@,
        method: attrs.method@,
        version: match attrs.version {
            Some(v) => v@,
            None => default_version(),
        },
        headers: s.current_headers.deep_view(),
        body: match body {
            Some(b) => spec_captured(b@, s.effective_max() as int),
            None => Seq::<u8>::empty(),
        },
        client_ip: attrs.client_ip@,
        client_port: attrs.client_port,
        server_addr: attrs.server_addr@,
        id: attrs.id@,
    }
}

/// Clones a header buffer value for value: the copy holds the same names,
/// the same values, in the same order and multiplicity.
pub fn clone_headers(h: &Headers) -> (r: Headers)
    ensures
        r.deep_view() == h.deep_view(),
        r@.len() == h@.len(),
{
    let mut r: Headers = Vec::new();
    let mut i: usize = 0;
    while i < h.len()
        invariant
            i <= h.len(),
            r@.len() == i,
            r.deep_view() =~= h.deep_view().take(i as int),
        decreases h.len() - i,
    {
        let pair = &h[i];
        let name = pair.0.clone();
        let mut values: Vec<String> = Vec::new();
        let mut k: usize = 0;
        while k < pair.1.len()
            invariant
                k <= pair.1.len(),
                values@ =~= pair.1@.take(k as int),
            decreases pair.1.len() - k,
        {
            values.push(pair.1[k].clone());
            proof {
                assert(values@ =~= pair.1@.take(k + 1));
            }
            k = k + 1;
        }
        proof {
            assert(values@ =~= pair.1@);
            assert(values.deep_view() =~= pair.1.deep_view());
        }
        r.push((name, values));
        proof {
            assert(r.deep_view() =~= h.deep_view().take(i + 1));
        }
        i = i + 1;
    }
    proof {
        assert(r.deep_view() =~= h.deep_view());
    }
    r
}

impl ModSecurityWAF {
    /// Payload phase, assembly half: builds the immutable request snapshot
    /// from the proxy-exposed attributes, this request's header buffer, and
    /// the body captured under the byte cap in force. A missing protocol
    /// version defaults to 1.1; a missing body is captured as empty. The
    /// filter state itself is not touched.
    pub fn build_descriptor(&self, attrs: RequestAttributes, body: Option<Vec<u8>>) -> (d:
        RequestDescriptor)
        ensures
            d@ == spec_descriptor(*self, attrs, body),
    {
        let max = self.effective_max_body_size();
        let captured: Vec<u8> = match body {
            Some(b) => capture_body(b, max),
            None => Vec::new(),
        };
        let version: String = match attrs.version {
            Some(v) => v,
            None => String::from_str("1.1"),
        };
        let headers = clone_headers(&self.current_headers);
        proof {
            assert(headers.deep_view() =~= self.current_headers.deep_view());
        }
        RequestDescriptor {
            uri: attrs.url,
            method: attrs.method,
            version,
            headers,
            body: captured,
            client_ip: attrs.client_ip,
            client_port: attrs.client_port,
            server_addr: attrs.server_addr,
            id: attrs.id,
        }
    }
}

} // verus!
