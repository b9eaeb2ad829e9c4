//! The HTTP request that carries an export document to an OTLP receiver.
use vstd::prelude::*;
use vstd::string::*;

use crate::json::{decimal, length_text};

verus! {

/// Where and how to send export documents.
pub struct TransportConfig {
    /// `host:port` of the receiver.
    pub remote_addr: String,
    /// The request path.
    pub endpoint: String,
    /// Extra request headers, as name and value.
    pub headers: Vec<(String, String)>,
    pub timeout: core::time::Duration,
}

/// The host part of an address: everything before the first colon.
pub open spec fn host_of(addr: Seq<char>) -> Seq<char>
    decreases addr.len(),
{
    if addr.len() == 0 {
        Seq::empty()
    } else if addr[0] == ':' {
        Seq::empty()
    } else {
        seq![addr[0]] + host_of(addr.drop_first())
    }
}

/// The header lines `name: value\r\n`, in order.
pub open spec fn header_lines(headers: Seq<(String, String)>) -> Seq<char>
    decreases headers.len(),
{
    if headers.len() == 0 {
        Seq::empty()
    } else {
        header_lines(headers.drop_last()) + headers.last().0@ + ": "@ + headers.last().1@ + "\r\n"@
    }
}

/// The request line and headers of a POST of `body_len` bytes of JSON,
/// ending with the blank line before the body.
pub open spec fn request_head_doc(config: TransportConfig, body_len: nat) -> Seq<char> {
    "POST "@ + config.endpoint@ + " HTTP/1.1\r\nHost: "@ + host_of(config.remote_addr@)
        + "\r\nContent-Type: application/json\r\nContent-Length: "@ + decimal(body_len)
        + "\r\n"@ + header_lines(config.headers@) + "\r\n"@
}

proof fn lemma_host_prefix(addr: Seq<char>, i: int)
    requires
        0 <= i <= addr.len(),
        forall|j: int| 0 <= j < i ==> addr[j] != ':',
    ensures
        i < addr.len() && addr[i] == ':' ==> host_of(addr) == addr.take(i),
        i == addr.len() ==> host_of(addr) == addr,
    decreases i,
{
    if i > 0 {
        lemma_host_prefix(addr.drop_first(), i - 1);
        assert(addr =~= seq![addr[0]] + addr.drop_first());
        if i < addr.len() && addr[i] == ':' {
            assert(addr.take(i) =~= seq![addr[0]] + addr.drop_first().take(i - 1));
        }
    }
}

/// The host part of `addr` (see `host_of`).
pub fn host_text(addr: &str) -> (r: String)
    ensures
        r@ == host_of(addr@),
{
    let n = addr.unicode_len();
    let mut i: usize = 0;
    while i < n
        invariant
            n == addr@.len(),
            i <= n,
            forall|j: int| 0 <= j < i ==> addr@[j] != ':',
        decreases n - i,
    {
        if addr.get_char(i) == ':' {
            proof {
                lemma_host_prefix(addr@, i as int);
            }
            return addr.substring_char(0, i).to_owned();
        }
        i = i + 1;
    }
    proof {
        lemma_host_prefix(addr@, i as int);
        assert(addr@.subrange(0, n as int) =~= addr@);
    }
    addr.substring_char(0, n).to_owned()
}

/// The request line and headers that precede a body of `body_len` bytes.
pub fn request_head(config: &TransportConfig, body_len: usize) -> (r: String)
    ensures
        r@ == request_head_doc(*config, body_len as nat),
{
    let mut r = String::new();
    r.append("POST ");
    r.append(config.endpoint.as_str());
    r.append(" HTTP/1.1\r\nHost: ");
    r.append(host_text(config.remote_addr.as_str()).as_str());
    r.append("\r\nContent-Type: application/json\r\nContent-Length: ");
    r.append(length_text(body_len).as_str());
    r.append("\r\n");
    let ghost before = r@;
    let mut i: usize = 0;
    while i < config.headers.len()
        invariant
            i <= config.headers@.len(),
            r@ == before + header_lines(config.headers@.take(i as int)),
        decreases config.headers@.len() - i,
    {
        proof {
            assert(config.headers@.take(i + 1).drop_last() =~= config.headers@.take(i as int));
        }
        let (k, v) = &config.headers[i];
        r.append(k.as_str());
        r.append(": ");
        r.append(v.as_str());
        r.append("\r\n");
        i = i + 1;
    }
    assert(config.headers@.take(config.headers@.len() as int) =~= config.headers@);
    r.append("\r\n");
    r
}

} // verus!
