//! Renders the wire bytes of a response: status line, the fixed security
//! headers, an exact `Content-Length`, and the body. Two header presets
//! exist. The default preset (every rejection, and the index document)
//! answers as `text/html; charset=utf-8` with `X-Frame-Options: DENY`. The
//! static preset (allow-listed files only) picks the content type by file
//! extension and adds `X-Frame-Options: SAMEORIGIN` and
//! `Cache-Control: no-store`. A HEAD response always omits the body but
//! carries the `Content-Length` the GET response would have.
use vstd::prelude::*;
use vstd::string::StrSliceExecFns;
use vstd::string::StringSliceAdditionalSpecFns;

use crate::bytes;
use crate::parser::Status;

verus! {

/// The words of the status line for each status.
pub open spec fn spec_status_text(status: Status) -> Seq<u8> {
    match status {
        Status::Success => "200 OK".spec_bytes(),
        Status::BadRequest => "400 Bad Request".spec_bytes(),
        Status::NotFound => "404 Not Found".spec_bytes(),
        Status::MethodNotAllowed => "405 Method Not Allowed".spec_bytes(),
        Status::HeaderFieldsTooLarge => "431 Request Header Fields Too Large".spec_bytes(),
        Status::ServerError => "500 Internal Server Error".spec_bytes(),
    }
}

/// Decimal digits of `n`, most significant first, no leading zeros.
pub open spec fn spec_decimal(n: nat) -> Seq<u8>
    decreases n,
{
    if n < 10 {
        seq![(48 + n) as u8]
    } else {
        spec_decimal(n / 10) + seq![(48 + n % 10) as u8]
    }
}

/// A full response under the default header preset.
pub open spec fn spec_default_response(status: Status, body: Seq<u8>, head: bool) -> Seq<u8> {
    "HTTP/1.1 ".spec_bytes() + spec_status_text(status)
        + "\r\nContent-Type: text/html; charset=utf-8\r\nContent-Length: ".spec_bytes()
        + spec_decimal(body.len())
        + "\r\nConnection: close\r\nX-Content-Type-Options: nosniff\r\nX-Frame-Options: DENY\r\n\r\n".spec_bytes()
        + (if head {
        Seq::<u8>::empty()
    } else {
        body
    })
}

/// A full `200 OK` response under the static-file header preset.
pub open spec fn spec_static_response(css: bool, body: Seq<u8>, head: bool) -> Seq<u8> {
    "HTTP/1.1 200 OK\r\nContent-Type: ".spec_bytes() + (if css {
        "text/css".spec_bytes()
    } else {
        "text/html".spec_bytes()
    }) + "\r\nContent-Length: ".spec_bytes() + spec_decimal(body.len())
        + "\r\nConnection: close\r\nX-Content-Type-Options: nosniff\r\nX-Frame-Options: SAMEORIGIN\r\nCache-Control: no-store\r\n\r\n".spec_bytes()
        + (if head {
        Seq::<u8>::empty()
    } else {
        body
    })
}

/// The words of the status line for each status.
pub fn status_text(status: Status) -> (r: &'static str)
    ensures
        r.spec_bytes() == spec_status_text(status),
{
    match status {
        Status::Success => "200 OK",
        Status::BadRequest => "400 Bad Request",
        Status::NotFound => "404 Not Found",
        Status::MethodNotAllowed => "405 Method Not Allowed",
        Status::HeaderFieldsTooLarge => "431 Request Header Fields Too Large",
        Status::ServerError => "500 Internal Server Error",
    }
}

/// Decimal digits of `n`, most significant first.
pub fn decimal_bytes(n: usize) -> (v: Vec<u8>)
    ensures
        v@ == spec_decimal(n as nat),
{
    let mut digits: Vec<u8> = Vec::new();
    let mut m: usize = n;
    while m >= 10
        invariant
            spec_decimal(n as nat) == spec_decimal(m as nat) + digits@.reverse(),
        decreases m,
    {
        let d: u8 = (48 + (m % 10)) as u8;
        digits.push(d);
        proof {
            assert((digits@.drop_last()).push(d) =~= digits@);
            assert(digits@.reverse() =~= seq![d] + digits@.drop_last().reverse());
        }
        m = m / 10;
    }
    let d: u8 = (48 + m) as u8;
    digits.push(d);
    proof {
        assert(digits@.reverse() =~= seq![d] + digits@.drop_last().reverse());
        assert(spec_decimal(n as nat) =~= digits@.reverse());
    }
    let k = digits.len();
    let mut v: Vec<u8> = Vec::new();
    let mut i: usize = 0;
    while i < k
        invariant
            k == digits@.len(),
            0 <= i <= k,
            v@.len() == i,
            forall|t: int| 0 <= t < i ==> v@[t] == digits@[k - 1 - t],
        decreases k - i,
    {
        v.push(digits[k - 1 - i]);
        i += 1;
    }
    proof {
        assert(v@ =~= digits@.reverse());
    }
    v
}

/// Renders a complete response under the default header preset.
pub fn respond_bytes(status: Status, body: &[u8], head: bool) -> (r: Vec<u8>)
    ensures
        r@ == spec_default_response(status, body@, head),
{
    let mut v = "HTTP/1.1 ".as_bytes_vec();
    bytes::append_slice(&mut v, status_text(status).as_bytes());
    bytes::append_slice(
        &mut v,
        "\r\nContent-Type: text/html; charset=utf-8\r\nContent-Length: ".as_bytes(),
    );
    let clen = decimal_bytes(body.len());
    bytes::append_slice(&mut v, clen.as_slice());
    bytes::append_slice(
        &mut v,
        "\r\nConnection: close\r\nX-Content-Type-Options: nosniff\r\nX-Frame-Options: DENY\r\n\r\n".as_bytes(),
    );
    if !head {
        bytes::append_slice(&mut v, body);
    }
    proof {
        assert(v@ =~= spec_default_response(status, body@, head));
    }
    v
}

/// Renders a complete `200 OK` response under the static-file preset.
pub fn static_bytes(css: bool, body: &[u8], head: bool) -> (r: Vec<u8>)
    ensures
        r@ == spec_static_response(css, body@, head),
{
    let mut v = "HTTP/1.1 200 OK\r\nContent-Type: ".as_bytes_vec();
    if css {
        bytes::append_slice(&mut v, "text/css".as_bytes());
    } else {
        bytes::append_slice(&mut v, "text/html".as_bytes());
    }
    bytes::append_slice(&mut v, "\r\nContent-Length: ".as_bytes());
    let clen = decimal_bytes(body.len());
    bytes::append_slice(&mut v, clen.as_slice());
    bytes::append_slice(
        &mut v,
        "\r\nConnection: close\r\nX-Content-Type-Options: nosniff\r\nX-Frame-Options: SAMEORIGIN\r\nCache-Control: no-store\r\n\r\n".as_bytes(),
    );
    if !head {
        bytes::append_slice(&mut v, body);
    }
    proof {
        assert(v@ =~= spec_static_response(css, body@, head));
    }
    v
}

/// Decides the response for the index document. A missing or unreadable
/// index is a server misconfiguration and is answered `500`; the index
/// itself is served under the default preset.
pub fn index_response(body: Option<&[u8]>, head: bool) -> (r: Vec<u8>)
    ensures
        r@ == (match body {
            Some(b) => spec_default_response(Status::Success, b@, head),
            None => spec_default_response(Status::ServerError, Seq::<u8>::empty(), false),
        }),
{
    match body {
        Some(b) => respond_bytes(Status::Success, b, head),
        None => {
            let empty: Vec<u8> = Vec::new();
            let r = respond_bytes(Status::ServerError, empty.as_slice(), false);
            proof {
                assert(empty@ =~= Seq::<u8>::empty());
            }
            r
        },
    }
}

/// Decides the response for an allow-listed static file. A file that
/// resolved but cannot be read is answered `404`, the same as a path that
/// never resolved, so the reply does not reveal which was the case.
pub fn static_file_response(body: Option<&[u8]>, css: bool, head: bool) -> (r: Vec<u8>)
    ensures
        r@ == (match body {
            Some(b) => spec_static_response(css, b@, head),
            None => spec_default_response(Status::NotFound, Seq::<u8>::empty(), false),
        }),
{
    match body {
        Some(b) => static_bytes(css, b, head),
        None => {
            let empty: Vec<u8> = Vec::new();
            let r = respond_bytes(Status::NotFound, empty.as_slice(), false);
            proof {
                assert(empty@ =~= Seq::<u8>::empty());
            }
            r
        },
    }
}

/// Renders the empty-body rejection response for a status.
pub fn rejection_response(status: Status) -> (r: Vec<u8>)
    ensures
        r@ == spec_default_response(status, Seq::<u8>::empty(), false),
{
    let empty: Vec<u8> = Vec::new();
    let r = respond_bytes(status, empty.as_slice(), false);
    proof {
        assert(empty@ =~= Seq::<u8>::empty());
    }
    r
}

} // verus!
