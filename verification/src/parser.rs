//! Turns one raw request buffer into a bounded, validated serving plan.
//!
//! The checks run in a fixed order, each short-circuiting to a specific
//! rejection: a capacity-filled read, then malformed UTF-8, then an
//! oversized request line, then the header-block limits, then the method,
//! then the path length, and finally allow-list resolution of the path.
//! `spec_plan` is the mathematical statement of that order; `plan_request`
//! is proved to follow it byte for byte.
use vstd::prelude::*;
use vstd::utf8::valid_utf8;

use crate::bytes;
use crate::config::MAX_HEADER_LINES;
use crate::config::MAX_HEADER_LINE_LEN;
use crate::config::MAX_PATH_LEN;
use crate::config::MAX_REQUEST_LINE_LEN;
use crate::config::MAX_REQUEST_SIZE;
use crate::encoding;
use crate::resolver;

verus! {

/// Status line of every response the server can send.
#[derive(Clone, Copy)]
pub enum Status {
    /// `200 OK`
    Success,
    /// `400 Bad Request`: bad encoding, oversized request line or path.
    BadRequest,
    /// `404 Not Found`: the path is not on the allow-list, or its file is gone.
    NotFound,
    /// `405 Method Not Allowed`: a method other than GET or HEAD.
    MethodNotAllowed,
    /// `431 Request Header Fields Too Large`: a capacity-filled read, too
    /// many header lines, or an oversized header line.
    HeaderFieldsTooLarge,
    /// `500 Internal Server Error`: the mandatory index is unreadable.
    ServerError,
}

/// What the transport should do with one request buffer.
pub enum Plan {
    /// Dead connection: nothing is sent back.
    Abort,
    /// Protocol-level rejection: send this status with an empty body.
    Reject(Status),
    /// Serve the index document.
    ServeIndex { head: bool },
    /// Serve an allow-listed static file from `fs_path`.
    ServeFile { fs_path: Vec<u8>, css: bool, head: bool },
}

/// The mathematical shadow of `Plan`, with sequences for buffers.
pub enum PlanSpec {
    Abort,
    Reject(Status),
    ServeIndex { head: bool },
    ServeFile { fs_path: Seq<u8>, css: bool, head: bool },
}

impl View for Plan {
    type V = PlanSpec;

    open spec fn view(&self) -> PlanSpec {
        match self {
            Plan::Abort => PlanSpec::Abort,
            Plan::Reject(st) => PlanSpec::Reject(*st),
            Plan::ServeIndex { head } => PlanSpec::ServeIndex { head: *head },
            Plan::ServeFile { fs_path, css, head } => PlanSpec::ServeFile {
                fs_path: fs_path@,
                css: *css,
                head: *head,
            },
        }
    }
}

/// ASCII whitespace, the separators recognised inside a request line.
pub open spec fn is_ws(b: u8) -> bool {
    b == 32 || (9 <= b && b <= 13)
}

/// Position of the first line feed at or after `p`, or the end of `s`.
pub open spec fn find_nl(s: Seq<u8>, p: int) -> int
    decreases s.len() - p,
    when 0 <= p <= s.len()
{
    if p >= s.len() || s[p] == 10 {
        p
    } else {
        find_nl(s, p + 1)
    }
}

/// `find_nl` lands between `p` and the end, on a line feed if on anything,
/// and skips no line feed on the way.
pub proof fn find_nl_bounds(s: Seq<u8>, p: int)
    requires
        0 <= p <= s.len(),
    ensures
        p <= find_nl(s, p) <= s.len(),
        find_nl(s, p) < s.len() ==> s[find_nl(s, p)] == 10,
        forall|k: int| p <= k < find_nl(s, p) ==> s[k] != 10,
    decreases s.len() - p,
{
    if p < s.len() && s[p] != 10 {
        find_nl_bounds(s, p + 1);
    }
}

/// A line as `str::lines` yields it: the trailing carriage return, if any,
/// is not part of the line.
pub open spec fn strip_cr(l: Seq<u8>) -> Seq<u8> {
    if l.len() > 0 && l[l.len() - 1] == 13 {
        l.drop_last()
    } else {
        l
    }
}

/// The line of `s` that starts at position `p`.
pub open spec fn line_at(s: Seq<u8>, p: int) -> Seq<u8> {
    strip_cr(s.subrange(p, find_nl(s, p)))
}

/// Position of the first non-whitespace byte at or after `p`.
pub open spec fn skip_ws(s: Seq<u8>, p: int) -> int
    decreases s.len() - p,
    when 0 <= p <= s.len()
{
    if p >= s.len() || !is_ws(s[p]) {
        p
    } else {
        skip_ws(s, p + 1)
    }
}

/// Position of the first whitespace byte at or after `p`.
pub open spec fn token_end(s: Seq<u8>, p: int) -> int
    decreases s.len() - p,
    when 0 <= p <= s.len()
{
    if p >= s.len() || is_ws(s[p]) {
        p
    } else {
        token_end(s, p + 1)
    }
}

/// The method: the first whitespace-separated token of the request line,
/// empty when the line holds none.
pub open spec fn spec_method(line: Seq<u8>) -> Seq<u8> {
    line.subrange(skip_ws(line, 0), token_end(line, skip_ws(line, 0)))
}

/// The path: the second whitespace-separated token of the request line,
/// empty when the line holds no second token.
pub open spec fn spec_path(line: Seq<u8>) -> Seq<u8> {
    let m_end = token_end(line, skip_ws(line, 0));
    let p_start = skip_ws(line, m_end);
    line.subrange(p_start, token_end(line, p_start))
}

/// The bytes of `GET`.
pub open spec fn get_bytes() -> Seq<u8> {
    seq![('G' as u8), ('E' as u8), ('T' as u8)]
}

/// The bytes of `HEAD`.
pub open spec fn head_bytes() -> Seq<u8> {
    seq![('H' as u8), ('E' as u8), ('A' as u8), ('D' as u8)]
}

/// The bytes of `/`, the root path.
pub open spec fn root_bytes() -> Seq<u8> {
    seq![('/' as u8)]
}

/// Walks header lines from position `p` with `count` lines already seen,
/// exactly as the scanner does: an empty line or the end of the buffer
/// stops the walk; a line that lifts the count over `MAX_HEADER_LINES`, or
/// that is longer than `MAX_HEADER_LINE_LEN`, condemns the request.
pub open spec fn headers_ok_from(s: Seq<u8>, p: int, count: int) -> bool
    decreases s.len() - p,
    when 0 <= p <= s.len()
    via headers_ok_from_decreases
{
    if p >= s.len() {
        true
    } else {
        let j = find_nl(s, p);
        let l = strip_cr(s.subrange(p, j));
        if l.len() == 0 {
            true
        } else if count + 1 > MAX_HEADER_LINES || l.len() > MAX_HEADER_LINE_LEN {
            false
        } else if j >= s.len() {
            true
        } else {
            headers_ok_from(s, j + 1, count + 1)
        }
    }
}

#[via_fn]
proof fn headers_ok_from_decreases(s: Seq<u8>, p: int, count: int) {
    find_nl_bounds(s, p);
}

/// The header block of `raw` passes the limits.
pub open spec fn spec_headers_ok(raw: Seq<u8>) -> bool {
    let j = find_nl(raw, 0);
    if j >= raw.len() {
        true
    } else {
        headers_ok_from(raw, j + 1, 0)
    }
}

/// The header lines of `raw`: every line after the first, up to but not
/// including the first empty line.
pub open spec fn header_lines(raw: Seq<u8>) -> Seq<Seq<u8>> {
    let j = find_nl(raw, 0);
    if j >= raw.len() {
        Seq::empty()
    } else {
        lines_until_blank(raw, j + 1)
    }
}

/// The lines of `s` from position `p` on, stopping before the first empty
/// line.
pub open spec fn lines_until_blank(s: Seq<u8>, p: int) -> Seq<Seq<u8>>
    decreases s.len() - p,
    when 0 <= p <= s.len()
    via lines_until_blank_decreases
{
    if p >= s.len() {
        Seq::empty()
    } else {
        let j = find_nl(s, p);
        let l = strip_cr(s.subrange(p, j));
        if l.len() == 0 {
            Seq::empty()
        } else if j >= s.len() {
            seq![l]
        } else {
            seq![l] + lines_until_blank(s, j + 1)
        }
    }
}

#[via_fn]
proof fn lines_until_blank_decreases(s: Seq<u8>, p: int) {
    find_nl_bounds(s, p);
}

/// What the server does with one raw request buffer, stated as one
/// mathematical decision chain.
pub open spec fn spec_plan(raw: Seq<u8>) -> PlanSpec {
    if raw.len() == 0 {
        PlanSpec::Abort
    } else if raw.len() == MAX_REQUEST_SIZE {
        PlanSpec::Reject(Status::HeaderFieldsTooLarge)
    } else if !valid_utf8(raw) {
        PlanSpec::Reject(Status::BadRequest)
    } else {
        let line = line_at(raw, 0);
        if line.len() > MAX_REQUEST_LINE_LEN {
            PlanSpec::Reject(Status::BadRequest)
        } else if !spec_headers_ok(raw) {
            PlanSpec::Reject(Status::HeaderFieldsTooLarge)
        } else {
            let method = spec_method(line);
            let path = spec_path(line);
            if method != get_bytes() && method != head_bytes() {
                PlanSpec::Reject(Status::MethodNotAllowed)
            } else if path.len() > MAX_PATH_LEN {
                PlanSpec::Reject(Status::BadRequest)
            } else if path == root_bytes() {
                PlanSpec::ServeIndex { head: method == head_bytes() }
            } else {
                match resolver::spec_resolve(path) {
                    Some(fs_path) => PlanSpec::ServeFile {
                        fs_path,
                        css: bytes::ends_with(path, resolver::css_suffix()),
                        head: method == head_bytes(),
                    },
                    None => PlanSpec::Reject(Status::NotFound),
                }
            }
        }
    }
}

/// Position of the first line feed at or after `from`.
fn find_newline(s: &[u8], from: usize) -> (r: usize)
    requires
        from <= s@.len(),
    ensures
        r == find_nl(s@, from as int),
        from <= r <= s@.len(),
{
    let n = s.len();
    let mut q: usize = from;
    while q < n && s[q] != 10u8
        invariant
            n == s@.len(),
            from <= q <= n,
            find_nl(s@, from as int) == find_nl(s@, q as int),
        decreases n - q,
    {
        q += 1;
    }
    q
}

/// Position of the first non-whitespace byte at or after `from`.
fn skip_spaces(s: &[u8], from: usize) -> (r: usize)
    requires
        from <= s@.len(),
    ensures
        r == skip_ws(s@, from as int),
        from <= r <= s@.len(),
{
    let n = s.len();
    let mut q: usize = from;
    while q < n && (s[q] == 32u8 || (9u8 <= s[q] && s[q] <= 13u8))
        invariant
            n == s@.len(),
            from <= q <= n,
            skip_ws(s@, from as int) == skip_ws(s@, q as int),
        decreases n - q,
    {
        q += 1;
    }
    q
}

/// Position of the first whitespace byte at or after `from`.
fn scan_token(s: &[u8], from: usize) -> (r: usize)
    requires
        from <= s@.len(),
    ensures
        r == token_end(s@, from as int),
        from <= r <= s@.len(),
{
    let n = s.len();
    let mut q: usize = from;
    while q < n && !(s[q] == 32u8 || (9u8 <= s[q] && s[q] <= 13u8))
        invariant
            n == s@.len(),
            from <= q <= n,
            token_end(s@, from as int) == token_end(s@, q as int),
        decreases n - q,
    {
        q += 1;
    }
    q
}

/// Scans the header block that starts at `start`, line by line.
fn headers_ok(raw: &[u8], start: usize) -> (r: bool)
    requires
        start <= raw@.len(),
    ensures
        r == headers_ok_from(raw@, start as int, 0),
{
    let n = raw.len();
    let mut p: usize = start;
    let mut count: usize = 0;
    while p < n
        invariant
            n == raw@.len(),
            start <= p <= n,
            0 <= count <= MAX_HEADER_LINES,
            headers_ok_from(raw@, start as int, 0) == headers_ok_from(raw@, p as int, count as int),
        decreases n - p,
    {
        let j = find_newline(raw, p);
        proof {
            find_nl_bounds(raw@, p as int);
        }
        let lend = if j > p && raw[j - 1] == 13u8 {
            j - 1
        } else {
            j
        };
        proof {
            assert(raw@.subrange(p as int, j as int).len() == j - p);
            if j > p && raw@[j as int - 1] == 13 {
                assert(raw@.subrange(p as int, j as int)[j - p - 1] == raw@[j as int - 1]);
                assert(strip_cr(raw@.subrange(p as int, j as int)).len() == lend - p);
            } else {
                assert(strip_cr(raw@.subrange(p as int, j as int)).len() == lend - p);
            }
        }
        if lend == p {
            return true;
        }
        if count >= MAX_HEADER_LINES || lend - p > MAX_HEADER_LINE_LEN {
            return false;
        }
        if j >= n {
            return true;
        }
        count += 1;
        p = j + 1;
    }
    true
}

/// The bytes of `GET`.
fn get_token() -> (v: Vec<u8>)
    ensures
        v@ == get_bytes(),
{
    let mut v: Vec<u8> = Vec::new();
    v.push('G' as u8);
    v.push('E' as u8);
    v.push('T' as u8);
    assert(v@ =~= get_bytes());
    v
}

/// The bytes of `HEAD`.
fn head_token() -> (v: Vec<u8>)
    ensures
        v@ == head_bytes(),
{
    let mut v: Vec<u8> = Vec::new();
    v.push('H' as u8);
    v.push('E' as u8);
    v.push('A' as u8);
    v.push('D' as u8);
    assert(v@ =~= head_bytes());
    v
}

/// The bytes of `/`.
fn root_token() -> (v: Vec<u8>)
    ensures
        v@ == root_bytes(),
{
    let mut v: Vec<u8> = Vec::new();
    v.push('/' as u8);
    assert(v@ =~= root_bytes());
    v
}

/// Turns one raw request buffer into the serving plan, following
/// `spec_plan` exactly.
pub fn plan_request(raw: &[u8]) -> (p: Plan)
    requires
        raw@.len() <= MAX_REQUEST_SIZE,
    ensures
        p@ == spec_plan(raw@),
{
    let n = raw.len();
    if n == 0 {
        return Plan::Abort;
    }
    if n == MAX_REQUEST_SIZE {
        return Plan::Reject(Status::HeaderFieldsTooLarge);
    }
    if !encoding::utf8_valid(raw) {
        return Plan::Reject(Status::BadRequest);
    }
    let j = find_newline(raw, 0);
    proof {
        find_nl_bounds(raw@, 0);
    }
    let lend = if j > 0 && raw[j - 1] == 13u8 {
        j - 1
    } else {
        j
    };
    proof {
        assert(raw@.subrange(0, j as int).len() == j);
        if j > 0 && raw@[j as int - 1] == 13 {
            assert(raw@.subrange(0, j as int)[j - 1] == raw@[j as int - 1]);
            assert(line_at(raw@, 0) =~= raw@.subrange(0, lend as int));
        } else {
            assert(line_at(raw@, 0) =~= raw@.subrange(0, lend as int));
        }
    }
    if lend > MAX_REQUEST_LINE_LEN {
        return Plan::Reject(Status::BadRequest);
    }
    let hok = if j >= n {
        true
    } else {
        headers_ok(raw, j + 1)
    };
    proof {
        assert(hok == spec_headers_ok(raw@));
    }
    if !hok {
        return Plan::Reject(Status::HeaderFieldsTooLarge);
    }
    let line = bytes::copy_range(raw, 0, lend);
    let ms = skip_spaces(line.as_slice(), 0);
    let me = scan_token(line.as_slice(), ms);
    let ps = skip_spaces(line.as_slice(), me);
    let pe = scan_token(line.as_slice(), ps);
    let g = get_token();
    let h = head_token();
    let is_get = bytes::range_eq(line.as_slice(), ms, me, g.as_slice());
    let is_head = bytes::range_eq(line.as_slice(), ms, me, h.as_slice());
    proof {
        assert(line@.subrange(ms as int, me as int) == spec_method(line@));
        assert(line@.subrange(ps as int, pe as int) == spec_path(line@));
    }
    if !is_get && !is_head {
        return Plan::Reject(Status::MethodNotAllowed);
    }
    let path = bytes::copy_range(line.as_slice(), ps, pe);
    if path.len() > MAX_PATH_LEN {
        return Plan::Reject(Status::BadRequest);
    }
    let root = root_token();
    if bytes::slice_eq(path.as_slice(), root.as_slice()) {
        return Plan::ServeIndex { head: is_head };
    }
    let css_suf = resolver::css_suffix_token();
    let css = bytes::ends_with_bytes(path.as_slice(), css_suf.as_slice());
    match resolver::resolve_static_path(path.as_slice()) {
        Some(fs_path) => Plan::ServeFile { fs_path, css, head: is_head },
        None => Plan::Reject(Status::NotFound),
    }
}

} // verus!
