//! The general guarantees of the pipeline, each proved once and for all
//! over the specification functions that the executable functions follow.
use vstd::prelude::*;
use vstd::utf8::valid_utf8;

use crate::bytes;
use crate::config::MAX_HEADER_LINES;
use crate::config::MAX_HEADER_LINE_LEN;
use crate::config::MAX_REQUEST_LINE_LEN;
use crate::config::MAX_REQUEST_SIZE;
use crate::parser::PlanSpec;
use crate::parser::Status;
use crate::parser::find_nl;
use crate::parser::find_nl_bounds;
use crate::parser::get_bytes;
use crate::parser::head_bytes;
use crate::parser::header_lines;
use crate::parser::headers_ok_from;
use crate::parser::line_at;
use crate::parser::lines_until_blank;
use crate::parser::root_bytes;
use crate::parser::spec_headers_ok;
use crate::parser::spec_method;
use crate::parser::spec_path;
use crate::parser::spec_plan;
use crate::parser::strip_cr;
use crate::resolver::entries_fs_prefix;
use crate::resolver::entries_prefix;
use crate::resolver::html_suffix;
use crate::resolver::spec_resolve;
use crate::resolver::style_req;
use crate::response::spec_default_response;
use crate::response::spec_static_response;

verus! {

/// A request that passes the size, encoding, request-line and header
/// checks but names a method other than GET or HEAD is answered `405`,
/// whatever its path says.
pub proof fn lemma_method_not_allowed(raw: Seq<u8>)
    requires
        0 < raw.len() < MAX_REQUEST_SIZE,
        valid_utf8(raw),
        line_at(raw, 0).len() <= MAX_REQUEST_LINE_LEN,
        spec_headers_ok(raw),
        spec_method(line_at(raw, 0)) != get_bytes(),
        spec_method(line_at(raw, 0)) != head_bytes(),
    ensures
        spec_plan(raw) == PlanSpec::Reject(Status::MethodNotAllowed),
{
}

/// A request whose request line is longer than `MAX_REQUEST_LINE_LEN`
/// bytes is answered `400`.
pub proof fn lemma_long_request_line_rejected(raw: Seq<u8>)
    requires
        0 < raw.len() < MAX_REQUEST_SIZE,
        valid_utf8(raw),
        line_at(raw, 0).len() > MAX_REQUEST_LINE_LEN,
    ensures
        spec_plan(raw) == PlanSpec::Reject(Status::BadRequest),
{
}

/// A header walk that passes keeps the count of header lines within
/// `MAX_HEADER_LINES` and every line within `MAX_HEADER_LINE_LEN`.
proof fn headers_ok_implies_bounded(s: Seq<u8>, p: int, count: int)
    requires
        0 <= p <= s.len(),
        0 <= count <= MAX_HEADER_LINES,
        headers_ok_from(s, p, count),
    ensures
        count + lines_until_blank(s, p).len() <= MAX_HEADER_LINES,
        forall|i: int|
            0 <= i < lines_until_blank(s, p).len() ==> #[trigger] lines_until_blank(s, p)[i].len()
                <= MAX_HEADER_LINE_LEN,
    decreases s.len() - p,
{
    find_nl_bounds(s, p);
    if p < s.len() {
        let j = find_nl(s, p);
        let l = strip_cr(s.subrange(p, j));
        if l.len() != 0 && j < s.len() {
            headers_ok_implies_bounded(s, j + 1, count + 1);
            assert forall|i: int| 0 <= i < lines_until_blank(s, p).len() implies #[trigger] lines_until_blank(
                s,
                p,
            )[i].len() <= MAX_HEADER_LINE_LEN by {
                if i > 0 {
                    assert(lines_until_blank(s, p)[i] == lines_until_blank(s, j + 1)[i - 1]);
                }
            }
        }
    }
}

/// A request whose header block holds more than `MAX_HEADER_LINES` lines,
/// or any header line longer than `MAX_HEADER_LINE_LEN`, is answered
/// `431`.
pub proof fn lemma_header_limits_rejected(raw: Seq<u8>)
    requires
        0 < raw.len() < MAX_REQUEST_SIZE,
        valid_utf8(raw),
        line_at(raw, 0).len() <= MAX_REQUEST_LINE_LEN,
        header_lines(raw).len() > MAX_HEADER_LINES || exists|i: int|
            0 <= i < header_lines(raw).len() && #[trigger] header_lines(raw)[i].len()
                > MAX_HEADER_LINE_LEN,
    ensures
        spec_plan(raw) == PlanSpec::Reject(Status::HeaderFieldsTooLarge),
{
    find_nl_bounds(raw, 0);
    let j = find_nl(raw, 0);
    if spec_headers_ok(raw) {
        if j >= raw.len() {
            assert(header_lines(raw).len() == 0);
        } else {
            headers_ok_implies_bounded(raw, j + 1, 0);
        }
        assert(false);
    }
}

/// A raw read that exactly fills `MAX_REQUEST_SIZE` bytes is answered
/// `431`, whatever the bytes hold.
pub proof fn lemma_capacity_filled_rejected(raw: Seq<u8>)
    requires
        raw.len() == MAX_REQUEST_SIZE,
    ensures
        spec_plan(raw) == PlanSpec::Reject(Status::HeaderFieldsTooLarge),
{
}

/// Under `/entries/`, anything empty, holding `..` or a further slash, or
/// not ending in `.html` resolves to nothing.
pub proof fn lemma_entries_allow_list(rest: Seq<u8>)
    requires
        rest.len() == 0 || bytes::contains_dotdot(rest) || bytes::contains_byte(rest, ('/' as u8))
            || !bytes::ends_with(rest, html_suffix()),
    ensures
        spec_resolve(entries_prefix() + rest) == Option::<Seq<u8>>::None,
{
    let path = entries_prefix() + rest;
    assert(path != style_req()) by {
        if path == style_req() {
            assert(path[1] == style_req()[1]);
            assert(path[1] == entries_prefix()[1]);
        }
    }
    assert(path.subrange(0, 9) =~= entries_prefix());
    assert(path.subrange(9, path.len() as int) =~= rest);
}

/// Under `/entries/`, a non-empty name with no `..`, no further slash,
/// and the `.html` suffix always resolves, to exactly that name inside
/// the entries directory.
pub proof fn lemma_entries_resolve_owed(rest: Seq<u8>)
    requires
        rest.len() > 0,
        !bytes::contains_dotdot(rest),
        !bytes::contains_byte(rest, ('/' as u8)),
        bytes::ends_with(rest, html_suffix()),
    ensures
        spec_resolve(entries_prefix() + rest) == Some(entries_fs_prefix() + rest),
{
    let path = entries_prefix() + rest;
    assert(path != style_req()) by {
        if path == style_req() {
            assert(path[1] == style_req()[1]);
            assert(path[1] == entries_prefix()[1]);
        }
    }
    assert(path.subrange(0, 9) =~= entries_prefix());
    assert(path.subrange(9, path.len() as int) =~= rest);
}

/// A well-formed GET or HEAD request for `/` is always planned as the
/// index document; the index answer itself stands under the default
/// header preset, never the static one.
pub proof fn lemma_root_serves_index(raw: Seq<u8>)
    requires
        0 < raw.len() < MAX_REQUEST_SIZE,
        valid_utf8(raw),
        line_at(raw, 0).len() <= MAX_REQUEST_LINE_LEN,
        spec_headers_ok(raw),
        spec_method(line_at(raw, 0)) == get_bytes() || spec_method(line_at(raw, 0))
            == head_bytes(),
        spec_path(line_at(raw, 0)) == root_bytes(),
    ensures
        spec_plan(raw) == (PlanSpec::ServeIndex {
            head: spec_method(line_at(raw, 0)) == head_bytes(),
        }),
{
    assert(root_bytes().len() == 1);
}

/// A HEAD response carries exactly the status line and headers of the GET
/// response for the same document — its `Content-Length` included — and
/// differs from it only by the missing body.
pub proof fn lemma_head_omits_body_only(status: Status, css: bool, body: Seq<u8>)
    ensures
        spec_default_response(status, body, false) == spec_default_response(status, body, true)
            + body,
        spec_static_response(css, body, false) == spec_static_response(css, body, true) + body,
{
    assert(spec_default_response(status, body, false) =~= spec_default_response(status, body, true)
        + body);
    assert(spec_static_response(css, body, false) =~= spec_static_response(css, body, true)
        + body);
}

} // verus!
