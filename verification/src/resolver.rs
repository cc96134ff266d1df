//! Allow-list path resolution: maps a validated request path to the one
//! filesystem location it may serve, or to nothing. This is a pure
//! allow-list, not a path joiner: anything with `..`, an inner slash, or an
//! unexpected suffix is refused outright.
use vstd::prelude::*;
use vstd::string::StrSliceExecFns;
use vstd::string::StringSliceAdditionalSpecFns;

use crate::bytes;

verus! {

/// The request path of the stylesheet: the bytes of `/style.css`.
pub open spec fn style_req() -> Seq<u8> {
    seq![
        ('/' as u8),
        ('s' as u8),
        ('t' as u8),
        ('y' as u8),
        ('l' as u8),
        ('e' as u8),
        ('.' as u8),
        ('c' as u8),
        ('s' as u8),
        ('s' as u8),
    ]
}

/// The request prefix of entry documents: the bytes of `/entries/`.
pub open spec fn entries_prefix() -> Seq<u8> {
    seq![
        ('/' as u8),
        ('e' as u8),
        ('n' as u8),
        ('t' as u8),
        ('r' as u8),
        ('i' as u8),
        ('e' as u8),
        ('s' as u8),
        ('/' as u8),
    ]
}

/// The suffix `.html`, the only kind of entry document served.
pub open spec fn html_suffix() -> Seq<u8> {
    seq![('.' as u8), ('h' as u8), ('t' as u8), ('m' as u8), ('l' as u8)]
}

/// The suffix `.css`, which selects the stylesheet content type.
pub open spec fn css_suffix() -> Seq<u8> {
    seq![('.' as u8), ('c' as u8), ('s' as u8), ('s' as u8)]
}

/// Filesystem location of the stylesheet.
pub open spec fn style_fs() -> Seq<u8> {
    "/opt/news/static/style.css".spec_bytes()
}

/// Filesystem directory of the entry documents, with its trailing separator.
pub open spec fn entries_fs_prefix() -> Seq<u8> {
    "/opt/news/static/entries/".spec_bytes()
}

/// The resolution rule. `/style.css` maps to the fixed stylesheet. A path
/// under `/entries/` maps into the entries directory only when what follows
/// the prefix is non-empty, holds no `..` and no further slash, and ends in
/// `.html`. Every other path resolves to nothing.
pub open spec fn spec_resolve(path: Seq<u8>) -> Option<Seq<u8>> {
    if path == style_req() {
        Some(style_fs())
    } else if path.len() >= 9 && path.subrange(0, 9) == entries_prefix() {
        let rest = path.subrange(9, path.len() as int);
        if rest.len() == 0 || bytes::contains_dotdot(rest) || bytes::contains_byte(
            rest,
            ('/' as u8),
        ) || !bytes::ends_with(rest, html_suffix()) {
            None
        } else {
            Some(entries_fs_prefix() + rest)
        }
    } else {
        None
    }
}

/// The bytes of `/style.css`.
fn style_req_token() -> (v: Vec<u8>)
    ensures
        v@ == style_req(),
{
    let mut v: Vec<u8> = Vec::new();
    v.push('/' as u8);
    v.push('s' as u8);
    v.push('t' as u8);
    v.push('y' as u8);
    v.push('l' as u8);
    v.push('e' as u8);
    v.push('.' as u8);
    v.push('c' as u8);
    v.push('s' as u8);
    v.push('s' as u8);
    assert(v@ =~= style_req());
    v
}

/// The bytes of `/entries/`.
fn entries_prefix_token() -> (v: Vec<u8>)
    ensures
        v@ == entries_prefix(),
{
    let mut v: Vec<u8> = Vec::new();
    v.push('/' as u8);
    v.push('e' as u8);
    v.push('n' as u8);
    v.push('t' as u8);
    v.push('r' as u8);
    v.push('i' as u8);
    v.push('e' as u8);
    v.push('s' as u8);
    v.push('/' as u8);
    assert(v@ =~= entries_prefix());
    v
}

/// The bytes of `.html`.
fn html_suffix_token() -> (v: Vec<u8>)
    ensures
        v@ == html_suffix(),
{
    let mut v: Vec<u8> = Vec::new();
    v.push('.' as u8);
    v.push('h' as u8);
    v.push('t' as u8);
    v.push('m' as u8);
    v.push('l' as u8);
    assert(v@ =~= html_suffix());
    v
}

/// The bytes of `.css`.
pub fn css_suffix_token() -> (v: Vec<u8>)
    ensures
        v@ == css_suffix(),
{
    let mut v: Vec<u8> = Vec::new();
    v.push('.' as u8);
    v.push('c' as u8);
    v.push('s' as u8);
    v.push('s' as u8);
    assert(v@ =~= css_suffix());
    v
}

/// Maps a request path to the filesystem location it may serve, following
/// `spec_resolve` exactly.
pub fn resolve_static_path(path: &[u8]) -> (r: Option<Vec<u8>>)
    ensures
        r.is_some() == spec_resolve(path@).is_some(),
        r.is_some() ==> r.unwrap()@ == spec_resolve(path@).unwrap(),
{
    let style = style_req_token();
    if bytes::slice_eq(path, style.as_slice()) {
        let v = "/opt/news/static/style.css".as_bytes_vec();
        return Some(v);
    }
    let prefix = entries_prefix_token();
    if path.len() >= 9 && bytes::range_eq(path, 0, 9, prefix.as_slice()) {
        let rest = bytes::copy_range(path, 9, path.len());
        let html = html_suffix_token();
        if rest.len() == 0 || bytes::find_dotdot(rest.as_slice()) || bytes::find_byte(
            rest.as_slice(),
            '/' as u8,
        ) || !bytes::ends_with_bytes(rest.as_slice(), html.as_slice()) {
            return None;
        }
        let mut v = "/opt/news/static/entries/".as_bytes_vec();
        bytes::append_slice(&mut v, rest.as_slice());
        return Some(v);
    }
    None
}

} // verus!
