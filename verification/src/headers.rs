//! The header set of a request, kept in hyper's own `HeaderMap`, and the
//! policy that strips framing headers before a request is forwarded.

use hyper::header::HeaderValue;
use hyper::HeaderMap;
use vstd::prelude::*;

verus! {

/// hyper's `HeaderMap`, the multimap from header names to values. The
/// verifier sees nothing inside it; [`header_fields`] names what it holds.
#[verifier::external_type_specification]
#[verifier::external_body]
#[verifier::reject_recursive_types(T)]
pub struct ExHeaderMap<T>(HeaderMap<T>);

/// hyper's `HeaderValue`, the bytes of one header value. The verifier sees
/// nothing inside it.
#[verifier::external_type_specification]
#[verifier::external_body]
pub struct ExHeaderValue(HeaderValue);

/// What a header map holds: for each header name present, the values stored
/// under it, in the order in which they were added. A name appears in the
/// lower-case form in which `HeaderMap` keeps it, whatever its case on the wire.
pub uninterp spec fn header_fields(headers: HeaderMap<HeaderValue>) -> Map<Seq<char>, Seq<Seq<u8>>>;

/// True when `name` holds no upper-case ASCII letter.
pub open spec fn is_lower_case(name: Seq<char>) -> bool {
    forall|i: int| 0 <= i < name.len() ==> !('A' <= #[trigger] name[i] <= 'Z')
}

/// `HeaderMap::remove`, called with a `&str` key.
///
/// The map looks the key up by its lower-case form and, when it finds the
/// name, drops the entry with every value stored under it; a key that is no
/// valid header name matches nothing. For a key without upper-case letters
/// this is the removal of that key from `header_fields`.
#[verifier::external_body]
fn remove_header(headers: &mut HeaderMap<HeaderValue>, name: &str)
    requires
        is_lower_case(name@),
    ensures
        header_fields(*final(headers)) == header_fields(*old(headers)).remove(name@),
{
    headers.remove(name);
}

/// The names of the headers that describe how the inbound message was framed
/// and encoded, which the transport to the upstream sets anew.
pub open spec fn framing_headers() -> Set<Seq<char>> {
    set!["content-length"@, "transfer-encoding"@, "accept-encoding"@, "content-encoding"@]
}

/// The header set that goes to the upstream for the inbound set `fields`:
/// every framing header is gone, and nothing else has changed.
pub open spec fn forwarded_headers(fields: Map<Seq<char>, Seq<Seq<u8>>>) -> Map<
    Seq<char>,
    Seq<Seq<u8>>,
> {
    fields.remove_keys(framing_headers())
}

/// Removes the framing headers from `headers` and leaves every other header
/// as it was.
pub fn strip_framing_headers(headers: &mut HeaderMap<HeaderValue>)
    ensures
        header_fields(*final(headers)) == forwarded_headers(header_fields(*old(headers))),
{
    proof {
        reveal_strlit("content-length");
        reveal_strlit("transfer-encoding");
        reveal_strlit("accept-encoding");
        reveal_strlit("content-encoding");
    }
    remove_header(headers, "content-length");
    remove_header(headers, "transfer-encoding");
    remove_header(headers, "accept-encoding");
    remove_header(headers, "content-encoding");
    assert(header_fields(*headers) =~= forwarded_headers(header_fields(*old(headers))));
}

/// A framing header is never forwarded, whether or not the inbound request
/// carried it; any other header is forwarded exactly when the inbound request
/// carried it, with the same values in the same order.
pub proof fn lemma_forwarded_headers(fields: Map<Seq<char>, Seq<Seq<u8>>>, name: Seq<char>)
    ensures
        framing_headers().contains(name) ==> !forwarded_headers(fields).dom().contains(name),
        !framing_headers().contains(name) ==> (forwarded_headers(fields).dom().contains(name)
            <==> fields.dom().contains(name)),
        !framing_headers().contains(name) && fields.dom().contains(name) ==> forwarded_headers(
            fields,
        )[name] == fields[name],
{
}

} // verus!
