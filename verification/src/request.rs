//! The request that is sent once the connection is ready.
use vstd::prelude::*;
use vstd::string::StringSliceAdditionalSpecFns;
use crate::error::ConstructionError;

verus! {

/// The number of bytes that a request may have.
pub const REQUEST_CAPACITY: usize = 1024;

/// `heapless::String`: a string of at most `N` bytes that is held in
/// place. Nothing inside it is visible here; [`text_bytes`] names its
/// content.
#[verifier::external_type_specification]
#[verifier::external_body]
pub struct ExBoundedString<const N: usize>(heapless::String<N>);

/// The bytes that a bounded string holds, in order: what
/// `heapless::String::as_bytes` gives.
pub uninterp spec fn text_bytes(s: heapless::String<REQUEST_CAPACITY>) -> Seq<u8>;

/// `heapless::String::new`: the new string holds nothing.
#[verifier::external_body]
fn bounded_new() -> (s: heapless::String<REQUEST_CAPACITY>)
    ensures
        text_bytes(s) == Seq::<u8>::empty(),
{
    heapless::String::new()
}

/// `heapless::String::push_str`: where the bytes of `part` fit into what is
/// left of the capacity, they are appended and the call succeeds; where they
/// do not, the call fails and the string stays as it was.
#[verifier::external_body]
fn bounded_push(s: &mut heapless::String<REQUEST_CAPACITY>, part: &str) -> (r: Result<(), ()>)
    ensures
        r.is_ok() <==> text_bytes(*old(s)).len() + part.spec_bytes().len() <= REQUEST_CAPACITY,
        r.is_ok() ==> text_bytes(*final(s)) == text_bytes(*old(s)) + part.spec_bytes(),
        r.is_err() ==> text_bytes(*final(s)) == text_bytes(*old(s)),
{
    s.push_str(part)
}

/// The request for the root document of the named server: the request line,
/// three header lines and an empty line, each ended by CR LF.
pub open spec fn request_bytes(server_name: Seq<u8>) -> Seq<u8> {
    "GET / HTTP/1.1\r\n".spec_bytes() + "Host: ".spec_bytes() + server_name
        + "\r\n".spec_bytes() + "Connection: close\r\n".spec_bytes()
        + "Accept-Encoding: identity\r\n".spec_bytes() + "\r\n".spec_bytes()
}

/// Composes the request for the named server.
///
/// The request is refused as a whole where it is longer than
/// [`REQUEST_CAPACITY`]: the template is fixed, so only the name can make it
/// so.
pub fn http_request(server_name: &str) -> (r: Result<
    heapless::String<REQUEST_CAPACITY>,
    ConstructionError,
>)
    ensures
        r.is_ok() <==> request_bytes(server_name.spec_bytes()).len() <= REQUEST_CAPACITY,
        match r {
            Ok(req) => text_bytes(req) == request_bytes(server_name.spec_bytes()),
            Err(e) => e == ConstructionError::Configuration,
        },
{
    let mut req = bounded_new();
    if bounded_push(&mut req, "GET / HTTP/1.1\r\n").is_err() {
        return Err(ConstructionError::Configuration);
    }
    if bounded_push(&mut req, "Host: ").is_err() {
        return Err(ConstructionError::Configuration);
    }
    if bounded_push(&mut req, server_name).is_err() {
        return Err(ConstructionError::Configuration);
    }
    if bounded_push(&mut req, "\r\n").is_err() {
        return Err(ConstructionError::Configuration);
    }
    if bounded_push(&mut req, "Connection: close\r\n").is_err() {
        return Err(ConstructionError::Configuration);
    }
    if bounded_push(&mut req, "Accept-Encoding: identity\r\n").is_err() {
        return Err(ConstructionError::Configuration);
    }
    if bounded_push(&mut req, "\r\n").is_err() {
        return Err(ConstructionError::Configuration);
    }
    Ok(req)
}

} // verus!
