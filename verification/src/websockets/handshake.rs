//! The server's side of the opening handshake: from the client's key to
//! the accept key, and from the request lines to the response.

use crate::websockets::error::{WebSocketError, WebSocketErrorView};
use crate::websockets::request::{
    read_handshake_request, spec_get_header, spec_read_request, texts,
};
use crate::wire::push_all;
use base64::prelude::{Engine, BASE64_STANDARD};
use sha1::{Digest, Sha1};
use vstd::prelude::*;
use vstd::slice::slice_to_vec;
use vstd::string::StringExecFns;
use vstd::utf8::encode_utf8;

verus! {

/// The SHA-1 digest of `message`, as FIPS 180-4 defines it.
pub uninterp spec fn sha1_digest(message: Seq<u8>) -> Seq<u8>;

/// The base64 encoding of `data` in the standard alphabet with padding, as
/// RFC 4648 defines it.
pub uninterp spec fn base64_standard(data: Seq<u8>) -> Seq<char>;

/// Computes the SHA-1 digest of `message` with `Sha1::digest` of the `sha1`
/// crate. The digest depends on the message alone and is 20 bytes long; the
/// algorithm itself is the crate's and is not restated here.
#[verifier::external_body]
fn sha1(message: &[u8]) -> (digest: Vec<u8>)
    ensures
        digest@ == sha1_digest(message@),
        digest@.len() == 20,
{
    Sha1::digest(message).to_vec()
}

/// Encodes `data` with `BASE64_STANDARD.encode` of the `base64` crate. The
/// text depends on the data alone; the encoding itself is the crate's and
/// is not restated here. The crate gives up when the encoded length, four
/// characters for every three bytes begun, does not fit a `usize`, so such
/// data is ruled out.
#[verifier::external_body]
fn base64_encode(data: &[u8]) -> (text: String)
    requires
        (data@.len() / 3 + 1) * 4 <= usize::MAX,
    ensures
        text@ == base64_standard(data@),
{
    BASE64_STANDARD.encode(data)
}

/// The fixed text that is appended to the client's key before hashing.
pub open spec fn magic() -> Seq<char> {
    "258EAFA5-E914-47DA-95CA-C5AB0DC85B11"@
}

/// The name of the header that carries the client's key.
pub open spec fn key_header() -> Seq<char> {
    "Sec-WebSocket-Key"@
}

/// The message of a handshake that fails for want of the client's key.
pub open spec fn missing_key() -> Seq<char> {
    "missing key"@
}

/// The accept key for a client key: base64 of the SHA-1 digest of the key
/// followed by the fixed text.
pub open spec fn spec_accept_key(client_key: Seq<char>) -> Seq<char> {
    base64_standard(sha1_digest(encode_utf8(client_key) + encode_utf8(magic())))
}

/// The response that switches protocols, for a given accept key.
pub open spec fn spec_handshake_response(accept_key: Seq<char>) -> Seq<char> {
    "HTTP/1.1 101 Switching Protocols\r\nConnection: Upgrade\r\nUpgrade: websocket\r\nSec-WebSocket-Accept: "@
        + accept_key + "\r\n\r\n"@
}

/// What the handshake answers to the lines of a request: the response that
/// switches protocols, or why there is none.
pub open spec fn spec_accept(lines: Seq<Seq<char>>) -> Result<Seq<char>, WebSocketErrorView> {
    match spec_read_request(lines) {
        Err(e) => Err(e),
        Ok(request) => match spec_get_header(request.headers, key_header()) {
            None => Err(WebSocketErrorView::HandshakeFailed(missing_key())),
            Some(key) => Ok(spec_handshake_response(spec_accept_key(key))),
        },
    }
}

/// Derives the accept key from the client's key: the key and the fixed
/// text `258EAFA5-E914-47DA-95CA-C5AB0DC85B11` are hashed with SHA-1, and
/// the digest is encoded in base64.
pub fn generate_accept_key(client_key: &str) -> (accept_key: String)
    ensures
        accept_key@ == spec_accept_key(client_key@),
{
    let mut message = slice_to_vec(client_key.as_bytes());
    push_all(&mut message, "258EAFA5-E914-47DA-95CA-C5AB0DC85B11".as_bytes());
    let digest = sha1(message.as_slice());
    base64_encode(digest.as_slice())
}

/// The response that completes the handshake: status 101, the two upgrade
/// headers, the accept key, and the blank line.
pub fn handshake_response(accept_key: &str) -> (response: String)
    ensures
        response@ == spec_handshake_response(accept_key@),
{
    String::from_str(
        "HTTP/1.1 101 Switching Protocols\r\nConnection: Upgrade\r\nUpgrade: websocket\r\nSec-WebSocket-Accept: ",
    ).concat(accept_key).concat("\r\n\r\n")
}

/// Answers the lines of an opening request.
///
/// Fails with [`WebSocketError::HandshakeFailed`], message
/// `not a websocket upgrade`, when no header line asks for the upgrade, and
/// with message `missing key` when no header line is called
/// `Sec-WebSocket-Key`. Otherwise returns the response that switches
/// protocols, with the accept key for that header's value.
pub fn accept_request(lines: &Vec<String>) -> (result: Result<String, WebSocketError>)
    ensures
        match result {
            Ok(response) => spec_accept(texts(lines@)) == Ok::<Seq<char>, WebSocketErrorView>(
                response@,
            ),
            Err(e) => spec_accept(texts(lines@)) == Err::<Seq<char>, WebSocketErrorView>(e@),
        },
{
    let request = match read_handshake_request(lines) {
        Ok(request) => request,
        Err(e) => {
            return Err(e);
        },
    };
    match request.get_header("Sec-WebSocket-Key") {
        None => Err(WebSocketError::handshake_failed("missing key")),
        Some(client_key) => {
            let accept_key = generate_accept_key(client_key);
            Ok(handshake_response(accept_key.as_str()))
        },
    }
}

} // verus!
