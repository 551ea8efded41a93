//! The request that carries a batch, and the receiver's reply.
use vstd::prelude::*;
use vstd::string::*;
use vstd::utf8::encode_utf8;

use crate::text::{
    append, begins_with, chars_of, decimal, find_char, first_of, has_prefix, string_of, strip_back,
    to_decimal, without_suffix,
};

verus! {

/// A request that posts `body`.
pub open spec fn request_text(
    host: Seq<char>,
    port: u16,
    path: Seq<char>,
    body: Seq<char>,
) -> Seq<char> {
    "POST "@ + path + " HTTP/1.1\r\nHost: "@ + host + ":"@ + decimal(port as nat)
        + "\r\nContent-Type: application/json\r\nContent-Length: "@ + decimal(
        encode_utf8(body).len(),
    ) + "\r\nConnection: close\r\n\r\n"@ + body
}

/// A request that posts `body`; the length it announces is that of the body in bytes.
pub fn post_request(host: &str, port: u16, path: &str, body: &str) -> (r: String)
    ensures
        r@ == request_text(host@, port, path@, body@),
{
    let n: usize = body.as_bytes().len();
    let mut r: String = "POST ".to_owned();
    append(&mut r, path);
    append(&mut r, " HTTP/1.1\r\nHost: ");
    append(&mut r, host);
    append(&mut r, ":");
    let p: Vec<char> = to_decimal(port as u64);
    append(&mut r, string_of(p.as_slice()).as_str());
    append(&mut r, "\r\nContent-Type: application/json\r\nContent-Length: ");
    let d: Vec<char> = to_decimal(n as u64);
    append(&mut r, string_of(d.as_slice()).as_str());
    append(&mut r, "\r\nConnection: close\r\n\r\n");
    append(&mut r, body);
    r
}

/// What `String::from_utf8_lossy` reads in some bytes.
pub uninterp spec fn utf8_lossy(bytes: Seq<u8>) -> Seq<char>;

/// Reads bytes as text, whatever they are.
///
/// Calls `String::from_utf8_lossy`. The result is a function of the bytes alone.
#[verifier::external_body]
fn lossy(bytes: &[u8]) -> (r: String)
    ensures
        r@ == utf8_lossy(bytes@),
{
    String::from_utf8_lossy(bytes).into_owned()
}

/// The first line of a text, without what ends it.
pub open spec fn first_line(s: Seq<char>) -> Seq<char> {
    let k = first_of(s, '\n');
    if s.len() == 0 {
        "<no status line>"@
    } else if k < s.len() {
        without_suffix(s.take(k), "\r"@)
    } else {
        s
    }
}

/// A reply that accepts the batch.
pub open spec fn accepts(head: Seq<char>) -> bool {
    has_prefix(head, "HTTP/1.1 2"@) || has_prefix(head, "HTTP/1.0 2"@)
}

/// Judges the beginning of a reply; a refusal is told by its first line.
pub fn judge_reply(head: &str) -> (r: Result<(), String>)
    ensures
        match r {
            Ok(_) => accepts(head@),
            Err(e) => !accepts(head@) && e@ == "receiver said "@ + first_line(head@),
        },
{
    let c: Vec<char> = chars_of(head);
    if begins_with(c.as_slice(), "HTTP/1.1 2") || begins_with(c.as_slice(), "HTTP/1.0 2") {
        return Ok(());
    }
    let line: String = if c.len() == 0 {
        "<no status line>".to_owned()
    } else {
        let k: usize = find_char(c.as_slice(), '\n');
        if k < c.len() {
            let l: Vec<char> = crate::seqs::prefix(c.as_slice(), k);
            string_of(strip_back(l.as_slice(), "\r").as_slice())
        } else {
            head.to_owned()
        }
    };
    let mut e: String = "receiver said ".to_owned();
    append(&mut e, line.as_str());
    Err(e)
}

/// Judges the bytes that a receiver sent.
pub fn judge_bytes(bytes: &[u8]) -> (r: Result<(), String>)
    ensures
        match r {
            Ok(_) => accepts(utf8_lossy(bytes@)),
            Err(e) => !accepts(utf8_lossy(bytes@)) && e@ == "receiver said "@ + first_line(
                utf8_lossy(bytes@),
            ),
        },
{
    let head: String = lossy(bytes);
    judge_reply(head.as_str())
}

} // verus!
