//! Settings of the emitter, and the identity that its records carry.
use vstd::prelude::*;

use crate::text::{
    append, begins_with, chars_of, contains, contains_text, debug_quoted, decimal, find_char, first_of,
    has_prefix, number_in, parse_number, quoted, rfind_char, string_of, strip_front, tail, to_decimal,
    without_prefix,
};

verus! {

/// Port of a receiver that names none.
pub const OTLP_PORT: u16 = 4318;

/// Settings of the emitter.
pub struct OtelConfig {
    /// Base URL of the receiver.
    pub endpoint: String,
    /// Most records per request.
    pub batch_size: usize,
    /// Time between two batches.
    pub batch_interval_ms: u64,
    /// Without tokens only the start and the end of a generation are recorded.
    pub include_tokens: bool,
    /// Identities that replace those of the engine.
    pub model_id: Option<String>,
    pub topology: Option<String>,
}

/// Where the last `c` of `s` stands, if anywhere.
pub open spec fn split_last(s: Seq<char>, c: char) -> Option<(Seq<char>, Seq<char>)> {
    let k = crate::text::last_of(s, c);
    if 0 <= k < s.len() {
        Some((s.take(k), s.skip(k + 1)))
    } else {
        None
    }
}

/// Host and port of an endpoint, or what is wrong with it.
pub open spec fn hostport_of(endpoint: Seq<char>) -> Result<(Seq<char>, u16), Seq<char>> {
    let rest = without_prefix(endpoint, "http://"@);
    let authority = rest.take(first_of(rest, '/'));
    if !has_prefix(endpoint, "http://"@) {
        Err(
            "--otel-endpoint must be http://<host>[:port] (got "@ + debug_quoted(endpoint)
                + "); the emitter's dependency-free client does not speak TLS"@,
        )
    } else if authority.len() == 0 {
        Err("--otel-endpoint has no host: "@ + debug_quoted(endpoint))
    } else if authority[0] == '[' {
        Ok(
            (
                if contains_text(authority, "]:"@) {
                    authority
                } else {
                    authority + ":4318"@
                },
                OTLP_PORT,
            ),
        )
    } else {
        match split_last(authority, ':') {
            Some((h, p)) => match number_in(p, u16::MAX as nat) {
                Some(n) => Ok((h, n as u16)),
                None => Err("--otel-endpoint bad port "@ + debug_quoted(p)),
            },
            None => Ok((authority, OTLP_PORT)),
        }
    }
}

fn message(a: &str, text: &str, b: &str) -> (r: String)
    ensures
        r@ == a@ + debug_quoted(text@) + b@,
{
    let mut r: String = a.to_owned();
    let q: String = quoted(text);
    append(&mut r, q.as_str());
    append(&mut r, b);
    r
}

impl OtelConfig {
    /// Host and port of the receiver. Only plain HTTP is spoken; a bracketed address keeps its brackets.
    pub fn hostport(&self) -> (r: Result<(String, u16), String>)
        ensures
            match r {
                Ok((h, p)) => hostport_of(self.endpoint@) == Ok::<(Seq<char>, u16), Seq<char>>(
                    (h@, p),
                ),
                Err(e) => hostport_of(self.endpoint@) == Err::<(Seq<char>, u16), Seq<char>>(e@),
            },
    {
        let e: Vec<char> = chars_of(self.endpoint.as_str());
        if !begins_with(e.as_slice(), "http://") {
            let m: String = message(
                "--otel-endpoint must be http://<host>[:port] (got ",
                self.endpoint.as_str(),
                "); the emitter's dependency-free client does not speak TLS",
            );
            return Err(m);
        }
        let rest: Vec<char> = strip_front(e.as_slice(), "http://");
        let k: usize = find_char(rest.as_slice(), '/');
        let a: Vec<char> = crate::seqs::prefix(rest.as_slice(), k);
        if a.len() == 0 {
            let m: String = message("--otel-endpoint has no host: ", self.endpoint.as_str(), "");
            proof {
                reveal_strlit("");
                assert(m@ =~= "--otel-endpoint has no host: "@ + debug_quoted(self.endpoint@));
            }
            return Err(m);
        }
        if a[0] == '[' {
            let mut hp: String = string_of(a.as_slice());
            if !contains(a.as_slice(), "]:") {
                append(&mut hp, ":4318");
            }
            return Ok((hp, OTLP_PORT));
        }
        match rfind_char(a.as_slice(), ':') {
            Some(c) => {
                let p: Vec<char> = tail(a.as_slice(), c + 1);
                match parse_number(p.as_slice(), u16::MAX as u64) {
                    Some(n) => {
                        let h: Vec<char> = crate::seqs::prefix(a.as_slice(), c);
                        Ok((string_of(h.as_slice()), n as u16))
                    },
                    None => {
                        let t: String = string_of(p.as_slice());
                        let m: String = message("--otel-endpoint bad port ", t.as_str(), "");
                        proof {
                            reveal_strlit("");
                            assert(m@ =~= "--otel-endpoint bad port "@ + debug_quoted(p@));
                        }
                        Err(m)
                    },
                }
            },
            None => Ok((string_of(a.as_slice()), OTLP_PORT)),
        }
    }
}

/// The topology attribute of a serving world: one engine, or so many in parallel.
pub fn topology_from_world(world: Option<u32>) -> (s: String)
    ensures
        s@ == (match world {
            None => "single"@,
            Some(n) => "tp"@ + decimal(n as nat),
        }),
{
    match world {
        None => "single".to_owned(),
        Some(n) => {
            let mut s: String = "tp".to_owned();
            let d: Vec<char> = to_decimal(n as u64);
            append(&mut s, string_of(d.as_slice()).as_str());
            s
        },
    }
}

} // verus!
