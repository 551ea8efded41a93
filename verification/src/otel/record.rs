//! One telemetry record: the text that a stream emitted, and where it belongs.
use std::sync::Arc;
use vstd::prelude::*;
use vstd::utf8::{decode_utf8, encode_utf8, encode_utf8_decode_utf8, encode_utf8_valid_utf8, valid_utf8};

use crate::text::text_of;

verus! {

/// Bytes of text that a record holds itself. What a stream emits per token is far shorter.
pub const INLINE_CAP: usize = 224;

pub const EVENT_START: u8 = 0;

pub const EVENT_DELTA: u8 = 1;

pub const EVENT_END: u8 = 2;

pub const EVENT_STATUS: u8 = 3;

/// The name of an event.
pub open spec fn event_text(e: u8) -> Seq<char> {
    if e == EVENT_START {
        "stream_start"@
    } else if e == EVENT_DELTA {
        "stream_delta"@
    } else if e == EVENT_END {
        "stream_end"@
    } else if e == EVENT_STATUS {
        "status"@
    } else {
        "unknown"@
    }
}

/// The name of an event.
pub fn event_name(e: u8) -> (s: &'static str)
    ensures
        s@ == event_text(e),
{
    if e == EVENT_START {
        "stream_start"
    } else if e == EVENT_DELTA {
        "stream_delta"
    } else if e == EVENT_END {
        "stream_end"
    } else if e == EVENT_STATUS {
        "status"
    } else {
        "unknown"
    }
}

/// A point of the machine's clock.
#[verifier::external_type_specification]
#[verifier::external_body]
pub struct ExSystemTime(std::time::SystemTime);

/// The time by the machine's clock.
///
/// Calls `std::time::SystemTime::now`. Nothing is promised of the time.
#[verifier::external_body]
fn clock_now() -> (t: std::time::SystemTime) {
    std::time::SystemTime::now()
}

/// Nanoseconds from the epoch to a time; nothing where the time is earlier.
///
/// Calls `std::time::SystemTime::duration_since` with the epoch. Nothing is promised of the number: what a
/// point of the clock holds is the machine's.
#[verifier::external_body]
fn nanos_from_epoch(t: &std::time::SystemTime) -> (n: Option<u64>) {
    t.duration_since(std::time::UNIX_EPOCH).ok().map(|d| d.as_nanos() as u64)
}

/// Nanoseconds since the epoch; zero on a clock that stands before it.
pub(crate) fn now_unix_nano() -> (t: u64) {
    let now: std::time::SystemTime = clock_now();
    match nanos_from_epoch(&now) {
        Some(n) => n,
        None => 0,
    }
}

/// Whose records they are: built once per request.
pub struct ReqCtx {
    pub model_id: String,
    pub topology: String,
    /// The session key.
    pub request_id: String,
    /// The execution: a retry has another.
    pub generation_id: String,
}

/// Shares a request's identity.
///
/// Calls `Arc::clone`, which hands out another pointer to the same value.
#[verifier::external_body]
pub(crate) fn share(ctx: &Arc<ReqCtx>) -> (r: Arc<ReqCtx>)
    ensures
        r == *ctx,
{
    Arc::clone(ctx)
}

/// The text of a record: held in place, or apart where it is long.
pub enum Body {
    Inline { len: u16, buf: [u8; INLINE_CAP] },
    Shared(String),
}

impl Body {
    /// The text that the record carries.
    pub open spec fn text(&self) -> Seq<char> {
        match self {
            Body::Inline { len, buf } => decode_utf8(buf@.take(*len as int)),
            Body::Shared(s) => s@,
        }
    }

    /// A body that holds a text.
    pub open spec fn wf(&self) -> bool {
        match self {
            Body::Inline { len, buf } => *len <= INLINE_CAP && valid_utf8(buf@.take(*len as int)),
            Body::Shared(_) => true,
        }
    }

    /// Takes up a chunk, byte for byte. Only a chunk longer than the place is allocated.
    pub fn from_chunk(chunk: &str) -> (b: Body)
        ensures
            b.wf(),
            b.text() == chunk@,
            match b {
                Body::Inline { len, buf } => len == encode_utf8(chunk@).len() && buf@.take(
                    len as int,
                ) == encode_utf8(chunk@),
                Body::Shared(_) => encode_utf8(chunk@).len() > INLINE_CAP,
            },
    {
        let bytes: &[u8] = chunk.as_bytes();
        let n: usize = bytes.len();
        if n <= INLINE_CAP {
            let mut buf: [u8; INLINE_CAP] = [0u8; INLINE_CAP];
            let mut i: usize = 0;
            while i < n
                invariant
                    i <= n <= INLINE_CAP,
                    n == bytes@.len(),
                    buf@.take(i as int) == bytes@.take(i as int),
                decreases n - i,
            {
                buf[i] = bytes[i];
                i = i + 1;
                proof {
                    assert(buf@.take(i as int) =~= bytes@.take(i as int));
                }
            }
            proof {
                assert(bytes@.take(n as int) =~= bytes@);
                encode_utf8_valid_utf8(chunk@);
                encode_utf8_decode_utf8(chunk@);
            }
            Body::Inline { len: n as u16, buf }
        } else {
            Body::Shared(chunk.to_owned())
        }
    }

    /// The text.
    pub fn as_str(&self) -> (s: &str)
        requires
            self.wf(),
        ensures
            s@ == self.text(),
    {
        match self {
            Body::Inline { len, buf } => {
                let n: usize = *len as usize;
                let all: &[u8] = buf.as_slice();
                match text_of(vstd::slice::slice_subrange(all, 0, n)) {
                    Some(s) => {
                        proof {
                            assert(all@.subrange(0, n as int) =~= buf@.take(n as int));
                        }
                        s
                    },
                    None => {
                        proof {
                            assert(all@.subrange(0, n as int) =~= buf@.take(n as int));
                        }
                        ""
                    },
                }
            },
            Body::Shared(s) => s.as_str(),
        }
    }
}

/// One telemetry record.
pub struct Record {
    pub ctx: Arc<ReqCtx>,
    pub body: Body,
    pub token_index: u32,
    pub event: u8,
    pub ts_unix_nano: u64,
}

impl Record {
    /// A record of the given time.
    pub fn at(ctx: &Arc<ReqCtx>, event: u8, token_index: u32, chunk: &str, ts: u64) -> (r: Record)
        ensures
            r.ctx == *ctx,
            r.body.wf(),
            r.body.text() == chunk@,
            r.token_index == token_index,
            r.event == event,
            r.ts_unix_nano == ts,
    {
        Record {
            ctx: share(ctx),
            body: Body::from_chunk(chunk),
            token_index,
            event,
            ts_unix_nano: ts,
        }
    }

    /// A record of now.
    pub fn new(ctx: &Arc<ReqCtx>, event: u8, token_index: u32, chunk: &str) -> (r: Record)
        ensures
            r.ctx == *ctx,
            r.body.wf(),
            r.body.text() == chunk@,
            r.token_index == token_index,
            r.event == event,
    {
        Record::at(ctx, event, token_index, chunk, now_unix_nano())
    }

    /// The server's own record: no request, no token.
    pub fn status(ctx: &Arc<ReqCtx>) -> (r: Record)
        ensures
            r.ctx == *ctx,
            r.body.wf(),
            r.body.text() == "status"@,
            r.token_index == 0,
            r.event == EVENT_STATUS,
    {
        Record::new(ctx, EVENT_STATUS, 0, "status")
    }
}

} // verus!
