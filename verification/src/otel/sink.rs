//! The sink that a server holds, and the handle that each stream holds.
use std::sync::Arc;
use vstd::prelude::*;

use crate::gpu::pool::is_pow2;
use crate::otel::config::OtelConfig;
use crate::otel::record::{Record, ReqCtx, EVENT_DELTA, EVENT_END, EVENT_START};
use crate::otel::ring::Ring;
use crate::otel::session::{
    entry_views, is_session_id, key_view, resolved, EntryView, SessionRegistry,
};
use crate::text::texts;

verus! {

/// Records that the sink's ring holds.
pub const SINK_CAPACITY: usize = 8192;

/// A snapshot of the engine's statistics, with rates in the number type `F`.
pub struct LiveStats<F> {
    pub requests: u64,
    pub tokens: u64,
    pub tokens_per_sec: F,
    pub accepted: u64,
}

/// Something that can tell the engine's statistics; nothing where none are kept.
pub trait LiveStatsSource {
    /// Number type of the rates.
    type Rate;

    fn live_stats(&self) -> Option<LiveStats<Self::Rate>>;
}

/// No statistics.
pub struct NoMetrics;

impl LiveStatsSource for NoMetrics {
    type Rate = u64;

    fn live_stats(&self) -> (r: Option<LiveStats<u64>>)
        ensures
            r is None,
    {
        None
    }
}

/// The sink that a server holds.
pub struct OtelSink {
    pub cfg: OtelConfig,
    pub ring: Ring,
    pub model_id: String,
    pub topology: String,
    pub sessions: SessionRegistry,
    pub sent: u64,
    pub failed_batches: u64,
}

/// The text that replaces a default, or the default.
pub open spec fn or_default(own: Option<String>, auto: Seq<char>) -> Seq<char> {
    match own {
        Some(s) => s@,
        None => auto,
    }
}

/// `r` is the record of an event.
pub open spec fn is_record(
    r: Record,
    ctx: ReqCtx,
    event: u8,
    token_index: u32,
    chunk: Seq<char>,
) -> bool {
    &&& *r.ctx == ctx
    &&& r.event == event
    &&& r.token_index == token_index
    &&& r.body.wf()
    &&& r.body.text() == chunk
}

/// The ring after a record was pushed: it waits at the end, or was dropped and counted where the ring was
/// full.
pub open spec fn pushed(
    before: Ring,
    after: Ring,
    ctx: ReqCtx,
    event: u8,
    token_index: u32,
    chunk: Seq<char>,
) -> bool {
    &&& after.wf()
    &&& after.cap() == before.cap()
    &&& if before.queue().len() < before.cap() {
        &&& after.dropped == before.dropped
        &&& after.queue().len() == before.queue().len() + 1
        &&& after.queue().drop_last() == before.queue()
        &&& is_record(after.queue().last(), ctx, event, token_index, chunk)
    } else {
        after.queue() == before.queue() && after.dropped == before.dropped.wrapping_add(1)
    }
}

/// The sinks differ in their rings at most.
pub open spec fn same_but_ring(a: OtelSink, b: OtelSink) -> bool {
    &&& a.cfg == b.cfg
    &&& a.model_id == b.model_id
    &&& a.topology == b.topology
    &&& a.sessions == b.sessions
    &&& a.sent == b.sent
    &&& a.failed_batches == b.failed_batches
}

impl OtelSink {
    /// A sink. Settings may replace the identities that the engine found.
    pub fn new(cfg: OtelConfig, auto_model_id: &str, auto_topology: &str) -> (s: OtelSink)
        ensures
            s.cfg == cfg,
            s.ring.wf(),
            s.ring.cap() == SINK_CAPACITY,
            s.ring.queue() == Seq::<Record>::empty(),
            s.ring.dropped == 0,
            s.model_id@ == or_default(cfg.model_id, auto_model_id@),
            s.topology@ == or_default(cfg.topology, auto_topology@),
            s.sessions.wf(),
            entry_views(s.sessions.entries@) == Seq::<EntryView>::empty(),
            s.sent == 0,
            s.failed_batches == 0,
    {
        let model_id: String = match &cfg.model_id {
            Some(s) => s.clone(),
            None => auto_model_id.to_owned(),
        };
        let topology: String = match &cfg.topology {
            Some(s) => s.clone(),
            None => auto_topology.to_owned(),
        };
        let ring: Ring = Ring::new(SINK_CAPACITY);
        proof {
            reveal_with_fuel(is_pow2, 16);
        }
        OtelSink {
            cfg,
            ring,
            model_id,
            topology,
            sessions: SessionRegistry::new(),
            sent: 0,
            failed_batches: 0,
        }
    }

    /// The session of a request. Called once per request.
    pub fn resolve_session(&mut self, explicit: Option<String>, per_msg_json: &[String]) -> (s: String)
        requires
            old(self).sessions.wf(),
        ensures
            final(self).sessions.wf(),
            final(self).sessions.base == old(self).sessions.base,
            exists|now: u64, fresh: Seq<char>|
                is_session_id(fresh) && (entry_views(final(self).sessions.entries@), s@)
                    == #[trigger] resolved(
                    entry_views(old(self).sessions.entries@),
                    now,
                    key_view(explicit),
                    texts(per_msg_json@),
                    fresh,
                ),
            final(self).ring == old(self).ring,
            final(self).cfg == old(self).cfg,
            final(self).model_id == old(self).model_id,
            final(self).topology == old(self).topology,
            final(self).sent == old(self).sent,
            final(self).failed_batches == old(self).failed_batches,
    {
        self.sessions.resolve(explicit, per_msg_json)
    }

    /// The identity of a request.
    pub fn context(&self, request_id: &str, generation_id: &str) -> (c: ReqCtx)
        ensures
            c.model_id@ == self.model_id@,
            c.topology@ == self.topology@,
            c.request_id@ == request_id@,
            c.generation_id@ == generation_id@,
    {
        ReqCtx {
            model_id: self.model_id.clone(),
            topology: self.topology.clone(),
            request_id: request_id.to_owned(),
            generation_id: generation_id.to_owned(),
        }
    }

    /// Opens the handle of a request. Its records carry the session and the execution.
    pub fn open_request(&self, request_id: &str, generation_id: &str) -> (r: OtelRequest)
        ensures
            r.ctx.model_id@ == self.model_id@,
            r.ctx.topology@ == self.topology@,
            r.ctx.request_id@ == request_id@,
            r.ctx.generation_id@ == generation_id@,
            r.next_index == 0,
    {
        OtelRequest { ctx: Arc::new(self.context(request_id, generation_id)), next_index: 0 }
    }

    /// Records sent, records dropped, and batches that failed.
    pub fn stats(&self) -> (r: (u64, u64, u64))
        ensures
            r == (self.sent, self.ring.dropped, self.failed_batches),
    {
        (self.sent, self.ring.dropped(), self.failed_batches)
    }
}

/// What an event does to the index of a stream's records: the next index, and the record's own where the
/// event is recorded at all. Without tokens a delta leaves no trace.
pub open spec fn indexed(next: u32, event: u8, include_tokens: bool) -> (u32, Option<u32>) {
    if event == EVENT_DELTA && !include_tokens {
        (next, None)
    } else {
        (next.wrapping_add(1), Some(next))
    }
}

/// The handle that one stream holds.
pub struct OtelRequest {
    pub ctx: Arc<ReqCtx>,
    pub next_index: u32,
}

impl OtelRequest {
    /// The stream and the sink after an event.
    pub open spec fn after_event(
        before: OtelRequest,
        after: OtelRequest,
        sink0: OtelSink,
        sink1: OtelSink,
        event: u8,
        chunk: Seq<char>,
    ) -> bool {
        let (next, own) = indexed(before.next_index, event, sink0.cfg.include_tokens);
        &&& after.ctx == before.ctx
        &&& after.next_index == next
        &&& same_but_ring(sink0, sink1)
        &&& match own {
            Some(i) => pushed(sink0.ring, sink1.ring, *before.ctx, event, i, chunk),
            None => sink1.ring == sink0.ring,
        }
    }

    /// The record of an event, where it leaves one, and the next index. A ring that is not the sink's own
    /// takes records from here.
    pub fn next_record(&mut self, event: u8, chunk: &str, include_tokens: bool) -> (r: Option<Record>)
        ensures
            final(self).ctx == old(self).ctx,
            final(self).next_index == indexed(old(self).next_index, event, include_tokens).0,
            match (r, indexed(old(self).next_index, event, include_tokens).1) {
                (Some(rec), Some(i)) => is_record(rec, *old(self).ctx, event, i, chunk@),
                (None, None) => true,
                _ => false,
            },
    {
        if event == EVENT_DELTA && !include_tokens {
            return None;
        }
        let i: u32 = self.next_index;
        self.next_index = self.next_index.wrapping_add(1);
        Some(Record::new(&self.ctx, event, i, chunk))
    }

    fn record(&mut self, sink: &mut OtelSink, event: u8, chunk: &str)
        requires
            old(sink).ring.wf(),
        ensures
            Self::after_event(*old(self), *final(self), *old(sink), *final(sink), event, chunk@),
    {
        if let Some(rec) = self.next_record(event, chunk, sink.cfg.include_tokens) {
            let ghost before = sink.ring;
            let ok: bool = sink.ring.push(rec);
            proof {
                if ok {
                    assert(sink.ring.queue().drop_last() =~= before.queue());
                }
            }
        }
    }

    /// The first chunk of a stream.
    pub fn start(&mut self, sink: &mut OtelSink, chunk: &str)
        requires
            old(sink).ring.wf(),
        ensures
            Self::after_event(
                *old(self),
                *final(self),
                *old(sink),
                *final(sink),
                EVENT_START,
                chunk@,
            ),
    {
        self.record(sink, EVENT_START, chunk);
    }

    /// One chunk of a stream, as it was sent.
    pub fn delta(&mut self, sink: &mut OtelSink, chunk: &str)
        requires
            old(sink).ring.wf(),
        ensures
            Self::after_event(
                *old(self),
                *final(self),
                *old(sink),
                *final(sink),
                EVENT_DELTA,
                chunk@,
            ),
    {
        self.record(sink, EVENT_DELTA, chunk);
    }

    /// The last chunk of a stream.
    pub fn end(&mut self, sink: &mut OtelSink, chunk: &str)
        requires
            old(sink).ring.wf(),
        ensures
            Self::after_event(
                *old(self),
                *final(self),
                *old(sink),
                *final(sink),
                EVENT_END,
                chunk@,
            ),
    {
        self.record(sink, EVENT_END, chunk);
    }
}

/// The events of a stream with `n` deltas.
pub open spec fn stream_events(n: nat) -> Seq<u8> {
    seq![EVENT_START] + Seq::new(n, |i: int| EVENT_DELTA) + seq![EVENT_END]
}

/// Next index after the events, and the indices of the records they left.
pub open spec fn indices(events: Seq<u8>, include_tokens: bool) -> (u32, Seq<u32>)
    decreases events.len(),
{
    if events.len() == 0 {
        (0, Seq::empty())
    } else {
        let (next, seen) = indices(events.drop_last(), include_tokens);
        let (n, own) = indexed(next, events.last(), include_tokens);
        (
            n,
            match own {
                Some(i) => seen.push(i),
                None => seen,
            },
        )
    }
}

/// A stream's records are numbered without gaps: zero for the start, then one per delta, then the end.
/// Without tokens only the start and the end remain, numbered zero and one.
pub proof fn law_stream_is_numbered(n: nat, include_tokens: bool)
    requires
        n + 2 <= u32::MAX,
    ensures
        indices(stream_events(n), include_tokens).1 == Seq::new(
            if include_tokens {
                n + 2
            } else {
                2
            },
            |i: int| i as u32,
        ),
{
    let body = seq![EVENT_START] + Seq::new(n, |i: int| EVENT_DELTA);
    lemma_numbered(n, include_tokens);
    let all = stream_events(n);
    assert(all.drop_last() =~= body);
    let want = Seq::new(
        if include_tokens {
            n + 2
        } else {
            2
        },
        |i: int| i as u32,
    );
    assert(indices(all, include_tokens).1 =~= want);
}

proof fn lemma_numbered(n: nat, include_tokens: bool)
    requires
        n + 2 <= u32::MAX,
    ensures
        ({
            let k = if include_tokens {
                n + 1
            } else {
                1
            };
            let r = indices(
                seq![EVENT_START] + Seq::new(n, |i: int| EVENT_DELTA),
                include_tokens,
            );
            r.0 == k && r.1 == Seq::new(k, |i: int| i as u32)
        }),
    decreases n,
{
    let body = seq![EVENT_START] + Seq::new(n, |i: int| EVENT_DELTA);
    let k = if include_tokens {
        n + 1
    } else {
        1
    };
    if n == 0 {
        reveal_with_fuel(indices, 2);
        assert(body =~= seq![EVENT_START]);
        assert(body.drop_last() =~= Seq::<u8>::empty());
        assert(indices(body, include_tokens).1 =~= Seq::new(k, |i: int| i as u32));
    } else {
        lemma_numbered((n - 1) as nat, include_tokens);
        assert(body.drop_last() =~= seq![EVENT_START] + Seq::new((n - 1) as nat, |i: int| EVENT_DELTA));
        assert(body.last() == EVENT_DELTA);
        assert(indices(body, include_tokens).1 =~= Seq::new(k, |i: int| i as u32));
    }
}

// ---- streams side by side ----

/// One thing that happens to a sink: a stream emits a chunk, or the sender takes the oldest records.
pub enum Step {
    Emit { who: int, event: u8, chunk: Seq<char> },
    Drain { n: int },
}

/// A moment of a run: the sink, the handles of its streams, and the records that were taken so far.
pub struct Moment {
    pub sink: OtelSink,
    pub handles: Seq<OtelRequest>,
    pub taken: Seq<Record>,
}

impl Moment {
    /// All records in ring order, those that were taken first.
    pub open spec fn records(&self) -> Seq<Record> {
        self.taken + self.sink.ring.queue()
    }
}

/// `b` is `a` after that step.
pub open spec fn follows(a: Moment, step: Step, b: Moment) -> bool {
    match step {
        Step::Emit { who, event, chunk } => {
            &&& 0 <= who < a.handles.len()
            &&& b.handles.len() == a.handles.len()
            &&& OtelRequest::after_event(
                a.handles[who],
                b.handles[who],
                a.sink,
                b.sink,
                event,
                chunk,
            )
            &&& forall|v: int| 0 <= v < a.handles.len() && v != who ==> b.handles[v] == #[trigger] a.handles[v]
            &&& b.taken == a.taken
        },
        Step::Drain { n } => {
            &&& 0 <= n <= a.sink.ring.queue().len()
            &&& b.handles == a.handles
            &&& same_but_ring(a.sink, b.sink)
            &&& b.sink.ring.queue() == a.sink.ring.queue().skip(n)
            &&& b.taken == a.taken + a.sink.ring.queue().take(n)
        },
    }
}

/// The moments of a run of steps, in which the ring never fills.
pub open spec fn is_run(ms: Seq<Moment>, steps: Seq<Step>) -> bool {
    &&& ms.len() == steps.len() + 1
    &&& forall|k: int| 0 <= k < steps.len() ==> follows(ms[k], #[trigger] steps[k], ms[k + 1])
    &&& forall|k: int|
        0 <= k < ms.len() ==> (#[trigger] ms[k]).sink.ring.queue().len() < ms[k].sink.ring.cap()
}

/// The events and chunks that one stream emits, in order.
pub open spec fn emitted_by(steps: Seq<Step>, who: int) -> Seq<(u8, Seq<char>)>
    decreases steps.len(),
{
    if steps.len() == 0 {
        Seq::empty()
    } else {
        let d = emitted_by(steps.drop_last(), who);
        match steps.last() {
            Step::Emit { who: w, event, chunk } => if w == who {
                d.push((event, chunk))
            } else {
                d
            },
            Step::Drain { .. } => d,
        }
    }
}

/// The two identities carry the same session and execution.
pub open spec fn same_request(a: ReqCtx, b: ReqCtx) -> bool {
    a.request_id@ == b.request_id@ && a.generation_id@ == b.generation_id@
}

/// The records of one request, in order.
pub open spec fn records_of(recs: Seq<Record>, ctx: ReqCtx) -> Seq<Record>
    decreases recs.len(),
{
    if recs.len() == 0 {
        recs
    } else {
        let d = records_of(recs.drop_last(), ctx);
        if same_request(*recs.last().ctx, ctx) {
            d.push(recs.last())
        } else {
            d
        }
    }
}

/// Stream `who` of a run starts at its first record, and no other stream, nor any record that is there
/// already, carries its session and execution.
pub open spec fn stands_apart(m: Moment, who: int) -> bool {
    &&& 0 <= who < m.handles.len()
    &&& m.sink.cfg.include_tokens
    &&& m.handles[who].next_index == 0
    &&& records_of(m.records(), *m.handles[who].ctx).len() == 0
    &&& forall|v: int|
        0 <= v < m.handles.len() && v != who ==> !same_request(
            *(#[trigger] m.handles[v]).ctx,
            *m.handles[who].ctx,
        )
}

proof fn lemma_records_of_push(recs: Seq<Record>, r: Record, ctx: ReqCtx)
    ensures
        records_of(recs.push(r), ctx) == (if same_request(*r.ctx, ctx) {
            records_of(recs, ctx).push(r)
        } else {
            records_of(recs, ctx)
        }),
{
    assert(recs.push(r).drop_last() =~= recs);
}

proof fn lemma_emitted_grows(steps: Seq<Step>, who: int, n: int)
    requires
        0 <= n <= steps.len(),
    ensures
        emitted_by(steps.take(n), who).len() <= emitted_by(steps, who).len(),
    decreases steps.len(),
{
    if n == steps.len() {
        assert(steps.take(n) =~= steps);
    } else {
        assert(steps.drop_last().take(n) =~= steps.take(n));
        lemma_emitted_grows(steps.drop_last(), who, n);
    }
}

proof fn lemma_streams(ms: Seq<Moment>, steps: Seq<Step>, who: int, n: int)
    requires
        is_run(ms, steps),
        stands_apart(ms[0], who),
        emitted_by(steps, who).len() <= u32::MAX,
        0 <= n <= steps.len(),
    ensures
        ({
            let own = emitted_by(steps.take(n), who);
            let ctx = *ms[0].handles[who].ctx;
            let recs = records_of(ms[n].records(), ctx);
            &&& recs.len() == own.len()
            &&& forall|i: int|
                0 <= i < recs.len() ==> is_record(
                    #[trigger] recs[i],
                    ctx,
                    own[i].0,
                    i as u32,
                    own[i].1,
                )
            &&& ms[n].handles[who].next_index == own.len()
            &&& ms[n].handles.len() == ms[0].handles.len()
            &&& forall|v: int|
                0 <= v < ms[0].handles.len() ==> (#[trigger] ms[n].handles[v]).ctx
                    == ms[0].handles[v].ctx
            &&& ms[n].sink.cfg == ms[0].sink.cfg
        }),
    decreases n,
{
    let ctx = *ms[0].handles[who].ctx;
    if n == 0 {
        assert(steps.take(0) =~= Seq::<Step>::empty());
    } else {
        lemma_streams(ms, steps, who, n - 1);
        lemma_emitted_grows(steps, who, n);
        let (a, b, step) = (ms[n - 1], ms[n], steps[n - 1]);
        assert(follows(a, step, ms[n - 1 + 1]));
        assert(a.sink.ring.queue().len() < a.sink.ring.cap());
        let t = steps.take(n);
        assert(t.drop_last() =~= steps.take(n - 1));
        assert(t.last() == step);
        match step {
            Step::Emit { who: w, event, chunk } => {
                let (q, r) = (b.sink.ring.queue(), b.sink.ring.queue().last());
                assert(q =~= q.drop_last().push(r));
                assert(b.records() =~= a.records().push(r));
                lemma_records_of_push(a.records(), r, ctx);
                assert(a.handles[w].ctx == ms[0].handles[w].ctx);
                if w != who {
                    assert(!same_request(*ms[0].handles[w].ctx, ctx));
                    assert(b.handles[who] == a.handles[who]);
                }
                assert forall|v: int| 0 <= v < ms[0].handles.len() implies (
                #[trigger] b.handles[v]).ctx == ms[0].handles[v].ctx by {
                    assert(a.handles[v].ctx == ms[0].handles[v].ctx);
                }
            },
            Step::Drain { n: k } => {
                assert(b.records() =~= a.records());
            },
        }
    }
}

/// Streams that share a sink do not mix: whatever other streams emit between, and whatever is taken from
/// the ring meanwhile, the records of one request are its own chunks in the order in which they were
/// emitted, numbered from zero on without gaps.
pub proof fn law_streams_do_not_mix(ms: Seq<Moment>, steps: Seq<Step>, who: int)
    requires
        is_run(ms, steps),
        stands_apart(ms[0], who),
        emitted_by(steps, who).len() <= u32::MAX,
    ensures
        ({
            let own = emitted_by(steps, who);
            let ctx = *ms[0].handles[who].ctx;
            let recs = records_of(ms.last().records(), ctx);
            &&& recs.len() == own.len()
            &&& forall|i: int|
                0 <= i < recs.len() ==> is_record(
                    #[trigger] recs[i],
                    ctx,
                    own[i].0,
                    i as u32,
                    own[i].1,
                )
        }),
{
    let n = steps.len() as int;
    lemma_streams(ms, steps, who, n);
    assert(steps.take(n) =~= steps);
}

/// The life of a stream among others: it starts with one chunk, sends `deltas`, and ends with one more.
/// Its records are those events with those bodies, numbered from zero on.
pub proof fn law_lifecycle_is_recorded(
    ms: Seq<Moment>,
    steps: Seq<Step>,
    who: int,
    first: Seq<char>,
    deltas: Seq<Seq<char>>,
    last: Seq<char>,
)
    requires
        is_run(ms, steps),
        stands_apart(ms[0], who),
        deltas.len() + 2 <= u32::MAX,
        emitted_by(steps, who) == seq![(EVENT_START, first)] + Seq::new(
            deltas.len(),
            |i: int| (EVENT_DELTA, deltas[i]),
        ) + seq![(EVENT_END, last)],
    ensures
        ({
            let n = deltas.len() as int;
            let ctx = *ms[0].handles[who].ctx;
            let recs = records_of(ms.last().records(), ctx);
            &&& recs.len() == n + 2
            &&& is_record(recs[0], ctx, EVENT_START, 0, first)
            &&& forall|i: int|
                1 <= i <= n ==> is_record(
                    #[trigger] recs[i],
                    ctx,
                    EVENT_DELTA,
                    i as u32,
                    deltas[i - 1],
                )
            &&& is_record(recs[n + 1], ctx, EVENT_END, (n + 1) as u32, last)
        }),
{
    law_streams_do_not_mix(ms, steps, who);
}

} // verus!
