//! What the sender does at every tick of its timer.
use std::sync::Arc;
use vstd::prelude::*;

use crate::otel::record::{Record, ReqCtx, EVENT_STATUS};
use crate::otel::sink::{is_record, OtelSink};

verus! {

/// Time between two status records, in nanoseconds.
pub const STATUS_PERIOD: u64 = 10_000_000_000;

/// Time between two messages about dropped records, in nanoseconds.
pub const DROP_LOG_PERIOD: u64 = 5_000_000_000;

/// What the sender remembers between two ticks. Times are nanoseconds on its own clock.
pub struct Sender {
    pub last_status: u64,
    pub last_drop_log: u64,
    pub drop_logged: u64,
    pub fail_streak: u32,
}

/// `period` has gone by since `last`.
pub open spec fn elapsed(last: u64, now: u64, period: u64) -> bool {
    last <= now && now - last >= period
}

impl Sender {
    /// A sender that starts now.
    pub fn new(now: u64) -> (s: Sender)
        ensures
            s.last_status == now,
            s.last_drop_log == now,
            s.drop_logged == 0,
            s.fail_streak == 0,
    {
        Sender { last_status: now, last_drop_log: now, drop_logged: 0, fail_streak: 0 }
    }

    /// Milliseconds between two ticks.
    pub fn interval_ms(configured: u64) -> (ms: u64)
        ensures
            ms == if configured == 0 {
                1
            } else {
                configured
            },
    {
        if configured == 0 {
            1
        } else {
            configured
        }
    }

    /// The rows of a batch: what waits in the ring, up to the batch size, and the server's own status
    /// record where one is due. The status record goes with the batch, never in a request of its own.
    pub fn collect(&mut self, sink: &mut OtelSink, server: &Arc<ReqCtx>, now: u64) -> (rows: Vec<Record>)
        requires
            old(sink).ring.wf(),
        ensures
            ({
                let q = old(sink).ring.queue();
                let n = if old(sink).cfg.batch_size <= q.len() {
                    old(sink).cfg.batch_size as int
                } else {
                    q.len() as int
                };
                let due = elapsed(old(self).last_status, now, STATUS_PERIOD);
                &&& final(sink).ring.wf()
                &&& final(sink).ring.cap() == old(sink).ring.cap()
                &&& final(sink).ring.queue() == q.skip(n)
                &&& final(sink).ring.dropped == old(sink).ring.dropped
                &&& rows@.len() == n + (if due {
                    1int
                } else {
                    0
                })
                &&& rows@.take(n) == q.take(n)
                &&& due ==> is_record(rows@.last(), **server, EVENT_STATUS, 0, "status"@)
                &&& final(self).last_status == (if due {
                    now
                } else {
                    old(self).last_status
                })
                &&& final(self).last_drop_log == old(self).last_drop_log
                &&& final(self).drop_logged == old(self).drop_logged
                &&& final(self).fail_streak == old(self).fail_streak
            }),
            final(sink).cfg == old(sink).cfg,
            final(sink).model_id == old(sink).model_id,
            final(sink).topology == old(sink).topology,
            final(sink).sessions == old(sink).sessions,
            final(sink).sent == old(sink).sent,
            final(sink).failed_batches == old(sink).failed_batches,
    {
        let mut rows: Vec<Record> = Vec::new();
        let size: usize = sink.cfg.batch_size;
        let ghost q = sink.ring.queue();
        let n: usize = sink.ring.pop_batch(&mut rows, size);
        proof {
            assert(rows@ =~= q.take(n as int));
        }
        if self.last_status <= now && now - self.last_status >= STATUS_PERIOD {
            rows.push(Record::status(server));
            self.last_status = now;
        }
        proof {
            assert(rows@.take(n as int) =~= q.take(n as int));
        }
        rows
    }

    /// Takes note of how a batch of `rows` records went. Returns whether a failure is worth a message: the
    /// first few of a streak are, then every hundredth.
    pub fn posted(&mut self, sink: &mut OtelSink, rows: usize, ok: bool) -> (log: bool)
        ensures
            ok ==> {
                &&& final(sink).sent == old(sink).sent.wrapping_add(rows as u64)
                &&& final(sink).failed_batches == old(sink).failed_batches
                &&& final(self).fail_streak == 0
                &&& !log
            },
            !ok ==> {
                &&& final(sink).sent == old(sink).sent
                &&& final(sink).failed_batches == old(sink).failed_batches.wrapping_add(1)
                &&& final(self).fail_streak == old(self).fail_streak.wrapping_add(1)
                &&& log == (final(self).fail_streak <= 3 || final(self).fail_streak % 100 == 0)
            },
            final(sink).ring == old(sink).ring,
            final(sink).cfg == old(sink).cfg,
            final(sink).model_id == old(sink).model_id,
            final(sink).topology == old(sink).topology,
            final(sink).sessions == old(sink).sessions,
            final(self).last_status == old(self).last_status,
            final(self).last_drop_log == old(self).last_drop_log,
            final(self).drop_logged == old(self).drop_logged,
    {
        if ok {
            sink.sent = sink.sent.wrapping_add(rows as u64);
            self.fail_streak = 0;
            false
        } else {
            sink.failed_batches = sink.failed_batches.wrapping_add(1);
            self.fail_streak = self.fail_streak.wrapping_add(1);
            self.fail_streak <= 3 || self.fail_streak % 100 == 0
        }
    }

    /// Whether newly dropped records are worth a message now.
    pub fn log_drops(&mut self, dropped: u64, now: u64) -> (log: bool)
        ensures
            log == (dropped != old(self).drop_logged && elapsed(
                old(self).last_drop_log,
                now,
                DROP_LOG_PERIOD,
            )),
            final(self).drop_logged == (if log {
                dropped
            } else {
                old(self).drop_logged
            }),
            final(self).last_drop_log == (if log {
                now
            } else {
                old(self).last_drop_log
            }),
            final(self).last_status == old(self).last_status,
            final(self).fail_streak == old(self).fail_streak,
    {
        if dropped != self.drop_logged && self.last_drop_log <= now && now - self.last_drop_log
            >= DROP_LOG_PERIOD {
            self.drop_logged = dropped;
            self.last_drop_log = now;
            true
        } else {
            false
        }
    }
}

} // verus!
