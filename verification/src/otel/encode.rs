//! Records as the JSON that a receiver reads.
//!
//! Keys stand in alphabetical order; 64-bit numbers are written as strings.
use vstd::prelude::*;

use crate::json::{json_quoted, quote};
use crate::otel::record::{event_name, event_text, Record};
use crate::otel::sink::OtelSink;
use crate::text::{append, decimal, string_of, to_decimal};

verus! {

/// The service that the records describe.
pub const SERVICE_NAME: &'static str = "gb10_inference";

/// Version of the emitter.
pub const EMITTER_VERSION: &'static str = "0.1.0";

/// A text attribute.
pub open spec fn attr_text(key: Seq<char>, v: Seq<char>) -> Seq<char> {
    "{\"key\":"@ + json_quoted(key) + ",\"value\":{\"stringValue\":"@ + json_quoted(v) + "}}"@
}

/// A number attribute.
pub open spec fn attr_number(key: Seq<char>, v: nat) -> Seq<char> {
    "{\"key\":"@ + json_quoted(key) + ",\"value\":{\"intValue\":"@ + json_quoted(decimal(v)) + "}}"@
}

/// The attributes of a record, in their fixed order.
pub open spec fn attributes_text(r: Record) -> Seq<char> {
    attr_text("model.id"@, r.ctx.model_id@) + ","@ + attr_text("topology"@, r.ctx.topology@) + ","@
        + attr_text("request.id"@, r.ctx.request_id@) + ","@ + attr_number(
        "token.index"@,
        r.token_index as nat,
    ) + ","@ + attr_text("event"@, event_text(r.event)) + ","@ + attr_text(
        "generation.id"@,
        r.ctx.generation_id@,
    )
}

/// A record.
pub open spec fn record_text(r: Record) -> Seq<char> {
    "{\"attributes\":["@ + attributes_text(r) + "],\"body\":{\"stringValue\":"@ + json_quoted(
        r.body.text(),
    ) + "},\"observedTimeUnixNano\":"@ + json_quoted(decimal(r.ts_unix_nano as nat))
        + ",\"timeUnixNano\":"@ + json_quoted(decimal(r.ts_unix_nano as nat)) + "}"@
}

/// Records, with commas between.
pub open spec fn records_text(rs: Seq<Record>) -> Seq<char>
    decreases rs.len(),
{
    if rs.len() == 0 {
        Seq::empty()
    } else if rs.len() == 1 {
        record_text(rs[0])
    } else {
        records_text(rs.drop_last()) + ","@ + record_text(rs.last())
    }
}

/// The request that carries a batch: one resource, one scope, the records.
pub open spec fn logs_text(rs: Seq<Record>) -> Seq<char> {
    "{\"resourceLogs\":[{\"resource\":{\"attributes\":["@ + attr_text("service.name"@, SERVICE_NAME@)
        + "]},\"scopeLogs\":[{\"logRecords\":["@ + records_text(rs)
        + "],\"scope\":{\"name\":\"gb10.generation.emitter\",\"version\":"@ + json_quoted(
        EMITTER_VERSION@,
    ) + "}}]}]}"@
}

fn attr_string(key: &str, v: &str) -> (r: String)
    ensures
        r@ == attr_text(key@, v@),
{
    let mut r: String = "{\"key\":".to_owned();
    append(&mut r, quote(key).as_str());
    append(&mut r, ",\"value\":{\"stringValue\":");
    append(&mut r, quote(v).as_str());
    append(&mut r, "}}");
    r
}

fn attr_int(key: &str, v: u32) -> (r: String)
    ensures
        r@ == attr_number(key@, v as nat),
{
    let mut r: String = "{\"key\":".to_owned();
    append(&mut r, quote(key).as_str());
    append(&mut r, ",\"value\":{\"intValue\":");
    let d: Vec<char> = to_decimal(v as u64);
    append(&mut r, quote(string_of(d.as_slice()).as_str()).as_str());
    append(&mut r, "}}");
    r
}

/// A record as JSON.
pub fn record_json(rec: &Record) -> (r: String)
    requires
        rec.body.wf(),
    ensures
        r@ == record_text(*rec),
{
    let mut a: String = attr_string("model.id", rec.ctx.model_id.as_str());
    append(&mut a, ",");
    append(&mut a, attr_string("topology", rec.ctx.topology.as_str()).as_str());
    append(&mut a, ",");
    append(&mut a, attr_string("request.id", rec.ctx.request_id.as_str()).as_str());
    append(&mut a, ",");
    append(&mut a, attr_int("token.index", rec.token_index).as_str());
    append(&mut a, ",");
    append(&mut a, attr_string("event", event_name(rec.event)).as_str());
    append(&mut a, ",");
    append(&mut a, attr_string("generation.id", rec.ctx.generation_id.as_str()).as_str());
    let d: Vec<char> = to_decimal(rec.ts_unix_nano);
    let t: String = quote(string_of(d.as_slice()).as_str());
    let mut r: String = "{\"attributes\":[".to_owned();
    append(&mut r, a.as_str());
    append(&mut r, "],\"body\":{\"stringValue\":");
    append(&mut r, quote(rec.body.as_str()).as_str());
    append(&mut r, "},\"observedTimeUnixNano\":");
    append(&mut r, t.as_str());
    append(&mut r, ",\"timeUnixNano\":");
    append(&mut r, t.as_str());
    append(&mut r, "}");
    r
}

/// A batch of the sink's records as the JSON of one request. The resource it names is the engine, whichever
/// sink took the records.
pub fn otlp_logs_json(_sink: &OtelSink, records: &[Record]) -> (r: String)
    requires
        forall|i: int| 0 <= i < records@.len() ==> (#[trigger] records@[i]).body.wf(),
    ensures
        r@ == logs_text(records@),
{
    let mut list: String = String::new();
    let mut i: usize = 0;
    proof {
        assert(list@ =~= records_text(records@.take(0)));
    }
    while i < records.len()
        invariant
            i <= records@.len(),
            forall|i: int| 0 <= i < records@.len() ==> (#[trigger] records@[i]).body.wf(),
            list@ == records_text(records@.take(i as int)),
        decreases records@.len() - i,
    {
        let ghost t = records@.take(i + 1);
        proof {
            assert(t.drop_last() =~= records@.take(i as int));
            assert(t.last() == records@[i as int]);
            if i == 0 {
                assert(t[0] == records@[0]);
            }
        }
        if i > 0 {
            append(&mut list, ",");
        }
        append(&mut list, record_json(&records[i]).as_str());
        proof {
            if i == 0 {
                assert(list@ =~= record_text(records@[0]));
            }
        }
        i = i + 1;
    }
    proof {
        assert(records@.take(records@.len() as int) =~= records@);
    }
    let mut r: String = "{\"resourceLogs\":[{\"resource\":{\"attributes\":[".to_owned();
    append(&mut r, attr_string("service.name", SERVICE_NAME).as_str());
    append(&mut r, "]},\"scopeLogs\":[{\"logRecords\":[");
    append(&mut r, list.as_str());
    append(&mut r, "],\"scope\":{\"name\":\"gb10.generation.emitter\",\"version\":");
    append(&mut r, quote(EMITTER_VERSION).as_str());
    append(&mut r, "}}]}]}");
    r
}

} // verus!
