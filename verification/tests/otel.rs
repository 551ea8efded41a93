use std::sync::Arc;

use gb10_inference::otel::config::{topology_from_world, OtelConfig};
use gb10_inference::otel::encode::{otlp_logs_json, record_json};
use gb10_inference::otel::http::{judge_bytes, judge_reply, post_request};
use gb10_inference::otel::record::{
    event_name, Body, Record, ReqCtx, EVENT_DELTA, EVENT_END, EVENT_START, EVENT_STATUS, INLINE_CAP,
};
use gb10_inference::otel::ring::{turn, Ring, Turn};
use gb10_inference::otel::sender::{Sender, DROP_LOG_PERIOD, STATUS_PERIOD};
use gb10_inference::otel::session::{
    msg_hash, session_id, SessionRegistry, SESSION_CAP, SESSION_TTL,
};
use gb10_inference::otel::sink::{LiveStatsSource, NoMetrics, OtelRequest, OtelSink, SINK_CAPACITY};
use serde_json::Value;

fn cfg(include_tokens: bool) -> OtelConfig {
    OtelConfig {
        endpoint: "http://127.0.0.1:4318".into(),
        batch_size: 512,
        batch_interval_ms: 50,
        include_tokens,
        model_id: None,
        topology: None,
    }
}

fn sink_and_req(include_tokens: bool, rid: &str) -> (OtelSink, OtelRequest) {
    let sink = OtelSink::new(cfg(include_tokens), "test-model", "single");
    let req = sink.open_request(rid, "gen-test");
    (sink, req)
}

fn drain(sink: &mut OtelSink) -> Vec<Record> {
    let mut v = Vec::new();
    while let Some(r) = sink.ring.pop() {
        v.push(r);
    }
    v
}

fn context() -> Arc<ReqCtx> {
    Arc::new(ReqCtx {
        model_id: "m".into(),
        topology: "single".into(),
        request_id: "r".into(),
        generation_id: "g".into(),
    })
}

fn attr_value(a: &Value) -> String {
    a["value"]["stringValue"]
        .as_str()
        .or(a["value"]["intValue"].as_str())
        .unwrap()
        .to_string()
}

fn attrmap(rec: &Record) -> Vec<(String, String)> {
    let j: Value = serde_json::from_str(&record_json(rec)).unwrap();
    j["attributes"]
        .as_array()
        .unwrap()
        .iter()
        .map(|a| (a["key"].as_str().unwrap().to_string(), attr_value(a)))
        .collect()
}

#[test]
fn ring_fifo_single_producer() {
    let mut ring = Ring::new(1024);
    for i in 0..500u32 {
        let ctx = context();
        assert!(ring.push(Record::new(&ctx, EVENT_DELTA, i, "x")));
    }
    for i in 0..500u32 {
        let r = ring.pop().expect("record present");
        assert_eq!(r.token_index, i, "FIFO order");
    }
    assert!(ring.pop().is_none());
    assert_eq!(ring.dropped(), 0);
}

#[test]
fn ring_full_drops_and_moves_on() {
    let mut ring = Ring::new(8);
    let ctx = context();
    let mut accepted = 0;
    for i in 0..1000u32 {
        if ring.push(Record::new(&ctx, EVENT_DELTA, i, "x")) {
            accepted += 1;
        }
    }
    assert_eq!(accepted, 8, "exactly capacity accepted");
    assert_eq!(ring.dropped(), 992, "rest dropped, hot path moved on");
}

#[test]
fn ring_reuses_its_slots() {
    let mut ring = Ring::new(4);
    let ctx = context();
    let mut next = 0u32;
    let mut want = 0u32;
    for _ in 0..50 {
        for _ in 0..3 {
            assert!(ring.push(Record::new(&ctx, EVENT_DELTA, next, "x")));
            next += 1;
        }
        let mut out = Vec::new();
        assert_eq!(ring.pop_batch(&mut out, 2), 2);
        assert_eq!(ring.pop_batch(&mut out, 100), 1);
        assert_eq!(ring.pop_batch(&mut out, 100), 0);
        for r in out {
            assert_eq!(r.token_index, want);
            want += 1;
        }
    }
    assert_eq!(ring.dropped(), 0);
}

#[test]
fn ring_capacity_is_a_power_of_two() {
    assert_eq!(Ring::new(0).capacity(), 2);
    assert_eq!(Ring::new(2).capacity(), 2);
    assert_eq!(Ring::new(3).capacity(), 4);
    assert_eq!(Ring::new(8).capacity(), 8);
    assert_eq!(Ring::new(1000).capacity(), 1024);
    let sink = OtelSink::new(cfg(true), "m", "single");
    assert_eq!(sink.ring.capacity(), SINK_CAPACITY);
}

#[test]
fn turns_survive_the_wrap_of_the_counter() {
    assert!(matches!(turn(5, 5), Turn::Mine));
    assert!(matches!(turn(4, 5), Turn::NotYet));
    assert!(matches!(turn(6, 5), Turn::Passed));
    assert!(matches!(turn(u64::MAX, 0), Turn::NotYet));
    assert!(matches!(turn(0, u64::MAX), Turn::Passed));
}

#[test]
fn body_inline_for_typical_chunks() {
    let small =
        "{\"choices\":[{\"index\":0,\"delta\":{\"content\":\" hi\"},\"finish_reason\":null}]}";
    match Body::from_chunk(small) {
        Body::Inline { len, .. } => assert_eq!(len as usize, small.len()),
        Body::Shared(_) => panic!("typical delta must stay inline (no per-token alloc)"),
    }
    let big = "x".repeat(INLINE_CAP + 1);
    assert!(matches!(Body::from_chunk(&big), Body::Shared(_)));
}

#[test]
fn bodies_give_back_their_chunk() {
    let edge = "é".repeat(INLINE_CAP / 2);
    for chunk in ["", "plain", "日本語 ☃", edge.as_str(), "y".repeat(1000).as_str()] {
        assert_eq!(Body::from_chunk(chunk).as_str(), chunk);
    }
    assert!(matches!(Body::from_chunk(&edge), Body::Inline { .. }));
    let past = "é".repeat(INLINE_CAP / 2 + 1);
    assert!(matches!(Body::from_chunk(&past), Body::Shared(_)));
}

#[test]
fn contract_shape_and_same_info() {
    let (mut sink, mut req) = sink_and_req(true, "chatcmpl-abc");
    let chunk = "{\"id\":\"chatcmpl-abc\",\"object\":\"chat.completion.chunk\",\"created\":1,\"model\":\"test-model\",\"choices\":[{\"index\":0,\"delta\":{\"content\":\"Hel\"},\"finish_reason\":null}]}";
    req.start(&mut sink, "{\"choices\":[{\"index\":0,\"delta\":{\"role\":\"assistant\"},\"finish_reason\":null}]}");
    req.delta(&mut sink, chunk);
    req.end(&mut sink, "{\"choices\":[{\"index\":0,\"delta\":{},\"finish_reason\":\"stop\"}]}");
    let rows = drain(&mut sink);
    assert_eq!(rows.len(), 3, "batched: 3 records in ONE request");
    let json = otlp_logs_json(&sink, &rows);
    let parsed: Value = serde_json::from_str(&json).expect("decodes as OTLP JSON");
    let resource_logs = parsed["resourceLogs"].as_array().unwrap();
    assert_eq!(resource_logs.len(), 1, "one resourceLogs");
    let scope_logs = resource_logs[0]["scopeLogs"].as_array().unwrap();
    assert_eq!(scope_logs.len(), 1, "one scopeLogs");
    let recs = scope_logs[0]["logRecords"].as_array().unwrap();
    assert_eq!(recs.len(), 3);
    assert_eq!(recs[1]["body"]["stringValue"].as_str().unwrap(), chunk);
    let expect: Vec<(String, String)> = [
        ("model.id", "test-model"),
        ("topology", "single"),
        ("request.id", "chatcmpl-abc"),
        ("token.index", "0"),
        ("event", "stream_start"),
        ("generation.id", "gen-test"),
    ]
    .iter()
    .map(|(k, v)| (k.to_string(), v.to_string()))
    .collect();
    let a0: Vec<(String, String)> = recs[0]["attributes"]
        .as_array()
        .unwrap()
        .iter()
        .map(|a| (a["key"].as_str().unwrap().to_string(), attr_value(a)))
        .collect();
    assert_eq!(a0, expect, "start record attributes");
    assert_eq!(recs[1]["attributes"][4]["value"]["stringValue"], "stream_delta");
    assert_eq!(recs[1]["attributes"][3]["value"]["intValue"], "1");
    assert_eq!(recs[2]["attributes"][4]["value"]["stringValue"], "stream_end");
    assert_eq!(recs[2]["attributes"][3]["value"]["intValue"], "2");
    for r in recs {
        let t = r["timeUnixNano"].as_str().unwrap();
        assert!(t.parse::<u64>().is_ok(), "timeUnixNano decimal string");
        assert_eq!(t, r["observedTimeUnixNano"].as_str().unwrap());
    }
    assert_eq!(attrmap(&rows[0])[4], ("event".into(), "stream_start".into()));
}

#[test]
fn batch_text_is_compact_json() {
    let sink = OtelSink::new(cfg(true), "m", "single");
    let rec = Record::at(&context(), EVENT_DELTA, 7, "say \"hi\"\n", 42);
    let one = record_json(&rec);
    assert_eq!(
        one,
        "{\"attributes\":[{\"key\":\"model.id\",\"value\":{\"stringValue\":\"m\"}},\
         {\"key\":\"topology\",\"value\":{\"stringValue\":\"single\"}},\
         {\"key\":\"request.id\",\"value\":{\"stringValue\":\"r\"}},\
         {\"key\":\"token.index\",\"value\":{\"intValue\":\"7\"}},\
         {\"key\":\"event\",\"value\":{\"stringValue\":\"stream_delta\"}},\
         {\"key\":\"generation.id\",\"value\":{\"stringValue\":\"g\"}}],\
         \"body\":{\"stringValue\":\"say \\\"hi\\\"\\n\"},\
         \"observedTimeUnixNano\":\"42\",\"timeUnixNano\":\"42\"}"
    );
    let none = otlp_logs_json(&sink, &[]);
    assert_eq!(
        none,
        "{\"resourceLogs\":[{\"resource\":{\"attributes\":[{\"key\":\"service.name\",\
         \"value\":{\"stringValue\":\"gb10_inference\"}}]},\"scopeLogs\":[{\"logRecords\":[],\
         \"scope\":{\"name\":\"gb10.generation.emitter\",\"version\":\"0.1.0\"}}]}]}"
    );
    let two = otlp_logs_json(&sink, &[rec, Record::at(&context(), EVENT_END, 8, "", 43)]);
    assert!(two.contains(&format!("\"logRecords\":[{},{{\"attributes\"", one)));
}

#[test]
fn lifecycle_and_concurrent_keys() {
    let (mut sink, mut ra) = sink_and_req(true, "chatcmpl-A");
    let mut rb = sink.open_request("chatcmpl-B", "gen-B");
    ra.start(&mut sink, "role");
    ra.delta(&mut sink, "a1");
    rb.start(&mut sink, "role");
    ra.delta(&mut sink, "a2");
    rb.delta(&mut sink, "b1");
    ra.end(&mut sink, "end-a");
    rb.end(&mut sink, "end-b");
    let rows = drain(&mut sink);
    assert_eq!(rows.len(), 7, "ra 4 (start+2d+end) + rb 3 (start+1d+end)");
    for (rid, n_deltas) in [("chatcmpl-A", 2usize), ("chatcmpl-B", 1)] {
        let mine: Vec<&Record> = rows.iter().filter(|r| r.ctx.request_id == rid).collect();
        assert_eq!(mine.len(), n_deltas + 2);
        let events: Vec<u8> = mine.iter().map(|r| r.event).collect();
        assert_eq!(events.first(), Some(&EVENT_START), "{rid} starts first");
        assert_eq!(events.last(), Some(&EVENT_END), "{rid} ends last");
        assert!(events[1..events.len() - 1].iter().all(|&e| e == EVENT_DELTA));
        let idx: Vec<u32> = mine.iter().map(|r| r.token_index).collect();
        let mut sorted: Vec<u32> = idx.clone();
        sorted.sort_unstable();
        assert_eq!(idx, sorted, "{rid} token.index monotone");
    }
    let status = Record::status(&Arc::new(ReqCtx {
        model_id: sink.model_id.clone(),
        topology: sink.topology.clone(),
        request_id: "".into(),
        generation_id: "server".into(),
    }));
    let a = attrmap(&status);
    assert_eq!(a[4], ("event".into(), "status".into()));
    assert_eq!(a[0], ("model.id".into(), "test-model".into()));
    assert_eq!(a[1], ("topology".into(), "single".into()));
    assert_eq!(a[2], ("request.id".into(), "".into()));
}

#[test]
fn include_tokens_off_drops_deltas_only() {
    let (mut sink, mut req) = sink_and_req(false, "chatcmpl-T");
    req.start(&mut sink, "role");
    for _ in 0..50 {
        req.delta(&mut sink, "{\"choices\":[...]}");
    }
    req.end(&mut sink, "end");
    let rows = drain(&mut sink);
    assert_eq!(rows.len(), 2, "start + end only");
    assert_eq!(rows[0].event, EVENT_START);
    assert_eq!(rows[1].event, EVENT_END);
    assert_eq!((rows[0].token_index, rows[1].token_index), (0, 1));
}

#[test]
fn stream_is_numbered_without_gaps() {
    let (mut sink, mut req) = sink_and_req(true, "r");
    req.start(&mut sink, "a");
    for _ in 0..5 {
        req.delta(&mut sink, "b");
    }
    req.end(&mut sink, "c");
    let got: Vec<u32> = drain(&mut sink).iter().map(|r| r.token_index).collect();
    assert_eq!(got, vec![0, 1, 2, 3, 4, 5, 6]);
}

#[test]
fn records_are_stamped_with_the_wall_clock() {
    let before = std::time::SystemTime::now()
        .duration_since(std::time::UNIX_EPOCH)
        .unwrap()
        .as_nanos() as u64;
    let r = Record::new(&context(), EVENT_DELTA, 0, "x");
    let after = std::time::SystemTime::now()
        .duration_since(std::time::UNIX_EPOCH)
        .unwrap()
        .as_nanos() as u64;
    assert!(before <= r.ts_unix_nano && r.ts_unix_nano <= after);
}

#[test]
fn event_names() {
    assert_eq!(event_name(EVENT_START), "stream_start");
    assert_eq!(event_name(EVENT_DELTA), "stream_delta");
    assert_eq!(event_name(EVENT_END), "stream_end");
    assert_eq!(event_name(EVENT_STATUS), "status");
}

#[test]
fn settings_replace_the_found_identity() {
    let mut c = cfg(true);
    c.model_id = Some("own".into());
    c.topology = Some("tp2".into());
    let sink = OtelSink::new(c, "found", "single");
    assert_eq!((sink.model_id.as_str(), sink.topology.as_str()), ("own", "tp2"));
    assert_eq!(sink.stats(), (0, 0, 0));
    assert!(NoMetrics.live_stats().is_none());
}

#[test]
fn topology_vocabulary() {
    assert_eq!(topology_from_world(None), "single");
    assert_eq!(topology_from_world(Some(2)), "tp2");
    assert_eq!(topology_from_world(Some(4)), "tp4");
}

fn msgs(msgs: &[(&str, &str)]) -> Vec<String> {
    msgs.iter()
        .map(|(r, c)| format!("{{\"role\":\"{r}\",\"content\":\"{c}\"}}"))
        .collect()
}

#[test]
fn session_continuation_and_separation() {
    let mut reg = SessionRegistry::new();
    let t1 = msgs(&[("user", "hi")]);
    let s1 = reg.resolve(None, &t1);
    let mut t2 = t1.clone();
    t2.push("{\"role\":\"assistant\",\"content\":\"hello\"}".into());
    t2.push("{\"role\":\"user\",\"content\":\"bye\"}".into());
    let s2 = reg.resolve(None, &t2);
    assert_eq!(s1, s2, "follow-up turn MUST land in the same session");
    let mut t3 = t2.clone();
    t3.push("{\"role\":\"assistant\",\"content\":\"cya\"}".into());
    t3.push("{\"role\":\"user\",\"content\":\"?\"}".into());
    assert_eq!(reg.resolve(None, &t3), s1, "turn 3 continues the session");
    let u1 = msgs(&[("user", "completely different")]);
    let u_s1 = reg.resolve(None, &u1);
    assert_ne!(u_s1, s1);
    let mut u2 = u1.clone();
    u2.push("{\"role\":\"assistant\",\"content\":\"ok\"}".into());
    u2.push("{\"role\":\"user\",\"content\":\"more\"}".into());
    assert_eq!(reg.resolve(None, &u2), u_s1, "unrelated session groups internally");
    assert_eq!(reg.resolve(None, &t3), s1, "sessions do not cross-contaminate");
}

#[test]
fn session_explicit_key_wins_and_learns() {
    let mut reg = SessionRegistry::new();
    let t1 = msgs(&[("user", "keyed")]);
    let s1 = reg.resolve(Some("my-session-42".into()), &t1);
    assert_eq!(s1, "my-session-42");
    let mut t2 = t1.clone();
    t2.push("{\"role\":\"assistant\",\"content\":\"yes\"}".into());
    t2.push("{\"role\":\"user\",\"content\":\"again\"}".into());
    assert_eq!(reg.resolve(None, &t2), "my-session-42", "bare follow-up continues");
    let other = reg.resolve(Some("other".into()), &msgs(&[("user", "keyed")]));
    assert_eq!(other, "other");
    assert_ne!(other, s1);
}

#[test]
fn session_retry_same_regenerated_new() {
    let mut reg = SessionRegistry::new();
    let t = msgs(&[("user", "q"), ("assistant", "a"), ("user", "next")]);
    let s1 = reg.resolve(None, &t);
    assert_eq!(reg.resolve(None, &t), s1, "identical retry = same session");
    let mut regen = t[..2].to_vec();
    regen.push("{\"role\":\"user\",\"content\":\"next (edited)\"}".into());
    let s2 = reg.resolve(None, &regen);
    assert_ne!(s1, s2, "regenerated history is a different session (inferred)");
    assert_eq!(reg.resolve(Some(s1.clone()), &regen), s1, "header forces continuity");
}

#[test]
fn only_the_last_request_of_a_session_counts() {
    let list = |words: &[&str]| words.iter().map(|w| w.to_string()).collect::<Vec<String>>();
    let mut reg = SessionRegistry::new();
    let s = reg.resolve(None, &list(&["a"]));
    assert_eq!(reg.resolve(None, &list(&["a", "b", "c"])), s);
    assert_ne!(reg.resolve(None, &list(&["a", "x", "y"])), s, "[a] is not the session's last request");
    assert_eq!(reg.resolve(None, &list(&["a", "b", "c"])), s, "a bare retry, with another session between");
    assert_eq!(reg.resolve(None, &list(&["a", "b", "c", "d", "e"])), s);
    assert_eq!(reg.entries.len(), 2, "one entry per session");
    let mut reg = SessionRegistry::new();
    assert_eq!(reg.resolve_at(5, Some("key".into()), &list(&["a"]), "n0"), "key");
    assert_eq!(reg.resolve_at(5, None, &list(&["u"]), "n1"), "n1");
    assert_eq!(reg.resolve_at(5, None, &list(&["u", "v"]), "n2"), "n1");
    assert_eq!(reg.resolve_at(5, None, &list(&["a", "b"]), "n3"), "key", "others came between");
    assert_eq!(reg.resolve_at(5, None, &list(&["a"]), "n4"), "n4", "not a prefix of it any more");
    assert_eq!(reg.resolve_at(5, None, &list(&["z"]), "n1"), "n1", "an id that is drawn again");
    assert_eq!(reg.entries.len(), 3, "still one entry per session");
    assert_eq!(reg.resolve_at(5, None, &list(&["u", "v", "w"]), "n5"), "n5", "[z] is the last request of n1");
}

#[test]
fn records_without_the_sink() {
    let (_, mut req) = sink_and_req(true, "chatcmpl-R");
    let start = req.next_record(EVENT_START, "role", false).unwrap();
    assert_eq!((start.event, start.token_index), (EVENT_START, 0));
    assert!(req.next_record(EVENT_DELTA, "x", false).is_none());
    let delta = req.next_record(EVENT_DELTA, "x", true).unwrap();
    assert_eq!((delta.event, delta.token_index), (EVENT_DELTA, 1));
    assert_eq!(req.next_record(EVENT_END, "bye", false).unwrap().token_index, 2);
}

#[test]
fn sessions_expire_and_stay_bounded() {
    let mut reg = SessionRegistry::new();
    let t = msgs(&[("user", "q")]);
    assert_eq!(reg.resolve_at(0, None, &t, "first"), "first");
    assert_eq!(reg.resolve_at(SESSION_TTL - 1, None, &t, "second"), "first");
    assert_eq!(reg.resolve_at(2 * SESSION_TTL - 1, None, &t, "third"), "third");
    for i in 0..(SESSION_CAP + 40) {
        let m = vec![format!("message {i}")];
        reg.resolve_at(3 * SESSION_TTL + i as u64, None, &m, &format!("s{i}"));
        assert!(reg.entries.len() <= SESSION_CAP);
    }
    assert_eq!(reg.entries.len(), SESSION_CAP);
}

#[test]
fn session_ids_are_short_and_fresh() {
    let id = session_id("0123456789abcdef0123456789abcdef");
    assert_eq!(id, "sess-0123456789ab");
    let mut sink = OtelSink::new(cfg(true), "m", "single");
    let a = sink.resolve_session(None, &msgs(&[("user", "one")]));
    let b = sink.resolve_session(None, &msgs(&[("user", "two")]));
    assert_ne!(a, b);
    assert_eq!(a.len(), id.len());
    assert!(a.starts_with("sess-"));
    assert!(a[5..].chars().all(|c| c.is_ascii_hexdigit() && !c.is_ascii_uppercase()));
}

#[test]
fn message_hashes_tell_messages_apart() {
    let a = msgs(&[("user", "a"), ("user", "b")]);
    assert_eq!(msg_hash(&a), msg_hash(&a.clone()));
    assert_ne!(msg_hash(&a), msg_hash(&a[..1]));
    assert_ne!(msg_hash(&["ab".to_string()]), msg_hash(&["a".to_string(), "b".to_string()]));
}

#[test]
fn endpoint_hostport() {
    let mk = |ep: &str| OtelConfig {
        endpoint: ep.into(),
        batch_size: 1,
        batch_interval_ms: 1,
        include_tokens: true,
        model_id: None,
        topology: None,
    };
    assert_eq!(mk("http://127.0.0.1:4318").hostport().unwrap(), ("127.0.0.1".into(), 4318));
    assert_eq!(mk("http://otel.lan").hostport().unwrap(), ("otel.lan".into(), 4318));
    assert_eq!(mk("http://[::1]:9/").hostport().unwrap(), ("[::1]:9".into(), 4318));
    assert!(mk("https://secure").hostport().is_err(), "no TLS in the dependency-free client");
}

#[test]
fn endpoint_errors_quote_the_endpoint() {
    let mut c = cfg(true);
    c.endpoint = "ftp://a\"b".into();
    assert_eq!(
        c.hostport().unwrap_err(),
        "--otel-endpoint must be http://<host>[:port] (got \"ftp://a\\\"b\"); the emitter's \
         dependency-free client does not speak TLS"
    );
    c.endpoint = "http://host:notaport".into();
    assert_eq!(c.hostport().unwrap_err(), "--otel-endpoint bad port \"notaport\"");
    c.endpoint = "http://host:65536".into();
    assert_eq!(c.hostport().unwrap_err(), "--otel-endpoint bad port \"65536\"");
    c.endpoint = "http:///v1".into();
    assert_eq!(c.hostport().unwrap_err(), "--otel-endpoint has no host: \"http:///v1\"");
    c.endpoint = "http://[fe80::2]".into();
    assert_eq!(c.hostport().unwrap(), ("[fe80::2]:4318".to_string(), 4318));
}

#[test]
fn posts_are_framed() {
    assert_eq!(
        post_request("otel.lan", 4318, "/v1/logs", "{é}"),
        "POST /v1/logs HTTP/1.1\r\nHost: otel.lan:4318\r\nContent-Type: application/json\r\n\
         Content-Length: 4\r\nConnection: close\r\n\r\n{é}"
    );
}

#[test]
fn replies_are_judged_by_their_status() {
    assert!(judge_reply("HTTP/1.1 200 OK\r\n").is_ok());
    assert!(judge_bytes(b"HTTP/1.1 202 Accepted\r\nX: y\r\n").is_ok());
    assert!(judge_reply("HTTP/1.0 204 No Content").is_ok());
    assert_eq!(
        judge_reply("HTTP/1.1 404 Not Found\r\nA: b\r\n").unwrap_err(),
        "receiver said HTTP/1.1 404 Not Found"
    );
    assert_eq!(judge_bytes(b"").unwrap_err(), "receiver said <no status line>");
    assert_eq!(
        judge_bytes(b"HTTP/1.1 500 \xff\r\n").unwrap_err(),
        "receiver said HTTP/1.1 500 \u{fffd}"
    );
}

#[test]
fn sender_collects_and_reports() {
    let mut sink = OtelSink::new(cfg(true), "m", "single");
    let mut req = sink.open_request("r", "g");
    req.start(&mut sink, "a");
    req.delta(&mut sink, "b");
    let server = Arc::new(sink.context("", "server"));
    let mut sender = Sender::new(0);
    let rows = sender.collect(&mut sink, &server, 1);
    assert_eq!(rows.len(), 2);
    assert!(sender.collect(&mut sink, &server, 2).is_empty());
    let rows = sender.collect(&mut sink, &server, STATUS_PERIOD);
    assert_eq!(rows.len(), 1);
    assert_eq!(rows[0].event, EVENT_STATUS);
    sender.posted(&mut sink, 2, true);
    assert_eq!(sink.stats(), (2, 0, 0));
    for i in 1..=200u64 {
        let log = sender.posted(&mut sink, 5, false);
        assert_eq!(log, i <= 3 || i % 100 == 0, "failure {i} of a streak");
    }
    assert_eq!(sink.stats(), (2, 0, 200));
    assert!(!sender.posted(&mut sink, 1, true));
    assert!(sender.posted(&mut sink, 1, false), "a new streak");
    assert!(!sender.log_drops(0, DROP_LOG_PERIOD));
    assert!(sender.log_drops(3, DROP_LOG_PERIOD + 1));
    assert!(!sender.log_drops(3, 3 * DROP_LOG_PERIOD));
    assert!(!sender.log_drops(4, 2 * DROP_LOG_PERIOD));
    assert!(sender.log_drops(4, 2 * DROP_LOG_PERIOD + 1));
}

#[test]
fn intervals_have_a_floor() {
    assert_eq!(Sender::interval_ms(50), 50);
    assert_eq!(Sender::interval_ms(0), 1);
}
