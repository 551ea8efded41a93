//! Sessions: which conversation a request belongs to.
//!
//! The chat interface keeps no state: a follow-up turn repeats the messages of the turn before it and
//! appends to them. So a request continues a session if and only if the messages of that session's last
//! request are a prefix of its own: the registry holds one entry per session, that of its last request. A
//! key that the client gives always wins.
use std::hash::{DefaultHasher, Hasher};
use vstd::prelude::*;
use vstd::std_specs::hash::DefaultHasherAdditionalSpecFns;
use vstd::string::*;
use vstd::utf8::encode_utf8;

use crate::text::{append, chars_of, string_of, texts};

verus! {

/// Time after which an idle session is forgotten, in nanoseconds.
pub const SESSION_TTL: u64 = 1_800_000_000_000;

/// Entries that the registry keeps.
pub const SESSION_CAP: usize = 256;

/// Entries that are compared with a request, newest first.
pub const SESSION_SCAN: usize = 64;

/// The messages of a session's last request.
pub struct SessionEntry {
    pub msgs: Vec<String>,
    /// Their fingerprint, which settles most comparisons.
    pub fp: u64,
    pub session: String,
    /// When the entry was last used.
    pub last: u64,
}

/// The messages of a session's last request.
pub struct EntryView {
    pub msgs: Seq<Seq<char>>,
    pub session: Seq<char>,
    pub last: u64,
}

impl View for SessionEntry {
    type V = EntryView;

    open spec fn view(&self) -> EntryView {
        EntryView { msgs: texts(self.msgs@), session: self.session@, last: self.last }
    }
}

impl SessionEntry {
    /// The fingerprint is that of the messages.
    pub open spec fn wf(&self) -> bool {
        self.fp == fingerprint(texts(self.msgs@))
    }
}

/// Every fingerprint is that of its messages.
pub open spec fn all_wf(v: Seq<SessionEntry>) -> bool {
    forall|k: int| 0 <= k < v.len() ==> (#[trigger] v[k]).wf()
}

/// The entries, as the contracts see them.
pub open spec fn entry_views(v: Seq<SessionEntry>) -> Seq<EntryView> {
    v.map_values(|e: SessionEntry| e@)
}

// ---- fingerprints ----

/// The pieces that are hashed: the bytes of every message, each closed by a zero byte so that no two lists
/// run together.
pub open spec fn pieces_of(msgs: Seq<Seq<char>>) -> Seq<Seq<u8>>
    decreases msgs.len(),
{
    if msgs.len() == 0 {
        Seq::empty()
    } else {
        pieces_of(msgs.drop_last()).push(encode_utf8(msgs.last())).push(seq![0u8])
    }
}

/// The fingerprint of a list of messages: what a new hasher makes of their pieces.
pub open spec fn fingerprint(msgs: Seq<Seq<char>>) -> u64 {
    DefaultHasher::spec_finish(pieces_of(msgs))
}

/// The fingerprint of a list of messages.
pub fn msg_hash(per_msg: &[String]) -> (h: u64)
    ensures
        h == fingerprint(texts(per_msg@)),
{
    hash_prefix(per_msg, per_msg.len())
}

fn hash_prefix(per_msg: &[String], n: usize) -> (h: u64)
    requires
        n <= per_msg@.len(),
    ensures
        h == fingerprint(texts(per_msg@).take(n as int)),
        n == per_msg@.len() ==> h == fingerprint(texts(per_msg@)),
{
    let ghost ms = texts(per_msg@);
    let zero: [u8; 1] = [0];
    let mut h: DefaultHasher = DefaultHasher::new();
    let mut i: usize = 0;
    proof {
        assert(h@ =~= pieces_of(ms.take(0)));
    }
    while i < n
        invariant
            i <= n <= per_msg@.len(),
            ms == texts(per_msg@),
            zero@ == seq![0u8],
            h@ == pieces_of(ms.take(i as int)),
        decreases n - i,
    {
        h.write(per_msg[i].as_str().as_bytes());
        h.write(&zero);
        i = i + 1;
        proof {
            let t = ms.take(i as int);
            assert(t.drop_last() =~= ms.take(i - 1));
            assert(t.last() == per_msg@[i - 1]@);
        }
    }
    proof {
        if n == per_msg@.len() {
            assert(ms.take(n as int) =~= ms);
        }
    }
    h.finish()
}

// ---- the rule ----

/// The entry is still remembered.
pub open spec fn remembered(e: EntryView, now: u64) -> bool {
    now < e.last || now - e.last < SESSION_TTL
}

/// The entries that are still remembered.
pub open spec fn live(es: Seq<EntryView>, now: u64) -> Seq<EntryView>
    decreases es.len(),
{
    if es.len() == 0 {
        es
    } else {
        let d = live(es.drop_last(), now);
        if remembered(es.last(), now) {
            d.push(es.last())
        } else {
            d
        }
    }
}

/// The entries of other sessions.
pub open spec fn others(es: Seq<EntryView>, session: Seq<char>) -> Seq<EntryView>
    decreases es.len(),
{
    if es.len() == 0 {
        es
    } else {
        let d = others(es.drop_last(), session);
        if es.last().session != session {
            d.push(es.last())
        } else {
            d
        }
    }
}

/// `x` put into the ordered `v`, behind everything that is not older.
pub open spec fn placed(v: Seq<EntryView>, x: EntryView) -> Seq<EntryView>
    decreases v.len(),
{
    if v.len() > 0 && v.last().last < x.last {
        placed(v.drop_last(), x).push(v.last())
    } else {
        v.push(x)
    }
}

/// The entries, newest first; those of one time in their old order.
pub open spec fn newest_first(v: Seq<EntryView>) -> Seq<EntryView>
    decreases v.len(),
{
    if v.len() == 0 {
        v
    } else {
        placed(newest_first(v.drop_last()), v.last())
    }
}

/// The request continues this entry: the entry's messages are a prefix of the request's.
pub open spec fn continues(e: EntryView, msgs: Seq<Seq<char>>) -> bool {
    e.msgs.is_prefix_of(msgs)
}

/// The first of the first `n` entries that the request continues; `n` where there is none.
pub open spec fn first_match(es: Seq<EntryView>, msgs: Seq<Seq<char>>, n: int) -> int
    decreases n,
{
    if n <= 0 {
        0
    } else {
        let i = first_match(es, msgs, n - 1);
        if i < n - 1 {
            i
        } else if continues(es[n - 1], msgs) {
            n - 1
        } else {
            n
        }
    }
}

/// The first oldest of the first `n` entries.
pub open spec fn oldest(es: Seq<EntryView>, n: int) -> int
    decreases n,
{
    if n <= 1 {
        0
    } else {
        let i = oldest(es, n - 1);
        if es[n - 1].last < es[i].last {
            n - 1
        } else {
            i
        }
    }
}

/// Without entry `i`: the last one takes its place.
pub open spec fn without(es: Seq<EntryView>, i: int) -> Seq<EntryView> {
    Seq::new(
        (es.len() - 1) as nat,
        |k: int|
            if k == i {
                es.last()
            } else {
                es[k]
            },
    )
}

/// The oldest entries make room.
pub open spec fn evicted(es: Seq<EntryView>) -> Seq<EntryView>
    decreases es.len(),
{
    if es.len() <= SESSION_CAP {
        es
    } else {
        evicted(without(es, oldest(es, es.len() as int)))
    }
}

/// The entry that a request leaves.
pub open spec fn entry_of(msgs: Seq<Seq<char>>, session: Seq<char>, now: u64) -> EntryView {
    EntryView { msgs, session, last: now }
}

/// Entries that are compared.
pub open spec fn scanned(es: Seq<EntryView>) -> int {
    if es.len() <= SESSION_SCAN {
        es.len() as int
    } else {
        SESSION_SCAN as int
    }
}

/// The registry after a request, and the request's session. `fresh` is the id of a new session.
pub open spec fn resolved(
    es: Seq<EntryView>,
    now: u64,
    explicit: Option<Seq<char>>,
    msgs: Seq<Seq<char>>,
    fresh: Seq<char>,
) -> (Seq<EntryView>, Seq<char>) {
    let l = live(es, now);
    match explicit {
        Some(x) => (evicted(others(l, x).push(entry_of(msgs, x, now))), x),
        None => {
            let v = newest_first(l);
            let i = first_match(v, msgs, scanned(v));
            let s = if i < scanned(v) {
                v[i].session
            } else {
                fresh
            };
            (evicted(others(v, s).push(entry_of(msgs, s, now))), s)
        },
    }
}

/// The key that a client gave.
pub open spec fn key_view(key: Option<String>) -> Option<Seq<char>> {
    match key {
        Some(x) => Some(x@),
        None => None,
    }
}

/// The registry of sessions.
pub struct SessionRegistry {
    pub entries: Vec<SessionEntry>,
    /// Where its clock started.
    pub base: std::time::Instant,
}

#[verifier::external_type_specification]
#[verifier::external_body]
pub struct ExInstant(std::time::Instant);

/// The present moment.
///
/// Calls `std::time::Instant::now`. Nothing is promised of it.
#[verifier::external_body]
fn instant_now() -> (i: std::time::Instant) {
    std::time::Instant::now()
}

/// Nanoseconds since a moment.
///
/// Calls `std::time::Instant::elapsed`. Nothing is promised of the number.
#[verifier::external_body]
fn nanos_since(base: &std::time::Instant) -> (n: u64) {
    base.elapsed().as_nanos() as u64
}

/// A lower-case hexadecimal digit.
pub open spec fn is_hex(c: char) -> bool {
    ('0' <= c && c <= '9') || ('a' <= c && c <= 'f')
}

/// A new random id in hexadecimal.
///
/// Calls `uuid::Uuid::new_v4` and prints it in its simple form: thirty-two lower-case hexadecimal digits. Which ones
/// is left to chance.
#[verifier::external_body]
fn random_id() -> (s: String)
    ensures
        s@.len() == 32,
        forall|i: int| 0 <= i < 32 ==> is_hex(#[trigger] s@[i]),
{
    uuid::Uuid::new_v4().simple().to_string()
}

/// The id of a new session.
pub open spec fn is_session_id(s: Seq<char>) -> bool {
    exists|id: Seq<char>|
        id.len() == 12 && (forall|i: int| 0 <= i < 12 ==> is_hex(#[trigger] id[i])) && s == (
        #[trigger] ("sess-"@ + id))
}

/// The session id that a random id gives.
pub fn session_id(id: &str) -> (s: String)
    requires
        id@.len() >= 12,
    ensures
        s@ == "sess-"@ + id@.take(12),
{
    let c: Vec<char> = chars_of(id);
    let short: Vec<char> = crate::seqs::prefix(c.as_slice(), 12);
    let mut s: String = "sess-".to_owned();
    append(&mut s, string_of(short.as_slice()).as_str());
    s
}

fn keep_live(es: &mut Vec<SessionEntry>, now: u64)
    requires
        all_wf(old(es)@),
    ensures
        all_wf(final(es)@),
        entry_views(final(es)@) == live(entry_views(old(es)@), now),
{
    let ghost all = entry_views(es@);
    let mut from: Vec<SessionEntry> = Vec::new();
    core::mem::swap(es, &mut from);
    let ghost src = from@;
    proof {
        assert(entry_views(es@) =~= live(all.take(0), now));
    }
    let ghost mut i: int = 0;
    while from.len() > 0
        invariant
            0 <= i <= src.len(),
            from@ == src.skip(i),
            all == entry_views(src),
            all_wf(src),
            all_wf(es@),
            entry_views(es@) == live(all.take(i), now),
        decreases from@.len(),
    {
        let e: SessionEntry = from.remove(0);
        let ghost t = all.take(i + 1);
        proof {
            assert(t.drop_last() =~= all.take(i));
            assert(e == src[i]);
            assert(t.last() == e@);
            assert(src.skip(i).remove(0) =~= src.skip(i + 1));
        }
        let ghost had = es@;
        if now < e.last || now - e.last < SESSION_TTL {
            es.push(e);
            proof {
                assert(entry_views(es@) =~= entry_views(had).push(e@));
            }
        }
        proof {
            i = i + 1;
        }
    }
    proof {
        assert(all.take(all.len() as int) =~= all);
    }
}

fn keep_others(es: &mut Vec<SessionEntry>, session: &String)
    requires
        all_wf(old(es)@),
    ensures
        all_wf(final(es)@),
        entry_views(final(es)@) == others(entry_views(old(es)@), session@),
{
    let ghost all = entry_views(es@);
    let mut from: Vec<SessionEntry> = Vec::new();
    core::mem::swap(es, &mut from);
    let ghost src = from@;
    proof {
        assert(entry_views(es@) =~= others(all.take(0), session@));
    }
    let ghost mut i: int = 0;
    while from.len() > 0
        invariant
            0 <= i <= src.len(),
            from@ == src.skip(i),
            all == entry_views(src),
            all_wf(src),
            all_wf(es@),
            entry_views(es@) == others(all.take(i), session@),
        decreases from@.len(),
    {
        let e: SessionEntry = from.remove(0);
        let ghost t = all.take(i + 1);
        proof {
            assert(t.drop_last() =~= all.take(i));
            assert(e == src[i]);
            assert(t.last() == e@);
            assert(src.skip(i).remove(0) =~= src.skip(i + 1));
        }
        let ghost had = es@;
        if e.session != *session {
            es.push(e);
            proof {
                assert(entry_views(es@) =~= entry_views(had).push(e@));
            }
        }
        proof {
            i = i + 1;
        }
    }
    proof {
        assert(all.take(all.len() as int) =~= all);
    }
}

fn copy_texts(v: &[String]) -> (r: Vec<String>)
    ensures
        texts(r@) == texts(v@),
{
    let mut r: Vec<String> = Vec::new();
    let mut i: usize = 0;
    while i < v.len()
        invariant
            i <= v@.len(),
            texts(r@) == texts(v@).take(i as int),
        decreases v@.len() - i,
    {
        let t: String = v[i].clone();
        let ghost had = r@;
        r.push(t);
        i = i + 1;
        proof {
            assert(texts(r@) =~= texts(had).push(t@));
            assert(texts(r@) =~= texts(v@).take(i as int));
        }
    }
    proof {
        assert(texts(v@).take(v@.len() as int) =~= texts(v@));
    }
    r
}

/// Whether the first messages of `v` are those of `p`.
fn begins_with(v: &[String], p: &Vec<String>) -> (b: bool)
    ensures
        b == texts(p@).is_prefix_of(texts(v@)),
{
    if p.len() > v.len() {
        return false;
    }
    let ghost (a, c) = (texts(p@), texts(v@));
    let mut i: usize = 0;
    while i < p.len()
        invariant
            i <= p@.len() <= v@.len(),
            a == texts(p@),
            c == texts(v@),
            forall|k: int| 0 <= k < i ==> a[k] == c[k],
        decreases p@.len() - i,
    {
        if p[i] != v[i] {
            proof {
                assert(a[i as int] != c[i as int]);
                assert(c.subrange(0, a.len() as int)[i as int] == c[i as int]);
            }
            return false;
        }
        proof {
            assert(a[i as int] == c[i as int]);
        }
        i = i + 1;
    }
    proof {
        assert(a =~= c.subrange(0, a.len() as int));
    }
    true
}

proof fn lemma_placed(v: Seq<EntryView>, x: EntryView, j: int)
    requires
        0 <= j <= v.len(),
        forall|k: int| j <= k < v.len() ==> (#[trigger] v[k]).last < x.last,
        j > 0 ==> !(v[j - 1].last < x.last),
    ensures
        placed(v, x) == v.insert(j, x),
    decreases v.len(),
{
    if j == v.len() {
        assert(v.insert(j, x) =~= v.push(x));
    } else {
        assert(v[v.len() - 1].last < x.last);
        let d = v.drop_last();
        assert forall|k: int| j <= k < d.len() implies (#[trigger] d[k]).last < x.last by {
            assert(d[k] == v[k]);
        }
        lemma_placed(d, x, j);
        assert(v.insert(j, x) =~= d.insert(j, x).push(v.last()));
    }
}

fn sort_newest_first(es: &mut Vec<SessionEntry>)
    requires
        all_wf(old(es)@),
    ensures
        all_wf(final(es)@),
        entry_views(final(es)@) == newest_first(entry_views(old(es)@)),
{
    let ghost all = entry_views(es@);
    let mut from: Vec<SessionEntry> = Vec::new();
    core::mem::swap(es, &mut from);
    let ghost src = from@;
    proof {
        assert(entry_views(es@) =~= newest_first(all.take(0)));
    }
    let ghost mut i: int = 0;
    while from.len() > 0
        invariant
            0 <= i <= src.len(),
            from@ == src.skip(i),
            all == entry_views(src),
            all_wf(src),
            all_wf(es@),
            entry_views(es@) == newest_first(all.take(i)),
        decreases from@.len(),
    {
        let e: SessionEntry = from.remove(0);
        let ghost t = all.take(i + 1);
        proof {
            assert(t.drop_last() =~= all.take(i));
            assert(e == src[i]);
            assert(t.last() == e@);
            assert(src.skip(i).remove(0) =~= src.skip(i + 1));
        }
        let ghost had = entry_views(es@);
        let mut j: usize = es.len();
        while j > 0 && es[j - 1].last < e.last
            invariant
                j <= es@.len(),
                had == entry_views(es@),
                forall|k: int| j <= k < had.len() ==> (#[trigger] had[k]).last < e.last,
            decreases j,
        {
            proof {
                assert(had[j - 1] == es@[j - 1]@);
            }
            j = j - 1;
        }
        proof {
            if j > 0 {
                assert(had[j - 1] == es@[j - 1]@);
            }
            lemma_placed(had, e@, j as int);
        }
        es.insert(j, e);
        proof {
            assert(entry_views(es@) =~= had.insert(j as int, e@));
        }
        proof {
            i = i + 1;
        }
    }
    proof {
        assert(all.take(all.len() as int) =~= all);
    }
}

fn find_match(es: &Vec<SessionEntry>, per_msg: &[String], n: usize) -> (i: usize)
    requires
        n <= es@.len(),
        all_wf(es@),
    ensures
        i == first_match(entry_views(es@), texts(per_msg@), n as int),
        i <= n,
        i < n ==> continues(entry_views(es@)[i as int], texts(per_msg@)),
{
    let ghost v = entry_views(es@);
    let ghost ms = texts(per_msg@);
    let mut i: usize = 0;
    while i < n
        invariant
            i <= n <= es@.len(),
            all_wf(es@),
            v == entry_views(es@),
            ms == texts(per_msg@),
            first_match(v, ms, i as int) == i,
        decreases n - i,
    {
        let e: &SessionEntry = &es[i];
        proof {
            assert(v[i as int] == e@);
        }
        proof {
            assert(e.wf());
            assert(ms.take(e.msgs@.len() as int) == ms.subrange(0, e.msgs@.len() as int));
        }
        if e.msgs.len() <= per_msg.len() && hash_prefix(per_msg, e.msgs.len()) == e.fp && begins_with(
            per_msg,
            &e.msgs,
        ) {
            proof {
                lemma_match_stays(v, ms, i + 1, n as int);
            }
            return i;
        }
        i = i + 1;
    }
    i
}

proof fn lemma_match_stays(v: Seq<EntryView>, ms: Seq<Seq<char>>, k: int, n: int)
    requires
        0 <= k <= n,
        first_match(v, ms, k) < k,
    ensures
        first_match(v, ms, n) == first_match(v, ms, k),
    decreases n,
{
    if k < n {
        lemma_match_stays(v, ms, k, n - 1);
    }
}

fn evict(es: &mut Vec<SessionEntry>)
    requires
        all_wf(old(es)@),
    ensures
        all_wf(final(es)@),
        entry_views(final(es)@) == evicted(entry_views(old(es)@)),
{
    while es.len() > SESSION_CAP
        invariant
            all_wf(es@),
            evicted(entry_views(es@)) == evicted(entry_views(old(es)@)),
        decreases es@.len(),
    {
        let ghost v = entry_views(es@);
        let mut idx: usize = 0;
        let mut k: usize = 1;
        while k < es.len()
            invariant
                1 <= k <= es@.len(),
                all_wf(es@),
                v == entry_views(es@),
                idx < k,
                idx == oldest(v, k as int),
            decreases es@.len() - k,
        {
            proof {
                assert(v[k as int] == es@[k as int]@);
                assert(v[idx as int] == es@[idx as int]@);
            }
            if es[k].last < es[idx].last {
                idx = k;
            }
            k = k + 1;
        }
        let ghost before = es@;
        let n: usize = es.len();
        match es.pop() {
            Some(last) => {
                if idx < n - 1 {
                    es.set(idx, last);
                }
            },
            None => {},
        }
        proof {
            assert(entry_views(es@) =~= without(v, idx as int));
        }
    }
}

impl SessionRegistry {
    /// Every fingerprint is that of its messages.
    pub open spec fn wf(&self) -> bool {
        all_wf(self.entries@)
    }

    /// An empty registry.
    pub fn new() -> (r: SessionRegistry)
        ensures
            r.wf(),
            entry_views(r.entries@) == Seq::<EntryView>::empty(),
    {
        let r: SessionRegistry = SessionRegistry { entries: Vec::new(), base: instant_now() };
        proof {
            assert(entry_views(r.entries@) =~= Seq::<EntryView>::empty());
        }
        r
    }

    /// The session of a request at a given time, `fresh` if it is a new one.
    pub fn resolve_at(
        &mut self,
        now: u64,
        explicit: Option<String>,
        per_msg: &[String],
        fresh: &str,
    ) -> (s: String)
        requires
            old(self).wf(),
        ensures
            final(self).wf(),
            ({
                let r = resolved(
                    entry_views(old(self).entries@),
                    now,
                    key_view(explicit),
                    texts(per_msg@),
                    fresh@,
                );
                entry_views(final(self).entries@) == r.0 && s@ == r.1
            }),
            final(self).base == old(self).base,
    {
        keep_live(&mut self.entries, now);
        let s: String = match explicit {
            Some(x) => x,
            None => {
                sort_newest_first(&mut self.entries);
                let n: usize = if self.entries.len() <= SESSION_SCAN {
                    self.entries.len()
                } else {
                    SESSION_SCAN
                };
                let i: usize = find_match(&self.entries, per_msg, n);
                if i < n {
                    proof {
                        assert(entry_views(self.entries@)[i as int] == self.entries@[i as int]@);
                    }
                    self.entries[i].session.clone()
                } else {
                    fresh.to_owned()
                }
            },
        };
        keep_others(&mut self.entries, &s);
        let ghost had = self.entries@;
        let e: SessionEntry = SessionEntry {
            msgs: copy_texts(per_msg),
            fp: msg_hash(per_msg),
            session: s.clone(),
            last: now,
        };
        self.entries.push(e);
        proof {
            assert(entry_views(self.entries@) =~= entry_views(had).push(e@));
        }
        evict(&mut self.entries);
        s
    }

    /// The session of a request. A key that the client gives wins; else the messages decide, and a
    /// request that continues nothing starts a new session.
    pub fn resolve(&mut self, explicit: Option<String>, per_msg: &[String]) -> (s: String)
        requires
            old(self).wf(),
        ensures
            final(self).wf(),
            final(self).base == old(self).base,
            exists|now: u64, fresh: Seq<char>|
                is_session_id(fresh) && (entry_views(final(self).entries@), s@) == #[trigger] resolved(
                    entry_views(old(self).entries@),
                    now,
                    key_view(explicit),
                    texts(per_msg@),
                    fresh,
                ),
    {
        let now: u64 = nanos_since(&self.base);
        let id: String = random_id();
        let fresh: String = session_id(id.as_str());
        proof {
            let h = id@.take(12);
            assert(h.len() == 12 && (forall|i: int| 0 <= i < 12 ==> is_hex(#[trigger] h[i])) && fresh@
                == "sess-"@ + h);
        }
        self.resolve_at(now, explicit, per_msg, fresh.as_str())
    }
}

// ---- what holds of the rule ----

/// A key that the client gives is the session, whatever the registry holds.
pub proof fn law_explicit_key_wins(
    es: Seq<EntryView>,
    now: u64,
    key: Seq<char>,
    msgs: Seq<Seq<char>>,
    fresh: Seq<char>,
)
    ensures
        resolved(es, now, Some(key), msgs, fresh).1 == key,
{
}

/// The registry stays within its bound.
pub proof fn law_registry_is_bounded(
    es: Seq<EntryView>,
    now: u64,
    explicit: Option<Seq<char>>,
    msgs: Seq<Seq<char>>,
    fresh: Seq<char>,
)
    ensures
        resolved(es, now, explicit, msgs, fresh).0.len() <= SESSION_CAP,
{
    match explicit {
        Some(x) => {
            lemma_evicted_len(others(live(es, now), x).push(entry_of(msgs, x, now)));
        },
        None => {
            let v = newest_first(live(es, now));
            let s = resolved(es, now, explicit, msgs, fresh).1;
            lemma_evicted_len(others(v, s).push(entry_of(msgs, s, now)));
        },
    }
}

proof fn lemma_match_range(v: Seq<EntryView>, ms: Seq<Seq<char>>, n: int)
    requires
        n >= 0,
    ensures
        0 <= first_match(v, ms, n) <= n,
        first_match(v, ms, n) < n ==> continues(v[first_match(v, ms, n)], ms),
        forall|k: int| 0 <= k < first_match(v, ms, n) ==> !continues(#[trigger] v[k], ms),
    decreases n,
{
    if n > 0 {
        lemma_match_range(v, ms, n - 1);
    }
}

proof fn lemma_live_len(es: Seq<EntryView>, now: u64)
    ensures
        live(es, now).len() <= es.len(),
    decreases es.len(),
{
    if es.len() > 0 {
        lemma_live_len(es.drop_last(), now);
    }
}

proof fn lemma_placed_len(v: Seq<EntryView>, x: EntryView)
    ensures
        placed(v, x).len() == v.len() + 1,
    decreases v.len(),
{
    if v.len() > 0 && v.last().last < x.last {
        lemma_placed_len(v.drop_last(), x);
    }
}

proof fn lemma_sorted_len(v: Seq<EntryView>)
    ensures
        newest_first(v).len() == v.len(),
    decreases v.len(),
{
    if v.len() > 0 {
        lemma_sorted_len(v.drop_last());
        lemma_placed_len(newest_first(v.drop_last()), v.last());
    }
}

proof fn lemma_evicted_len(es: Seq<EntryView>)
    ensures
        evicted(es).len() <= SESSION_CAP,
    decreases es.len(),
{
    if es.len() > SESSION_CAP {
        lemma_evicted_len(without(es, oldest(es, es.len() as int)));
    }
}

/// Every entry has the property.
pub open spec fn every(es: Seq<EntryView>, p: spec_fn(EntryView) -> bool) -> bool {
    forall|k: int| 0 <= k < es.len() ==> p(#[trigger] es[k])
}

/// Some entry was used at that time.
pub open spec fn used_at(es: Seq<EntryView>, now: u64) -> bool {
    exists|k: int| 0 <= k < es.len() && (#[trigger] es[k]).last == now
}

proof fn lemma_every_live(es: Seq<EntryView>, now: u64, p: spec_fn(EntryView) -> bool)
    requires
        every(es, p),
    ensures
        every(live(es, now), p),
    decreases es.len(),
{
    if es.len() > 0 {
        let d = es.drop_last();
        assert forall|k: int| 0 <= k < d.len() implies p(#[trigger] d[k]) by {
            assert(d[k] == es[k]);
        }
        lemma_every_live(d, now, p);
        assert(p(es[es.len() - 1]));
    }
}

proof fn lemma_every_others(es: Seq<EntryView>, x: Seq<char>, p: spec_fn(EntryView) -> bool)
    requires
        every(es, p),
    ensures
        every(others(es, x), p),
    decreases es.len(),
{
    if es.len() > 0 {
        let d = es.drop_last();
        assert forall|k: int| 0 <= k < d.len() implies p(#[trigger] d[k]) by {
            assert(d[k] == es[k]);
        }
        lemma_every_others(d, x, p);
        assert(p(es[es.len() - 1]));
    }
}

proof fn lemma_every_placed(v: Seq<EntryView>, x: EntryView, p: spec_fn(EntryView) -> bool)
    requires
        every(v, p),
        p(x),
    ensures
        every(placed(v, x), p),
        placed(v, x).len() == v.len() + 1,
    decreases v.len(),
{
    if v.len() > 0 && v.last().last < x.last {
        let d = v.drop_last();
        assert forall|k: int| 0 <= k < d.len() implies p(#[trigger] d[k]) by {
            assert(d[k] == v[k]);
        }
        lemma_every_placed(d, x, p);
        assert(p(v[v.len() - 1]));
    }
}

/// The entries go from the newest to the oldest.
pub open spec fn descending(v: Seq<EntryView>) -> bool {
    forall|i: int, j: int| 0 <= i < j < v.len() ==> (#[trigger] v[i]).last >= (#[trigger] v[j]).last
}

proof fn lemma_placed_descends(v: Seq<EntryView>, x: EntryView)
    requires
        descending(v),
    ensures
        descending(placed(v, x)),
        placed(v, x).len() == v.len() + 1,
        placed(v, x)[0].last >= x.last,
        v.len() > 0 ==> placed(v, x)[0].last >= v[0].last,
    decreases v.len(),
{
    if v.len() > 0 && v.last().last < x.last {
        let d = v.drop_last();
        let low = v.last().last;
        lemma_placed_descends(d, x);
        let p = |e: EntryView| e.last >= low;
        assert forall|k: int| 0 <= k < d.len() implies p(#[trigger] d[k]) by {
            assert(v[k].last >= v[v.len() - 1].last);
        }
        lemma_every_placed(d, x, p);
        let w = placed(d, x);
        assert forall|i: int, j: int| 0 <= i < j < w.push(v.last()).len() implies (#[trigger] w.push(
            v.last(),
        )[i]).last >= (#[trigger] w.push(v.last())[j]).last by {
            if j == w.len() {
                assert(p(w[i]));
            } else {
                assert(w[i].last >= w[j].last);
            }
        }
    } else if v.len() > 0 {
        let w = v.push(x);
        assert forall|i: int, j: int| 0 <= i < j < w.len() implies (#[trigger] w[i]).last >= (
        #[trigger] w[j]).last by {
            if j == v.len() {
                if i < v.len() - 1 {
                    assert(v[i].last >= v[v.len() - 1].last);
                }
            } else {
                assert(v[i].last >= v[j].last);
            }
        }
    }
}

/// The ordered entries keep their properties, and the first of them is the newest.
proof fn lemma_front(v: Seq<EntryView>, p: spec_fn(EntryView) -> bool, top: u64)
    requires
        every(v, p),
        forall|e: EntryView| #[trigger] p(e) ==> e.last <= top,
    ensures
        every(newest_first(v), p),
        descending(newest_first(v)),
        newest_first(v).len() == v.len(),
        v.len() > 0 && used_at(v, top) ==> newest_first(v)[0].last == top,
    decreases v.len(),
{
    if v.len() > 0 {
        let d = v.drop_last();
        let x = v.last();
        assert(p(v[v.len() - 1]));
        assert forall|k: int| 0 <= k < d.len() implies p(#[trigger] d[k]) by {
            assert(d[k] == v[k]);
        }
        lemma_front(d, p, top);
        let w = newest_first(d);
        lemma_every_placed(w, x, p);
        lemma_placed_descends(w, x);
        assert(p(newest_first(v)[0]));
        if used_at(v, top) {
            let k = choose|k: int| 0 <= k < v.len() && (#[trigger] v[k]).last == top;
            if k < d.len() {
                assert(d[k].last == top);
                assert(used_at(d, top));
            }
        }
    }
}

proof fn lemma_oldest(es: Seq<EntryView>, n: int)
    requires
        1 <= n <= es.len(),
    ensures
        0 <= oldest(es, n) < n,
        forall|k: int| 0 <= k < n ==> es[oldest(es, n)].last <= (#[trigger] es[k]).last,
    decreases n,
{
    if n > 1 {
        lemma_oldest(es, n - 1);
    }
}

/// Eviction leaves the newest entries in place.
proof fn lemma_evicted(es: Seq<EntryView>, p: spec_fn(EntryView) -> bool, top: u64)
    requires
        every(es, p),
        used_at(es, top),
        forall|e: EntryView| #[trigger] p(e) ==> e.last <= top,
    ensures
        every(evicted(es), p),
        used_at(evicted(es), top),
    decreases es.len(),
{
    if es.len() > SESSION_CAP {
        let n = es.len() as int;
        let o = oldest(es, n);
        lemma_oldest(es, n);
        let w = without(es, o);
        assert forall|k: int| 0 <= k < w.len() implies p(#[trigger] w[k]) by {
            if k == o {
                assert(p(es[n - 1]));
            } else {
                assert(p(es[k]));
            }
        }
        let j = choose|j: int| 0 <= j < es.len() && (#[trigger] es[j]).last == top;
        if o == j {
            assert(p(es[0]) && p(es[1]));
            assert(es[0].last == top && es[1].last == top);
            if o == 0 {
                assert(w[1].last == top);
            } else {
                assert(w[0].last == top);
            }
        } else if j == n - 1 {
            assert(w[o].last == top);
        } else {
            assert(w[j].last == top);
        }
        lemma_evicted(w, p, top);
    }
}

proof fn lemma_live_keeps(es: Seq<EntryView>, at: u64, later: u64)
    requires
        used_at(es, at),
        at <= later,
        later - at < SESSION_TTL,
    ensures
        used_at(live(es, later), at),
        live(es, later).len() > 0,
    decreases es.len(),
{
    let k = choose|k: int| 0 <= k < es.len() && (#[trigger] es[k]).last == at;
    let d = es.drop_last();
    if k < d.len() {
        assert(d[k].last == at);
        lemma_live_keeps(d, at, later);
        let l = live(d, later);
        let j = choose|j: int| 0 <= j < l.len() && (#[trigger] l[j]).last == at;
        assert(live(es, later)[j].last == at);
    } else {
        let l = live(es, later);
        assert(l[l.len() - 1].last == at);
    }
}

/// A follow-up turn lands in the session of the turn before it: where the messages of a request are a
/// prefix of the next one's, and the next one comes in time, both have the same session, whether the
/// client gave a key, the first continued a session, or it started one. No earlier request may have come
/// at the very same instant.
pub proof fn law_follow_up_continues(
    es: Seq<EntryView>,
    now: u64,
    explicit: Option<Seq<char>>,
    msgs: Seq<Seq<char>>,
    fresh: Seq<char>,
    later: u64,
    more: Seq<Seq<char>>,
    fresh2: Seq<char>,
)
    requires
        forall|k: int| 0 <= k < es.len() ==> (#[trigger] es[k]).last < now,
        now <= later,
        later - now < SESSION_TTL,
        msgs.len() <= more.len(),
        more.take(msgs.len() as int) == msgs,
    ensures
        resolved(
            resolved(es, now, explicit, msgs, fresh).0,
            later,
            None,
            more,
            fresh2,
        ).1 == resolved(es, now, explicit, msgs, fresh).1,
{
    let (r, s) = resolved(es, now, explicit, msgs, fresh);
    let p = |e: EntryView| e.last <= now && (e.last == now ==> e.session == s && continues(e, more));
    let l = live(es, now);
    let mine = entry_of(msgs, s, now);
    assert(p(mine));
    assert(every(es, p));
    lemma_every_live(es, now, p);
    assert(every(r, p) && used_at(r, now)) by {
        match explicit {
            Some(x) => {
                lemma_every_others(l, x, p);
                let u = others(l, x).push(mine);
                assert(u[u.len() - 1].last == now);
                lemma_evicted(u, p, now);
            },
            None => {
                lemma_front(l, p, now);
                let v = newest_first(l);
                let i = first_match(v, msgs, scanned(v));
                lemma_match_range(v, msgs, scanned(v));
                lemma_every_others(v, s, p);
                let u = others(v, s).push(mine);
                assert(u[u.len() - 1].last == now);
                lemma_evicted(u, p, now);
            },
        }
    }
    lemma_every_live(r, later, p);
    lemma_live_keeps(r, now, later);
    let l2 = live(r, later);
    lemma_front(l2, p, now);
    let v2 = newest_first(l2);
    assert(v2[0].last == now);
    assert(p(v2[0]));
    assert(continues(v2[0], more));
    lemma_match_range(v2, more, scanned(v2));
    let j = first_match(v2, more, scanned(v2));
    if j > 0 {
        assert(!continues(v2[0], more));
    }
}

// ---- over many requests ----

/// One request: when it came, the key that the client gave, its messages, and the id that it gets if it
/// starts a session.
pub struct Turn {
    pub now: u64,
    pub key: Option<Seq<char>>,
    pub msgs: Seq<Seq<char>>,
    pub fresh: Seq<char>,
}

/// The registry and the session that a request leaves.
pub open spec fn turned(es: Seq<EntryView>, t: Turn) -> (Seq<EntryView>, Seq<char>) {
    resolved(es, t.now, t.key, t.msgs, t.fresh)
}

/// The registry after a run of requests.
pub open spec fn after(es: Seq<EntryView>, turns: Seq<Turn>) -> Seq<EntryView>
    decreases turns.len(),
{
    if turns.len() == 0 {
        es
    } else {
        turned(after(es, turns.drop_last()), turns.last()).0
    }
}

/// The session of request `i` of a run.
pub open spec fn session_at(es: Seq<EntryView>, turns: Seq<Turn>, i: int) -> Seq<char> {
    turned(after(es, turns.take(i)), turns[i]).1
}

/// Request `i` is the last of its session in the run.
pub open spec fn is_last_of(es: Seq<EntryView>, turns: Seq<Turn>, i: int) -> bool {
    forall|j: int|
        i < j < turns.len() ==> #[trigger] session_at(es, turns, j) != session_at(es, turns, i)
}

/// The entry that request `i` of a run leaves.
pub open spec fn entry_at(es: Seq<EntryView>, turns: Seq<Turn>, i: int) -> EntryView {
    entry_of(turns[i].msgs, session_at(es, turns, i), turns[i].now)
}

proof fn lemma_live_holds(es: Seq<EntryView>, now: u64, e: EntryView)
    ensures
        live(es, now).contains(e) <==> es.contains(e) && remembered(e, now),
    decreases es.len(),
{
    if es.len() > 0 {
        lemma_live_holds(es.drop_last(), now, e);
        lemma_push_holds(es.drop_last(), es.last(), e);
        lemma_push_holds(live(es.drop_last(), now), es.last(), e);
        assert(es.drop_last().push(es.last()) =~= es);
    }
}

proof fn lemma_push_holds(v: Seq<EntryView>, x: EntryView, e: EntryView)
    ensures
        v.push(x).contains(e) <==> v.contains(e) || x == e,
{
    if v.contains(e) {
        let k = choose|k: int| 0 <= k < v.len() && v[k] == e;
        assert(v.push(x)[k] == e);
    }
    if x == e {
        assert(v.push(x)[v.len() as int] == e);
    }
    if v.push(x).contains(e) {
        let k = choose|k: int| 0 <= k < v.push(x).len() && v.push(x)[k] == e;
        if k < v.len() {
            assert(v[k] == e);
        }
    }
}

proof fn lemma_others_holds(es: Seq<EntryView>, s: Seq<char>, e: EntryView)
    ensures
        others(es, s).contains(e) <==> es.contains(e) && e.session != s,
    decreases es.len(),
{
    if es.len() > 0 {
        lemma_others_holds(es.drop_last(), s, e);
        lemma_push_holds(es.drop_last(), es.last(), e);
        lemma_push_holds(others(es.drop_last(), s), es.last(), e);
        assert(es.drop_last().push(es.last()) =~= es);
    }
}

proof fn lemma_placed_holds(v: Seq<EntryView>, x: EntryView, e: EntryView)
    ensures
        placed(v, x).contains(e) <==> v.contains(e) || x == e,
    decreases v.len(),
{
    if v.len() > 0 && v.last().last < x.last {
        let d = v.drop_last();
        lemma_placed_holds(d, x, e);
        lemma_push_holds(d, v.last(), e);
        lemma_push_holds(placed(d, x), v.last(), e);
        assert(d.push(v.last()) =~= v);
    } else {
        lemma_push_holds(v, x, e);
    }
}

proof fn lemma_sorted_holds(v: Seq<EntryView>, e: EntryView)
    ensures
        newest_first(v).contains(e) <==> v.contains(e),
    decreases v.len(),
{
    if v.len() > 0 {
        let d = v.drop_last();
        lemma_sorted_holds(d, e);
        lemma_placed_holds(newest_first(d), v.last(), e);
        lemma_push_holds(d, v.last(), e);
        assert(d.push(v.last()) =~= v);
    }
}

proof fn lemma_evicted_holds(es: Seq<EntryView>, e: EntryView)
    requires
        evicted(es).contains(e),
    ensures
        es.contains(e),
    decreases es.len(),
{
    if es.len() > SESSION_CAP {
        let n = es.len() as int;
        let o = oldest(es, n);
        lemma_oldest(es, n);
        let w = without(es, o);
        lemma_evicted_holds(w, e);
        let k = choose|k: int| 0 <= k < w.len() && w[k] == e;
        if k == o {
            assert(es[n - 1] == e);
        } else {
            assert(es[k] == e);
        }
    }
}

proof fn lemma_others_len(es: Seq<EntryView>, s: Seq<char>)
    ensures
        others(es, s).len() <= es.len(),
    decreases es.len(),
{
    if es.len() > 0 {
        lemma_others_len(es.drop_last(), s);
    }
}

/// What the registry holds after a request: nothing but what it held and the request's own entry, which
/// stands alone for its session.
proof fn lemma_turn_holds(es: Seq<EntryView>, t: Turn, e: EntryView)
    requires
        turned(es, t).0.contains(e),
    ensures
        e == entry_of(t.msgs, turned(es, t).1, t.now) || es.contains(e),
        e == entry_of(t.msgs, turned(es, t).1, t.now) || e.session != turned(es, t).1,
{
    let l = live(es, t.now);
    let s = turned(es, t).1;
    let mine = entry_of(t.msgs, s, t.now);
    let v = newest_first(l);
    lemma_live_holds(es, t.now, e);
    lemma_sorted_holds(l, e);
    lemma_others_holds(l, s, e);
    lemma_others_holds(v, s, e);
    lemma_match_range(v, t.msgs, scanned(v));
    let u = match t.key {
        Some(x) => others(l, x),
        None => others(v, s),
    };
    lemma_evicted_holds(u.push(mine), e);
    lemma_push_holds(u, mine, e);
}

/// What the registry keeps over a request, as long as it is small: the request's entry, and those of
/// other sessions that are still remembered.
proof fn lemma_turn_keeps(es: Seq<EntryView>, t: Turn, e: EntryView)
    requires
        es.len() <= SESSION_SCAN,
        e == entry_of(t.msgs, turned(es, t).1, t.now) || (es.contains(e) && remembered(e, t.now)
            && e.session != turned(es, t).1),
    ensures
        turned(es, t).0.contains(e),
{
    let l = live(es, t.now);
    let s = turned(es, t).1;
    let mine = entry_of(t.msgs, s, t.now);
    let v = newest_first(l);
    lemma_live_len(es, t.now);
    lemma_sorted_len(l);
    lemma_others_len(l, s);
    lemma_others_len(v, s);
    lemma_live_holds(es, t.now, e);
    lemma_sorted_holds(l, e);
    lemma_others_holds(l, s, e);
    lemma_others_holds(v, s, e);
    lemma_push_holds(others(l, s), mine, e);
    lemma_push_holds(others(v, s), mine, e);
}

/// A session's last entry stays over a run of requests of other sessions.
proof fn lemma_entry_stays(es: Seq<EntryView>, turns: Seq<Turn>, i: int, n: int)
    requires
        0 <= i < n <= turns.len(),
        forall|j: int| 0 <= j <= turns.len() ==> (#[trigger] after(es, turns.take(j))).len()
            <= SESSION_SCAN,
        is_last_of(es, turns, i),
        forall|j: int|
            i < j < turns.len() ==> remembered(entry_at(es, turns, i), (#[trigger] turns[j]).now),
    ensures
        after(es, turns.take(n)).contains(entry_at(es, turns, i)),
    decreases n,
{
    let e = entry_at(es, turns, i);
    let before = after(es, turns.take(n - 1));
    assert(turns.take(n).drop_last() =~= turns.take(n - 1));
    assert(turns.take(n).last() == turns[n - 1]);
    assert(before.len() <= SESSION_SCAN);
    if n - 1 > i {
        lemma_entry_stays(es, turns, i, n - 1);
        assert(session_at(es, turns, n - 1) != session_at(es, turns, i));
        assert(remembered(e, turns[n - 1].now));
    }
    lemma_turn_keeps(before, turns[n - 1], e);
}

/// A request continues a session if the messages of that session's last request are a prefix of its own,
/// whatever requests of other sessions came between, and whether that last request had a key or not. The
/// registry must be small enough for all of it to be compared, the session still be remembered, and no
/// other session's messages be such a prefix too.
pub proof fn law_session_goes_on(
    es: Seq<EntryView>,
    turns: Seq<Turn>,
    i: int,
    later: u64,
    more: Seq<Seq<char>>,
    fresh: Seq<char>,
)
    requires
        0 <= i < turns.len(),
        is_last_of(es, turns, i),
        forall|j: int| 0 <= j <= turns.len() ==> (#[trigger] after(es, turns.take(j))).len()
            <= SESSION_SCAN,
        forall|j: int|
            i < j < turns.len() ==> remembered(entry_at(es, turns, i), (#[trigger] turns[j]).now),
        remembered(entry_at(es, turns, i), later),
        turns[i].msgs.is_prefix_of(more),
        forall|e: EntryView| #[trigger]
            after(es, turns).contains(e) && e.session != session_at(es, turns, i) ==> !continues(
                e,
                more,
            ),
    ensures
        resolved(after(es, turns), later, None, more, fresh).1 == session_at(es, turns, i),
{
    let e = entry_at(es, turns, i);
    let n = turns.len() as int;
    lemma_entry_stays(es, turns, i, n);
    assert(turns.take(n) =~= turns);
    let r = after(es, turns);
    let l = live(r, later);
    let v = newest_first(l);
    lemma_live_len(r, later);
    lemma_sorted_len(l);
    lemma_live_holds(r, later, e);
    lemma_sorted_holds(l, e);
    assert(more.take(turns[i].msgs.len() as int) =~= turns[i].msgs);
    assert(continues(e, more));
    lemma_match_range(v, more, scanned(v));
    let k = choose|k: int| 0 <= k < v.len() && v[k] == e;
    let m = first_match(v, more, scanned(v));
    if m > k {
        assert(!continues(v[k], more));
    }
    assert(v.contains(v[m]));
    lemma_sorted_holds(l, v[m]);
    lemma_live_holds(r, later, v[m]);
}

/// Every entry is that of its session's last request.
proof fn lemma_entries_are_last(turns: Seq<Turn>, e: EntryView)
    requires
        after(Seq::empty(), turns).contains(e),
    ensures
        exists|i: int|
            0 <= i < turns.len() && #[trigger] entry_at(Seq::empty(), turns, i) == e && is_last_of(
                Seq::empty(),
                turns,
                i,
            ),
    decreases turns.len(),
{
    let es = Seq::<EntryView>::empty();
    if turns.len() > 0 {
        let n = turns.len() - 1;
        let d = turns.drop_last();
        assert(turns.take(n) =~= d);
        lemma_turn_holds(after(es, d), turns.last(), e);
        if e == entry_at(es, turns, n) {
            assert(is_last_of(es, turns, n));
        } else {
            lemma_entries_are_last(d, e);
            let i = choose|i: int|
                0 <= i < d.len() && #[trigger] entry_at(es, d, i) == e && is_last_of(es, d, i);
            assert(d.take(i) =~= turns.take(i));
            assert(entry_at(es, turns, i) == e);
            assert(e.session != session_at(es, turns, n));
            assert forall|j: int| i < j < turns.len() implies #[trigger] session_at(es, turns, j)
                != session_at(es, turns, i) by {
                assert(d.take(j) =~= turns.take(j) || j == n);
                if j < n {
                    assert(session_at(es, d, j) == session_at(es, turns, j));
                    assert(session_at(es, d, i) == session_at(es, turns, i));
                }
            }
        }
    }
}

/// An entry of the session is in the registry.
pub open spec fn registered(es: Seq<EntryView>, session: Seq<char>) -> bool {
    exists|k: int| 0 <= k < es.len() && (#[trigger] es[k]).session == session
}

/// A request continues a session only if the messages of that session's last request are a prefix of its
/// own: it gets a new id, or there is such a last request.
pub proof fn law_only_the_last_request_counts(
    turns: Seq<Turn>,
    later: u64,
    more: Seq<Seq<char>>,
    fresh: Seq<char>,
)
    ensures
        ({
            let s = resolved(after(Seq::empty(), turns), later, None, more, fresh).1;
            s == fresh || exists|i: int|
                0 <= i < turns.len() && s == #[trigger] session_at(Seq::empty(), turns, i)
                    && is_last_of(Seq::empty(), turns, i) && turns[i].msgs.is_prefix_of(more)
        }),
{
    let es = Seq::<EntryView>::empty();
    let r = after(es, turns);
    let l = live(r, later);
    let v = newest_first(l);
    lemma_match_range(v, more, scanned(v));
    let m = first_match(v, more, scanned(v));
    if m < scanned(v) {
        let e = v[m];
        assert(v.contains(e));
        lemma_sorted_holds(l, e);
        lemma_live_holds(r, later, e);
        lemma_entries_are_last(turns, e);
        let i = choose|i: int|
            0 <= i < turns.len() && #[trigger] entry_at(es, turns, i) == e && is_last_of(es, turns, i);
        assert(e.session == session_at(es, turns, i));
        assert(turns[i].msgs.is_prefix_of(more));
    }
}

/// A list that goes back behind a session's last request, and on from there in another way, leaves that
/// session, even where it begins with an earlier request of it: it gets that session only if the session's
/// id is drawn again for it.
pub proof fn law_another_history_leaves_the_session(
    turns: Seq<Turn>,
    i: int,
    later: u64,
    more: Seq<Seq<char>>,
    fresh: Seq<char>,
)
    requires
        0 <= i < turns.len(),
        is_last_of(Seq::empty(), turns, i),
        !turns[i].msgs.is_prefix_of(more),
    ensures
        resolved(after(Seq::empty(), turns), later, None, more, fresh).1 == session_at(
            Seq::empty(),
            turns,
            i,
        ) ==> fresh == session_at(Seq::empty(), turns, i),
{
    let es = Seq::<EntryView>::empty();
    let s = session_at(es, turns, i);
    law_only_the_last_request_counts(turns, later, more, fresh);
    if resolved(after(es, turns), later, None, more, fresh).1 == s && fresh != s {
        let j = choose|j: int|
            0 <= j < turns.len() && s == #[trigger] session_at(es, turns, j) && is_last_of(es, turns, j)
                && turns[j].msgs.is_prefix_of(more);
        assert(j >= i) by {
            if j < i {
                assert(session_at(es, turns, i) != session_at(es, turns, j));
            }
        }
        assert(j <= i) by {
            if i < j {
                assert(session_at(es, turns, j) != session_at(es, turns, i));
            }
        }
    }
}

/// A request whose messages have none of the registered lists as a prefix starts a session, and its id is
/// none of the registered ones unless such an id is drawn again.
pub proof fn law_unrelated_request_starts_a_session(
    es: Seq<EntryView>,
    now: u64,
    msgs: Seq<Seq<char>>,
    fresh: Seq<char>,
)
    requires
        forall|e: EntryView| #[trigger] es.contains(e) && remembered(e, now) ==> !continues(e, msgs),
    ensures
        resolved(es, now, None, msgs, fresh).1 == fresh,
        !registered(es, fresh) ==> !registered(es, resolved(es, now, None, msgs, fresh).1),
{
    let l = live(es, now);
    let v = newest_first(l);
    lemma_match_range(v, msgs, scanned(v));
    let m = first_match(v, msgs, scanned(v));
    if m < scanned(v) {
        assert(v.contains(v[m]));
        lemma_sorted_holds(l, v[m]);
        lemma_live_holds(es, now, v[m]);
    }
}

} // verus!
