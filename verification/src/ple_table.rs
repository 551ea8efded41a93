//! The hashed embedding's table on disk: its sidecar, and reading records through a cache.
use std::collections::HashMap;
use vstd::prelude::*;

use crate::json::{
    field_of, fields_view, get_json, get_number, get_text, json_array, json_object, number_field,
    read_array, read_object, text_field, Field, FieldView,
};
use crate::mma::div_up;
use crate::tensors::{PLE_DIM, PLE_REC_BYTES};
use crate::text::{chars_of, equal, is_digit, texts};

verus! {

// ---- the sidecar ----

/// What the sidecar says of the table.
pub struct PleTableMeta {
    /// Name of the table's file, beside the sidecar.
    pub file: String,
    pub dim: usize,
    pub record_bytes: usize,
    pub num_shards: usize,
    pub rows_per_shard: usize,
    pub total_rows: usize,
    /// Reciprocal scale of every shard, as the number is written.
    pub shard_global_scales: Vec<String>,
}

/// What the sidecar says of the table.
pub struct MetaView {
    pub file: Seq<char>,
    pub dim: nat,
    pub record_bytes: nat,
    pub num_shards: nat,
    pub rows_per_shard: nat,
    pub total_rows: nat,
    pub scales: Seq<Seq<char>>,
}

impl View for PleTableMeta {
    type V = MetaView;

    open spec fn view(&self) -> MetaView {
        MetaView {
            file: self.file@,
            dim: self.dim as nat,
            record_bytes: self.record_bytes as nat,
            num_shards: self.num_shards as nat,
            rows_per_shard: self.rows_per_shard as nat,
            total_rows: self.total_rows as nat,
            scales: texts(self.shard_global_scales@),
        }
    }
}

/// Why a sidecar is refused.
pub enum MetaFault {
    /// It is not JSON; the message says where.
    Syntax(String),
    /// It describes another kind of table.
    Format,
    /// The table was not written to its end.
    Incomplete,
    /// A field is missing or is no such number.
    Field,
    /// There is not one scale per shard.
    ScaleCount,
    /// Rows have another shape than the kernels read.
    Geometry,
    /// The table's file has another length than its rows ask for.
    Length,
}

/// Why a sidecar is refused.
pub enum MetaFaultView {
    Syntax(Seq<char>),
    Format,
    Incomplete,
    Field,
    ScaleCount,
    Geometry,
    Length,
}

impl View for MetaFault {
    type V = MetaFaultView;

    open spec fn view(&self) -> MetaFaultView {
        match self {
            MetaFault::Syntax(s) => MetaFaultView::Syntax(s@),
            MetaFault::Format => MetaFaultView::Format,
            MetaFault::Incomplete => MetaFaultView::Incomplete,
            MetaFault::Field => MetaFaultView::Field,
            MetaFault::ScaleCount => MetaFaultView::ScaleCount,
            MetaFault::Geometry => MetaFaultView::Geometry,
            MetaFault::Length => MetaFaultView::Length,
        }
    }
}

/// The JSON text of a number.
pub open spec fn is_number_text(s: Seq<char>) -> bool {
    s.len() > 0 && (is_digit(s[0]) || s[0] == '-')
}

/// The scales of the shards: an array of numbers.
pub open spec fn scales_of(fields: Seq<(Seq<char>, FieldView)>) -> Option<Seq<Seq<char>>> {
    match field_of(fields, "shard_global_scales"@) {
        Some(FieldView::Json(t)) => match json_array(t) {
            Some(v) => if forall|i: int| 0 <= i < v.len() ==> is_number_text(#[trigger] v[i]) {
                Some(v)
            } else {
                None
            },
            None => None,
        },
        _ => None,
    }
}

/// A count that the machine can hold.
pub open spec fn count_field(fields: Seq<(Seq<char>, FieldView)>, key: Seq<char>) -> Option<nat> {
    match number_field(fields, key) {
        Some(n) => if n <= usize::MAX {
            Some(n)
        } else {
            None
        },
        None => None,
    }
}

/// What the fields of a sidecar say.
pub open spec fn meta_of(fields: Seq<(Seq<char>, FieldView)>) -> Result<MetaView, MetaFaultView> {
    if text_field(fields, "format"@) != Some("ple-rows-nvfp4-v1"@) {
        Err(MetaFaultView::Format)
    } else if field_of(fields, "complete"@) != Some(FieldView::Json("true"@)) {
        Err(MetaFaultView::Incomplete)
    } else {
        match (
            scales_of(fields),
            count_field(fields, "dim"@),
            count_field(fields, "record_bytes"@),
            count_field(fields, "num_shards"@),
            count_field(fields, "rows_per_shard"@),
            count_field(fields, "total_rows"@),
        ) {
            (
                Some(scales),
                Some(dim),
                Some(record_bytes),
                Some(num_shards),
                Some(rows_per_shard),
                Some(total_rows),
            ) => if scales.len() != num_shards {
                Err(MetaFaultView::ScaleCount)
            } else if dim != PLE_DIM || record_bytes != PLE_REC_BYTES {
                Err(MetaFaultView::Geometry)
            } else {
                Ok(
                    MetaView {
                        file: match text_field(fields, "file"@) {
                            Some(f) => f,
                            None => "ple_ngram_nvfp4.bin"@,
                        },
                        dim,
                        record_bytes,
                        num_shards,
                        rows_per_shard,
                        total_rows,
                        scales,
                    },
                )
            },
            _ => Err(MetaFaultView::Field),
        }
    }
}

/// What the text of a sidecar says.
pub open spec fn meta_of_text(text: Seq<char>) -> Result<MetaView, MetaFaultView> {
    match json_object(text) {
        Err(e) => Err(MetaFaultView::Syntax(e)),
        Ok(None) => Err(MetaFaultView::Format),
        Ok(Some(fields)) => meta_of(fields),
    }
}

fn number_text(s: &String) -> (b: bool)
    ensures
        b == is_number_text(s@),
{
    let c: Vec<char> = chars_of(s.as_str());
    c.len() > 0 && (crate::text::digit(c[0]) || c[0] == '-')
}

fn get_scales(fields: &[(String, Field)]) -> (r: Option<Vec<String>>)
    ensures
        match r {
            Some(v) => scales_of(fields_view(fields@)) == Some(texts(v@)),
            None => scales_of(fields_view(fields@)) is None,
        },
{
    let t: &String = match get_json(fields, "shard_global_scales") {
        Some(t) => t,
        None => {
            return None;
        },
    };
    let v: Vec<String> = match read_array(t.as_str()) {
        Some(v) => v,
        None => {
            return None;
        },
    };
    let mut i: usize = 0;
    while i < v.len()
        invariant
            i <= v@.len(),
            forall|k: int| 0 <= k < i ==> is_number_text(#[trigger] texts(v@)[k]),
            field_of(fields_view(fields@), "shard_global_scales"@) == Some(FieldView::Json(t@)),
            json_array(t@) == Some(texts(v@)),
        decreases v@.len() - i,
    {
        if !number_text(&v[i]) {
            proof {
                assert(!is_number_text(texts(v@)[i as int]));
            }
            return None;
        }
        i = i + 1;
    }
    Some(v)
}

fn get_count(fields: &[(String, Field)], key: &str) -> (r: Option<usize>)
    ensures
        match r {
            Some(n) => count_field(fields_view(fields@), key@) == Some(n as nat),
            None => count_field(fields_view(fields@), key@) is None,
        },
{
    match get_number(fields, key) {
        Some(n) => if n <= usize::MAX as u64 {
            Some(n as usize)
        } else {
            None
        },
        None => None,
    }
}

impl PleTableMeta {
    /// What the fields of a sidecar say.
    pub fn from_fields(fields: &[(String, Field)]) -> (r: Result<PleTableMeta, MetaFault>)
        ensures
            match r {
                Ok(m) => meta_of(fields_view(fields@)) == Ok::<MetaView, MetaFaultView>(m@),
                Err(e) => meta_of(fields_view(fields@)) == Err::<MetaView, MetaFaultView>(e@),
            },
    {
        let ours: bool = match get_text(fields, "format") {
            Some(f) => equal(f.as_str(), "ple-rows-nvfp4-v1"),
            None => false,
        };
        if !ours {
            return Err(MetaFault::Format);
        }
        let complete: bool = match get_json(fields, "complete") {
            Some(t) => equal(t.as_str(), "true"),
            None => false,
        };
        if !complete {
            return Err(MetaFault::Incomplete);
        }
        match (
            get_scales(fields),
            get_count(fields, "dim"),
            get_count(fields, "record_bytes"),
            get_count(fields, "num_shards"),
            get_count(fields, "rows_per_shard"),
            get_count(fields, "total_rows"),
        ) {
            (
                Some(scales),
                Some(dim),
                Some(record_bytes),
                Some(num_shards),
                Some(rows_per_shard),
                Some(total_rows),
            ) => {
                if scales.len() != num_shards {
                    return Err(MetaFault::ScaleCount);
                }
                if dim != PLE_DIM || record_bytes != PLE_REC_BYTES {
                    return Err(MetaFault::Geometry);
                }
                let file: String = match get_text(fields, "file") {
                    Some(f) => f.clone(),
                    None => "ple_ngram_nvfp4.bin".to_owned(),
                };
                Ok(
                    PleTableMeta {
                        file,
                        dim,
                        record_bytes,
                        num_shards,
                        rows_per_shard,
                        total_rows,
                        shard_global_scales: scales,
                    },
                )
            },
            _ => Err(MetaFault::Field),
        }
    }

    /// What the text of a sidecar says.
    pub fn parse(text: &str) -> (r: Result<PleTableMeta, MetaFault>)
        ensures
            match r {
                Ok(m) => meta_of_text(text@) == Ok::<MetaView, MetaFaultView>(m@),
                Err(e) => meta_of_text(text@) == Err::<MetaView, MetaFaultView>(e@),
            },
    {
        match read_object(text) {
            Err(e) => Err(MetaFault::Syntax(e)),
            Ok(None) => Err(MetaFault::Format),
            Ok(Some(fields)) => PleTableMeta::from_fields(fields.as_slice()),
        }
    }

    /// Holds the length of the table's file against its rows.
    pub fn check_length(&self, len: u64) -> (r: Result<(), MetaFault>)
        ensures
            r is Ok <==> len == self.total_rows * self.record_bytes,
            r matches Err(e) ==> e is Length,
    {
        proof {
            assert(0 <= self.total_rows * self.record_bytes) by (nonlinear_arith);
        }
        match (self.total_rows as u64).checked_mul(self.record_bytes as u64) {
            Some(n) => if n == len {
                Ok(())
            } else {
                Err(MetaFault::Length)
            },
            None => Err(MetaFault::Length),
        }
    }
}

// ---- reading records ----

/// Counters of the reader.
#[derive(Clone, Copy, Debug, PartialEq, Eq, Structural)]
pub struct PleSsdStats {
    pub gathers: u64,
    pub rows: u64,
    pub cache_hits: u64,
    pub read_ns: u64,
}

impl PleSsdStats {
    /// Nothing read yet.
    pub fn new() -> (s: PleSsdStats)
        ensures
            s.gathers == 0,
            s.rows == 0,
            s.cache_hits == 0,
            s.read_ns == 0,
    {
        PleSsdStats { gathers: 0, rows: 0, cache_hits: 0, read_ns: 0 }
    }

    /// Counts one gather.
    pub fn count(&mut self, rows: usize, hits: u64, ns: u64)
        ensures
            final(self).gathers == old(self).gathers.wrapping_add(1),
            final(self).rows == old(self).rows.wrapping_add(rows as u64),
            final(self).cache_hits == old(self).cache_hits.wrapping_add(hits),
            final(self).read_ns == old(self).read_ns.wrapping_add(ns),
    {
        self.gathers = self.gathers.wrapping_add(1);
        self.rows = self.rows.wrapping_add(rows as u64);
        self.cache_hits = self.cache_hits.wrapping_add(hits);
        self.read_ns = self.read_ns.wrapping_add(ns);
    }
}

/// Record `i` of a buffer of records.
pub open spec fn record_at(buf: Seq<u8>, i: int) -> Seq<u8> {
    buf.subrange(i * 96, (i + 1) * 96)
}

/// The records that were read last.
pub struct PleCache {
    pub map: HashMap<i64, Vec<u8>>,
    pub cap: usize,
}

/// Rows among the first `n` that the cache does not hold, with their places.
pub open spec fn misses_upto(rows: Seq<i64>, held: Set<i64>, n: nat) -> Seq<(usize, i64)>
    decreases n,
{
    if n == 0 {
        Seq::empty()
    } else {
        let m = misses_upto(rows, held, (n - 1) as nat);
        if held.contains(rows[n - 1]) {
            m
        } else {
            m.push(((n - 1) as usize, rows[n - 1]))
        }
    }
}

/// Why a gather cannot go on.
#[derive(Clone, Copy, Debug, PartialEq, Eq, Structural)]
pub struct RowOutOfRange {
    pub row: i64,
}

impl PleCache {
    /// What the cache holds.
    pub open spec fn held(&self) -> Map<i64, Seq<u8>> {
        self.map@.map_values(|v: Vec<u8>| v@)
    }

    /// Every record has its size.
    pub open spec fn wf(&self) -> bool {
        forall|r: i64| #[trigger] self.held().dom().contains(r) ==> self.held()[r].len() == 96
    }

    /// An empty cache for `cap` records.
    pub fn new(cap: usize) -> (c: PleCache)
        ensures
            c.wf(),
            c.cap == cap,
            c.held() == Map::<i64, Seq<u8>>::empty(),
    {
        broadcast use vstd::std_specs::hash::group_hash_axioms;

        let c: PleCache = PleCache { map: HashMap::new(), cap };
        proof {
            assert(c.held() =~= Map::<i64, Seq<u8>>::empty());
        }
        c
    }

    /// Fills in what the cache holds; returns what is left to read, in order, and the number of hits.
    pub fn lookup(&self, rows: &[i64], out: &mut Vec<u8>) -> (r: (Vec<(usize, i64)>, u64))
        requires
            self.wf(),
            rows@.len() * 96 <= usize::MAX,
            old(out)@.len() == rows@.len() * 96,
        ensures
            r.0@ == misses_upto(rows@, self.held().dom(), rows@.len()),
            r.1 + r.0@.len() == rows@.len(),
            final(out)@.len() == old(out)@.len(),
            forall|i: int|
                0 <= i < rows@.len() ==> #[trigger] record_at(final(out)@, i) == (
                if self.held().dom().contains(rows@[i]) {
                    self.held()[rows@[i]]
                } else {
                    record_at(old(out)@, i)
                }),
    {
        broadcast use vstd::std_specs::hash::group_hash_axioms;

        let ghost before = out@;
        let size: usize = rows.len();
        let mut misses: Vec<(usize, i64)> = Vec::new();
        let mut hits: u64 = 0;
        let mut i: usize = 0;
        while i < rows.len()
            invariant
                i <= rows@.len(),
                size == rows@.len(),
                self.wf(),
                rows@.len() * 96 <= usize::MAX,
                before.len() == rows@.len() * 96,
                out@.len() == before.len(),
                misses@ == misses_upto(rows@, self.held().dom(), i as nat),
                hits + misses@.len() == i,
                forall|k: int|
                    0 <= k < rows@.len() ==> #[trigger] record_at(out@, k) == (if k < i
                        && self.held().dom().contains(rows@[k]) {
                        self.held()[rows@[k]]
                    } else {
                        record_at(before, k)
                    }),
            decreases rows@.len() - i,
        {
            let row: i64 = rows[i];
            let ghost was = out@;
            match self.map.get(&row) {
                Some(rec) => {
                    proof {
                        assert(self.held().dom().contains(row));
                        assert(self.held()[row] == rec@);
                    }
                    put_record(out, i, rec);
                    hits = hits + 1;
                    proof {
                        assert forall|k: int| 0 <= k < rows@.len() implies #[trigger] record_at(
                            out@,
                            k,
                        ) == (if k < i + 1 && self.held().dom().contains(rows@[k]) {
                            self.held()[rows@[k]]
                        } else {
                            record_at(before, k)
                        }) by {
                            if k != i {
                                assert(record_at(out@, k) == record_at(was, k));
                            }
                        }
                    }
                },
                None => {
                    proof {
                        assert(!self.held().dom().contains(row));
                    }
                    misses.push((i, row));
                },
            }
            i = i + 1;
        }
        (misses, hits)
    }

    /// Takes up records that were read. A cache that would overflow is emptied first.
    pub fn absorb(&mut self, misses: &[(usize, i64)], out: &[u8])
        requires
            old(self).wf(),
            forall|k: int|
                0 <= k < misses@.len() ==> ((#[trigger] misses@[k]).0 + 1) * 96 <= out@.len(),
        ensures
            final(self).wf(),
            final(self).cap == old(self).cap,
            final(self).held() == absorbed(
                if old(self).held().dom().len() + misses@.len() > old(self).cap {
                    Map::empty()
                } else {
                    old(self).held()
                },
                misses@,
                out@,
            ),
    {
        broadcast use vstd::std_specs::hash::group_hash_axioms;

        let ghost was = self.held();
        let size: usize = out.len();
        let have: usize = self.map.len();
        proof {
            assert(was.dom() =~= self.map@.dom());
        }
        if have > self.cap || misses.len() > self.cap - have {
            self.map.clear();
            proof {
                assert(self.held() =~= Map::<i64, Seq<u8>>::empty());
            }
        }
        let ghost from = self.held();
        let mut k: usize = 0;
        proof {
            assert(misses@.take(0) =~= Seq::<(usize, i64)>::empty());
        }
        while k < misses.len()
            invariant
                k <= misses@.len(),
                size == out@.len(),
                self.wf(),
                self.cap == old(self).cap,
                forall|k: int|
                    0 <= k < misses@.len() ==> ((#[trigger] misses@[k]).0 + 1) * 96 <= out@.len(),
                self.held() == absorbed(from, misses@.take(k as int), out@),
            decreases misses@.len() - k,
        {
            proof {
                assert((misses@[k as int].0 + 1) * 96 <= out@.len());
            }
            let (i, row): (usize, i64) = misses[k];
            let rec: Vec<u8> = crate::seqs::slice_copy(out, i * PLE_REC_BYTES, (i + 1) * PLE_REC_BYTES);
            let ghost h = self.held();
            self.map.insert(row, rec);
            k = k + 1;
            proof {
                assert(self.held() =~= h.insert(row, rec@));
                assert(misses@.take(k as int).drop_last() =~= misses@.take(k - 1));
                assert(rec@ == record_at(out@, i as int));
            }
        }
        proof {
            assert(misses@.take(misses@.len() as int) =~= misses@);
        }
    }
}

/// A cache after it took up the records of `misses` from `out`.
pub open spec fn absorbed(
    from: Map<i64, Seq<u8>>,
    misses: Seq<(usize, i64)>,
    out: Seq<u8>,
) -> Map<i64, Seq<u8>>
    decreases misses.len(),
{
    if misses.len() == 0 {
        from
    } else {
        let m = misses.last();
        absorbed(from, misses.drop_last(), out).insert(m.1, record_at(out, m.0 as int))
    }
}

proof fn lemma_absorbed(
    table: spec_fn(i64) -> Seq<u8>,
    from: Map<i64, Seq<u8>>,
    misses: Seq<(usize, i64)>,
    out: Seq<u8>,
)
    requires
        forall|r: i64| #[trigger] from.dom().contains(r) ==> from[r] == table(r),
        forall|k: int|
            0 <= k < misses.len() ==> record_at(out, (#[trigger] misses[k]).0 as int) == table(
                misses[k].1,
            ),
    ensures
        forall|r: i64| #[trigger]
            absorbed(from, misses, out).dom().contains(r) ==> absorbed(from, misses, out)[r] == table(r),
    decreases misses.len(),
{
    if misses.len() > 0 {
        let d = misses.drop_last();
        assert forall|k: int| 0 <= k < d.len() implies record_at(out, (#[trigger] d[k]).0 as int)
            == table(d[k].1) by {
            assert(d[k] == misses[k]);
        }
        lemma_absorbed(table, from, d, out);
        let m = misses.last();
        assert(misses[misses.len() - 1] == m);
        let a = absorbed(from, d, out);
        assert forall|r: i64| #[trigger] absorbed(from, misses, out).dom().contains(r) implies absorbed(
            from,
            misses,
            out,
        )[r] == table(r) by {
            if r != m.1 {
                assert(a.dom().contains(r));
            }
        }
    }
}

fn put_record(out: &mut Vec<u8>, i: usize, rec: &Vec<u8>)
    requires
        rec@.len() == 96,
        (i + 1) * 96 <= old(out)@.len(),
    ensures
        final(out)@.len() == old(out)@.len(),
        record_at(final(out)@, i as int) == rec@,
        forall|k: int|
            k != i && 0 <= k && (k + 1) * 96 <= old(out)@.len() ==> #[trigger] record_at(
                final(out)@,
                k,
            ) == record_at(old(out)@, k),
{
    let ghost before = out@;
    let size: usize = out.len();
    let base: usize = i * PLE_REC_BYTES;
    let mut j: usize = 0;
    while j < PLE_REC_BYTES
        invariant
            j <= 96,
            base == i * 96,
            base + 96 <= size,
            size == out@.len(),
            rec@.len() == 96,
            out@.len() == before.len(),
            forall|q: int| base <= q < base + j ==> #[trigger] out@[q] == rec@[q - base],
            forall|q: int|
                0 <= q < out@.len() && !(base <= q < base + j) ==> #[trigger] out@[q] == before[q],
        decreases 96 - j,
    {
        out.set(base + j, rec[j]);
        j = j + 1;
    }
    proof {
        assert(record_at(out@, i as int) =~= rec@);
        assert forall|k: int| k != i && 0 <= k && (k + 1) * 96 <= before.len() implies #[trigger]
            record_at(out@, k) == record_at(before, k) by {
            assert(record_at(out@, k) =~= record_at(before, k));
        }
    }
}

/// The first row that the table does not have.
pub fn check_rows(misses: &[(usize, i64)], total_rows: usize) -> (r: Result<(), RowOutOfRange>)
    ensures
        match r {
            Ok(_) => forall|k: int|
                0 <= k < misses@.len() ==> 0 <= (#[trigger] misses@[k]).1 < total_rows,
            Err(e) => exists|k: int|
                0 <= k < misses@.len() && (#[trigger] misses@[k]).1 == e.row && !(0 <= e.row
                    < total_rows) && forall|j: int|
                    0 <= j < k ==> 0 <= (#[trigger] misses@[j]).1 < total_rows,
        },
{
    let mut k: usize = 0;
    while k < misses.len()
        invariant
            k <= misses@.len(),
            forall|j: int| 0 <= j < k ==> 0 <= (#[trigger] misses@[j]).1 < total_rows,
        decreases misses@.len() - k,
    {
        let row: i64 = misses[k].1;
        if row < 0 || row as u64 >= total_rows as u64 {
            proof {
                assert(misses@[k as int].1 == row);
            }
            return Err(RowOutOfRange { row });
        }
        k = k + 1;
    }
    Ok(())
}

/// Rows that each reading thread takes: the misses shared out evenly over at most `threads` threads.
pub fn rows_per_thread(misses: usize, threads: usize) -> (per: usize)
    requires
        misses >= 1,
        threads >= 1,
    ensures
        per == div_up(misses as int, if threads <= misses {
            threads as int
        } else {
            misses as int
        }),
        1 <= per <= misses,
{
    let n: usize = if threads <= misses {
        threads
    } else {
        misses
    };
    proof {
        let (m, d) = (misses as int, n as int);
        let (q, r) = (m / d, m % d);
        assert(m == q * d + r && 0 <= r < d) by (nonlinear_arith)
            requires
                q == m / d,
                r == m % d,
                d >= 1,
        ;
        if r == 0 {
            assert((m + d - 1) / d == q) by (nonlinear_arith)
                requires
                    m == q * d,
                    d >= 1,
            ;
            assert(1 <= q <= m) by (nonlinear_arith)
                requires
                    m == q * d,
                    d >= 1,
                    m >= 1,
            ;
        } else {
            assert((m + d - 1) / d == q + 1) by (nonlinear_arith)
                requires
                    m == q * d + r,
                    1 <= r < d,
            ;
            assert(q + 1 <= m && 0 <= q) by (nonlinear_arith)
                requires
                    m == q * d + r,
                    1 <= r < d,
                    d <= m,
            ;
        }
    }
    let per: usize = misses / n + if misses % n == 0 {
        0
    } else {
        1
    };
    per
}

/// Where a row's record starts in the table's file.
pub fn record_offset(row: i64) -> (o: u64)
    requires
        0 <= row,
        row * 96 <= u64::MAX,
    ensures
        o == row * 96,
{
    row as u64 * PLE_REC_BYTES as u64
}

// ---- a whole gather ----

/// A gather whose misses are still to be read.
pub struct Gather {
    /// A record per row: what the cache held is in place.
    pub out: Vec<u8>,
    /// Places and rows that are left to read.
    pub misses: Vec<(usize, i64)>,
    pub hits: u64,
    /// Rows asked for.
    pub count: usize,
}

impl Gather {
    /// Every miss has a place of its own.
    pub open spec fn wf(&self) -> bool {
        &&& self.out@.len() == self.count * 96
        &&& forall|k: int|
            0 <= k < self.misses@.len() ==> (#[trigger] self.misses@[k]).0 < self.count
        &&& forall|j: int, k: int|
            0 <= j < k < self.misses@.len() ==> (#[trigger] self.misses@[j]).0
                < (#[trigger] self.misses@[k]).0
    }
}

/// A reader of the table: the cache and the counters, for a table of so many rows.
pub struct PleReader {
    pub total_rows: usize,
    pub cache: PleCache,
    pub stats: PleSsdStats,
}

/// What `PleSsdStats::count` makes of the counters.
pub open spec fn counted(s: PleSsdStats, rows: usize, hits: u64, ns: u64) -> PleSsdStats {
    PleSsdStats {
        gathers: s.gathers.wrapping_add(1),
        rows: s.rows.wrapping_add(rows as u64),
        cache_hits: s.cache_hits.wrapping_add(hits),
        read_ns: s.read_ns.wrapping_add(ns),
    }
}

proof fn lemma_misses(rows: Seq<i64>, held: Set<i64>, n: nat)
    requires
        n <= rows.len() <= usize::MAX,
    ensures
        ({
            let m = misses_upto(rows, held, n);
            &&& m.len() <= n
            &&& forall|k: int|
                0 <= k < m.len() ==> (#[trigger] m[k]).0 < n && m[k].1 == rows[m[k].0 as int]
                    && !held.contains(m[k].1)
            &&& forall|j: int, k: int|
                0 <= j < k < m.len() ==> (#[trigger] m[j]).0 < (#[trigger] m[k]).0
            &&& forall|i: int|
                0 <= i < n && !held.contains(#[trigger] rows[i]) ==> m.contains((i as usize, rows[i]))
        }),
    decreases n,
{
    if n > 0 {
        lemma_misses(rows, held, (n - 1) as nat);
        let d = misses_upto(rows, held, (n - 1) as nat);
        let m = misses_upto(rows, held, n);
        assert forall|i: int| 0 <= i < n && !held.contains(#[trigger] rows[i]) implies m.contains(
            (i as usize, rows[i]),
        ) by {
            if i < n - 1 {
                assert(d.contains((i as usize, rows[i])));
                let k = choose|k: int| 0 <= k < d.len() && d[k] == (i as usize, rows[i]);
                assert(m[k] == (i as usize, rows[i]));
            } else {
                assert(m[m.len() - 1] == (i as usize, rows[i]));
            }
        }
    }
}

impl PleReader {
    /// The reader reads the table of that file: the file has the table's rows, and what the cache holds
    /// are records of it.
    pub open spec fn reads(&self, file: Seq<u8>) -> bool {
        &&& file.len() == self.total_rows * 96
        &&& self.cache.wf()
        &&& forall|r: i64| #[trigger]
            self.cache.held().dom().contains(r) ==> 0 <= r < self.total_rows
                && self.cache.held()[r] == record_at(file, r as int)
    }

    /// `g` is where a gather of `rows` stands before its misses are read.
    pub open spec fn begun(&self, rows: Seq<i64>, g: Gather) -> bool {
        let held = self.cache.held();
        &&& g.wf()
        &&& g.count == rows.len()
        &&& g.misses@ == misses_upto(rows, held.dom(), rows.len())
        &&& g.hits + g.misses@.len() == rows.len()
        &&& forall|k: int|
            0 <= k < g.misses@.len() ==> 0 <= (#[trigger] g.misses@[k]).1 < self.total_rows
        &&& forall|i: int|
            0 <= i < rows.len() && held.dom().contains(rows[i]) ==> #[trigger] record_at(g.out@, i)
                == held[rows[i]]
    }

    /// `e` names the first row that the cache does not hold and the table does not have.
    pub open spec fn refused(&self, rows: Seq<i64>, e: RowOutOfRange) -> bool {
        exists|i: int|
            {
                &&& 0 <= i < rows.len()
                &&& #[trigger] rows[i] == e.row
                &&& !self.cache.held().dom().contains(e.row)
                &&& !(0 <= e.row < self.total_rows)
                &&& forall|j: int|
                    0 <= j < i && !self.cache.held().dom().contains(#[trigger] rows[j]) ==> 0
                        <= rows[j] < self.total_rows
            }
    }

    /// A reader that has read nothing yet.
    pub fn new(total_rows: usize, cap: usize) -> (r: PleReader)
        ensures
            r.total_rows == total_rows,
            r.cache.cap == cap,
            r.cache.wf(),
            r.cache.held() == Map::<i64, Seq<u8>>::empty(),
            r.stats == (PleSsdStats { gathers: 0, rows: 0, cache_hits: 0, read_ns: 0 }),
    {
        PleReader { total_rows, cache: PleCache::new(cap), stats: PleSsdStats::new() }
    }

    /// Starts a gather: takes what the cache holds, and says what is left to read. A row that the table
    /// does not have refuses it.
    pub fn begin(&self, rows: &[i64]) -> (r: Result<Gather, RowOutOfRange>)
        requires
            self.cache.wf(),
            rows@.len() * 96 <= usize::MAX,
        ensures
            match r {
                Ok(g) => self.begun(rows@, g),
                Err(e) => self.refused(rows@, e),
            },
    {
        let mut out: Vec<u8> = crate::seqs::filled(rows.len() * PLE_REC_BYTES, 0u8);
        let (misses, hits) = self.cache.lookup(rows, &mut out);
        proof {
            lemma_misses(rows@, self.cache.held().dom(), rows@.len());
        }
        match check_rows(misses.as_slice(), self.total_rows) {
            Ok(_) => Ok(Gather { out, misses, hits, count: rows.len() }),
            Err(e) => {
                proof {
                    let k = choose|k: int|
                        0 <= k < misses@.len() && (#[trigger] misses@[k]).1 == e.row && !(0 <= e.row
                            < self.total_rows) && forall|j: int|
                            0 <= j < k ==> 0 <= (#[trigger] misses@[j]).1 < self.total_rows;
                    let i = misses@[k].0 as int;
                    assert(rows@[i] == e.row);
                    assert forall|j: int|
                        0 <= j < i && !self.cache.held().dom().contains(#[trigger] rows@[j]) implies 0
                        <= rows@[j] < self.total_rows by {
                        assert(misses@.contains((j as usize, rows@[j])));
                        let q = choose|q: int|
                            0 <= q < misses@.len() && misses@[q] == (j as usize, rows@[j]);
                        if q >= k {
                            assert(misses@[k].0 <= misses@[q].0);
                        }
                        assert(0 <= misses@[q].1 < self.total_rows);
                    }
                }
                Err(e)
            },
        }
    }

    /// What a finished gather did: each miss got its record in `read`, in order, and the rest stayed; the
    /// cache took the records up, and the gather was counted.
    pub open spec fn finished(
        before: PleReader,
        after: PleReader,
        g: Gather,
        read: Seq<u8>,
        ns: u64,
        out: Seq<u8>,
    ) -> bool {
        let held = before.cache.held();
        &&& out.len() == g.out@.len()
        &&& forall|k: int|
            0 <= k < g.misses@.len() ==> record_at(out, (#[trigger] g.misses@[k]).0 as int)
                == record_at(read, k)
        &&& forall|i: int|
            0 <= i < g.count && (forall|k: int|
                0 <= k < g.misses@.len() ==> (#[trigger] g.misses@[k]).0 != i) ==> #[trigger] record_at(
                out,
                i,
            ) == record_at(g.out@, i)
        &&& after.total_rows == before.total_rows
        &&& after.cache.wf()
        &&& after.cache.cap == before.cache.cap
        &&& after.cache.held() == (if g.misses@.len() == 0 {
            held
        } else {
            absorbed(
                if held.dom().len() + g.misses@.len() > before.cache.cap {
                    Map::empty()
                } else {
                    held
                },
                g.misses@,
                out,
            )
        })
        &&& after.stats == counted(before.stats, g.count, g.hits, ns)
    }

    /// Finishes a gather with the records of its misses, in order; `ns` is how long it took.
    pub fn finish(&mut self, g: Gather, read: &[u8], ns: u64) -> (out: Vec<u8>)
        requires
            old(self).cache.wf(),
            g.wf(),
            read@.len() == g.misses@.len() * 96,
        ensures
            Self::finished(*old(self), *final(self), g, read@, ns, out@),
    {
        let Gather { mut out, misses, hits, count } = g;
        let ghost before = out@;
        let n: usize = misses.len();
        let size: usize = out.len();
        let len: usize = read.len();
        let mut k: usize = 0;
        while k < n
            invariant
                k <= n,
                n == misses@.len(),
                size == out@.len(),
                size == count * 96,
                len == read@.len(),
                len == n * 96,
                out@.len() == before.len(),
                forall|k: int| 0 <= k < misses@.len() ==> (#[trigger] misses@[k]).0 < count,
                forall|j: int, k: int|
                    0 <= j < k < misses@.len() ==> (#[trigger] misses@[j]).0
                        < (#[trigger] misses@[k]).0,
                forall|j: int|
                    0 <= j < k ==> record_at(out@, (#[trigger] misses@[j]).0 as int) == record_at(
                        read@,
                        j,
                    ),
                forall|i: int|
                    0 <= i < count && (forall|j: int|
                        0 <= j < k ==> (#[trigger] misses@[j]).0 != i) ==> #[trigger] record_at(
                        out@,
                        i,
                    ) == record_at(before, i),
            decreases n - k,
        {
            let i: usize = misses[k].0;
            proof {
                assert(misses@[k as int].0 < count);
            }
            let rec: Vec<u8> = crate::seqs::slice_copy(
                read,
                k * PLE_REC_BYTES,
                (k + 1) * PLE_REC_BYTES,
            );
            let ghost was = out@;
            put_record(&mut out, i, &rec);
            proof {
                assert(rec@ == record_at(read@, k as int));
                assert forall|j: int| 0 <= j < k + 1 implies record_at(
                    out@,
                    (#[trigger] misses@[j]).0 as int,
                ) == record_at(read@, j) by {
                    if j < k {
                        assert(misses@[j].0 < misses@[k as int].0);
                        assert(record_at(out@, misses@[j].0 as int) == record_at(
                            was,
                            misses@[j].0 as int,
                        ));
                    }
                }
                assert forall|i: int|
                    0 <= i < count && (forall|j: int|
                        0 <= j < k + 1 ==> (#[trigger] misses@[j]).0 != i) implies #[trigger] record_at(
                    out@,
                    i,
                ) == record_at(before, i) by {
                    assert(misses@[k as int].0 != i);
                    assert(record_at(out@, i) == record_at(was, i));
                }
            }
            k = k + 1;
        }
        if n > 0 {
            self.cache.absorb(misses.as_slice(), out.as_slice());
        }
        self.stats.count(count, hits, ns);
        out
    }

    /// A gather is accepted if and only if the table has every row.
    pub proof fn law_gather_is_accepted_in_range(
        &self,
        file: Seq<u8>,
        rows: Seq<i64>,
        r: Result<Gather, RowOutOfRange>,
    )
        requires
            self.reads(file),
            rows.len() <= usize::MAX,
            match r {
                Ok(g) => self.begun(rows, g),
                Err(e) => self.refused(rows, e),
            },
        ensures
            r is Ok <==> forall|i: int| 0 <= i < rows.len() ==> 0 <= #[trigger] rows[i] < self.total_rows,
    {
        let held = self.cache.held().dom();
        lemma_misses(rows, held, rows.len());
        if let Ok(g) = r {
            assert forall|i: int| 0 <= i < rows.len() implies 0 <= #[trigger] rows[i]
                < self.total_rows by {
                if !held.contains(rows[i]) {
                    assert(g.misses@.contains((i as usize, rows[i])));
                    let k = choose|k: int|
                        0 <= k < g.misses@.len() && g.misses@[k] == (i as usize, rows[i]);
                    assert(0 <= g.misses@[k].1 < self.total_rows);
                }
            }
        }
    }

    /// A gather reads the table: where every miss was read from the file, the records come out in the
    /// order of the rows, each as the file has it, cached or not and as often as it was asked for. Other
    /// gathers may have finished in between. Afterwards the reader still reads that file, and has counted
    /// one gather and its rows.
    pub proof fn law_gather_reads_the_table(
        start: PleReader,
        before: PleReader,
        after: PleReader,
        file: Seq<u8>,
        rows: Seq<i64>,
        g: Gather,
        read: Seq<u8>,
        ns: u64,
        out: Seq<u8>,
    )
        requires
            start.reads(file),
            before.reads(file),
            rows.len() <= usize::MAX,
            start.begun(rows, g),
            forall|k: int|
                0 <= k < g.misses@.len() ==> record_at(read, k) == record_at(
                    file,
                    (#[trigger] g.misses@[k]).1 as int,
                ),
            Self::finished(before, after, g, read, ns, out),
        ensures
            out.len() == rows.len() * 96,
            forall|i: int|
                0 <= i < rows.len() ==> #[trigger] record_at(out, i) == record_at(file, rows[i] as int),
            after.reads(file),
            after.stats == counted(before.stats, rows.len() as usize, g.hits, ns),
    {
        let held = start.cache.held();
        lemma_misses(rows, held.dom(), rows.len());
        let m = g.misses@;
        assert forall|i: int| 0 <= i < rows.len() implies #[trigger] record_at(out, i) == record_at(
            file,
            rows[i] as int,
        ) by {
            if held.dom().contains(rows[i]) {
                assert forall|k: int| 0 <= k < m.len() implies (#[trigger] m[k]).0 != i by {
                    assert(!held.dom().contains(m[k].1));
                }
                assert(record_at(g.out@, i) == held[rows[i]]);
            } else {
                assert(m.contains((i as usize, rows[i])));
                let k = choose|k: int| 0 <= k < m.len() && m[k] == (i as usize, rows[i]);
                assert(record_at(out, m[k].0 as int) == record_at(read, k));
            }
        }
        let table = |r: i64| record_at(file, r as int);
        let from = if before.cache.held().dom().len() + m.len() > before.cache.cap {
            Map::empty()
        } else {
            before.cache.held()
        };
        assert forall|k: int| 0 <= k < m.len() implies record_at(out, (#[trigger] m[k]).0 as int)
            == table(m[k].1) by {}
        lemma_absorbed(table, from, m, out);
        lemma_absorbed_rows(from, m, out, before.total_rows as int);
        assert forall|r: i64| #[trigger] after.cache.held().dom().contains(r) implies 0 <= r
            < after.total_rows && after.cache.held()[r] == record_at(file, r as int) by {
            if m.len() > 0 {
                assert(absorbed(from, m, out).dom().contains(r));
            } else {
                assert(before.cache.held().dom().contains(r));
            }
        }
    }
}

proof fn lemma_absorbed_rows(
    from: Map<i64, Seq<u8>>,
    misses: Seq<(usize, i64)>,
    out: Seq<u8>,
    total: int,
)
    requires
        forall|r: i64| #[trigger] from.dom().contains(r) ==> 0 <= r < total,
        forall|k: int| 0 <= k < misses.len() ==> 0 <= (#[trigger] misses[k]).1 < total,
    ensures
        forall|r: i64| #[trigger] absorbed(from, misses, out).dom().contains(r) ==> 0 <= r < total,
    decreases misses.len(),
{
    if misses.len() > 0 {
        let d = misses.drop_last();
        assert forall|k: int| 0 <= k < d.len() implies 0 <= (#[trigger] d[k]).1 < total by {
            assert(d[k] == misses[k]);
        }
        lemma_absorbed_rows(from, d, out, total);
        let m = misses.last();
        assert(0 <= misses[misses.len() - 1].1 < total);
        assert forall|r: i64| #[trigger] absorbed(from, misses, out).dom().contains(r) implies 0 <= r
            < total by {
            if r != m.1 {
                assert(absorbed(from, d, out).dom().contains(r));
            }
        }
    }
}

} // verus!
