//! Checkpoint files: which shards there are, what tensors they hold, and how each is stored.
use vstd::prelude::*;
use vstd::utf8::{decode_utf8, valid_utf8};

use crate::json::{
    field_of, fields_view, get_json, json_object, read_object, Field, FieldView,
};
use crate::recipe::{fmt_for, fmt_in_map, Fmt, Group};
use crate::tensors::BLOCK;
use crate::text::{
    append, begins_with, chars_of, contains, contains_text, finishes_with, has_prefix, has_suffix,
    lemma_text_less_strict, lemma_text_less_transitive, less, string_of, strip_back, text_less, text_of, texts,
    without_suffix,
};

verus! {

// ---- which files ----

/// Why the list of shards could not be read.
pub enum IndexFault {
    /// The index is not JSON; the message says where.
    Syntax(String),
    /// The index has no object `weight_map`.
    NoWeightMap,
}

/// A sorted list without repetition.
pub open spec fn ascending(v: Seq<Seq<char>>) -> bool {
    forall|i: int, j: int| 0 <= i < j < v.len() ==> text_less(#[trigger] v[i], #[trigger] v[j])
}

/// `files` lists the string fields, each once, in order.
pub open spec fn lists_files(fields: Seq<(Seq<char>, FieldView)>, files: Seq<Seq<char>>) -> bool {
    &&& ascending(files)
    &&& forall|f: Seq<char>| #[trigger]
        files.contains(f) <==> exists|i: int|
            0 <= i < fields.len() && #[trigger] fields[i].1 == FieldView::Text(f)
}

fn stands_before(a: &String, b: &String) -> (r: bool)
    ensures
        r == text_less(a@, b@),
{
    let c: Vec<char> = chars_of(a.as_str());
    let d: Vec<char> = chars_of(b.as_str());
    less(c.as_slice(), d.as_slice())
}

/// Puts a text into a sorted list, where it is not there yet.
fn insert_sorted(v: &mut Vec<String>, s: &String)
    requires
        ascending(texts(old(v)@)),
    ensures
        ascending(texts(final(v)@)),
        forall|f: Seq<char>| #[trigger]
            texts(final(v)@).contains(f) <==> texts(old(v)@).contains(f) || f == s@,
{
    let ghost w = texts(v@);
    let mut i: usize = 0;
    while i < v.len() && stands_before(&v[i], s)
        invariant
            i <= v.len(),
            w == texts(v@),
            ascending(w),
            forall|j: int| 0 <= j < i ==> text_less(#[trigger] w[j], s@),
        decreases v.len() - i,
    {
        i = i + 1;
    }
    if i < v.len() && v[i] == *s {
        proof {
            assert(w[i as int] == s@);
        }
        return ;
    }
    v.insert(i, s.clone());
    proof {
        let n = texts(v@);
        assert(n =~= w.insert(i as int, s@));
        if i < w.len() {
            assert(!text_less(w[i as int], s@));
            lemma_text_less_strict(w[i as int], s@);
        }
        assert forall|a: int, b: int| 0 <= a < b < n.len() implies text_less(
            #[trigger] n[a],
            #[trigger] n[b],
        ) by {
            if a == i as int {
                assert(n[b] == w[b - 1]);
                if b - 1 > i {
                    lemma_text_less_transitive(s@, w[i as int], w[b - 1]);
                }
            } else if b == i as int {
                assert(n[a] == w[a]);
            } else {
                let (x, y) = (
                    if a < i {
                        a
                    } else {
                        a - 1
                    },
                    if b < i {
                        b
                    } else {
                        b - 1
                    },
                );
                assert(n[a] == w[x] && n[b] == w[y]);
            }
        }
        assert forall|f: Seq<char>| #[trigger] n.contains(f) <==> w.contains(f) || f == s@ by {
            if w.contains(f) {
                let k = choose|k: int| 0 <= k < w.len() && w[k] == f;
                if k < i {
                    assert(n[k] == f);
                } else {
                    assert(n[k + 1] == f);
                }
            }
            if f == s@ {
                assert(n[i as int] == f);
            }
            if n.contains(f) && f != s@ {
                let k = choose|k: int| 0 <= k < n.len() && n[k] == f;
                if k < i {
                    assert(w[k] == f);
                } else {
                    assert(w[k - 1] == f);
                }
            }
        }
    }
}

/// The files that a weight map names: each once, sorted.
pub fn shard_files(fields: &[(String, Field)]) -> (r: Vec<String>)
    ensures
        lists_files(fields_view(fields@), texts(r@)),
{
    let ghost fv = fields_view(fields@);
    let mut r: Vec<String> = Vec::new();
    let mut i: usize = 0;
    while i < fields.len()
        invariant
            i <= fields.len(),
            fv == fields_view(fields@),
            ascending(texts(r@)),
            forall|f: Seq<char>| #[trigger]
                texts(r@).contains(f) <==> exists|j: int|
                    0 <= j < i && #[trigger] fv[j].1 == FieldView::Text(f),
        decreases fields.len() - i,
    {
        let ghost before = texts(r@);
        if let Field::Text(s) = &fields[i].1 {
            insert_sorted(&mut r, s);
            proof {
                assert(fv[i as int].1 == FieldView::Text(s@));
                assert forall|f: Seq<char>| #[trigger]
                    texts(r@).contains(f) <==> exists|j: int|
                        0 <= j < i + 1 && #[trigger] fv[j].1 == FieldView::Text(f) by {
                    assert(before.contains(f) <==> exists|j: int|
                        0 <= j < i && #[trigger] fv[j].1 == FieldView::Text(f));
                }
            }
        } else {
            proof {
                assert(!(fv[i as int].1 is Text));
            }
        }
        i = i + 1;
    }
    r
}

/// The fields of the weight map in an index text.
pub open spec fn weight_map_of(text: Seq<char>) -> Result<
    Option<Seq<(Seq<char>, FieldView)>>,
    Seq<char>,
> {
    match json_object(text) {
        Err(e) => Err(e),
        Ok(None) => Ok(None),
        Ok(Some(top)) => match field_of(top, "weight_map"@) {
            Some(FieldView::Json(t)) => json_object(t),
            _ => Ok(None),
        },
    }
}

/// The shard files that an index text names: each once, sorted.
pub fn index_files(text: &str) -> (r: Result<Vec<String>, IndexFault>)
    ensures
        match r {
            Ok(files) => weight_map_of(text@) matches Ok(Some(fields)) && lists_files(
                fields,
                texts(files@),
            ),
            Err(IndexFault::Syntax(e)) => weight_map_of(text@) == Err::<
                Option<Seq<(Seq<char>, FieldView)>>,
                _,
            >(e@),
            Err(IndexFault::NoWeightMap) => weight_map_of(text@) == Ok::<_, Seq<char>>(
                None::<Seq<(Seq<char>, FieldView)>>,
            ),
        },
{
    match read_object(text) {
        Err(e) => Err(IndexFault::Syntax(e)),
        Ok(None) => Err(IndexFault::NoWeightMap),
        Ok(Some(top)) => match get_json(top.as_slice(), "weight_map") {
            None => Err(IndexFault::NoWeightMap),
            Some(t) => match read_object(t.as_str()) {
                Err(e) => Err(IndexFault::Syntax(e)),
                Ok(None) => Err(IndexFault::NoWeightMap),
                Ok(Some(fields)) => Ok(shard_files(fields.as_slice())),
            },
        },
    }
}

/// Whether a directory entry is a shard, where there is no index.
pub fn is_shard_file(name: &str) -> (b: bool)
    ensures
        b == has_suffix(name@, ".safetensors"@),
{
    let c: Vec<char> = chars_of(name);
    finishes_with(c.as_slice(), ".safetensors")
}

// ---- one shard ----

/// Element type of a stored tensor, as far as loading tells them apart.
#[derive(Clone, Copy, Debug, PartialEq, Eq, Structural)]
pub enum Dtype {
    Bf16,
    F16,
    F32,
    F8E4m3,
    Other,
}

/// One tensor of a shard: its bytes are `start .. end` behind the header.
pub struct TensorEntry {
    pub name: String,
    pub dtype: Dtype,
    pub shape: Vec<usize>,
    pub start: usize,
    pub end: usize,
}

/// What a header says of one tensor.
pub struct TensorInfo {
    pub dtype: Dtype,
    pub shape: Seq<usize>,
    pub start: nat,
    pub end: nat,
}

impl TensorEntry {
    /// What the header says of this tensor, but for its name.
    pub open spec fn info(&self) -> TensorInfo {
        TensorInfo {
            dtype: self.dtype,
            shape: self.shape@,
            start: self.start as nat,
            end: self.end as nat,
        }
    }
}

/// What a list of tensors says of each name.
pub open spec fn entry_map(v: Seq<TensorEntry>) -> Map<Seq<char>, TensorInfo>
    decreases v.len(),
{
    if v.len() == 0 {
        Map::empty()
    } else {
        entry_map(v.drop_last()).insert(v.last().name@, v.last().info())
    }
}

/// No name occurs twice.
pub open spec fn distinct_names(v: Seq<TensorEntry>) -> bool {
    forall|i: int, j: int|
        0 <= i < j < v.len() ==> (#[trigger] v[i]).name@ != (#[trigger] v[j]).name@
}

/// What a JSON header says: where the last tensor's bytes end, and each tensor; nothing where the text is
/// no header.
pub uninterp spec fn header_tensors(text: Seq<char>) -> Option<(nat, Map<Seq<char>, TensorInfo>)>;

/// Bytes in front of the JSON header: its length.
pub const HEADER_LEN_BYTES: usize = 8;

/// The longest JSON header.
pub const MAX_HEADER: u64 = 100_000_000;

/// Reads the tensors of a JSON header.
///
/// Calls `serde_json::from_str` for `safetensors::tensor::Metadata`, whose deserialization checks the
/// tensors with checked arithmetic, and hands the tensors over one for one, with `Metadata::data_len`.
/// What is read is a function of the text alone, but the order of the tensors is not, so the result is
/// fixed up to order. Names are distinct, and the tensors follow one another without a gap, so none ends
/// behind the last.
#[verifier::external_body]
fn read_tensors(text: &str) -> (r: Option<(usize, Vec<TensorEntry>)>)
    ensures
        match r {
            Some((end, v)) => {
                &&& header_tensors(text@) == Some((end as nat, entry_map(v@)))
                &&& distinct_names(v@)
                &&& forall|i: int|
                    0 <= i < v@.len() ==> (#[trigger] v@[i]).start <= v@[i].end && v@[i].end <= end
            },
            None => header_tensors(text@) is None,
        },
{
    let md: safetensors::tensor::Metadata = serde_json::from_str(text).ok()?;
    let entry = |(name, t): (String, &safetensors::tensor::TensorInfo)| {
        let dtype = match t.dtype {
            safetensors::Dtype::BF16 => Dtype::Bf16,
            safetensors::Dtype::F16 => Dtype::F16,
            safetensors::Dtype::F32 => Dtype::F32,
            safetensors::Dtype::F8_E4M3 => Dtype::F8E4m3,
            _ => Dtype::Other,
        };
        let (start, end) = t.data_offsets;
        TensorEntry { name, dtype, shape: t.shape.clone(), start, end }
    };
    Some((md.data_len(), md.tensors().into_iter().map(entry).collect()))
}

/// Why bytes are not a shard file.
pub enum HeaderFault {
    /// There is no room for the header's length.
    TooSmall,
    /// The header is longer than any may be.
    TooLarge,
    /// The header ends behind the file.
    InvalidLength,
    /// The header is not UTF-8; the message says where.
    NotUtf8(String),
    /// The header is not the JSON text of a list of tensors; the message says why.
    Json(String),
    /// The bytes of this tensor do not follow those before.
    InvalidOffset(String),
    /// The bytes of some tensor are not as many as its shape and element type ask for.
    InvalidInfo,
    /// The size of some tensor is beyond every number.
    SizeOverflow,
    /// Some tensor ends inside a byte.
    PartByte,
    /// The tensors do not end where the file does.
    Incomplete,
}

impl HeaderFault {
    /// The header lists tensors, but one of them is at fault.
    pub open spec fn is_of_tensors(&self) -> bool {
        self is InvalidOffset || self is InvalidInfo || self is SizeOverflow || self is PartByte
    }

    /// The reason, in words.
    pub open spec fn spec_message(&self) -> Seq<char> {
        match self {
            HeaderFault::TooSmall => "header too small"@,
            HeaderFault::TooLarge => "header too large"@,
            HeaderFault::InvalidLength => "invalid header length"@,
            HeaderFault::NotUtf8(m) => "invalid UTF-8 in header: "@ + m@,
            HeaderFault::Json(m) => "invalid JSON in header: "@ + m@,
            HeaderFault::InvalidOffset(n) => "invalid offset for tensor `"@ + n@ + "`"@,
            HeaderFault::InvalidInfo => "invalid shape, data type, or offset for tensor"@,
            HeaderFault::SizeOverflow => "overflow computing buffer size from shape and/or element type"@,
            HeaderFault::PartByte => PART_BYTE@,
            HeaderFault::Incomplete => "incomplete metadata, file not fully covered"@,
        }
    }

    /// The reason, in words.
    pub fn message(&self) -> (s: String)
        ensures
            s@ == self.spec_message(),
    {
        match self {
            HeaderFault::TooSmall => "header too small".to_owned(),
            HeaderFault::TooLarge => "header too large".to_owned(),
            HeaderFault::InvalidLength => "invalid header length".to_owned(),
            HeaderFault::NotUtf8(m) => {
                let mut s: String = "invalid UTF-8 in header: ".to_owned();
                append(&mut s, m.as_str());
                s
            },
            HeaderFault::Json(m) => {
                let mut s: String = "invalid JSON in header: ".to_owned();
                append(&mut s, m.as_str());
                s
            },
            HeaderFault::InvalidOffset(n) => {
                let mut s: String = "invalid offset for tensor `".to_owned();
                append(&mut s, n.as_str());
                append(&mut s, "`");
                s
            },
            HeaderFault::InvalidInfo => "invalid shape, data type, or offset for tensor".to_owned(),
            HeaderFault::SizeOverflow =>
            "overflow computing buffer size from shape and/or element type".to_owned(),
            HeaderFault::PartByte => PART_BYTE.to_owned(),
            HeaderFault::Incomplete => "incomplete metadata, file not fully covered".to_owned(),
        }
    }
}

/// What is said of a tensor that ends inside a byte.
pub const PART_BYTE: &'static str = "The slice is slicing for subbytes dtypes, and the slice does not end up at a byte boundary, this is invalid.";

/// What is said of header bytes that are not UTF-8, or not the JSON text of a list of tensors; nothing
/// where they are such a text.
pub uninterp spec fn header_refusal(header: Seq<u8>) -> Option<Seq<char>>;

/// Header bytes of which `said` is said are refused for that reason.
pub open spec fn refused_as(header: Seq<u8>, said: Option<Seq<char>>, f: HeaderFault) -> bool {
    match said {
        Some(m) => if valid_utf8(header) {
            f matches HeaderFault::Json(x) && x@ == m
        } else {
            f matches HeaderFault::NotUtf8(x) && x@ == m
        },
        None => valid_utf8(header) && f.is_of_tensors(),
    }
}

/// Why the header of a shard is refused, where its bytes are not UTF-8 or list no tensors that can be.
///
/// Calls `safetensors::SafeTensors::read_metadata`, and hands its error over, one variant for one. It
/// decodes and parses the header before it looks at the tensors, and what it says of a header that it
/// cannot decode or parse is a function of the header's bytes. Which tensor it then finds at fault, and of
/// which fault, is left open: it takes tensors that start and end alike in the order of a hash map. It
/// refuses these bytes before it adds up where they end, so that sum cannot overflow.
#[verifier::external_body]
fn refusal(raw: &[u8]) -> (r: Option<HeaderFault>)
    requires
        8 <= raw@.len(),
        header_len(raw@) <= MAX_HEADER,
        8 + header_len(raw@) <= raw@.len(),
        valid_utf8(header_bytes(raw@)) ==> header_tensors(decode_utf8(header_bytes(raw@))) is None,
    ensures
        r is Some,
        refused_as(header_bytes(raw@), header_refusal(header_bytes(raw@)), r->0),
{
    match safetensors::SafeTensors::read_metadata(raw) {
        Err(safetensors::SafeTensorError::InvalidHeader(e)) => Some(HeaderFault::NotUtf8(e.to_string())),
        Err(safetensors::SafeTensorError::InvalidHeaderDeserialization(e)) => Some(
            HeaderFault::Json(e.to_string()),
        ),
        Err(safetensors::SafeTensorError::InvalidOffset(n)) => Some(HeaderFault::InvalidOffset(n)),
        Err(safetensors::SafeTensorError::TensorInvalidInfo) => Some(HeaderFault::InvalidInfo),
        Err(safetensors::SafeTensorError::ValidationOverflow) => Some(HeaderFault::SizeOverflow),
        Err(safetensors::SafeTensorError::MisalignedSlice) => Some(HeaderFault::PartByte),
        _ => None,
    }
}

/// The length of the JSON header: a little-endian number in front of it.
pub open spec fn header_len(raw: Seq<u8>) -> int {
    raw[0] + 0x100 * raw[1] + 0x1_0000 * raw[2] + 0x100_0000 * raw[3] + 0x1_0000_0000 * raw[4]
        + 0x100_0000_0000 * raw[5] + 0x1_0000_0000_0000 * raw[6] + 0x100_0000_0000_0000 * raw[7]
}

/// The bytes of the JSON header.
pub open spec fn header_bytes(raw: Seq<u8>) -> Seq<u8> {
    raw.subrange(8, 8 + header_len(raw))
}

/// The bytes are refused for that reason: the first that holds.
pub open spec fn header_refused(raw: Seq<u8>, f: HeaderFault) -> bool {
    if raw.len() < 8 {
        f is TooSmall
    } else if header_len(raw) > MAX_HEADER {
        f is TooLarge
    } else if 8 + header_len(raw) > raw.len() {
        f is InvalidLength
    } else if !valid_utf8(header_bytes(raw)) {
        refused_as(header_bytes(raw), header_refusal(header_bytes(raw)), f)
    } else {
        match header_tensors(decode_utf8(header_bytes(raw))) {
            None => refused_as(header_bytes(raw), header_refusal(header_bytes(raw)), f),
            Some((end, _)) => end + 8 + header_len(raw) != raw.len() && f is Incomplete,
        }
    }
}

/// What the bytes of a shard file hold: the size of the JSON header and what it says of each tensor;
/// nothing where the bytes are not such a file.
pub open spec fn shard_header(raw: Seq<u8>) -> Option<(nat, Map<Seq<char>, TensorInfo>)> {
    if raw.len() < 8 || header_len(raw) > MAX_HEADER || 8 + header_len(raw) > raw.len()
        || !valid_utf8(header_bytes(raw)) {
        None
    } else {
        match header_tensors(decode_utf8(header_bytes(raw))) {
            None => None,
            Some((end, m)) => if end + 8 + header_len(raw) == raw.len() {
                Some((header_len(raw) as nat, m))
            } else {
                None
            },
        }
    }
}

/// Reads the header of a shard: the size of its JSON text, and the tensors.
pub fn read_header(raw: &[u8]) -> (r: Result<(usize, Vec<TensorEntry>), HeaderFault>)
    ensures
        match r {
            Ok((n, v)) => {
                &&& shard_header(raw@) == Some((n as nat, entry_map(v@)))
                &&& distinct_names(v@)
                &&& HEADER_LEN_BYTES + n <= raw@.len()
                &&& forall|i: int|
                    0 <= i < v@.len() ==> (#[trigger] v@[i]).start <= v@[i].end
                        && HEADER_LEN_BYTES + n + v@[i].end <= raw@.len()
            },
            Err(f) => shard_header(raw@) is None && header_refused(raw@, f),
        },
{
    let size: usize = raw.len();
    if size < HEADER_LEN_BYTES {
        return Err(HeaderFault::TooSmall);
    }
    let len: u64 = raw[0] as u64 + 0x100 * raw[1] as u64 + 0x1_0000 * raw[2] as u64 + 0x100_0000
        * raw[3] as u64 + 0x1_0000_0000 * raw[4] as u64 + 0x100_0000_0000 * raw[5] as u64
        + 0x1_0000_0000_0000 * raw[6] as u64 + 0x100_0000_0000_0000 * raw[7] as u64;
    if len > MAX_HEADER {
        return Err(HeaderFault::TooLarge);
    }
    let n: usize = len as usize;
    if n > size - HEADER_LEN_BYTES {
        return Err(HeaderFault::InvalidLength);
    }
    let read: Option<(usize, Vec<TensorEntry>)> = match text_of(
        vstd::slice::slice_subrange(raw, HEADER_LEN_BYTES, HEADER_LEN_BYTES + n),
    ) {
        Some(t) => read_tensors(t),
        None => None,
    };
    match read {
        None => Err(refusal(raw).unwrap()),
        Some((end, v)) => match end.checked_add(HEADER_LEN_BYTES + n) {
            Some(total) => if total == size {
                Ok((n, v))
            } else {
                Err(HeaderFault::Incomplete)
            },
            None => Err(HeaderFault::Incomplete),
        },
    }
}

/// A small vector or a norm, which is kept in 32 bits.
pub open spec fn kept_in_f32(name: Seq<char>) -> bool {
    ||| has_suffix(name, "A_log"@)
    ||| has_suffix(name, "dt_bias"@)
    ||| contains_text(name, "norm"@) && has_suffix(name, ".weight"@)
    ||| has_suffix(name, "conv1d.weight"@)
}

/// Whether a tensor is a small vector or a norm, which is kept in 32 bits.
pub fn needs_f32(name: &str) -> (b: bool)
    ensures
        b == kept_in_f32(name@),
{
    let c: Vec<char> = chars_of(name);
    let s: &[char] = c.as_slice();
    finishes_with(s, "A_log") || finishes_with(s, "dt_bias") || (contains(s, "norm")
        && finishes_with(s, ".weight")) || finishes_with(s, "conv1d.weight")
}

/// `s` without any number of suffixes `p`.
pub open spec fn without_suffixes(s: Seq<char>, p: Seq<char>) -> Seq<char>
    decreases s.len(),
{
    if p.len() > 0 && has_suffix(s, p) {
        without_suffixes(without_suffix(s, p), p)
    } else {
        s
    }
}

/// `s` without any number of suffixes `p`.
fn strip_suffixes(s: &str, p: &str) -> (r: Vec<char>)
    requires
        p@.len() > 0,
    ensures
        r@ == without_suffixes(s@, p@),
{
    let mut r: Vec<char> = chars_of(s);
    while finishes_with(r.as_slice(), p)
        invariant
            p@.len() > 0,
            without_suffixes(r@, p@) == without_suffixes(s@, p@),
        decreases r.len(),
    {
        r = strip_back(r.as_slice(), p);
    }
    r
}

/// Where a tensor called `name` stands in a shard; the number of tensors where there is none.
pub open spec fn entry_index(es: Seq<TensorEntry>, name: Seq<char>) -> int
    decreases es.len(),
{
    if es.len() == 0 {
        0
    } else {
        let i = entry_index(es.drop_last(), name);
        if i < es.len() - 1 {
            i
        } else if es.last().name@ == name {
            es.len() - 1
        } else {
            es.len() as int
        }
    }
}

proof fn lemma_entry_index(es: Seq<TensorEntry>, name: Seq<char>)
    ensures
        0 <= entry_index(es, name) <= es.len(),
        entry_index(es, name) < es.len() ==> es[entry_index(es, name)].name@ == name,
        forall|j: int| 0 <= j < entry_index(es, name) ==> (#[trigger] es[j]).name@ != name,
    decreases es.len(),
{
    if es.len() > 0 {
        let d = es.drop_last();
        lemma_entry_index(d, name);
        assert forall|j: int| 0 <= j < entry_index(es, name) implies (#[trigger] es[j]).name@
            != name by {
            if j < es.len() - 1 {
                assert(d[j] == es[j]);
            }
        }
    }
}

/// Where a tensor called `name` stands in a shard; the number of tensors where there is none.
pub fn find_entry(es: &[TensorEntry], name: &String) -> (i: usize)
    ensures
        i == entry_index(es@, name@),
        i <= es.len(),
{
    proof {
        lemma_entry_index(es@, name@);
    }
    let mut i: usize = 0;
    while i < es.len() && es[i].name != *name
        invariant
            i <= es.len(),
            forall|j: int| 0 <= j < i ==> (#[trigger] es@[j]).name@ != name@,
        decreases es.len() - i,
    {
        i = i + 1;
    }
    proof {
        lemma_entry_index(es@, name@);
        let k = entry_index(es@, name@);
        if k < i {
            assert(es@[k].name@ != name@);
        }
        if i < k {
            assert(es@[i as int].name@ != name@);
        }
    }
    i
}

/// Where a loaded tensor is filed.
#[derive(Clone, Copy, Debug, PartialEq, Eq, Structural)]
pub enum Class {
    Bf16,
    F32,
    Nvfp4,
    Fp8,
}

/// Why a checkpoint cannot be loaded.
pub enum LoadFault {
    /// A packed tensor lacks one of its companions in the shard.
    NotFound(String),
    /// A tensor's shape or size does not suit what it is.
    Malformed(String),
    /// The model needs a tensor that the checkpoint does not have in that class.
    Missing(Class, String),
    /// The model needs several projections in one weight, and they are not quantized.
    Unfused(String),
}

/// Why a checkpoint cannot be loaded.
pub enum FaultView {
    NotFound(Seq<char>),
    Malformed(Seq<char>),
    Missing(Class, Seq<char>),
    Unfused(Seq<char>),
}

impl View for LoadFault {
    type V = FaultView;

    open spec fn view(&self) -> FaultView {
        match self {
            LoadFault::NotFound(s) => FaultView::NotFound(s@),
            LoadFault::Malformed(s) => FaultView::Malformed(s@),
            LoadFault::Missing(c, s) => FaultView::Missing(*c, s@),
            LoadFault::Unfused(s) => FaultView::Unfused(s@),
        }
    }
}

/// How one weight is stored, by the positions of its tensors in the shard.
#[derive(Clone, Copy, Debug, PartialEq, Eq, Structural)]
pub enum Piece {
    /// Packed 4-bit codes, block scales, one tensor scale.
    Nvfp4 { packed: usize, scale: usize, global: usize, m: usize, k: usize },
    /// 8-bit codes and row scales.
    Fp8 { weight: usize, scale: usize, m: usize, k: usize },
    /// Kept in 32 bits.
    F32 { at: usize },
    /// Kept in 16 bits, with the format whose error is simulated, if any.
    Bf16 { at: usize, fake: Option<Fmt> },
}

/// A weight found in a shard.
pub struct Ingest {
    pub key: String,
    pub piece: Piece,
}

impl View for Ingest {
    type V = (Seq<char>, Piece);

    open spec fn view(&self) -> (Seq<char>, Piece) {
        (self.key@, self.piece)
    }
}

/// What is looked for in one pass over a shard.
#[derive(Clone, Copy, PartialEq, Eq, Structural)]
pub enum Stage {
    Nvfp4,
    Fp8,
    Plain,
}

/// Bytes of a tensor.
pub open spec fn bytes_of(e: TensorEntry) -> int {
    e.end - e.start
}

/// A 4-bit weight: the packed tensor at `i` and its two scales.
pub open spec fn nvfp4_item(es: Seq<TensorEntry>, i: int) -> Result<(Seq<char>, Piece), FaultView> {
    let stem = without_suffixes(es[i].name@, ".weight_packed"@);
    let s = entry_index(es, stem + ".weight_scale"@);
    let g = entry_index(es, stem + ".weight_global_scale"@);
    if s == es.len() {
        Err(FaultView::NotFound(stem + ".weight_scale"@))
    } else if g == es.len() {
        Err(FaultView::NotFound(stem + ".weight_global_scale"@))
    } else if es[i].shape@.len() < 2 || es[i].shape@[1] * 2 > usize::MAX || bytes_of(es[g]) < 4 {
        Err(FaultView::Malformed(es[i].name@))
    } else {
        Ok(
            (
                stem + ".weight"@,
                Piece::Nvfp4 {
                    packed: i as usize,
                    scale: s as usize,
                    global: g as usize,
                    m: es[i].shape@[0],
                    k: (es[i].shape@[1] * 2) as usize,
                },
            ),
        )
    }
}

/// An 8-bit weight: the tensor at `i` and its row scales.
pub open spec fn fp8_item(es: Seq<TensorEntry>, i: int) -> Result<(Seq<char>, Piece), FaultView> {
    let scale = without_suffixes(es[i].name@, ".weight"@) + ".weight_scale"@;
    let s = entry_index(es, scale);
    if s == es.len() {
        Err(FaultView::NotFound(scale))
    } else if es[i].shape@.len() < 2 || bytes_of(es[s]) % 4 != 0 {
        Err(FaultView::Malformed(es[i].name@))
    } else {
        Ok(
            (
                es[i].name@,
                Piece::Fp8 {
                    weight: i as usize,
                    scale: s as usize,
                    m: es[i].shape@[0],
                    k: es[i].shape@[1],
                },
            ),
        )
    }
}

/// The format whose error is simulated on a tensor: what the recipe says, on a matrix whose rows are
/// whole blocks.
pub open spec fn fake_of(recipe: Option<Seq<(Group, Fmt)>>, e: TensorEntry) -> Option<Fmt> {
    let fmt = match recipe {
        Some(m) => fmt_in_map(m, e.name@),
        None => Fmt::Bf16,
    };
    if fmt != Fmt::Bf16 && e.shape@.len() == 2 && e.shape@[1] % 16 == 0 {
        Some(fmt)
    } else {
        None
    }
}

/// A weight that is stored as it is.
pub open spec fn plain_item(
    es: Seq<TensorEntry>,
    recipe: Option<Seq<(Group, Fmt)>>,
    i: int,
) -> Result<(Seq<char>, Piece), FaultView> {
    let e = es[i];
    let wide = if kept_in_f32(e.name@) {
        e.dtype == Dtype::F32
    } else {
        e.dtype != Dtype::Bf16 && e.dtype != Dtype::F16
    };
    if bytes_of(e) % (if wide {
        4int
    } else {
        2int
    }) != 0 {
        Err(FaultView::Malformed(e.name@))
    } else if kept_in_f32(e.name@) {
        Ok((e.name@, Piece::F32 { at: i as usize }))
    } else {
        Ok((e.name@, Piece::Bf16 { at: i as usize, fake: fake_of(recipe, e) }))
    }
}

/// A tensor that only goes with a packed one.
pub open spec fn is_companion(name: Seq<char>) -> bool {
    has_suffix(name, ".weight_packed"@) || has_suffix(name, ".weight_scale"@) || has_suffix(
        name,
        ".weight_global_scale"@,
    )
}

/// Whether a pass takes up the tensor.
pub open spec fn takes(stage: Stage, e: TensorEntry) -> bool {
    match stage {
        Stage::Nvfp4 => has_suffix(e.name@, ".weight_packed"@),
        Stage::Fp8 => has_suffix(e.name@, ".weight"@) && e.dtype == Dtype::F8E4m3,
        Stage::Plain => !is_companion(e.name@) && e.dtype != Dtype::F8E4m3,
    }
}

/// The weight that a pass makes of the tensor at `i`.
pub open spec fn item(
    stage: Stage,
    es: Seq<TensorEntry>,
    recipe: Option<Seq<(Group, Fmt)>>,
    i: int,
) -> Result<(Seq<char>, Piece), FaultView> {
    match stage {
        Stage::Nvfp4 => nvfp4_item(es, i),
        Stage::Fp8 => fp8_item(es, i),
        Stage::Plain => plain_item(es, recipe, i),
    }
}

/// The weights that a pass finds among the first `n` tensors, or its first fault.
pub open spec fn gathered(
    stage: Stage,
    es: Seq<TensorEntry>,
    recipe: Option<Seq<(Group, Fmt)>>,
    n: nat,
) -> Result<Seq<(Seq<char>, Piece)>, FaultView>
    decreases n,
{
    if n == 0 {
        Ok(Seq::empty())
    } else {
        match gathered(stage, es, recipe, (n - 1) as nat) {
            Err(e) => Err(e),
            Ok(v) => if takes(stage, es[n - 1]) {
                match item(stage, es, recipe, n - 1) {
                    Err(e) => Err(e),
                    Ok(x) => Ok(v.push(x)),
                }
            } else {
                Ok(v)
            },
        }
    }
}

/// The weights of a shard: the 4-bit ones, the 8-bit ones, then the rest.
pub open spec fn shard_items(es: Seq<TensorEntry>, recipe: Option<Seq<(Group, Fmt)>>) -> Result<
    Seq<(Seq<char>, Piece)>,
    FaultView,
> {
    match gathered(Stage::Nvfp4, es, recipe, es.len()) {
        Err(e) => Err(e),
        Ok(a) => match gathered(Stage::Fp8, es, recipe, es.len()) {
            Err(e) => Err(e),
            Ok(b) => match gathered(Stage::Plain, es, recipe, es.len()) {
                Err(e) => Err(e),
                Ok(c) => Ok(a + b + c),
            },
        },
    }
}

/// The recipe's map, as the contracts see it.
pub open spec fn recipe_view(r: Option<Vec<(Group, Fmt)>>) -> Option<Seq<(Group, Fmt)>> {
    match r {
        Some(m) => Some(m@),
        None => None,
    }
}

/// A result as the contracts see it.
pub open spec fn item_view(r: Result<Ingest, LoadFault>) -> Result<(Seq<char>, Piece), FaultView> {
    match r {
        Ok(x) => Ok(x@),
        Err(e) => Err(e@),
    }
}

/// Every tensor ends where it starts or later.
pub open spec fn spans_ok(es: Seq<TensorEntry>) -> bool {
    forall|i: int| 0 <= i < es.len() ==> (#[trigger] es[i]).start <= es[i].end
}

fn suffixed(stem: &[char], p: &str) -> (r: String)
    ensures
        r@ == stem@ + p@,
{
    let mut r: String = string_of(stem);
    append(&mut r, p);
    r
}

fn take_nvfp4(es: &[TensorEntry], i: usize) -> (r: Result<Ingest, LoadFault>)
    requires
        i < es.len(),
        spans_ok(es@),
    ensures
        item_view(r) == nvfp4_item(es@, i as int),
{
    let e: &TensorEntry = &es[i];
    proof {
        reveal_strlit(".weight_packed");
    }
    let stem: Vec<char> = strip_suffixes(e.name.as_str(), ".weight_packed");
    let sname: String = suffixed(stem.as_slice(), ".weight_scale");
    let gname: String = suffixed(stem.as_slice(), ".weight_global_scale");
    let s: usize = find_entry(es, &sname);
    if s == es.len() {
        return Err(LoadFault::NotFound(sname));
    }
    let g: usize = find_entry(es, &gname);
    if g == es.len() {
        return Err(LoadFault::NotFound(gname));
    }
    if e.shape.len() < 2 || e.shape[1] > usize::MAX / 2 || es[g].end - es[g].start < 4 {
        return Err(LoadFault::Malformed(e.name.clone()));
    }
    Ok(
        Ingest {
            key: suffixed(stem.as_slice(), ".weight"),
            piece: Piece::Nvfp4 {
                packed: i,
                scale: s,
                global: g,
                m: e.shape[0],
                k: e.shape[1] * 2,
            },
        },
    )
}

fn take_fp8(es: &[TensorEntry], i: usize) -> (r: Result<Ingest, LoadFault>)
    requires
        i < es.len(),
        spans_ok(es@),
    ensures
        item_view(r) == fp8_item(es@, i as int),
{
    let e: &TensorEntry = &es[i];
    proof {
        reveal_strlit(".weight");
    }
    let stem: Vec<char> = strip_suffixes(e.name.as_str(), ".weight");
    let sname: String = suffixed(stem.as_slice(), ".weight_scale");
    let s: usize = find_entry(es, &sname);
    if s == es.len() {
        return Err(LoadFault::NotFound(sname));
    }
    if e.shape.len() < 2 || (es[s].end - es[s].start) % 4 != 0 {
        return Err(LoadFault::Malformed(e.name.clone()));
    }
    Ok(
        Ingest {
            key: e.name.clone(),
            piece: Piece::Fp8 { weight: i, scale: s, m: e.shape[0], k: e.shape[1] },
        },
    )
}

fn take_plain(es: &[TensorEntry], recipe: &Option<Vec<(Group, Fmt)>>, i: usize) -> (r: Result<
    Ingest,
    LoadFault,
>)
    requires
        i < es.len(),
        spans_ok(es@),
    ensures
        item_view(r) == plain_item(es@, recipe_view(*recipe), i as int),
{
    let e: &TensorEntry = &es[i];
    let small: bool = needs_f32(e.name.as_str());
    let wide: bool = if small {
        e.dtype == Dtype::F32
    } else {
        e.dtype != Dtype::Bf16 && e.dtype != Dtype::F16
    };
    let unit: usize = if wide {
        4
    } else {
        2
    };
    if (e.end - e.start) % unit != 0 {
        return Err(LoadFault::Malformed(e.name.clone()));
    }
    let piece: Piece = if small {
        Piece::F32 { at: i }
    } else {
        let fmt: Fmt = match recipe {
            Some(m) => fmt_for(m.as_slice(), e.name.as_str()),
            None => Fmt::Bf16,
        };
        let fake: Option<Fmt> = if fmt != Fmt::Bf16 && e.shape.len() == 2 && e.shape[1] % BLOCK
            == 0 {
            Some(fmt)
        } else {
            None
        };
        Piece::Bf16 { at: i, fake }
    };
    Ok(Ingest { key: e.name.clone(), piece })
}

fn takes_up(stage: Stage, e: &TensorEntry) -> (b: bool)
    ensures
        b == takes(stage, *e),
{
    let c: Vec<char> = chars_of(e.name.as_str());
    let s: &[char] = c.as_slice();
    match stage {
        Stage::Nvfp4 => finishes_with(s, ".weight_packed"),
        Stage::Fp8 => finishes_with(s, ".weight") && e.dtype == Dtype::F8E4m3,
        Stage::Plain => !(finishes_with(s, ".weight_packed") || finishes_with(s, ".weight_scale")
            || finishes_with(s, ".weight_global_scale")) && e.dtype != Dtype::F8E4m3,
    }
}

/// What a list of weights says.
pub open spec fn ingest_views(v: Seq<Ingest>) -> Seq<(Seq<char>, Piece)> {
    v.map_values(|x: Ingest| x@)
}

fn gather(
    stage: Stage,
    es: &[TensorEntry],
    recipe: &Option<Vec<(Group, Fmt)>>,
    out: &mut Vec<Ingest>,
) -> (r: Result<(), LoadFault>)
    requires
        spans_ok(es@),
    ensures
        match r {
            Ok(_) => gathered(stage, es@, recipe_view(*recipe), es@.len()) matches Ok(v)
                && ingest_views(final(out)@) == ingest_views(old(out)@) + v,
            Err(e) => gathered(stage, es@, recipe_view(*recipe), es@.len()) == Err::<
                Seq<(Seq<char>, Piece)>,
                _,
            >(e@),
        },
{
    let ghost before = ingest_views(out@);
    let ghost rv = recipe_view(*recipe);
    let mut i: usize = 0;
    while i < es.len()
        invariant
            i <= es.len(),
            spans_ok(es@),
            rv == recipe_view(*recipe),
            gathered(stage, es@, rv, i as nat) is Ok,
            ingest_views(out@) == before + gathered(stage, es@, rv, i as nat)->Ok_0,
        decreases es.len() - i,
    {
        if takes_up(stage, &es[i]) {
            let x: Result<Ingest, LoadFault> = match stage {
                Stage::Nvfp4 => take_nvfp4(es, i),
                Stage::Fp8 => take_fp8(es, i),
                Stage::Plain => take_plain(es, recipe, i),
            };
            match x {
                Ok(y) => {
                    let ghost had = out@;
                    out.push(y);
                    proof {
                        assert(ingest_views(out@) =~= ingest_views(had).push(y@));
                        assert(ingest_views(out@) =~= before + gathered(
                            stage,
                            es@,
                            rv,
                            (i + 1) as nat,
                        )->Ok_0);
                    }
                },
                Err(e) => {
                    proof {
                        lemma_gather_stops(stage, es@, rv, (i + 1) as nat, es@.len());
                    }
                    return Err(e);
                },
            }
        }
        i = i + 1;
    }
    Ok(())
}

proof fn lemma_gather_stops(
    stage: Stage,
    es: Seq<TensorEntry>,
    recipe: Option<Seq<(Group, Fmt)>>,
    k: nat,
    n: nat,
)
    requires
        k <= n,
        gathered(stage, es, recipe, k) is Err,
    ensures
        gathered(stage, es, recipe, n) == gathered(stage, es, recipe, k),
    decreases n,
{
    if k < n {
        lemma_gather_stops(stage, es, recipe, k, (n - 1) as nat);
    }
}

/// The weights of a shard: the 4-bit ones, the 8-bit ones, then the rest.
pub fn ingest_shard(es: &[TensorEntry], recipe: &Option<Vec<(Group, Fmt)>>) -> (r: Result<
    Vec<Ingest>,
    LoadFault,
>)
    requires
        spans_ok(es@),
    ensures
        match r {
            Ok(v) => shard_items(es@, recipe_view(*recipe)) == Ok::<_, FaultView>(
                ingest_views(v@),
            ),
            Err(e) => shard_items(es@, recipe_view(*recipe)) == Err::<
                Seq<(Seq<char>, Piece)>,
                _,
            >(e@),
        },
{
    let mut out: Vec<Ingest> = Vec::new();
    proof {
        assert(ingest_views(out@) =~= Seq::<(Seq<char>, Piece)>::empty());
    }
    if let Err(e) = gather(Stage::Nvfp4, es, recipe, &mut out) {
        return Err(e);
    }
    proof {
        let a = gathered(Stage::Nvfp4, es@, recipe_view(*recipe), es@.len())->Ok_0;
        assert(ingest_views(out@) =~= a);
    }
    if let Err(e) = gather(Stage::Fp8, es, recipe, &mut out) {
        return Err(e);
    }
    if let Err(e) = gather(Stage::Plain, es, recipe, &mut out) {
        return Err(e);
    }
    Ok(out)
}


/// Why a shard cannot be loaded.
pub enum ShardFault {
    /// The bytes are not a shard file.
    Header(HeaderFault),
    Tensor(LoadFault),
}

/// A shard's tensors and the weights they make up. Tensor bytes start at `data_start` of the file.
pub struct Shard {
    pub data_start: usize,
    pub entries: Vec<TensorEntry>,
    pub items: Vec<Ingest>,
}

/// `s` is what the bytes of a shard file hold.
pub open spec fn is_shard(raw: Seq<u8>, recipe: Option<Vec<(Group, Fmt)>>, s: Shard) -> bool {
    &&& shard_header(raw) == Some(
        ((s.data_start - HEADER_LEN_BYTES) as nat, entry_map(s.entries@)),
    )
    &&& distinct_names(s.entries@)
    &&& shard_items(s.entries@, recipe_view(recipe)) == Ok::<_, FaultView>(ingest_views(s.items@))
    &&& forall|i: int|
        0 <= i < s.entries@.len() ==> (#[trigger] s.entries@[i]).start <= s.entries@[i].end
            && s.data_start + s.entries@[i].end <= raw.len()
}

/// The bytes are refused for that reason.
pub open spec fn refuses_shard(raw: Seq<u8>, recipe: Option<Vec<(Group, Fmt)>>, f: ShardFault) -> bool {
    match f {
        ShardFault::Header(f) => header_refused(raw, f),
        ShardFault::Tensor(f) => shard_header(raw) matches Some(h) && exists|
            es: Seq<TensorEntry>,
        |
            h.1 == entry_map(es) && #[trigger] distinct_names(es) && shard_items(
                es,
                recipe_view(recipe),
            ) == Err::<Seq<(Seq<char>, Piece)>, _>(f@),
    }
}

/// Reads the bytes of a shard file.
pub fn load_shard(raw: &[u8], recipe: &Option<Vec<(Group, Fmt)>>) -> (r: Result<Shard, ShardFault>)
    ensures
        match r {
            Ok(s) => is_shard(raw@, *recipe, s),
            Err(f) => refuses_shard(raw@, *recipe, f),
        },
{
    let ghost size = raw.len();
    match read_header(raw) {
        Err(e) => Err(ShardFault::Header(e)),
        Ok((n, entries)) => {
            match ingest_shard(entries.as_slice(), recipe) {
                Ok(items) => Ok(Shard { data_start: HEADER_LEN_BYTES + n, entries, items }),
                Err(f) => Err(ShardFault::Tensor(f)),
            }
        },
    }
}

/// No tensor is taken up by two passes, and the scales of a packed tensor by none.
pub proof fn law_one_pass_per_tensor(e: TensorEntry, a: Stage, b: Stage)
    ensures
        takes(a, e) && takes(b, e) ==> a == b,
        has_suffix(e.name@, ".weight_scale"@) || has_suffix(e.name@, ".weight_global_scale"@)
            ==> !takes(a, e),
{
    let n = e.name@;
    reveal_strlit(".weight_packed");
    reveal_strlit(".weight");
    reveal_strlit(".weight_scale");
    reveal_strlit(".weight_global_scale");
    assert(has_suffix(n, ".weight_packed"@) ==> n[n.len() - 1] == 'd') by {
        if has_suffix(n, ".weight_packed"@) {
            let k = n.len() - ".weight_packed"@.len();
            assert(n.subrange(k, n.len() as int)[13] == ".weight_packed"@[13]);
        }
    }
    assert(has_suffix(n, ".weight"@) ==> n[n.len() - 1] == 't') by {
        if has_suffix(n, ".weight"@) {
            let k = n.len() - ".weight"@.len();
            assert(n.subrange(k, n.len() as int)[6] == ".weight"@[6]);
        }
    }
    assert(has_suffix(n, ".weight_scale"@) ==> n[n.len() - 1] == 'e') by {
        if has_suffix(n, ".weight_scale"@) {
            let k = n.len() - ".weight_scale"@.len();
            assert(n.subrange(k, n.len() as int)[12] == ".weight_scale"@[12]);
        }
    }
    assert(has_suffix(n, ".weight_global_scale"@) ==> n[n.len() - 1] == 'e') by {
        if has_suffix(n, ".weight_global_scale"@) {
            let k = n.len() - ".weight_global_scale"@.len();
            assert(n.subrange(k, n.len() as int)[19] == ".weight_global_scale"@[19]);
        }
    }
}


// ---- the whole checkpoint ----

/// A weight of the checkpoint: the shard it is in and how it is stored there.
pub struct Stored {
    pub key: String,
    pub shard: usize,
    pub piece: Piece,
}

/// A weight of the checkpoint.
pub struct StoredView {
    pub key: Seq<char>,
    pub shard: usize,
    pub piece: Piece,
}

impl View for Stored {
    type V = StoredView;

    open spec fn view(&self) -> StoredView {
        StoredView { key: self.key@, shard: self.shard, piece: self.piece }
    }
}

/// Everything that the shards hold, in the order it was read. Of two weights with one key and class the
/// later counts.
pub struct Catalog {
    pub items: Vec<Stored>,
    /// Quantized weights are decoded to 16 bits on loading.
    pub dequant: bool,
}

/// The class that a weight is filed under.
pub open spec fn class_of(p: Piece, dequant: bool) -> Class {
    match p {
        Piece::Nvfp4 { .. } => if dequant {
            Class::Bf16
        } else {
            Class::Nvfp4
        },
        Piece::Fp8 { .. } => if dequant {
            Class::Bf16
        } else {
            Class::Fp8
        },
        Piece::F32 { .. } => Class::F32,
        Piece::Bf16 { .. } => Class::Bf16,
    }
}

impl Catalog {
    /// The weights, as the contracts see them.
    pub open spec fn all(&self) -> Seq<StoredView> {
        self.items@.map_values(|s: Stored| s@)
    }

    /// Weight `i` is filed under `class` and called `key`.
    pub open spec fn is_at(&self, class: Class, key: Seq<char>, i: int) -> bool {
        0 <= i < self.all().len() && self.all()[i].key == key && class_of(
            self.all()[i].piece,
            self.dequant,
        ) == class
    }

    /// There is a weight called `key` under `class`.
    pub open spec fn has(&self, class: Class, key: Seq<char>) -> bool {
        exists|i: int| self.is_at(class, key, i)
    }

    /// The weight called `key` under `class`: the latest.
    pub open spec fn is_latest(&self, class: Class, key: Seq<char>, i: int) -> bool {
        self.is_at(class, key, i) && forall|j: int| i < j ==> !#[trigger] self.is_at(class, key, j)
    }

    /// Some weight that is not a small vector has a key that begins with `p`.
    pub open spec fn has_key_under(&self, p: Seq<char>) -> bool {
        exists|i: int|
            0 <= i < self.all().len() && has_prefix((#[trigger] self.all()[i]).key, p)
                && class_of(self.all()[i].piece, self.dequant) != Class::F32
    }

    /// Some weight is stored in fewer than sixteen bits, and stays so.
    pub open spec fn keeps_quantized(&self) -> bool {
        !self.dequant && exists|i: int|
            0 <= i < self.all().len() && ((#[trigger] self.all()[i]).piece is Nvfp4
                || self.all()[i].piece is Fp8)
    }

    /// An empty catalog.
    pub fn new(dequant: bool) -> (c: Catalog)
        ensures
            c.all() == Seq::<StoredView>::empty(),
            c.dequant == dequant,
    {
        let c: Catalog = Catalog { items: Vec::new(), dequant };
        proof {
            assert(c.all() =~= Seq::<StoredView>::empty());
        }
        c
    }

    /// Adds the weights of shard number `shard`.
    pub fn add_shard(&mut self, shard: usize, items: &Vec<Ingest>)
        ensures
            final(self).dequant == old(self).dequant,
            final(self).all() == old(self).all() + ingest_views(items@).map_values(
                |x: (Seq<char>, Piece)| StoredView { key: x.0, shard, piece: x.1 },
            ),
    {
        let ghost before = self.all();
        let ghost f = |x: (Seq<char>, Piece)| StoredView { key: x.0, shard, piece: x.1 };
        let ghost v = ingest_views(items@).map_values(f);
        let mut i: usize = 0;
        while i < items.len()
            invariant
                i <= items.len(),
                self.dequant == old(self).dequant,
                f == (|x: (Seq<char>, Piece)| StoredView { key: x.0, shard, piece: x.1 }),
                v == ingest_views(items@).map_values(f),
                self.all() == before + v.take(i as int),
            decreases items.len() - i,
        {
            let ghost had = self.all();
            self.items.push(Stored { key: items[i].key.clone(), shard, piece: items[i].piece });
            i = i + 1;
            proof {
                assert(v.take(i as int) =~= v.take(i - 1).push(v[i - 1]));
                assert(v[i - 1] == f(items@[i - 1]@));
                assert(self.all() =~= had.push(v[i - 1]));
                assert(self.all() =~= before + v.take(i as int));
            }
        }
        proof {
            assert(v.take(v.len() as int) =~= v);
            assert(self.all() =~= before + v);
        }
    }

    /// Reads the bytes of shard number `shard` and files its weights.
    pub fn ingest(&mut self, shard: usize, raw: &[u8], recipe: &Option<Vec<(Group, Fmt)>>) -> (r: Result<
        Shard,
        ShardFault,
    >)
        ensures
            final(self).dequant == old(self).dequant,
            match r {
                Ok(s) => {
                    &&& is_shard(raw@, *recipe, s)
                    &&& final(self).all() == old(self).all() + ingest_views(s.items@).map_values(
                        |x: (Seq<char>, Piece)| StoredView { key: x.0, shard, piece: x.1 },
                    )
                },
                Err(f) => final(self).all() == old(self).all() && refuses_shard(raw@, *recipe, f),
            },
    {
        match load_shard(raw, recipe) {
            Ok(s) => {
                self.add_shard(shard, &s.items);
                Ok(s)
            },
            Err(f) => Err(f),
        }
    }

    fn class_at(&self, i: usize) -> (c: Class)
        requires
            i < self.items@.len(),
        ensures
            c == class_of(self.all()[i as int].piece, self.dequant),
    {
        match self.items[i].piece {
            Piece::Nvfp4 { .. } => if self.dequant {
                Class::Bf16
            } else {
                Class::Nvfp4
            },
            Piece::Fp8 { .. } => if self.dequant {
                Class::Bf16
            } else {
                Class::Fp8
            },
            Piece::F32 { .. } => Class::F32,
            Piece::Bf16 { .. } => Class::Bf16,
        }
    }

    /// The weight called `key` under `class`: the latest.
    pub fn find(&self, class: Class, key: &String) -> (r: Option<usize>)
        ensures
            match r {
                Some(i) => self.is_latest(class, key@, i as int),
                None => !self.has(class, key@),
            },
    {
        let mut i: usize = self.items.len();
        while i > 0
            invariant
                i <= self.items@.len(),
                forall|j: int| i <= j ==> !#[trigger] self.is_at(class, key@, j),
            decreases i,
        {
            if self.items[i - 1].key == *key && self.class_at(i - 1) == class {
                proof {
                    assert(self.is_at(class, key@, i - 1));
                }
                return Some(i - 1);
            }
            i = i - 1;
        }
        None
    }

    /// Some weight that is not a small vector has a key that begins with `p`.
    pub fn any_under(&self, p: &str) -> (b: bool)
        ensures
            b == self.has_key_under(p@),
    {
        let mut i: usize = 0;
        while i < self.items.len()
            invariant
                i <= self.items@.len(),
                forall|j: int|
                    0 <= j < i ==> !(has_prefix((#[trigger] self.all()[j]).key, p@)
                        && class_of(self.all()[j].piece, self.dequant) != Class::F32),
            decreases self.items.len() - i,
        {
            let c: Vec<char> = chars_of(self.items[i].key.as_str());
            if begins_with(c.as_slice(), p) && self.class_at(i) != Class::F32 {
                proof {
                    assert(self.all()[i as int].key == c@);
                }
                return true;
            }
            i = i + 1;
        }
        false
    }

    /// Some weight is stored in fewer than sixteen bits, and stays so.
    pub fn quantized(&self) -> (b: bool)
        ensures
            b == self.keeps_quantized(),
    {
        let mut i: usize = 0;
        while i < self.items.len()
            invariant
                i <= self.items@.len(),
                forall|j: int|
                    0 <= j < i ==> !((#[trigger] self.all()[j]).piece is Nvfp4
                        || self.all()[j].piece is Fp8),
            decreases self.items.len() - i,
        {
            match self.items[i].piece {
                Piece::Nvfp4 { .. } | Piece::Fp8 { .. } => {
                    proof {
                        assert(self.all()[i as int].piece == self.items@[i as int].piece);
                    }
                    return !self.dequant;
                },
                _ => {},
            }
            i = i + 1;
        }
        false
    }
}

} // verus!
