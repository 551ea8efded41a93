//! JSON at the edges: the fields of an object, and text as a JSON string.
use vstd::prelude::*;

use crate::text::{chars_of, equal, number_in, parse_number, texts};

verus! {

/// A field of a JSON object: a string, or the JSON text of any other value.
pub enum Field {
    Text(String),
    Json(String),
}

/// What a field holds.
pub enum FieldView {
    Text(Seq<char>),
    Json(Seq<char>),
}

impl View for Field {
    type V = FieldView;

    open spec fn view(&self) -> FieldView {
        match self {
            Field::Text(s) => FieldView::Text(s@),
            Field::Json(s) => FieldView::Json(s@),
        }
    }
}

/// What a list of fields holds.
pub open spec fn fields_view(v: Seq<(String, Field)>) -> Seq<(Seq<char>, FieldView)> {
    v.map_values(|f: (String, Field)| (f.0@, f.1@))
}

/// What `serde_json::from_str` reads in a text: the message of its error; or the fields of the object, in
/// the order of the map that holds them; or no fields where the value is not an object.
pub uninterp spec fn json_object(text: Seq<char>) -> Result<
    Option<Seq<(Seq<char>, FieldView)>>,
    Seq<char>,
>;

/// The JSON string that the `Display` of `serde_json::Value::String` writes for a text, quotes and escapes
/// included.
pub uninterp spec fn json_quoted(text: Seq<char>) -> Seq<char>;

/// Reads a text as a JSON object.
///
/// Calls `serde_json::from_str` for a `serde_json::Value`. The result is a function of the text alone:
/// it is the named reading of that text. A string field is handed over as it is, any other field as the
/// JSON text that `Value` prints.
#[verifier::external_body]
pub(crate) fn read_object(text: &str) -> (r: Result<Option<Vec<(String, Field)>>, String>)
    ensures
        match r {
            Ok(Some(v)) => json_object(text@) == Ok::<_, Seq<char>>(Some(fields_view(v@))),
            Ok(None) => json_object(text@) == Ok::<_, Seq<char>>(
                None::<Seq<(Seq<char>, FieldView)>>,
            ),
            Err(e) => json_object(text@) == Err::<Option<Seq<(Seq<char>, FieldView)>>, _>(e@),
        },
{
    match serde_json::from_str::<serde_json::Value>(text) {
        Ok(serde_json::Value::Object(m)) => Ok(
            Some(
                m.into_iter().map(
                    |(k, v)|
                        match v {
                            serde_json::Value::String(s) => (k, Field::Text(s)),
                            other => (k, Field::Json(other.to_string())),
                        },
                ).collect(),
            ),
        ),
        Ok(_) => Ok(None),
        Err(e) => Err(e.to_string()),
    }
}

/// Writes a text as a JSON string.
///
/// Calls the `Display` of `serde_json::Value::String`. The result is a function of the text alone.
#[verifier::external_body]
pub(crate) fn quote(text: &str) -> (r: String)
    ensures
        r@ == json_quoted(text@),
{
    serde_json::Value::String(text.to_string()).to_string()
}

/// The elements of the array that `serde_json::from_str` reads in a text, each as its JSON text; nothing
/// where the text is no JSON array.
pub uninterp spec fn json_array(text: Seq<char>) -> Option<Seq<Seq<char>>>;

/// Reads a text as a JSON array.
///
/// Calls `serde_json::from_str` for a `Vec<serde_json::Value>`. The result is a function of the text alone;
/// each element is handed over as the JSON text that `Value` prints.
#[verifier::external_body]
pub(crate) fn read_array(text: &str) -> (r: Option<Vec<String>>)
    ensures
        match r {
            Some(v) => json_array(text@) == Some(texts(v@)),
            None => json_array(text@) is None,
        },
{
    match serde_json::from_str::<Vec<serde_json::Value>>(text) {
        Ok(v) => Some(v.into_iter().map(|e| e.to_string()).collect()),
        Err(_) => None,
    }
}

/// Position of the last field called `key`, or -1.
pub open spec fn field_index(v: Seq<(Seq<char>, FieldView)>, key: Seq<char>) -> int
    decreases v.len(),
{
    if v.len() == 0 {
        -1
    } else if v.last().0 == key {
        v.len() - 1
    } else {
        field_index(v.drop_last(), key)
    }
}

/// The field called `key`.
pub open spec fn field_of(v: Seq<(Seq<char>, FieldView)>, key: Seq<char>) -> Option<FieldView> {
    let i = field_index(v, key);
    if 0 <= i < v.len() {
        Some(v[i].1)
    } else {
        None
    }
}

/// The string field called `key`.
pub open spec fn text_field(v: Seq<(Seq<char>, FieldView)>, key: Seq<char>) -> Option<Seq<char>> {
    match field_of(v, key) {
        Some(FieldView::Text(s)) => Some(s),
        _ => None,
    }
}

/// The unsigned 64-bit field called `key`: a number without sign, point or exponent.
pub open spec fn number_field(v: Seq<(Seq<char>, FieldView)>, key: Seq<char>) -> Option<nat> {
    match field_of(v, key) {
        Some(FieldView::Json(s)) => number_in(s, u64::MAX as nat),
        _ => None,
    }
}

proof fn lemma_field_index(v: Seq<(Seq<char>, FieldView)>, key: Seq<char>, i: int)
    requires
        -1 <= i < v.len(),
        i >= 0 ==> v[i].0 == key,
        forall|j: int| i < j < v.len() ==> (#[trigger] v[j]).0 != key,
    ensures
        field_index(v, key) == i,
    decreases v.len(),
{
    if v.len() > 0 && i < v.len() - 1 {
        assert(v[v.len() - 1].0 != key);
        let d = v.drop_last();
        assert forall|j: int| i < j < d.len() implies (#[trigger] d[j]).0 != key by {
            assert(d[j] == v[j]);
        }
        if i >= 0 {
            assert(d[i] == v[i]);
        }
        lemma_field_index(d, key, i);
    }
}

fn find(v: &[(String, Field)], key: &str) -> (r: Option<usize>)
    ensures
        match r {
            Some(i) => i < v.len() && field_index(fields_view(v@), key@) == i,
            None => field_index(fields_view(v@), key@) == -1,
        },
{
    let ghost w = fields_view(v@);
    let mut i: usize = v.len();
    while i > 0
        invariant
            i <= v.len(),
            w == fields_view(v@),
            forall|j: int| i <= j < v.len() ==> (#[trigger] w[j]).0 != key@,
        decreases i,
    {
        if equal(v[i - 1].0.as_str(), key) {
            proof {
                lemma_field_index(w, key@, i - 1);
            }
            return Some(i - 1);
        }
        i = i - 1;
    }
    proof {
        lemma_field_index(w, key@, -1);
    }
    None
}

/// The string field called `key`.
pub fn get_text<'a>(v: &'a [(String, Field)], key: &str) -> (r: Option<&'a String>)
    ensures
        match r {
            Some(s) => text_field(fields_view(v@), key@) == Some(s@),
            None => text_field(fields_view(v@), key@) is None,
        },
{
    match find(v, key) {
        Some(i) => match &v[i].1 {
            Field::Text(s) => Some(s),
            Field::Json(_) => None,
        },
        None => None,
    }
}

/// The field called `key` that is not a string, as JSON text.
pub fn get_json<'a>(v: &'a [(String, Field)], key: &str) -> (r: Option<&'a String>)
    ensures
        match r {
            Some(s) => field_of(fields_view(v@), key@) == Some(FieldView::Json(s@)),
            None => !(field_of(fields_view(v@), key@) matches Some(FieldView::Json(_))),
        },
{
    match find(v, key) {
        Some(i) => match &v[i].1 {
            Field::Json(s) => Some(s),
            Field::Text(_) => None,
        },
        None => None,
    }
}

/// The unsigned 64-bit field called `key`.
pub fn get_number(v: &[(String, Field)], key: &str) -> (r: Option<u64>)
    ensures
        match r {
            Some(n) => number_field(fields_view(v@), key@) == Some(n as nat),
            None => number_field(fields_view(v@), key@) is None,
        },
{
    match get_json(v, key) {
        Some(s) => {
            let c: Vec<char> = chars_of(s.as_str());
            parse_number(c.as_slice(), u64::MAX)
        },
        None => None,
    }
}

} // verus!
