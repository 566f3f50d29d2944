//! The structured values that a request handler receives and returns, and the
//! bytes and the JSON that stand for them in a response.

use crate::assoc::{
    as_map, assoc_collect, distinct_keys, last_wins, lemma_collect_distinct, lemma_collect_last_wins,
};
use crate::json::{
    json_array, json_bool, json_entries, json_int, json_map_insert, json_map_new,
    json_null, json_object, json_string, json_text, json_to_string, json_view, Json,
};
use crate::text::signed_decimal;
use crate::text::signed_decimal_text;
use vstd::prelude::*;
use vstd::string::StrSliceExecFns;
use vstd::utf8::encode_utf8;

verus! {

/// A structured value.
#[derive(Debug, PartialEq)]
pub enum Datum {
    /// No value.
    Nothing,
    Bool(bool),
    Int(i64),
    /// A floating-point number, by the two forms in which it leaves the
    /// server: its text, and the JSON value that stands for it.
    Float { text: String, json: serde_json::Value },
    Text(String),
    /// Raw bytes, with the text that stands for them inside JSON.
    Binary { bytes: Vec<u8>, debug: String },
    /// An ordered list.
    List(Vec<Datum>),
    /// A record: named fields, in order.
    Record(Vec<(String, Datum)>),
    /// A value of any other kind, by the text that describes it.
    Other(String),
}

/// The mathematical value of a [`Datum`].
pub enum DatumView {
    Nothing,
    Bool(bool),
    Int(i64),
    Float { text: Seq<char>, json: Json },
    Text(Seq<char>),
    Binary { bytes: Seq<u8>, debug: Seq<char> },
    List(Seq<DatumView>),
    Record(Seq<(Seq<char>, DatumView)>),
    Other(Seq<char>),
}

/// The mathematical value of `d`.
pub open spec fn datum_view(d: Datum) -> DatumView
    decreases d,
{
    match d {
        Datum::Nothing => DatumView::Nothing,
        Datum::Bool(b) => DatumView::Bool(b),
        Datum::Int(i) => DatumView::Int(i),
        Datum::Float { text, json } => DatumView::Float { text: text@, json: json_view(json) },
        Datum::Text(s) => DatumView::Text(s@),
        Datum::Binary { bytes, debug } => DatumView::Binary { bytes: bytes@, debug: debug@ },
        Datum::List(items) => DatumView::List(item_views(items@)),
        Datum::Record(fields) => DatumView::Record(field_views(fields@)),
        Datum::Other(text) => DatumView::Other(text@),
    }
}

/// The views of the items of a list, in order.
pub open spec fn item_views(items: Seq<Datum>) -> Seq<DatumView>
    decreases items,
{
    Seq::new(
        items.len(),
        |i: int|
            if 0 <= i < items.len() {
                datum_view(items[i])
            } else {
                DatumView::Nothing
            },
    )
}

/// The views of the fields of a record, in order.
pub open spec fn field_views(fields: Seq<(String, Datum)>) -> Seq<(Seq<char>, DatumView)>
    decreases fields,
{
    Seq::new(
        fields.len(),
        |i: int|
            if 0 <= i < fields.len() {
                (fields[i].0@, datum_view(fields[i].1))
            } else {
                (Seq::empty(), DatumView::Nothing)
            },
    )
}

impl View for Datum {
    type V = DatumView;

    open spec fn view(&self) -> DatumView {
        datum_view(*self)
    }
}

/// The JSON value that stands for `d`.
///
/// Lists become arrays and records become objects, field by field in order; a
/// field name that comes again replaces the value of the earlier field and
/// keeps its place. Raw bytes and values of other kinds become the string that
/// describes them.
pub open spec fn json_of(d: DatumView) -> Json
    decreases d,
{
    match d {
        DatumView::Nothing => Json::Null,
        DatumView::Bool(b) => Json::Bool(b),
        DatumView::Int(i) => Json::Int(i as int),
        DatumView::Float { text, json } => json,
        DatumView::Text(s) => Json::Text(s),
        DatumView::Binary { bytes, debug } => Json::Text(debug),
        DatumView::List(items) => Json::Array(json_items(items)),
        DatumView::Record(fields) => Json::Object(assoc_collect(json_fields(fields))),
        DatumView::Other(text) => Json::Text(text),
    }
}

/// The JSON values that stand for the items of a list, in order.
pub open spec fn json_items(items: Seq<DatumView>) -> Seq<Json>
    decreases items,
{
    Seq::new(
        items.len(),
        |i: int|
            if 0 <= i < items.len() {
                json_of(items[i])
            } else {
                Json::Null
            },
    )
}

/// The fields of a record with each value replaced by the JSON value that
/// stands for it, in order.
pub open spec fn json_fields(fields: Seq<(Seq<char>, DatumView)>) -> Seq<(Seq<char>, Json)>
    decreases fields,
{
    Seq::new(
        fields.len(),
        |i: int|
            if 0 <= i < fields.len() {
                (fields[i].0, json_of(fields[i].1))
            } else {
                (Seq::empty(), Json::Null)
            },
    )
}

/// `d` is made of what JSON has of its own: nothing, booleans, integers,
/// text, lists, and records in which no field name comes twice.
pub open spec fn json_native(d: DatumView) -> bool
    decreases d,
{
    match d {
        DatumView::Nothing => true,
        DatumView::Bool(_) => true,
        DatumView::Int(_) => true,
        DatumView::Text(_) => true,
        DatumView::List(items) => all_native(items),
        DatumView::Record(fields) => distinct_keys(fields) && all_native_fields(fields),
        _ => false,
    }
}

/// Every item is made of what JSON has of its own.
pub open spec fn all_native(items: Seq<DatumView>) -> bool
    decreases items,
{
    forall|i: int| 0 <= i < items.len() ==> json_native(#[trigger] items[i])
}

/// Every field value is made of what JSON has of its own.
pub open spec fn all_native_fields(fields: Seq<(Seq<char>, DatumView)>) -> bool
    decreases fields,
{
    forall|i: int| 0 <= i < fields.len() ==> json_native((#[trigger] fields[i]).1)
}

/// The value that a JSON value reads back as.
pub open spec fn datum_of(j: Json) -> DatumView
    decreases j,
{
    match j {
        Json::Null => DatumView::Nothing,
        Json::Bool(b) => DatumView::Bool(b),
        Json::Int(i) => DatumView::Int(i as i64),
        Json::Real(text) => DatumView::Other(text),
        Json::Text(s) => DatumView::Text(s),
        Json::Array(items) => DatumView::List(data_of(items)),
        Json::Object(members) => DatumView::Record(fields_of(members)),
    }
}

/// The values that the items of an array read back as, in order.
pub open spec fn data_of(items: Seq<Json>) -> Seq<DatumView>
    decreases items,
{
    Seq::new(
        items.len(),
        |i: int|
            if 0 <= i < items.len() {
                datum_of(items[i])
            } else {
                DatumView::Nothing
            },
    )
}

/// The fields that the members of an object read back as, in order.
pub open spec fn fields_of(members: Seq<(Seq<char>, Json)>) -> Seq<(Seq<char>, DatumView)>
    decreases members,
{
    Seq::new(
        members.len(),
        |i: int|
            if 0 <= i < members.len() {
                (members[i].0, datum_of(members[i].1))
            } else {
                (Seq::empty(), DatumView::Nothing)
            },
    )
}

/// The keys of `entries`, in order.
pub open spec fn keys_of<V>(entries: Seq<(Seq<char>, V)>) -> Seq<Seq<char>> {
    Seq::new(entries.len(), |i: int| entries[i].0)
}

/// The JSON object that stands for a record names each field once, and gives
/// each name the JSON of the value that the record's last field of that name
/// holds.
pub proof fn lemma_record_json_members(fields: Seq<(Seq<char>, DatumView)>)
    ensures
        json_of(DatumView::Record(fields)) is Object,
        distinct_keys(json_of(DatumView::Record(fields))->Object_0),
        as_map(json_of(DatumView::Record(fields))->Object_0) == last_wins(json_fields(fields)),
{
    lemma_collect_last_wins(json_fields(fields));
}

/// Where no field name comes twice, the JSON object that stands for a record
/// has the record's field names in the record's order, each with the JSON of
/// its value.
pub proof fn lemma_record_json_keeps_order(fields: Seq<(Seq<char>, DatumView)>)
    requires
        distinct_keys(fields),
    ensures
        json_of(DatumView::Record(fields)) == Json::Object(json_fields(fields)),
        keys_of(json_fields(fields)) == keys_of(fields),
{
    let members = json_fields(fields);
    assert(distinct_keys(members)) by {
        assert forall|i: int, j: int| 0 <= i < j < members.len() implies (#[trigger] members[i]).0 != (
        #[trigger] members[j]).0 by {
            assert(members[i].0 == fields[i].0 && members[j].0 == fields[j].0);
        }
    }
    lemma_collect_distinct(members);
    assert(keys_of(members) =~= keys_of(fields));
}

/// A value made of what JSON has of its own reads back from its JSON value
/// as itself: same field names in the same order, same values.
pub proof fn lemma_json_round_trip(d: DatumView)
    requires
        json_native(d),
    ensures
        datum_of(json_of(d)) == d,
    decreases d,
{
    match d {
        DatumView::List(items) => {
            assert forall|i: int| 0 <= i < items.len() implies datum_of(json_of(items[i]))
                == items[i] by {
                assert(json_native(items[i]));
                lemma_json_round_trip(items[i]);
            }
            assert(data_of(json_items(items)) =~= items);
        },
        DatumView::Record(fields) => {
            lemma_record_json_keeps_order(fields);
            assert forall|i: int| 0 <= i < fields.len() implies datum_of(json_of(fields[i].1))
                == fields[i].1 by {
                assert(json_native(fields[i].1));
                lemma_json_round_trip(fields[i].1);
            }
            assert(fields_of(json_fields(fields)) =~= fields);
        },
        _ => {},
    }
}

/// The bytes of the JSON text of `j`; no bytes where it has no text.
pub open spec fn json_bytes_of(j: Json) -> Seq<u8> {
    match json_text(j) {
        Some(text) => encode_utf8(text),
        None => Seq::empty(),
    }
}

/// The text of a boolean.
pub open spec fn bool_text(b: bool) -> Seq<char> {
    if b {
        "true"@
    } else {
        "false"@
    }
}

/// The bytes that stand for `d` in the body of a response.
///
/// Text goes out in UTF-8, an integer as its decimal numeral, a boolean as
/// `true` or `false`, raw bytes as they are, a list or a record as its JSON
/// text; no value gives no bytes.
pub open spec fn body_of(d: DatumView) -> Seq<u8> {
    match d {
        DatumView::Nothing => Seq::empty(),
        DatumView::Bool(b) => encode_utf8(bool_text(b)),
        DatumView::Int(i) => encode_utf8(signed_decimal(i as int)),
        DatumView::Float { text, json } => encode_utf8(text),
        DatumView::Text(s) => encode_utf8(s),
        DatumView::Binary { bytes, debug } => bytes,
        DatumView::List(items) => json_bytes_of(json_of(d)),
        DatumView::Record(fields) => json_bytes_of(json_of(d)),
        DatumView::Other(text) => encode_utf8(text),
    }
}

/// Builds the JSON value that stands for `value`.
#[verifier::loop_isolation(false)]
pub fn value_to_json(value: &Datum) -> (json: serde_json::Value)
    ensures
        json_view(json) == json_of(value@),
    decreases *value,
{
    match value {
        Datum::Nothing => json_null(),
        Datum::Bool(b) => json_bool(*b),
        Datum::Int(i) => json_int(*i),
        Datum::Float { text, json } => json.clone(),
        Datum::Text(s) => json_string(s.clone()),
        Datum::Binary { bytes, debug } => json_string(debug.clone()),
        Datum::List(items) => {
            let mut out: Vec<serde_json::Value> = Vec::new();
            let mut i: usize = 0;
            while i < items.len()
                invariant
                    i <= items.len(),
                    out@.len() == i,
                    forall|k: int| 0 <= k < i ==> json_view(#[trigger] out@[k]) == json_of(items@[k]@),
                decreases items.len() - i,
            {
                let item = value_to_json(&items[i]);
                out.push(item);
                i = i + 1;
            }
            let json = json_array(out);
            proof {
                assert(json_view(json)->Array_0 =~= json_items(item_views(items@)));
            }
            json
        },
        Datum::Record(fields) => {
            let ghost pairs = json_fields(field_views(fields@));
            let mut map = json_map_new();
            let mut i: usize = 0;
            while i < fields.len()
                invariant
                    i <= fields.len(),
                    json_entries(map) == assoc_collect(pairs.take(i as int)),
                decreases fields.len() - i,
            {
                let key = fields[i].0.clone();
                let member = value_to_json(&fields[i].1);
                proof {
                    assert(pairs.take(i + 1).drop_last() =~= pairs.take(i as int));
                    assert(pairs.take(i + 1).last() == pairs[i as int]);
                }
                json_map_insert(&mut map, key, member);
                i = i + 1;
            }
            let json = json_object(map);
            proof {
                assert(pairs.take(i as int) =~= pairs);
            }
            json
        },
        Datum::Other(text) => json_string(text.clone()),
    }
}

/// The bytes of a serialized text; no bytes where there is no text.
pub fn text_or_empty(text: Option<String>) -> (bytes: Vec<u8>)
    ensures
        bytes@ == match text {
            Some(t) => encode_utf8(t@),
            None => Seq::empty(),
        },
{
    match text {
        Some(t) => t.as_str().as_bytes_vec(),
        None => Vec::new(),
    }
}

/// The bytes of the JSON text of `json`; no bytes where serializing fails.
pub fn json_bytes(json: &serde_json::Value) -> (bytes: Vec<u8>)
    ensures
        bytes@ == json_bytes_of(json_view(*json)),
{
    let text = match json_to_string(json) {
        Ok(t) => Some(t),
        Err(_) => None,
    };
    text_or_empty(text)
}

/// The bytes that stand for `value` in the body of a response.
pub fn value_to_bytes(value: Datum) -> (bytes: Vec<u8>)
    ensures
        bytes@ == body_of(value@),
{
    match value {
        Datum::Nothing => Vec::new(),
        Datum::Text(s) => s.as_str().as_bytes_vec(),
        Datum::Int(i) => signed_decimal_text(i).as_str().as_bytes_vec(),
        Datum::Float { text, json } => text.as_str().as_bytes_vec(),
        Datum::Binary { bytes, debug } => bytes,
        Datum::Bool(b) => {
            if b {
                "true".as_bytes_vec()
            } else {
                "false".as_bytes_vec()
            }
        },
        Datum::List(_) => {
            let json = value_to_json(&value);
            json_bytes(&json)
        },
        Datum::Record(_) => {
            let json = value_to_json(&value);
            json_bytes(&json)
        },
        Datum::Other(text) => text.as_str().as_bytes_vec(),
    }
}

} // verus!
