//! Screening the records that probes publish before they are forwarded:
//! which producer sent a record, when, and whether its rate limit lets it
//! through.

use vstd::prelude::*;

use crate::streamer::{str_equal, ProducerTable};
use crate::{Limiter, LimiterResult};

verus! {

#[verifier::external_type_specification]
#[verifier::external_body]
pub struct ExJsonValue(serde_json::Value);

/// A field of a decoded record, as far as forwarding reads it.
pub enum RecordField {
    /// JSON `null`.
    Null,
    /// A string.
    Text(String),
    /// A number that is a whole number between 0 and `u64::MAX`.
    Unsigned(u64),
    /// Any other value.
    Other,
}

/// A decoded record as forwarding reads it: the fields of its top-level map,
/// or anything else.
pub enum CborValue {
    /// A map, with its keys as text.
    Object(Vec<(String, RecordField)>),
    /// Any other item.
    Other,
}

/// What the CBOR item at the start of `b` becomes once decoded by `ciborium`
/// and turned into JSON by `serde_json`; `None` when either step fails.
pub uninterp spec fn cbor_decode(b: Seq<u8>) -> Option<CborValue>;

/// The JSON value that the CBOR item at the start of `b` becomes once decoded
/// by `ciborium` and turned into JSON by `serde_json`, where both succeed.
pub uninterp spec fn cbor_json(b: Seq<u8>) -> serde_json::Value;

/// Decodes the record at the start of `item`.
///
/// Calls `ciborium::de::from_reader` and then `serde_json::to_value`, and
/// reads the top level of the JSON value: an object's fields, with numbers
/// taken by `as_u64`.  The contract names that reading and the JSON value,
/// which is handed back for forwarding; both depend on the bytes alone.
#[verifier::external_body]
fn decode_record(item: &[u8]) -> (v: Option<(CborValue, serde_json::Value)>)
    ensures
        match v {
            Some(p) => cbor_decode(item@) == Some(p.0) && p.1 == cbor_json(item@),
            None => cbor_decode(item@) is None,
        },
{
    let value: ciborium::Value = ciborium::de::from_reader(item).ok()?;
    let json = serde_json::to_value(&value).ok()?;
    let view = match &json {
        serde_json::Value::Object(m) => CborValue::Object(m.iter().map(|(k, f)| (k.clone(), match f {
            serde_json::Value::Null => RecordField::Null,
            serde_json::Value::String(s) => RecordField::Text(s.clone()),
            serde_json::Value::Number(n) => n.as_u64().map_or(RecordField::Other, RecordField::Unsigned),
            _ => RecordField::Other,
        })).collect()),
        _ => CborValue::Other,
    };
    Some((view, json))
}

/// The value of the first field named `key`.
pub open spec fn field_of(fields: Seq<(String, RecordField)>, key: Seq<char>) -> Option<RecordField>
    decreases fields.len(),
{
    if fields.len() == 0 {
        None
    } else if fields[0].0@ == key {
        Some(fields[0].1)
    } else {
        field_of(fields.drop_first(), key)
    }
}

/// A field that is missing or `null`.
pub open spec fn absent(f: Option<RecordField>) -> bool {
    f is None || f.unwrap() is Null
}

/// The producer id a field gives: its text, or `"invalid id field"`.
pub open spec fn id_text(f: RecordField) -> Seq<char> {
    match f {
        RecordField::Text(s) => s@,
        _ => "invalid id field"@,
    }
}

/// The timestamp a field gives: its number, or 0.
pub open spec fn timestamp_value(f: RecordField) -> u64 {
    match f {
        RecordField::Unsigned(n) => n,
        _ => 0,
    }
}

/// The producer id and monotonic timestamp of a record; `None` when the
/// record is not a map or its `id` or `timestamp_monotonic` field is
/// missing or `null`.
pub open spec fn spec_record_header(v: CborValue) -> Option<(Seq<char>, u64)> {
    match v {
        CborValue::Object(fields) => {
            let id = field_of(fields@, "id"@);
            let ts = field_of(fields@, "timestamp_monotonic"@);
            if absent(id) || absent(ts) {
                None
            } else {
                Some((id_text(id.unwrap()), timestamp_value(ts.unwrap())))
            }
        },
        CborValue::Other => None,
    }
}

/// `h` is the executable form of the header `spec`.
pub open spec fn header_is(h: Option<(String, u64)>, spec: Option<(Seq<char>, u64)>) -> bool {
    &&& h is Some <==> spec is Some
    &&& h matches Some(p) ==> p.0@ == spec.unwrap().0 && p.1 == spec.unwrap().1
}

/// The value of the first field of `fields` named `key`.
fn find_field<'a>(fields: &'a Vec<(String, RecordField)>, key: &str) -> (r: Option<&'a RecordField>)
    ensures
        match r {
            Some(f) => field_of(fields@, key@) == Some(*f),
            None => field_of(fields@, key@) is None,
        },
{
    let n = fields.len();
    assert(fields@.skip(0) =~= fields@);
    for i in 0..n
        invariant
            n == fields@.len(),
            field_of(fields@, key@) == field_of(fields@.skip(i as int), key@),
    {
        assert(fields@.skip(i as int)[0] == fields@[i as int]);
        if str_equal(fields[i].0.as_str(), key) {
            return Some(&fields[i].1);
        }
        assert(fields@.skip(i as int).drop_first() =~= fields@.skip(i + 1));
    }
    assert(fields@.skip(n as int) =~= Seq::<(String, RecordField)>::empty());
    None
}

/// The producer id and monotonic timestamp of a decoded record.
pub fn record_header(v: &CborValue) -> (h: Option<(String, u64)>)
    ensures
        header_is(h, spec_record_header(*v)),
{
    match v {
        CborValue::Object(fields) => {
            let id = find_field(fields, "id");
            let ts = find_field(fields, "timestamp_monotonic");
            match (id, ts) {
                (Some(id), Some(ts)) => {
                    let id_string = match id {
                        RecordField::Null => return None,
                        RecordField::Text(s) => s.clone(),
                        _ => "invalid id field".to_owned(),
                    };
                    let timestamp = match ts {
                        RecordField::Null => return None,
                        RecordField::Unsigned(n) => *n,
                        _ => 0,
                    };
                    Some((id_string, timestamp))
                },
                _ => None,
            }
        },
        CborValue::Other => None,
    }
}

/// Decode the record at the start of `item` and read its header.
///
/// Returns the producer id, the monotonic timestamp and the record as JSON;
/// `None` when the record cannot be decoded or has no header.
pub fn screen_record(item: &[u8]) -> (r: Option<(String, u64, serde_json::Value)>)
    ensures
        match r {
            Some(t) => t.2 == cbor_json(item@),
            None => true,
        },
        header_is(
            match r {
                Some(t) => Some((t.0, t.1)),
                None => None,
            },
            match cbor_decode(item@) {
                Some(v) => spec_record_header(v),
                None => None,
            },
        ),
{
    match decode_record(item) {
        Some((view, json)) => match record_header(&view) {
            Some((id, timestamp)) => Some((id, timestamp, json)),
            None => None,
        },
        None => None,
    }
}

/// The producer ids once `id` is in the table.
pub open spec fn ids_with<L>(t: ProducerTable<L>, id: Seq<char>) -> Seq<Seq<char>> {
    if t.ids().contains(id) { t.ids() } else { t.ids().push(id) }
}

/// The limiters once `id` is in the table, a new producer getting `fresh`.
pub open spec fn limiters_with<L>(t: ProducerTable<L>, id: Seq<char>, fresh: L) -> Seq<L> {
    if t.ids().contains(id) { t.limiters() } else { t.limiters().push(fresh) }
}

/// `new_t` and `publish` are the outcome of a record from producer `id`
/// against the table `old_t`: a producer not seen before gets the limiter
/// `fresh`, and the record is published when the producer's limiter lets
/// one token through.
pub open spec fn admitted<L: Limiter>(old_t: ProducerTable<L>, new_t: ProducerTable<L>, id: Seq<char>, fresh: L, publish: bool) -> bool {
    &&& new_t.ids() == ids_with(old_t, id)
    &&& ids_with(old_t, id).contains(id)
    &&& forall|i: int|
        0 <= i < ids_with(old_t, id).len() && #[trigger] ids_with(old_t, id)[i] == id ==> {
            &&& new_t.limiters() == limiters_with(old_t, id, fresh).update(i, new_t.limiters()[i])
            &&& exists|res: LimiterResult| #[trigger] limiters_with(old_t, id, fresh)[i].consumes(1, new_t.limiters()[i], res) && publish == (res is Ok)
        }
}

/// Decide whether a record from producer `id` is forwarded: find the
/// producer's limiter, adding `fresh` for a producer not seen before, and
/// consume one token from it.
pub fn allow_record<L: Limiter>(table: &mut ProducerTable<L>, id: &str, fresh: L) -> (publish: bool)
    requires
        old(table).wf(),
        fresh.ready(),
        forall|i: int| 0 <= i < old(table).ids().len() && old(table).ids()[i] == id@ ==> #[trigger] old(table).limiters()[i].ready(),
    ensures
        final(table).wf(),
        admitted(*old(table), *final(table), id@, fresh, publish),
{
    let ghost lims = limiters_with(*old(table), id@, fresh);
    let ghost ids = ids_with(*old(table), id@);
    let i = table.index_or_insert(id, fresh);
    proof {
        if old(table).ids().contains(id@) {
            assert(old(table).limiters()[i as int].ready());
        }
    }
    assert(lims[i as int].ready());
    let l = table.limiter_mut(i);
    let res = l.try_consume_one();
    let publish = res.is_ok();
    assert(lims[i as int].consumes(1, table.limiters()[i as int], res));
    assert(ids[i as int] == id@);
    assert(table.limiters() =~= lims.update(i as int, table.limiters()[i as int]));
    proof {
        table.lemma_ids_distinct();
    }
    assert forall|j: int| 0 <= j < ids.len() && #[trigger] ids[j] == id@ implies {
        &&& table.limiters() == lims.update(j, table.limiters()[j])
        &&& exists|r: LimiterResult| #[trigger] lims[j].consumes(1, table.limiters()[j], r) && publish == (r is Ok)
    } by {
        assert(j == i);
    }
    publish
}

} // verus!
