//! Decoding the two payloads: the history index (a JSON array of
//! entries) and one snapshot (a JSON array of area objects), with the
//! snapshot's timestamp attached to every record after decoding.

use vstd::prelude::*;
use crate::json::{
    canon_number_text, float_text_of, json_of, lookup, lookup_field, parse_json_text, JsonNum,
    JsonVal,
};
use crate::model::{AreaRecView, AreaRecord, HistoryEntry, HistoryEntryView, ParseError};
use crate::model::{entry_views, rec_views};
use crate::strutil::{dec_str_int, i64_to_string};
use crate::timefmt::{text_csv_safe, utc_renderable, utc_text_of, utc_time_text};

verus! {

/// The canonical text of a decoded JSON number.
pub open spec fn num_text(n: JsonNum) -> Seq<char> {
    match n {
        JsonNum::Int(i) => dec_str_int(i as int),
        JsonNum::Other(s) => s@,
    }
}

fn num_text_exec(n: &JsonNum) -> (s: String)
    ensures
        s@ == num_text(*n),
{
    match n {
        JsonNum::Int(i) => i64_to_string(*i),
        JsonNum::Other(s) => s.clone(),
    }
}

/// The field holding the category label: `type` when present, else
/// `area_type`. The upstream schema has used both spellings.
pub open spec fn category_field(fields: Seq<(String, JsonVal)>) -> Option<JsonVal> {
    if lookup(fields, "type"@) is Some {
        lookup(fields, "type"@)
    } else {
        lookup(fields, "area_type"@)
    }
}

/// Both known spellings of the category field reach the same logical
/// attribute; when both are present, `type` wins, deterministically.
pub proof fn lemma_category_fallback(fields: Seq<(String, JsonVal)>)
    ensures
        lookup(fields, "type"@) is Some ==> category_field(fields) == lookup(fields, "type"@),
        lookup(fields, "type"@) is None ==> category_field(fields) == lookup(
            fields,
            "area_type"@,
        ),
{
}

/// What decoding one area object of snapshot `ts` must yield: the record,
/// or the first requirement the object failed.
pub open spec fn area_view_of_obj(fields: Seq<(String, JsonVal)>, ts: i64) -> Result<
    AreaRecView,
    ParseError,
> {
    match lookup(fields, "hash"@) {
        Option::None => Err(ParseError::MissingHash),
        Option::Some(hv) => match hv {
            JsonVal::Str(h) => match lookup(fields, "area"@) {
                Option::None => Err(ParseError::MissingArea),
                Option::Some(av) => match av {
                    JsonVal::Num(n) => match lookup(fields, "percent"@) {
                        Option::None => Err(ParseError::MissingPercent),
                        Option::Some(pv) => match pv {
                            JsonVal::Str(p) => match float_text_of(p@) {
                                Option::None => Err(ParseError::PercentNotNumeric),
                                Option::Some(ptext) => match category_field(fields) {
                                    Option::None => Err(ParseError::MissingCategory),
                                    Option::Some(cv) => match cv {
                                        JsonVal::Str(c) => Ok(
                                            AreaRecView {
                                                time_index: ts as int,
                                                time_text: utc_text_of(ts as int),
                                                hash: h@,
                                                area: num_text(n),
                                                percent: ptext,
                                                area_type: c@,
                                            },
                                        ),
                                        _ => Err(ParseError::CategoryNotString),
                                    },
                                },
                            },
                            _ => Err(ParseError::PercentNotString),
                        },
                    },
                    _ => Err(ParseError::AreaNotNumber),
                },
            },
            _ => Err(ParseError::HashNotString),
        },
    }
}

/// Decode one area object, with the snapshot's timestamp already
/// rendered by the caller.
fn parse_area_record(fields: &Vec<(String, JsonVal)>, ts: i64, time_text: &String) -> (r: Result<
    AreaRecord,
    ParseError,
>)
    requires
        time_text@ == utc_text_of(ts as int),
    ensures
        (r is Ok) == (area_view_of_obj(fields@, ts) is Ok),
        r is Ok ==> r.unwrap()@ == area_view_of_obj(fields@, ts).unwrap(),
        r is Err ==> r->Err_0 == area_view_of_obj(fields@, ts)->Err_0,
{
    let hv = match lookup_field(fields, "hash") {
        Option::None => {
            return Err(ParseError::MissingHash);
        },
        Option::Some(x) => x,
    };
    let h = match hv {
        JsonVal::Str(h) => h,
        _ => {
            return Err(ParseError::HashNotString);
        },
    };
    let av = match lookup_field(fields, "area") {
        Option::None => {
            return Err(ParseError::MissingArea);
        },
        Option::Some(x) => x,
    };
    let area_text = match av {
        JsonVal::Num(n) => num_text_exec(n),
        _ => {
            return Err(ParseError::AreaNotNumber);
        },
    };
    let pv = match lookup_field(fields, "percent") {
        Option::None => {
            return Err(ParseError::MissingPercent);
        },
        Option::Some(x) => x,
    };
    let p = match pv {
        JsonVal::Str(p) => p,
        _ => {
            return Err(ParseError::PercentNotString);
        },
    };
    let ptext = match canon_number_text(p.as_str()) {
        Option::None => {
            return Err(ParseError::PercentNotNumeric);
        },
        Option::Some(t) => t,
    };
    let cv = match lookup_field(fields, "type") {
        Option::Some(x) => x,
        Option::None => match lookup_field(fields, "area_type") {
            Option::Some(x) => x,
            Option::None => {
                return Err(ParseError::MissingCategory);
            },
        },
    };
    let c = match cv {
        JsonVal::Str(c) => c,
        _ => {
            return Err(ParseError::CategoryNotString);
        },
    };
    Ok(
        AreaRecord {
            time_index: ts,
            time_text: time_text.clone(),
            hash: h.clone(),
            area: area_text,
            percent: ptext,
            area_type: c.clone(),
        },
    )
}

/// Prepend already-decoded records to the outcome of decoding the rest.
pub open spec fn compose_recs(
    prefix: Seq<AreaRecView>,
    rest: Result<Seq<AreaRecView>, ParseError>,
) -> Result<Seq<AreaRecView>, ParseError> {
    match rest {
        Ok(r) => Ok(prefix + r),
        Err(e) => Err(e),
    }
}

/// What decoding the elements of a snapshot array must yield, in order.
pub open spec fn areas_of_elems(elems: Seq<JsonVal>, ts: i64) -> Result<
    Seq<AreaRecView>,
    ParseError,
>
    decreases elems.len(),
{
    if elems.len() == 0 {
        Ok(Seq::empty())
    } else {
        match elems[0] {
            JsonVal::Obj(fs) => match area_view_of_obj(fs@, ts) {
                Err(e) => Err(e),
                Ok(r) => compose_recs(seq![r], areas_of_elems(elems.drop_first(), ts)),
            },
            _ => Err(ParseError::ElemNotObject),
        }
    }
}

/// What decoding a whole snapshot document must yield.
pub open spec fn snapshot_views_of(v: JsonVal, ts: i64) -> Result<Seq<AreaRecView>, ParseError> {
    match v {
        JsonVal::Arr(elems) => areas_of_elems(elems@, ts),
        _ => Err(ParseError::TopNotArray),
    }
}

/// What decoding a snapshot body (raw text) must yield.
pub open spec fn snapshot_of_text(body: Seq<char>, ts: i64) -> Result<
    Seq<AreaRecView>,
    ParseError,
> {
    match json_of(body) {
        Option::None => Err(ParseError::MalformedJson),
        Option::Some(v) => snapshot_views_of(v, ts),
    }
}

/// Decode a snapshot document whose timestamp the caller has already
/// rendered; exact in both the records and the error.
pub fn parse_snapshot_with_time(v: &JsonVal, ts: i64, time_text: &String) -> (r: Result<
    Vec<AreaRecord>,
    ParseError,
>)
    requires
        time_text@ == utc_text_of(ts as int),
        text_csv_safe(time_text@),
    ensures
        (r is Ok) == (snapshot_views_of(*v, ts) is Ok),
        r is Ok ==> rec_views(r.unwrap()@) == snapshot_views_of(*v, ts).unwrap(),
        r is Err ==> r->Err_0 == snapshot_views_of(*v, ts)->Err_0,
        r is Ok ==> forall|i: int|
            0 <= i < r.unwrap()@.len() ==> (#[trigger] r.unwrap()@[i]@).wf()
                && r.unwrap()@[i]@.time_index == ts as int,
{
    let elems = match v {
        JsonVal::Arr(elems) => elems,
        _ => {
            return Err(ParseError::TopNotArray);
        },
    };
    let n = elems.len();
    let mut acc: Vec<AreaRecord> = Vec::new();
    let mut i: usize = 0;
    assert(elems@.skip(0) =~= elems@);
    assert(rec_views(acc@) =~= Seq::<AreaRecView>::empty());
    while i < n
        invariant
            n == elems@.len(),
            0 <= i <= n,
            time_text@ == utc_text_of(ts as int),
            text_csv_safe(time_text@),
            snapshot_views_of(*v, ts) == areas_of_elems(elems@, ts),
            compose_recs(rec_views(acc@), areas_of_elems(elems@.skip(i as int), ts))
                == areas_of_elems(elems@, ts),
            forall|j: int|
                0 <= j < acc@.len() ==> (#[trigger] acc@[j]@).wf() && acc@[j]@.time_index
                    == ts as int,
        decreases n - i,
    {
        assert(elems@.skip(i as int)[0] == elems@[i as int]);
        assert(elems@.skip(i as int).drop_first() =~= elems@.skip(i + 1));
        let fs = match &elems[i] {
            JsonVal::Obj(fs) => fs,
            _ => {
                return Err(ParseError::ElemNotObject);
            },
        };
        match parse_area_record(fs, ts, time_text) {
            Ok(rec) => {
                let ghost old_acc = acc@;
                acc.push(rec);
                assert(rec_views(acc@) =~= rec_views(old_acc) + seq![rec@]);
                proof {
                    let rest = areas_of_elems(elems@.skip(i + 1), ts);
                    if rest is Ok {
                        assert((rec_views(old_acc) + seq![rec@]) + rest.unwrap() =~= rec_views(
                            old_acc,
                        ) + (seq![rec@] + rest.unwrap()));
                    }
                }
            },
            Err(e) => {
                return Err(e);
            },
        }
        i = i + 1;
    }
    assert(elems@.skip(n as int) =~= Seq::<JsonVal>::empty());
    assert(rec_views(acc@) + Seq::<AreaRecView>::empty() =~= rec_views(acc@));
    Ok(acc)
}

/// Decode a snapshot body and attach its timestamp to every record.
///
/// Success and failure track [`snapshot_of_text`] exactly; a timestamp
/// the date library's range cannot hold (and only such a timestamp, and
/// only once the body has proven to be JSON at all) ends in
/// [`ParseError::TimeOutOfRange`].
pub fn parse_snapshot(body: &str, ts: i64) -> (r: Result<Vec<AreaRecord>, ParseError>)
    ensures
        (r is Ok) == (snapshot_of_text(body@, ts) is Ok && utc_renderable(ts as int)),
        r is Ok ==> rec_views(r.unwrap()@) == snapshot_of_text(body@, ts).unwrap(),
        r is Err ==> r->Err_0 == (if json_of(body@) is None {
            ParseError::MalformedJson
        } else if !utc_renderable(ts as int) {
            ParseError::TimeOutOfRange
        } else {
            snapshot_of_text(body@, ts)->Err_0
        }),
        r is Ok ==> forall|i: int|
            0 <= i < r.unwrap()@.len() ==> (#[trigger] r.unwrap()@[i]@).wf()
                && r.unwrap()@[i]@.time_index == ts as int,
{
    let jv = match parse_json_text(body) {
        Option::None => {
            return Err(ParseError::MalformedJson);
        },
        Option::Some(v) => v,
    };
    let time_text = match utc_time_text(ts) {
        Option::None => {
            return Err(ParseError::TimeOutOfRange);
        },
        Option::Some(t) => t,
    };
    parse_snapshot_with_time(&jv, ts, &time_text)
}

proof fn lemma_areas_error_is_decode_error(elems: Seq<JsonVal>, ts: i64)
    requires
        areas_of_elems(elems, ts) is Err,
    ensures
        areas_of_elems(elems, ts)->Err_0 != ParseError::TimeOutOfRange,
    decreases elems.len(),
{
    if elems.len() > 0 {
        match elems[0] {
            JsonVal::Obj(fs) => {
                if area_view_of_obj(fs@, ts) is Ok && areas_of_elems(elems.drop_first(), ts)
                    is Err {
                    lemma_areas_error_is_decode_error(elems.drop_first(), ts);
                }
            },
            _ => {},
        }
    }
}

/// A decode failure of a snapshot body is one of the document's own
/// failures; the timestamp-range error never arises from the text.
pub proof fn lemma_snapshot_error_is_decode_error(body: Seq<char>, ts: i64)
    requires
        snapshot_of_text(body, ts) is Err,
    ensures
        snapshot_of_text(body, ts)->Err_0 != ParseError::TimeOutOfRange,
{
    match json_of(body) {
        Option::None => {},
        Option::Some(v) => match v {
            JsonVal::Arr(elems) => {
                lemma_areas_error_is_decode_error(elems@, ts);
            },
            _ => {},
        },
    }
}

proof fn lemma_timestamp_attached_elems(elems: Seq<JsonVal>, ts: i64)
    requires
        areas_of_elems(elems, ts) is Ok,
    ensures
        forall|i: int|
            0 <= i < areas_of_elems(elems, ts).unwrap().len() ==> (#[trigger] areas_of_elems(
                elems,
                ts,
            ).unwrap()[i]).time_index == ts as int && areas_of_elems(elems, ts).unwrap()[i].time_text
                == utc_text_of(ts as int),
    decreases elems.len(),
{
    if elems.len() == 0 {
    } else {
        lemma_timestamp_attached_elems(elems.drop_first(), ts);
    }
}

/// Every record a snapshot decodes to carries that snapshot's timestamp
/// — the history entry's identifier, read as epoch seconds — and its UTC
/// rendering; the wire format itself never supplies it.
pub proof fn lemma_timestamp_attached(body: Seq<char>, ts: i64)
    requires
        snapshot_of_text(body, ts) is Ok,
    ensures
        forall|i: int|
            0 <= i < snapshot_of_text(body, ts).unwrap().len() ==> (#[trigger] snapshot_of_text(
                body,
                ts,
            ).unwrap()[i]).time_index == ts as int && snapshot_of_text(body, ts).unwrap()[i].time_text
                == utc_text_of(ts as int),
{
    let v = json_of(body).unwrap();
    match v {
        JsonVal::Arr(elems) => {
            lemma_timestamp_attached_elems(elems@, ts);
        },
        _ => {},
    }
}

/// What decoding one history entry object must yield.
pub open spec fn entry_view_of_obj(fields: Seq<(String, JsonVal)>) -> Result<
    HistoryEntryView,
    ParseError,
> {
    match lookup(fields, "id"@) {
        Option::None => Err(ParseError::MissingId),
        Option::Some(iv) => match iv {
            JsonVal::Num(n) => match n {
                JsonNum::Int(id) => match lookup(fields, "updatedAt"@) {
                    Option::Some(JsonVal::Str(u)) => match lookup(fields, "datetime"@) {
                        Option::Some(JsonVal::Str(d)) => match lookup(fields, "status"@) {
                            Option::Some(JsonVal::Bool(st)) => match lookup(
                                fields,
                                "createdAt"@,
                            ) {
                                Option::Some(JsonVal::Str(c)) => Ok(
                                    HistoryEntryView {
                                        id: id as int,
                                        updated_at: u@,
                                        datetime: d@,
                                        status: st,
                                        created_at: c@,
                                    },
                                ),
                                _ => Err(ParseError::BadCreatedAt),
                            },
                            _ => Err(ParseError::BadStatus),
                        },
                        _ => Err(ParseError::BadDatetime),
                    },
                    _ => Err(ParseError::BadUpdatedAt),
                },
                _ => Err(ParseError::IdNotInteger),
            },
            _ => Err(ParseError::IdNotInteger),
        },
    }
}

/// Decode one history entry object; exact in the entry and the error.
fn parse_entry(fields: &Vec<(String, JsonVal)>) -> (r: Result<HistoryEntry, ParseError>)
    ensures
        (r is Ok) == (entry_view_of_obj(fields@) is Ok),
        r is Ok ==> r.unwrap()@ == entry_view_of_obj(fields@).unwrap(),
        r is Err ==> r->Err_0 == entry_view_of_obj(fields@)->Err_0,
{
    let iv = match lookup_field(fields, "id") {
        Option::None => {
            return Err(ParseError::MissingId);
        },
        Option::Some(x) => x,
    };
    let id = match iv {
        JsonVal::Num(JsonNum::Int(id)) => *id,
        _ => {
            return Err(ParseError::IdNotInteger);
        },
    };
    let u = match lookup_field(fields, "updatedAt") {
        Option::Some(JsonVal::Str(u)) => u,
        _ => {
            return Err(ParseError::BadUpdatedAt);
        },
    };
    let d = match lookup_field(fields, "datetime") {
        Option::Some(JsonVal::Str(d)) => d,
        _ => {
            return Err(ParseError::BadDatetime);
        },
    };
    let st = match lookup_field(fields, "status") {
        Option::Some(JsonVal::Bool(st)) => *st,
        _ => {
            return Err(ParseError::BadStatus);
        },
    };
    let c = match lookup_field(fields, "createdAt") {
        Option::Some(JsonVal::Str(c)) => c,
        _ => {
            return Err(ParseError::BadCreatedAt);
        },
    };
    Ok(
        HistoryEntry {
            id,
            updated_at: u.clone(),
            datetime: d.clone(),
            status: st,
            created_at: c.clone(),
        },
    )
}

/// Prepend already-decoded entries to the outcome of decoding the rest.
pub open spec fn compose_entries(
    prefix: Seq<HistoryEntryView>,
    rest: Result<Seq<HistoryEntryView>, ParseError>,
) -> Result<Seq<HistoryEntryView>, ParseError> {
    match rest {
        Ok(r) => Ok(prefix + r),
        Err(e) => Err(e),
    }
}

/// What decoding the elements of the index array must yield, in order.
pub open spec fn entries_of_elems(elems: Seq<JsonVal>) -> Result<Seq<HistoryEntryView>, ParseError>
    decreases elems.len(),
{
    if elems.len() == 0 {
        Ok(Seq::empty())
    } else {
        match elems[0] {
            JsonVal::Obj(fs) => match entry_view_of_obj(fs@) {
                Err(e) => Err(e),
                Ok(r) => compose_entries(seq![r], entries_of_elems(elems.drop_first())),
            },
            _ => Err(ParseError::ElemNotObject),
        }
    }
}

/// What decoding the history index body must yield.
pub open spec fn history_of_text(body: Seq<char>) -> Result<Seq<HistoryEntryView>, ParseError> {
    match json_of(body) {
        Option::None => Err(ParseError::MalformedJson),
        Option::Some(v) => match v {
            JsonVal::Arr(elems) => entries_of_elems(elems@),
            _ => Err(ParseError::TopNotArray),
        },
    }
}

/// Decode the history index body; exact in the entries and the error.
pub fn parse_history(body: &str) -> (r: Result<Vec<HistoryEntry>, ParseError>)
    ensures
        (r is Ok) == (history_of_text(body@) is Ok),
        r is Ok ==> entry_views(r.unwrap()@) == history_of_text(body@).unwrap(),
        r is Err ==> r->Err_0 == history_of_text(body@)->Err_0,
{
    let jv = match parse_json_text(body) {
        Option::None => {
            return Err(ParseError::MalformedJson);
        },
        Option::Some(v) => v,
    };
    let elems = match &jv {
        JsonVal::Arr(elems) => elems,
        _ => {
            return Err(ParseError::TopNotArray);
        },
    };
    let n = elems.len();
    let mut acc: Vec<HistoryEntry> = Vec::new();
    let mut i: usize = 0;
    assert(elems@.skip(0) =~= elems@);
    assert(entry_views(acc@) =~= Seq::<HistoryEntryView>::empty());
    while i < n
        invariant
            n == elems@.len(),
            0 <= i <= n,
            compose_entries(entry_views(acc@), entries_of_elems(elems@.skip(i as int)))
                == entries_of_elems(elems@),
            entries_of_elems(elems@) == history_of_text(body@),
        decreases n - i,
    {
        assert(elems@.skip(i as int)[0] == elems@[i as int]);
        assert(elems@.skip(i as int).drop_first() =~= elems@.skip(i + 1));
        let fs = match &elems[i] {
            JsonVal::Obj(fs) => fs,
            _ => {
                return Err(ParseError::ElemNotObject);
            },
        };
        match parse_entry(fs) {
            Ok(entry) => {
                let ghost old_acc = acc@;
                acc.push(entry);
                assert(entry_views(acc@) =~= entry_views(old_acc) + seq![entry@]);
                proof {
                    let rest = entries_of_elems(elems@.skip(i + 1));
                    if rest is Ok {
                        assert((entry_views(old_acc) + seq![entry@]) + rest.unwrap()
                            =~= entry_views(old_acc) + (seq![entry@] + rest.unwrap()));
                    }
                }
            },
            Err(e) => {
                return Err(e);
            },
        }
        i = i + 1;
    }
    assert(elems@.skip(n as int) =~= Seq::<JsonVal>::empty());
    assert(entry_views(acc@) + Seq::<HistoryEntryView>::empty() =~= entry_views(acc@));
    Ok(acc)
}

} // verus!
