//! The data model: one entry of the history index, one area record of a
//! snapshot, and the errors a decode can end with.

use vstd::prelude::*;
use crate::timefmt::{text_csv_safe, utc_text_of};

verus! {

/// One entry of the history index. Its identifier doubles as the
/// snapshot's timestamp (epoch seconds) and as the key into the
/// per-snapshot endpoint.
#[derive(Debug)]
pub struct HistoryEntry {
    pub id: i64,
    pub updated_at: String,
    pub datetime: String,
    pub status: bool,
    pub created_at: String,
}

/// The mathematical image of a [`HistoryEntry`].
pub struct HistoryEntryView {
    pub id: int,
    pub updated_at: Seq<char>,
    pub datetime: Seq<char>,
    pub status: bool,
    pub created_at: Seq<char>,
}

impl View for HistoryEntry {
    type V = HistoryEntryView;

    open spec fn view(&self) -> HistoryEntryView {
        HistoryEntryView {
            id: self.id as int,
            updated_at: self.updated_at@,
            datetime: self.datetime@,
            status: self.status,
            created_at: self.created_at@,
        }
    }
}

/// One area record of a snapshot. Numeric measurements are carried in
/// their canonical decimal rendering; the snapshot's timestamp is
/// attached after decoding, both as epoch seconds and as the rendered
/// UTC instant.
#[derive(Debug)]
pub struct AreaRecord {
    pub time_index: i64,
    pub time_text: String,
    pub hash: String,
    pub area: String,
    pub percent: String,
    pub area_type: String,
}

/// The mathematical image of an [`AreaRecord`].
pub struct AreaRecView {
    pub time_index: int,
    pub time_text: Seq<char>,
    pub hash: Seq<char>,
    pub area: Seq<char>,
    pub percent: Seq<char>,
    pub area_type: Seq<char>,
}

impl View for AreaRecord {
    type V = AreaRecView;

    open spec fn view(&self) -> AreaRecView {
        AreaRecView {
            time_index: self.time_index as int,
            time_text: self.time_text@,
            hash: self.hash@,
            area: self.area@,
            percent: self.percent@,
            area_type: self.area_type@,
        }
    }
}

impl AreaRecView {
    /// The record's timestamp text is the UTC rendering of its epoch
    /// seconds, and that rendering cannot disturb the row layout.
    pub open spec fn wf(self) -> bool {
        &&& self.time_text == utc_text_of(self.time_index)
        &&& text_csv_safe(self.time_text)
    }
}

/// The views of a sequence of records.
pub open spec fn rec_views(rs: Seq<AreaRecord>) -> Seq<AreaRecView> {
    rs.map_values(|r: AreaRecord| r@)
}

/// The views of a sequence of history entries.
pub open spec fn entry_views(es: Seq<HistoryEntry>) -> Seq<HistoryEntryView> {
    es.map_values(|e: HistoryEntry| e@)
}

/// Why a payload could not be decoded. Each variant names the first
/// requirement the document failed.
#[derive(PartialEq, Eq, Structural, Clone, Copy, Debug)]
pub enum ParseError {
    /// The text is not valid JSON.
    MalformedJson,
    /// The document is not a JSON array.
    TopNotArray,
    /// An element of the array is not a JSON object.
    ElemNotObject,
    /// `hash` is absent.
    MissingHash,
    /// `hash` is not a string.
    HashNotString,
    /// `area` is absent.
    MissingArea,
    /// `area` is not a number.
    AreaNotNumber,
    /// `percent` is absent.
    MissingPercent,
    /// `percent` is not a string.
    PercentNotString,
    /// `percent` does not hold numeric text.
    PercentNotNumeric,
    /// Neither `type` nor `area_type` is present.
    MissingCategory,
    /// The category label is not a string.
    CategoryNotString,
    /// `id` is absent.
    MissingId,
    /// `id` is not a 64-bit integer.
    IdNotInteger,
    /// `updatedAt` is absent or not a string.
    BadUpdatedAt,
    /// `datetime` is absent or not a string.
    BadDatetime,
    /// `status` is absent or not a boolean.
    BadStatus,
    /// `createdAt` is absent or not a string.
    BadCreatedAt,
    /// The snapshot's timestamp cannot be rendered as a date.
    TimeOutOfRange,
}

} // verus!
