//! The records that the service stores and hands out.

use crate::document::{Document, Json, Number};
use crate::instant::Instant;
use vstd::prelude::*;

verus! {

/// The view of optional text.
pub open spec fn opt_text(s: Option<String>) -> Option<Seq<char>> {
    match s {
        Some(t) => Some(t@),
        None => None,
    }
}

/// Why a store operation failed.
#[derive(Clone, Copy, Debug, PartialEq, Eq, Structural)]
pub enum StoreError {
    /// The table holds as many rows as there are identifiers.
    Full,
    /// The backing store reported a failure.
    Failed,
}

/// Why a fetch cycle failed.
#[derive(Clone, Copy, Debug, PartialEq, Eq, Structural)]
pub enum FetchError {
    /// The source could not be reached, or did not answer in time.
    Transport,
    /// The source answered with a status outside 200 to 299.
    UpstreamStatus(u16),
    /// The body was not a document.
    Parse,
    /// The result could not be stored.
    Store(StoreError),
}

/// The liveness answer.
#[derive(Clone, Copy, Debug, PartialEq, Eq)]
pub struct Health {
    pub status: &'static str,
    pub now: Instant,
}

/// One fetch of the satellite position.
#[derive(Debug, PartialEq, Eq)]
pub struct PositionSample {
    pub id: i64,
    pub fetched_at: Instant,
    pub source_url: String,
    pub payload: Document,
}

pub struct PositionSampleView {
    pub id: int,
    pub fetched_at: Instant,
    pub source_url: Seq<char>,
    pub payload: Json,
}

impl View for PositionSample {
    type V = PositionSampleView;

    open spec fn view(&self) -> PositionSampleView {
        PositionSampleView {
            id: self.id as int,
            fetched_at: self.fetched_at,
            source_url: self.source_url@,
            payload: self.payload@,
        }
    }
}

/// What a source says of one dataset: the fields of a catalogue row that
/// come from the source.
#[derive(Debug, PartialEq, Eq)]
pub struct CatalogueEntry {
    pub dataset_id: Option<String>,
    pub title: Option<String>,
    pub status: Option<String>,
    pub updated_at: Option<Instant>,
    pub raw: Document,
}

pub struct CatalogueEntryView {
    pub dataset_id: Option<Seq<char>>,
    pub title: Option<Seq<char>>,
    pub status: Option<Seq<char>>,
    pub updated_at: Option<Instant>,
    pub raw: Json,
}

impl View for CatalogueEntry {
    type V = CatalogueEntryView;

    open spec fn view(&self) -> CatalogueEntryView {
        CatalogueEntryView {
            dataset_id: opt_text(self.dataset_id),
            title: opt_text(self.title),
            status: opt_text(self.status),
            updated_at: self.updated_at,
            raw: self.raw@,
        }
    }
}

/// A row of the catalogue.
#[derive(Debug, PartialEq, Eq)]
pub struct CatalogueItem {
    pub id: i64,
    pub inserted_at: Instant,
    pub entry: CatalogueEntry,
}

pub struct CatalogueItemView {
    pub id: int,
    pub inserted_at: Instant,
    pub entry: CatalogueEntryView,
}

impl View for CatalogueItem {
    type V = CatalogueItemView;

    open spec fn view(&self) -> CatalogueItemView {
        CatalogueItemView { id: self.id as int, inserted_at: self.inserted_at, entry: self.entry@ }
    }
}

/// One snapshot of a source's answer.
#[derive(Debug, PartialEq, Eq)]
pub struct SpaceCacheItem {
    pub source: String,
    pub fetched_at: Instant,
    pub payload: Document,
}

pub struct SpaceCacheItemView {
    pub source: Seq<char>,
    pub fetched_at: Instant,
    pub payload: Json,
}

impl View for SpaceCacheItem {
    type V = SpaceCacheItemView;

    open spec fn view(&self) -> SpaceCacheItemView {
        SpaceCacheItemView {
            source: self.source@,
            fetched_at: self.fetched_at,
            payload: self.payload@,
        }
    }
}

/// A field that may be read as a measurement: a number, or text that may
/// spell one.
#[derive(Debug, PartialEq, Eq)]
pub enum Reading {
    Number(Number),
    Text(String),
}

impl View for Reading {
    type V = Json;

    open spec fn view(&self) -> Json {
        match self {
            Reading::Number(n) => n@,
            Reading::Text(s) => Json::Text(s@),
        }
    }
}

/// The view of an optional reading.
pub open spec fn opt_reading(r: Option<Reading>) -> Option<Json> {
    match r {
        Some(x) => Some(x@),
        None => None,
    }
}

/// What the two newest samples say, before any measurement is read: the
/// time between them and the fields from which position and speed are read.
#[derive(Debug, PartialEq, Eq)]
pub struct TrendReadings {
    /// Time from the older sample to the newer, in milliseconds.
    pub dt_millis: i64,
    /// The newer sample's speed.
    pub velocity: Option<Reading>,
    pub from_time: Option<Instant>,
    pub to_time: Option<Instant>,
    pub from_lat: Option<Reading>,
    pub from_lon: Option<Reading>,
    pub to_lat: Option<Reading>,
    pub to_lon: Option<Reading>,
}

pub struct TrendReadingsView {
    pub dt_millis: int,
    pub velocity: Option<Json>,
    pub from_time: Option<Instant>,
    pub to_time: Option<Instant>,
    pub from_lat: Option<Json>,
    pub from_lon: Option<Json>,
    pub to_lat: Option<Json>,
    pub to_lon: Option<Json>,
}

impl View for TrendReadings {
    type V = TrendReadingsView;

    open spec fn view(&self) -> TrendReadingsView {
        TrendReadingsView {
            dt_millis: self.dt_millis as int,
            velocity: opt_reading(self.velocity),
            from_time: self.from_time,
            to_time: self.to_time,
            from_lat: opt_reading(self.from_lat),
            from_lon: opt_reading(self.from_lon),
            to_lat: opt_reading(self.to_lat),
            to_lon: opt_reading(self.to_lon),
        }
    }
}

impl TrendReadingsView {
    /// The readings when there is nothing to compare: no time has passed
    /// and every field is absent.
    pub open spec fn empty() -> TrendReadingsView {
        TrendReadingsView {
            dt_millis: 0,
            velocity: None,
            from_time: None,
            to_time: None,
            from_lat: None,
            from_lon: None,
            to_lat: None,
            to_lon: None,
        }
    }

    /// Whether both positions are there, so that a distance can be taken.
    pub open spec fn complete(self) -> bool {
        self.from_lat is Some && self.from_lon is Some && self.to_lat is Some && self.to_lon
            is Some
    }
}

impl TrendReadings {
    /// Whether both positions are there.
    pub fn complete(&self) -> (r: bool)
        ensures
            r == self@.complete(),
    {
        self.from_lat.is_some() && self.from_lon.is_some() && self.to_lat.is_some()
            && self.to_lon.is_some()
    }
}

/// How the satellite moved between its two newest samples. `F` is the type
/// of a measurement.
#[derive(Clone, Copy, Debug, PartialEq)]
pub struct Trend<F> {
    /// Whether the satellite moved by more than the threshold.
    pub movement: bool,
    /// The great-circle distance between the two positions.
    pub delta_km: F,
    /// The time from the older sample to the newer, in seconds.
    pub dt_sec: F,
    /// The newer sample's speed.
    pub velocity_kmh: Option<F>,
    pub from_time: Option<Instant>,
    pub to_time: Option<Instant>,
    pub from_lat: Option<F>,
    pub from_lon: Option<F>,
    pub to_lat: Option<F>,
    pub to_lon: Option<F>,
}

impl<F> Trend<F> {
    /// The trend when there is nothing to compare: no movement, `zero` for
    /// distance and time, and every other field absent.
    pub open spec fn still(zero: F) -> Trend<F> {
        Trend {
            movement: false,
            delta_km: zero,
            dt_sec: zero,
            velocity_kmh: None,
            from_time: None,
            to_time: None,
            from_lat: None,
            from_lon: None,
            to_lat: None,
            to_lon: None,
        }
    }

    /// Whether both positions were measured.
    pub open spec fn complete(self) -> bool {
        self.from_lat is Some && self.from_lon is Some && self.to_lat is Some && self.to_lon
            is Some
    }
}

} // verus!
