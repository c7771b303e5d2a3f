//! Turns moving-feature trajectory records into a dataset document that a
//! map visualisation tool can load: a header, a list of column descriptors
//! and a list of rows, each row a geometry feature followed by its metadata.
//!
//! A record is transformed into a row ([`record`]), which checks that it has
//! as many timestamps as coordinates, reads the timestamps ([`timestamp`])
//! and builds the geometry ([`geometry`]). Rows may be filtered and capped
//! ([`pipeline`]) and are then serialized, together with the header and the
//! column descriptors, into a document ([`dataset`], [`json`]). Rows of
//! different kinds can share one sequence in tagged form ([`row`]).

pub mod dataset;
pub mod geojson;
pub mod geometry;
pub mod json;
pub mod pipeline;
pub mod record;
pub mod row;
pub mod timestamp;

pub use crate::dataset::{Data, Dataset, Field, Info};
pub use crate::geometry::{Coordinate, Feature, LineString, Position};
pub use crate::json::Json;
pub use crate::record::{SourceRecord, TransformError};
pub use crate::row::{Row, RowError, RowRegistry, TaggedRow};
pub use crate::timestamp::ConversionError;
