//! From a source record to a row: the length check, the timestamps, the
//! geometry, and the metadata carried through.

use crate::geometry::{
    line_positions, trip_positions, Coordinate, Feature, LineString, ELEVATION,
};
use crate::json::{views, Json, JsonView};
use crate::row::{row_models, RowView, TaggedRow};
use crate::timestamp::{
    all_some, convert, count_some, parse_all, parsed_epoch, unwrapped, ConversionError,
    TIMESTAMP_FORMAT,
};
use vstd::prelude::*;

verus! {

/// One moving feature as it arrives: who it is, what else is known of it,
/// where it went, and, for a trip, when it was at each place.
#[derive(Debug, PartialEq, Eq)]
pub struct SourceRecord {
    pub id: u64,
    pub metadata: Vec<Json>,
    pub coordinates: Vec<Coordinate>,
    pub timestamps: Option<Vec<String>>,
}

/// Why a record did not become a row.
#[derive(Clone, Copy, Debug, PartialEq, Eq)]
pub enum TransformError {
    /// The record has `timestamps` timestamps for `coordinates` coordinates.
    InvariantViolation { coordinates: usize, timestamps: usize },
    /// The timestamps could not all be read.
    Conversion(ConversionError),
}

/// The metadata of the row of a record: its identifier, then the record's
/// own metadata in their order.
pub open spec fn row_metadata(id: u64, metadata: Seq<JsonView>) -> Seq<JsonView> {
    seq![JsonView::UInt(id)] + metadata
}

/// The row of kind `kind` that a record becomes, or why it becomes none.
///
/// The lengths are compared before any timestamp is read; then the
/// timestamps are read, all or nothing; then the geometry is built.
pub open spec fn transform_spec(record: SourceRecord, kind: Seq<char>) -> Result<
    RowView,
    TransformError,
> {
    let metadata = row_metadata(record.id, views(record.metadata@));
    match record.timestamps {
        None => Ok(RowView { kind, geometry: line_positions(record.coordinates@), metadata }),
        Some(strings) => {
            let parsed = parse_all(strings@, TIMESTAMP_FORMAT@);
            if strings@.len() != record.coordinates@.len() {
                Err(
                    TransformError::InvariantViolation {
                        coordinates: record.coordinates@.len() as usize,
                        timestamps: strings@.len() as usize,
                    },
                )
            } else if !all_some(parsed) {
                Err(
                    TransformError::Conversion(
                        ConversionError::Lossy {
                            expected: strings@.len() as usize,
                            got: count_some(parsed) as usize,
                        },
                    ),
                )
            } else {
                Ok(
                    RowView {
                        kind,
                        geometry: trip_positions(record.coordinates@, unwrapped(parsed)),
                        metadata,
                    },
                )
            }
        },
    }
}

/// A record with as many timestamps as coordinates, all of them readable,
/// becomes a trip whose i-th vertex is the i-th coordinate at elevation
/// zero, reached at the epoch second of the i-th timestamp.
pub proof fn lemma_trip_vertices(record: SourceRecord, kind: Seq<char>)
    requires
        record.timestamps is Some,
        record.timestamps->Some_0@.len() == record.coordinates@.len(),
        all_some(parse_all(record.timestamps->Some_0@, TIMESTAMP_FORMAT@)),
    ensures
        transform_spec(record, kind) is Ok,
        transform_spec(record, kind)->Ok_0.geometry.len() == record.coordinates@.len(),
        forall|i: int|
            0 <= i < record.coordinates@.len() ==> {
                let vertex = #[trigger] transform_spec(record, kind)->Ok_0.geometry[i];
                &&& vertex.x == record.coordinates@[i].x
                &&& vertex.y == record.coordinates@[i].y
                &&& vertex.z == ELEVATION
                &&& vertex.t == parsed_epoch(record.timestamps->Some_0@[i]@, TIMESTAMP_FORMAT@)
            },
{
    let parsed = parse_all(record.timestamps->Some_0@, TIMESTAMP_FORMAT@);
    assert forall|i: int| 0 <= i < record.coordinates@.len() implies Some(unwrapped(parsed)[i])
        == parsed_epoch(record.timestamps->Some_0@[i]@, TIMESTAMP_FORMAT@) by {
        assert(parsed[i] is Some);
    }
}

/// A record with a different number of timestamps and coordinates becomes
/// no row: the transformation fails with the two lengths, whatever the
/// timestamps hold.
pub proof fn lemma_length_mismatch(record: SourceRecord, kind: Seq<char>)
    requires
        record.timestamps is Some,
        record.timestamps->Some_0@.len() != record.coordinates@.len(),
    ensures
        transform_spec(record, kind) == Err::<RowView, TransformError>(
            TransformError::InvariantViolation {
                coordinates: record.coordinates@.len() as usize,
                timestamps: record.timestamps->Some_0@.len() as usize,
            },
        ),
{
}

/// Turns a record into a row of kind `kind`.
///
/// A record without timestamps gives a plain line. One with timestamps
/// gives a trip, provided that there are as many timestamps as coordinates
/// and that every timestamp can be read; otherwise the error says which of
/// the two failed, and there is no row.
pub fn transform(record: SourceRecord, kind: &str) -> (result: Result<TaggedRow, TransformError>)
    ensures
        match result {
            Ok(row) => transform_spec(record, kind@) == Ok::<RowView, TransformError>(row@),
            Err(e) => transform_spec(record, kind@) == Err::<RowView, TransformError>(e),
        },
{
    let SourceRecord { id, metadata, coordinates, timestamps } = record;
    let geometry = match timestamps {
        None => LineString::line(&coordinates),
        Some(strings) => {
            if strings.len() != coordinates.len() {
                return Err(
                    TransformError::InvariantViolation {
                        coordinates: coordinates.len(),
                        timestamps: strings.len(),
                    },
                );
            }
            match convert(&strings, TIMESTAMP_FORMAT) {
                Ok(epochs) => LineString::trip(&coordinates, &epochs),
                Err(e) => {
                    return Err(TransformError::Conversion(e));
                },
            }
        },
    };
    let mut cells = metadata;
    cells.insert(0, Json::UInt(id));
    assert(views(cells@) =~= row_metadata(id, views(metadata@)));
    Ok(TaggedRow { kind: kind.to_owned(), feature: Feature { geometry }, metadata: cells })
}

/// The rows that a sequence of records becomes, in the order of the
/// records, or why the run ends without any.
///
/// A record whose timestamps cannot all be read gives no row and the run
/// goes on. A record with a different number of timestamps and coordinates
/// ends the run with its error.
pub open spec fn transform_all_spec(records: Seq<SourceRecord>, kind: Seq<char>) -> Result<
    Seq<RowView>,
    TransformError,
>
    decreases records.len(),
{
    if records.len() == 0 {
        Ok(Seq::empty())
    } else {
        match transform_all_spec(records.drop_last(), kind) {
            Err(e) => Err(e),
            Ok(rows) => match transform_spec(records.last(), kind) {
                Ok(row) => Ok(rows.push(row)),
                Err(TransformError::Conversion(_)) => Ok(rows),
                Err(e) => Err(e),
            },
        }
    }
}

/// Once the run has ended with an error, more records do not change it.
pub proof fn lemma_failure_is_final(records: Seq<SourceRecord>, kind: Seq<char>, n: int)
    requires
        0 <= n <= records.len(),
        transform_all_spec(records.take(n), kind) is Err,
    ensures
        transform_all_spec(records, kind) == transform_all_spec(records.take(n), kind),
    decreases records.len() - n,
{
    if n == records.len() {
        assert(records.take(n) == records);
    } else {
        assert(records.take(n + 1).drop_last() == records.take(n));
        lemma_failure_is_final(records, kind, n + 1);
    }
}

/// Turns records into rows of kind `kind`, in the order of the records.
///
/// A record whose timestamps cannot all be read is left out. The first
/// record with a different number of timestamps and coordinates ends the
/// run: its error is returned and no row is.
pub fn transform_records(records: Vec<SourceRecord>, kind: &str) -> (result: Result<
    Vec<TaggedRow>,
    TransformError,
>)
    ensures
        match result {
            Ok(rows) => transform_all_spec(records@, kind@) == Ok::<Seq<RowView>, TransformError>(
                row_models(rows@),
            ),
            Err(e) => transform_all_spec(records@, kind@) == Err::<Seq<RowView>, TransformError>(
                e,
            ),
        },
{
    let mut rows: Vec<TaggedRow> = Vec::new();
    assert(row_models(rows@) =~= Seq::<RowView>::empty());
    for record in it: records
        invariant
            it.seq() == records@,
            transform_all_spec(records@.take(it.index() as int), kind@) == Ok::<
                Seq<RowView>,
                TransformError,
            >(row_models(rows@)),
    {
        let ghost i = it.index() as int;
        let ghost before = row_models(rows@);
        proof {
            assert(records@.take(i + 1).drop_last() == records@.take(i));
            assert(records@.take(i + 1).last() == record);
        }
        match transform(record, kind) {
            Ok(row) => {
                rows.push(row);
                assert(row_models(rows@) =~= before.push(row@));
            },
            Err(TransformError::Conversion(_)) => {},
            Err(e) => {
                proof {
                    lemma_failure_is_final(records@, kind@, i + 1);
                }
                return Err(e);
            },
        }
    }
    assert(records@.take(records@.len() as int) == records@);
    Ok(rows)
}

} // verus!
