//! From records to the dataset document: the rows are transformed, short
//! trips are dropped, the number of rows is capped, and what is left is
//! serialized.

use crate::dataset::{dataset_json, field_names, Data, Dataset, Field, Info};
use crate::json::Json;
use crate::record::{transform_all_spec, transform_records, SourceRecord, TransformError};
use crate::row::{row_models, Row, RowView, TaggedRow};
use vstd::prelude::*;

verus! {

/// What the caller asks of the rows of a dataset.
#[derive(Clone, Copy, Debug, PartialEq, Eq)]
pub struct Options {
    /// Rows whose geometry has fewer vertices than this are dropped.
    pub min_trip_size: usize,
    /// At most this many rows are written, where a limit is set.
    pub limit: Option<usize>,
}

/// The test that a row has at least `min_trip_size` vertices.
pub open spec fn has_vertices(min_trip_size: usize) -> spec_fn(RowView) -> bool {
    |row: RowView| row.geometry.len() >= min_trip_size
}

/// The same test, on a row of any type.
pub open spec fn long_enough<R: Row>(min_trip_size: usize) -> spec_fn(R) -> bool {
    |row: R| has_vertices(min_trip_size)(row.model())
}

/// The rows that survive a cap of `limit` rows: the first `limit`, or all
/// of them where there are fewer or where no cap is set.
pub open spec fn capped<A>(rows: Seq<A>, limit: Option<usize>) -> Seq<A> {
    match limit {
        Some(n) => if n < rows.len() {
            rows.take(n as int)
        } else {
            rows
        },
        None => rows,
    }
}

/// The rows that are written: those with enough vertices, in their order,
/// and of these no more than the limit.
pub open spec fn selected(rows: Seq<RowView>, options: Options) -> Seq<RowView> {
    capped(rows.filter(has_vertices(options.min_trip_size)), options.limit)
}

/// Filtering rows and then asking what they are gives what filtering their
/// models gives.
pub proof fn lemma_filter_models<R: Row>(rows: Seq<R>, min_trip_size: usize)
    ensures
        row_models(rows.filter(long_enough::<R>(min_trip_size))) == row_models(rows).filter(
            has_vertices(min_trip_size),
        ),
    decreases rows.len(),
{
    reveal(Seq::filter);
    let keep = long_enough::<R>(min_trip_size);
    if rows.len() == 0 {
        assert(row_models(rows.filter(keep)) =~= row_models(rows).filter(
            has_vertices(min_trip_size),
        ));
    } else {
        let front = rows.drop_last();
        lemma_filter_models(front, min_trip_size);
        assert(row_models(rows).drop_last() =~= row_models(front));
        assert(row_models(rows).last() == rows.last().model());
        if keep(rows.last()) {
            assert(row_models(front.filter(keep).push(rows.last())) =~= row_models(
                front.filter(keep),
            ).push(rows.last().model()));
        }
    }
}

/// Capping rows and then asking what they are gives what capping their
/// models gives.
pub proof fn lemma_capped_models<R: Row>(rows: Seq<R>, limit: Option<usize>)
    ensures
        row_models(capped(rows, limit)) == capped(row_models(rows), limit),
{
    assert(row_models(capped(rows, limit)) =~= capped(row_models(rows), limit));
}

/// Keeps the rows whose geometry has at least `min_trip_size` vertices, in
/// their order, and drops the others.
pub fn filter_min_trip_size<R: Row>(rows: Vec<R>, min_trip_size: usize) -> (kept: Vec<R>)
    ensures
        kept@ == rows@.filter(long_enough::<R>(min_trip_size)),
        row_models(kept@) == row_models(rows@).filter(has_vertices(min_trip_size)),
        forall|i: int|
            0 <= i < kept.len() ==> (#[trigger] kept@[i]).model().geometry.len() >= min_trip_size,
{
    let mut kept: Vec<R> = Vec::new();
    proof {
        reveal(Seq::filter);
    }
    for row in it: rows
        invariant
            it.seq() == rows@,
            kept@ == rows@.take(it.index() as int).filter(long_enough::<R>(min_trip_size)),
    {
        proof {
            let i = it.index() as int;
            assert(rows@.take(i + 1) == rows@.take(i).push(rows@[i]));
            rows@.take(i).lemma_filter_push(rows@[i], long_enough::<R>(min_trip_size));
        }
        if row.coordinate_count() >= min_trip_size {
            kept.push(row);
        }
    }
    proof {
        assert(rows@.take(rows@.len() as int) == rows@);
        lemma_filter_models(rows@, min_trip_size);
        assert forall|i: int| 0 <= i < kept.len() implies (#[trigger] kept@[i]).model().geometry
            .len() >= min_trip_size by {
            rows@.lemma_filter_pred(long_enough::<R>(min_trip_size), i);
        }
    }
    kept
}

/// Caps the number of rows: keeps the first `limit` of them where a limit
/// is set and there are more, and all of them otherwise.
pub fn limit_rows<R>(rows: Vec<R>, limit: Option<usize>) -> (kept: Vec<R>)
    ensures
        kept@ == capped(rows@, limit),
{
    let mut kept = rows;
    match limit {
        Some(n) => {
            if n < kept.len() {
                kept.truncate(n);
            }
        },
        None => {},
    }
    kept
}

/// Builds the document of the dataset that `records` make up.
///
/// The records become rows of kind `kind`, in their order; a record whose
/// timestamps cannot all be read is left out. The rows with too few
/// vertices are dropped, then the limit is applied, and what is left is
/// serialized under `info` and `fields`. A record with a different number
/// of timestamps and coordinates ends the run with its error, and there is
/// no document.
pub fn build_document<'a>(
    records: Vec<SourceRecord>,
    kind: &str,
    options: &Options,
    info: Info<'a>,
    fields: &'a [Field<'a>],
) -> (result: Result<Json, TransformError>)
    ensures
        match result {
            Ok(document) => {
                &&& transform_all_spec(records@, kind@) is Ok
                &&& document@ == dataset_json(
                    info.id@,
                    info.label@,
                    field_names(fields@),
                    selected(transform_all_spec(records@, kind@)->Ok_0, *options),
                )
            },
            Err(e) => transform_all_spec(records@, kind@) == Err::<Seq<RowView>, TransformError>(e),
        },
{
    let rows = match transform_records(records, kind) {
        Ok(rows) => rows,
        Err(e) => {
            return Err(e);
        },
    };
    let ghost all = rows@;
    let rows = filter_min_trip_size(rows, options.min_trip_size);
    let ghost long = rows@;
    let rows = limit_rows(rows, options.limit);
    proof {
        lemma_capped_models(long, options.limit);
    }
    let dataset = Dataset::<TaggedRow> { info, data: Data { fields, rows: rows.as_slice() } };
    Ok(dataset.serialize())
}

} // verus!
