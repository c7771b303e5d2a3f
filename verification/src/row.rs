//! Rows: a feature followed by metadata values, of whatever kind the caller
//! defines, and the tagged form in which rows of different kinds share one
//! sequence.

use crate::geojson::{feature_json, json_feature, lemma_feature_round_trip, TYPE_KEY};
use crate::geometry::{Feature, LineString, Position};
use crate::json::{lookup, views, Json, JsonView};
use vstd::prelude::*;

verus! {

/// The key under which a tagged row holds its cells.
pub const VALUE_KEY: &'static str = "value";

/// What a row is: the tag of its kind, the vertices of its geometry, and its
/// metadata values in column order.
pub ghost struct RowView {
    pub kind: Seq<char>,
    pub geometry: Seq<Position>,
    pub metadata: Seq<JsonView>,
}

/// The capability that makes a type a row of a dataset.
///
/// Any row can be handed over as a [`TaggedRow`]; that is all the engine
/// needs to serialize rows of kinds it has never heard of.
pub trait Row {
    /// What this row is.
    spec fn model(&self) -> RowView;

    /// The row in the one form shared by all kinds.
    fn erase(&self) -> (row: TaggedRow)
        ensures
            row@ == self.model(),
    ;

    /// How many vertices the row's geometry has.
    fn coordinate_count(&self) -> (n: usize)
        ensures
            n == self.model().geometry.len(),
    ;
}

/// A row of any kind: the kind's tag, the feature, and the metadata values.
#[derive(Debug, PartialEq, Eq)]
pub struct TaggedRow {
    pub kind: String,
    pub feature: Feature<LineString>,
    pub metadata: Vec<Json>,
}

impl View for TaggedRow {
    type V = RowView;

    open spec fn view(&self) -> RowView {
        RowView {
            kind: self.kind@,
            geometry: self.feature.geometry@,
            metadata: views(self.metadata@),
        }
    }
}

impl Row for TaggedRow {
    open spec fn model(&self) -> RowView {
        self@
    }

    fn erase(&self) -> (row: TaggedRow) {
        TaggedRow {
            kind: self.kind.clone(),
            feature: Feature { geometry: self.feature.geometry.duplicate() },
            metadata: Json::duplicate_all(&self.metadata),
        }
    }

    fn coordinate_count(&self) -> (n: usize) {
        self.feature.geometry.len()
    }
}

/// What each of a sequence of rows is, in order.
pub open spec fn row_models<R: Row>(rows: Seq<R>) -> Seq<RowView> {
    Seq::new(rows.len(), |i: int| rows[i].model())
}

/// The cells of a row as a document: the feature first, then the metadata
/// values in column order.
pub open spec fn row_cells(row: RowView) -> JsonView {
    JsonView::List(seq![feature_json(row.geometry)] + row.metadata)
}

/// The row of kind `kind` that a list of cells describes: the list must
/// start with a feature; every cell after it is a metadata value.
pub open spec fn json_cells(kind: Seq<char>, j: JsonView) -> Option<RowView> {
    match j {
        JsonView::List(cells) => {
            if cells.len() >= 1 && json_feature(cells[0]) is Some {
                Some(
                    RowView {
                        kind,
                        geometry: json_feature(cells[0])->Some_0,
                        metadata: cells.subrange(1, cells.len() as int),
                    },
                )
            } else {
                None
            }
        },
        _ => None,
    }
}

/// A row in tagged form: `{"type": <kind>, "value": [<feature>, ...]}`.
pub open spec fn tagged_json(row: RowView) -> JsonView {
    JsonView::Object(seq![(TYPE_KEY@, JsonView::Text(row.kind)), (VALUE_KEY@, row_cells(row))])
}

/// The tag of a document in tagged form: the text under its type key.
pub open spec fn json_tag(j: JsonView) -> Option<Seq<char>> {
    match j.field(TYPE_KEY@) {
        Some(JsonView::Text(tag)) => Some(tag),
        _ => None,
    }
}

/// What reading a tagged row comes to.
pub ghost enum Decoded {
    /// The document describes this row, and its kind is registered.
    Row(RowView),
    /// The document carries this tag, which is not registered.
    UnknownRowKind(Seq<char>),
    /// The document carries no tag, or a registered tag on something that
    /// is not a row.
    Malformed,
}

/// Reading the document `j` as a tagged row, with `kinds` registered.
///
/// The tag is looked at first: a tag that is not registered is reported
/// whatever the document holds besides.
pub open spec fn decode_row_spec(kinds: Seq<Seq<char>>, j: JsonView) -> Decoded {
    match json_tag(j) {
        None => Decoded::Malformed,
        Some(tag) => {
            if !kinds.contains(tag) {
                Decoded::UnknownRowKind(tag)
            } else {
                match j.field(VALUE_KEY@) {
                    Some(cells) => match json_cells(tag, cells) {
                        Some(row) => Decoded::Row(row),
                        None => Decoded::Malformed,
                    },
                    None => Decoded::Malformed,
                }
            }
        },
    }
}

/// Rows in tagged form, in order.
pub open spec fn tagged_rows_json(rows: Seq<RowView>) -> Seq<JsonView> {
    Seq::new(rows.len(), |i: int| tagged_json(rows[i]))
}

/// The item at `i` is the first of `items` that cannot be read as a row
/// with `kinds` registered.
pub open spec fn first_failure(kinds: Seq<Seq<char>>, items: Seq<JsonView>, i: int) -> bool {
    &&& 0 <= i < items.len()
    &&& !(decode_row_spec(kinds, items[i]) is Row)
    &&& forall|k: int| 0 <= k < i ==> (#[trigger] decode_row_spec(kinds, items[k])) is Row
}

/// Why a document could not be read as a row.
#[derive(Debug, PartialEq, Eq)]
pub enum RowError {
    /// No registered kind of row has this tag.
    UnknownRowKind { tag: String },
    /// The document does not have the shape of a tagged row.
    Malformed,
}

/// The outcome of a decoding call, as a value of the specification.
pub open spec fn outcome(result: Result<TaggedRow, RowError>) -> Decoded {
    match result {
        Ok(row) => Decoded::Row(row@),
        Err(RowError::UnknownRowKind { tag }) => Decoded::UnknownRowKind(tag@),
        Err(RowError::Malformed) => Decoded::Malformed,
    }
}

/// The cells of a row read back give the row.
pub proof fn lemma_cells_round_trip(row: RowView)
    ensures
        json_cells(row.kind, row_cells(row)) == Some(row),
{
    lemma_feature_round_trip(row.geometry);
    let cells = row_cells(row)->List_0;
    assert(cells[0] == feature_json(row.geometry));
    assert(cells.subrange(1, cells.len() as int) =~= row.metadata);
}

/// A row written in tagged form and read back, with its kind registered, is
/// the same row: tag, geometry and every metadata value.
pub proof fn lemma_row_round_trip(kinds: Seq<Seq<char>>, row: RowView)
    requires
        kinds.contains(row.kind),
    ensures
        decode_row_spec(kinds, tagged_json(row)) == Decoded::Row(row),
{
    reveal_strlit("type");
    reveal_strlit("value");
    assert(TYPE_KEY@.len() == 4);
    assert(VALUE_KEY@.len() == 5);
    lemma_cells_round_trip(row);
    reveal_with_fuel(lookup, 3);
    let members = tagged_json(row)->Object_0;
    assert(members.subrange(1, 2)[0] == members[1]);
}

/// A row in tagged form whose kind is not registered is refused with its
/// tag.
pub proof fn lemma_unknown_kind(kinds: Seq<Seq<char>>, row: RowView)
    requires
        !kinds.contains(row.kind),
    ensures
        decode_row_spec(kinds, tagged_json(row)) == Decoded::UnknownRowKind(row.kind),
{
    reveal_with_fuel(lookup, 2);
}

/// Rows of any mix of kinds, written in tagged form and read back with
/// every one of their kinds registered, come back one for one and in
/// order: tag, geometry and every metadata value.
pub proof fn lemma_rows_round_trip(kinds: Seq<Seq<char>>, rows: Seq<RowView>)
    requires
        forall|i: int| 0 <= i < rows.len() ==> kinds.contains((#[trigger] rows[i]).kind),
    ensures
        tagged_rows_json(rows).len() == rows.len(),
        forall|i: int|
            0 <= i < rows.len() ==> (#[trigger] decode_row_spec(kinds, tagged_rows_json(rows)[i]))
                == Decoded::Row(rows[i]),
{
    assert forall|i: int| 0 <= i < rows.len() implies (#[trigger] decode_row_spec(
        kinds,
        tagged_rows_json(rows)[i],
    )) == Decoded::Row(rows[i]) by {
        lemma_row_round_trip(kinds, rows[i]);
    }
}

/// The kinds of row that may be read back: a table of tags, filled by the
/// caller before decoding starts. No tag is in it twice.
#[derive(Debug)]
pub struct RowRegistry {
    kinds: Vec<String>,
}

impl View for RowRegistry {
    type V = Seq<Seq<char>>;

    closed spec fn view(&self) -> Seq<Seq<char>> {
        Seq::new(self.kinds@.len(), |i: int| self.kinds@[i]@)
    }
}

impl RowRegistry {
    #[verifier::type_invariant]
    spec fn distinct(&self) -> bool {
        self@.no_duplicates()
    }

    /// Whether a kind with this tag is registered.
    pub open spec fn knows(&self, tag: Seq<char>) -> bool {
        self@.contains(tag)
    }

    /// A registry with no kind in it.
    pub fn new() -> (registry: RowRegistry)
        ensures
            registry@ == Seq::<Seq<char>>::empty(),
    {
        let kinds: Vec<String> = Vec::new();
        assert(Seq::new(kinds@.len(), |i: int| kinds@[i]@) =~= Seq::<Seq<char>>::empty());
        RowRegistry { kinds }
    }

    /// How many kinds are registered: each tag counts once.
    pub fn len(&self) -> (n: usize)
        ensures
            n == self@.len(),
            self@.no_duplicates(),
    {
        proof {
            use_type_invariant(self);
        }
        self.kinds.len()
    }

    /// Whether a kind with the tag `kind` is registered.
    pub fn contains(&self, kind: &str) -> (known: bool)
        ensures
            known == self.knows(kind@),
    {
        let wanted = kind.to_owned();
        let mut i: usize = 0;
        while i < self.kinds.len()
            invariant
                i <= self.kinds.len(),
                wanted@ == kind@,
                forall|k: int| 0 <= k < i ==> self@[k] != kind@,
            decreases self.kinds.len() - i,
        {
            if self.kinds[i] == wanted {
                assert(self@[i as int] == kind@);
                return true;
            }
            i = i + 1;
        }
        false
    }

    /// Registers the kind with the tag `kind`, after those registered
    /// before. A tag that is already there is not added again.
    pub fn register(&mut self, kind: &str) -> (added: bool)
        ensures
            added == !old(self).knows(kind@),
            final(self)@ == if added {
                old(self)@.push(kind@)
            } else {
                old(self)@
            },
            final(self).knows(kind@),
            final(self)@.no_duplicates(),
    {
        proof {
            use_type_invariant(&*self);
        }
        if self.contains(kind) {
            false
        } else {
            // The table is taken out while it grows, so that the registry
            // holds a finished table wherever the push could unwind.
            let ghost before = self@;
            let mut kinds: Vec<String> = Vec::new();
            assert(Seq::new(kinds@.len(), |i: int| kinds@[i]@) =~= Seq::<Seq<char>>::empty());
            core::mem::swap(&mut self.kinds, &mut kinds);
            kinds.push(kind.to_owned());
            assert(Seq::new(kinds@.len(), |i: int| kinds@[i]@) =~= before.push(kind@));
            core::mem::swap(&mut self.kinds, &mut kinds);
            assert(self@[self@.len() - 1] == kind@);
            true
        }
    }
}

/// The cells of an erased row.
fn cells_of(row: TaggedRow) -> (node: Json)
    ensures
        node@ == row_cells(row@),
{
    let feature = row.feature.to_json();
    let mut cells = row.metadata;
    cells.insert(0, feature);
    assert(views(cells@) =~= seq![feature_json(row@.geometry)] + row@.metadata);
    Json::list(cells)
}

/// The cells of a row as a document: the feature, then the metadata values.
pub fn row_to_cells<R: Row>(row: &R) -> (node: Json)
    ensures
        node@ == row_cells(row.model()),
{
    cells_of(row.erase())
}

/// A row in tagged form, ready to share a sequence with rows of other
/// kinds.
pub fn encode_row<R: Row>(row: &R) -> (node: Json)
    ensures
        node@ == tagged_json(row.model()),
{
    let erased = row.erase();
    let tag = Json::Text(erased.kind.clone());
    Json::pair(Json::entry(TYPE_KEY, tag), Json::entry(VALUE_KEY, cells_of(erased)))
}

/// Reads a row in tagged form.
///
/// The row comes back where the tag names a registered kind and the cells
/// start with a feature; a tag that is not registered is an
/// `UnknownRowKind` error that carries it; anything else is `Malformed`.
pub fn decode_row(registry: &RowRegistry, node: &Json) -> (result: Result<TaggedRow, RowError>)
    ensures
        outcome(result) == decode_row_spec(registry@, node@),
{
    let tag = match node.field(TYPE_KEY) {
        Some(Json::Text(tag)) => tag,
        _ => { return Err(RowError::Malformed); },
    };
    if !registry.contains(tag.as_str()) {
        return Err(RowError::UnknownRowKind { tag: tag.clone() });
    }
    match node.field(VALUE_KEY) {
        Some(Json::List(cells)) => {
            proof {
                Json::lemma_list_view(*cells);
            }
            if cells.len() == 0 {
                return Err(RowError::Malformed);
            }
            match Feature::<LineString>::from_json(&cells[0]) {
                Some(feature) => {
                    let mut metadata: Vec<Json> = Vec::new();
                    let mut i: usize = 1;
                    while i < cells.len()
                        invariant
                            1 <= i <= cells.len(),
                            metadata.len() == i - 1,
                            forall|k: int| 0 <= k < i - 1 ==> metadata@[k]@ == cells@[k + 1]@,
                        decreases cells.len() - i,
                    {
                        let copy = cells[i].duplicate();
                        metadata.push(copy);
                        i = i + 1;
                    }
                    assert(views(metadata@) =~= views(cells@).subrange(1, cells.len() as int));
                    Ok(TaggedRow { kind: tag.clone(), feature, metadata })
                },
                None => Err(RowError::Malformed),
            }
        },
        _ => Err(RowError::Malformed),
    }
}

/// Rows in tagged form, one document for the whole sequence, in order.
pub fn encode_rows<R: Row>(rows: &[R]) -> (node: Json)
    ensures
        node@ == JsonView::List(tagged_rows_json(row_models(rows@))),
{
    let ghost models = row_models(rows@);
    let mut items: Vec<Json> = Vec::new();
    let mut i: usize = 0;
    while i < rows.len()
        invariant
            i <= rows.len(),
            items.len() == i,
            models == row_models(rows@),
            forall|k: int| 0 <= k < i ==> items@[k]@ == tagged_json(models[k]),
        decreases rows.len() - i,
    {
        let item = encode_row(&rows[i]);
        items.push(item);
        i = i + 1;
    }
    assert(views(items@) =~= tagged_rows_json(models));
    Json::list(items)
}

/// Reads a sequence of rows in tagged form.
///
/// The rows come back in order where the document is a list and each item
/// can be read; otherwise the error is that of the first item that cannot,
/// or `Malformed` where the document is no list.
pub fn decode_rows(registry: &RowRegistry, node: &Json) -> (result: Result<
    Vec<TaggedRow>,
    RowError,
>)
    ensures
        match result {
            Ok(rows) => {
                &&& node@ matches JsonView::List(items)
                &&& rows.len() == items.len()
                &&& forall|i: int|
                    0 <= i < items.len() ==> (#[trigger] decode_row_spec(registry@, items[i]))
                        == Decoded::Row(rows@[i]@)
            },
            Err(e) => match node@ {
                JsonView::List(items) => exists|i: int|
                    first_failure(registry@, items, i) && decode_row_spec(registry@, items[i])
                        == outcome(Err(e)),
                _ => e == RowError::Malformed,
            },
        },
{
    match node {
        Json::List(items) => {
            proof {
                Json::lemma_list_view(*items);
            }
            let ghost docs = views(items@);
            let mut rows: Vec<TaggedRow> = Vec::new();
            let mut i: usize = 0;
            while i < items.len()
                invariant
                    i <= items.len(),
                    rows.len() == i,
                    docs == views(items@),
                    node@ == JsonView::List(docs),
                    forall|k: int|
                        0 <= k < i ==> (#[trigger] decode_row_spec(registry@, docs[k]))
                            == Decoded::Row(rows@[k]@),
                decreases items.len() - i,
            {
                match decode_row(registry, &items[i]) {
                    Ok(row) => {
                        rows.push(row);
                    },
                    Err(e) => {
                        assert(first_failure(registry@, docs, i as int));
                        return Err(e);
                    },
                }
                i = i + 1;
            }
            Ok(rows)
        },
        _ => Err(RowError::Malformed),
    }
}

} // verus!
