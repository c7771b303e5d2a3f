//! The dataset document: a header, the column descriptors with the geometry
//! column put first, and the rows.

use crate::json::{lookup, member_views, views, Json, JsonView};
use crate::row::{row_cells, row_models, row_to_cells, Row, RowView};
use vstd::prelude::*;
use vstd::std_specs::convert::FromSpecImpl;

verus! {

/// The name of the column that holds each row's feature. It is reserved:
/// the serializer puts it in front of the caller's columns.
pub const GEOMETRY_FIELD: &'static str = "_geojson";

/// The key of a dataset's header.
pub const INFO_KEY: &'static str = "info";

/// The key of a dataset's body.
pub const DATA_KEY: &'static str = "data";

/// The key of the header's identifier.
pub const ID_KEY: &'static str = "id";

/// The key of the header's label.
pub const LABEL_KEY: &'static str = "label";

/// The key of the body's column descriptors.
pub const FIELDS_KEY: &'static str = "fields";

/// The key of the body's rows.
pub const ROWS_KEY: &'static str = "rows";

/// The key of a column descriptor's name.
pub const NAME_KEY: &'static str = "name";

/// The header of a dataset: both texts are the caller's and pass through
/// unchanged.
#[derive(Clone, Copy, Debug, PartialEq, Eq)]
pub struct Info<'a> {
    pub id: &'a str,
    pub label: &'a str,
}

/// The descriptor of a metadata column: its name, for labelling only.
#[derive(Clone, Copy, Debug, PartialEq, Eq)]
pub struct Field<'a> {
    pub name: &'a str,
}

/// The body of a dataset: the caller's columns and the rows.
#[derive(Debug)]
pub struct Data<'a, R: Row> {
    pub fields: &'a [Field<'a>],
    pub rows: &'a [R],
}

/// A dataset: built once, serialized once.
#[derive(Debug)]
pub struct Dataset<'a, R: Row> {
    pub info: Info<'a>,
    pub data: Data<'a, R>,
}

impl<'a> From<&'a str> for Field<'a> {
    fn from(name: &'a str) -> (field: Field<'a>) {
        Field { name }
    }
}

impl<'a> FromSpecImpl<&'a str> for Field<'a> {
    open spec fn obeys_from_spec() -> bool {
        true
    }

    open spec fn from_spec(name: &'a str) -> Field<'a> {
        Field { name }
    }
}

/// The names of a sequence of descriptors, in order.
pub open spec fn field_names(fields: Seq<Field>) -> Seq<Seq<char>> {
    Seq::new(fields.len(), |i: int| fields[i].name@)
}

/// The column names of a dataset whose caller named `names`: the geometry
/// column, then the caller's, in the caller's order.
pub open spec fn field_list(names: Seq<Seq<char>>) -> Seq<Seq<char>> {
    seq![GEOMETRY_FIELD@] + names
}

/// A column descriptor as a document: `{"name": <name>}`.
pub open spec fn field_json(name: Seq<char>) -> JsonView {
    JsonView::Object(seq![(NAME_KEY@, JsonView::Text(name))])
}

/// The descriptors of the columns named `names` as documents, in order.
pub open spec fn fields_json(names: Seq<Seq<char>>) -> Seq<JsonView> {
    Seq::new(names.len(), |i: int| field_json(names[i]))
}

/// The rows of a dataset as documents: each row its list of cells, in the
/// order of the rows.
pub open spec fn rows_json(rows: Seq<RowView>) -> Seq<JsonView> {
    Seq::new(rows.len(), |i: int| row_cells(rows[i]))
}

/// A header as a document: `{"id": <id>, "label": <label>}`.
pub open spec fn info_json(id: Seq<char>, label: Seq<char>) -> JsonView {
    JsonView::Object(seq![(ID_KEY@, JsonView::Text(id)), (LABEL_KEY@, JsonView::Text(label))])
}

/// A body as a document: `{"fields": [...], "rows": [...]}`, the fields led
/// by the geometry column.
pub open spec fn data_json(names: Seq<Seq<char>>, rows: Seq<RowView>) -> JsonView {
    JsonView::Object(
        seq![
            (FIELDS_KEY@, JsonView::List(fields_json(field_list(names)))),
            (ROWS_KEY@, JsonView::List(rows_json(rows))),
        ],
    )
}

/// A dataset as a document: `{"info": {...}, "data": {...}}`.
pub open spec fn dataset_json(
    id: Seq<char>,
    label: Seq<char>,
    names: Seq<Seq<char>>,
    rows: Seq<RowView>,
) -> JsonView {
    JsonView::Object(seq![(INFO_KEY@, info_json(id, label)), (DATA_KEY@, data_json(names, rows))])
}

/// The column descriptors that a dataset document lists.
pub open spec fn document_fields(document: JsonView) -> Option<Seq<JsonView>> {
    match document.field(DATA_KEY@) {
        Some(data) => match data.field(FIELDS_KEY@) {
            Some(JsonView::List(fields)) => Some(fields),
            _ => None,
        },
        None => None,
    }
}

/// The rows that a dataset document lists.
pub open spec fn document_rows(document: JsonView) -> Option<Seq<JsonView>> {
    match document.field(DATA_KEY@) {
        Some(data) => match data.field(ROWS_KEY@) {
            Some(JsonView::List(rows)) => Some(rows),
            _ => None,
        },
        None => None,
    }
}

/// A dataset document lists the fields and the rows that its body holds.
pub proof fn lemma_document_parts(
    id: Seq<char>,
    label: Seq<char>,
    names: Seq<Seq<char>>,
    rows: Seq<RowView>,
)
    ensures
        document_fields(dataset_json(id, label, names, rows)) == Some(
            fields_json(field_list(names)),
        ),
        document_rows(dataset_json(id, label, names, rows)) == Some(rows_json(rows)),
{
    reveal_strlit("info");
    reveal_strlit("data");
    reveal_strlit("fields");
    reveal_strlit("rows");
    assert(INFO_KEY@[0] == 'i');
    assert(DATA_KEY@[0] == 'd');
    assert(FIELDS_KEY@.len() == 6);
    assert(ROWS_KEY@.len() == 4);
    reveal_with_fuel(lookup, 3);
    let outer = dataset_json(id, label, names, rows)->Object_0;
    assert(outer.subrange(1, 2)[0] == outer[1]);
    let inner = data_json(names, rows)->Object_0;
    assert(inner.subrange(1, 2)[0] == inner[1]);
}

/// The first field of every dataset document is the geometry column,
/// whatever the caller's columns are and however many.
pub proof fn lemma_geometry_field_first(
    id: Seq<char>,
    label: Seq<char>,
    names: Seq<Seq<char>>,
    rows: Seq<RowView>,
)
    ensures
        document_fields(dataset_json(id, label, names, rows)) is Some,
        document_fields(dataset_json(id, label, names, rows))->Some_0.len() == names.len() + 1,
        document_fields(dataset_json(id, label, names, rows))->Some_0[0] == field_json(
            GEOMETRY_FIELD@,
        ),
{
    lemma_document_parts(id, label, names, rows);
}

/// A dataset document keeps the order it was given: after the geometry
/// column the caller's fields follow one by one, and the i-th row of the
/// document is the i-th row of the input.
pub proof fn lemma_order_preserved(
    id: Seq<char>,
    label: Seq<char>,
    names: Seq<Seq<char>>,
    rows: Seq<RowView>,
)
    ensures
        document_fields(dataset_json(id, label, names, rows)) is Some,
        document_rows(dataset_json(id, label, names, rows)) is Some,
        forall|i: int|
            0 <= i < names.len() ==> #[trigger] document_fields(
                dataset_json(id, label, names, rows),
            )->Some_0[i + 1] == field_json(names[i]),
        document_rows(dataset_json(id, label, names, rows))->Some_0.len() == rows.len(),
        forall|i: int|
            0 <= i < rows.len() ==> #[trigger] document_rows(
                dataset_json(id, label, names, rows),
            )->Some_0[i] == row_cells(rows[i]),
{
    lemma_document_parts(id, label, names, rows);
}

/// The column descriptors of a dataset: the geometry column first, then
/// the caller's, in the caller's order.
pub fn build_field_list<'a>(fields: &[Field<'a>]) -> (all: Vec<Field<'a>>)
    ensures
        all@.len() == fields@.len() + 1,
        all@[0].name@ == GEOMETRY_FIELD@,
        forall|i: int| 0 <= i < fields@.len() ==> all@[i + 1] == fields@[i],
        field_names(all@) == field_list(field_names(fields@)),
{
    let mut all: Vec<Field<'a>> = Vec::new();
    all.push(Field { name: GEOMETRY_FIELD });
    let mut i: usize = 0;
    while i < fields.len()
        invariant
            i <= fields.len(),
            all.len() == i + 1,
            all@[0].name@ == GEOMETRY_FIELD@,
            forall|k: int| 0 <= k < i ==> all@[k + 1] == fields@[k],
        decreases fields.len() - i,
    {
        all.push(fields[i]);
        i = i + 1;
    }
    assert(field_names(all@) =~= field_list(field_names(fields@)));
    all
}

impl<'a> Info<'a> {
    /// The header as a document.
    pub fn serialize(&self) -> (node: Json)
        ensures
            node@ == info_json(self.id@, self.label@),
    {
        Json::pair(
            Json::entry(ID_KEY, Json::text(self.id)),
            Json::entry(LABEL_KEY, Json::text(self.label)),
        )
    }
}

impl<'a> Field<'a> {
    /// The descriptor as a document.
    pub fn serialize(&self) -> (node: Json)
        ensures
            node@ == field_json(self.name@),
    {
        let mut members: Vec<(String, Json)> = Vec::new();
        members.push(Json::entry(NAME_KEY, Json::text(self.name)));
        assert(member_views(members@) =~= seq![(NAME_KEY@, JsonView::Text(self.name@))]);
        Json::object(members)
    }
}

impl<'a, R: Row> Data<'a, R> {
    /// The body as a document: the fields, led by the geometry column, and
    /// the rows, each as its list of cells, all in the order given.
    pub fn serialize(&self) -> (node: Json)
        ensures
            node@ == data_json(field_names(self.fields@), row_models(self.rows@)),
    {
        let all = build_field_list(self.fields);
        let ghost names = field_list(field_names(self.fields@));
        let mut fields: Vec<Json> = Vec::new();
        let mut i: usize = 0;
        while i < all.len()
            invariant
                i <= all.len(),
                fields.len() == i,
                field_names(all@) == names,
                forall|k: int| 0 <= k < i ==> fields@[k]@ == field_json(names[k]),
            decreases all.len() - i,
        {
            assert(field_names(all@)[i as int] == all@[i as int].name@);
            let field = all[i].serialize();
            fields.push(field);
            i = i + 1;
        }
        assert(field_names(all@).len() == all.len());
        assert(views(fields@) =~= fields_json(names));

        let ghost models = row_models(self.rows@);
        let mut rows: Vec<Json> = Vec::new();
        let mut j: usize = 0;
        while j < self.rows.len()
            invariant
                j <= self.rows.len(),
                rows.len() == j,
                models == row_models(self.rows@),
                forall|k: int| 0 <= k < j ==> rows@[k]@ == row_cells(models[k]),
            decreases self.rows.len() - j,
        {
            let cells = row_to_cells(&self.rows[j]);
            rows.push(cells);
            j = j + 1;
        }
        assert(views(rows@) =~= rows_json(models));
        Json::pair(
            Json::entry(FIELDS_KEY, Json::list(fields)),
            Json::entry(ROWS_KEY, Json::list(rows)),
        )
    }
}

impl<'a, R: Row> Dataset<'a, R> {
    /// The dataset as a document.
    pub fn serialize(&self) -> (node: Json)
        ensures
            node@ == dataset_json(
                self.info.id@,
                self.info.label@,
                field_names(self.data.fields@),
                row_models(self.data.rows@),
            ),
    {
        Json::pair(
            Json::entry(INFO_KEY, self.info.serialize()),
            Json::entry(DATA_KEY, self.data.serialize()),
        )
    }
}

} // verus!
