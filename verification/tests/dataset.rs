use keplerize::dataset::{build_field_list, Data, Dataset, Field, Info, GEOMETRY_FIELD};
use keplerize::geometry::Coordinate;
use keplerize::json::Json;
use keplerize::record::{transform, SourceRecord};
use keplerize::row::{row_to_cells, TaggedRow};
use serde::ser::{SerializeMap, SerializeSeq};
use serde::{Serialize, Serializer};

struct Document<'a>(&'a Json);

impl<'a> Serialize for Document<'a> {
    fn serialize<S: Serializer>(&self, serializer: S) -> Result<S::Ok, S::Error> {
        match self.0 {
            Json::Null => serializer.serialize_unit(),
            Json::Bool(b) => serializer.serialize_bool(*b),
            Json::UInt(n) => serializer.serialize_u64(*n),
            Json::Int(n) => serializer.serialize_i64(*n),
            Json::Real(bits) => serializer.serialize_f64(f64::from_bits(*bits)),
            Json::RealOfInt(n) => serializer.serialize_f64(*n as f64),
            Json::Text(s) => serializer.serialize_str(s),
            Json::List(items) => {
                let mut seq = serializer.serialize_seq(Some(items.len()))?;
                for item in items {
                    seq.serialize_element(&Document(item))?;
                }
                seq.end()
            }
            Json::Object(members) => {
                let mut map = serializer.serialize_map(Some(members.len()))?;
                for (key, value) in members {
                    map.serialize_entry(key, &Document(value))?;
                }
                map.end()
            }
        }
    }
}

fn render(node: &Json) -> String {
    serde_json::to_string(&Document(node)).unwrap()
}

fn at(x: f64, y: f64) -> Coordinate {
    Coordinate { x: x.to_bits(), y: y.to_bits() }
}

fn example_row() -> TaggedRow {
    let record = SourceRecord {
        id: 1,
        metadata: Vec::new(),
        coordinates: vec![at(-74.0, 40.8), at(-74.01, 40.81)],
        timestamps: Some(vec![
            "2020-01-01T00:00:00+00".to_string(),
            "2020-01-01T00:01:00+00".to_string(),
        ]),
    };
    transform(record, "trip").unwrap()
}

fn static_row(id: u64, vendor: &str) -> TaggedRow {
    let record = SourceRecord {
        id,
        metadata: vec![Json::Text(vendor.to_string())],
        coordinates: vec![at(-74.20996, 40.81773), at(-74.20997, 40.81765)],
        timestamps: None,
    };
    transform(record, "line").unwrap()
}

fn field_names(node: &Json) -> Vec<String> {
    let fields = node.field("data").unwrap().field("fields").unwrap();
    match fields {
        Json::List(items) => items
            .iter()
            .map(|f| match f.field("name") {
                Some(Json::Text(name)) => name.clone(),
                other => panic!("no name: {:?}", other),
            })
            .collect(),
        other => panic!("not a list: {:?}", other),
    }
}

fn dataset_fields(fields: &[Field]) -> Vec<String> {
    let rows: Vec<TaggedRow> = Vec::new();
    let dataset =
        Dataset { info: Info { id: "d", label: "D" }, data: Data { fields, rows: &rows } };
    field_names(&dataset.serialize())
}

#[test]
fn example_record_gives_the_example_row() {
    let cells = row_to_cells(&example_row());
    assert_eq!(
        render(&cells),
        "[{\"type\":\"Feature\",\"geometry\":{\"type\":\"LineString\",\"coordinates\":\
         [[-74.0,40.8,0.0,1577836800.0],[-74.01,40.81,0.0,1577836860.0]]}},1]"
    );
}

#[test]
fn dataset_document_has_header_fields_and_rows() {
    let rows = vec![example_row()];
    let dataset = Dataset {
        info: Info { id: "my-dataset", label: "My Dataset" },
        data: Data { fields: &["id".into()], rows: &rows },
    };
    assert_eq!(
        render(&dataset.serialize()),
        "{\"info\":{\"id\":\"my-dataset\",\"label\":\"My Dataset\"},\
         \"data\":{\"fields\":[{\"name\":\"_geojson\"},{\"name\":\"id\"}],\
         \"rows\":[[{\"type\":\"Feature\",\"geometry\":{\"type\":\"LineString\",\"coordinates\":\
         [[-74.0,40.8,0.0,1577836800.0],[-74.01,40.81,0.0,1577836860.0]]}},1]]}}"
    );
}

#[test]
fn static_rows_have_three_numbers_per_vertex() {
    let rows = vec![static_row(0, "A"), static_row(1, "B")];
    let data = Data { fields: &["id".into(), "vendor".into()], rows: &rows };
    assert_eq!(
        render(&data.serialize()),
        "{\"fields\":[{\"name\":\"_geojson\"},{\"name\":\"id\"},{\"name\":\"vendor\"}],\
         \"rows\":[\
         [{\"type\":\"Feature\",\"geometry\":{\"type\":\"LineString\",\"coordinates\":\
         [[-74.20996,40.81773,0.0],[-74.20997,40.81765,0.0]]}},0,\"A\"],\
         [{\"type\":\"Feature\",\"geometry\":{\"type\":\"LineString\",\"coordinates\":\
         [[-74.20996,40.81773,0.0],[-74.20997,40.81765,0.0]]}},1,\"B\"]]}"
    );
}

#[test]
fn geometry_field_comes_first_without_caller_fields() {
    assert_eq!(dataset_fields(&[]), vec!["_geojson"]);
}

#[test]
fn geometry_field_comes_first_before_one_caller_field() {
    assert_eq!(dataset_fields(&["id".into()]), vec!["_geojson", "id"]);
}

#[test]
fn geometry_field_comes_first_before_many_caller_fields() {
    assert_eq!(
        dataset_fields(&["id".into(), "vessel-type".into(), "flag".into(), "id".into()]),
        vec!["_geojson", "id", "vessel-type", "flag", "id"]
    );
}

#[test]
fn geometry_field_is_added_once_even_if_the_caller_names_it() {
    assert_eq!(dataset_fields(&["_geojson".into()]), vec!["_geojson", "_geojson"]);
}

#[test]
fn build_field_list_prepends_the_geometry_column() {
    assert_eq!(GEOMETRY_FIELD, "_geojson");
    assert_eq!(build_field_list(&[]), vec![Field { name: "_geojson" }]);
    assert_eq!(
        build_field_list(&[Field { name: "b" }, Field { name: "a" }]),
        vec![Field { name: "_geojson" }, Field { name: "b" }, Field { name: "a" }]
    );
}

#[test]
fn field_from_keeps_the_name() {
    assert_eq!(Field::from("vessel-type"), Field { name: "vessel-type" });
    let field: Field = "id".into();
    assert_eq!(field.name, "id");
}

#[test]
fn rows_and_fields_keep_their_order() {
    let rows = vec![static_row(30, "z"), static_row(10, "a"), static_row(20, "m")];
    let dataset = Dataset {
        info: Info { id: "d", label: "D" },
        data: Data { fields: &["zeta".into(), "alpha".into()], rows: &rows },
    };
    let node = dataset.serialize();
    assert_eq!(field_names(&node), vec!["_geojson", "zeta", "alpha"]);
    let listed = match node.field("data").unwrap().field("rows").unwrap() {
        Json::List(items) => items,
        other => panic!("not a list: {:?}", other),
    };
    let ids: Vec<&Json> = listed
        .iter()
        .map(|r| match r {
            Json::List(cells) => &cells[1],
            other => panic!("not a list: {:?}", other),
        })
        .collect();
    assert_eq!(ids, vec![&Json::UInt(30), &Json::UInt(10), &Json::UInt(20)]);
    assert_eq!(render(&dataset.serialize()), render(&node));
}

#[test]
fn header_passes_through() {
    let info = Info { id: "an \"id\"", label: "" };
    assert_eq!(render(&info.serialize()), "{\"id\":\"an \\\"id\\\"\",\"label\":\"\"}");
}

#[test]
fn empty_dataset_still_lists_the_geometry_column() {
    let rows: Vec<TaggedRow> = Vec::new();
    let dataset =
        Dataset { info: Info { id: "d", label: "D" }, data: Data { fields: &[], rows: &rows } };
    assert_eq!(
        render(&dataset.serialize()),
        "{\"info\":{\"id\":\"d\",\"label\":\"D\"},\
         \"data\":{\"fields\":[{\"name\":\"_geojson\"}],\"rows\":[]}}"
    );
}
