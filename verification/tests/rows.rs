use keplerize::geometry::{Feature, LineString, Position};
use keplerize::json::Json;
use keplerize::row::{
    decode_row, decode_rows, encode_row, encode_rows, row_to_cells, Row, RowError, RowRegistry,
    RowView, TaggedRow,
};

fn line(points: &[(f64, f64, Option<i64>)]) -> Feature<LineString> {
    let coordinates = points
        .iter()
        .map(|(x, y, t)| Position { x: x.to_bits(), y: y.to_bits(), z: 0, t: *t })
        .collect();
    Feature { geometry: LineString { coordinates } }
}

fn row(kind: &str, points: &[(f64, f64, Option<i64>)], metadata: Vec<Json>) -> TaggedRow {
    TaggedRow { kind: kind.to_string(), feature: line(points), metadata }
}

fn member(key: &str, value: Json) -> (String, Json) {
    (key.to_string(), value)
}

fn text(s: &str) -> Json {
    Json::Text(s.to_string())
}

fn registry(kinds: &[&str]) -> RowRegistry {
    let mut registry = RowRegistry::new();
    for kind in kinds {
        registry.register(kind);
    }
    registry
}

#[test]
fn registry_keeps_each_kind_once() {
    let mut registry = RowRegistry::new();
    assert_eq!(registry.len(), 0);
    assert!(!registry.contains("trip"));
    assert!(registry.register("trip"));
    assert!(registry.register("line"));
    assert!(!registry.register("trip"));
    assert_eq!(registry.len(), 2);
    assert!(registry.contains("trip"));
    assert!(registry.contains("line"));
    assert!(!registry.contains("Trip"));
}

#[test]
fn tagged_row_has_both_tags_at_their_levels() {
    let node = encode_row(&row("trip", &[(1.0, 2.0, Some(5))], vec![Json::UInt(7)]));
    let expected = Json::Object(vec![
        member("type", text("trip")),
        member(
            "value",
            Json::List(vec![
                Json::Object(vec![
                    member("type", text("Feature")),
                    member(
                        "geometry",
                        Json::Object(vec![
                            member("type", text("LineString")),
                            member(
                                "coordinates",
                                Json::List(vec![Json::List(vec![
                                    Json::Real(1.0f64.to_bits()),
                                    Json::Real(2.0f64.to_bits()),
                                    Json::Real(0.0f64.to_bits()),
                                    Json::RealOfInt(5),
                                ])]),
                            ),
                        ]),
                    ),
                ]),
                Json::UInt(7),
            ]),
        ),
    ]);
    assert_eq!(node, expected);
}

#[test]
fn row_cells_start_with_the_feature() {
    let node = row_to_cells(&row("line", &[(1.0, 2.0, None)], vec![text("A"), Json::Int(-3)]));
    match node {
        Json::List(cells) => {
            assert_eq!(cells.len(), 3);
            assert_eq!(cells[0].field("type"), Some(&text("Feature")));
            assert_eq!(cells[1], text("A"));
            assert_eq!(cells[2], Json::Int(-3));
        }
        other => panic!("not a list: {:?}", other),
    }
}

#[test]
fn rows_of_three_kinds_come_back_as_they_were() {
    let rows = vec![
        row(
            "trip",
            &[(1.0, 2.0, Some(5)), (3.0, 4.0, Some(6))],
            vec![Json::UInt(1), Json::UInt(30)],
        ),
        row("line", &[(7.0, 8.0, None)], vec![Json::UInt(2), text("A")]),
        row("bare", &[], Vec::new()),
        row("trip", &[(9.0, 9.5, Some(-1))], vec![Json::UInt(3), Json::UInt(31)]),
    ];
    let node = encode_rows(&rows);
    let back = decode_rows(&registry(&["trip", "line", "bare"]), &node).unwrap();
    assert_eq!(back, rows);
}

#[test]
fn row_with_nested_metadata_comes_back_as_it_was() {
    let nested = Json::Object(vec![
        member("tags", Json::List(vec![text("a"), Json::Null, Json::Bool(true)])),
        member("speed", Json::Real(12.5f64.to_bits())),
    ]);
    let written = row("trip", &[(1.0, 2.0, Some(5))], vec![Json::UInt(1), nested]);
    let back = decode_row(&registry(&["trip"]), &encode_row(&written)).unwrap();
    assert_eq!(back, written);
}

#[test]
fn unregistered_tag_is_an_unknown_row_kind() {
    let node = encode_row(&row("trip", &[(1.0, 2.0, Some(5))], vec![Json::UInt(7)]));
    assert_eq!(
        decode_row(&registry(&["line"]), &node),
        Err(RowError::UnknownRowKind { tag: "trip".to_string() })
    );
    assert_eq!(
        decode_row(&RowRegistry::new(), &node),
        Err(RowError::UnknownRowKind { tag: "trip".to_string() })
    );
}

#[test]
fn unknown_tag_is_reported_whatever_the_value_holds() {
    let node = Json::Object(vec![member("type", text("ghost")), member("value", Json::Null)]);
    assert_eq!(
        decode_row(&registry(&["trip"]), &node),
        Err(RowError::UnknownRowKind { tag: "ghost".to_string() })
    );
}

#[test]
fn document_without_tag_is_malformed() {
    let known = registry(&["trip"]);
    assert_eq!(decode_row(&known, &Json::Null), Err(RowError::Malformed));
    assert_eq!(decode_row(&known, &Json::List(Vec::new())), Err(RowError::Malformed));
    let untagged = Json::Object(vec![member("value", Json::List(Vec::new()))]);
    assert_eq!(decode_row(&known, &untagged), Err(RowError::Malformed));
    let numbered = Json::Object(vec![member("type", Json::UInt(1))]);
    assert_eq!(decode_row(&known, &numbered), Err(RowError::Malformed));
}

#[test]
fn registered_tag_on_something_else_is_malformed() {
    let known = registry(&["trip"]);
    let no_value = Json::Object(vec![member("type", text("trip"))]);
    assert_eq!(decode_row(&known, &no_value), Err(RowError::Malformed));
    let no_cells =
        Json::Object(vec![member("type", text("trip")), member("value", Json::List(Vec::new()))]);
    assert_eq!(decode_row(&known, &no_cells), Err(RowError::Malformed));
    let no_feature = Json::Object(vec![
        member("type", text("trip")),
        member("value", Json::List(vec![Json::UInt(1)])),
    ]);
    assert_eq!(decode_row(&known, &no_feature), Err(RowError::Malformed));
}

#[test]
fn members_may_come_in_any_order() {
    let written = row("trip", &[(1.0, 2.0, Some(5))], vec![Json::UInt(7)]);
    let swapped = match encode_row(&written) {
        Json::Object(mut members) => {
            members.reverse();
            Json::Object(members)
        }
        other => panic!("not an object: {:?}", other),
    };
    assert_eq!(decode_row(&registry(&["trip"]), &swapped), Ok(written));
}

#[test]
fn first_unreadable_row_decides_the_error() {
    let rows = vec![
        row("trip", &[(1.0, 2.0, Some(5))], Vec::new()),
        row("ghost", &[], Vec::new()),
        row("spectre", &[], Vec::new()),
    ];
    let node = encode_rows(&rows);
    assert_eq!(
        decode_rows(&registry(&["trip"]), &node),
        Err(RowError::UnknownRowKind { tag: "ghost".to_string() })
    );
    assert_eq!(decode_rows(&registry(&["trip"]), &Json::Null), Err(RowError::Malformed));
    assert_eq!(decode_rows(&registry(&[]), &Json::List(Vec::new())), Ok(Vec::new()));
}

#[test]
fn vertex_documents_are_read_strictly() {
    assert_eq!(
        Position::from_json(&Json::List(vec![Json::Real(1), Json::Real(2), Json::Real(3)])),
        Some(Position { x: 1, y: 2, z: 3, t: None })
    );
    assert_eq!(
        Position::from_json(&Json::List(vec![
            Json::Real(1),
            Json::Real(2),
            Json::Real(3),
            Json::RealOfInt(4)
        ])),
        Some(Position { x: 1, y: 2, z: 3, t: Some(4) })
    );
    assert_eq!(Position::from_json(&Json::List(vec![Json::Real(1), Json::Real(2)])), None);
    assert_eq!(
        Position::from_json(&Json::List(vec![Json::Real(1), Json::UInt(2), Json::Real(3)])),
        None
    );
    assert_eq!(
        Position::from_json(&Json::List(vec![
            Json::Real(1),
            Json::Real(2),
            Json::Real(3),
            Json::Real(4)
        ])),
        None
    );
    assert_eq!(Position::from_json(&Json::UInt(1)), None);
}

#[test]
fn feature_document_needs_both_tags() {
    let feature = line(&[(1.0, 2.0, None)]);
    let node = feature.to_json();
    assert_eq!(Feature::<LineString>::from_json(&node), Some(line(&[(1.0, 2.0, None)])));
    assert_eq!(LineString::from_json(&node), None);
    let geometry = feature.geometry.to_json();
    assert_eq!(Feature::<LineString>::from_json(&geometry), None);
    assert_eq!(LineString::from_json(&geometry), Some(feature.geometry));
    let mislabelled = Json::Object(vec![
        member("type", text("Point")),
        member("coordinates", Json::List(Vec::new())),
    ]);
    assert_eq!(LineString::from_json(&mislabelled), None);
}

#[test]
fn erased_row_is_equal_to_the_row() {
    let written = row("trip", &[(1.0, 2.0, Some(5))], vec![Json::UInt(7), text("x")]);
    assert_eq!(written.erase(), written);
    assert_eq!(written.coordinate_count(), 1);
}

#[test]
fn duplicate_copies_the_whole_tree() {
    let tree = Json::Object(vec![
        member("a", Json::List(vec![Json::Null, Json::Bool(false), Json::Int(-1)])),
        member("b", Json::Object(vec![member("c", Json::RealOfInt(3))])),
    ]);
    assert_eq!(tree.duplicate(), tree);
}

#[test]
fn field_finds_the_first_member_with_the_key() {
    let tree = Json::Object(vec![
        member("a", Json::UInt(1)),
        member("b", Json::UInt(2)),
        member("a", Json::UInt(3)),
    ]);
    assert_eq!(tree.field("a"), Some(&Json::UInt(1)));
    assert_eq!(tree.field("b"), Some(&Json::UInt(2)));
    assert_eq!(tree.field("c"), None);
    assert_eq!(Json::UInt(1).field("a"), None);
}

struct VesselRow {
    feature: Feature<LineString>,
    id: u64,
    vessel_type: u32,
}

impl Row for VesselRow {
    fn model(&self) -> RowView {
        unreachable!("only specifications speak of a row's model")
    }

    fn erase(&self) -> TaggedRow {
        TaggedRow {
            kind: "vessel".to_string(),
            feature: Feature { geometry: self.feature.geometry.duplicate() },
            metadata: vec![Json::UInt(self.id), Json::UInt(u64::from(self.vessel_type))],
        }
    }

    fn coordinate_count(&self) -> usize {
        self.feature.geometry.len()
    }
}

struct VendorRow {
    feature: Feature<LineString>,
    id: u32,
    vendor: char,
}

impl Row for VendorRow {
    fn model(&self) -> RowView {
        unreachable!("only specifications speak of a row's model")
    }

    fn erase(&self) -> TaggedRow {
        TaggedRow {
            kind: "vendor".to_string(),
            feature: Feature { geometry: self.feature.geometry.duplicate() },
            metadata: vec![Json::UInt(u64::from(self.id)), Json::Text(self.vendor.to_string())],
        }
    }

    fn coordinate_count(&self) -> usize {
        self.feature.geometry.len()
    }
}

#[test]
fn rows_of_caller_defined_types_share_one_sequence() {
    let vessel = VesselRow { feature: line(&[(1.0, 2.0, Some(5))]), id: 1, vessel_type: 30 };
    let vendor = VendorRow { feature: line(&[(3.0, 4.0, None)]), id: 2, vendor: 'B' };
    let node = Json::List(vec![encode_row(&vessel), encode_row(&vendor)]);
    let back = decode_rows(&registry(&["vessel", "vendor"]), &node).unwrap();
    assert_eq!(back, vec![vessel.erase(), vendor.erase()]);
    assert_eq!(back[0].kind, "vessel");
    assert_eq!(back[1].metadata, vec![Json::UInt(2), text("B")]);
}
