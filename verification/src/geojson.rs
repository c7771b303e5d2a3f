//! The document shape of a feature: an object tagged `Feature` around a
//! geometry object tagged `LineString`, whose coordinates are lists of three
//! numbers, or of four where the vertex carries a timestamp.

use crate::geometry::{Feature, LineString, Position};
use crate::json::{views, Json, JsonView};
use vstd::prelude::*;

verus! {

/// The key of the member that tells what an object is.
pub const TYPE_KEY: &'static str = "type";

/// The key under which a feature holds its geometry.
pub const GEOMETRY_KEY: &'static str = "geometry";

/// The key under which a geometry holds its vertices.
pub const COORDINATES_KEY: &'static str = "coordinates";

/// The tag of a feature object.
pub const FEATURE_TAG: &'static str = "Feature";

/// The tag of a line geometry, timed or not.
pub const LINE_STRING_TAG: &'static str = "LineString";

/// A vertex as a document: `[x, y, z]`, or `[x, y, z, t]` with the
/// timestamp as a real number.
pub open spec fn position_json(p: Position) -> JsonView {
    match p.t {
        None => JsonView::List(seq![JsonView::Real(p.x), JsonView::Real(p.y), JsonView::Real(p.z)]),
        Some(t) => JsonView::List(
            seq![
                JsonView::Real(p.x),
                JsonView::Real(p.y),
                JsonView::Real(p.z),
                JsonView::RealOfInt(t),
            ],
        ),
    }
}

/// The vertex that a document describes, if it has the shape of one.
pub open spec fn json_position(j: JsonView) -> Option<Position> {
    match j {
        JsonView::List(items) => {
            if (items.len() == 3 || items.len() == 4) && items[0] is Real && items[1] is Real
                && items[2] is Real && (items.len() == 4 ==> items[3] is RealOfInt) {
                Some(
                    Position {
                        x: items[0]->Real_0,
                        y: items[1]->Real_0,
                        z: items[2]->Real_0,
                        t: if items.len() == 4 {
                            Some(items[3]->RealOfInt_0)
                        } else {
                            None
                        },
                    },
                )
            } else {
                None
            }
        },
        _ => None,
    }
}

/// The vertices of a line as documents, in order.
pub open spec fn positions_json(positions: Seq<Position>) -> Seq<JsonView> {
    Seq::new(positions.len(), |i: int| position_json(positions[i]))
}

/// The vertices that a list of documents describes, if each describes one.
pub open spec fn json_positions(items: Seq<JsonView>) -> Option<Seq<Position>> {
    if forall|i: int| 0 <= i < items.len() ==> (#[trigger] json_position(items[i])) is Some {
        Some(Seq::new(items.len(), |i: int| json_position(items[i])->Some_0))
    } else {
        None
    }
}

/// A line as a document: `{"type": "LineString", "coordinates": [...]}`.
pub open spec fn geometry_json(positions: Seq<Position>) -> JsonView {
    JsonView::Object(
        seq![
            (TYPE_KEY@, JsonView::Text(LINE_STRING_TAG@)),
            (COORDINATES_KEY@, JsonView::List(positions_json(positions))),
        ],
    )
}

/// The line that a document describes: it must be an object tagged as a
/// line whose coordinates are a list of vertices.
pub open spec fn json_geometry(j: JsonView) -> Option<Seq<Position>> {
    if j.field(TYPE_KEY@) == Some(JsonView::Text(LINE_STRING_TAG@)) {
        match j.field(COORDINATES_KEY@) {
            Some(JsonView::List(items)) => json_positions(items),
            _ => None,
        }
    } else {
        None
    }
}

/// A feature as a document: `{"type": "Feature", "geometry": {...}}`.
pub open spec fn feature_json(positions: Seq<Position>) -> JsonView {
    JsonView::Object(
        seq![
            (TYPE_KEY@, JsonView::Text(FEATURE_TAG@)),
            (GEOMETRY_KEY@, geometry_json(positions)),
        ],
    )
}

/// The line of the feature that a document describes: it must be an object
/// tagged as a feature whose geometry describes a line.
pub open spec fn json_feature(j: JsonView) -> Option<Seq<Position>> {
    if j.field(TYPE_KEY@) == Some(JsonView::Text(FEATURE_TAG@)) {
        match j.field(GEOMETRY_KEY@) {
            Some(geometry) => json_geometry(geometry),
            None => None,
        }
    } else {
        None
    }
}

/// Reading the document of a vertex gives the vertex back.
pub proof fn lemma_position_round_trip(p: Position)
    ensures
        json_position(position_json(p)) == Some(p),
{
}

/// Reading the documents of a line's vertices gives the vertices back.
pub proof fn lemma_positions_round_trip(positions: Seq<Position>)
    ensures
        json_positions(positions_json(positions)) == Some(positions),
{
    let items = positions_json(positions);
    assert forall|i: int| 0 <= i < items.len() implies (#[trigger] json_position(items[i]))
        == Some(positions[i]) by {
        lemma_position_round_trip(positions[i]);
    }
    assert(json_positions(items)->Some_0 =~= positions);
}

/// The keys of a geometry and of a feature differ from the type key.
pub proof fn lemma_keys_differ()
    ensures
        TYPE_KEY@ != GEOMETRY_KEY@,
        TYPE_KEY@ != COORDINATES_KEY@,
{
    reveal_strlit("type");
    reveal_strlit("geometry");
    reveal_strlit("coordinates");
    assert(TYPE_KEY@.len() == 4);
    assert(GEOMETRY_KEY@.len() == 8);
    assert(COORDINATES_KEY@.len() == 11);
}

/// Reading the document of a line gives the line back.
pub proof fn lemma_geometry_round_trip(positions: Seq<Position>)
    ensures
        json_geometry(geometry_json(positions)) == Some(positions),
{
    lemma_keys_differ();
    lemma_positions_round_trip(positions);
    reveal_with_fuel(crate::json::lookup, 3);
    let members = geometry_json(positions)->Object_0;
    assert(members.subrange(1, 2)[0] == members[1]);
}

/// Reading the document of a feature gives its line back.
pub proof fn lemma_feature_round_trip(positions: Seq<Position>)
    ensures
        json_feature(feature_json(positions)) == Some(positions),
{
    lemma_keys_differ();
    lemma_geometry_round_trip(positions);
    reveal_with_fuel(crate::json::lookup, 3);
    let members = feature_json(positions)->Object_0;
    assert(members.subrange(1, 2)[0] == members[1]);
}

impl Position {
    /// The vertex as a document.
    pub fn to_json(&self) -> (node: Json)
        ensures
            node@ == position_json(*self),
    {
        let mut items: Vec<Json> = Vec::new();
        items.push(Json::Real(self.x));
        items.push(Json::Real(self.y));
        items.push(Json::Real(self.z));
        match self.t {
            Some(t) => {
                items.push(Json::RealOfInt(t));
            },
            None => {},
        }
        proof {
            assert(views(items@) =~= position_json(*self)->List_0);
        }
        Json::list(items)
    }

    /// The vertex that a document describes, or nothing where the document
    /// does not have the shape of one.
    pub fn from_json(node: &Json) -> (found: Option<Position>)
        ensures
            found == json_position(node@),
    {
        match node {
            Json::List(items) => {
                proof {
                    Json::lemma_list_view(*items);
                }
                if items.len() != 3 && items.len() != 4 {
                    return None;
                }
                let x = match &items[0] {
                    Json::Real(bits) => *bits,
                    _ => { return None; },
                };
                let y = match &items[1] {
                    Json::Real(bits) => *bits,
                    _ => { return None; },
                };
                let z = match &items[2] {
                    Json::Real(bits) => *bits,
                    _ => { return None; },
                };
                if items.len() == 4 {
                    match &items[3] {
                        Json::RealOfInt(t) => Some(Position { x, y, z, t: Some(*t) }),
                        _ => None,
                    }
                } else {
                    Some(Position { x, y, z, t: None })
                }
            },
            _ => None,
        }
    }
}

impl LineString {
    /// The line as a document.
    pub fn to_json(&self) -> (node: Json)
        ensures
            node@ == geometry_json(self@),
    {
        let mut items: Vec<Json> = Vec::new();
        let mut i: usize = 0;
        while i < self.coordinates.len()
            invariant
                i <= self.coordinates.len(),
                views(items@) == positions_json(self@.subrange(0, i as int)),
                items.len() == i,
            decreases self.coordinates.len() - i,
        {
            let item = self.coordinates[i].to_json();
            let ghost before = items@;
            items.push(item);
            proof {
                assert forall|k: int| 0 <= k < i implies views(items@)[k] == positions_json(
                    self@.subrange(0, i + 1),
                )[k] by {
                    assert(views(before)[k] == positions_json(self@.subrange(0, i as int))[k]);
                }
                assert(views(items@) =~= positions_json(self@.subrange(0, i + 1)));
            }
            i = i + 1;
        }
        assert(self@.subrange(0, i as int) == self@);
        Json::pair(
            Json::entry(TYPE_KEY, Json::text(LINE_STRING_TAG)),
            Json::entry(COORDINATES_KEY, Json::list(items)),
        )
    }

    /// The line that a document describes, or nothing where the document
    /// does not have the shape of one.
    pub fn from_json(node: &Json) -> (found: Option<LineString>)
        ensures
            match found {
                Some(line) => json_geometry(node@) == Some(line@),
                None => json_geometry(node@) is None,
            },
    {
        let tagged = match node.field(TYPE_KEY) {
            Some(Json::Text(tag)) => *tag == LINE_STRING_TAG.to_owned(),
            _ => false,
        };
        if !tagged {
            return None;
        }
        match node.field(COORDINATES_KEY) {
            Some(Json::List(items)) => {
                proof {
                    Json::lemma_list_view(*items);
                }
                let mut out: Vec<Position> = Vec::new();
                let mut i: usize = 0;
                while i < items.len()
                    invariant
                        i <= items.len(),
                        out.len() == i,
                        json_geometry(node@) == json_positions(views(items@)),
                        forall|k: int|
                            0 <= k < i ==> (#[trigger] json_position(views(items@)[k])) == Some(
                                out@[k],
                            ),
                    decreases items.len() - i,
                {
                    match Position::from_json(&items[i]) {
                        Some(p) => {
                            out.push(p);
                        },
                        None => {
                            assert(json_position(views(items@)[i as int]) is None);
                            return None;
                        },
                    }
                    i = i + 1;
                }
                proof {
                    assert(json_positions(views(items@))->Some_0 =~= out@);
                }
                Some(LineString { coordinates: out })
            },
            _ => None,
        }
    }
}

impl Feature<LineString> {
    /// The feature as a document.
    pub fn to_json(&self) -> (node: Json)
        ensures
            node@ == feature_json(self.geometry@),
    {
        Json::pair(
            Json::entry(TYPE_KEY, Json::text(FEATURE_TAG)),
            Json::entry(GEOMETRY_KEY, self.geometry.to_json()),
        )
    }

    /// The feature that a document describes, or nothing where the document
    /// does not have the shape of one.
    pub fn from_json(node: &Json) -> (found: Option<Feature<LineString>>)
        ensures
            match found {
                Some(feature) => json_feature(node@) == Some(feature.geometry@),
                None => json_feature(node@) is None,
            },
    {
        let tagged = match node.field(TYPE_KEY) {
            Some(Json::Text(tag)) => *tag == FEATURE_TAG.to_owned(),
            _ => false,
        };
        if !tagged {
            return None;
        }
        match node.field(GEOMETRY_KEY) {
            Some(inner) => match LineString::from_json(inner) {
                Some(geometry) => Some(Feature { geometry }),
                None => None,
            },
            None => None,
        }
    }
}

} // verus!
