//! Line geometries built from coordinate pairs, with or without a timestamp
//! on each vertex.
//!
//! Longitude, latitude and elevation are real numbers that the library only
//! moves around: each is held as its IEEE-754 binary64 bit pattern.

use vstd::prelude::*;

verus! {

/// The elevation given to every vertex: the bit pattern of positive zero.
pub const ELEVATION: u64 = 0;

/// A longitude and latitude pair, always used together.
#[derive(Clone, Copy, Debug, PartialEq, Eq)]
pub struct Coordinate {
    pub x: u64,
    pub y: u64,
}

/// One vertex of a line: longitude, latitude, elevation, and for a trip the
/// epoch second at which the vertex was reached.
#[derive(Clone, Copy, Debug, PartialEq, Eq)]
pub struct Position {
    pub x: u64,
    pub y: u64,
    pub z: u64,
    pub t: Option<i64>,
}

/// A line: its vertices in travel order.
#[derive(Clone, Debug, PartialEq, Eq)]
pub struct LineString {
    pub coordinates: Vec<Position>,
}

/// A geometry marked as a feature of the map.
#[derive(Clone, Debug, PartialEq, Eq)]
pub struct Feature<G> {
    pub geometry: G,
}

impl View for LineString {
    type V = Seq<Position>;

    open spec fn view(&self) -> Seq<Position> {
        self.coordinates@
    }
}

/// The vertex of a plain line at a coordinate.
pub open spec fn plain_position(c: Coordinate) -> Position {
    Position { x: c.x, y: c.y, z: ELEVATION, t: None }
}

/// The vertex of a trip at a coordinate, reached at epoch second `t`.
pub open spec fn timed_position(c: Coordinate, t: i64) -> Position {
    Position { x: c.x, y: c.y, z: ELEVATION, t: Some(t) }
}

/// The vertices of the plain line through `coordinates`.
pub open spec fn line_positions(coordinates: Seq<Coordinate>) -> Seq<Position> {
    Seq::new(coordinates.len(), |i: int| plain_position(coordinates[i]))
}

/// The vertices of the trip through `coordinates`, the i-th reached at the
/// i-th of `timestamps`.
pub open spec fn trip_positions(coordinates: Seq<Coordinate>, timestamps: Seq<i64>) -> Seq<
    Position,
> {
    Seq::new(coordinates.len(), |i: int| timed_position(coordinates[i], timestamps[i]))
}

/// The vertices of the geometry that `coordinates` and the optional
/// `timestamps` describe.
pub open spec fn geometry_positions(
    coordinates: Seq<Coordinate>,
    timestamps: Option<Seq<i64>>,
) -> Seq<Position> {
    match timestamps {
        Some(ts) => trip_positions(coordinates, ts),
        None => line_positions(coordinates),
    }
}

impl LineString {
    /// No vertex carries a timestamp.
    pub open spec fn is_line(&self) -> bool {
        forall|i: int| 0 <= i < self@.len() ==> (#[trigger] self@[i]).t is None
    }

    /// Every vertex carries a timestamp.
    pub open spec fn is_trip(&self) -> bool {
        forall|i: int| 0 <= i < self@.len() ==> (#[trigger] self@[i]).t is Some
    }

    /// The plain line through `coordinates`, in their order.
    pub fn line(coordinates: &Vec<Coordinate>) -> (line: LineString)
        ensures
            line@ == line_positions(coordinates@),
            line@.len() == coordinates.len(),
            forall|i: int|
                0 <= i < coordinates.len() ==> #[trigger] line@[i] == plain_position(
                    coordinates@[i],
                ),
            line.is_line(),
    {
        let mut out: Vec<Position> = Vec::new();
        let mut i: usize = 0;
        while i < coordinates.len()
            invariant
                i <= coordinates.len(),
                out@ == line_positions(coordinates@.subrange(0, i as int)),
            decreases coordinates.len() - i,
        {
            let c = coordinates[i];
            out.push(Position { x: c.x, y: c.y, z: ELEVATION, t: None });
            i = i + 1;
        }
        assert(coordinates@.subrange(0, i as int) == coordinates@);
        LineString { coordinates: out }
    }

    /// The trip through `coordinates`: vertex and timestamp are paired by
    /// position, in the order given.
    pub fn trip(coordinates: &Vec<Coordinate>, timestamps: &Vec<i64>) -> (line: LineString)
        requires
            coordinates.len() == timestamps.len(),
        ensures
            line@ == trip_positions(coordinates@, timestamps@),
            line@.len() == coordinates.len(),
            forall|i: int|
                0 <= i < coordinates.len() ==> #[trigger] line@[i] == timed_position(
                    coordinates@[i],
                    timestamps@[i],
                ),
            line.is_trip(),
    {
        let mut out: Vec<Position> = Vec::new();
        let mut i: usize = 0;
        while i < coordinates.len()
            invariant
                i <= coordinates.len(),
                coordinates.len() == timestamps.len(),
                out@ == trip_positions(coordinates@.subrange(0, i as int), timestamps@),
            decreases coordinates.len() - i,
        {
            let c = coordinates[i];
            out.push(Position { x: c.x, y: c.y, z: ELEVATION, t: Some(timestamps[i]) });
            i = i + 1;
        }
        assert(coordinates@.subrange(0, i as int) == coordinates@);
        LineString { coordinates: out }
    }

    /// The geometry for `coordinates`: a trip where timestamps are given, a
    /// plain line where they are not.
    pub fn build(coordinates: &Vec<Coordinate>, timestamps: Option<&Vec<i64>>) -> (line: LineString)
        requires
            timestamps matches Some(ts) ==> ts.len() == coordinates.len(),
        ensures
            line@ == geometry_positions(
                coordinates@,
                match timestamps {
                    Some(ts) => Some(ts@),
                    None => None,
                },
            ),
            timestamps is Some ==> line.is_trip(),
            timestamps is None ==> line.is_line(),
    {
        match timestamps {
            Some(ts) => LineString::trip(coordinates, ts),
            None => LineString::line(coordinates),
        }
    }

    /// A copy of the line.
    pub fn duplicate(&self) -> (copy: LineString)
        ensures
            copy@ == self@,
    {
        let mut out: Vec<Position> = Vec::new();
        let mut i: usize = 0;
        while i < self.coordinates.len()
            invariant
                i <= self.coordinates.len(),
                out@ == self@.subrange(0, i as int),
            decreases self.coordinates.len() - i,
        {
            out.push(self.coordinates[i]);
            i = i + 1;
        }
        assert(self@.subrange(0, i as int) == self@);
        LineString { coordinates: out }
    }

    /// How many vertices the line has.
    pub fn len(&self) -> (n: usize)
        ensures
            n == self@.len(),
    {
        self.coordinates.len()
    }
}

} // verus!
