//! The four element kinds a mesh stores: points, vertices, half-edges and
//! faces. Elements hold no bookkeeping of their own; they carry only their
//! payload and handles to the elements they are wired to.

use vstd::prelude::*;
use crate::handles::{EdgeIndex, FaceIndex, PointIndex, VertexIndex, Index};
use crate::traits::IsValid;

verus! {

/// A position in space, carried bit-for-bit as three 64-bit patterns. The
/// storage and topology layers never interpret coordinates; what the bits
/// mean numerically is the business of the geometry code around the mesh.
#[derive(Clone, Copy, Debug, PartialEq, Eq, Structural)]
pub struct Position {
    pub x: u64,
    pub y: u64,
    pub z: u64,
}

impl Position {
    pub fn new(x: u64, y: u64, z: u64) -> (r: Position)
        ensures
            r == (Position { x, y, z }),
    {
        Position { x, y, z }
    }
}

impl Default for Position {
    fn default() -> (r: Position)
        ensures
            r == (Position { x: 0, y: 0, z: 0 }),
    {
        Position { x: 0, y: 0, z: 0 }
    }
}

/// The attribute leaf: a stored position, referenced by any number of
/// vertices and linking to nothing.
#[derive(Clone, Copy, Debug, PartialEq, Eq, Structural)]
pub struct Point {
    pub position: Position,
}

impl Point {
    pub fn from_position(position: Position) -> (r: Point)
        ensures
            r == (Point { position }),
    {
        Point { position }
    }
}

impl Default for Point {
    fn default() -> (r: Point)
        ensures
            r == (Point { position: Position { x: 0, y: 0, z: 0 } }),
    {
        Point { position: Position { x: 0, y: 0, z: 0 } }
    }
}

impl IsValid for Point {
    /// A point carries no links, so any point value is valid.
    open spec fn valid_spec(&self) -> bool {
        true
    }

    fn is_valid(&self) -> (r: bool) {
        true
    }
}

/// Represents the place where edges meet: an outgoing half-edge and the
/// point that carries the attributes.
#[derive(Clone, Copy, Debug, PartialEq, Eq)]
pub struct Vertex {
    pub edge_index: EdgeIndex,
    pub point_index: PointIndex,
}

impl Vertex {
    pub fn new(edge_index: EdgeIndex, point_index: PointIndex) -> (r: Vertex)
        ensures
            r == (Vertex { edge_index, point_index }),
    {
        Vertex { edge_index, point_index }
    }

    pub fn from_edge(edge_index: EdgeIndex) -> (r: Vertex)
        ensures
            r.edge_index == edge_index,
            r.point_index.offset == 0,
            r.point_index.generation == 0,
    {
        Vertex { edge_index, point_index: Index::new(0) }
    }

    pub fn from_point(point_index: PointIndex) -> (r: Vertex)
        ensures
            r.point_index == point_index,
            r.edge_index.offset == 0,
            r.edge_index.generation == 0,
    {
        Vertex { edge_index: Index::new(0), point_index }
    }
}

impl Default for Vertex {
    fn default() -> (r: Vertex)
        ensures
            r.edge_index.offset == 0,
            r.edge_index.generation == 0,
            r.point_index.offset == 0,
            r.point_index.generation == 0,
    {
        Vertex { edge_index: Index::new(0), point_index: Index::new(0) }
    }
}

impl IsValid for Vertex {
    /// A vertex is considered valid as long as it has a valid edge index.
    open spec fn valid_spec(&self) -> bool {
        self.edge_index.valid_spec()
    }

    fn is_valid(&self) -> (r: bool) {
        self.edge_index.is_valid()
    }
}

/// The principal component in a half-edge mesh: one directed side of an
/// edge, wired to its twin, its loop neighbors, its face and its vertex.
#[derive(Clone, Copy, Debug, PartialEq, Eq)]
pub struct Edge {
    /// The adjacent or 'twin' half-edge.
    pub twin_index: EdgeIndex,
    /// The next edge in the loop.
    pub next_index: EdgeIndex,
    /// The previous edge in the loop.
    pub prev_index: EdgeIndex,
    /// The face this edge's loop defines.
    pub face_index: FaceIndex,
    /// The vertex this edge leaves from.
    pub vertex_index: VertexIndex,
}

impl Edge {
    /// Returns true when this edge has a previous and next edge.
    pub fn is_connected(&self) -> (r: bool)
        ensures
            r == (self.next_index.valid_spec() && self.prev_index.valid_spec()),
    {
        self.next_index.is_valid() && self.prev_index.is_valid()
    }
}

impl Default for Edge {
    fn default() -> (r: Edge)
        ensures
            r.twin_index.offset == 0 && r.twin_index.generation == 0,
            r.next_index.offset == 0 && r.next_index.generation == 0,
            r.prev_index.offset == 0 && r.prev_index.generation == 0,
            r.face_index.offset == 0 && r.face_index.generation == 0,
            r.vertex_index.offset == 0 && r.vertex_index.generation == 0,
    {
        Edge {
            twin_index: Index::new(0),
            next_index: Index::new(0),
            prev_index: Index::new(0),
            face_index: Index::new(0),
            vertex_index: Index::new(0),
        }
    }
}

impl IsValid for Edge {
    /// An edge is valid when it has a valid twin index, a valid vertex index
    /// and is connected into a loop.
    open spec fn valid_spec(&self) -> bool {
        self.vertex_index.valid_spec()
            && self.twin_index.valid_spec()
            && self.next_index.valid_spec()
            && self.prev_index.valid_spec()
    }

    fn is_valid(&self) -> (r: bool) {
        self.vertex_index.is_valid() && self.twin_index.is_valid() && self.is_connected()
    }
}

/// An edge with its twin handle replaced.
pub open spec fn edge_with_twin(e: Edge, twin_index: EdgeIndex) -> Edge {
    Edge { twin_index, next_index: e.next_index, prev_index: e.prev_index,
        face_index: e.face_index, vertex_index: e.vertex_index }
}

/// An edge with its next handle replaced.
pub open spec fn edge_with_next(e: Edge, next_index: EdgeIndex) -> Edge {
    Edge { twin_index: e.twin_index, next_index, prev_index: e.prev_index,
        face_index: e.face_index, vertex_index: e.vertex_index }
}

/// An edge with its prev handle replaced.
pub open spec fn edge_with_prev(e: Edge, prev_index: EdgeIndex) -> Edge {
    Edge { twin_index: e.twin_index, next_index: e.next_index, prev_index,
        face_index: e.face_index, vertex_index: e.vertex_index }
}

/// An edge with its face handle replaced.
pub open spec fn edge_with_face(e: Edge, face_index: FaceIndex) -> Edge {
    Edge { twin_index: e.twin_index, next_index: e.next_index, prev_index: e.prev_index,
        face_index, vertex_index: e.vertex_index }
}

/// An edge with its vertex handle replaced.
pub open spec fn edge_with_vertex(e: Edge, vertex_index: VertexIndex) -> Edge {
    Edge { twin_index: e.twin_index, next_index: e.next_index, prev_index: e.prev_index,
        face_index: e.face_index, vertex_index }
}

/// A vertex with its outgoing edge replaced.
pub open spec fn vertex_with_edge(v: Vertex, edge_index: EdgeIndex) -> Vertex {
    Vertex { edge_index, point_index: v.point_index }
}

/// A face is defined by the looping connectivity of edges: it holds the
/// "root" of the edge loop that bounds it.
#[derive(Clone, Copy, Debug, PartialEq, Eq)]
pub struct Face {
    /// The root of the edge loop that defines this face.
    pub edge_index: EdgeIndex,
}

impl Face {
    pub fn new(edge_index: EdgeIndex) -> (r: Face)
        ensures
            r == (Face { edge_index }),
    {
        Face { edge_index }
    }
}

impl Default for Face {
    fn default() -> (r: Face)
        ensures
            r.edge_index.offset == 0,
            r.edge_index.generation == 0,
    {
        Face { edge_index: Index::new(0) }
    }
}

impl IsValid for Face {
    /// A face is considered valid as long as it has a usable root edge index.
    open spec fn valid_spec(&self) -> bool {
        self.edge_index.valid_spec()
    }

    fn is_valid(&self) -> (r: bool) {
        self.edge_index.is_valid()
    }
}

} // verus!
