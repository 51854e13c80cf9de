//! Tests of the mesh layer: handles, element defaults, adding and removing
//! elements, and building simple meshes.

use halfedge::elements::{Edge, Face, Point, Position, Vertex};
use halfedge::handles::{ComponentID, EdgeIndex, FaceIndex, Handle, Index, PointIndex, VertexIndex};
use halfedge::mesh::Mesh;
use halfedge::traits::{AddElement, GetElement, IsValid, MakeFace, RemoveElement};

fn pos3(x: f64, y: f64, z: f64) -> Position {
    Position::new(x.to_bits(), y.to_bits(), z.to_bits())
}

#[test]
fn handles_are_invalid_by_default() {
    let hnd = Handle::default();
    assert_eq!(hnd.is_valid(), false);
}

#[test]
fn index_types_are_invalid_by_default() {
    let vert = VertexIndex::default();
    assert!(!vert.is_valid());

    let edge = EdgeIndex::default();
    assert!(!edge.is_valid());

    let point = PointIndex::default();
    assert!(!point.is_valid());

    let face = FaceIndex::default();
    assert!(!face.is_valid());
}

#[test]
fn default_edge_is_invalid() {
    let edge = Edge::default();
    assert_eq!(edge.is_valid(), false);
}

#[test]
fn default_vertex_is_invalid() {
    let vertex = Vertex::default();
    assert_eq!(vertex.is_valid(), false);
}

#[test]
fn default_face_is_invalid() {
    let face = Face::default();
    assert_eq!(face.is_valid(), false);
}

#[test]
fn basic_debug_printing() {
    let edge = Edge::default();
    let _ = format!("{:?}", edge);

    let vertex = Vertex::default();
    let _ = format!("{:?}", vertex);

    let face = Face::default();
    let _ = format!("{:?}", face);

    let point = Point::default();
    let _ = format!("{:?}", point);

    let mesh = Mesh::new();
    let _ = format!("{:?}", mesh);
}

#[test]
fn initial_mesh_has_default_elements() {
    let mesh = Mesh::new();

    assert_eq!(mesh.edge_count(), 0);
    assert_eq!(mesh.get(&EdgeIndex::new(0)).is_some(), false);
    assert_eq!(mesh.kernel.edge_buffer.len(), 1);

    assert_eq!(mesh.face_count(), 0);
    assert_eq!(mesh.get(&FaceIndex::new(0)).is_some(), false);
    assert_eq!(mesh.kernel.face_buffer.len(), 1);

    assert_eq!(mesh.vertex_count(), 0);
    assert_eq!(mesh.get(&VertexIndex::new(0)).is_some(), false);
    assert_eq!(mesh.kernel.vertex_buffer.len(), 1);

    assert_eq!(mesh.point_count(), 0);
    assert_eq!(mesh.get(&PointIndex::new(0)).is_some(), false);
    assert_eq!(mesh.kernel.point_buffer.len(), 1);
}

#[test]
fn can_add_vertices() {
    let mut mesh = Mesh::new();
    let _: VertexIndex = mesh.add(Vertex::default());
    assert_eq!(mesh.vertex_count(), 1);
    assert_eq!(mesh.kernel.vertex_buffer.len(), 2);
}

#[test]
fn can_add_edges() {
    let mut mesh = Mesh::new();
    let _: EdgeIndex = mesh.add(Edge::default());
    assert_eq!(mesh.edge_count(), 1);
    assert_eq!(mesh.kernel.edge_buffer.len(), 2);
}

#[test]
fn can_add_faces() {
    let mut mesh = Mesh::new();
    let _: FaceIndex = mesh.add(Face::default());
    assert_eq!(mesh.face_count(), 1);
    assert_eq!(mesh.kernel.face_buffer.len(), 2);
}

#[test]
fn can_add_points() {
    let mut mesh = Mesh::new();
    let _: PointIndex = mesh.add(Point::default());
    assert_eq!(mesh.point_count(), 1);
    assert_eq!(mesh.kernel.point_buffer.len(), 2);
}

#[test]
fn can_add_and_remove_points() {
    let mut mesh = Mesh::new();

    let points = [
        mesh.add(Point::from_position(pos3(0.0, 0.0, 0.0))),
        mesh.add(Point::from_position(pos3(1.0, 0.0, 0.0))),
        mesh.add(Point::from_position(pos3(1.0, 1.0, 0.0))),
        mesh.add(Point::from_position(pos3(0.0, 1.0, 0.0))),
    ];

    assert_eq!(mesh.point_count(), 4);

    mesh.remove(points[1]);
    assert_eq!(mesh.point_count(), 3);
    assert!(mesh.get(&points[1]).is_none());
    assert!(mesh.get(&points[0]).is_some());
}

#[test]
fn can_add_and_remove_faces() {
    let mut mesh = Mesh::new();
    let p0 = mesh.add(Point::from_position(pos3(-1.0, 0.0, 0.0)));
    let p1 = mesh.add(Point::from_position(pos3(1.0, 0.0, 0.0)));
    let p2 = mesh.add(Point::from_position(pos3(0.0, 1.0, 0.0)));

    let f0 = mesh.add_face(&[p0, p1, p2]);
    assert_eq!(mesh.face_count(), 1);
    assert!(mesh.get(&f0).is_some());

    mesh.remove(f0);
    assert_eq!(mesh.face_count(), 0);
    assert!(mesh.get(&f0).is_none());
}

#[test]
fn can_remove_faces() {
    let mut mesh = Mesh::new();
    let p0 = mesh.add(Point::default());
    let p1 = mesh.add(Point::default());
    let p2 = mesh.add(Point::default());
    let f0 = mesh.add_face(&[p0, p1, p2]);

    mesh.remove(f0);
    assert!(mesh.get(&f0).is_none());
    assert_eq!(mesh.face_count(), 0);
    // the loop's edges survive a raw face removal; they are boundary now
    assert_eq!(mesh.edge_count(), 6);
}

#[test]
fn can_remove_vertices() {
    let mut mesh = Mesh::new();
    let v0 = mesh.add(Vertex::default());
    let v1 = mesh.add(Vertex::default());
    assert_eq!(mesh.vertex_count(), 2);

    mesh.remove(v0);
    assert_eq!(mesh.vertex_count(), 1);
    assert!(mesh.get(&v0).is_none());
    assert!(mesh.get(&v1).is_some());

    // removing the same handle twice is a no-op
    mesh.remove(v0);
    assert_eq!(mesh.vertex_count(), 1);
}

#[test]
fn can_remove_edge() {
    let mut mesh = Mesh::new();
    let e0 = mesh.add(Edge::default());
    let e1 = mesh.add(Edge::default());
    assert_eq!(mesh.edge_count(), 2);

    mesh.remove(e0);
    assert_eq!(mesh.edge_count(), 1);
    assert!(mesh.get(&e0).is_none());
    assert!(mesh.get(&e1).is_some());
}

#[test]
fn can_build_a_simple_mesh() {
    let mut mesh = Mesh::new();
    let points = [
        mesh.add(Point::from_position(pos3(0.0, 0.0, 0.0))),
        mesh.add(Point::from_position(pos3(1.0, 0.0, 0.0))),
        mesh.add(Point::from_position(pos3(1.0, 1.0, 0.0))),
        mesh.add(Point::from_position(pos3(0.0, 1.0, 0.0))),
    ];

    let f0 = mesh.add_face(&[points[0], points[1], points[2]]);
    assert!(mesh.get(&f0).is_some());

    // grow a second triangle out of the diagonal's twin
    let diagonal = mesh.adjacent(mesh.prev(mesh.root_edge(f0)));
    let f1 = mesh.add_face_at(diagonal, &[points[3]]);
    assert!(mesh.get(&f1).is_some());

    assert_eq!(mesh.face_count(), 2);
    assert_eq!(mesh.vertex_count(), 4);
    assert_eq!(mesh.point_count(), 4);
    assert_eq!(mesh.edge_count(), 10);

    // the shared edge is interior, the rest of the first face is boundary
    assert!(!mesh.is_boundary(diagonal));
    assert!(mesh.is_boundary(mesh.root_edge(f0)));
}

#[test]
fn can_build_triangle_list() {
    let mut mesh = Mesh::new();
    let p0 = mesh.add(Point::from_position(pos3(-1.0, 0.0, 0.0)));
    let p1 = mesh.add(Point::from_position(pos3(1.0, 0.0, 0.0)));
    let p2 = mesh.add(Point::from_position(pos3(0.0, 1.0, 0.0)));
    let f0 = mesh.add_face(&[p0, p1, p2]);

    let mut triangles: Vec<[PointIndex; 3]> = Vec::new();
    let faces = mesh.faces();
    for f in faces {
        let verts = mesh.face_vertices(f);
        assert_eq!(verts.len(), 3);
        let corners = [
            mesh.vertex_point(verts[0]),
            mesh.vertex_point(verts[1]),
            mesh.vertex_point(verts[2]),
        ];
        triangles.push(corners);
    }
    assert_eq!(triangles.len(), 1);
    assert_eq!(triangles[0], [p0, p1, p2]);
    assert!(mesh.get(&f0).is_some());
}

#[test]
fn can_iterate_over_faces() {
    let mut mesh = Mesh::new();

    mesh.add(Face::new(EdgeIndex::new(1)));
    mesh.add(Face::new(EdgeIndex::new(4)));
    mesh.add(Face::new(EdgeIndex::new(7)));

    assert_eq!(mesh.face_count(), 3);

    let mut faces_iterated_over = 0;
    for face in mesh.faces() {
        assert!(mesh.get(&face).is_some());
        faces_iterated_over += 1;
    }
    assert_eq!(faces_iterated_over, 3);
}

#[test]
fn can_iterate_over_vertices() {
    let mut mesh = Mesh::new();

    mesh.add(Vertex::new(EdgeIndex::new(1), PointIndex::new(1)));
    mesh.add(Vertex::new(EdgeIndex::new(1), PointIndex::new(1)));
    mesh.add(Vertex::new(EdgeIndex::new(1), PointIndex::new(1)));
    let v = mesh.add(Vertex::new(EdgeIndex::new(4), PointIndex::new(1)));
    mesh.remove(v);

    let mut vertices_iterated_over = 0;
    for vert in mesh.vertices() {
        let data = mesh.get(&vert).expect("a live vertex handle");
        assert_ne!(data.edge_index.offset, 4);
        vertices_iterated_over += 1;
    }
    assert_eq!(vertices_iterated_over, 3);
}

#[test]
fn can_iterate_over_edges() {
    let mut mesh = Mesh::new();

    mesh.add(Edge {
        twin_index: EdgeIndex::new(1),
        next_index: EdgeIndex::new(2),
        prev_index: EdgeIndex::new(3),
        face_index: FaceIndex::new(1),
        vertex_index: VertexIndex::new(1),
    });

    mesh.add(Edge {
        twin_index: EdgeIndex::new(1),
        next_index: EdgeIndex::new(3),
        prev_index: EdgeIndex::new(1),
        face_index: FaceIndex::new(1),
        vertex_index: VertexIndex::new(2),
    });

    mesh.add(Edge {
        twin_index: EdgeIndex::new(1),
        next_index: EdgeIndex::new(1),
        prev_index: EdgeIndex::new(2),
        face_index: FaceIndex::new(1),
        vertex_index: VertexIndex::new(3),
    });

    let mut edges_iterated_over = 0;
    for edge in mesh.edges() {
        assert!(mesh.get(&edge).is_some());
        edges_iterated_over += 1;
    }
    assert_eq!(edges_iterated_over, 3);
}

#[test]
fn can_add_triangles_to_mesh() {
    let mut mesh = Mesh::new();
    let p0 = mesh.add(Point::default());
    let p1 = mesh.add(Point::default());
    let p2 = mesh.add(Point::default());
    let p3 = mesh.add(Point::default());

    let f0 = mesh.add_face(&[p0, p1, p2]);
    let shared = mesh.adjacent(mesh.root_edge(f0));
    let f1 = mesh.add_face_at(shared, &[p3]);

    assert_eq!(mesh.face_count(), 2);
    assert!(mesh.get(&f0).is_some());
    assert!(mesh.get(&f1).is_some());
}

#[test]
fn make_face_returns_an_erased_face_handle() {
    let mut mesh = Mesh::new();
    let p0 = mesh.add(Point::default());
    let p1 = mesh.add(Point::default());
    let p2 = mesh.add(Point::default());
    let points = [p0, p1, p2];

    let h = mesh.make_face(points.as_ref());
    assert!(h.is_valid());
    match h.id() {
        ComponentID::Face(f) => {
            assert!(mesh.get(&f).is_some());
            assert_eq!(h.index(), f.offset);
        },
        _ => panic!("make_face must hand back a face"),
    }
}

#[test]
fn index_equality_ignores_a_sentinel_generation() {
    let stamped: EdgeIndex = Index::with_generation(5, 3);
    let wildcard: EdgeIndex = Index::new(5);
    let other: EdgeIndex = Index::with_generation(5, 4);
    assert_eq!(stamped, wildcard);
    assert_eq!(wildcard, other);
    assert_ne!(stamped, other);
    assert_ne!(stamped, Index::<halfedge::handles::EdgeKind>::with_generation(6, 3));
}
