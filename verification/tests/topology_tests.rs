//! Tests of topology traversal: face edge loops, face vertices, the vertex
//! circulator, boundary reporting and twin symmetry.

use halfedge::elements::{Edge, Point, Position};
use halfedge::handles::{EdgeIndex, FaceIndex, Index, PointIndex};
use halfedge::mesh::Mesh;
use halfedge::operations::EdgeOrder;
use halfedge::traits::{AddElement, GetElement};

fn pos3(x: f64, y: f64, z: f64) -> Position {
    Position::new(x.to_bits(), y.to_bits(), z.to_bits())
}

#[test]
fn can_iterate_over_edges_of_face() {
    let mut mesh = Mesh::new();

    let p0 = mesh.add(Point::from_position(pos3(-1.0, 0.0, 0.0)));
    let p1 = mesh.add(Point::from_position(pos3(1.0, 0.0, 0.0)));
    let p2 = mesh.add(Point::from_position(pos3(0.0, 1.0, 0.0)));

    let f0 = mesh.add_face(&[p0, p1, p2]);
    assert!(mesh.get(&f0).is_some());

    let edges: Vec<EdgeIndex> = mesh.face_edges(f0);
    assert_eq!(edges.len(), 3);

    let mut iter_count = 0;
    for edge in mesh.face_edges(f0) {
        assert!(iter_count < 3);
        let vert = mesh.edge_vertex(edge);
        let point = mesh.vertex_point(vert);
        match iter_count {
            0 => assert_eq!(point, p0),
            1 => assert_eq!(point, p1),
            2 => assert_eq!(point, p2),
            _ => unreachable!(),
        }
        iter_count += 1;
    }
    assert_eq!(iter_count, 3);
}

#[test]
fn can_iterate_over_vertices_of_face() {
    let mut mesh = Mesh::new();

    let p0 = mesh.add(Point::from_position(pos3(-1.0, 0.0, 0.0)));
    let p1 = mesh.add(Point::from_position(pos3(1.0, 0.0, 0.0)));
    let p2 = mesh.add(Point::from_position(pos3(0.0, 1.0, 0.0)));

    let f0 = mesh.add_face(&[p0, p1, p2]);
    assert!(mesh.get(&f0).is_some());

    let mut iter_count = 0;
    for vert in mesh.face_vertices(f0) {
        assert!(mesh.get(&vert).is_some());
        assert!(iter_count < 3);
        let point = mesh.vertex_point(vert);
        match iter_count {
            0 => assert_eq!(point, p0),
            1 => assert_eq!(point, p1),
            2 => assert_eq!(point, p2),
            _ => unreachable!(),
        }
        iter_count += 1;
    }
    assert_eq!(iter_count, 3);
}

fn build_fan(points: [PointIndex; 5], mesh: &mut Mesh) -> FaceIndex {
    let f0 = mesh.add_face(&[points[0], points[1], points[4]]);
    assert!(mesh.get(&f0).is_some());
    assert_eq!(mesh.face_vertices(f0).len(), 3);

    let leading_edge = mesh.adjacent(mesh.next(mesh.root_edge(f0)));
    let f1 = mesh.add_face_at(leading_edge, &[points[2]]);
    assert!(mesh.get(&f1).is_some());
    assert_eq!(mesh.face_vertices(f1).len(), 3);

    let leading_edge = mesh.adjacent(mesh.prev(mesh.root_edge(f1)));
    let f2 = mesh.add_face_at(leading_edge, &[points[3]]);
    assert!(mesh.get(&f2).is_some());
    assert_eq!(mesh.face_vertices(f2).len(), 3);

    let leading_edge = mesh.adjacent(mesh.prev(mesh.root_edge(f2)));
    let closing_edge = mesh.adjacent(mesh.prev(mesh.root_edge(f0)));
    let f3 = mesh.add_face_from_two_edges(leading_edge, closing_edge, EdgeOrder::AC);
    assert!(mesh.get(&f3).is_some());
    assert_eq!(mesh.face_vertices(f3).len(), 3);

    f0
}

#[test]
fn can_iterate_around_vertex() {
    let mut mesh = Mesh::new();

    let points = [
        mesh.add(Point::from_position(pos3(-1.0, 0.0, 0.0))),
        mesh.add(Point::from_position(pos3(0.0, -1.0, 0.0))),
        mesh.add(Point::from_position(pos3(1.0, 0.0, 0.0))),
        mesh.add(Point::from_position(pos3(0.0, 1.0, 0.0))),
        mesh.add(Point::from_position(pos3(0.0, 0.0, 0.0))),
    ];

    let f0 = build_fan(points, &mut mesh);

    let root_vert = {
        let e0 = mesh.root_edge(f0);
        let e1 = mesh.next(e0);
        let e2 = mesh.next(e1);
        let vert = mesh.edge_vertex(e2);
        assert_eq!(mesh.vertex_point(vert), points[4]);
        vert
    };
    assert_eq!(mesh.vertex_edges(root_vert).len(), 4);
}

#[test]
fn can_iterate_edges_around_vertex() {
    let mut mesh = Mesh::new();
    let points = [
        mesh.add(Point::default()),
        mesh.add(Point::default()),
        mesh.add(Point::default()),
        mesh.add(Point::default()),
        mesh.add(Point::default()),
    ];
    let f0 = build_fan(points, &mut mesh);

    let center = mesh.edge_vertex(mesh.next(mesh.next(mesh.root_edge(f0))));
    let ring = mesh.vertex_edges(center);
    assert_eq!(ring.len(), 4);
    for edge in ring {
        assert_eq!(mesh.edge_vertex(edge), center);
    }
}

#[test]
fn vertex_circulator_terminates_on_a_broken_fan() {
    let mut mesh = Mesh::new();
    let points = [
        mesh.add(Point::default()),
        mesh.add(Point::default()),
        mesh.add(Point::default()),
        mesh.add(Point::default()),
        mesh.add(Point::default()),
    ];
    let f0 = build_fan(points, &mut mesh);
    let center = mesh.edge_vertex(mesh.next(mesh.next(mesh.root_edge(f0))));

    // deliberately break one triangle's loop: the center's own outgoing
    // edge loses its prev link, so the circulator hits a dead end
    let outgoing = mesh.vertex_edge(center);
    halfedge::utils::connect_edges(&mut mesh, EdgeIndex::new(0), outgoing);

    // the walk still ends, degrading to a shorter or stranger ring
    // instead of hanging
    let ring = mesh.vertex_edges(center);
    assert!(ring.len() <= mesh.edge_count());
}

#[test]
fn tests_can_build_a_simple_mesh() {
    let mut mesh = Mesh::new();
    let p0 = mesh.add(Point::default());
    let p1 = mesh.add(Point::default());
    let p2 = mesh.add(Point::default());
    let p3 = mesh.add(Point::default());

    let points = [p0, p1, p2, p3];
    let result = halfedge::operator::PolyAppend::from_point_slice(&mut mesh, points.as_ref());
    let f0 = result.expect("four points make a quad");

    assert_eq!(mesh.face_count(), 1);
    assert_eq!(mesh.vertex_count(), 4);
    assert_eq!(mesh.edge_count(), 8);
    assert_eq!(mesh.face_edges(f0).len(), 4);
}

#[test]
fn triangle_scenario_has_expected_counts_and_boundary() {
    let mut mesh = Mesh::new();
    let p0 = mesh.add(Point::from_position(pos3(-1.0, 0.0, 0.0)));
    let p1 = mesh.add(Point::from_position(pos3(1.0, 0.0, 0.0)));
    let p2 = mesh.add(Point::from_position(pos3(0.0, 1.0, 0.0)));

    let f0 = mesh.add_face(&[p0, p1, p2]);

    assert_eq!(mesh.face_count(), 1);
    assert_eq!(mesh.vertex_count(), 3);
    assert_eq!(mesh.edge_count(), 6);

    // the loop has exactly three sides and returns to the root
    let loop_edges = mesh.face_edges(f0);
    assert_eq!(loop_edges.len(), 3);
    assert_eq!(mesh.next(loop_edges[2]), loop_edges[0]);
    assert_eq!(loop_edges[0], mesh.root_edge(f0));

    // it visits the points in order, and every side is boundary
    let expected = [p0, p1, p2];
    for (i, edge) in loop_edges.iter().enumerate() {
        assert_eq!(mesh.vertex_point(mesh.edge_vertex(*edge)), expected[i]);
        assert!(mesh.is_boundary(*edge));
        assert_eq!(mesh.edge_face(*edge), f0);
    }
}

#[test]
fn twin_symmetry_holds_on_a_built_mesh() {
    let mut mesh = Mesh::new();
    let points = [
        mesh.add(Point::default()),
        mesh.add(Point::default()),
        mesh.add(Point::default()),
        mesh.add(Point::default()),
        mesh.add(Point::default()),
    ];
    build_fan(points, &mut mesh);

    for edge in mesh.edges() {
        let twin = mesh.adjacent(edge);
        assert!(mesh.get(&twin).is_some());
        assert_eq!(mesh.adjacent(twin), edge);
    }
}

#[test]
fn boundary_reporting_follows_the_faces() {
    let mut mesh = Mesh::new();
    let p0 = mesh.add(Point::default());
    let p1 = mesh.add(Point::default());
    let p2 = mesh.add(Point::default());
    let p3 = mesh.add(Point::default());

    let f0 = mesh.add_face(&[p0, p1, p2]);
    let shared = mesh.adjacent(mesh.root_edge(f0));
    assert!(mesh.is_boundary(shared));

    let _f1 = mesh.add_face_at(shared, &[p3]);
    // both sides of the shared edge now have a face
    assert!(!mesh.is_boundary(shared));
    assert!(!mesh.is_boundary(mesh.root_edge(f0)));
    // an edge handle that resolves to nothing reads as boundary
    assert!(mesh.is_boundary(Index::new(0)));
}

#[test]
fn face_edges_of_an_unknown_face_is_empty() {
    let mut mesh = Mesh::new();
    let edges = mesh.face_edges(FaceIndex::new(7));
    assert_eq!(edges.len(), 0);
}

#[test]
fn face_neighbors_reports_the_far_faces() {
    let mut mesh = Mesh::new();
    let p0 = mesh.add(Point::default());
    let p1 = mesh.add(Point::default());
    let p2 = mesh.add(Point::default());
    let p3 = mesh.add(Point::default());

    let f0 = mesh.add_face(&[p0, p1, p2]);
    let shared = mesh.adjacent(mesh.root_edge(f0));
    let f1 = mesh.add_face_at(shared, &[p3]);

    // across the first side of f0 lies f1; the other two sides are open
    let neighbors = mesh.face_neighbors(f0);
    assert_eq!(neighbors.len(), 3);
    assert_eq!(neighbors[0], f1);
    assert!(mesh.get(&neighbors[1]).is_none());
    assert!(mesh.get(&neighbors[2]).is_none());

    // the projection itself adds and drops nothing
    let edges = mesh.face_edges(f0);
    let verts = mesh.vertices_of_edges(&edges);
    assert_eq!(verts.len(), edges.len());
}

#[test]
fn connect_to_wires_both_sides_or_neither() {
    let mut mesh = Mesh::new();
    let e0: EdgeIndex = mesh.add(Edge::default());
    let e1: EdgeIndex = mesh.add(Edge::default());

    // one dead side: nothing changes on the live one
    halfedge::utils::connect_to(&mut mesh, e0, EdgeIndex::new(7));
    assert!(!mesh.get(&mesh.next(e0)).is_some());
    assert_eq!(mesh.next(e0), EdgeIndex::new(0));

    // both live: wired in both directions at once
    halfedge::utils::connect_to(&mut mesh, e0, e1);
    assert_eq!(mesh.next(e0), e1);
    assert_eq!(mesh.prev(e1), e0);
}
