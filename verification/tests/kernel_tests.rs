//! Tests of the storage kernel: round trips, handle invalidation, slot
//! reuse, compaction, and the operator layer's argument checking.

use halfedge::buffer::CompactableBuffer;
use halfedge::elements::{Point, Position};
use halfedge::handles::{EdgeKind, Index, PointIndex};
use halfedge::kernel::Kernel;
use halfedge::mesh::Mesh;
use halfedge::operator::{OperatorError, PolyAppend};
use halfedge::traits::{AddElement, GetElement, RemoveElement};

fn pos3(x: f64, y: f64, z: f64) -> Position {
    Position::new(x.to_bits(), y.to_bits(), z.to_bits())
}

#[test]
fn add_then_get_returns_the_same_element() {
    let mut buffer: CompactableBuffer<EdgeKind, u64> = CompactableBuffer::default();
    let h = buffer.add(42);
    assert_eq!(buffer.get(&h), Some(&42));
    let h2 = buffer.add(7);
    assert_eq!(buffer.get(&h2), Some(&7));
    assert_eq!(buffer.get(&h), Some(&42));
    assert_eq!(buffer.len(), 3);
}

#[test]
fn removal_invalidates_the_handle_for_good() {
    let mut buffer: CompactableBuffer<EdgeKind, u64> = CompactableBuffer::default();
    let h = buffer.add(42);
    assert!(buffer.get(&h).is_some());

    buffer.remove(h);
    assert!(buffer.get(&h).is_none());

    // the freed slot is reused, but under a new generation
    let h2 = buffer.add(43);
    assert_eq!(h2.offset, h.offset);
    assert_ne!(h2.generation, h.generation);
    assert_eq!(buffer.get(&h2), Some(&43));
    assert!(buffer.get(&h).is_none());
}

#[test]
fn a_sentinel_generation_skips_the_generation_check() {
    let mut buffer: CompactableBuffer<EdgeKind, u64> = CompactableBuffer::default();
    let h = buffer.add(42);
    let wildcard: Index<EdgeKind> = Index::new(h.offset);
    assert_eq!(buffer.get(&wildcard), Some(&42));
    buffer.remove(h);
    assert!(buffer.get(&wildcard).is_none());
}

#[test]
fn compaction_drops_inactive_cells_and_remaps() {
    let mut buffer: CompactableBuffer<EdgeKind, u64> = CompactableBuffer::default();
    let a = buffer.add(10);
    let b = buffer.add(20);
    let c = buffer.add(30);
    buffer.remove(b);
    assert!(buffer.has_inactive_cells());

    let remap = buffer.compact();
    assert!(!buffer.has_inactive_cells());
    assert_eq!(buffer.len(), 3); // reserved slot + two live elements
    assert_eq!(remap.len(), 4);
    assert_eq!(remap[0], 0);
    assert_eq!(remap[a.offset as usize], 1);
    assert_eq!(remap[b.offset as usize], 0);
    assert_eq!(remap[c.offset as usize], 2);

    // the survivors sit at their remapped offsets with their generations
    let a2: Index<EdgeKind> = Index::with_generation(remap[a.offset as usize], a.generation);
    let c2: Index<EdgeKind> = Index::with_generation(remap[c.offset as usize], c.generation);
    assert_eq!(buffer.get(&a2), Some(&10));
    assert_eq!(buffer.get(&c2), Some(&30));
}

#[test]
fn kernel_compaction_preserves_the_active_mesh() {
    let mut mesh = Mesh::new();
    let p0 = mesh.add(Point::from_position(pos3(-1.0, 0.0, 0.0)));
    let p1 = mesh.add(Point::from_position(pos3(1.0, 0.0, 0.0)));
    let p2 = mesh.add(Point::from_position(pos3(0.0, 1.0, 0.0)));
    let stale = mesh.add(Point::from_position(pos3(9.0, 9.0, 9.0)));

    let f0 = mesh.add_face(&[p0, p1, p2]);
    mesh.remove(stale);
    let expected_positions = [
        mesh.get(&p0).unwrap().position,
        mesh.get(&p1).unwrap().position,
        mesh.get(&p2).unwrap().position,
    ];

    assert!(mesh.kernel.can_be_compacted());
    mesh.compact();

    // same number of live elements, no inactive cells left
    assert_eq!(mesh.face_count(), 1);
    assert_eq!(mesh.vertex_count(), 3);
    assert_eq!(mesh.edge_count(), 6);
    assert_eq!(mesh.point_count(), 3);
    assert!(!mesh.kernel.can_be_compacted());

    // every adjacency still dereferences: walk the face loop again
    let faces = mesh.faces();
    assert_eq!(faces.len(), 1);
    let loop_edges = mesh.face_edges(faces[0]);
    assert_eq!(loop_edges.len(), 3);
    for (i, edge) in loop_edges.iter().enumerate() {
        let vert = mesh.edge_vertex(*edge);
        let point = mesh.vertex_point(vert);
        assert_eq!(mesh.get(&point).unwrap().position, expected_positions[i]);
        assert!(mesh.is_boundary(*edge));
        let twin = mesh.adjacent(*edge);
        assert_eq!(mesh.adjacent(twin), *edge);
    }
    // nothing before the dropped point moved here, so the old face handle
    // still resolves; in general a compaction invalidates outstanding offsets
    assert!(mesh.get(&f0).is_some());
}

#[test]
fn compaction_with_nothing_inactive_changes_nothing() {
    let mut mesh = Mesh::new();
    let p0 = mesh.add(Point::default());
    let p1 = mesh.add(Point::default());
    let p2 = mesh.add(Point::default());
    let f0 = mesh.add_face(&[p0, p1, p2]);
    assert!(!mesh.kernel.can_be_compacted());

    mesh.compact();
    assert_eq!(mesh.point_count(), 3);
    assert_eq!(mesh.face_count(), 1);
    assert_eq!(mesh.edge_count(), 6);
    // nothing moved: the old handles still resolve
    assert!(mesh.get(&p0).is_some());
    assert!(mesh.get(&f0).is_some());
    assert_eq!(mesh.face_edges(f0).len(), 3);
}

#[test]
fn too_few_points_are_invalid_arguments() {
    let mut mesh = Mesh::new();
    let p0 = mesh.add(Point::default());
    let p1 = mesh.add(Point::default());
    let points = [p0, p1];
    let result = PolyAppend::from_point_slice(&mut mesh, points.as_ref());
    assert_eq!(result, Err(OperatorError::InvalidArguments));
    assert_eq!(mesh.face_count(), 0);
    assert_eq!(mesh.edge_count(), 0);
}

#[test]
fn a_dead_vertex_is_an_invalid_argument() {
    let mut mesh = Mesh::new();
    let p0 = mesh.add(Point::default());
    let p1 = mesh.add(Point::default());
    let p2 = mesh.add(Point::default());
    let f0 = mesh.add_face(&[p0, p1, p2]);
    let verts = mesh.face_vertices(f0);
    let dead = verts[1];
    mesh.remove(dead);

    let args = [verts[0], dead, verts[2]];
    let result = PolyAppend::from_vertex_slice(&mut mesh, args.as_ref());
    assert_eq!(result, Err(OperatorError::InvalidArguments));

    let live = [verts[0], verts[2], verts[0]];
    let _ = PolyAppend::new();
    assert!(PolyAppend::from_vertex_slice(&mut mesh, live.as_ref()).is_ok());
}

#[test]
fn tag_counter_marches_forward() {
    let mut mesh = Mesh::new();
    let t0 = mesh.next_tag();
    let t1 = mesh.next_tag();
    let t2 = mesh.next_tag();
    assert_eq!(t0, 1);
    assert_eq!(t1, 2);
    assert_eq!(t2, 3);
}

#[test]
fn fresh_kernel_buffers_hold_only_the_reserved_slot() {
    let kernel = Kernel::default();
    assert_eq!(kernel.edge_count(), 0);
    assert_eq!(kernel.face_count(), 0);
    assert_eq!(kernel.vertex_count(), 0);
    assert_eq!(kernel.point_count(), 0);
    assert!(!kernel.can_be_compacted());
}

#[test]
fn points_survive_their_buffer_round_trip() {
    let mut mesh = Mesh::new();
    let position = pos3(2.5, -3.5, 0.25);
    let p = mesh.add(Point::from_position(position));
    let fetched: PointIndex = p;
    assert_eq!(mesh.get(&fetched).unwrap().position, position);
    assert_eq!(position.x, (2.5f64).to_bits());
}
