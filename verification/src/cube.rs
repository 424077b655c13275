//! The fixed geometry of the cube: eight vertices, one at each corner with
//! coordinates of plus or minus one, and the twelve edges between them.

use vstd::prelude::*;

verus! {

/// The number of vertices of the cube.
pub const VERTEX_COUNT: usize = 8;

/// The number of edges of the cube.
pub const EDGE_COUNT: usize = 12;

/// The coordinate of a vertex on the low side of an axis.
pub const LOW: i8 = -1;

/// The coordinate of a vertex on the high side of an axis.
pub const HIGH: i8 = 1;

/// A corner of the cube. Each coordinate is `LOW` or `HIGH`.
#[derive(Clone, Copy, Debug, PartialEq, Eq, Structural)]
pub struct Vertex {
    pub x: i8,
    pub y: i8,
    pub z: i8,
}

/// An edge of the cube, as the indices of the two vertices it joins.
#[derive(Clone, Copy, Debug, PartialEq, Eq, Structural)]
pub struct Edge {
    pub from: usize,
    pub to: usize,
}

/// The vertices in their fixed order: the back face (`z == LOW`) counter
/// clockwise from the lower left, then the front face in the same order.
pub open spec fn vertex_table() -> Seq<Vertex> {
    seq![
        Vertex { x: LOW, y: LOW, z: LOW },
        Vertex { x: HIGH, y: LOW, z: LOW },
        Vertex { x: HIGH, y: HIGH, z: LOW },
        Vertex { x: LOW, y: HIGH, z: LOW },
        Vertex { x: LOW, y: LOW, z: HIGH },
        Vertex { x: HIGH, y: LOW, z: HIGH },
        Vertex { x: HIGH, y: HIGH, z: HIGH },
        Vertex { x: LOW, y: HIGH, z: HIGH },
    ]
}

/// The edges in their fixed order: the four of the back face, the four of
/// the front face, then the four that join the two faces.
pub open spec fn edge_table() -> Seq<Edge> {
    seq![
        Edge { from: 0, to: 1 },
        Edge { from: 1, to: 2 },
        Edge { from: 2, to: 3 },
        Edge { from: 3, to: 0 },
        Edge { from: 4, to: 5 },
        Edge { from: 5, to: 6 },
        Edge { from: 6, to: 7 },
        Edge { from: 7, to: 4 },
        Edge { from: 0, to: 4 },
        Edge { from: 1, to: 5 },
        Edge { from: 2, to: 6 },
        Edge { from: 3, to: 7 },
    ]
}

/// The number of coordinates in which two vertices differ.
pub open spec fn differing_coordinates(a: Vertex, b: Vertex) -> int {
    (if a.x != b.x { 1int } else { 0int })
        + (if a.y != b.y { 1int } else { 0int })
        + (if a.z != b.z { 1int } else { 0int })
}

/// The eight vertices of the cube.
pub fn vertices() -> (table: [Vertex; 8])
    ensures
        table@ == vertex_table(),
{
    let table = [
        Vertex { x: LOW, y: LOW, z: LOW },
        Vertex { x: HIGH, y: LOW, z: LOW },
        Vertex { x: HIGH, y: HIGH, z: LOW },
        Vertex { x: LOW, y: HIGH, z: LOW },
        Vertex { x: LOW, y: LOW, z: HIGH },
        Vertex { x: HIGH, y: LOW, z: HIGH },
        Vertex { x: HIGH, y: HIGH, z: HIGH },
        Vertex { x: LOW, y: HIGH, z: HIGH },
    ];
    assert(table@ =~= vertex_table());
    table
}

/// The twelve edges of the cube.
pub fn edges() -> (table: [Edge; 12])
    ensures
        table@ == edge_table(),
{
    let table = [
        Edge { from: 0, to: 1 },
        Edge { from: 1, to: 2 },
        Edge { from: 2, to: 3 },
        Edge { from: 3, to: 0 },
        Edge { from: 4, to: 5 },
        Edge { from: 5, to: 6 },
        Edge { from: 6, to: 7 },
        Edge { from: 7, to: 4 },
        Edge { from: 0, to: 4 },
        Edge { from: 1, to: 5 },
        Edge { from: 2, to: 6 },
        Edge { from: 3, to: 7 },
    ];
    assert(table@ =~= edge_table());
    table
}

/// The geometry keeps its shape: there are eight vertices and twelve edges.
pub proof fn law_table_sizes()
    ensures
        vertex_table().len() == VERTEX_COUNT,
        edge_table().len() == EDGE_COUNT,
{
}

/// Every coordinate of every vertex is `HIGH` or `LOW`, and no two vertices
/// are the same corner.
pub proof fn law_vertices_are_the_corners(i: int, j: int)
    requires
        0 <= i < 8,
        0 <= j < 8,
    ensures
        vertex_table()[i].x == HIGH || vertex_table()[i].x == LOW,
        vertex_table()[i].y == HIGH || vertex_table()[i].y == LOW,
        vertex_table()[i].z == HIGH || vertex_table()[i].z == LOW,
        i != j ==> vertex_table()[i] != vertex_table()[j],
{
}

/// Every edge joins two vertices of the table, and they are neighbouring
/// corners: they differ in exactly one coordinate.
pub proof fn law_edges_join_neighbours(e: int)
    requires
        0 <= e < 12,
    ensures
        edge_table()[e].from < 8,
        edge_table()[e].to < 8,
        differing_coordinates(
            vertex_table()[edge_table()[e].from as int],
            vertex_table()[edge_table()[e].to as int],
        ) == 1,
{
}

/// No two edges of the table join the same pair of vertices, in either
/// direction.
pub proof fn law_edges_are_distinct(d: int, e: int)
    requires
        0 <= d < 12,
        0 <= e < 12,
        d != e,
    ensures
        !(edge_table()[d].from == edge_table()[e].from && edge_table()[d].to == edge_table()[e].to),
        !(edge_table()[d].from == edge_table()[e].to && edge_table()[d].to == edge_table()[e].from),
{
}

} // verus!
