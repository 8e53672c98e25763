//! A shape: the list of its vertices.

use glam::Vec3;
use vstd::prelude::*;

verus! {

/// `glam::Vec3`, a vector of three floating-point coordinates. Nothing is
/// claimed of what such a value holds: shapes only carry vertices along.
#[verifier::external_type_specification]
#[verifier::external_body]
pub struct ExVec3(Vec3);

/// A shape, given by its vertices in drawing order.
#[derive(Clone, PartialEq, Debug)]
pub struct Shape {
    vertices: Vec<Vec3>,
}

impl View for Shape {
    type V = Seq<Vec3>;

    /// The vertices in drawing order.
    closed spec fn view(&self) -> Seq<Vec3> {
        self.vertices@
    }
}

impl Shape {
    /// The shape with the vertices `vertices`.
    pub fn new(vertices: Vec<Vec3>) -> (shape: Self)
        ensures
            shape@ == vertices@,
    {
        Self { vertices }
    }

    /// The triangle with the corners `v1`, `v2`, `v3`.
    pub fn new_triangle(v1: Vec3, v2: Vec3, v3: Vec3) -> (shape: Self)
        ensures
            shape@ == seq![v1, v2, v3],
    {
        Self { vertices: vec![v1, v2, v3] }
    }

    /// The rectangle with the corners `v1`, `v2`, `v3`, `v4`.
    pub fn new_rectangle(v1: Vec3, v2: Vec3, v3: Vec3, v4: Vec3) -> (shape: Self)
        ensures
            shape@ == seq![v1, v2, v3, v4],
    {
        Self { vertices: vec![v1, v2, v3, v4] }
    }

    /// The vertices in drawing order.
    pub fn get_vertices(&self) -> (vertices: &Vec<Vec3>)
        ensures
            vertices@ == self@,
    {
        &self.vertices
    }
}

} // verus!
