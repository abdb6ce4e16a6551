use vstd::prelude::*;

verus! {

/// Represents different ways in which an object is drawn using its vertices and indices.
#[derive(Debug, Clone, Copy, PartialEq, Eq, Hash, Structural)]
pub enum Topology {
    /// Uses every three vertices to form an independent triangle.
    TriangleList,
    /// Forms the first triangle using three vertices, then each subsequent triangle shares the previous two vertices.
    TriangleStrip,
    /// Uses pairs of two vertices to create independent line segments.
    LineList,
    /// Draws a continuous line by connecting each vertex to the next.
    ///
    /// When the material setting `primitive_restart` is true and an index buffer is used,
    /// this line will be split for every index, which has the value of `u32::MAX`.
    LineStrip,
    /// Draws a single point for every vertex.
    PointList,
}

impl Topology {
    /// Whether this topology is a "strip" variant (`TriangleStrip` or `LineStrip`).
    pub open spec fn spec_is_strip(self) -> bool {
        self is TriangleStrip || self is LineStrip
    }

    /// Whether this topology is a "list" variant (`TriangleList`, `LineList`, `PointList`).
    pub open spec fn spec_is_list(self) -> bool {
        self is TriangleList || self is LineList || self is PointList
    }

    /// Returns true if this topology is a "strip" variant (`TriangleStrip` or `LineStrip`).
    pub fn is_strip(&self) -> (r: bool)
        ensures
            r == self.spec_is_strip(),
            r != self.spec_is_list(),
    {
        match self {
            Topology::TriangleStrip | Topology::LineStrip => true,
            _ => false,
        }
    }

    /// Returns true if this topology is a "list" variant (`TriangleList`, `LineList`, `PointList`).
    pub fn is_list(&self) -> (r: bool)
        ensures
            r == self.spec_is_list(),
            r != self.spec_is_strip(),
    {
        match self {
            Topology::TriangleList | Topology::LineList | Topology::PointList => true,
            _ => false,
        }
    }
}

/// Every topology is either a strip or a list, never both.
pub proof fn law_topology_strip_or_list(t: Topology)
    ensures
        t.spec_is_strip() != t.spec_is_list(),
{
}

/// Shader data that can be loaded by the graphics backend inside a material.
#[derive(Clone, Debug, PartialEq, Eq, Hash)]
pub struct GraphicsShaders {
    pub vertex_bytes: Vec<u8>,
    pub fragment_bytes: Option<Vec<u8>>,
    pub vertex_entry_point: String,
    pub fragment_entry_point: Option<String>,
}

impl GraphicsShaders {
    /// Creates shaders of a vertex and a fragment stage, each with the bytes of its module
    /// and the name of its entry point.
    pub fn new(
        vertex_bytes: Vec<u8>,
        vertex_entry_point: String,
        fragment_bytes: Vec<u8>,
        fragment_entry_point: String,
    ) -> (r: Self)
        ensures
            r.vertex_bytes == vertex_bytes,
            r.vertex_entry_point == vertex_entry_point,
            r.fragment_bytes == Some(fragment_bytes),
            r.fragment_entry_point == Some(fragment_entry_point),
    {
        Self {
            vertex_bytes,
            vertex_entry_point,
            fragment_bytes: Some(fragment_bytes),
            fragment_entry_point: Some(fragment_entry_point),
        }
    }

    /// Creates shaders of a vertex stage only.
    pub fn new_no_fragment(vertex_bytes: Vec<u8>, vertex_entry_point: String) -> (r: Self)
        ensures
            r.vertex_bytes == vertex_bytes,
            r.vertex_entry_point == vertex_entry_point,
            r.fragment_bytes is None,
            r.fragment_entry_point is None,
    {
        Self { vertex_bytes, vertex_entry_point, fragment_bytes: None, fragment_entry_point: None }
    }
}

} // verus!
