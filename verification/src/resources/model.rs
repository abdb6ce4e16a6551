use vstd::prelude::*;

use super::buffer::BufferAccess;
use super::Format;

verus! {

/// Vertex and optional index data for the appearance and shape of objects.
///
/// The maximum size symbolizes the biggest size of vertices and if indexed, the biggest
/// size of indices the model is allowed to have.
///
/// up is -y, down is +y.
/// right is +x und left is -x.
#[derive(Debug)]
pub struct Model<V> {
    vertices: Vec<V>,
    indices: Vec<u32>,
    max_vertices: usize,
    max_indices: usize,
    buffer_access: BufferAccess,
}

impl<V> Model<V> {
    /// The vertices of this model.
    pub closed spec fn spec_vertices(&self) -> Seq<V> {
        self.vertices@
    }

    /// The indices of this model.
    pub closed spec fn spec_indices(&self) -> Seq<u32> {
        self.indices@
    }

    /// The largest number of vertices this model may hold.
    pub closed spec fn spec_max_vertices(&self) -> usize {
        self.max_vertices
    }

    /// The largest number of indices this model may hold.
    pub closed spec fn spec_max_indices(&self) -> usize {
        self.max_indices
    }

    /// The buffer access method of this model.
    pub closed spec fn spec_buffer_access(&self) -> BufferAccess {
        self.buffer_access
    }

    /// A model allows at least one vertex, and its vertices and indices never exceed their
    /// maximum counts.
    pub open spec fn wf(&self) -> bool {
        &&& self.spec_max_vertices() >= 1
        &&& self.spec_vertices().len() <= self.spec_max_vertices()
        &&& self.spec_indices().len() <= self.spec_max_indices()
    }

    /// An empty model allowing one vertex and no indices, with the given access method.
    pub fn with_access(buffer_access: BufferAccess) -> (r: Self)
        ensures
            r.wf(),
            r.spec_vertices() == Seq::<V>::empty(),
            r.spec_indices() == Seq::<u32>::empty(),
            r.spec_max_vertices() == 1,
            r.spec_max_indices() == 0,
            r.spec_buffer_access() == buffer_access,
    {
        Self {
            vertices: Vec::new(),
            indices: Vec::new(),
            max_vertices: 1,
            max_indices: 0,
            buffer_access,
        }
    }

    /// Creates a new model with vertices and an empty index buffer and the maximum
    /// size set to the length of the provided vertex buffer.
    ///
    /// In case the length of vertices equals `0`, the default maximum vertex length of `1` will be
    /// used. This is not that useful or intended most of the time, so if this model is meant
    /// to be dynamically sized, use [`new_maxed`](Self::new_maxed) instead.
    pub fn new(vertices: Vec<V>, buffer_access: BufferAccess) -> (r: Self)
        ensures
            r.wf(),
            r.spec_vertices() == vertices@,
            r.spec_indices() == Seq::<u32>::empty(),
            r.spec_max_vertices() == max_usize(vertices@.len() as usize, 1),
            r.spec_max_indices() == 0,
            r.spec_buffer_access() == buffer_access,
    {
        Self::new_maxed(vertices, 1, buffer_access)
    }

    /// Creates a new model with vertices, no index buffer and the given
    /// maximum vertex buffer size.
    ///
    /// The actual maximum vertices length is the maximum between `max_size` and `vertices.len()`
    ///
    /// A maximum of `0` is not accepted; accepted sizes are `1` or higher.
    pub fn new_maxed(vertices: Vec<V>, max_vertices: usize, buffer_access: BufferAccess) -> (r: Self)
        requires
            max_vertices >= 1,
        ensures
            r.wf(),
            r.spec_vertices() == vertices@,
            r.spec_indices() == Seq::<u32>::empty(),
            r.spec_max_vertices() == max_usize(vertices@.len() as usize, max_vertices),
            r.spec_max_indices() == 0,
            r.spec_buffer_access() == buffer_access,
    {
        let max_vertices = max_usize_exec(vertices.len(), max_vertices);
        Self { vertices, indices: Vec::new(), max_vertices, max_indices: 0, buffer_access }
    }

    /// Creates a new model with vertices and indices.
    ///
    /// If indices is empty, this object will be non indexed. If this object is meant to be indexed, where the actual
    /// index data comes in later, use [`new_indexed_maxed`](Self::new_indexed_maxed) instead.
    pub fn new_indexed(vertices: Vec<V>, indices: Vec<u32>, buffer_access: BufferAccess) -> (r: Self)
        ensures
            r.wf(),
            r.spec_vertices() == vertices@,
            r.spec_indices() == indices@,
            r.spec_max_vertices() == max_usize(vertices@.len() as usize, 1),
            r.spec_max_indices() == indices@.len(),
            r.spec_buffer_access() == buffer_access,
    {
        Self::new_indexed_maxed(vertices, indices, 1, 0, buffer_access)
    }

    /// Creates a new model with vertices and indices.
    ///
    /// The actual maximum vertices length is the maximum between `max_size` and `vertices.len()`
    ///
    /// If indices is empty and `max_indices` equals `0`, this object will be non indexed.
    ///
    /// A maximum of `0` is not accepted; accepted sizes are `1` or higher.
    pub fn new_indexed_maxed(
        vertices: Vec<V>,
        indices: Vec<u32>,
        max_vertices: usize,
        max_indices: usize,
        buffer_access: BufferAccess,
    ) -> (r: Self)
        requires
            max_vertices >= 1,
        ensures
            r.wf(),
            r.spec_vertices() == vertices@,
            r.spec_indices() == indices@,
            r.spec_max_vertices() == max_usize(vertices@.len() as usize, max_vertices),
            r.spec_max_indices() == max_usize(indices@.len() as usize, max_indices),
            r.spec_buffer_access() == buffer_access,
    {
        let max_vertices = max_usize_exec(vertices.len(), max_vertices);
        let max_indices = max_usize_exec(indices.len(), max_indices);
        Self { vertices, indices, max_vertices, max_indices, buffer_access }
    }

    /// Returns a slice to the vertices of this model.
    pub fn vertices(&self) -> (r: &[V])
        ensures
            r@ == self.spec_vertices(),
    {
        self.vertices.as_slice()
    }

    /// Returns a mutable slice of the vertices of this model.
    pub fn vertices_mut(&mut self) -> (r: &mut [V])
        ensures
            r@ == old(self).spec_vertices(),
            final(self).spec_vertices() == final(r)@,
            final(self).spec_indices() == old(self).spec_indices(),
            final(self).spec_max_vertices() == old(self).spec_max_vertices(),
            final(self).spec_max_indices() == old(self).spec_max_indices(),
            final(self).spec_buffer_access() == old(self).spec_buffer_access(),
    {
        self.vertices.as_mut_slice()
    }

    /// Sets the vertices of this buffer to the given buffer.
    ///
    /// This method raises the `max_vertices` bar of this model in case
    /// `vertices.len()` is bigger than `max_vertices`
    pub fn set_vertices(&mut self, vertices: Vec<V>)
        requires
            old(self).wf(),
        ensures
            final(self).wf(),
            final(self).spec_vertices() == vertices@,
            final(self).spec_max_vertices() == max_usize(
                old(self).spec_max_vertices(),
                vertices@.len() as usize,
            ),
            final(self).spec_indices() == old(self).spec_indices(),
            final(self).spec_max_indices() == old(self).spec_max_indices(),
            final(self).spec_buffer_access() == old(self).spec_buffer_access(),
    {
        self.max_vertices = max_usize_exec(self.max_vertices, vertices.len());
        self.vertices = vertices;
    }

    /// Sets the maximum amount of vertices for this buffer.
    ///
    /// `max_vertices` will be set to the max of the length of the current vertex buffer and
    /// the provided `max_vertices`.
    ///
    /// A maximum of `0` is not accepted; accepted sizes are `1` or higher.
    pub fn set_max_vertices(&mut self, max_vertices: usize)
        requires
            old(self).wf(),
            max_vertices >= 1,
        ensures
            final(self).wf(),
            final(self).spec_max_vertices() == max_usize(old(self).spec_vertices().len() as usize, max_vertices),
            final(self).spec_vertices() == old(self).spec_vertices(),
            final(self).spec_indices() == old(self).spec_indices(),
            final(self).spec_max_indices() == old(self).spec_max_indices(),
            final(self).spec_buffer_access() == old(self).spec_buffer_access(),
    {
        self.max_vertices = max_usize_exec(self.vertices.len(), max_vertices);
    }

    /// Sets the indices of this buffer to the given buffer.
    ///
    /// This method raises the `max_indices` bar of this model in case
    /// `indices.len()` is bigger than `max_indices`
    pub fn set_indices(&mut self, indices: Vec<u32>)
        requires
            old(self).wf(),
        ensures
            final(self).wf(),
            final(self).spec_indices() == indices@,
            final(self).spec_max_indices() == max_usize(indices@.len() as usize, old(self).spec_max_indices()),
            final(self).spec_vertices() == old(self).spec_vertices(),
            final(self).spec_max_vertices() == old(self).spec_max_vertices(),
            final(self).spec_buffer_access() == old(self).spec_buffer_access(),
    {
        self.max_indices = max_usize_exec(indices.len(), self.max_indices);
        self.indices = indices;
    }

    /// Sets the maximum amount of indices for this buffer.
    ///
    /// `max_indices` will be set to the max of the length of the current index buffer and the
    /// provided `max_indices`.
    pub fn set_max_indices(&mut self, max_indices: usize)
        requires
            old(self).wf(),
        ensures
            final(self).wf(),
            final(self).spec_max_indices() == max_usize(old(self).spec_indices().len() as usize, max_indices),
            final(self).spec_vertices() == old(self).spec_vertices(),
            final(self).spec_indices() == old(self).spec_indices(),
            final(self).spec_max_vertices() == old(self).spec_max_vertices(),
            final(self).spec_buffer_access() == old(self).spec_buffer_access(),
    {
        self.max_indices = max_usize_exec(self.indices.len(), max_indices);
    }

    /// Returns a slice of the indices of this model.
    pub fn indices(&self) -> (r: &[u32])
        ensures
            r@ == self.spec_indices(),
    {
        self.indices.as_slice()
    }

    /// Returns a mutable slice of the indices of this model.
    pub fn indices_mut(&mut self) -> (r: &mut [u32])
        ensures
            r@ == old(self).spec_indices(),
            final(self).spec_indices() == final(r)@,
            final(self).spec_vertices() == old(self).spec_vertices(),
            final(self).spec_max_vertices() == old(self).spec_max_vertices(),
            final(self).spec_max_indices() == old(self).spec_max_indices(),
            final(self).spec_buffer_access() == old(self).spec_buffer_access(),
    {
        self.indices.as_mut_slice()
    }

    /// Returns if the data of the vertices is empty.
    pub fn is_empty(&self) -> (r: bool)
        ensures
            r == (self.spec_vertices().len() == 0),
    {
        self.vertices.len() == 0
    }

    /// Checks whether the model is indexed: whether it allows any index.
    pub fn is_indexed(&self) -> (r: bool)
        ensures
            r == (self.spec_max_indices() != 0),
    {
        self.max_indices != 0
    }

    /// Returns the number of elements present in the vertex buffer.
    pub fn vertex_len(&self) -> (r: usize)
        ensures
            r == self.spec_vertices().len(),
    {
        self.vertices.len()
    }

    /// Returns the number of elements present in the index buffer.
    ///
    /// Returns 0 when this model is not indexed.
    pub fn index_len(&self) -> (r: usize)
        ensures
            r == self.spec_indices().len(),
    {
        self.indices.len()
    }

    /// Returns the maximum amount of vertices allowed in this model.
    pub fn max_vertices(&self) -> (r: usize)
        ensures
            r == self.spec_max_vertices(),
    {
        self.max_vertices
    }

    /// Returns the maximum amount of indices allowed in this model.
    pub fn max_indices(&self) -> (r: usize)
        ensures
            r == self.spec_max_indices(),
    {
        self.max_indices
    }

    /// Returns the buffer access method used for this model.
    pub fn buffer_access(&self) -> (r: &BufferAccess)
        ensures
            *r == self.spec_buffer_access(),
    {
        &self.buffer_access
    }
}

impl<V> Default for Model<V> {
    /// An empty fixed model allowing one vertex and no indices.
    fn default() -> (r: Self)
        ensures
            r.wf(),
            r.spec_vertices() == Seq::<V>::empty(),
            r.spec_indices() == Seq::<u32>::empty(),
            r.spec_max_vertices() == 1,
            r.spec_max_indices() == 0,
            r.spec_buffer_access() == BufferAccess::Fixed,
    {
        Self {
            vertices: Vec::new(),
            indices: Vec::new(),
            max_vertices: 1,
            max_indices: 0,
            buffer_access: BufferAccess::Fixed,
        }
    }
}

/// The larger of two numbers.
pub open spec fn max_usize(a: usize, b: usize) -> usize {
    if a >= b {
        a
    } else {
        b
    }
}

fn max_usize_exec(a: usize, b: usize) -> (r: usize)
    ensures
        r == max_usize(a, b),
{
    if a >= b {
        a
    } else {
        b
    }
}

/// Information about a member of a vertex struct.
#[derive(Clone, Copy, Debug, PartialEq, Eq, Structural)]
pub struct VertexMemberInfo {
    /// The offset of the member in bytes from the start of the struct.
    pub offset: u32,
    /// The attribute format of the member. Implicitly provides the number of components.
    pub format: Format,
    /// The number of consecutive array elements or matrix columns using `format`.
    /// The corresponding number of locations might differ depending on the size of the format.
    pub num_elements: u32,
    /// If `num_elements` is greater than 1, the stride in bytes between the start of consecutive
    /// elements.
    pub stride: u32,
}

/// The number of nonzero entries of `s`.
pub open spec fn count_nonzero(s: Seq<u8>) -> nat
    decreases s.len(),
{
    if s.len() == 0 {
        0
    } else {
        count_nonzero(s.drop_last()) + if s.last() > 0 {
            1nat
        } else {
            0nat
        }
    }
}

impl VertexMemberInfo {
    /// Returns the number of components of the format: those with a nonzero bit count.
    pub fn num_components(&self) -> (r: u32)
        ensures
            r == count_nonzero(self.format.spec_components()),
            1 <= r <= 4,
    {
        let components = self.format.components();
        let mut count: u32 = 0;
        let mut i: usize = 0;
        while i < 4
            invariant
                i <= 4,
                components@ == self.format.spec_components(),
                components@.len() == 4,
                count == count_nonzero(components@.take(i as int)),
                count <= i,
                i >= 1 ==> count >= 1,
                components[0] > 0,
            decreases 4 - i,
        {
            proof {
                assert(components@.take(i + 1).drop_last() =~= components@.take(i as int));
            }
            if components[i] > 0 {
                count = count + 1;
            }
            i = i + 1;
        }
        proof {
            assert(components@.take(4) =~= components@);
        }
        count
    }
}

/// The indices of a fan of `corners` triangles around vertex 0 through the rim vertices
/// `1..=corners`, closing the circle: triangle `t` is `(0, t + 1, t + 2)`, and the last one
/// `(0, corners, 1)`.
pub open spec fn spec_circle_indices(corners: u32) -> Seq<u32> {
    Seq::new(
        (3 * corners) as nat,
        |i: int|
            {
                let t = i / 3;
                if i % 3 == 0 {
                    0u32
                } else if i % 3 == 1 {
                    (t + 1) as u32
                } else if t + 1 < corners {
                    (t + 2) as u32
                } else {
                    1u32
                }
            },
    )
}

/// The indices of an open fan of `corners` triangles around vertex 0 through the rim vertices
/// `1..=corners + 1`: triangle `t` is `(0, t + 1, t + 2)`.
pub open spec fn spec_pie_indices(corners: u32) -> Seq<u32> {
    Seq::new(
        (3 * corners) as nat,
        |i: int|
            {
                let t = i / 3;
                if i % 3 == 0 {
                    0u32
                } else if i % 3 == 1 {
                    (t + 1) as u32
                } else {
                    (t + 2) as u32
                }
            },
    )
}

/// Returns the index buffer of the circle fan that `circle!` builds with `corners` corners:
/// vertex 0 is the center and vertices `1..=corners` lie on the rim.
///
/// A fan needs at least one corner.
pub fn circle_indices(corners: u32) -> (r: Vec<u32>)
    requires
        corners >= 1,
        3 * corners <= usize::MAX,
    ensures
        r@ == spec_circle_indices(corners),
        forall|i: int| 0 <= i < r@.len() ==> #[trigger] r@[i] <= corners,
{
    let mut indices: Vec<u32> = Vec::new();
    let mut i: u32 = 0;
    while i < corners - 1
        invariant
            1 <= corners,
            3 * corners <= usize::MAX,
            i <= corners - 1,
            indices@.len() == 3 * i,
            forall|k: int| 0 <= k < indices@.len() ==> #[trigger] indices@[k] == spec_circle_indices(corners)[k],
        decreases corners - 1 - i,
    {
        proof {
            lemma_triangle_entries(i as int);
        }
        indices.push(0);
        indices.push(i + 1);
        indices.push(i + 2);
        i = i + 1;
    }
    proof {
        lemma_triangle_entries(i as int);
    }
    indices.push(0);
    indices.push(corners);
    indices.push(1);
    proof {
        assert(indices@ =~= spec_circle_indices(corners));
    }
    indices
}

/// Returns the index buffer of the pie fan that `circle!` builds with `corners` corners and a
/// missing part: vertex 0 is the center and vertices `1..=corners + 1` lie on the rim.
///
/// A fan needs at least one corner.
pub fn pie_indices(corners: u32) -> (r: Vec<u32>)
    requires
        1 <= corners < u32::MAX,
        3 * corners <= usize::MAX,
    ensures
        r@ == spec_pie_indices(corners),
        forall|i: int| 0 <= i < r@.len() ==> #[trigger] r@[i] <= corners + 1,
{
    let mut indices: Vec<u32> = Vec::new();
    let mut i: u32 = 0;
    while i < corners
        invariant
            1 <= corners < u32::MAX,
            3 * corners <= usize::MAX,
            i <= corners,
            indices@.len() == 3 * i,
            forall|k: int| 0 <= k < indices@.len() ==> #[trigger] indices@[k] == spec_pie_indices(corners)[k],
        decreases corners - i,
    {
        proof {
            lemma_triangle_entries(i as int);
        }
        indices.push(0);
        indices.push(i + 1);
        indices.push(i + 2);
        i = i + 1;
    }
    proof {
        assert(indices@ =~= spec_pie_indices(corners));
    }
    indices
}

/// The entries `3t`, `3t + 1`, `3t + 2` of an index buffer belong to triangle `t`.
proof fn lemma_triangle_entries(t: int)
    requires
        t >= 0,
    ensures
        (3 * t) / 3 == t,
        (3 * t) % 3 == 0,
        (3 * t + 1) / 3 == t,
        (3 * t + 1) % 3 == 1,
        (3 * t + 2) / 3 == t,
        (3 * t + 2) % 3 == 2,
{
}

} // verus!
