use vstd::prelude::*;

verus! {

/// Data to be loaded into a GPU buffer, with its intended usage and access pattern.
#[derive(Debug, Clone, Copy)]
pub struct Buffer<T> {
    data: T,
    usage: BufferUsage,
    buffer_access: BufferAccess,
}

impl<T> Buffer<T> {
    /// The data held by this buffer.
    pub closed spec fn spec_data(&self) -> T {
        self.data
    }

    /// The intended usage of this buffer.
    pub closed spec fn spec_usage(&self) -> BufferUsage {
        self.usage
    }

    /// The access pattern this buffer is optimized for.
    pub closed spec fn spec_optimisation(&self) -> BufferAccess {
        self.buffer_access
    }

    /// Creates a buffer holding `data` with the given usage and access pattern.
    pub fn from_data(usage: BufferUsage, optimisation: BufferAccess, data: T) -> (r: Self)
        ensures
            r.spec_data() == data,
            r.spec_usage() == usage,
            r.spec_optimisation() == optimisation,
    {
        Self { data, usage, buffer_access: optimisation }
    }

    /// Returns the intended usage of this buffer.
    pub fn usage(&self) -> (r: &BufferUsage)
        ensures
            *r == self.spec_usage(),
    {
        &self.usage
    }

    /// Sets the intended usage of this buffer.
    pub fn set_usage(&mut self, usage: BufferUsage)
        ensures
            final(self).spec_usage() == usage,
            final(self).spec_data() == old(self).spec_data(),
            final(self).spec_optimisation() == old(self).spec_optimisation(),
    {
        self.usage = usage;
    }

    /// Returns what this buffer is optimized for.
    pub fn optimisation(&self) -> (r: &BufferAccess)
        ensures
            *r == self.spec_optimisation(),
    {
        &self.buffer_access
    }

    /// Sets the intended optimisation for this buffer.
    pub fn set_optimisation(&mut self, optimisation: BufferAccess)
        ensures
            final(self).spec_optimisation() == optimisation,
            final(self).spec_data() == old(self).spec_data(),
            final(self).spec_usage() == old(self).spec_usage(),
    {
        self.buffer_access = optimisation;
    }

    /// Returns the data held by this buffer.
    pub fn data(&self) -> (r: &T)
        ensures
            *r == self.spec_data(),
    {
        &self.data
    }

    /// Replaces the data held by this buffer.
    pub fn set_data(&mut self, data: T)
        ensures
            final(self).spec_data() == data,
            final(self).spec_usage() == old(self).spec_usage(),
            final(self).spec_optimisation() == old(self).spec_optimisation(),
    {
        self.data = data;
    }
}

/// The descriptor location of a resource to be accessed in the shaders.
#[derive(Default, Debug, Clone, Copy, Hash, PartialEq, Eq, PartialOrd, Ord, Structural)]
pub struct Location {
    pub set: u32,
    pub binding: u32,
}

impl Location {
    /// Creates the location of `binding` in descriptor set `set`.
    pub fn new(set: u32, binding: u32) -> (r: Self)
        ensures
            r.set == set,
            r.binding == binding,
    {
        Self { set, binding }
    }
}

impl From<(u32, u32)> for Location {
    /// The first element is the set, the second the binding.
    fn from(value: (u32, u32)) -> (r: Self) {
        Self { set: value.0, binding: value.1 }
    }
}

impl vstd::std_specs::convert::FromSpecImpl<(u32, u32)> for Location {
    open spec fn obeys_from_spec() -> bool {
        true
    }

    open spec fn from_spec(value: (u32, u32)) -> Self {
        Location { set: value.0, binding: value.1 }
    }
}

/// Describes the intended usage of a buffer.
#[derive(Debug, Clone, Copy, Hash, PartialEq, Eq, Structural)]
pub enum BufferUsage {
    /// The buffer is used as a uniform buffer, typically for small pieces of data
    /// that are accessed frequently in shaders (e.g., constants or matrices).
    Uniform,
    /// The buffer is used as a storage buffer, which can handle larger, more flexible
    /// data structures and allow for read/write access in shaders.
    Storage,
}

/// The operation that the buffer access should be optimized for.
#[derive(Debug, Clone, Copy, Hash, PartialEq, Eq, Structural)]
pub enum PreferOperation {
    /// Prefer reading over writing.
    Read,
    /// Prefer writing over reading.
    Write,
}

/// Determines the access pattern used for a buffer, optimizing it for specific scenarios.
///
/// This determines what a buffer is used for and how it is usable.
///
/// # Default
///
/// The default variant is [`BufferAccess::Fixed`]
#[derive(Debug, Clone, Copy, Hash, PartialEq, Eq, Structural)]
pub enum BufferAccess {
    /// A simple buffer access pattern for static data that is uploaded once and never changed after.
    ///
    /// This one has the lowest memory usage and best GPU performance.
    Fixed,
    /// Allows reading from and writing to the buffer using a staging buffer.
    ///
    /// This pattern has good GPU performance, but slow reading and writing performance.
    Staged,
    /// Pins the CPU and GPU memory to a single buffer without staging.
    ///
    /// This has fast read and write performance, where one can be preferred over the other
    /// with the `PreferOperation`, but introduces GPU overhead.
    Pinned(PreferOperation),
    /// Implements a ring buffer strategy for managing per-frame buffer allocations.
    ///
    /// This is recommended for small data that changes every single frame.
    RingBuffer {
        /// The access operation to prefer over the other.
        prefer_operation: PreferOperation,
        /// The amount of buffers to allocate in the ring buffer.
        buffers: usize,
    },
}

impl Default for BufferAccess {
    fn default() -> (r: Self)
        ensures
            r == BufferAccess::Fixed,
    {
        BufferAccess::Fixed
    }
}

} // verus!
