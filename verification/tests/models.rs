use let_engine::resources::buffer::BufferAccess;
use let_engine::resources::model::{circle_indices, pie_indices, Model, VertexMemberInfo};
use let_engine::resources::Format;

#[test]
fn new_model_allows_at_least_one_vertex() {
    let m: Model<u32> = Model::new(vec![], BufferAccess::Fixed);
    assert_eq!(m.max_vertices(), 1);
    assert!(m.is_empty());
    assert!(!m.is_indexed());
    let m = Model::new(vec![1u32, 2, 3], BufferAccess::Staged);
    assert_eq!(m.max_vertices(), 3);
    assert_eq!(m.vertex_len(), 3);
    assert_eq!(*m.buffer_access(), BufferAccess::Staged);
}

#[test]
fn new_maxed_takes_the_larger_maximum() {
    let m = Model::new_maxed(vec![1u32, 2], 10, BufferAccess::Fixed);
    assert_eq!(m.max_vertices(), 10);
    let m = Model::new_maxed(vec![1u32, 2, 3], 2, BufferAccess::Fixed);
    assert_eq!(m.max_vertices(), 3);
}

#[test]
fn indexed_models() {
    let m = Model::new_indexed(vec![1u32, 2, 3], vec![0, 1, 2, 2, 1, 0], BufferAccess::Fixed);
    assert!(m.is_indexed());
    assert_eq!(m.index_len(), 6);
    assert_eq!(m.max_indices(), 6);
    assert_eq!(m.indices(), &[0, 1, 2, 2, 1, 0]);
    let m = Model::new_indexed(vec![1u32], vec![], BufferAccess::Fixed);
    assert!(!m.is_indexed());
    let m = Model::new_indexed_maxed(vec![1u32], vec![], 4, 12, BufferAccess::Fixed);
    assert!(m.is_indexed());
    assert_eq!(m.max_vertices(), 4);
    assert_eq!(m.max_indices(), 12);
}

#[test]
fn setting_vertices_raises_the_maximum() {
    let mut m = Model::new(vec![1u32], BufferAccess::Fixed);
    m.set_vertices(vec![4, 5, 6]);
    assert_eq!(m.vertices(), &[4, 5, 6]);
    assert_eq!(m.max_vertices(), 3);
    m.set_vertices(vec![7]);
    assert_eq!(m.max_vertices(), 3);
}

#[test]
fn maximums_are_set_no_lower_than_the_current_buffers() {
    let mut m = Model::new_maxed(vec![1u32, 2], 10, BufferAccess::Fixed);
    m.set_max_vertices(5);
    assert_eq!(m.max_vertices(), 5);
    m.set_max_vertices(1);
    assert_eq!(m.max_vertices(), 2);
    m.set_max_vertices(16);
    assert_eq!(m.max_vertices(), 16);
    m.set_max_indices(5);
    assert_eq!(m.max_indices(), 5);
    m.set_max_indices(0);
    assert_eq!(m.max_indices(), 0);
    m.set_indices(vec![0; 9]);
    assert_eq!(m.max_indices(), 9);
    m.set_max_indices(3);
    assert_eq!(m.max_indices(), 9);
}

#[test]
fn vertices_and_indices_can_be_changed_in_place() {
    let mut m = Model::new_indexed(vec![1u32, 2], vec![0, 1], BufferAccess::Fixed);
    m.vertices_mut()[0] = 9;
    m.indices_mut()[1] = 0;
    assert_eq!(m.vertices(), &[9, 2]);
    assert_eq!(m.indices(), &[0, 0]);
}

#[test]
fn default_model_is_empty() {
    let m: Model<u8> = Model::default();
    assert!(m.is_empty());
    assert_eq!(m.max_vertices(), 1);
    assert_eq!(*m.buffer_access(), BufferAccess::Fixed);
}

#[test]
fn num_components_counts_nonzero_channels() {
    let info = |format| VertexMemberInfo { offset: 0, format, num_elements: 1, stride: 0 };
    assert_eq!(info(Format::R32Float).num_components(), 1);
    assert_eq!(info(Format::Rg32Float).num_components(), 2);
    assert_eq!(info(Format::R5G6B5Unorm).num_components(), 3);
    assert_eq!(info(Format::Rgba8Unorm).num_components(), 4);
}

#[test]
fn circle_fan_closes_on_the_first_rim_vertex() {
    assert_eq!(circle_indices(4), vec![0, 1, 2, 0, 2, 3, 0, 3, 4, 0, 4, 1]);
    assert_eq!(circle_indices(1), vec![0, 1, 1]);
}

#[test]
fn pie_fan_stays_open() {
    assert_eq!(pie_indices(3), vec![0, 1, 2, 0, 2, 3, 0, 3, 4]);
}
