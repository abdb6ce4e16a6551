use let_engine::resources::buffer::{Buffer, BufferAccess, BufferUsage, Location, PreferOperation};
use let_engine::resources::material::{GraphicsShaders, Topology};

#[test]
fn location_new_keeps_set_and_binding() {
    let l = Location::new(2, 7);
    assert_eq!(l.set, 2);
    assert_eq!(l.binding, 7);
}

#[test]
fn location_from_pair_is_set_then_binding() {
    let l: Location = (3, 1).into();
    assert_eq!(l, Location::new(3, 1));
}

#[test]
fn buffer_access_defaults_to_fixed() {
    assert_eq!(BufferAccess::default(), BufferAccess::Fixed);
}

#[test]
fn buffer_keeps_usage_access_and_data() {
    let mut b = Buffer::from_data(BufferUsage::Uniform, BufferAccess::Staged, [1u32, 2, 3]);
    assert_eq!(*b.usage(), BufferUsage::Uniform);
    assert_eq!(*b.optimisation(), BufferAccess::Staged);
    assert_eq!(*b.data(), [1, 2, 3]);
    b.set_usage(BufferUsage::Storage);
    b.set_optimisation(BufferAccess::RingBuffer { prefer_operation: PreferOperation::Write, buffers: 3 });
    b.set_data([4, 5, 6]);
    assert_eq!(*b.usage(), BufferUsage::Storage);
    assert_eq!(
        *b.optimisation(),
        BufferAccess::RingBuffer { prefer_operation: PreferOperation::Write, buffers: 3 }
    );
    assert_eq!(*b.data(), [4, 5, 6]);
}

#[test]
fn topology_is_either_strip_or_list() {
    let all = [
        Topology::PointList,
        Topology::LineList,
        Topology::LineStrip,
        Topology::TriangleList,
        Topology::TriangleStrip,
    ];
    for t in all {
        assert_ne!(t.is_strip(), t.is_list(), "{t:?}");
    }
    assert!(Topology::LineStrip.is_strip());
    assert!(Topology::TriangleStrip.is_strip());
    assert!(Topology::PointList.is_list());
    assert!(Topology::LineList.is_list());
    assert!(Topology::TriangleList.is_list());
}

#[test]
fn graphics_shaders_with_and_without_fragment_stage() {
    let s = GraphicsShaders::new(vec![1, 2], "main".to_string(), vec![3], "frag".to_string());
    assert_eq!(s.vertex_bytes, vec![1, 2]);
    assert_eq!(s.vertex_entry_point, "main");
    assert_eq!(s.fragment_bytes, Some(vec![3]));
    assert_eq!(s.fragment_entry_point, Some("frag".to_string()));
    let v = GraphicsShaders::new_no_fragment(vec![9], "vs".to_string());
    assert_eq!(v.vertex_bytes, vec![9]);
    assert_eq!(v.vertex_entry_point, "vs");
    assert_eq!(v.fragment_bytes, None);
    assert_eq!(v.fragment_entry_point, None);
}
