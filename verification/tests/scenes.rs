use let_engine::objects::scenes::Scene;

#[test]
fn new_scene_has_a_root_layer_with_one_view() {
    let scene = Scene::new();
    assert_eq!(scene.layers_count(), 1);
    assert_eq!(scene.views_count(), 1);
    assert_eq!(scene.layer_tree_version(), 0);
    let root = scene.root_layer();
    assert_eq!(root.id(), scene.root_layer_id());
    assert_eq!(root.parent_id(), None);
    assert_eq!(root.view_count(), 1);
    assert_eq!(root.view_ids(), vec![scene.root_view_id()]);
    assert_eq!(scene.root_view().layer_id(), scene.root_layer_id());
    assert_eq!(scene.view_ids(), vec![scene.root_view_id()]);
}

#[test]
fn default_scene_is_a_new_scene() {
    let scene = Scene::default();
    assert_eq!(scene.layers_count(), 1);
    assert_eq!(scene.views_count(), 1);
}

#[test]
fn adding_a_layer_links_it_to_its_parent() {
    let mut scene = Scene::new();
    let root = scene.root_layer_id();
    let child = scene.add_layer(root).unwrap();
    assert_eq!(scene.layers_count(), 2);
    assert_eq!(scene.layer_tree_version(), 1);
    assert_eq!(scene.layer(child).unwrap().parent_id(), Some(root));
    assert_eq!(scene.root_layer().layer_ids(), vec![child]);
    assert_eq!(scene.root_layer().layer_count(), 1);
}

#[test]
fn adding_a_layer_to_a_removed_parent_gives_none() {
    let mut scene = Scene::new();
    let root = scene.root_layer_id();
    let child = scene.add_layer(root).unwrap();
    scene.remove_layer(child);
    assert_eq!(scene.add_layer(child), None);
    // The new layer is still stored, on its own.
    assert_eq!(scene.layers_count(), 2);
    assert_eq!(scene.layer_tree_version(), 2);
}

#[test]
fn views_are_added_to_and_removed_from_their_layer() {
    let mut scene = Scene::new();
    let root = scene.root_layer_id();
    let child = scene.add_layer(root).unwrap();
    let view = scene.add_view(child).unwrap();
    assert_eq!(scene.views_count(), 2);
    assert_eq!(scene.view(view).unwrap().layer_id(), child);
    assert_eq!(scene.layer(child).unwrap().view_ids(), vec![view]);
    assert_eq!(scene.layer_tree_version(), 2);
    scene.remove_view(view);
    assert!(scene.view(view).is_none());
    assert_eq!(scene.layer(child).unwrap().view_count(), 0);
    assert_eq!(scene.layer_tree_version(), 3);
    scene.remove_view(view);
    assert_eq!(scene.layer_tree_version(), 3);
}

#[test]
fn objects_are_added_to_their_layer() {
    let mut scene = Scene::new();
    let root = scene.root_layer_id();
    let object = scene.add_object(root).unwrap();
    assert_eq!(scene.object(object).unwrap().layer_id(), root);
    assert_eq!(scene.object(object).unwrap().parent(), None);
    assert!(scene.root_layer().contains_object(&object));
    assert_eq!(scene.root_layer().objects_count(), 1);
    assert_eq!(scene.layer_tree_version(), 0);
}

#[test]
fn children_share_the_parents_layer() {
    let mut scene = Scene::new();
    let root = scene.root_layer_id();
    let layer = scene.add_layer(root).unwrap();
    let parent = scene.add_object(layer).unwrap();
    let child = scene.add_object_with_parent(parent).unwrap();
    assert_eq!(scene.object(child).unwrap().parent(), Some(parent));
    assert_eq!(scene.object(child).unwrap().layer_id(), layer);
    assert_eq!(scene.layer(layer).unwrap().objects_count(), 2);
}

#[test]
fn removing_an_object_removes_its_descendants() {
    let mut scene = Scene::new();
    let root = scene.root_layer_id();
    let a = scene.add_object(root).unwrap();
    let b = scene.add_object_with_parent(a).unwrap();
    let c = scene.add_object_with_parent(b).unwrap();
    let other = scene.add_object(root).unwrap();
    scene.remove_object(a);
    assert!(scene.object(a).is_none());
    assert!(scene.object(b).is_none());
    assert!(scene.object(c).is_none());
    assert!(scene.object(other).is_some());
    assert!(!scene.root_layer().contains_object(&a));
    assert!(!scene.root_layer().contains_object(&b));
    assert!(!scene.root_layer().contains_object(&c));
    assert!(scene.root_layer().contains_object(&other));
    assert_eq!(scene.root_layer().objects_count(), 1);
}

#[test]
fn removing_a_child_detaches_it_from_its_parent() {
    let mut scene = Scene::new();
    let root = scene.root_layer_id();
    let a = scene.add_object(root).unwrap();
    let b = scene.add_object_with_parent(a).unwrap();
    scene.remove_object(b);
    assert!(scene.object(a).is_some());
    scene.remove_object(a);
    assert!(scene.object(a).is_none());
    assert_eq!(scene.root_layer().objects_count(), 0);
}

#[test]
fn removing_a_layer_removes_everything_below_it() {
    let mut scene = Scene::new();
    let root = scene.root_layer_id();
    let a = scene.add_layer(root).unwrap();
    let b = scene.add_layer(a).unwrap();
    let keep = scene.add_layer(root).unwrap();
    let view = scene.add_view(b).unwrap();
    let object = scene.add_object(b).unwrap();
    let child = scene.add_object_with_parent(object).unwrap();
    let kept_object = scene.add_object(keep).unwrap();
    let version = scene.layer_tree_version();
    scene.remove_layer(a);
    assert!(scene.layer(a).is_none());
    assert!(scene.layer(b).is_none());
    assert!(scene.layer(keep).is_some());
    assert!(scene.view(view).is_none());
    assert!(scene.object(object).is_none());
    assert!(scene.object(child).is_none());
    assert!(scene.object(kept_object).is_some());
    assert_eq!(scene.root_layer().layer_ids(), vec![keep]);
    assert_eq!(scene.layers_count(), 2);
    assert_eq!(scene.views_count(), 1);
    assert_eq!(scene.layer_tree_version(), version + 1);
}

#[test]
fn removing_a_missing_layer_changes_nothing() {
    let mut scene = Scene::new();
    let root = scene.root_layer_id();
    let a = scene.add_layer(root).unwrap();
    scene.remove_layer(a);
    let version = scene.layer_tree_version();
    scene.remove_layer(a);
    assert_eq!(scene.layer_tree_version(), version);
    assert_eq!(scene.layers_count(), 1);
}

#[test]
fn the_root_survives_removing_other_layers() {
    let mut scene = Scene::new();
    let root = scene.root_layer_id();
    let a = scene.add_layer(root).unwrap();
    let _ = scene.add_layer(a).unwrap();
    scene.remove_layer(a);
    assert!(scene.layer(root).is_some());
    assert_eq!(scene.root_layer().layer_count(), 0);
}

#[test]
fn the_root_layer_can_not_be_removed() {
    let mut scene = Scene::new();
    let root = scene.root_layer_id();
    let a = scene.add_layer(root).unwrap();
    let object = scene.add_object(root).unwrap();
    let version = scene.layer_tree_version();
    scene.remove_layer(root);
    assert!(scene.layer(root).is_some());
    assert!(scene.layer(a).is_some());
    assert!(scene.object(object).is_some());
    assert_eq!(scene.root_view().layer_id(), root);
    assert_eq!(scene.layer_tree_version(), version);
}

#[test]
fn the_root_layer_has_a_single_view() {
    let mut scene = Scene::new();
    let root = scene.root_layer_id();
    assert!(scene.add_view(root).is_none());
    assert_eq!(scene.views_count(), 1);
    assert_eq!(scene.root_layer().view_count(), 1);
    let a = scene.add_layer(root).unwrap();
    assert!(scene.add_view(a).is_some());
}
