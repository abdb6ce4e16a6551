//! The scene graph: a tree of layers, the views that look into them and the objects they hold.
//!
//! The scene keeps the structure: which layer holds which views, objects and child layers, and
//! which object is the parent of which. Layers, views and objects each live in an arena of the
//! `slotmap` crate and are named by its keys, handed out as [`LayerId`], [`LayerViewId`] and
//! [`ObjectId`]; the keys a layer or an object lists are kept in `foldhash` hash sets.

use slotmap::{DefaultKey, Key, KeyData, SlotMap};
use vstd::prelude::*;

verus! {

/// Whether `bits` is a key as `KeyData::as_ffi` hands them out: its version half is odd.
pub open spec fn key_bits_valid(bits: u64) -> bool {
    (bits >> 32u64) & 1u64 == 1u64
}

/// The ID of a layer of a scene.
#[derive(Clone, Copy, PartialEq, Eq, Hash, Debug, Structural)]
pub struct LayerId {
    bits: u64,
}

/// The ID of a view into a layer of a scene.
#[derive(Clone, Copy, PartialEq, Eq, Hash, Debug, Structural)]
pub struct LayerViewId {
    bits: u64,
}

/// The ID of an object of a scene.
#[derive(Clone, Copy, PartialEq, Eq, Hash, Debug, Structural)]
pub struct ObjectId {
    bits: u64,
}

impl View for LayerId {
    type V = u64;

    closed spec fn view(&self) -> u64 {
        self.bits
    }
}

impl View for LayerViewId {
    type V = u64;

    closed spec fn view(&self) -> u64 {
        self.bits
    }
}

impl View for ObjectId {
    type V = u64;

    closed spec fn view(&self) -> u64 {
        self.bits
    }
}

impl LayerId {
    /// An ID is made only of a key its arena handed out.
    #[verifier::type_invariant]
    closed spec fn inv(self) -> bool {
        key_bits_valid(self.bits)
    }

    fn from_bits(bits: u64) -> (r: Self)
        requires
            key_bits_valid(bits),
        ensures
            r@ == bits,
    {
        LayerId { bits }
    }

    fn bits(&self) -> (r: u64)
        ensures
            r == self@,
            key_bits_valid(r),
    {
        proof {
            use_type_invariant(self);
        }
        self.bits
    }
}

impl LayerViewId {
    /// An ID is made only of a key its arena handed out.
    #[verifier::type_invariant]
    closed spec fn inv(self) -> bool {
        key_bits_valid(self.bits)
    }

    fn from_bits(bits: u64) -> (r: Self)
        requires
            key_bits_valid(bits),
        ensures
            r@ == bits,
    {
        LayerViewId { bits }
    }

    fn bits(&self) -> (r: u64)
        ensures
            r == self@,
            key_bits_valid(r),
    {
        proof {
            use_type_invariant(self);
        }
        self.bits
    }
}

impl ObjectId {
    /// An ID is made only of a key its arena handed out.
    #[verifier::type_invariant]
    closed spec fn inv(self) -> bool {
        key_bits_valid(self.bits)
    }

    fn from_bits(bits: u64) -> (r: Self)
        requires
            key_bits_valid(bits),
        ensures
            r@ == bits,
    {
        ObjectId { bits }
    }

    fn bits(&self) -> (r: u64)
        ensures
            r == self@,
            key_bits_valid(r),
    {
        proof {
            use_type_invariant(self);
        }
        self.bits
    }
}

/// The hasher that `foldhash`'s hash sets are built with.
#[verifier::external_type_specification]
#[verifier::external_body]
pub struct ExFoldRandomState(foldhash::fast::RandomState);

/// The keys that a `foldhash` hash set of keys holds.
pub uninterp spec fn id_set_contents(set: foldhash::HashSet<u64>) -> Set<u64>;

/// An empty hash set, made with `Default::default`.
#[verifier::external_body]
fn id_set_new() -> (r: foldhash::HashSet<u64>)
    ensures
        id_set_contents(r) == Set::<u64>::empty(),
{
    foldhash::HashSet::default()
}

/// Whether the hash set holds `x`, asked with `HashSet::contains`.
#[verifier::external_body]
fn id_set_contains(set: &foldhash::HashSet<u64>, x: u64) -> (r: bool)
    ensures
        r == id_set_contents(*set).contains(x),
{
    set.contains(&x)
}

/// Adds `x` to the hash set with `HashSet::insert`.
#[verifier::external_body]
fn id_set_insert(set: &mut foldhash::HashSet<u64>, x: u64)
    ensures
        id_set_contents(*final(set)) == id_set_contents(*old(set)).insert(x),
{
    set.insert(x);
}

/// Takes `x` out of the hash set with `HashSet::remove`.
#[verifier::external_body]
fn id_set_remove(set: &mut foldhash::HashSet<u64>, x: u64)
    ensures
        id_set_contents(*final(set)) == id_set_contents(*old(set)).remove(x),
{
    set.remove(&x);
}

/// The number of keys in the hash set, from `HashSet::len`.
#[verifier::external_body]
fn id_set_len(set: &foldhash::HashSet<u64>) -> (r: usize)
    ensures
        r == id_set_contents(*set).len(),
{
    set.len()
}

/// The keys of the hash set, walked with `HashSet::iter`, each once. The order in which they
/// come follows the hasher's seed, which each set draws anew, and is left open.
#[verifier::external_body]
fn id_set_keys(set: &foldhash::HashSet<u64>) -> (r: Vec<u64>)
    ensures
        r@.no_duplicates(),
        r@.to_set() == id_set_contents(*set),
{
    set.iter().copied().collect()
}

/// A set of keys: a `foldhash` hash set.
#[derive(Debug)]
pub struct IdSet {
    items: foldhash::HashSet<u64>,
}

impl IdSet {
    /// The keys of this set.
    pub closed spec fn set(&self) -> Set<u64> {
        id_set_contents(self.items)
    }

    /// The set is finite, and every key is one an arena hands out.
    pub closed spec fn wf(&self) -> bool {
        &&& self.set().finite()
        &&& forall|x: u64| #[trigger] self.set().contains(x) ==> key_bits_valid(x)
    }

    fn new() -> (r: Self)
        ensures
            r.wf(),
            r.set() == Set::<u64>::empty(),
    {
        IdSet { items: id_set_new() }
    }

    fn contains(&self, x: u64) -> (r: bool)
        ensures
            r == self.set().contains(x),
    {
        id_set_contains(&self.items, x)
    }

    fn insert(&mut self, x: u64)
        requires
            old(self).wf(),
            key_bits_valid(x),
        ensures
            final(self).wf(),
            final(self).set() == old(self).set().insert(x),
    {
        id_set_insert(&mut self.items, x);
    }

    fn remove(&mut self, x: u64)
        requires
            old(self).wf(),
        ensures
            final(self).wf(),
            final(self).set() == old(self).set().remove(x),
    {
        id_set_remove(&mut self.items, x);
    }

    fn len(&self) -> (r: usize)
        requires
            self.wf(),
        ensures
            r == self.set().len(),
    {
        id_set_len(&self.items)
    }

    /// The keys of this set, each once, in no particular order.
    fn keys(&self) -> (r: Vec<u64>)
        requires
            self.wf(),
        ensures
            r@.no_duplicates(),
            r@.to_set() == self.set(),
            r@.len() == self.set().len(),
            forall|i: int| 0 <= i < r@.len() ==> key_bits_valid(#[trigger] r@[i]),
    {
        let r = id_set_keys(&self.items);
        proof {
            r@.unique_seq_to_set();
            assert forall|i: int| 0 <= i < r@.len() implies key_bits_valid(#[trigger] r@[i]) by {
                assert(r@.to_set().contains(r@[i]));
            }
        }
        r
    }
}


/// A layer of a scene: it holds its objects, the views into it and its child layers.
#[derive(Debug)]
pub struct Layer {
    objects: IdSet,
    views: IdSet,
    layers: IdSet,
    id: u64,
    parent_id: Option<u64>,
}

/// The structure of an object of a scene: the layer that holds it, its parent and its children.
#[derive(Debug)]
pub struct Object {
    children: IdSet,
    parent_id: Option<u64>,
    layer_id: u64,
}

/// A view into a layer of a scene.
#[derive(Debug)]
pub struct LayerView {
    layer_id: u64,
}


/// What a layer holds: the keys of its objects, of the views into it and of its child layers,
/// its own key and the key of the layer it was added to.
#[verifier::ext_equal]
pub struct LayerModel {
    pub objects: Set<u64>,
    pub views: Set<u64>,
    pub layers: Set<u64>,
    pub id: u64,
    pub parent: Option<u64>,
}

/// The structure of an object: the keys of its children, of its parent and of its layer.
#[verifier::ext_equal]
pub struct ObjectModel {
    pub children: Set<u64>,
    pub parent: Option<u64>,
    pub layer: u64,
}

impl View for Layer {
    type V = LayerModel;

    open spec fn view(&self) -> LayerModel {
        LayerModel {
            objects: self.object_set(),
            views: self.view_set(),
            layers: self.layer_set(),
            id: self.spec_id(),
            parent: self.spec_parent(),
        }
    }
}

impl View for Object {
    type V = ObjectModel;

    open spec fn view(&self) -> ObjectModel {
        ObjectModel { children: self.child_set(), parent: self.spec_parent(), layer: self.spec_layer() }
    }
}

impl Layer {
    /// The keys of the objects this layer holds.
    pub closed spec fn object_set(self) -> Set<u64> {
        self.objects.set()
    }

    /// The keys of the views into this layer.
    pub closed spec fn view_set(self) -> Set<u64> {
        self.views.set()
    }

    /// The keys of the child layers of this layer.
    pub closed spec fn layer_set(self) -> Set<u64> {
        self.layers.set()
    }

    /// The key of this layer.
    pub closed spec fn spec_id(self) -> u64 {
        self.id
    }

    /// The key of the parent layer this layer was added to, if any.
    pub closed spec fn spec_parent(self) -> Option<u64> {
        self.parent_id
    }

    /// The sets of this layer hold each key once, and every key is one an arena hands out.
    pub closed spec fn wf(self) -> bool {
        &&& self.objects.wf()
        &&& self.views.wf()
        &&& self.layers.wf()
        &&& key_bits_valid(self.id)
        &&& self.parent_id matches Some(p) ==> key_bits_valid(p)
    }

    /// A layer without objects, views or child layers whose key is yet to be set.
    fn unnamed(parent_id: Option<u64>) -> (r: Self)
        ensures
            r.spec_parent() == parent_id,
            r.object_set() == Set::<u64>::empty(),
            r.view_set() == Set::<u64>::empty(),
            r.layer_set() == Set::<u64>::empty(),
            r.objects.wf(),
            r.views.wf(),
            r.layers.wf(),
    {
        Layer { objects: IdSet::new(), views: IdSet::new(), layers: IdSet::new(), id: 0, parent_id }
    }

    /// Returns the ID of this layer.
    pub fn id(&self) -> (r: LayerId)
        requires
            self.wf(),
        ensures
            r@ == self.spec_id(),
    {
        LayerId::from_bits(self.id)
    }

    /// Returns the ID of the layer this layer was added to, if any.
    pub fn parent_id(&self) -> (r: Option<LayerId>)
        requires
            self.wf(),
        ensures
            r is Some <==> self.spec_parent() is Some,
            r matches Some(p) ==> Some(p@) == self.spec_parent(),
    {
        match self.parent_id {
            Some(p) => Some(LayerId::from_bits(p)),
            None => None,
        }
    }

    /// Checks if the layer contains this object.
    pub fn contains_object(&self, object_id: &ObjectId) -> (r: bool)
        ensures
            r == self.object_set().contains(object_id@),
    {
        self.objects.contains(object_id.bits())
    }

    /// Returns the number of objects in total initialized into this layer.
    pub fn objects_count(&self) -> (r: usize)
        requires
            self.wf(),
        ensures
            r == self.object_set().len(),
    {
        self.objects.len()
    }

    /// Returns the number of views into this layer.
    pub fn view_count(&self) -> (r: usize)
        requires
            self.wf(),
        ensures
            r == self.view_set().len(),
    {
        self.views.len()
    }

    /// Returns the number of child layers of this layer.
    pub fn layer_count(&self) -> (r: usize)
        requires
            self.wf(),
        ensures
            r == self.layer_set().len(),
    {
        self.layers.len()
    }

    /// Returns the IDs of the objects of this layer, each once, in no particular order.
    pub fn object_ids(&self) -> (r: Vec<ObjectId>)
        requires
            self.wf(),
        ensures
            r@.len() == self.object_set().len(),
            forall|k: u64| self.object_set().contains(k) <==> exists|i: int| 0 <= i < r@.len() && #[trigger] r@[i]@ == k,
    {
        object_ids_of(&self.objects)
    }

    /// Returns the IDs of the views into this layer, each once, in no particular order.
    pub fn view_ids(&self) -> (r: Vec<LayerViewId>)
        requires
            self.wf(),
        ensures
            r@.len() == self.view_set().len(),
            forall|k: u64| self.view_set().contains(k) <==> exists|i: int| 0 <= i < r@.len() && #[trigger] r@[i]@ == k,
    {
        let mut out: Vec<LayerViewId> = Vec::new();
        let items = self.views.keys();
        let mut i: usize = 0;
        while i < items.len()
            invariant
                i <= items@.len(),
                forall|j: int| 0 <= j < items@.len() ==> key_bits_valid(#[trigger] items@[j]),
                out@.len() == i,
                forall|j: int| 0 <= j < i ==> #[trigger] out@[j]@ == items@[j],
            decreases items@.len() - i,
        {
            proof {
                assert(key_bits_valid(items@[i as int]));
            }
            out.push(LayerViewId::from_bits(items[i]));
            i = i + 1;
        }
        proof {
            assert forall|k: u64| self.view_set().contains(k) <==> exists|j: int| 0 <= j < out@.len() && #[trigger] out@[j]@ == k by {
                if self.view_set().contains(k) {
                    let j = choose|j: int| 0 <= j < items@.len() && items@[j] == k;
                    assert(out@[j]@ == k);
                }
                if exists|j: int| 0 <= j < out@.len() && #[trigger] out@[j]@ == k {
                    let j = choose|j: int| 0 <= j < out@.len() && #[trigger] out@[j]@ == k;
                    assert(items@[j] == k);
                }
            }
        }
        out
    }

    /// Returns the IDs of the child layers of this layer, each once, in no particular order.
    pub fn layer_ids(&self) -> (r: Vec<LayerId>)
        requires
            self.wf(),
        ensures
            r@.len() == self.layer_set().len(),
            forall|k: u64| self.layer_set().contains(k) <==> exists|i: int| 0 <= i < r@.len() && #[trigger] r@[i]@ == k,
    {
        let mut out: Vec<LayerId> = Vec::new();
        let items = self.layers.keys();
        let mut i: usize = 0;
        while i < items.len()
            invariant
                i <= items@.len(),
                forall|j: int| 0 <= j < items@.len() ==> key_bits_valid(#[trigger] items@[j]),
                out@.len() == i,
                forall|j: int| 0 <= j < i ==> #[trigger] out@[j]@ == items@[j],
            decreases items@.len() - i,
        {
            proof {
                assert(key_bits_valid(items@[i as int]));
            }
            out.push(LayerId::from_bits(items[i]));
            i = i + 1;
        }
        proof {
            assert forall|k: u64| self.layer_set().contains(k) <==> exists|j: int| 0 <= j < out@.len() && #[trigger] out@[j]@ == k by {
                if self.layer_set().contains(k) {
                    let j = choose|j: int| 0 <= j < items@.len() && items@[j] == k;
                    assert(out@[j]@ == k);
                }
                if exists|j: int| 0 <= j < out@.len() && #[trigger] out@[j]@ == k {
                    let j = choose|j: int| 0 <= j < out@.len() && #[trigger] out@[j]@ == k;
                    assert(items@[j] == k);
                }
            }
        }
        out
    }
}

/// The object IDs of the keys of a set, in the set's order.
fn object_ids_of(set: &IdSet) -> (r: Vec<ObjectId>)
    requires
        set.wf(),
    ensures
        r@.len() == set.set().len(),
        forall|k: u64| set.set().contains(k) <==> exists|i: int| 0 <= i < r@.len() && #[trigger] r@[i]@ == k,
{
    let mut out: Vec<ObjectId> = Vec::new();
    let items = set.keys();
    let mut i: usize = 0;
    while i < items.len()
        invariant
            i <= items@.len(),
            forall|j: int| 0 <= j < items@.len() ==> key_bits_valid(#[trigger] items@[j]),
            out@.len() == i,
            forall|j: int| 0 <= j < i ==> #[trigger] out@[j]@ == items@[j],
        decreases items@.len() - i,
    {
        proof {
            assert(key_bits_valid(items@[i as int]));
        }
        out.push(ObjectId::from_bits(items[i]));
        i = i + 1;
    }
    proof {
        assert forall|k: u64| set.set().contains(k) <==> exists|j: int| 0 <= j < out@.len() && #[trigger] out@[j]@ == k by {
            if set.set().contains(k) {
                let j = choose|j: int| 0 <= j < items@.len() && items@[j] == k;
                assert(out@[j]@ == k);
            }
            if exists|j: int| 0 <= j < out@.len() && #[trigger] out@[j]@ == k {
                let j = choose|j: int| 0 <= j < out@.len() && #[trigger] out@[j]@ == k;
                assert(items@[j] == k);
            }
        }
    }
    out
}

impl Object {
    /// The keys of the children of this object.
    pub closed spec fn child_set(self) -> Set<u64> {
        self.children.set()
    }

    /// The key of the parent of this object, if any.
    pub closed spec fn spec_parent(self) -> Option<u64> {
        self.parent_id
    }

    /// The key of the layer that holds this object.
    pub closed spec fn spec_layer(self) -> u64 {
        self.layer_id
    }

    /// The set of this object holds each key once, and every key is one an arena hands out.
    pub closed spec fn wf(self) -> bool {
        &&& self.children.wf()
        &&& key_bits_valid(self.layer_id)
        &&& self.parent_id matches Some(p) ==> key_bits_valid(p)
    }

    /// Returns the ID of the layer that holds this object.
    pub fn layer_id(&self) -> (r: LayerId)
        requires
            self.wf(),
        ensures
            r@ == self.spec_layer(),
    {
        LayerId::from_bits(self.layer_id)
    }

    /// Returns the ID of the parent of this object, if it has one.
    pub fn parent(&self) -> (r: Option<ObjectId>)
        requires
            self.wf(),
        ensures
            r is Some <==> self.spec_parent() is Some,
            r matches Some(p) ==> Some(p@) == self.spec_parent(),
    {
        match self.parent_id {
            Some(p) => Some(ObjectId::from_bits(p)),
            None => None,
        }
    }
}

impl LayerView {
    /// The key of the layer this view looks into.
    pub closed spec fn spec_layer(self) -> u64 {
        self.layer_id
    }

    /// The layer key is one an arena hands out.
    pub closed spec fn wf(self) -> bool {
        key_bits_valid(self.layer_id)
    }

    /// Returns the ID of the layer this view looks into.
    pub fn layer_id(&self) -> (r: LayerId)
        requires
            self.wf(),
        ensures
            r@ == self.spec_layer(),
    {
        LayerId::from_bits(self.layer_id)
    }
}

/// An entry of a scene arena.
#[derive(Debug)]
pub enum SceneNode {
    /// A layer.
    Layer(Layer),
    /// A view into a layer.
    View(LayerView),
    /// An object.
    Object(Object),
}

impl SceneNode {
    fn as_layer(&self) -> (r: Option<&Layer>)
        ensures
            r is Some <==> *self is Layer,
            r matches Some(l) ==> *l == node_layer(*self),
    {
        match self {
            SceneNode::Layer(l) => Some(l),
            _ => None,
        }
    }

    fn as_view(&self) -> (r: Option<&LayerView>)
        ensures
            r is Some <==> *self is View,
            r matches Some(v) ==> *v == node_view(*self),
    {
        match self {
            SceneNode::View(v) => Some(v),
            _ => None,
        }
    }

    fn as_object(&self) -> (r: Option<&Object>)
        ensures
            r is Some <==> *self is Object,
            r matches Some(o) ==> *o == node_object(*self),
    {
        match self {
            SceneNode::Object(o) => Some(o),
            _ => None,
        }
    }
}

/// An arena of scene entries: a `slotmap::SlotMap` with its default key type.
#[verifier::external_body]
#[derive(Debug)]
pub struct SceneArena {
    slots: SlotMap<DefaultKey, SceneNode>,
}

/// What a scene arena holds, by the `KeyData::as_ffi` bits of the keys it handed out.
pub uninterp spec fn arena_contents(arena: SceneArena) -> Map<u64, SceneNode>;

/// An empty arena, with `SlotMap::new`.
#[verifier::external_body]
fn arena_new() -> (r: SceneArena)
    ensures
        arena_contents(r).dom() == Set::<u64>::empty(),
{
    SceneArena { slots: SlotMap::new() }
}

/// Stores `node` under a new key, with `SlotMap::insert`, and returns the key's bits. The key is
/// one that the arena does not hold; a slot map holding fewer than `2^32 - 2` entries does not
/// panic here.
#[verifier::external_body]
fn arena_insert(arena: &mut SceneArena, node: SceneNode) -> (r: u64)
    requires
        arena_contents(*old(arena)).dom().len() < 4294967294,
    ensures
        key_bits_valid(r),
        !arena_contents(*old(arena)).contains_key(r),
        arena_contents(*final(arena)) == arena_contents(*old(arena)).insert(r, node),
{
    arena.slots.insert(node).data().as_ffi()
}

/// The entry under key `bits`, with `SlotMap::get`.
#[verifier::external_body]
fn arena_get(arena: &SceneArena, bits: u64) -> (r: Option<&SceneNode>)
    requires
        key_bits_valid(bits),
    ensures
        r is Some <==> arena_contents(*arena).contains_key(bits),
        r matches Some(n) ==> *n == arena_contents(*arena)[bits],
{
    arena.slots.get(DefaultKey::from(KeyData::from_ffi(bits)))
}

/// The entry under key `bits` to change in place, with `SlotMap::get_mut`.
#[verifier::external_body]
fn arena_get_mut(arena: &mut SceneArena, bits: u64) -> (r: Option<&mut SceneNode>)
    requires
        key_bits_valid(bits),
    ensures
        r is None ==> !arena_contents(*old(arena)).contains_key(bits) && arena_contents(*final(arena))
            == arena_contents(*old(arena)),
        r is Some ==> arena_contents(*old(arena)).contains_key(bits) && *r.unwrap() == arena_contents(
            *old(arena),
        )[bits] && arena_contents(*final(arena)) == arena_contents(*old(arena)).insert(
            bits,
            *final(r.unwrap()),
        ),
{
    arena.slots.get_mut(DefaultKey::from(KeyData::from_ffi(bits)))
}

/// Takes the entry under key `bits` out of the arena, with `SlotMap::remove`.
#[verifier::external_body]
fn arena_remove(arena: &mut SceneArena, bits: u64) -> (r: Option<SceneNode>)
    requires
        key_bits_valid(bits),
    ensures
        r is Some <==> arena_contents(*old(arena)).contains_key(bits),
        r matches Some(n) ==> n == arena_contents(*old(arena))[bits],
        arena_contents(*final(arena)) == arena_contents(*old(arena)).remove(bits),
{
    arena.slots.remove(DefaultKey::from(KeyData::from_ffi(bits)))
}

/// The number of entries, with `SlotMap::len`.
#[verifier::external_body]
fn arena_len(arena: &SceneArena) -> (r: usize)
    ensures
        r == arena_contents(*arena).dom().len(),
{
    arena.slots.len()
}

/// The bits of every key the arena holds, each once, in the arena's order, with `SlotMap::keys`.
#[verifier::external_body]
fn arena_keys(arena: &SceneArena) -> (r: Vec<u64>)
    ensures
        r@.no_duplicates(),
        r@.to_set() == arena_contents(*arena).dom(),
{
    arena.slots.keys().map(|k| k.data().as_ffi()).collect()
}


/// The layer an arena entry holds.
pub open spec fn node_layer(n: SceneNode) -> Layer {
    match n {
        SceneNode::Layer(l) => l,
        _ => vstd::pervasive::arbitrary(),
    }
}

/// The view an arena entry holds.
pub open spec fn node_view(n: SceneNode) -> LayerView {
    match n {
        SceneNode::View(v) => v,
        _ => vstd::pervasive::arbitrary(),
    }
}

/// The object an arena entry holds.
pub open spec fn node_object(n: SceneNode) -> Object {
    match n {
        SceneNode::Object(o) => o,
        _ => vstd::pervasive::arbitrary(),
    }
}

/// Every child layer a layer lists exists and names that layer as its parent.
pub open spec fn layers_consistent(layers: Map<u64, LayerModel>) -> bool {
    forall|k: u64, c: u64|
        #![trigger layers[k].layers.contains(c)]
        layers.contains_key(k) && layers[k].layers.contains(c) ==> layers.contains_key(c) && layers[c].parent
            == Some(k)
}

/// Every view looks into an existing layer, and a layer lists exactly the views into it.
pub open spec fn views_consistent(layers: Map<u64, LayerModel>, views: Map<u64, u64>) -> bool {
    &&& forall|v: u64|
        #[trigger] views.contains_key(v) ==> layers.contains_key(views[v]) && layers[views[v]].views.contains(v)
    &&& forall|k: u64, v: u64|
        #![trigger layers[k].views.contains(v)]
        layers.contains_key(k) && layers[k].views.contains(v) ==> views.contains_key(v) && views[v] == k
}

/// Every object of an existing layer is listed by that layer; its parent exists, lies in the
/// same layer and lists it as a child; and every child it lists exists, lies in the same layer
/// and names it as its parent.
pub open spec fn objects_consistent_in(layers: Map<u64, LayerModel>, objects: Map<u64, ObjectModel>) -> bool {
    &&& forall|x: u64|
        #[trigger] objects.contains_key(x) && layers.contains_key(objects[x].layer) ==> layers[objects[
            x
        ].layer].objects.contains(x)
    &&& forall|x: u64|
        #[trigger] objects.contains_key(x) && layers.contains_key(objects[x].layer) && objects[x].parent is Some
            ==> {
            let p = objects[x].parent.unwrap();
            &&& objects.contains_key(p)
            &&& objects[p].layer == objects[x].layer
            &&& objects[p].children.contains(x)
        }
    &&& forall|x: u64, c: u64|
        #![trigger objects[x].children.contains(c)]
        objects.contains_key(x) && layers.contains_key(objects[x].layer) && objects[x].children.contains(c)
            ==> objects.contains_key(c) && objects[c].parent == Some(x) && objects[c].layer == objects[x].layer
}

/// A layer lists only objects that exist and lie in it.
pub open spec fn layers_list_live_objects(layers: Map<u64, LayerModel>, objects: Map<u64, ObjectModel>) -> bool {
    forall|k: u64, x: u64|
        #![trigger layers[k].objects.contains(x)]
        layers.contains_key(k) && layers[k].objects.contains(x) ==> objects.contains_key(x) && objects[x].layer == k
}

/// Whether `s` holds every child of every object of `s`.
pub open spec fn child_closed(objects: Map<u64, ObjectModel>, s: Set<u64>) -> bool {
    forall|y: u64, c: u64|
        #![trigger s.contains(y), objects[y].children.contains(c)]
        s.contains(y) && objects.contains_key(y) && objects[y].children.contains(c) ==> s.contains(c)
}

/// Whether `s` is the object `root` with all its descendants: the least set that holds `root`
/// and every child of each object it holds.
pub open spec fn object_subtree(objects: Map<u64, ObjectModel>, root: u64, s: Set<u64>) -> bool {
    &&& s.contains(root)
    &&& child_closed(objects, s)
    &&& forall|t: Set<u64>| #[trigger] child_closed(objects, t) && t.contains(root) ==> s.subset_of(t)
}

/// The objects after the object `id` is taken out of the children of its parent; a parent that
/// is `id` itself or that does not exist is left alone.
pub open spec fn object_detached(objects: Map<u64, ObjectModel>, id: u64) -> Map<u64, ObjectModel> {
    match objects[id].parent {
        Some(p) => if p != id && objects.contains_key(p) {
            objects.insert(p, ObjectModel { children: objects[p].children.remove(id), ..objects[p] })
        } else {
            objects
        },
        None => objects,
    }
}


/// Whether `s` holds every child layer of every layer of `s`.
pub open spec fn layer_closed(layers: Map<u64, LayerModel>, s: Set<u64>) -> bool {
    forall|y: u64, c: u64|
        #![trigger s.contains(y), layers[y].layers.contains(c)]
        s.contains(y) && layers.contains_key(y) && layers[y].layers.contains(c) ==> s.contains(c)
}

/// Whether `s` is the layer `root` with all the layers below it: the least set that holds
/// `root` and every child layer of each layer it holds.
pub open spec fn layer_subtree(layers: Map<u64, LayerModel>, root: u64, s: Set<u64>) -> bool {
    &&& s.contains(root)
    &&& layer_closed(layers, s)
    &&& forall|t: Set<u64>| #[trigger] layer_closed(layers, t) && t.contains(root) ==> s.subset_of(t)
}

/// The layers after the layer `id` is taken out of the child layers of its parent; a parent
/// that is `id` itself or that does not exist is left alone.
pub open spec fn layer_detached(layers: Map<u64, LayerModel>, id: u64) -> Map<u64, LayerModel> {
    match layers[id].parent {
        Some(p) => if p != id && layers.contains_key(p) {
            layers.insert(p, LayerModel { layers: layers[p].layers.remove(id), ..layers[p] })
        } else {
            layers
        },
        None => layers,
    }
}

/// The entries of the three arenas are of their kind, well formed, under keys an arena hands
/// out, and every layer knows its own key.
pub open spec fn arenas_wf(layers: Map<u64, SceneNode>, views: Map<u64, SceneNode>, objects: Map<u64, SceneNode>) -> bool {
    &&& layers.dom().finite()
    &&& views.dom().finite()
    &&& objects.dom().finite()
    &&& forall|k: u64|
        #[trigger] layers.contains_key(k) ==> layers[k] is Layer && key_bits_valid(k) && node_layer(layers[k]).wf()
            && node_layer(layers[k]).spec_id() == k
    &&& forall|k: u64|
        #[trigger] views.contains_key(k) ==> views[k] is View && key_bits_valid(k) && node_view(views[k]).wf()
    &&& forall|k: u64|
        #[trigger] objects.contains_key(k) ==> objects[k] is Object && key_bits_valid(k) && node_object(
            objects[k],
        ).wf()
}

/// The whole scene seen with all its layers.
///
/// A new scene holds a root layer and one view into it.
#[derive(Debug)]
pub struct Scene {
    layers: SceneArena,
    root_layer_id: u64,
    layer_views: SceneArena,
    root_layer_view_id: u64,
    layer_tree_version: usize,
    objects: SceneArena,
}

impl Scene {
    /// The layers of this scene by key.
    pub closed spec fn layer_map(&self) -> Map<u64, LayerModel> {
        arena_contents(self.layers).map_values(|n: SceneNode| node_layer(n)@)
    }

    /// The views of this scene by key, each to the key of the layer it looks into.
    pub closed spec fn view_map(&self) -> Map<u64, u64> {
        arena_contents(self.layer_views).map_values(|n: SceneNode| node_view(n).spec_layer())
    }

    /// The objects of this scene by key.
    pub closed spec fn object_map(&self) -> Map<u64, ObjectModel> {
        arena_contents(self.objects).map_values(|n: SceneNode| node_object(n)@)
    }

    /// The key of the root layer.
    pub closed spec fn spec_root_layer_id(&self) -> u64 {
        self.root_layer_id
    }

    /// The key of the view into the root layer.
    pub closed spec fn spec_root_view_id(&self) -> u64 {
        self.root_layer_view_id
    }

    /// The number of changes made to the layer tree and its views.
    pub closed spec fn spec_version(&self) -> usize {
        self.layer_tree_version
    }

    /// The arenas hold well formed entries, and the layers, views and objects are consistent
    /// with each other.
    pub closed spec fn wf(&self) -> bool {
        &&& self.wf_relaxed()
        &&& forall|x: u64| #[trigger] self.object_map().contains_key(x) ==> self.layer_map().contains_key(self.object_map()[x].layer)
        &&& layers_list_live_objects(self.layer_map(), self.object_map())
        &&& self.layer_map().contains_key(self.root_layer_id)
        &&& self.layer_map()[self.root_layer_id].parent is None
    }

    /// The arenas hold well formed entries and the root keys are valid.
    closed spec fn wf_relaxed_arenas(&self) -> bool {
        &&& arenas_wf(arena_contents(self.layers), arena_contents(self.layer_views), arena_contents(self.objects))
        &&& key_bits_valid(self.root_layer_id)
        &&& key_bits_valid(self.root_layer_view_id)
    }

    /// Well formed, except that objects may lie in layers that no longer exist.
    closed spec fn wf_relaxed(&self) -> bool {
        &&& arenas_wf(arena_contents(self.layers), arena_contents(self.layer_views), arena_contents(self.objects))
        &&& key_bits_valid(self.root_layer_id)
        &&& key_bits_valid(self.root_layer_view_id)
        &&& layers_consistent(self.layer_map())
        &&& views_consistent(self.layer_map(), self.view_map())
        &&& objects_consistent_in(self.layer_map(), self.object_map())
    }

    /// A scene with a root layer and one view into it, drawing to the window.
    pub fn new() -> (r: Self)
        ensures
            r.wf(),
            r.layer_map().dom() == set![r.spec_root_layer_id()],
            r.layer_map()[r.spec_root_layer_id()] == (LayerModel {
                objects: Set::empty(),
                views: set![r.spec_root_view_id()],
                layers: Set::empty(),
                id: r.spec_root_layer_id(),
                parent: None,
            }),
            r.view_map() == map![r.spec_root_view_id() => r.spec_root_layer_id()],
            r.object_map().dom() == Set::<u64>::empty(),
            r.spec_version() == 0,
    {
        let mut layers = arena_new();
        let mut layer_views = arena_new();
        let root_layer_id = arena_insert(&mut layers, SceneNode::Layer(Layer::unnamed(None)));
        let root_layer_view_id = arena_insert(&mut layer_views, SceneNode::View(LayerView { layer_id: root_layer_id }));
        let mut views = IdSet::new();
        views.insert(root_layer_view_id);
        match arena_get_mut(&mut layers, root_layer_id) {
            Some(SceneNode::Layer(layer)) => {
                layer.id = root_layer_id;
                layer.views = views;
            },
            _ => {},
        }
        let r = Scene {
            layers,
            root_layer_id,
            layer_views,
            root_layer_view_id,
            layer_tree_version: 0,
            objects: arena_new(),
        };
        proof {
            let lc = arena_contents(r.layers);
            let vc = arena_contents(r.layer_views);
            assert(lc.dom() =~= set![root_layer_id]);
            assert(vc.dom() =~= set![root_layer_view_id]);
            assert(r.layer_map().dom() =~= set![root_layer_id]);
            assert(r.view_map() =~= map![root_layer_view_id => root_layer_id]);
            assert(r.object_map().dom() =~= Set::<u64>::empty());
            assert(r.layer_map()[root_layer_id] =~= (LayerModel {
                objects: Set::empty(),
                views: set![root_layer_view_id],
                layers: Set::empty(),
                id: root_layer_id,
                parent: None,
            }));
        }
        r
    }
}


/// The layers after adding layer `n` with parent `p` to `before`: the new layer is empty and
/// names `p` as its parent, and when `p` is a layer (or `n` itself) it lists `n` as a child.
pub open spec fn layer_added(before: Map<u64, LayerModel>, after: Map<u64, LayerModel>, n: u64, p: u64) -> bool {
    let fresh = LayerModel { objects: Set::empty(), views: Set::empty(), layers: Set::empty(), id: n, parent: Some(p) };
    let inserted = before.insert(n, fresh);
    &&& !before.contains_key(n)
    &&& after == if inserted.contains_key(p) {
        inserted.insert(p, LayerModel { layers: inserted[p].layers.insert(n), ..inserted[p] })
    } else {
        inserted
    }
}

impl Scene {
    /// Returns the ID of the root layer.
    pub fn root_layer_id(&self) -> (r: LayerId)
        requires
            self.wf(),
        ensures
            r@ == self.spec_root_layer_id(),
    {
        LayerId::from_bits(self.root_layer_id)
    }

    /// Returns the ID of the view into the root layer.
    pub fn root_view_id(&self) -> (r: LayerViewId)
        requires
            self.wf(),
        ensures
            r@ == self.spec_root_view_id(),
    {
        LayerViewId::from_bits(self.root_layer_view_id)
    }

    /// Returns the layer with the given ID, if it exists.
    pub fn layer(&self, id: LayerId) -> (r: Option<&Layer>)
        requires
            self.wf(),
        ensures
            r is Some <==> self.layer_map().contains_key(id@),
            r matches Some(l) ==> l@ == self.layer_map()[id@] && l.wf(),
    {
        match arena_get(&self.layers, id.bits()) {
            Some(node) => node.as_layer(),
            None => None,
        }
    }

    /// Returns the root layer of the scene.
    pub fn root_layer(&self) -> (r: &Layer)
        requires
            self.wf(),
        ensures
            r@ == self.layer_map()[self.spec_root_layer_id()],
            r.wf(),
    {
        arena_get(&self.layers, self.root_layer_id).unwrap().as_layer().unwrap()
    }

    /// Returns the number of layers of the scene.
    pub fn layers_count(&self) -> (r: usize)
        requires
            self.wf(),
        ensures
            r == self.layer_map().dom().len(),
    {
        proof {
            assert(self.layer_map().dom() =~= arena_contents(self.layers).dom());
        }
        arena_len(&self.layers)
    }

    /// Returns how often the layer tree or its views have been changed.
    pub fn layer_tree_version(&self) -> (r: usize)
        ensures
            r == self.spec_version(),
    {
        self.layer_tree_version
    }

    /// Returns the view with the given ID, if it exists.
    pub fn view(&self, id: LayerViewId) -> (r: Option<&LayerView>)
        requires
            self.wf(),
        ensures
            r is Some <==> self.view_map().contains_key(id@),
            r matches Some(v) ==> v.spec_layer() == self.view_map()[id@] && v.wf(),
    {
        match arena_get(&self.layer_views, id.bits()) {
            Some(node) => node.as_view(),
            None => None,
        }
    }

    /// Returns the view into the root layer.
    pub fn root_view(&self) -> (r: &LayerView)
        requires
            self.wf(),
            self.view_map().contains_key(self.spec_root_view_id()),
        ensures
            r.spec_layer() == self.view_map()[self.spec_root_view_id()],
            r.wf(),
    {
        arena_get(&self.layer_views, self.root_layer_view_id).unwrap().as_view().unwrap()
    }

    /// Returns the number of views of the scene.
    pub fn views_count(&self) -> (r: usize)
        requires
            self.wf(),
        ensures
            r == self.view_map().dom().len(),
    {
        proof {
            assert(self.view_map().dom() =~= arena_contents(self.layer_views).dom());
        }
        arena_len(&self.layer_views)
    }

    /// Returns the IDs of all views of the scene, each once.
    pub fn view_ids(&self) -> (r: Vec<LayerViewId>)
        requires
            self.wf(),
        ensures
            r@.len() == self.view_map().dom().len(),
            forall|k: u64| self.view_map().contains_key(k) <==> exists|i: int| 0 <= i < r@.len() && #[trigger] r@[i]@ == k,
    {
        let keys = arena_keys(&self.layer_views);
        let mut out: Vec<LayerViewId> = Vec::new();
        let mut i: usize = 0;
        while i < keys.len()
            invariant
                i <= keys@.len(),
                keys@.to_set() == arena_contents(self.layer_views).dom(),
                arenas_wf(arena_contents(self.layers), arena_contents(self.layer_views), arena_contents(self.objects)),
                out@.len() == i,
                forall|j: int| 0 <= j < i ==> #[trigger] out@[j]@ == keys@[j],
            decreases keys@.len() - i,
        {
            proof {
                assert(keys@.contains(keys@[i as int]));
                assert(arena_contents(self.layer_views).contains_key(keys@[i as int]));
            }
            out.push(LayerViewId::from_bits(keys[i]));
            i = i + 1;
        }
        proof {
            assert(self.view_map().dom() =~= arena_contents(self.layer_views).dom());
            keys@.unique_seq_to_set();
            assert forall|k: u64| self.view_map().contains_key(k) <==> exists|j: int| 0 <= j < out@.len() && #[trigger] out@[j]@ == k by {
                if self.view_map().contains_key(k) {
                    assert(keys@.to_set().contains(k));
                    let j = choose|j: int| 0 <= j < keys@.len() && keys@[j] == k;
                    assert(out@[j]@ == k);
                }
                if exists|j: int| 0 <= j < out@.len() && #[trigger] out@[j]@ == k {
                    let j = choose|j: int| 0 <= j < out@.len() && #[trigger] out@[j]@ == k;
                    assert(keys@.contains(keys@[j]));
                }
            }
        }
        out
    }

    /// Returns the object with the given ID, if it exists.
    pub fn object(&self, id: ObjectId) -> (r: Option<&Object>)
        requires
            self.wf(),
        ensures
            r is Some <==> self.object_map().contains_key(id@),
            r matches Some(o) ==> o@ == self.object_map()[id@] && o.wf(),
    {
        match arena_get(&self.objects, id.bits()) {
            Some(node) => node.as_object(),
            None => None,
        }
    }

    /// Adds a new empty layer as a child of the layer `parent_id` and returns its ID.
    ///
    /// The new layer is stored even when `parent_id` names no layer; it is then a layer of its
    /// own without a parent that lists it, and `None` is returned.
    pub fn add_layer(&mut self, parent_id: LayerId) -> (r: Option<LayerId>)
        requires
            old(self).wf(),
            old(self).layer_map().dom().len() < 4294967294,
            old(self).spec_version() < usize::MAX,
        ensures
            final(self).wf(),
            exists|n: u64|
                #[trigger] layer_added(old(self).layer_map(), final(self).layer_map(), n, parent_id@) && (r is Some
                    <==> (old(self).layer_map().contains_key(parent_id@) || n == parent_id@)) && (r matches Some(id)
                    ==> id@ == n),
            final(self).view_map() == old(self).view_map(),
            final(self).object_map() == old(self).object_map(),
            final(self).spec_root_layer_id() == old(self).spec_root_layer_id(),
            final(self).spec_root_view_id() == old(self).spec_root_view_id(),
            final(self).spec_version() == if r is Some {
                old(self).spec_version() + 1
            } else {
                old(self).spec_version() as int
            },
    {
        let p = parent_id.bits();
        let ghost before = self.layer_map();
        proof {
            assert(before.dom() =~= arena_contents(self.layers).dom());
        }
        let n = arena_insert(&mut self.layers, SceneNode::Layer(Layer::unnamed(Some(p))));
        match arena_get_mut(&mut self.layers, n) {
            Some(SceneNode::Layer(layer)) => {
                layer.id = n;
            },
            _ => {},
        }
        let ghost fresh = LayerModel { objects: Set::empty(), views: Set::empty(), layers: Set::empty(), id: n, parent: Some(p) };
        let ghost inserted = before.insert(n, fresh);
        proof {
            assert(self.layer_map() =~= inserted);
        }
        let linked = match arena_get_mut(&mut self.layers, p) {
            Some(SceneNode::Layer(parent)) => {
                parent.layers.insert(n);
                true
            },
            _ => false,
        };
        proof {
            if linked {
                assert(self.layer_map() =~= inserted.insert(p, LayerModel { layers: inserted[p].layers.insert(n), ..inserted[p] }));
            } else {
                assert(self.layer_map() =~= inserted);
            }
            assert(layer_added(before, self.layer_map(), n, p));
        }
        if !linked {
            return None;
        }
        self.layer_tree_version = self.layer_tree_version + 1;
        Some(LayerId::from_bits(n))
    }
}


impl Scene {
    /// Returns a new view into the layer `layer_id`, or `None` in case the layer ID is invalid
    /// or names the root layer: the root layer can not have multiple views.
    ///
    /// What the view shows and where it draws is kept by its owner under the returned ID.
    pub fn add_view(&mut self, layer_id: LayerId) -> (r: Option<LayerViewId>)
        requires
            old(self).wf(),
            old(self).view_map().dom().len() < 4294967294,
            old(self).spec_version() < usize::MAX,
        ensures
            final(self).wf(),
            r is Some <==> old(self).layer_map().contains_key(layer_id@) && layer_id@ != old(self).spec_root_layer_id(),
            r is None ==> *final(self) == *old(self),
            r matches Some(v) ==> {
                &&& !old(self).view_map().contains_key(v@)
                &&& final(self).view_map() == old(self).view_map().insert(v@, layer_id@)
                &&& final(self).layer_map() == old(self).layer_map().insert(
                    layer_id@,
                    LayerModel { views: old(self).layer_map()[layer_id@].views.insert(v@), ..old(self).layer_map()[layer_id@] },
                )
                &&& final(self).spec_version() == old(self).spec_version() + 1
            },
            final(self).object_map() == old(self).object_map(),
            final(self).spec_root_layer_id() == old(self).spec_root_layer_id(),
            final(self).spec_root_view_id() == old(self).spec_root_view_id(),
    {
        let l = layer_id.bits();
        if l == self.root_layer_id || arena_get(&self.layers, l).is_none() {
            return None;
        }
        let ghost layers_before = self.layer_map();
        let ghost views_before = self.view_map();
        proof {
            assert(views_before.dom() =~= arena_contents(self.layer_views).dom());
        }
        let v = arena_insert(&mut self.layer_views, SceneNode::View(LayerView { layer_id: l }));
        proof {
            assert(self.view_map() =~= views_before.insert(v, l));
        }
        match arena_get_mut(&mut self.layers, l) {
            Some(SceneNode::Layer(layer)) => {
                layer.views.insert(v);
            },
            _ => {},
        }
        proof {
            assert(self.layer_map() =~= layers_before.insert(
                l,
                LayerModel { views: layers_before[l].views.insert(v), ..layers_before[l] },
            ));
        }
        self.layer_tree_version = self.layer_tree_version + 1;
        Some(LayerViewId::from_bits(v))
    }

    /// Removes the view `view_id` from the scene and from its layer; nothing happens when it
    /// does not exist.
    pub fn remove_view(&mut self, view_id: LayerViewId)
        requires
            old(self).wf(),
            old(self).spec_version() < usize::MAX,
        ensures
            final(self).wf(),
            !old(self).view_map().contains_key(view_id@) ==> *final(self) == *old(self),
            old(self).view_map().contains_key(view_id@) ==> {
                let l = old(self).view_map()[view_id@];
                &&& final(self).view_map() == old(self).view_map().remove(view_id@)
                &&& final(self).layer_map() == old(self).layer_map().insert(
                    l,
                    LayerModel { views: old(self).layer_map()[l].views.remove(view_id@), ..old(self).layer_map()[l] },
                )
                &&& final(self).spec_version() == old(self).spec_version() + 1
            },
            final(self).object_map() == old(self).object_map(),
            final(self).spec_root_layer_id() == old(self).spec_root_layer_id(),
            final(self).spec_root_view_id() == old(self).spec_root_view_id(),
    {
        let v = view_id.bits();
        let ghost layers_before = self.layer_map();
        let ghost views_before = self.view_map();
        if arena_get(&self.layer_views, v).is_none() {
            return;
        }
        let removed = arena_remove(&mut self.layer_views, v);
        let view = match removed {
            Some(SceneNode::View(view)) => view,
            _ => {
                return;
            },
        };
        let l = view.layer_id;
        proof {
            assert(self.view_map() =~= views_before.remove(v));
            assert(views_before.contains_key(v));
            assert(l == views_before[v]);
            assert(layers_before.contains_key(l));
            assert(arena_contents(self.layers).contains_key(l));
        }
        match arena_get_mut(&mut self.layers, l) {
            Some(SceneNode::Layer(layer)) => {
                layer.views.remove(v);
            },
            _ => {},
        }
        proof {
            assert(self.layer_map() =~= layers_before.insert(
                l,
                LayerModel { views: layers_before[l].views.remove(v), ..layers_before[l] },
            ));
        }
        self.layer_tree_version = self.layer_tree_version + 1;
    }

    /// Adds an object without a parent to the layer `layer_id` and returns its ID, or `None` in
    /// case the layer ID is invalid.
    ///
    /// What the object looks like and where it is is kept by its owner under the returned ID.
    pub fn add_object(&mut self, layer_id: LayerId) -> (r: Option<ObjectId>)
        requires
            old(self).wf(),
            old(self).object_map().dom().len() < 4294967294,
        ensures
            final(self).wf(),
            r is Some <==> old(self).layer_map().contains_key(layer_id@),
            r is None ==> *final(self) == *old(self),
            r matches Some(o) ==> {
                &&& !old(self).object_map().contains_key(o@)
                &&& !old(self).layer_map()[layer_id@].objects.contains(o@)
                &&& final(self).object_map() == old(self).object_map().insert(
                    o@,
                    ObjectModel { children: Set::empty(), parent: None, layer: layer_id@ },
                )
                &&& final(self).layer_map() == old(self).layer_map().insert(
                    layer_id@,
                    LayerModel { objects: old(self).layer_map()[layer_id@].objects.insert(o@), ..old(self).layer_map()[layer_id@] },
                )
                &&& final(self).object_map().dom().len() == old(self).object_map().dom().len() + 1
                &&& final(self).layer_map()[layer_id@].objects.len() == old(self).layer_map()[layer_id@].objects.len() + 1
            },
            final(self).view_map() == old(self).view_map(),
            final(self).spec_root_layer_id() == old(self).spec_root_layer_id(),
            final(self).spec_root_view_id() == old(self).spec_root_view_id(),
            final(self).spec_version() == old(self).spec_version(),
    {
        let l = layer_id.bits();
        if arena_get(&self.layers, l).is_none() {
            return None;
        }
        let ghost layers_before = self.layer_map();
        let ghost objects_before = self.object_map();
        proof {
            assert(objects_before.dom() =~= arena_contents(self.objects).dom());
        }
        let o = arena_insert(
            &mut self.objects,
            SceneNode::Object(Object { children: IdSet::new(), parent_id: None, layer_id: l }),
        );
        proof {
            assert(self.object_map() =~= objects_before.insert(
                o,
                ObjectModel { children: Set::empty(), parent: None, layer: l },
            ));
        }
        match arena_get_mut(&mut self.layers, l) {
            Some(SceneNode::Layer(layer)) => {
                layer.objects.insert(o);
            },
            _ => {},
        }
        proof {
            assert(self.layer_map() =~= layers_before.insert(
                l,
                LayerModel { objects: layers_before[l].objects.insert(o), ..layers_before[l] },
            ));
        }
        Some(ObjectId::from_bits(o))
    }

    /// Adds an object as a child of the object `parent_id`, into the parent's layer, and returns
    /// its ID, or `None` in case the parent does not exist.
    pub fn add_object_with_parent(&mut self, parent_id: ObjectId) -> (r: Option<ObjectId>)
        requires
            old(self).wf(),
            old(self).object_map().dom().len() < 4294967294,
        ensures
            final(self).wf(),
            r is Some <==> old(self).object_map().contains_key(parent_id@),
            r is None ==> *final(self) == *old(self),
            r matches Some(o) ==> {
                let l = old(self).object_map()[parent_id@].layer;
                let parent = old(self).object_map()[parent_id@];
                &&& !old(self).object_map().contains_key(o@)
                &&& !old(self).layer_map()[l].objects.contains(o@)
                &&& final(self).object_map() == old(self).object_map().insert(
                    parent_id@,
                    ObjectModel { children: parent.children.insert(o@), ..parent },
                ).insert(o@, ObjectModel { children: Set::empty(), parent: Some(parent_id@), layer: l })
                &&& final(self).layer_map() == old(self).layer_map().insert(
                    l,
                    LayerModel { objects: old(self).layer_map()[l].objects.insert(o@), ..old(self).layer_map()[l] },
                )
                &&& final(self).object_map().dom().len() == old(self).object_map().dom().len() + 1
                &&& final(self).layer_map()[l].objects.len() == old(self).layer_map()[l].objects.len() + 1
            },
            final(self).view_map() == old(self).view_map(),
            final(self).spec_root_layer_id() == old(self).spec_root_layer_id(),
            final(self).spec_root_view_id() == old(self).spec_root_view_id(),
            final(self).spec_version() == old(self).spec_version(),
    {
        let p = parent_id.bits();
        let l = match arena_get(&self.objects, p) {
            Some(SceneNode::Object(parent)) => parent.layer_id,
            _ => {
                return None;
            },
        };
        if arena_get(&self.layers, l).is_none() {
            return None;
        }
        let ghost layers_before = self.layer_map();
        let ghost objects_before = self.object_map();
        let ghost parent = objects_before[p];
        proof {
            assert(objects_before.dom() =~= arena_contents(self.objects).dom());
        }
        let o = arena_insert(
            &mut self.objects,
            SceneNode::Object(Object { children: IdSet::new(), parent_id: Some(p), layer_id: l }),
        );
        match arena_get_mut(&mut self.objects, p) {
            Some(SceneNode::Object(parent_object)) => {
                parent_object.children.insert(o);
            },
            _ => {},
        }
        proof {
            assert(self.object_map() =~= objects_before.insert(
                p,
                ObjectModel { children: parent.children.insert(o), ..parent },
            ).insert(o, ObjectModel { children: Set::empty(), parent: Some(p), layer: l }));
        }
        match arena_get_mut(&mut self.layers, l) {
            Some(SceneNode::Layer(layer)) => {
                layer.objects.insert(o);
            },
            _ => {},
        }
        proof {
            assert(self.layer_map() =~= layers_before.insert(
                l,
                LayerModel { objects: layers_before[l].objects.insert(o), ..layers_before[l] },
            ));
        }
        Some(ObjectId::from_bits(o))
    }
}


impl Scene {
    /// Removes the object `id`: when its layer still exists it is also taken out of its parent's
    /// children, and all its descendants are removed with it, all of them also out of the layer.
    #[verifier::rlimit(60)]
    fn remove_object_inner(&mut self, id: u64)
        requires
            old(self).wf_relaxed(),
            key_bits_valid(id),
        ensures
            final(self).wf_relaxed(),
            final(self).view_map() == old(self).view_map(),
            final(self).spec_root_layer_id() == old(self).spec_root_layer_id(),
            final(self).spec_root_view_id() == old(self).spec_root_view_id(),
            final(self).spec_version() == old(self).spec_version(),
            !old(self).object_map().contains_key(id) ==> final(self).object_map() == old(self).object_map()
                && final(self).layer_map() == old(self).layer_map(),
            old(self).object_map().contains_key(id) && !old(self).layer_map().contains_key(
                old(self).object_map()[id].layer,
            ) ==> final(self).object_map() == old(self).object_map().remove(id) && final(self).layer_map()
                == old(self).layer_map(),
            old(self).object_map().contains_key(id) && old(self).layer_map().contains_key(
                old(self).object_map()[id].layer,
            ) ==> {
                let l = old(self).object_map()[id].layer;
                exists|removed: Set<u64>|
                    #[trigger] object_subtree(old(self).object_map(), id, removed) && final(self).object_map()
                        == object_detached(old(self).object_map(), id).remove_keys(removed) && (forall|r: u64|
                        removed.contains(r) ==> old(self).object_map().contains_key(r)
                            && old(self).object_map()[r].layer == l) && final(self).layer_map()
                        == old(self).layer_map().insert(
                        l,
                        LayerModel {
                            objects: old(self).layer_map()[l].objects.difference(removed),
                            ..old(self).layer_map()[l]
                        },
                    )
            },
    {
        let ghost o0 = self.object_map();
        let ghost l0 = self.layer_map();
        if arena_get(&self.objects, id).is_none() {
            return;
        }
        let object = match arena_remove(&mut self.objects, id) {
            Some(SceneNode::Object(o)) => o,
            _ => {
                return;
            },
        };
        proof {
            assert(o0.contains_key(id));
            assert(object@ == o0[id]);
            assert(self.object_map() =~= o0.remove(id));
        }
        let l = object.layer_id;
        match arena_get_mut(&mut self.layers, l) {
            Some(SceneNode::Layer(layer)) => {
                layer.objects.remove(id);
            },
            _ => {
                proof {
                    assert(!l0.contains_key(l));
                    assert(self.layer_map() =~= l0);
                }
                return;
            },
        }
        let ghost l1 = l0.insert(l, LayerModel { objects: l0[l].objects.remove(id), ..l0[l] });
        proof {
            assert(l0.contains_key(l));
            assert(self.layer_map() =~= l1);
        }
        let ghost ofull = object_detached(o0, id);
        match object.parent_id {
            Some(p) => {
                match arena_get_mut(&mut self.objects, p) {
                    Some(SceneNode::Object(parent)) => {
                        parent.children.remove(id);
                        proof {
                            assert(p != id);
                            assert(o0.contains_key(p));
                            assert(self.object_map() =~= ofull.remove(id));
                        }
                    },
                    _ => {
                        proof {
                            assert(self.object_map() =~= ofull.remove(id));
                        }
                    },
                }
            },
            None => {
                proof {
                    assert(self.object_map() =~= ofull.remove(id));
                }
            },
        }
        let mut stack: Vec<u64> = object.children.keys();
        let ghost mut removed: Set<u64> = set![id];
        proof {
            assert(ofull.remove(id) =~= ofull.remove_keys(removed));
            assert(l0[l].objects.remove(id) =~= l0[l].objects.difference(removed));
            assert forall|i: int| 0 <= i < stack@.len() implies o0.contains_key(#[trigger] stack@[i]) && o0[stack@[i]].layer == l
                && key_bits_valid(stack@[i]) && o0[stack@[i]].parent == Some(id) by {
                assert(o0[id].children.contains(stack@[i]));
            }
        }
        while stack.len() > 0
            invariant
                self.wf_relaxed_arenas(),
                self.layer_map() == l0.insert(l, LayerModel { objects: l0[l].objects.difference(removed), ..l0[l] }),
                self.view_map() == old(self).view_map(),
                self.spec_root_layer_id() == old(self).spec_root_layer_id(),
                self.spec_root_view_id() == old(self).spec_root_view_id(),
                self.spec_version() == old(self).spec_version(),
                o0 == old(self).object_map(),
                l0 == old(self).layer_map(),
                l == o0[id].layer,
                l0.contains_key(l),
                o0.contains_key(id),
                objects_consistent_in(l0, o0),
                ofull == object_detached(o0, id),
                self.object_map() == ofull.remove_keys(removed),
                removed.contains(id),
                forall|r: u64| #[trigger] removed.contains(r) ==> o0.contains_key(r) && o0[r].layer == l,
                forall|r: u64|
                    #[trigger] removed.contains(r) ==> r == id || (o0[r].parent is Some && removed.contains(
                        o0[r].parent.unwrap(),
                    )),
                forall|i: int|
                    0 <= i < stack@.len() ==> o0.contains_key(#[trigger] stack@[i]) && o0[stack@[i]].layer == l
                        && key_bits_valid(stack@[i]) && o0[stack@[i]].parent is Some && removed.contains(
                        o0[stack@[i]].parent.unwrap(),
                    ),
                forall|y: u64, c: u64|
                    #![trigger removed.contains(y), o0[y].children.contains(c)]
                    removed.contains(y) && o0[y].children.contains(c) ==> removed.contains(c) || stack@.contains(c),
                forall|t: Set<u64>|
                    #[trigger] child_closed(o0, t) && t.contains(id) ==> removed.subset_of(t) && (forall|i: int|
                        0 <= i < stack@.len() ==> t.contains(#[trigger] stack@[i])),
            decreases arena_contents(self.objects).dom().len(), stack@.len(),
        {
            let ghost pre = stack@;
            let ghost removed_pre = removed;
            let y = stack.pop().unwrap();
            let ghost before_stack = stack@;
            proof {
                assert(pre =~= before_stack.push(y));
            }
            proof {
                assert(key_bits_valid(y));
            }
            let ghost cur = self.object_map();
            let ghost prev_arena = arena_contents(self.objects);
            proof {
                assert(cur.dom() =~= prev_arena.dom());
            }
            match arena_remove(&mut self.objects, y) {
                Some(SceneNode::Object(node)) => {
                    proof {
                        assert(cur.contains_key(y));
                        assert(node@ == cur[y]);
                        assert(cur[y] == ofull[y]);
                        assert(node.children.set().subset_of(o0[y].children));
                    }
                    let mut kids = node.children.keys();
                    let ghost kids_seq = kids@;
                    stack.append(&mut kids);
                    let ghost lcur = self.layer_map();
                    proof {
                        assert(lcur.dom() =~= arena_contents(self.layers).dom());
                        assert(lcur.contains_key(l));
                    }
                    match arena_get_mut(&mut self.layers, l) {
                        Some(SceneNode::Layer(layer)) => {
                            layer.objects.remove(y);
                        },
                        _ => {},
                    }
                    proof {
                        assert(self.layer_map() =~= lcur.insert(l, LayerModel { objects: lcur[l].objects.remove(y), ..lcur[l] }));
                        assert(l0[l].objects.difference(removed).remove(y) =~= l0[l].objects.difference(removed.insert(y)));
                        assert(self.object_map() =~= cur.remove(y));
                        assert(ofull.remove_keys(removed).remove(y) =~= ofull.remove_keys(removed.insert(y)));
                        removed = removed.insert(y);
                        assert forall|i: int| 0 <= i < stack@.len() implies o0.contains_key(#[trigger] stack@[i])
                            && o0[stack@[i]].layer == l && key_bits_valid(stack@[i]) && o0[stack@[i]].parent is Some
                            && removed.contains(o0[stack@[i]].parent.unwrap()) by {
                            if i < before_stack.len() {
                                assert(stack@[i] == before_stack[i]);
                            } else {
                                let c = stack@[i];
                                assert(kids_seq[i - before_stack.len()] == c);
                                assert(kids_seq.contains(c));
                                assert(o0[y].children.contains(c));
                            }
                        }
                        assert forall|y2: u64, c: u64|
                            #![trigger removed.contains(y2), o0[y2].children.contains(c)]
                            removed.contains(y2) && o0[y2].children.contains(c) implies removed.contains(c)
                                || stack@.contains(c) by {
                            if y2 == y {
                                if c != id {
                                    assert(ofull[y].children.contains(c));
                                    assert(kids_seq.contains(c));
                                    let k = choose|k: int| 0 <= k < kids_seq.len() && kids_seq[k] == c;
                                    assert(stack@[before_stack.len() + k] == c);
                                }
                            } else {
                                assert(removed_pre.contains(y2));
                                if !removed_pre.contains(c) && c != y {
                                    assert(pre.contains(c));
                                    let k = choose|k: int| 0 <= k < pre.len() && pre[k] == c;
                                    assert(k < before_stack.len());
                                    assert(stack@[k] == c);
                                }
                            }
                        }
                    }
                },
                _ => {
                    proof {
                        assert(!prev_arena.contains_key(y));
                        assert(self.object_map() =~= cur);
                        assert(o0.contains_key(y));
                        assert(ofull.dom() =~= o0.dom());
                        assert(removed.contains(y));
                        assert forall|y2: u64, c: u64|
                            #![trigger removed.contains(y2), o0[y2].children.contains(c)]
                            removed.contains(y2) && o0[y2].children.contains(c) implies removed.contains(c)
                                || stack@.contains(c) by {
                            if !removed.contains(c) && c != y {
                                assert(pre.contains(c));
                                let k = choose|k: int| 0 <= k < pre.len() && pre[k] == c;
                                assert(k < before_stack.len());
                                assert(stack@[k] == c);
                            }
                        }
                    }
                },
            }
        }
        proof {
            assert(object_subtree(o0, id, removed));
        }
    }
}


impl Scene {
    /// Removes the object `id` and all its descendants from the scene and from their layer, and
    /// takes it out of its parent's children; nothing happens when it does not exist.
    pub fn remove_object(&mut self, id: ObjectId)
        requires
            old(self).wf(),
        ensures
            final(self).wf(),
            final(self).view_map() == old(self).view_map(),
            final(self).spec_root_layer_id() == old(self).spec_root_layer_id(),
            final(self).spec_root_view_id() == old(self).spec_root_view_id(),
            final(self).spec_version() == old(self).spec_version(),
            !old(self).object_map().contains_key(id@) ==> final(self).object_map() == old(self).object_map()
                && final(self).layer_map() == old(self).layer_map(),
            old(self).object_map().contains_key(id@) ==> {
                let l = old(self).object_map()[id@].layer;
                exists|removed: Set<u64>|
                    #[trigger] object_subtree(old(self).object_map(), id@, removed) && final(self).object_map()
                        == object_detached(old(self).object_map(), id@).remove_keys(removed) && final(self).layer_map()
                        == old(self).layer_map().insert(
                        l,
                        LayerModel {
                            objects: old(self).layer_map()[l].objects.difference(removed),
                            ..old(self).layer_map()[l]
                        },
                    ) && final(self).object_map().dom().len() + removed.len() == old(self).object_map().dom().len()
                        && final(self).layer_map()[l].objects.len() + removed.len()
                        == old(self).layer_map()[l].objects.len()
            },
    {
        let bits = id.bits();
        proof {
            law_scene_references_resolve(*old(self));
        }
        self.remove_object_inner(bits);
        proof {
            let o0 = old(self).object_map();
            let o1 = self.object_map();
            assert forall|x: u64| #[trigger] o1.contains_key(x) implies self.layer_map().contains_key(o1[x].layer) by {
                assert(o0.contains_key(x));
                if o0.contains_key(bits) {
                    let removed = choose|removed: Set<u64>|
                        #[trigger] object_subtree(o0, bits, removed) && o1 == object_detached(o0, bits).remove_keys(removed)
                            && (forall|r: u64| removed.contains(r) ==> o0.contains_key(r) && o0[r].layer == o0[bits].layer)
                            && self.layer_map() == old(self).layer_map().insert(
                            o0[bits].layer,
                            LayerModel {
                                objects: old(self).layer_map()[o0[bits].layer].objects.difference(removed),
                                ..old(self).layer_map()[o0[bits].layer]
                            },
                        );
                    assert(o1[x].layer == o0[x].layer);
                }
            }
            if o0.contains_key(bits) {
                let l = o0[bits].layer;
                let l0 = old(self).layer_map();
                let removed = choose|removed: Set<u64>|
                    #[trigger] object_subtree(o0, bits, removed) && o1 == object_detached(o0, bits).remove_keys(removed)
                        && (forall|r: u64| removed.contains(r) ==> o0.contains_key(r) && o0[r].layer == l)
                        && self.layer_map() == l0.insert(
                        l,
                        LayerModel { objects: l0[l].objects.difference(removed), ..l0[l] },
                    );
                assert forall|k: u64, x: u64|
                    #![trigger self.layer_map()[k].objects.contains(x)]
                    self.layer_map().contains_key(k) && self.layer_map()[k].objects.contains(x) implies o1.contains_key(x)
                        && o1[x].layer == k by {
                    assert(l0[k].objects.contains(x));
                    assert(o0.contains_key(x) && o0[x].layer == k);
                    assert(!removed.contains(x));
                    assert(object_detached(o0, bits).contains_key(x));
                }
                assert(removed.subset_of(o0.dom()));
                assert(removed.subset_of(l0[l].objects));
                vstd::set_lib::lemma_len_subset(removed, o0.dom());
                vstd::set_lib::lemma_set_difference_len(o0.dom(), removed);
                vstd::set_lib::lemma_set_difference_len(l0[l].objects, removed);
                assert(o0.dom().intersect(removed) =~= removed);
                assert(l0[l].objects.intersect(removed) =~= removed);
                assert(o1.dom() =~= o0.dom().difference(removed));
            }
        }
    }
}


impl Scene {
    /// Removes every view in `views` from the views arena.
    fn remove_views_in(&mut self, views: &Vec<u64>)
        requires
            old(self).wf_relaxed_arenas(),
            forall|i: int| 0 <= i < views@.len() ==> key_bits_valid(#[trigger] views@[i]),
        ensures
            final(self).wf_relaxed_arenas(),
            final(self).view_map() == old(self).view_map().remove_keys(views@.to_set()),
            final(self).layers == old(self).layers,
            final(self).objects == old(self).objects,
            final(self).root_layer_id == old(self).root_layer_id,
            final(self).root_layer_view_id == old(self).root_layer_view_id,
            final(self).layer_tree_version == old(self).layer_tree_version,
    {
        let ghost v0 = self.view_map();
        let mut i: usize = 0;
        while i < views.len()
            invariant
                i <= views@.len(),
                self.wf_relaxed_arenas(),
                forall|k: int| 0 <= k < views@.len() ==> key_bits_valid(#[trigger] views@[k]),
                self.view_map() == v0.remove_keys(views@.subrange(0, i as int).to_set()),
                self.layers == old(self).layers,
                self.objects == old(self).objects,
                self.root_layer_id == old(self).root_layer_id,
                self.root_layer_view_id == old(self).root_layer_view_id,
                self.layer_tree_version == old(self).layer_tree_version,
                v0 == old(self).view_map(),
            decreases views@.len() - i,
        {
            let ghost cur = self.view_map();
            let _ = arena_remove(&mut self.layer_views, views[i]);
            proof {
                assert(self.view_map() =~= cur.remove(views@[i as int]));
                assert(views@.subrange(0, i + 1) =~= views@.subrange(0, i as int).push(views@[i as int]));
                views@.subrange(0, i as int).lemma_push_to_set_commute(views@[i as int]);
                assert(self.view_map() =~= v0.remove_keys(views@.subrange(0, i + 1).to_set()));
            }
            i = i + 1;
        }
        proof {
            assert(views@.subrange(0, views@.len() as int) =~= views@);
        }
    }
}


impl Scene {
    /// Removes every object in `objects` as `remove_object` does, where the objects of layers
    /// that no longer exist are only taken out of the objects arena.
    #[verifier::rlimit(60)]
    fn remove_objects_in(
        &mut self,
        objects: &Vec<u64>,
        Ghost(o0): Ghost<Map<u64, ObjectModel>>,
        Ghost(ls): Ghost<Map<u64, LayerModel>>,
    )
        requires
            old(self).wf_relaxed(),
            forall|i: int| 0 <= i < objects@.len() ==> key_bits_valid(#[trigger] objects@[i]),
            old(self).object_map() == o0,
            old(self).layer_map() == ls,
            forall|x: u64| #[trigger] o0.contains_key(x) ==> ls.contains_key(o0[x].layer) || objects@.contains(x),
            layers_list_live_objects(ls, o0),
            ls.contains_key(old(self).spec_root_layer_id()),
            ls[old(self).spec_root_layer_id()].parent is None,
            forall|i: int|
                0 <= i < objects@.len() && o0.contains_key(#[trigger] objects@[i]) ==> !ls.contains_key(
                    o0[objects@[i]].layer,
                ),
        ensures
            final(self).wf(),
            final(self).view_map() == old(self).view_map(),
            final(self).spec_root_layer_id() == old(self).spec_root_layer_id(),
            final(self).spec_root_view_id() == old(self).spec_root_view_id(),
            final(self).spec_version() == old(self).spec_version(),
            final(self).layer_map().dom() == ls.dom(),
            forall|k: u64|
                #[trigger] final(self).layer_map().contains_key(k) ==> final(self).layer_map()[k].layers
                    == ls[k].layers && final(self).layer_map()[k].views == ls[k].views
                    && final(self).layer_map()[k].id == ls[k].id && final(self).layer_map()[k].parent
                    == ls[k].parent && final(self).layer_map()[k].objects.subset_of(ls[k].objects),
            forall|x: u64|
                #[trigger] final(self).object_map().contains_key(x) ==> o0.contains_key(x)
                    && final(self).object_map()[x].layer == o0[x].layer,
            final(self).object_map() == o0.remove_keys(objects@.to_set()),
            final(self).layer_map() == ls,
    {
        let ghost alias_free = forall|i: int|
            0 <= i < objects@.len() && o0.contains_key(#[trigger] objects@[i]) ==> !ls.contains_key(
                o0[objects@[i]].layer,
            );
        let mut j: usize = 0;
        proof {
            assert(objects@.subrange(0, objects@.len() as int) =~= objects@);
            assert(objects@.subrange(0, 0).to_set() =~= Set::<u64>::empty());
            assert(o0.remove_keys(Set::<u64>::empty()) =~= o0);
        }
        while j < objects.len()
            invariant
                j <= objects@.len(),
                self.wf_relaxed(),
                forall|i: int| 0 <= i < objects@.len() ==> key_bits_valid(#[trigger] objects@[i]),
                self.view_map() == old(self).view_map(),
                self.spec_root_layer_id() == old(self).spec_root_layer_id(),
                self.spec_root_view_id() == old(self).spec_root_view_id(),
                self.spec_version() == old(self).spec_version(),
                self.layer_map().dom() == ls.dom(),
                forall|k: u64|
                    #[trigger] self.layer_map().contains_key(k) ==> self.layer_map()[k].layers == ls[k].layers
                        && self.layer_map()[k].views == ls[k].views && self.layer_map()[k].id == ls[k].id
                        && self.layer_map()[k].parent == ls[k].parent && self.layer_map()[k].objects.subset_of(
                        ls[k].objects,
                    ),
                forall|x: u64|
                    #[trigger] self.object_map().contains_key(x) ==> o0.contains_key(x) && self.object_map()[x].layer
                        == o0[x].layer,
                forall|x: u64|
                    #[trigger] self.object_map().contains_key(x) ==> ls.contains_key(self.object_map()[x].layer)
                        || objects@.subrange(j as int, objects@.len() as int).contains(x),
                alias_free ==> self.object_map() == o0.remove_keys(objects@.subrange(0, j as int).to_set())
                    && self.layer_map() == ls,
                alias_free == (forall|i: int|
                    0 <= i < objects@.len() && o0.contains_key(#[trigger] objects@[i]) ==> !ls.contains_key(
                        o0[objects@[i]].layer,
                    )),
            decreases objects@.len() - j,
        {
            let x = objects[j];
            let ghost cur_o = self.object_map();
            let ghost cur_l = self.layer_map();
            self.remove_object_inner(x);
            proof {
                let rest = objects@.subrange(j as int, objects@.len() as int);
                let rest2 = objects@.subrange(j + 1, objects@.len() as int);
                assert(rest =~= seq![x] + rest2);
                assert forall|y: u64| rest.contains(y) && y != x implies rest2.contains(y) by {
                    let k = choose|k: int| 0 <= k < rest.len() && rest[k] == y;
                    assert(k != 0);
                    assert(rest2[k - 1] == y);
                }
                if cur_o.contains_key(x) && cur_l.contains_key(cur_o[x].layer) {
                    let removed = choose|removed: Set<u64>|
                        #[trigger] object_subtree(cur_o, x, removed) && self.object_map() == object_detached(cur_o, x).remove_keys(removed)
                            && (forall|r: u64| removed.contains(r) ==> cur_o.contains_key(r) && cur_o[r].layer == cur_o[x].layer);
                    assert(removed.contains(x));
                    assert forall|y: u64| #[trigger] self.object_map().contains_key(y) implies self.object_map()[y].layer
                        == cur_o[y].layer && y != x && cur_o.contains_key(y) by {
                    }
                }
                assert(objects@.subrange(0, j + 1) =~= objects@.subrange(0, j as int).push(x));
                objects@.subrange(0, j as int).lemma_push_to_set_commute(x);
                if alias_free {
                    assert(o0.contains_key(x) ==> !ls.contains_key(o0[x].layer)) by {
                        assert(objects@[j as int] == x);
                    }
                    if cur_o.contains_key(x) {
                        assert(self.object_map() =~= o0.remove_keys(objects@.subrange(0, j + 1).to_set()));
                    } else {
                        assert(self.object_map() =~= o0.remove_keys(objects@.subrange(0, j + 1).to_set()));
                    }
                }
            }
            j = j + 1;
        }
        proof {
            assert(objects@.subrange(0, objects@.len() as int) =~= objects@);
            assert forall|x: u64| #[trigger] self.object_map().contains_key(x) implies self.layer_map().contains_key(
                self.object_map()[x].layer,
            ) by {
                assert(!objects@.subrange(objects@.len() as int, objects@.len() as int).contains(x));
            }
            assert forall|k: u64, x: u64|
                #![trigger self.layer_map()[k].objects.contains(x)]
                self.layer_map().contains_key(k) && self.layer_map()[k].objects.contains(x) implies self.object_map().contains_key(x)
                    && self.object_map()[x].layer == k by {
                assert(ls[k].objects.contains(x));
                assert(o0.contains_key(x) && o0[x].layer == k);
                if objects@.to_set().contains(x) {
                    let i = choose|i: int| 0 <= i < objects@.len() && objects@[i] == x;
                    assert(o0.contains_key(objects@[i]));
                }
            }
        }
    }
}


impl Scene {
    /// Removes the layer `id`, every layer below it, every view into those layers and every
    /// object in them, and takes `id` out of its parent's child layers; nothing happens when
    /// the layer does not exist or is the root layer, which can not be removed.
    #[verifier::rlimit(80)]
    pub fn remove_layer(&mut self, id: LayerId)
        requires
            old(self).wf(),
            old(self).layer_map().contains_key(id@) && id@ != old(self).spec_root_layer_id() ==> old(self).spec_version()
                < usize::MAX,
        ensures
            final(self).wf(),
            final(self).spec_root_layer_id() == old(self).spec_root_layer_id(),
            final(self).spec_root_view_id() == old(self).spec_root_view_id(),
            !old(self).layer_map().contains_key(id@) || id@ == old(self).spec_root_layer_id() ==> *final(self)
                == *old(self),
            old(self).layer_map().contains_key(id@) && id@ != old(self).spec_root_layer_id() ==> {
                let l0 = old(self).layer_map();
                let v0 = old(self).view_map();
                let o0 = old(self).object_map();
                let detached = layer_detached(l0, id@);
                &&& final(self).spec_version() == old(self).spec_version() + 1
                &&& exists|removed: Set<u64>|
                    #[trigger] layer_subtree(l0, id@, removed) && {
                        &&& final(self).layer_map().dom() == l0.dom().difference(removed)
                        &&& forall|k: u64|
                            #[trigger] final(self).layer_map().contains_key(k) ==> final(self).layer_map()[k].layers
                                == detached[k].layers && final(self).layer_map()[k].views == detached[k].views
                                && final(self).layer_map()[k].id == detached[k].id && final(self).layer_map()[k].parent
                                == detached[k].parent && final(self).layer_map()[k].objects.subset_of(detached[k].objects)
                        &&& forall|v: u64|
                            #[trigger] final(self).view_map().contains_key(v) <==> v0.contains_key(v) && !removed.contains(v0[v])
                        &&& forall|v: u64| #[trigger] final(self).view_map().contains_key(v) ==> final(self).view_map()[v] == v0[v]
                        &&& forall|x: u64|
                            #[trigger] final(self).object_map().contains_key(x) ==> o0.contains_key(x) && !removed.contains(o0[x].layer)
                                && final(self).object_map()[x].layer == o0[x].layer
                        &&& final(self).layer_map() == detached.remove_keys(removed)
                        &&& forall|x: u64|
                            #[trigger] final(self).object_map().contains_key(x) <==> o0.contains_key(x) && !removed.contains(o0[x].layer)
                        &&& forall|x: u64|
                            #[trigger] final(self).object_map().contains_key(x) ==> final(self).object_map()[x] == o0[x]
                    }
            },
    {
        let bits = id.bits();
        if bits == self.root_layer_id || arena_get(&self.layers, bits).is_none() {
            return;
        }
        let ghost l0 = self.layer_map();
        let ghost v0 = self.view_map();
        let ghost o0 = self.object_map();
        let layer = match arena_remove(&mut self.layers, bits) {
            Some(SceneNode::Layer(layer)) => layer,
            _ => {
                return;
            },
        };
        proof {
            assert(l0.contains_key(bits));
            assert(layer@ == l0[bits]);
        }
        self.layer_tree_version = self.layer_tree_version + 1;
        let ghost lfull = layer_detached(l0, bits);
        match layer.parent_id {
            Some(p) => {
                match arena_get_mut(&mut self.layers, p) {
                    Some(SceneNode::Layer(parent)) => {
                        parent.layers.remove(bits);
                        proof {
                            assert(p != bits);
                            assert(l0.contains_key(p));
                        }
                    },
                    _ => {},
                }
            },
            None => {},
        }
        let ghost mut removed: Set<u64> = set![bits];
        proof {
            assert(self.layer_map() =~= lfull.remove_keys(removed));
        }
        let mut stack: Vec<u64> = layer.layers.keys();
        let mut views: Vec<u64> = layer.views.keys();
        let mut objects: Vec<u64> = layer.objects.keys();
        proof {
            assert forall|i: int| 0 <= i < stack@.len() implies l0.contains_key(#[trigger] stack@[i])
                && key_bits_valid(stack@[i]) && l0[stack@[i]].parent is Some && removed.contains(
                l0[stack@[i]].parent.unwrap(),
            ) by {
                assert(l0[bits].layers.contains(stack@[i]));
            }
            assert forall|i: int| 0 <= i < views@.len() implies key_bits_valid(#[trigger] views@[i]) && v0.contains_key(
                views@[i],
            ) && removed.contains(v0[views@[i]]) by {
                assert(l0[bits].views.contains(views@[i]));
            }
            assert forall|i: int| 0 <= i < objects@.len() implies key_bits_valid(#[trigger] objects@[i])
                && exists|k: u64| removed.contains(k) && #[trigger] l0[k].objects.contains(objects@[i]) by {
                assert(l0[bits].objects.contains(objects@[i]));
            }
            assert forall|y: u64, v: u64|
                #![trigger removed.contains(y), l0[y].views.contains(v)]
                removed.contains(y) && l0[y].views.contains(v) implies views@.contains(v) by {
                assert(views@.to_set().contains(v));
            }
            assert forall|y: u64, x: u64|
                #![trigger removed.contains(y), l0[y].objects.contains(x)]
                removed.contains(y) && l0[y].objects.contains(x) implies objects@.contains(x) by {
                assert(objects@.to_set().contains(x));
            }
        }
        proof {
            assert forall|t: Set<u64>| #[trigger] layer_closed(l0, t) && t.contains(bits) implies removed.subset_of(t)
                && (forall|i: int| 0 <= i < stack@.len() ==> t.contains(#[trigger] stack@[i])) by {
                assert forall|i: int| 0 <= i < stack@.len() implies t.contains(#[trigger] stack@[i]) by {
                    assert(l0[bits].layers.contains(stack@[i]));
                }
            }
        }
        while stack.len() > 0
            invariant
                self.wf_relaxed_arenas(),
                self.view_map() == v0,
                self.object_map() == o0,
                self.spec_root_layer_id() == old(self).spec_root_layer_id(),
                self.spec_root_view_id() == old(self).spec_root_view_id(),
                self.spec_version() == old(self).spec_version() + 1,
                l0 == old(self).layer_map(),
                v0 == old(self).view_map(),
                o0 == old(self).object_map(),
                old(self).wf(),
                l0.contains_key(bits),
                lfull == layer_detached(l0, bits),
                self.layer_map() == lfull.remove_keys(removed),
                removed.contains(bits),
                forall|r: u64| #[trigger] removed.contains(r) ==> l0.contains_key(r),
                forall|r: u64|
                    #[trigger] removed.contains(r) ==> r == bits || (l0[r].parent is Some && removed.contains(
                        l0[r].parent.unwrap(),
                    )),
                forall|i: int|
                    0 <= i < stack@.len() ==> l0.contains_key(#[trigger] stack@[i]) && key_bits_valid(stack@[i])
                        && l0[stack@[i]].parent is Some && removed.contains(l0[stack@[i]].parent.unwrap()),
                forall|y: u64, c: u64|
                    #![trigger removed.contains(y), l0[y].layers.contains(c)]
                    removed.contains(y) && l0[y].layers.contains(c) ==> removed.contains(c) || stack@.contains(c),
                forall|t: Set<u64>|
                    #[trigger] layer_closed(l0, t) && t.contains(bits) ==> removed.subset_of(t) && (forall|i: int|
                        0 <= i < stack@.len() ==> t.contains(#[trigger] stack@[i])),
                forall|i: int|
                    0 <= i < views@.len() ==> key_bits_valid(#[trigger] views@[i]) && v0.contains_key(views@[i])
                        && removed.contains(v0[views@[i]]),
                forall|y: u64, v: u64|
                    #![trigger removed.contains(y), l0[y].views.contains(v)]
                    removed.contains(y) && l0[y].views.contains(v) ==> views@.contains(v),
                forall|i: int|
                    0 <= i < objects@.len() ==> key_bits_valid(#[trigger] objects@[i]) && exists|k: u64|
                        removed.contains(k) && #[trigger] l0[k].objects.contains(objects@[i]),
                forall|y: u64, x: u64|
                    #![trigger removed.contains(y), l0[y].objects.contains(x)]
                    removed.contains(y) && l0[y].objects.contains(x) ==> objects@.contains(x),
            decreases arena_contents(self.layers).dom().len(), stack@.len(),
        {
            let ghost pre = stack@;
            let ghost removed_pre = removed;
            let ghost views_pre = views@;
            let ghost objects_pre = objects@;
            let y = stack.pop().unwrap();
            let ghost before_stack = stack@;
            proof {
                assert(pre =~= before_stack.push(y));
            }
            let ghost cur = self.layer_map();
            let ghost prev_arena = arena_contents(self.layers);
            proof {
                assert(cur.dom() =~= prev_arena.dom());
            }
            match arena_remove(&mut self.layers, y) {
                Some(SceneNode::Layer(node)) => {
                    proof {
                        assert(cur.contains_key(y));
                        assert(node@ == cur[y]);
                        assert(cur[y] == lfull[y]);
                        assert(node.layer_set().subset_of(l0[y].layers));
                        assert(node.view_set() == l0[y].views);
                        assert(node.object_set() == l0[y].objects);
                    }
                    let mut kids = node.layers.keys();
                    let mut node_views = node.views.keys();
                    let mut node_objects = node.objects.keys();
                    let ghost kids_seq = kids@;
                    let ghost view_seq = node_views@;
                    let ghost object_seq = node_objects@;
                    stack.append(&mut kids);
                    views.append(&mut node_views);
                    objects.append(&mut node_objects);
                    proof {
                        assert(self.layer_map() =~= cur.remove(y));
                        assert(lfull.remove_keys(removed).remove(y) =~= lfull.remove_keys(removed.insert(y)));
                        removed = removed.insert(y);
                        assert forall|t: Set<u64>| #[trigger] layer_closed(l0, t) && t.contains(bits) implies removed.subset_of(t)
                            && (forall|i: int| 0 <= i < stack@.len() ==> t.contains(#[trigger] stack@[i])) by {
                            assert(pre[pre.len() - 1] == y);
                            assert(t.contains(y));
                            assert forall|i: int| 0 <= i < stack@.len() implies t.contains(#[trigger] stack@[i]) by {
                                if i < before_stack.len() {
                                    assert(stack@[i] == pre[i]);
                                } else {
                                    let c = stack@[i];
                                    assert(kids_seq[i - before_stack.len()] == c);
                                    assert(kids_seq.contains(c));
                                    assert(l0[y].layers.contains(c));
                                }
                            }
                        }
                        assert forall|i: int| 0 <= i < stack@.len() implies l0.contains_key(#[trigger] stack@[i])
                            && key_bits_valid(stack@[i]) && l0[stack@[i]].parent is Some && removed.contains(
                            l0[stack@[i]].parent.unwrap(),
                        ) by {
                            if i < before_stack.len() {
                                assert(stack@[i] == before_stack[i]);
                            } else {
                                let c = stack@[i];
                                assert(kids_seq[i - before_stack.len()] == c);
                                assert(kids_seq.contains(c));
                                assert(l0[y].layers.contains(c));
                            }
                        }
                        assert forall|y2: u64, c: u64|
                            #![trigger removed.contains(y2), l0[y2].layers.contains(c)]
                            removed.contains(y2) && l0[y2].layers.contains(c) implies removed.contains(c)
                                || stack@.contains(c) by {
                            if y2 == y {
                                if c != bits {
                                    assert(lfull[y].layers.contains(c));
                                    assert(kids_seq.contains(c));
                                    let k = choose|k: int| 0 <= k < kids_seq.len() && kids_seq[k] == c;
                                    assert(stack@[before_stack.len() + k] == c);
                                }
                            } else {
                                assert(removed_pre.contains(y2));
                                if !removed_pre.contains(c) && c != y {
                                    assert(pre.contains(c));
                                    let k = choose|k: int| 0 <= k < pre.len() && pre[k] == c;
                                    assert(k < before_stack.len());
                                    assert(stack@[k] == c);
                                }
                            }
                        }
                        assert forall|i: int| 0 <= i < views@.len() implies key_bits_valid(#[trigger] views@[i])
                            && v0.contains_key(views@[i]) && removed.contains(v0[views@[i]]) by {
                            if i < views_pre.len() {
                                assert(views@[i] == views_pre[i]);
                            } else {
                                assert(view_seq[i - views_pre.len()] == views@[i]);
                                assert(view_seq.contains(views@[i]));
                                assert(l0[y].views.contains(views@[i]));
                            }
                        }
                        assert forall|y2: u64, v: u64|
                            #![trigger removed.contains(y2), l0[y2].views.contains(v)]
                            removed.contains(y2) && l0[y2].views.contains(v) implies views@.contains(v) by {
                            if y2 == y {
                                let k = choose|k: int| 0 <= k < view_seq.len() && view_seq[k] == v;
                                assert(views@[views_pre.len() + k] == v);
                            } else {
                                let k = choose|k: int| 0 <= k < views_pre.len() && views_pre[k] == v;
                                assert(views@[k] == v);
                            }
                        }
                        assert forall|i: int| 0 <= i < objects@.len() implies key_bits_valid(#[trigger] objects@[i])
                            && exists|k: u64| removed.contains(k) && #[trigger] l0[k].objects.contains(objects@[i]) by {
                            if i < objects_pre.len() {
                                assert(objects@[i] == objects_pre[i]);
                            } else {
                                assert(object_seq[i - objects_pre.len()] == objects@[i]);
                                assert(object_seq.contains(objects@[i]));
                                assert(l0[y].objects.contains(objects@[i]));
                            }
                        }
                        assert forall|y2: u64, x: u64|
                            #![trigger removed.contains(y2), l0[y2].objects.contains(x)]
                            removed.contains(y2) && l0[y2].objects.contains(x) implies objects@.contains(x) by {
                            if y2 == y {
                                let k = choose|k: int| 0 <= k < object_seq.len() && object_seq[k] == x;
                                assert(objects@[objects_pre.len() + k] == x);
                            } else {
                                let k = choose|k: int| 0 <= k < objects_pre.len() && objects_pre[k] == x;
                                assert(objects@[k] == x);
                            }
                        }
                    }
                },
                _ => {
                    proof {
                        assert(!prev_arena.contains_key(y));
                        assert(self.layer_map() =~= cur);
                        assert(lfull.dom() =~= l0.dom());
                        assert(removed.contains(y));
                        assert forall|t: Set<u64>| #[trigger] layer_closed(l0, t) && t.contains(bits) implies removed.subset_of(t)
                            && (forall|i: int| 0 <= i < stack@.len() ==> t.contains(#[trigger] stack@[i])) by {
                            assert forall|i: int| 0 <= i < stack@.len() implies t.contains(#[trigger] stack@[i]) by {
                                assert(stack@[i] == pre[i]);
                            }
                        }
                        assert forall|y2: u64, c: u64|
                            #![trigger removed.contains(y2), l0[y2].layers.contains(c)]
                            removed.contains(y2) && l0[y2].layers.contains(c) implies removed.contains(c)
                                || stack@.contains(c) by {
                            if !removed.contains(c) && c != y {
                                assert(pre.contains(c));
                                let k = choose|k: int| 0 <= k < pre.len() && pre[k] == c;
                                assert(k < before_stack.len());
                                assert(stack@[k] == c);
                            }
                        }
                    }
                },
            }
        }
        proof {
            assert(layer_subtree(l0, bits, removed));
            law_removing_another_layer_keeps_the_root(*old(self), bits, removed);
            assert(self.layer_map().contains_key(self.root_layer_id));
        }
        self.remove_views_in(&views);
        self.remove_objects_in(&objects, Ghost(o0), Ghost(self.layer_map()));
    }
}


impl Default for Scene {
    fn default() -> (r: Self)
        ensures
            r.wf(),
            r.layer_map().dom() == set![r.spec_root_layer_id()],
            r.layer_map()[r.spec_root_layer_id()] == (LayerModel {
                objects: Set::empty(),
                views: set![r.spec_root_view_id()],
                layers: Set::empty(),
                id: r.spec_root_layer_id(),
                parent: None,
            }),
            r.view_map() == map![r.spec_root_view_id() => r.spec_root_layer_id()],
            r.object_map().dom() == Set::<u64>::empty(),
            r.spec_version() == 0,
    {
        Scene::new()
    }
}

/// Every ID a scene holds resolves: each view looks into an existing layer; each object lies
/// in an existing layer that lists it, and its parent exists in the same layer; each child an
/// object lists exists, lies in the same layer and names it as its parent; a layer lists only
/// objects that exist and lie in it; each child layer a layer lists exists; the root layer
/// exists and has no parent. The scene holds finitely many layers, views and objects, and
/// each layer and object lists finitely many keys.
pub proof fn law_scene_references_resolve(s: Scene)
    requires
        s.wf(),
    ensures
        s.layer_map().dom().finite(),
        s.view_map().dom().finite(),
        s.object_map().dom().finite(),
        forall|k: u64|
            #[trigger] s.layer_map().contains_key(k) ==> s.layer_map()[k].objects.finite() && s.layer_map()[k].views.finite()
                && s.layer_map()[k].layers.finite(),
        forall|x: u64| #[trigger] s.object_map().contains_key(x) ==> s.object_map()[x].children.finite(),
        s.layer_map().contains_key(s.spec_root_layer_id()),
        s.layer_map()[s.spec_root_layer_id()].parent is None,
        forall|v: u64| #[trigger] s.view_map().contains_key(v) ==> s.layer_map().contains_key(s.view_map()[v]),
        forall|x: u64|
            #[trigger] s.object_map().contains_key(x) ==> s.layer_map().contains_key(s.object_map()[x].layer)
                && s.layer_map()[s.object_map()[x].layer].objects.contains(x),
        forall|x: u64|
            #[trigger] s.object_map().contains_key(x) && s.object_map()[x].parent is Some ==> s.object_map().contains_key(
                s.object_map()[x].parent.unwrap(),
            ) && s.object_map()[s.object_map()[x].parent.unwrap()].layer == s.object_map()[x].layer,
        forall|x: u64, c: u64|
            #![trigger s.object_map()[x].children.contains(c)]
            s.object_map().contains_key(x) && s.object_map()[x].children.contains(c) ==> s.object_map().contains_key(c)
                && s.object_map()[c].layer == s.object_map()[x].layer && s.object_map()[c].parent == Some(x),
        forall|k: u64, x: u64|
            #![trigger s.layer_map()[k].objects.contains(x)]
            s.layer_map().contains_key(k) && s.layer_map()[k].objects.contains(x) ==> s.object_map().contains_key(x)
                && s.object_map()[x].layer == k,
        forall|k: u64, c: u64|
            #![trigger s.layer_map()[k].layers.contains(c)]
            s.layer_map().contains_key(k) && s.layer_map()[k].layers.contains(c) ==> s.layer_map().contains_key(c),
{
    assert(s.layer_map().dom() =~= arena_contents(s.layers).dom());
    assert(s.view_map().dom() =~= arena_contents(s.layer_views).dom());
    assert(s.object_map().dom() =~= arena_contents(s.objects).dom());
}

/// Removing a layer other than the root leaves the root layer in place: the layers removed
/// with a layer are those below it, and the root, which has no parent, lies below no layer.
pub proof fn law_removing_another_layer_keeps_the_root(s: Scene, id: u64, removed: Set<u64>)
    requires
        s.wf(),
        id != s.spec_root_layer_id(),
        layer_subtree(s.layer_map(), id, removed),
    ensures
        !removed.contains(s.spec_root_layer_id()),
{
    let root = s.spec_root_layer_id();
    let m = s.layer_map();
    let t = removed.remove(root);
    assert forall|y: u64, c: u64|
        #![trigger t.contains(y), m[y].layers.contains(c)]
        t.contains(y) && m.contains_key(y) && m[y].layers.contains(c) implies t.contains(c) by {
        assert(removed.contains(c));
        assert(m[c].parent == Some(y));
    }
    assert(layer_closed(m, t));
}

} // verus!
