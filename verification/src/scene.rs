//! The scene store: an entity/component container built on hecs::World.
//!
//! Entities are opaque identifiers carried here as their 64-bit handle bits;
//! all state lives in components attached to them. The store is written once
//! during scene setup and read by the rasterizer; contracts speak of its
//! contents through two uninterpreted views, one per component bundle the
//! core uses. hecs leaves the iteration order of a query open, so the views
//! are multisets, which carry no order.

use vstd::prelude::*;
use vstd::multiset::Multiset;

use crate::synth::Vco;
use crate::ui::Frame;
use crate::util::{Parent, Pos, Size};

verus! {

#[verifier::external_type_specification]
#[verifier::external_body]
pub struct ExWorld(hecs::World);

/// What the scene holds of drawable panels: one element per entity carrying
/// all of Frame, Pos and Size, as (entity handle bits, position, size).
pub uninterp spec fn world_frames(w: hecs::World) -> Multiset<(u64, Pos, Size)>;

/// What the scene holds of oscillator controls: one element per entity
/// carrying all of Vco, Size and Parent, as (entity handle bits, oscillator,
/// size, parent link).
pub uninterp spec fn world_vcos(w: hecs::World) -> Multiset<(u64, Vco, Size, Parent)>;

/// Relies on hecs::World::new: a freshly created world holds no entities, so
/// every component query on it is empty.
#[verifier::external_body]
pub fn new_world() -> (r: hecs::World)
    ensures
        world_frames(r) == Multiset::<(u64, Pos, Size)>::empty(),
        world_vcos(r) == Multiset::<(u64, Vco, Size, Parent)>::empty(),
{
    hecs::World::new()
}

/// Relies on hecs::World::spawn: it creates exactly one fresh entity holding
/// exactly the bundle's components — here Frame, Pos and Size — and leaves
/// every other entity as it was; Entity::to_bits is the entity's handle
/// bits, and no two simultaneously live entities share them, so the new
/// identifier differs from that of every entity already in the store.
#[verifier::external_body]
pub fn spawn_frame(w: &mut hecs::World, title: String, pos: Pos, size: Size) -> (r: u64)
    ensures
        world_frames(*final(w)) == world_frames(*old(w)).insert((r, pos, size)),
        world_vcos(*final(w)) == world_vcos(*old(w)),
        forall|g: (u64, Pos, Size)| world_frames(*old(w)).contains(g) ==> g.0 != r,
        forall|g: (u64, Vco, Size, Parent)| world_vcos(*old(w)).contains(g) ==> g.0 != r,
{
    w.spawn((Frame { title }, pos, size)).to_bits().get()
}

/// Relies on hecs::World::spawn: it creates exactly one fresh entity holding
/// exactly the bundle's components — here Vco, Size and Parent — and leaves
/// every other entity as it was; the new identifier differs from that of
/// every entity already in the store. The parent link is a plain reference:
/// hecs does not require the referenced entity to exist.
#[verifier::external_body]
pub fn spawn_vco(w: &mut hecs::World, vco: Vco, size: Size, parent: Parent) -> (r: u64)
    ensures
        world_vcos(*final(w)) == world_vcos(*old(w)).insert((r, vco, size, parent)),
        world_frames(*final(w)) == world_frames(*old(w)),
        forall|g: (u64, Pos, Size)| world_frames(*old(w)).contains(g) ==> g.0 != r,
        forall|g: (u64, Vco, Size, Parent)| world_vcos(*old(w)).contains(g) ==> g.0 != r,
{
    w.spawn((vco, size, parent)).to_bits().get()
}

/// Relies on hecs::World::query: it yields every entity holding all of the
/// requested component types — here Frame, Pos and Size — each exactly once,
/// with read access to those components, in an order hecs leaves open.
#[verifier::external_body]
pub fn query_frames(w: &hecs::World) -> (r: Vec<(u64, Pos, Size)>)
    ensures
        r@.to_multiset() == world_frames(*w),
{
    let mut q = w.query::<(hecs::Entity, &Frame, &Pos, &Size)>();
    q.iter().map(|(e, _frame, p, s)| (e.to_bits().get(), *p, *s)).collect()
}

/// Relies on hecs::World::query: it yields every entity holding all of the
/// requested component types — here Vco, Size and Parent — each exactly
/// once, with read access to those components, in an order hecs leaves open.
#[verifier::external_body]
pub fn query_vcos(w: &hecs::World) -> (r: Vec<(u64, Vco, Size, Parent)>)
    ensures
        r@.to_multiset() == world_vcos(*w),
{
    let mut q = w.query::<(hecs::Entity, &Vco, &Size, &Parent)>();
    q.iter().map(|(e, v, s, p)| (e.to_bits().get(), *v, *s, *p)).collect()
}

/// Law: spawning one frame entity into a scene that held none, and then
/// querying for the spawned component types, yields exactly one match, and
/// that match is the spawned entity with its components — spawn_frame's
/// contract inserts exactly the new element into the frame view and leaves
/// the oscillator view untouched, so a query for a bundle never attached
/// stays empty.
pub proof fn lemma_spawn_then_query(before: Multiset<(u64, Pos, Size)>, f: (u64, Pos, Size))
    requires
        before == Multiset::<(u64, Pos, Size)>::empty(),
    ensures
        before.insert(f).len() == 1,
        before.insert(f).count(f) == 1,
        forall|g: (u64, Pos, Size)| g != f ==> before.insert(f).count(g) == 0,
{
    broadcast use vstd::multiset::group_multiset_axioms;

    vstd::multiset::lemma_insert_len(before, f);
    vstd::multiset::lemma_multiset_empty_len(before);
}

/// Per-frame update hook, invoked by the host once per tick before it
/// requests the next redraw: a no-op extension point reserved for future
/// animation, mutating nothing and never panicking.
pub fn tick(_world: &hecs::World) {
}

} // verus!
