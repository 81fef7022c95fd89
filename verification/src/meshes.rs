//! The meshes being rendered, by mesh component id.
//!
//! Each frame the rendering system looks at the entities that carry mesh
//! components. A component whose mesh is not rendered yet gets one made when
//! its entity lies within the rendering cutoff of the camera; of the meshes
//! made for one entity in a frame only the last one made is kept. Afterwards
//! every mesh whose component no longer exists is dropped.
//!
//! The meshes themselves live on the graphics device; this module keeps the
//! bookkeeping and is generic over the mesh type.
use std::collections::HashMap;
use vstd::prelude::*;

verus! {

broadcast use {vstd::std_specs::hash::group_hash_axioms, vstd::seq_lib::group_seq_properties};

/// A mesh component of an entity, as the rendering system sees it in a frame.
#[derive(PartialEq, Eq, Structural, Clone, Copy, Debug)]
pub struct MeshSlot {
    /// The mesh component's id.
    pub id: u64,
    /// Whether the entity lies within the rendering cutoff of the camera.
    pub within_cutoff: bool,
}

/// A mesh is made for a component that has none yet and whose entity is
/// within the cutoff.
pub open spec fn needs_mesh<M>(meshes: Map<u64, M>, slot: MeshSlot) -> bool {
    slot.within_cutoff && !meshes.contains_key(slot.id)
}

/// The ids of the components of one entity that get a mesh made, in order.
pub open spec fn spec_creation_requests<M>(meshes: Map<u64, M>, slots: Seq<MeshSlot>) -> Seq<u64>
    decreases slots.len(),
{
    if slots.len() == 0 {
        Seq::empty()
    } else {
        let before = spec_creation_requests(meshes, slots.drop_last());
        if needs_mesh(meshes, slots.last()) {
            before.push(slots.last().id)
        } else {
            before
        }
    }
}

/// Of the meshes made for one entity (each attempt with its component id,
/// and the mesh where making it succeeded), the last one made.
pub open spec fn spec_newest_created<M>(created: Seq<(u64, Option<M>)>) -> Option<(u64, M)>
    decreases created.len(),
{
    if created.len() == 0 {
        None
    } else {
        match created.last().1 {
            Some(m) => Some((created.last().0, m)),
            None => spec_newest_created(created.drop_last()),
        }
    }
}

/// The meshes after adding each entity's new mesh, taken from the last
/// entity to the first, so that for an id made for several entities the
/// first entity's mesh stays.
pub open spec fn spec_add_new_meshes<M>(meshes: Map<u64, M>, new_meshes: Seq<Option<(u64, M)>>) -> Map<
    u64,
    M,
>
    decreases new_meshes.len(),
{
    if new_meshes.len() == 0 {
        meshes
    } else {
        let rest = new_meshes.drop_last();
        match new_meshes.last() {
            Some((id, m)) => spec_add_new_meshes(meshes.insert(id, m), rest),
            None => spec_add_new_meshes(meshes, rest),
        }
    }
}

/// The ids of all mesh components of all entities, entity by entity.
pub open spec fn spec_component_ids(entities: Seq<Vec<MeshSlot>>) -> Seq<u64>
    decreases entities.len(),
{
    if entities.len() == 0 {
        Seq::empty()
    } else {
        spec_component_ids(entities.drop_last()) + entities.last()@.map_values(|s: MeshSlot| s.id)
    }
}

/// The meshes being rendered, by mesh component id.
pub struct RenderedMeshes<M> {
    meshes: HashMap<u64, M>,
}

impl<M> View for RenderedMeshes<M> {
    type V = Map<u64, M>;

    closed spec fn view(&self) -> Map<u64, M> {
        self.meshes@
    }
}

impl<M> RenderedMeshes<M> {
    /// No meshes.
    pub fn new() -> (r: Self)
        ensures
            r@ == Map::<u64, M>::empty(),
    {
        RenderedMeshes { meshes: HashMap::new() }
    }

    /// Whether a mesh is rendered for the component `id`.
    pub fn contains(&self, id: u64) -> (b: bool)
        ensures
            b == self@.contains_key(id),
    {
        self.meshes.contains_key(&id)
    }

    /// The mesh rendered for the component `id`.
    pub fn get(&self, id: u64) -> (r: Option<&M>)
        ensures
            match r {
                Some(m) => self@.contains_key(id) && *m == self@[id],
                None => !self@.contains_key(id),
            },
    {
        self.meshes.get(&id)
    }

    /// Takes out the mesh of the component `id`.
    pub fn take(&mut self, id: u64) -> (r: Option<M>)
        ensures
            final(self)@ == old(self)@.remove(id),
            match r {
                Some(m) => old(self)@.contains_key(id) && m == old(self)@[id],
                None => !old(self)@.contains_key(id),
            },
    {
        self.meshes.remove(&id)
    }

    /// Renders `mesh` for the component `id`, in place of any mesh it had.
    pub fn put(&mut self, id: u64, mesh: M)
        ensures
            final(self)@ == old(self)@.insert(id, mesh),
    {
        self.meshes.insert(id, mesh);
    }

    /// The ids of the components of one entity that get a mesh made this
    /// frame: those without a mesh whose entity is within the cutoff.
    pub fn creation_requests(&self, slots: &Vec<MeshSlot>) -> (ids: Vec<u64>)
        ensures
            ids@ == spec_creation_requests(self@, slots@),
    {
        let mut ids: Vec<u64> = Vec::new();
        let mut i: usize = 0;
        while i < slots.len()
            invariant
                i <= slots.len(),
                ids@ == spec_creation_requests(self@, slots@.take(i as int)),
            decreases slots.len() - i,
        {
            let slot = slots[i];
            assert(slots@.take(i + 1).drop_last() == slots@.take(i as int));
            if slot.within_cutoff && !self.meshes.contains_key(&slot.id) {
                ids.push(slot.id);
            }
            i = i + 1;
        }
        assert(slots@.take(slots.len() as int) == slots@);
        ids
    }

    /// Adds each entity's new mesh, if it has one, from the last entity to
    /// the first.
    pub fn add_new_meshes(&mut self, new_meshes: Vec<Option<(u64, M)>>)
        ensures
            final(self)@ == spec_add_new_meshes(old(self)@, new_meshes@),
    {
        let mut rest = new_meshes;
        while rest.len() > 0
            invariant
                spec_add_new_meshes(self@, rest@) == spec_add_new_meshes(old(self)@, new_meshes@),
            decreases rest.len(),
        {
            let ghost before = rest@;
            let item = rest.pop();
            match item {
                Some(Some((id, mesh))) => {
                    self.meshes.insert(id, mesh);
                },
                _ => {},
            }
            assert(rest@ == before.drop_last());
        }
    }

    /// Whether every mesh component of every entity has a mesh.
    pub fn all_components_rendered(&self, entities: &Vec<Vec<MeshSlot>>) -> (b: bool)
        ensures
            b == (forall|e: int, j: int|
                0 <= e < entities@.len() && 0 <= j < entities@[e]@.len() ==> self@.contains_key(
                    #[trigger] entities@[e]@[j].id,
                )),
    {
        let mut e: usize = 0;
        while e < entities.len()
            invariant
                e <= entities@.len(),
                forall|e2: int, j: int|
                    0 <= e2 < e && 0 <= j < entities@[e2]@.len() ==> self@.contains_key(
                        #[trigger] entities@[e2]@[j].id,
                    ),
            decreases entities.len() - e,
        {
            let slots = &entities[e];
            let mut j: usize = 0;
            while j < slots.len()
                invariant
                    e < entities@.len(),
                    *slots == entities@[e as int],
                    j <= slots@.len(),
                    forall|e2: int, j2: int|
                        0 <= e2 < e && 0 <= j2 < entities@[e2]@.len() ==> self@.contains_key(
                            #[trigger] entities@[e2]@[j2].id,
                        ),
                    forall|j2: int| 0 <= j2 < j ==> self@.contains_key(#[trigger] slots@[j2].id),
                decreases slots.len() - j,
            {
                if !self.meshes.contains_key(&slots[j].id) {
                    return false;
                }
                j = j + 1;
            }
            e = e + 1;
        }
        true
    }

    /// Drops every mesh whose component id is not among `detected`.
    pub fn retain_detected(&mut self, detected: &Vec<u64>)
        ensures
            final(self)@ == old(self)@.restrict(detected@.to_set()),
    {
        let ghost at_start = self@;
        let mut kept: HashMap<u64, M> = HashMap::new();
        let mut i: usize = 0;
        while i < detected.len()
            invariant
                i <= detected@.len(),
                self@ == at_start.remove_keys(detected@.take(i as int).to_set()),
                kept@ == at_start.restrict(detected@.take(i as int).to_set()),
            decreases detected.len() - i,
        {
            let id = detected[i];
            let ghost seen = detected@.take(i as int).to_set();
            assert(detected@.take(i + 1).to_set() == seen.insert(id)) by {
                assert(detected@.take(i + 1) == detected@.take(i as int).push(id));
            }
            let taken = self.meshes.remove(&id);
            match taken {
                Some(mesh) => {
                    kept.insert(id, mesh);
                },
                None => {},
            }
            assert(self@ == at_start.remove_keys(seen.insert(id)));
            assert(kept@ == at_start.restrict(seen.insert(id)));
            i = i + 1;
        }
        assert(detected@.take(detected.len() as int) == detected@);
        self.meshes = kept;
    }
}

/// Of the meshes made for one entity, the last one made.
pub fn newest_created<M>(created: Vec<(u64, Option<M>)>) -> (r: Option<(u64, M)>)
    ensures
        r == spec_newest_created(created@),
{
    let mut rest = created;
    while rest.len() > 0
        invariant
            spec_newest_created(rest@) == spec_newest_created(created@),
        decreases rest.len(),
    {
        let ghost before = rest@;
        let item = rest.pop();
        match item {
            Some((id, Some(mesh))) => {
                return Some((id, mesh));
            },
            _ => {},
        }
        assert(rest@ == before.drop_last());
    }
    None
}

/// The ids of all mesh components of all entities, entity by entity.
pub fn component_ids(entities: &Vec<Vec<MeshSlot>>) -> (ids: Vec<u64>)
    ensures
        ids@ == spec_component_ids(entities@),
{
    let mut ids: Vec<u64> = Vec::new();
    let mut e: usize = 0;
    while e < entities.len()
        invariant
            e <= entities@.len(),
            ids@ == spec_component_ids(entities@.take(e as int)),
        decreases entities.len() - e,
    {
        let slots = &entities[e];
        let ghost start = ids@;
        let mut j: usize = 0;
        while j < slots.len()
            invariant
                e < entities@.len(),
                *slots == entities@[e as int],
                j <= slots@.len(),
                ids@ == start + slots@.take(j as int).map_values(|s: MeshSlot| s.id),
            decreases slots.len() - j,
        {
            ids.push(slots[j].id);
            assert(slots@.take(j + 1).map_values(|s: MeshSlot| s.id) == slots@.take(
                j as int,
            ).map_values(|s: MeshSlot| s.id).push(slots@[j as int].id));
            j = j + 1;
        }
        assert(slots@.take(slots@.len() as int) == slots@);
        assert(entities@.take(e + 1).drop_last() == entities@.take(e as int));
        e = e + 1;
    }
    assert(entities@.take(entities@.len() as int) == entities@);
    ids
}

} // verus!

verus! {

/// `j` is the first entity whose new mesh is for the component `id`.
pub open spec fn is_first_new_mesh_for<M>(new_meshes: Seq<Option<(u64, M)>>, id: u64, j: int) -> bool {
    &&& 0 <= j < new_meshes.len()
    &&& new_mesh_is_for(new_meshes[j], id)
    &&& forall|i: int| 0 <= i < j ==> !new_mesh_is_for(#[trigger] new_meshes[i], id)
}

/// An entity's new mesh is for the component `id`.
pub open spec fn new_mesh_is_for<M>(new_mesh: Option<(u64, M)>, id: u64) -> bool {
    match new_mesh {
        Some(p) => p.0 == id,
        None => false,
    }
}

/// Some entity has a new mesh for the component `id`.
pub open spec fn has_new_mesh_for<M>(new_meshes: Seq<Option<(u64, M)>>, id: u64) -> bool {
    exists|j: int| 0 <= j < new_meshes.len() && new_mesh_is_for(#[trigger] new_meshes[j], id)
}

/// Adding the entities' new meshes: a component has a mesh afterwards iff it
/// had one or some entity has a new mesh for it; where several entities have
/// one, the first entity's mesh is kept; any other component keeps its mesh.
pub proof fn lemma_first_entity_wins<M>(meshes: Map<u64, M>, new_meshes: Seq<Option<(u64, M)>>, id: u64)
    ensures
        spec_add_new_meshes(meshes, new_meshes).contains_key(id) <==> meshes.contains_key(id)
            || has_new_mesh_for(new_meshes, id),
        forall|j: int|
            #[trigger] is_first_new_mesh_for(new_meshes, id, j) ==> spec_add_new_meshes(
                meshes,
                new_meshes,
            )[id] == new_meshes[j].unwrap().1,
        !has_new_mesh_for(new_meshes, id) && meshes.contains_key(id) ==> spec_add_new_meshes(
            meshes,
            new_meshes,
        )[id] == meshes[id],
    decreases new_meshes.len(),
{
    if new_meshes.len() > 0 {
        let rest = new_meshes.drop_last();
        let last = new_meshes.len() - 1;
        let next = match new_meshes.last() {
            Some((k, m)) => meshes.insert(k, m),
            None => meshes,
        };
        lemma_first_entity_wins(next, rest, id);
        if has_new_mesh_for(new_meshes, id) && !has_new_mesh_for(rest, id) {
            let j = choose|j: int|
                0 <= j < new_meshes.len() && new_mesh_is_for(#[trigger] new_meshes[j], id);
            if j < last {
                assert(new_mesh_is_for(rest[j], id));
            }
        }
        if has_new_mesh_for(rest, id) {
            let j = choose|j: int|
                0 <= j < rest.len() && new_mesh_is_for(#[trigger] rest[j], id);
            assert(new_mesh_is_for(new_meshes[j], id));
        }
        assert forall|j: int| #[trigger] is_first_new_mesh_for(new_meshes, id, j) implies spec_add_new_meshes(
            meshes,
            new_meshes,
        )[id] == new_meshes[j].unwrap().1 by {
            if j < last {
                assert forall|i: int| 0 <= i < j implies !new_mesh_is_for(#[trigger] rest[i], id) by {
                    assert(new_meshes[i] == rest[i]);
                }
                assert(is_first_new_mesh_for(rest, id, j));
            } else {
                assert forall|i: int| 0 <= i < rest.len() implies !new_mesh_is_for(#[trigger] rest[i], id) by {
                    assert(new_meshes[i] == rest[i]);
                }
                assert(!has_new_mesh_for(rest, id));
            }
        }
    }
}

/// The ids of all components are exactly the ids of the entities' slots.
pub proof fn lemma_component_ids(entities: Seq<Vec<MeshSlot>>, id: u64)
    ensures
        spec_component_ids(entities).contains(id) <==> exists|e: int, j: int|
            0 <= e < entities.len() && 0 <= j < entities[e]@.len() && (#[trigger] entities[e]@[j]).id
                == id,
    decreases entities.len(),
{
    if entities.len() > 0 {
        let init = entities.drop_last();
        let last = entities.len() - 1;
        let tail = entities.last()@.map_values(|s: MeshSlot| s.id);
        lemma_component_ids(init, id);
        let all = spec_component_ids(entities);
        assert(all == spec_component_ids(init) + tail);
        if all.contains(id) {
            let p = choose|p: int| 0 <= p < all.len() && all[p] == id;
            let n = spec_component_ids(init).len();
            if p < n {
                assert(spec_component_ids(init)[p] == id);
                let (e, j) = choose|e: int, j: int|
                    0 <= e < init.len() && 0 <= j < init[e]@.len() && (#[trigger] init[e]@[j]).id == id;
                assert(entities[e] == init[e]);
            } else {
                assert(tail[p - n] == id);
                assert(entities[last]@[p - n].id == id);
            }
        }
        if exists|e: int, j: int|
            0 <= e < entities.len() && 0 <= j < entities[e]@.len() && (#[trigger] entities[e]@[j]).id
                == id {
            let (e, j) = choose|e: int, j: int|
                0 <= e < entities.len() && 0 <= j < entities[e]@.len() && (#[trigger] entities[e]@[j]).id
                    == id;
            if e < last {
                assert(init[e] == entities[e]);
                assert(init[e]@[j].id == id);
                let q = choose|q: int| 0 <= q < spec_component_ids(init).len() && spec_component_ids(init)[q] == id;
                assert(all[q] == id);
            } else {
                assert(tail[j] == id);
                assert(all[spec_component_ids(init).len() + j] == id);
            }
        }
    }
}

} // verus!

verus! {

/// A mesh is requested for exactly the components without one whose entity
/// is within the cutoff.
pub proof fn lemma_creation_requests<M>(meshes: Map<u64, M>, slots: Seq<MeshSlot>, id: u64)
    ensures
        spec_creation_requests(meshes, slots).contains(id) <==> exists|j: int|
            0 <= j < slots.len() && (#[trigger] slots[j]).id == id && needs_mesh(meshes, slots[j]),
    decreases slots.len(),
{
    if slots.len() > 0 {
        let init = slots.drop_last();
        lemma_creation_requests(meshes, init, id);
        let before = spec_creation_requests(meshes, init);
        if before.contains(id) {
            let j = choose|j: int| 0 <= j < init.len() && (#[trigger] init[j]).id == id && needs_mesh(meshes, init[j]);
            assert(slots[j] == init[j]);
        }
        if exists|j: int| 0 <= j < slots.len() && (#[trigger] slots[j]).id == id && needs_mesh(meshes, slots[j]) {
            let j = choose|j: int| 0 <= j < slots.len() && (#[trigger] slots[j]).id == id && needs_mesh(meshes, slots[j]);
            if j < slots.len() - 1 {
                assert(init[j] == slots[j]);
                assert(before.contains(id));
                let p = choose|p: int| 0 <= p < before.len() && before[p] == id;
                if needs_mesh(meshes, slots.last()) {
                    assert(before.push(slots.last().id)[p] == id);
                }
            } else {
                assert(before.push(slots.last().id)[before.len() as int] == id);
            }
        }
        if needs_mesh(meshes, slots.last()) && before.push(slots.last().id).contains(id) && !before.contains(id) {
            let p = choose|p: int| 0 <= p < before.len() + 1 && before.push(slots.last().id)[p] == id;
            if p < before.len() {
                assert(before[p] == id);
            }
            assert(slots[slots.len() - 1].id == id);
        }
    }
}

/// The mesh kept for an entity is its last successful attempt, and there is
/// none iff every attempt failed.
pub proof fn lemma_newest_created<M>(created: Seq<(u64, Option<M>)>)
    ensures
        spec_newest_created(created) is None <==> forall|i: int|
            0 <= i < created.len() ==> (#[trigger] created[i]).1 is None,
        spec_newest_created(created) is Some ==> exists|j: int|
            0 <= j < created.len() && (#[trigger] created[j]).1 is Some && created[j].0
                == spec_newest_created(created).unwrap().0 && created[j].1.unwrap()
                == spec_newest_created(created).unwrap().1 && forall|i: int|
                j < i < created.len() ==> (#[trigger] created[i]).1 is None,
    decreases created.len(),
{
    if created.len() > 0 {
        let init = created.drop_last();
        lemma_newest_created(init);
        let last = created.len() - 1;
        if created.last().1 is Some {
            assert(created[last].1 is Some);
        } else {
            assert forall|i: int| 0 <= i < created.len() && (forall|k: int| 0 <= k < init.len() ==> (#[trigger] init[k]).1 is None) implies (#[trigger] created[i]).1 is None by {
                if i < last {
                    assert(init[i] == created[i]);
                }
            }
            if spec_newest_created(init) is Some {
                let j = choose|j: int|
                    0 <= j < init.len() && (#[trigger] init[j]).1 is Some && init[j].0
                        == spec_newest_created(init).unwrap().0 && init[j].1.unwrap()
                        == spec_newest_created(init).unwrap().1 && forall|i: int|
                        j < i < init.len() ==> (#[trigger] init[i]).1 is None;
                assert(created[j] == init[j]);
                assert forall|i: int| j < i < created.len() implies (#[trigger] created[i]).1 is None by {
                    if i < last {
                        assert(init[i] == created[i]);
                    }
                }
            } else {
                assert forall|i: int| 0 <= i < created.len() implies (#[trigger] created[i]).1 is None by {
                    if i < last {
                        assert(init[i] == created[i]);
                    }
                }
            }
        }
    }
}

/// After a frame (the new meshes added, then the meshes of vanished
/// components dropped) a component has a mesh iff it still exists and it
/// had a mesh before or got a new one.
pub proof fn lemma_frame_meshes<M>(
    meshes: Map<u64, M>,
    new_meshes: Seq<Option<(u64, M)>>,
    entities: Seq<Vec<MeshSlot>>,
    id: u64,
)
    ensures
        spec_add_new_meshes(meshes, new_meshes).restrict(
            spec_component_ids(entities).to_set(),
        ).contains_key(id) <==> (meshes.contains_key(id) || has_new_mesh_for(new_meshes, id))
            && exists|e: int, j: int|
            0 <= e < entities.len() && 0 <= j < entities[e]@.len() && (#[trigger] entities[e]@[j]).id
                == id,
{
    lemma_first_entity_wins(meshes, new_meshes, id);
    lemma_component_ids(entities, id);
}

/// A slot of a mesh's material.
#[derive(PartialEq, Eq, Structural, Clone, Copy, Debug)]
pub enum MaterialSlot {
    Color,
    Roughness,
    Metalness,
    Emission,
    Normal,
    Bump,
}

/// Where each slot of a mesh's material comes from: a texture file, or a
/// plain value (for normal and bump: a texture, or nothing).
#[derive(PartialEq, Eq, Structural, Clone, Copy, Debug)]
pub struct MaterialSources {
    pub color_is_texture: bool,
    pub roughness_is_texture: bool,
    pub metalness_is_texture: bool,
    pub emission_is_texture: bool,
    pub has_normal_texture: bool,
    pub has_bump_texture: bool,
}

/// The slots, in order, whose texture file is loaded when making a mesh.
pub open spec fn spec_texture_slots(m: MaterialSources) -> Seq<MaterialSlot> {
    (if m.color_is_texture { seq![MaterialSlot::Color] } else { Seq::empty() })
        + (if m.roughness_is_texture { seq![MaterialSlot::Roughness] } else { Seq::empty() })
        + (if m.metalness_is_texture { seq![MaterialSlot::Metalness] } else { Seq::empty() })
        + (if m.emission_is_texture { seq![MaterialSlot::Emission] } else { Seq::empty() })
        + (if m.has_normal_texture { seq![MaterialSlot::Normal] } else { Seq::empty() })
        + (if m.has_bump_texture { seq![MaterialSlot::Bump] } else { Seq::empty() })
}

/// The slots whose texture file is loaded when making a mesh, in the order
/// they are loaded: color, roughness, metalness, emission, normal, bump.
/// The first load that fails stops the making of the mesh.
pub fn texture_slots(m: MaterialSources) -> (slots: Vec<MaterialSlot>)
    ensures
        slots@ == spec_texture_slots(m),
{
    let mut slots: Vec<MaterialSlot> = Vec::new();
    if m.color_is_texture {
        slots.push(MaterialSlot::Color);
    }
    if m.roughness_is_texture {
        slots.push(MaterialSlot::Roughness);
    }
    if m.metalness_is_texture {
        slots.push(MaterialSlot::Metalness);
    }
    if m.emission_is_texture {
        slots.push(MaterialSlot::Emission);
    }
    if m.has_normal_texture {
        slots.push(MaterialSlot::Normal);
    }
    if m.has_bump_texture {
        slots.push(MaterialSlot::Bump);
    }
    assert(slots@ =~= spec_texture_slots(m));
    slots
}

/// What an image binding of a mesh's descriptor set is bound to.
#[derive(PartialEq, Eq, Structural, Clone, Copy, Debug)]
pub enum BindingSource {
    /// The texture of this material slot.
    Texture(MaterialSlot),
    /// The shared empty image.
    Empty,
}

/// The source of a slot's binding: its texture where it has one, else the
/// shared empty image.
pub open spec fn spec_binding_source(slot: MaterialSlot, has_texture: bool) -> BindingSource {
    if has_texture {
        BindingSource::Texture(slot)
    } else {
        BindingSource::Empty
    }
}

/// The image bindings of a mesh, in order: binding `1` to `6` for color,
/// roughness, metalness, emission, normal and bump.
pub open spec fn spec_texture_bindings(m: MaterialSources) -> Seq<(u32, BindingSource)> {
    seq![
        (1u32, spec_binding_source(MaterialSlot::Color, m.color_is_texture)),
        (2u32, spec_binding_source(MaterialSlot::Roughness, m.roughness_is_texture)),
        (3u32, spec_binding_source(MaterialSlot::Metalness, m.metalness_is_texture)),
        (4u32, spec_binding_source(MaterialSlot::Emission, m.emission_is_texture)),
        (5u32, spec_binding_source(MaterialSlot::Normal, m.has_normal_texture)),
        (6u32, spec_binding_source(MaterialSlot::Bump, m.has_bump_texture)),
    ]
}

fn binding_source(slot: MaterialSlot, has_texture: bool) -> (source: BindingSource)
    ensures
        source == spec_binding_source(slot, has_texture),
{
    if has_texture {
        BindingSource::Texture(slot)
    } else {
        BindingSource::Empty
    }
}

/// The image bindings made when a mesh is made, in the order they are made.
pub fn texture_bindings(m: MaterialSources) -> (bindings: Vec<(u32, BindingSource)>)
    ensures
        bindings@ == spec_texture_bindings(m),
{
    let mut bindings: Vec<(u32, BindingSource)> = Vec::new();
    bindings.push((1, binding_source(MaterialSlot::Color, m.color_is_texture)));
    bindings.push((2, binding_source(MaterialSlot::Roughness, m.roughness_is_texture)));
    bindings.push((3, binding_source(MaterialSlot::Metalness, m.metalness_is_texture)));
    bindings.push((4, binding_source(MaterialSlot::Emission, m.emission_is_texture)));
    bindings.push((5, binding_source(MaterialSlot::Normal, m.has_normal_texture)));
    bindings.push((6, binding_source(MaterialSlot::Bump, m.has_bump_texture)));
    assert(bindings@ =~= spec_texture_bindings(m));
    bindings
}

/// Whether the material has a texture for `slot`.
pub open spec fn has_texture_for(m: MaterialSources, slot: MaterialSlot) -> bool {
    match slot {
        MaterialSlot::Color => m.color_is_texture,
        MaterialSlot::Roughness => m.roughness_is_texture,
        MaterialSlot::Metalness => m.metalness_is_texture,
        MaterialSlot::Emission => m.emission_is_texture,
        MaterialSlot::Normal => m.has_normal_texture,
        MaterialSlot::Bump => m.has_bump_texture,
    }
}

/// The binding number of each slot.
pub open spec fn binding_of(slot: MaterialSlot) -> u32 {
    match slot {
        MaterialSlot::Color => 1,
        MaterialSlot::Roughness => 2,
        MaterialSlot::Metalness => 3,
        MaterialSlot::Emission => 4,
        MaterialSlot::Normal => 5,
        MaterialSlot::Bump => 6,
    }
}

proof fn lemma_add_contains(a: Seq<MaterialSlot>, b: Seq<MaterialSlot>, x: MaterialSlot)
    ensures
        (a + b).contains(x) <==> a.contains(x) || b.contains(x),
{
    if (a + b).contains(x) {
        let i = choose|i: int| 0 <= i < (a + b).len() && (a + b)[i] == x;
        if i < a.len() {
            assert(a[i] == x);
        } else {
            assert(b[i - a.len()] == x);
        }
    }
    if a.contains(x) {
        let i = choose|i: int| 0 <= i < a.len() && a[i] == x;
        assert((a + b)[i] == x);
    }
    if b.contains(x) {
        let i = choose|i: int| 0 <= i < b.len() && b[i] == x;
        assert((a + b)[i + a.len()] == x);
    }
}

/// The slot appears in the part for slot `s` exactly when it is `s` and the
/// material has its texture.
proof fn lemma_part_contains(on: bool, s: MaterialSlot, x: MaterialSlot)
    ensures
        (if on { seq![s] } else { Seq::<MaterialSlot>::empty() }).contains(x) <==> on && s == x,
{
    if on {
        assert(seq![s][0] == s);
    }
}

/// Law: a slot's texture is loaded exactly when the material has a texture
/// for that slot.
pub proof fn lemma_texture_slots_contains(m: MaterialSources, slot: MaterialSlot)
    ensures
        has_texture_for(m, slot) <==> spec_texture_slots(m).contains(slot),
{
    let c: Seq<MaterialSlot> = if m.color_is_texture { seq![MaterialSlot::Color] } else { Seq::empty() };
    let r: Seq<MaterialSlot> = if m.roughness_is_texture { seq![MaterialSlot::Roughness] } else { Seq::empty() };
    let me: Seq<MaterialSlot> = if m.metalness_is_texture { seq![MaterialSlot::Metalness] } else { Seq::empty() };
    let e: Seq<MaterialSlot> = if m.emission_is_texture { seq![MaterialSlot::Emission] } else { Seq::empty() };
    let n: Seq<MaterialSlot> = if m.has_normal_texture { seq![MaterialSlot::Normal] } else { Seq::empty() };
    let bu: Seq<MaterialSlot> = if m.has_bump_texture { seq![MaterialSlot::Bump] } else { Seq::empty() };
    lemma_add_contains(c, r, slot);
    lemma_add_contains(c + r, me, slot);
    lemma_add_contains(c + r + me, e, slot);
    lemma_add_contains(c + r + me + e, n, slot);
    lemma_add_contains(c + r + me + e + n, bu, slot);
    lemma_part_contains(m.color_is_texture, MaterialSlot::Color, slot);
    lemma_part_contains(m.roughness_is_texture, MaterialSlot::Roughness, slot);
    lemma_part_contains(m.metalness_is_texture, MaterialSlot::Metalness, slot);
    lemma_part_contains(m.emission_is_texture, MaterialSlot::Emission, slot);
    lemma_part_contains(m.has_normal_texture, MaterialSlot::Normal, slot);
    lemma_part_contains(m.has_bump_texture, MaterialSlot::Bump, slot);
}

/// Law: there is one binding per slot, numbered `binding_of(slot)`; it is
/// bound to that slot's own texture exactly when the material has a texture
/// for that very slot (exactly when that texture is loaded), and to the
/// empty image otherwise. No binding refers to another slot's texture.
pub proof fn lemma_texture_bindings(m: MaterialSources, slot: MaterialSlot)
    ensures
        spec_texture_bindings(m).len() == 6,
        spec_texture_bindings(m)[binding_of(slot) - 1].0 == binding_of(slot),
        spec_texture_bindings(m)[binding_of(slot) - 1].1 == BindingSource::Texture(slot)
            <==> has_texture_for(m, slot),
        spec_texture_bindings(m)[binding_of(slot) - 1].1 == BindingSource::Empty
            <==> !has_texture_for(m, slot),
        forall|k: int|
            0 <= k < 6 && #[trigger] spec_texture_bindings(m)[k].1 == BindingSource::Texture(slot)
                ==> k == binding_of(slot) - 1,
        has_texture_for(m, slot) <==> spec_texture_slots(m).contains(slot),
{
    lemma_texture_slots_contains(m, slot);
    let b = spec_texture_bindings(m);
    assert forall|k: int|
        0 <= k < 6 && #[trigger] b[k].1 == BindingSource::Texture(slot) implies k == binding_of(slot) - 1 by {
        if k == 0 {
            assert(b[0].1 == spec_binding_source(MaterialSlot::Color, m.color_is_texture));
        } else if k == 1 {
            assert(b[1].1 == spec_binding_source(MaterialSlot::Roughness, m.roughness_is_texture));
        } else if k == 2 {
            assert(b[2].1 == spec_binding_source(MaterialSlot::Metalness, m.metalness_is_texture));
        } else if k == 3 {
            assert(b[3].1 == spec_binding_source(MaterialSlot::Emission, m.emission_is_texture));
        } else if k == 4 {
            assert(b[4].1 == spec_binding_source(MaterialSlot::Normal, m.has_normal_texture));
        } else {
            assert(b[5].1 == spec_binding_source(MaterialSlot::Bump, m.has_bump_texture));
        }
    }
}

} // verus!
