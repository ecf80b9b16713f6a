//! Scene snapshots: what saving extracts from the world, what loading merges
//! back, and which entities unloading removes.
use vstd::prelude::*;

use crate::codegen::views;
use crate::selected::SelectedEntities;
use crate::selection::Entity;

verus! {

/// The type of a component, as far as scene persistence tells them apart.
#[derive(Clone, Copy, Debug, PartialEq, Eq, Structural)]
pub enum ComponentType {
    /// A mesh to render.
    Mesh3d,
    /// A material to render with.
    MeshMaterial3d,
    /// The selection mirror.
    PickSelection,
    /// Any other reflected type, by its type id.
    Reflected(u64),
}

/// A component's type, its serialized value, and the entities it refers to.
#[derive(Debug, PartialEq, Eq)]
pub struct ComponentData {
    pub ty: ComponentType,
    pub value: String,
    pub entity_refs: Vec<Entity>,
}

/// The plain view of a component: type, value and entity references.
pub type ComponentView = (ComponentType, String, Seq<Entity>);

pub open spec fn component_view(c: ComponentData) -> ComponentView {
    (c.ty, c.value, c.entity_refs@)
}

pub open spec fn components_view(cs: Seq<ComponentData>) -> Seq<ComponentView> {
    cs.map_values(|c: ComponentData| component_view(c))
}

/// An entity of the world, with whether it belongs to the editor itself
/// (camera rig, grid, gizmo helpers) rather than to the scene.
#[derive(Debug)]
pub struct WorldEntity {
    pub id: Entity,
    pub editor_only: bool,
    pub components: Vec<ComponentData>,
}

/// One entity of a scene snapshot.
#[derive(Debug)]
pub struct SceneRecord {
    pub id: Entity,
    pub components: Vec<ComponentData>,
}

/// The plain view of a world entity.
pub open spec fn entity_view(e: WorldEntity) -> (Entity, bool, Seq<ComponentView>) {
    (e.id, e.editor_only, components_view(e.components@))
}

pub open spec fn world_view(w: Seq<WorldEntity>) -> Seq<(Entity, bool, Seq<ComponentView>)> {
    w.map_values(|e: WorldEntity| entity_view(e))
}

/// The plain view of a snapshot.
pub open spec fn scene_view(s: Seq<SceneRecord>) -> Seq<(Entity, Seq<ComponentView>)> {
    s.map_values(|r: SceneRecord| (r.id, components_view(r.components@)))
}

/// Component types that are render or selection artifacts of the editor and
/// never part of a scene file.
pub open spec fn is_denied(t: ComponentType) -> bool {
    t == ComponentType::Mesh3d || t == ComponentType::MeshMaterial3d || t == ComponentType::PickSelection
}

/// The components a snapshot keeps, in order.
pub open spec fn kept(cs: Seq<ComponentView>) -> Seq<ComponentView>
    decreases cs.len(),
{
    if cs.len() == 0 {
        seq![]
    } else if is_denied(cs.last().0) {
        kept(cs.drop_last())
    } else {
        kept(cs.drop_last()).push(cs.last())
    }
}

/// The snapshot of a world: its scene entities in order, with their kept
/// components.
pub open spec fn scene_records(w: Seq<(Entity, bool, Seq<ComponentView>)>) -> Seq<(Entity, Seq<ComponentView>)>
    decreases w.len(),
{
    if w.len() == 0 {
        seq![]
    } else if w.last().1 {
        scene_records(w.drop_last())
    } else {
        scene_records(w.drop_last()).push((w.last().0, kept(w.last().2)))
    }
}

/// The editor's own entities of a world, in order.
pub open spec fn editor_entities(w: Seq<(Entity, bool, Seq<ComponentView>)>) -> Seq<(Entity, bool, Seq<ComponentView>)>
    decreases w.len(),
{
    if w.len() == 0 {
        seq![]
    } else if w.last().1 {
        editor_entities(w.drop_last()).push(w.last())
    } else {
        editor_entities(w.drop_last())
    }
}

/// The id an entity reference gets when a snapshot with record ids `ids` is
/// loaded from `next_id` on: a reference to the first record with that id
/// goes to that record's new entity; any other reference is kept.
pub open spec fn remap_from(ids: Seq<Entity>, next_id: nat, e: Entity, i: int) -> Entity
    decreases ids.len() - i,
{
    if i < 0 || i >= ids.len() {
        e
    } else if ids[i] == e {
        (next_id + i) as Entity
    } else {
        remap_from(ids, next_id, e, i + 1)
    }
}

pub open spec fn remapped(ids: Seq<Entity>, next_id: nat, e: Entity) -> Entity {
    remap_from(ids, next_id, e, 0)
}

/// Components with every entity reference remapped.
pub open spec fn remap_components(cs: Seq<ComponentView>, ids: Seq<Entity>, next_id: nat) -> Seq<ComponentView> {
    cs.map_values(|c: ComponentView| (c.0, c.1, c.2.map_values(|e: Entity| remapped(ids, next_id, e))))
}

/// The record ids of a snapshot.
pub open spec fn record_ids(s: Seq<(Entity, Seq<ComponentView>)>) -> Seq<Entity> {
    s.map_values(|r: (Entity, Seq<ComponentView>)| r.0)
}

/// The entities made from the records `s` when the whole snapshot has record
/// ids `ids`: one new scene entity per record, numbered from `next_id` on,
/// with its references remapped.
pub open spec fn loaded_with(
    s: Seq<(Entity, Seq<ComponentView>)>,
    ids: Seq<Entity>,
    next_id: nat,
) -> Seq<(Entity, bool, Seq<ComponentView>)> {
    Seq::new(s.len(), |k: int| ((next_id + k) as Entity, false, remap_components(s[k].1, ids, next_id)))
}

/// The entities a load adds.
pub open spec fn loaded_entities(s: Seq<(Entity, Seq<ComponentView>)>, next_id: nat) -> Seq<(Entity, bool, Seq<ComponentView>)> {
    loaded_with(s, record_ids(s), next_id)
}

fn copy_refs(v: &Vec<Entity>) -> (r: Vec<Entity>)
    ensures
        r@ == v@,
{
    let mut out: Vec<Entity> = Vec::new();
    let mut i: usize = 0;
    while i < v.len()
        invariant
            i <= v@.len(),
            out@ == v@.take(i as int),
        decreases v.len() - i,
    {
        out.push(v[i]);
        proof {
            assert(out@ =~= v@.take(i + 1));
        }
        i += 1;
    }
    proof {
        assert(v@.take(v@.len() as int) =~= v@);
    }
    out
}

fn copy_component(c: &ComponentData) -> (r: ComponentData)
    ensures
        component_view(r) == component_view(*c),
{
    ComponentData { ty: c.ty, value: c.value.clone(), entity_refs: copy_refs(&c.entity_refs) }
}

fn copy_components(cs: &Vec<ComponentData>) -> (r: Vec<ComponentData>)
    ensures
        components_view(r@) == components_view(cs@),
{
    let mut out: Vec<ComponentData> = Vec::new();
    let mut i: usize = 0;
    while i < cs.len()
        invariant
            i <= cs@.len(),
            components_view(out@) == components_view(cs@.take(i as int)),
        decreases cs.len() - i,
    {
        let ghost before = out@;
        out.push(copy_component(&cs[i]));
        proof {
            assert(components_view(out@) =~= components_view(before).push(component_view(cs@[i as int])));
            assert(components_view(out@) =~= components_view(cs@.take(i + 1)));
        }
        i += 1;
    }
    proof {
        assert(cs@.take(cs@.len() as int) =~= cs@);
    }
    out
}

/// The components of `cs` a snapshot keeps.
fn kept_components(cs: &Vec<ComponentData>) -> (r: Vec<ComponentData>)
    ensures
        components_view(r@) == kept(components_view(cs@)),
{
    let ghost v = components_view(cs@);
    let mut out: Vec<ComponentData> = Vec::new();
    let mut i: usize = 0;
    while i < cs.len()
        invariant
            i <= cs@.len(),
            v == components_view(cs@),
            components_view(out@) == kept(v.take(i as int)),
        decreases cs.len() - i,
    {
        proof {
            assert(v.take(i + 1).drop_last() =~= v.take(i as int));
            assert(v.take(i + 1).last() == component_view(cs@[i as int]));
        }
        let t = cs[i].ty;
        if !(t == ComponentType::Mesh3d || t == ComponentType::MeshMaterial3d || t
            == ComponentType::PickSelection) {
            let ghost before = out@;
            out.push(copy_component(&cs[i]));
            proof {
                assert(components_view(out@) =~= components_view(before).push(component_view(cs@[i as int])));
            }
        }
        i += 1;
    }
    proof {
        assert(v.take(v.len() as int) =~= v);
    }
    out
}

/// Builds the snapshot that saving writes: every entity that is not the
/// editor's own, without its mesh, material and selection components.
pub fn build_scene(world: &Vec<WorldEntity>) -> (r: Vec<SceneRecord>)
    ensures
        scene_view(r@) == scene_records(world_view(world@)),
{
    let ghost w = world_view(world@);
    let mut out: Vec<SceneRecord> = Vec::new();
    let mut i: usize = 0;
    while i < world.len()
        invariant
            i <= world@.len(),
            w == world_view(world@),
            scene_view(out@) == scene_records(w.take(i as int)),
        decreases world.len() - i,
    {
        proof {
            assert(w.take(i + 1).drop_last() =~= w.take(i as int));
            assert(w.take(i + 1).last() == entity_view(world@[i as int]));
        }
        if !world[i].editor_only {
            let ghost before = out@;
            let components = kept_components(&world[i].components);
            out.push(SceneRecord { id: world[i].id, components });
            proof {
                assert(scene_view(out@) =~= scene_view(before).push(
                    (world@[i as int].id, kept(components_view(world@[i as int].components@))),
                ));
            }
        }
        i += 1;
    }
    proof {
        assert(w.take(w.len() as int) =~= w);
    }
    out
}

fn remap_entity(scene: &Vec<SceneRecord>, next_id: u64, e: Entity) -> (r: Entity)
    requires
        next_id + scene@.len() <= u64::MAX,
    ensures
        r == remapped(record_ids(scene_view(scene@)), next_id as nat, e),
{
    let ghost ids = record_ids(scene_view(scene@));
    let mut i: usize = 0;
    while i < scene.len()
        invariant
            i <= scene@.len(),
            next_id + scene@.len() <= u64::MAX,
            ids == record_ids(scene_view(scene@)),
            remap_from(ids, next_id as nat, e, i as int) == remapped(ids, next_id as nat, e),
        decreases scene.len() - i,
    {
        if scene[i].id == e {
            return next_id + i as u64;
        }
        i += 1;
    }
    e
}

fn remap_component(c: &ComponentData, scene: &Vec<SceneRecord>, next_id: u64) -> (r: ComponentData)
    requires
        next_id + scene@.len() <= u64::MAX,
    ensures
        seq![component_view(r)] == remap_components(
            seq![component_view(*c)],
            record_ids(scene_view(scene@)),
            next_id as nat,
        ),
{
    let ghost ids = record_ids(scene_view(scene@));
    let mut refs: Vec<Entity> = Vec::new();
    let mut i: usize = 0;
    while i < c.entity_refs.len()
        invariant
            i <= c.entity_refs@.len(),
            next_id + scene@.len() <= u64::MAX,
            ids == record_ids(scene_view(scene@)),
            refs@ == c.entity_refs@.take(i as int).map_values(|e: Entity| remapped(ids, next_id as nat, e)),
        decreases c.entity_refs.len() - i,
    {
        let e = remap_entity(scene, next_id, c.entity_refs[i]);
        refs.push(e);
        proof {
            assert(refs@ =~= c.entity_refs@.take(i + 1).map_values(|e: Entity| remapped(ids, next_id as nat, e)));
        }
        i += 1;
    }
    proof {
        assert(c.entity_refs@.take(c.entity_refs@.len() as int) =~= c.entity_refs@);
    }
    let r = ComponentData { ty: c.ty, value: c.value.clone(), entity_refs: refs };
    proof {
        assert(seq![component_view(r)] =~= remap_components(seq![component_view(*c)], ids, next_id as nat));
    }
    r
}

fn remap_all(cs: &Vec<ComponentData>, scene: &Vec<SceneRecord>, next_id: u64) -> (r: Vec<ComponentData>)
    requires
        next_id + scene@.len() <= u64::MAX,
    ensures
        components_view(r@) == remap_components(
            components_view(cs@),
            record_ids(scene_view(scene@)),
            next_id as nat,
        ),
{
    let ghost ids = record_ids(scene_view(scene@));
    let ghost v = components_view(cs@);
    let mut out: Vec<ComponentData> = Vec::new();
    let mut i: usize = 0;
    while i < cs.len()
        invariant
            i <= cs@.len(),
            next_id + scene@.len() <= u64::MAX,
            ids == record_ids(scene_view(scene@)),
            v == components_view(cs@),
            components_view(out@) == remap_components(v.take(i as int), ids, next_id as nat),
        decreases cs.len() - i,
    {
        let ghost before = out@;
        let c = remap_component(&cs[i], scene, next_id);
        out.push(c);
        proof {
            let one = remap_components(seq![component_view(cs@[i as int])], ids, next_id as nat);
            assert(one[0] == component_view(c));
            assert(components_view(out@) =~= components_view(before).push(component_view(c)));
            assert(remap_components(v.take(i + 1), ids, next_id as nat) =~= remap_components(
                v.take(i as int),
                ids,
                next_id as nat,
            ).push(one[0]));
        }
        i += 1;
    }
    proof {
        assert(v.take(v.len() as int) =~= v);
    }
    out
}

/// Merges a snapshot into the world as new scene entities numbered from
/// `next_id` on, with the references between them remapped, and returns how
/// the snapshot's ids map to the new ones.
pub fn write_to_world(world: &mut Vec<WorldEntity>, scene: &Vec<SceneRecord>, next_id: u64) -> (map: Vec<(Entity, Entity)>)
    requires
        next_id + scene@.len() <= u64::MAX,
    ensures
        world_view(final(world)@) == world_view(old(world)@) + loaded_entities(scene_view(scene@), next_id as nat),
        map@.len() == scene@.len(),
        forall|k: int| 0 <= k < map@.len() ==> #[trigger] map@[k] == (scene@[k].id, (next_id + k) as Entity),
{
    let ghost start = world_view(world@);
    let ghost sv = scene_view(scene@);
    let ghost ids = record_ids(sv);
    let mut map: Vec<(Entity, Entity)> = Vec::new();
    let mut k: usize = 0;
    while k < scene.len()
        invariant
            k <= scene@.len(),
            next_id + scene@.len() <= u64::MAX,
            sv == scene_view(scene@),
            ids == record_ids(sv),
            world_view(world@) == start + loaded_with(sv.take(k as int), ids, next_id as nat),
            map@.len() == k,
            forall|j: int| 0 <= j < k ==> #[trigger] map@[j] == (scene@[j].id, (next_id + j) as Entity),
        decreases scene.len() - k,
    {
        let id = next_id + k as u64;
        let components = remap_all(&scene[k].components, scene, next_id);
        let ghost before = world@;
        world.push(WorldEntity { id, editor_only: false, components });
        map.push((scene[k].id, id));
        proof {
            let entry = (id, false, remap_components(sv[k as int].1, ids, next_id as nat));
            assert(world_view(world@) =~= world_view(before).push(entry));
            assert(loaded_with(sv.take(k + 1), ids, next_id as nat) =~= loaded_with(
                sv.take(k as int),
                ids,
                next_id as nat,
            ).push(entry));
            assert(world_view(world@) =~= start + loaded_with(sv.take(k + 1), ids, next_id as nat));
        }
        k += 1;
    }
    proof {
        assert(sv.take(sv.len() as int) =~= sv);
    }
    map
}

/// Unloads the scene: clears the selection and removes every entity that is
/// not the editor's own.
pub fn unload_scene(world: &mut Vec<WorldEntity>, selected: &mut SelectedEntities)
    ensures
        world_view(final(world)@) == editor_entities(world_view(old(world)@)),
        final(selected)@ == Seq::<Entity>::empty(),
        final(selected).wf(),
{
    selected.clear();
    let mut old_world: Vec<WorldEntity> = Vec::new();
    core::mem::swap(&mut old_world, world);
    let ghost w = world_view(old_world@);
    let mut i: usize = 0;
    while i < old_world.len()
        invariant
            i <= old_world@.len(),
            w == world_view(old_world@),
            world_view(world@) == editor_entities(w.take(i as int)),
        decreases old_world.len() - i,
    {
        proof {
            assert(w.take(i + 1).drop_last() =~= w.take(i as int));
            assert(w.take(i + 1).last() == entity_view(old_world@[i as int]));
        }
        if old_world[i].editor_only {
            let ghost before = world@;
            let components = copy_components(&old_world[i].components);
            world.push(WorldEntity { id: old_world[i].id, editor_only: true, components });
            proof {
                assert(world_view(world@) =~= world_view(before).push(entity_view(old_world@[i as int])));
            }
        }
        i += 1;
    }
    proof {
        assert(w.take(w.len() as int) =~= w);
    }
}

/// The entities of `w` that `selected` does not hold, in order.
pub open spec fn without_selected(
    w: Seq<(Entity, bool, Seq<ComponentView>)>,
    selected: Seq<Entity>,
) -> Seq<(Entity, bool, Seq<ComponentView>)>
    decreases w.len(),
{
    if w.len() == 0 {
        seq![]
    } else if selected.contains(w.last().0) {
        without_selected(w.drop_last(), selected)
    } else {
        without_selected(w.drop_last(), selected).push(w.last())
    }
}

/// Despawns every selected entity and clears the selection.
pub fn delete_selected(world: &mut Vec<WorldEntity>, selected: &mut SelectedEntities)
    ensures
        world_view(final(world)@) == without_selected(world_view(old(world)@), old(selected)@),
        final(selected)@ == Seq::<Entity>::empty(),
        final(selected).wf(),
{
    let mut old_world: Vec<WorldEntity> = Vec::new();
    core::mem::swap(&mut old_world, world);
    let ghost w = world_view(old_world@);
    let ghost sel = selected@;
    let mut i: usize = 0;
    while i < old_world.len()
        invariant
            i <= old_world@.len(),
            w == world_view(old_world@),
            sel == selected@,
            world_view(world@) == without_selected(w.take(i as int), sel),
        decreases old_world.len() - i,
    {
        proof {
            assert(w.take(i + 1).drop_last() =~= w.take(i as int));
            assert(w.take(i + 1).last() == entity_view(old_world@[i as int]));
        }
        if !selected.contains(old_world[i].id) {
            let ghost before = world@;
            let components = copy_components(&old_world[i].components);
            world.push(WorldEntity { id: old_world[i].id, editor_only: old_world[i].editor_only, components });
            proof {
                assert(world_view(world@) =~= world_view(before).push(entity_view(old_world@[i as int])));
            }
        }
        i += 1;
    }
    proof {
        assert(w.take(w.len() as int) =~= w);
    }
    selected.clear();
}

/// The scene entities of a world, with their components.
pub open spec fn scene_contents(w: Seq<(Entity, bool, Seq<ComponentView>)>) -> Seq<Seq<ComponentView>>
    decreases w.len(),
{
    if w.len() == 0 {
        seq![]
    } else if w.last().1 {
        scene_contents(w.drop_last())
    } else {
        scene_contents(w.drop_last()).push(w.last().2)
    }
}

proof fn lemma_scene_contents_concat(
    a: Seq<(Entity, bool, Seq<ComponentView>)>,
    b: Seq<(Entity, bool, Seq<ComponentView>)>,
)
    ensures
        scene_contents(a + b) == scene_contents(a) + scene_contents(b),
    decreases b.len(),
{
    if b.len() == 0 {
        assert(a + b =~= a);
        assert(scene_contents(a) + scene_contents(b) =~= scene_contents(a));
    } else {
        assert((a + b).drop_last() =~= a + b.drop_last());
        lemma_scene_contents_concat(a, b.drop_last());
        if !b.last().1 {
            assert(scene_contents(a) + scene_contents(b) =~= (scene_contents(a) + scene_contents(
                b.drop_last(),
            )).push(b.last().2));
        }
    }
}

proof fn lemma_editor_entities_have_no_scene(w: Seq<(Entity, bool, Seq<ComponentView>)>)
    ensures
        scene_contents(editor_entities(w)) == Seq::<Seq<ComponentView>>::empty(),
    decreases w.len(),
{
    if w.len() > 0 {
        lemma_editor_entities_have_no_scene(w.drop_last());
        if w.last().1 {
            let e = editor_entities(w.drop_last());
            assert(e.push(w.last()).drop_last() =~= e);
        }
    }
}

proof fn lemma_loaded_contents(s: Seq<(Entity, Seq<ComponentView>)>, ids: Seq<Entity>, next_id: nat)
    ensures
        scene_contents(loaded_with(s, ids, next_id)) == s.map_values(
            |r: (Entity, Seq<ComponentView>)| remap_components(r.1, ids, next_id),
        ),
    decreases s.len(),
{
    if s.len() > 0 {
        lemma_loaded_contents(s.drop_last(), ids, next_id);
        let l = loaded_with(s, ids, next_id);
        assert(l.drop_last() =~= loaded_with(s.drop_last(), ids, next_id));
        assert(!l.last().1);
        assert(s.map_values(|r: (Entity, Seq<ComponentView>)| remap_components(r.1, ids, next_id)) =~= s.drop_last().map_values(
            |r: (Entity, Seq<ComponentView>)| remap_components(r.1, ids, next_id),
        ).push(remap_components(s.last().1, ids, next_id)));
    } else {
        assert(loaded_with(s, ids, next_id) =~= Seq::<(Entity, bool, Seq<ComponentView>)>::empty());
        assert(s.map_values(|r: (Entity, Seq<ComponentView>)| remap_components(r.1, ids, next_id)) =~= Seq::<
            Seq<ComponentView>,
        >::empty());
    }
}

proof fn lemma_records_contents(w: Seq<(Entity, bool, Seq<ComponentView>)>)
    ensures
        scene_records(w).map_values(|r: (Entity, Seq<ComponentView>)| r.1) == scene_contents(w).map_values(
            |cs: Seq<ComponentView>| kept(cs),
        ),
    decreases w.len(),
{
    if w.len() > 0 {
        lemma_records_contents(w.drop_last());
        if !w.last().1 {
            assert(scene_records(w).map_values(|r: (Entity, Seq<ComponentView>)| r.1) =~= scene_records(
                w.drop_last(),
            ).map_values(|r: (Entity, Seq<ComponentView>)| r.1).push(kept(w.last().2)));
            assert(scene_contents(w).map_values(|cs: Seq<ComponentView>| kept(cs)) =~= scene_contents(
                w.drop_last(),
            ).map_values(|cs: Seq<ComponentView>| kept(cs)).push(kept(w.last().2)));
        }
    }
}

/// Saving the scene, unloading it and loading the saved snapshot gives back
/// the same scene entities, in order, with the same component data except for
/// the mesh, material and selection components; only the entity ids differ,
/// and a reference to a saved entity now names that entity's new id.
pub proof fn lemma_save_load_round_trip(w: Seq<(Entity, bool, Seq<ComponentView>)>, next_id: nat)
    ensures
        scene_contents(editor_entities(w) + loaded_entities(scene_records(w), next_id))
            == scene_contents(w).map_values(
            |cs: Seq<ComponentView>| remap_components(kept(cs), record_ids(scene_records(w)), next_id),
        ),
{
    let srec = scene_records(w);
    let ids = record_ids(srec);
    lemma_scene_contents_concat(editor_entities(w), loaded_entities(srec, next_id));
    lemma_editor_entities_have_no_scene(w);
    lemma_loaded_contents(srec, ids, next_id);
    lemma_records_contents(w);
    let e = scene_contents(editor_entities(w));
    let l = scene_contents(loaded_entities(srec, next_id));
    assert(e + l =~= l);
    let a = srec.map_values(|r: (Entity, Seq<ComponentView>)| r.1);
    let b = scene_contents(w).map_values(|cs: Seq<ComponentView>| kept(cs));
    assert(a.len() == b.len());
    let lhs = srec.map_values(|r: (Entity, Seq<ComponentView>)| remap_components(r.1, ids, next_id));
    let rhs = scene_contents(w).map_values(|cs: Seq<ComponentView>| remap_components(kept(cs), ids, next_id));
    assert forall|k: int| 0 <= k < lhs.len() implies lhs[k] == rhs[k] by {
        assert(a[k] == b[k]);
    }
    assert(lhs =~= rhs);
}

/// Whether `dir`'s components begin `path`'s: the path lies inside the directory.
pub open spec fn path_within(path: Seq<Seq<char>>, dir: Seq<Seq<char>>) -> bool {
    dir.len() <= path.len() && path.subrange(0, dir.len() as int) == dir
}

/// Whether the path, given by its components, lies inside the directory.
pub fn is_within(path: &Vec<String>, dir: &Vec<String>) -> (r: bool)
    ensures
        r == path_within(views(path@), views(dir@)),
{
    if dir.len() > path.len() {
        return false;
    }
    let mut i: usize = 0;
    while i < dir.len()
        invariant
            i <= dir@.len(),
            dir@.len() <= path@.len(),
            forall|k: int| 0 <= k < i ==> path@[k]@ == dir@[k]@,
        decreases dir.len() - i,
    {
        if path[i] != dir[i] {
            proof {
                assert(views(path@).subrange(0, dir@.len() as int)[i as int] != views(dir@)[i as int]);
            }
            return false;
        }
        i += 1;
    }
    proof {
        assert(views(path@).subrange(0, dir@.len() as int) =~= views(dir@));
    }
    true
}

/// Whether the last active scene can be used again: it is set, still exists,
/// and lies inside the project directory.
pub fn active_scene_usable(active: &Option<Vec<String>>, exists: bool, project_dir: &Vec<String>) -> (r: bool)
    ensures
        r == match active {
            Some(p) => exists && path_within(views(p@), views(project_dir@)),
            None => false,
        },
{
    match active {
        Some(p) => exists && is_within(p, project_dir),
        None => false,
    }
}

} // verus!
