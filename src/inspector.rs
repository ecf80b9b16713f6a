//! What the inspector shows: the selected entities, a resource or an asset,
//! and the component list filtered by name.
use vstd::prelude::*;

use crate::selected::SelectedEntities;
use crate::selection::{Entity, KeyCode, Selectable, PickSelection};
use crate::text::{contains_str, occurs};

verus! {

/// What the inspector is showing.
#[derive(Debug)]
pub enum InspectorSelection {
    /// The selected entities.
    Entities,
    /// A resource, by its type id and name.
    Resource { type_id: u64, name: String },
    /// One asset, by its type id, type name and handle.
    Asset { type_id: u64, name: String, handle: u64 },
}

impl InspectorSelection {
    /// Whether the resource list marks the resource of type `type_id`.
    pub fn is_resource_selected(&self, type_id: u64) -> (r: bool)
        ensures
            r == match self {
                InspectorSelection::Resource { type_id: t, .. } => *t == type_id,
                _ => false,
            },
    {
        match self {
            InspectorSelection::Resource { type_id: t, .. } => *t == type_id,
            _ => false,
        }
    }

    /// Whether the asset list marks the asset `handle`.
    pub fn is_asset_selected(&self, handle: u64) -> (r: bool)
        ensures
            r == match self {
                InspectorSelection::Asset { handle: h, .. } => *h == handle,
                _ => false,
            },
    {
        match self {
            InspectorSelection::Asset { handle: h, .. } => *h == handle,
            _ => false,
        }
    }
}

/// The inspector's state.
#[derive(Debug)]
pub struct InspectorState {
    pub selected_entities: SelectedEntities,
    pub selection: InspectorSelection,
    pub component_filter: String,
}

impl InspectorState {
    /// Nothing selected, showing entities, with an empty filter.
    pub fn new() -> (r: Self)
        ensures
            r.selected_entities@ == Seq::<Entity>::empty(),
            r.selected_entities.wf(),
            r.selection is Entities,
            r.component_filter@ == Seq::<char>::empty(),
    {
        InspectorState {
            selected_entities: SelectedEntities::new(),
            selection: InspectorSelection::Entities,
            component_filter: String::new(),
        }
    }

    /// The entity to show with its children when exactly one is selected;
    /// otherwise the components shared by the selection are shown.
    pub fn single_selected(&self) -> (r: Option<Entity>)
        ensures
            r == if self.selected_entities@.len() == 1 {
                Some(self.selected_entities@[0])
            } else {
                None::<Entity>
            },
    {
        let s = self.selected_entities.as_slice();
        if s.len() == 1 {
            Some(s[0])
        } else {
            None
        }
    }
}

/// What the inspector panel draws.
#[derive(Debug, PartialEq, Eq)]
pub enum InspectorView {
    /// One entity with its children.
    Entity(Entity),
    /// The components the selected entities share.
    SharedComponents(Vec<Entity>),
    /// A resource, by type id.
    Resource(u64),
    /// An asset, by type id and handle.
    Asset(u64, u64),
}

impl InspectorState {
    /// Chooses what the inspector draws from what it is showing.
    pub fn view(&self) -> (r: InspectorView)
        ensures
            match self.selection {
                InspectorSelection::Entities => if self.selected_entities@.len() == 1 {
                    r == InspectorView::Entity(self.selected_entities@[0])
                } else {
                    r is SharedComponents && r->SharedComponents_0@ == self.selected_entities@
                },
                InspectorSelection::Resource { type_id, .. } => r == InspectorView::Resource(type_id),
                InspectorSelection::Asset { type_id, handle, .. } => r == InspectorView::Asset(type_id, handle),
            },
    {
        match &self.selection {
            InspectorSelection::Entities => match self.single_selected() {
                Some(e) => InspectorView::Entity(e),
                None => {
                    let s = self.selected_entities.as_slice();
                    let mut v: Vec<Entity> = Vec::new();
                    let mut i: usize = 0;
                    while i < s.len()
                        invariant
                            i <= s@.len(),
                            v@ == s@.take(i as int),
                        decreases s.len() - i,
                    {
                        v.push(s[i]);
                        proof {
                            assert(v@ =~= s@.take(i + 1));
                        }
                        i += 1;
                    }
                    proof {
                        assert(s@.take(s@.len() as int) =~= s@);
                    }
                    InspectorView::SharedComponents(v)
                },
            },
            InspectorSelection::Resource { type_id, .. } => InspectorView::Resource(*type_id),
            InspectorSelection::Asset { type_id, handle, .. } => InspectorView::Asset(*type_id, *handle),
        }
    }
}

/// Brings every selection mirror in line with the selection after the
/// hierarchy changed it: an entity's flag is set exactly when it is selected.
pub fn mark_selected(selectables: &mut Vec<Selectable>, selected: &SelectedEntities)
    ensures
        final(selectables)@.len() == old(selectables)@.len(),
        forall|i: int|
            0 <= i < final(selectables)@.len() ==> #[trigger] final(selectables)@[i] == (Selectable {
                entity: old(selectables)@[i].entity,
                selection: PickSelection {
                    is_selected: selected@.contains(old(selectables)@[i].entity),
                },
            }),
{
    let ghost start = selectables@;
    let mut i: usize = 0;
    while i < selectables.len()
        invariant
            i <= selectables@.len(),
            selectables@.len() == start.len(),
            forall|k: int| i <= k < selectables@.len() ==> #[trigger] selectables@[k] == start[k],
            forall|k: int|
                0 <= k < i ==> #[trigger] selectables@[k] == (Selectable {
                    entity: start[k].entity,
                    selection: PickSelection {
                        is_selected: selected@.contains(start[k].entity),
                    },
                }),
        decreases selectables.len() - i,
    {
        let s = selectables[i];
        let is_selected = selected.contains(s.entity);
        selectables.set(i, Selectable { entity: s.entity, selection: PickSelection { is_selected } });
        i += 1;
    }
}

/// The number of leading entries that hold.
pub open spec fn leading_true(flags: Seq<bool>) -> nat
    decreases flags.len(),
{
    if flags.len() == 0 || !flags[0] {
        0
    } else {
        1 + leading_true(flags.subrange(1, flags.len() as int))
    }
}

/// The selected entities the transform gizmo acts on: those before the first
/// one without a transform (`has_transform` runs along the selection).
pub fn gizmo_targets(selected: &SelectedEntities, has_transform: &Vec<bool>) -> (r: Vec<Entity>)
    requires
        has_transform@.len() == selected@.len(),
    ensures
        r@ == selected@.take(leading_true(has_transform@) as int),
{
    let s = selected.as_slice();
    let mut out: Vec<Entity> = Vec::new();
    let mut i: usize = 0;
    proof {
        assert(has_transform@.subrange(0, has_transform@.len() as int) =~= has_transform@);
    }
    while i < s.len()
        invariant
            i <= s@.len(),
            s@ == selected@,
            has_transform@.len() == s@.len(),
            out@ == s@.take(i as int),
            leading_true(has_transform@) == i + leading_true(has_transform@.subrange(i as int, has_transform@.len() as int)),
        decreases s.len() - i,
    {
        let ghost rest = has_transform@.subrange(i as int, has_transform@.len() as int);
        if !has_transform[i] {
            proof {
                assert(rest[0] == has_transform@[i as int]);
            }
            return out;
        }
        proof {
            assert(rest.subrange(1, rest.len() as int) =~= has_transform@.subrange(i + 1, has_transform@.len() as int));
        }
        out.push(s[i]);
        proof {
            assert(out@ =~= s@.take(i + 1));
        }
        i += 1;
    }
    proof {
        assert(has_transform@.subrange(i as int, has_transform@.len() as int) =~= Seq::<bool>::empty());
        assert(s@.take(i as int) =~= s@);
    }
    out
}

/// What `str::to_lowercase` gives for a text.
pub uninterp spec fn lower_of(s: Seq<char>) -> Seq<char>;

/// Relies on `str::to_lowercase`: the lowercase form of a text, which depends
/// on its characters alone.
#[verifier::external_body]
fn to_lowercase(s: &str) -> (r: String)
    ensures
        r@ == lower_of(s@),
{
    s.to_lowercase()
}

/// Whether an already lowercased component name contains the already
/// lowercased filter.
pub fn matches_folded(name_lower: &str, filter_lower: &str) -> (r: bool)
    ensures
        r == occurs(filter_lower@, name_lower@),
{
    contains_str(name_lower, filter_lower)
}

/// Whether a component name matches the filter, ignoring case.
pub fn component_matches_filter(name: &str, filter: &str) -> (r: bool)
    ensures
        r == occurs(lower_of(filter@), lower_of(name@)),
{
    let n = to_lowercase(name);
    let f = to_lowercase(filter);
    matches_folded(n.as_str(), f.as_str())
}

/// The positions of the component names that match the filter, in order.
pub fn filter_components(names: &Vec<String>, filter: &str) -> (r: Vec<usize>)
    ensures
        forall|k: int| 0 <= k < r@.len() ==> #[trigger] r@[k] < names@.len(),
        forall|k: int|
            0 <= k < r@.len() ==> occurs(lower_of(filter@), lower_of(#[trigger] names@[r@[k] as int]@)),
        forall|i: int|
            0 <= i < names@.len() && occurs(lower_of(filter@), lower_of(names@[i]@)) ==> r@.contains(
                i as usize,
            ),
        forall|a: int, b: int| 0 <= a < b < r@.len() ==> r@[a] < r@[b],
{
    let f = to_lowercase(filter);
    let mut out: Vec<usize> = Vec::new();
    let mut i: usize = 0;
    while i < names.len()
        invariant
            i <= names@.len(),
            f@ == lower_of(filter@),
            forall|k: int| 0 <= k < out@.len() ==> #[trigger] out@[k] < i,
            forall|k: int|
                0 <= k < out@.len() ==> occurs(lower_of(filter@), lower_of(#[trigger] names@[out@[k] as int]@)),
            forall|j: int|
                0 <= j < i && occurs(lower_of(filter@), lower_of(names@[j]@)) ==> out@.contains(j as usize),
            forall|a: int, b: int| 0 <= a < b < out@.len() ==> out@[a] < out@[b],
        decreases names.len() - i,
    {
        let n = to_lowercase(names[i].as_str());
        if matches_folded(n.as_str(), f.as_str()) {
            let ghost before = out@;
            out.push(i);
            proof {
                assert forall|j: int|
                    0 <= j < i + 1 && occurs(lower_of(filter@), lower_of(names@[j]@)) implies out@.contains(
                    j as usize,
                ) by {
                    if j < i {
                        let w = choose|w: int| 0 <= w < before.len() && before[w] == j as usize;
                        assert(out@[w] == j as usize);
                    } else {
                        assert(out@[before.len() as int] == i);
                    }
                }
            }
        }
        i += 1;
    }
    out
}

/// The gizmo's enabled kinds of manipulation.
#[derive(Clone, Copy, Debug, PartialEq, Eq, Structural)]
pub struct GizmoModes {
    pub rotate: bool,
    pub translate: bool,
    pub scale: bool,
}

impl GizmoModes {
    pub fn all() -> (r: Self)
        ensures
            r.rotate && r.translate && r.scale,
    {
        GizmoModes { rotate: true, translate: true, scale: true }
    }
}

/// The transform gizmo's state.
#[derive(Clone, Copy, Debug)]
pub struct GizmoState {
    pub gizmo_modes: GizmoModes,
}

impl GizmoState {
    /// Every manipulation enabled.
    pub fn new() -> (r: Self)
        ensures
            r.gizmo_modes == (GizmoModes { rotate: true, translate: true, scale: true }),
    {
        GizmoState { gizmo_modes: GizmoModes::all() }
    }

    /// Switches the gizmo by key: R rotates, T translates, S scales; when
    /// several are pressed in one frame the last of that order wins.
    pub fn set_gizmo_mode(&mut self, just_pressed: &Vec<KeyCode>)
        ensures
            final(self).gizmo_modes == if just_pressed@.contains(KeyCode::KeyS) {
                GizmoModes { rotate: false, translate: false, scale: true }
            } else if just_pressed@.contains(KeyCode::KeyT) {
                GizmoModes { rotate: false, translate: true, scale: false }
            } else if just_pressed@.contains(KeyCode::KeyR) {
                GizmoModes { rotate: true, translate: false, scale: false }
            } else {
                old(self).gizmo_modes
            },
    {
        if contains_key(just_pressed, KeyCode::KeyR) {
            self.gizmo_modes = GizmoModes { rotate: true, translate: false, scale: false };
        }
        if contains_key(just_pressed, KeyCode::KeyT) {
            self.gizmo_modes = GizmoModes { rotate: false, translate: true, scale: false };
        }
        if contains_key(just_pressed, KeyCode::KeyS) {
            self.gizmo_modes = GizmoModes { rotate: false, translate: false, scale: true };
        }
    }
}

fn contains_key(keys: &Vec<KeyCode>, k: KeyCode) -> (r: bool)
    ensures
        r == keys@.contains(k),
{
    let mut i: usize = 0;
    while i < keys.len()
        invariant
            i <= keys@.len(),
            forall|j: int| 0 <= j < i ==> keys@[j] != k,
        decreases keys.len() - i,
    {
        if keys[i] == k {
            return true;
        }
        i += 1;
    }
    false
}

} // verus!
