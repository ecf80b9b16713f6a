//! Multiselect picking: turns primary-button presses and clicks into
//! [`Select`] and [`Deselect`] notifications, and keeps the per-entity
//! [`PickSelection`] mirror in step with them.
use vstd::prelude::*;

verus! {

/// An entity of the editor's world, by its identifier bits.
pub type Entity = u64;

/// Identifies a pointer device.
#[derive(Clone, Copy, Debug, PartialEq, Eq, Structural, Hash)]
pub enum PointerId {
    Mouse,
    Touch(u64),
    Custom(u128),
}

/// A pointer button.
#[derive(Clone, Copy, Debug, PartialEq, Eq, Structural, Hash)]
pub enum PointerButton {
    Primary,
    Secondary,
    Middle,
}

/// Runtime settings of the selection pipeline.
#[derive(Debug)]
pub struct SelectionPluginSettings {
    /// Whether the selection systems run at all.
    pub is_enabled: bool,
    /// Whether a primary press on nothing deselects everything.
    pub click_nothing_deselect_all: bool,
    /// Whether the Ctrl and Shift keys drive multiselect.
    pub use_multiselect_default_inputs: bool,
}

impl SelectionPluginSettings {
    /// Whether the selection systems should run.
    pub fn should_run(&self) -> (r: bool)
        ensures
            r == self.is_enabled,
    {
        self.is_enabled
    }

    /// Whether the multiselect input system should run.
    pub fn multiselect_should_run(&self) -> (r: bool)
        ensures
            r == (self.use_multiselect_default_inputs && self.is_enabled),
    {
        self.use_multiselect_default_inputs && self.is_enabled
    }
}

impl Default for SelectionPluginSettings {
    fn default() -> (r: Self)
        ensures
            r.is_enabled,
            r.click_nothing_deselect_all,
            r.use_multiselect_default_inputs,
    {
        SelectionPluginSettings {
            is_enabled: true,
            click_nothing_deselect_all: true,
            use_multiselect_default_inputs: true,
        }
    }
}


/// Per-pointer multiselect flag: whether a multiselect modifier is held.
#[derive(Clone, Copy, Debug, Default, PartialEq, Eq, Structural)]
pub struct PointerMultiselect {
    /// `true` if a multiselect modifier is active.
    pub is_pressed: bool,
}

/// The selection mirror carried by each pickable entity.
#[derive(Clone, Copy, Debug, Default, PartialEq, Eq, Structural)]
pub struct PickSelection {
    /// `true` if the entity is selected.
    pub is_selected: bool,
}

/// Marks a pickable entity whose picking must not deselect the others (gizmos,
/// GUI overlays).
#[derive(Clone, Copy, Debug, Default, PartialEq, Eq, Structural)]
pub struct NoDeselect;

/// Fires when an entity has been selected.
#[derive(Clone, Copy, Debug, PartialEq, Eq, Structural)]
pub struct Select;

/// Fires when an entity has been deselected.
#[derive(Clone, Copy, Debug, PartialEq, Eq, Structural)]
pub struct Deselect;

/// A button went down over a target.
#[derive(Clone, Copy, Debug, PartialEq, Eq, Structural)]
pub struct Down {
    pub button: PointerButton,
}

/// A button was pressed and released over a target.
#[derive(Clone, Copy, Debug, PartialEq, Eq, Structural)]
pub struct Click {
    pub button: PointerButton,
}

/// A pointer event of kind `E` aimed at `target`, with the pointer's location `L`.
#[derive(Clone, Copy, Debug)]
pub struct Pointer<E, L> {
    pub target: Entity,
    pub pointer_id: PointerId,
    pub pointer_location: L,
    pub event: E,
}

/// What a pointer did this frame, whatever lies beneath it.
#[derive(Clone, Copy, Debug, PartialEq, Eq, Structural)]
pub enum PointerAction {
    Pressed(PointerButton),
    Released(PointerButton),
    Moved,
    Canceled,
}

/// Raw pointer input.
#[derive(Clone, Copy, Debug, PartialEq, Eq, Structural)]
pub struct PointerInput {
    pub pointer_id: PointerId,
    pub action: PointerAction,
}

impl PointerInput {
    pub open spec fn spec_button_just_pressed(&self, button: PointerButton) -> bool {
        self.action == PointerAction::Pressed(button)
    }

    /// Whether this input is a press of `button`.
    #[verifier::when_used_as_spec(spec_button_just_pressed)]
    pub fn button_just_pressed(&self, button: PointerButton) -> (r: bool)
        ensures
            r == self.spec_button_just_pressed(button),
    {
        self.action == PointerAction::Pressed(button)
    }
}

/// A pointer device as the pipeline sees it: its id, its multiselect flag and
/// its last known location, if any.
#[derive(Clone, Copy, Debug)]
pub struct PointerState<L> {
    pub id: PointerId,
    pub multiselect: PointerMultiselect,
    pub location: Option<L>,
}

/// A pickable entity and its selection mirror.
#[derive(Clone, Copy, Debug, PartialEq, Eq, Structural)]
pub struct Selectable {
    pub entity: Entity,
    pub selection: PickSelection,
}

/// A selection change, in the order it was sent.
#[derive(Clone, Copy, Debug)]
pub enum SelectionEvent<L> {
    Select(Pointer<Select, L>),
    Deselect(Pointer<Deselect, L>),
}

impl<L> SelectionEvent<L> {
    pub open spec fn spec_target(&self) -> Entity {
        match self {
            SelectionEvent::Select(p) => p.target,
            SelectionEvent::Deselect(p) => p.target,
        }
    }

    pub open spec fn spec_selects(&self) -> bool {
        *self is Select
    }

    /// The entity the event is about.
    #[verifier::when_used_as_spec(spec_target)]
    pub fn target(&self) -> (r: Entity)
        ensures
            r == self.spec_target(),
    {
        match self {
            SelectionEvent::Select(p) => p.target,
            SelectionEvent::Deselect(p) => p.target,
        }
    }

    /// Whether the event selects (rather than deselects) its target.
    #[verifier::when_used_as_spec(spec_selects)]
    pub fn selects(&self) -> (r: bool)
        ensures
            r == self.spec_selects(),
    {
        match self {
            SelectionEvent::Select(_) => true,
            SelectionEvent::Deselect(_) => false,
        }
    }
}

/// Whether `e` is selected after `events`, given whether it was before: the
/// last event about `e` decides.
pub open spec fn selected_after<L>(events: Seq<SelectionEvent<L>>, e: Entity, before: bool) -> bool
    decreases events.len(),
{
    if events.len() == 0 {
        before
    } else if events.last().target() == e {
        events.last().selects()
    } else {
        selected_after(events.drop_last(), e, before)
    }
}

/// The multiselect flag of the first pointer with id `id` from index `i` on;
/// `false` when there is none.
pub open spec fn multiselect_from<L>(pointers: Seq<PointerState<L>>, id: PointerId, i: int) -> bool
    decreases pointers.len() - i,
{
    if i < 0 || i >= pointers.len() {
        false
    } else if pointers[i].id == id {
        pointers[i].multiselect.is_pressed
    } else {
        multiselect_from(pointers, id, i + 1)
    }
}

/// The multiselect flag of the pointer with id `id` (`false` if it is unknown).
pub open spec fn multiselect_of<L>(pointers: Seq<PointerState<L>>, id: PointerId) -> bool {
    multiselect_from(pointers, id, 0)
}

/// The first pointer from index `i` on that has id `id` and a known location:
/// its multiselect flag and that location.
pub open spec fn located_from<L>(pointers: Seq<PointerState<L>>, id: PointerId, i: int) -> Option<(bool, L)>
    decreases pointers.len() - i,
{
    if i < 0 || i >= pointers.len() {
        None
    } else if pointers[i].id == id && pointers[i].location is Some {
        Some((pointers[i].multiselect.is_pressed, pointers[i].location->0))
    } else {
        located_from(pointers, id, i + 1)
    }
}

/// Deselect notifications, in order, for every selected entity of `sel` other
/// than `except`.
pub open spec fn deselect_all<L>(
    sel: Seq<Selectable>,
    except: Option<Entity>,
    id: PointerId,
    loc: L,
) -> Seq<SelectionEvent<L>>
    decreases sel.len(),
{
    if sel.len() == 0 {
        seq![]
    } else {
        let s = sel.last();
        let rest = deselect_all(sel.drop_last(), except, id, loc);
        if s.selection.is_selected && except != Some(s.entity) {
            rest.push(
                SelectionEvent::Deselect(
                    Pointer { target: s.entity, pointer_id: id, pointer_location: loc, event: Deselect },
                ),
            )
        } else {
            rest
        }
    }
}

/// What one button-down event sends: with multiselect inactive and a target
/// that may deselect, a deselect for every other selected entity.
pub open spec fn down_events_one<L>(
    d: Pointer<Down, L>,
    pointers: Seq<PointerState<L>>,
    no_deselect: Seq<Entity>,
    sel: Seq<Selectable>,
) -> Seq<SelectionEvent<L>> {
    if d.event.button == PointerButton::Primary && !multiselect_of(pointers, d.pointer_id)
        && !no_deselect.contains(d.target) {
        deselect_all(sel, Some(d.target), d.pointer_id, d.pointer_location)
    } else {
        seq![]
    }
}

/// What the button-down events send, in order.
pub open spec fn down_events<L>(
    downs: Seq<Pointer<Down, L>>,
    pointers: Seq<PointerState<L>>,
    no_deselect: Seq<Entity>,
    sel: Seq<Selectable>,
) -> Seq<SelectionEvent<L>>
    decreases downs.len(),
{
    if downs.len() == 0 {
        seq![]
    } else {
        down_events(downs.drop_last(), pointers, no_deselect, sel) + down_events_one(
            downs.last(),
            pointers,
            no_deselect,
            sel,
        )
    }
}

/// Whether pointer `id` pressed the primary button on some target this frame.
pub open spec fn pressed_on_target<L>(downs: Seq<Pointer<Down, L>>, id: PointerId) -> bool {
    exists|k: int|
        0 <= k < downs.len() && downs[k].pointer_id == id && downs[k].event.button
            == PointerButton::Primary
}

/// What one raw input sends: a primary press that landed on nothing, by a
/// located pointer without multiselect, deselects everything.
pub open spec fn empty_events_one<L>(
    input: PointerInput,
    downs: Seq<Pointer<Down, L>>,
    pointers: Seq<PointerState<L>>,
    sel: Seq<Selectable>,
) -> Seq<SelectionEvent<L>> {
    if input.button_just_pressed(PointerButton::Primary) {
        match located_from(pointers, input.pointer_id, 0) {
            Some((multi, loc)) => if !pressed_on_target(downs, input.pointer_id) && !multi {
                deselect_all(sel, None, input.pointer_id, loc)
            } else {
                seq![]
            },
            None => seq![],
        }
    } else {
        seq![]
    }
}

/// What the raw inputs send, in order.
pub open spec fn empty_events<L>(
    inputs: Seq<PointerInput>,
    downs: Seq<Pointer<Down, L>>,
    pointers: Seq<PointerState<L>>,
    sel: Seq<Selectable>,
) -> Seq<SelectionEvent<L>>
    decreases inputs.len(),
{
    if inputs.len() == 0 {
        seq![]
    } else {
        empty_events(inputs.drop_last(), downs, pointers, sel) + empty_events_one(
            inputs.last(),
            downs,
            pointers,
            sel,
        )
    }
}

/// The mirror of the first selectable from index `i` on whose entity is `e`.
pub open spec fn selectable_from(sel: Seq<Selectable>, e: Entity, i: int) -> Option<PickSelection>
    decreases sel.len() - i,
{
    if i < 0 || i >= sel.len() {
        None
    } else if sel[i].entity == e {
        Some(sel[i].selection)
    } else {
        selectable_from(sel, e, i + 1)
    }
}

/// What one click sends: with multiselect, a toggle of the target; without, a
/// select of the target unless it is selected already.
pub open spec fn click_events_one<L>(
    c: Pointer<Click, L>,
    pointers: Seq<PointerState<L>>,
    sel: Seq<Selectable>,
) -> Seq<SelectionEvent<L>> {
    let sel_ev = SelectionEvent::Select(
        Pointer {
            target: c.target,
            pointer_id: c.pointer_id,
            pointer_location: c.pointer_location,
            event: Select,
        },
    );
    let desel_ev = SelectionEvent::Deselect(
        Pointer {
            target: c.target,
            pointer_id: c.pointer_id,
            pointer_location: c.pointer_location,
            event: Deselect,
        },
    );
    if c.event.button != PointerButton::Primary {
        seq![]
    } else {
        match selectable_from(sel, c.target, 0) {
            None => seq![],
            Some(ps) => if multiselect_of(pointers, c.pointer_id) {
                if ps.is_selected {
                    seq![desel_ev]
                } else {
                    seq![sel_ev]
                }
            } else if !ps.is_selected {
                seq![sel_ev]
            } else {
                seq![]
            },
        }
    }
}

/// What the clicks send, in order.
pub open spec fn click_events<L>(
    clicks: Seq<Pointer<Click, L>>,
    pointers: Seq<PointerState<L>>,
    sel: Seq<Selectable>,
) -> Seq<SelectionEvent<L>>
    decreases clicks.len(),
{
    if clicks.len() == 0 {
        seq![]
    } else {
        click_events(clicks.drop_last(), pointers, sel) + click_events_one(
            clicks.last(),
            pointers,
            sel,
        )
    }
}

/// Everything one frame sends: the button-down deselections, then (where the
/// setting asks for it) the empty-press deselections, then the clicks.
pub open spec fn frame_events<L>(
    click_nothing_deselect_all: bool,
    downs: Seq<Pointer<Down, L>>,
    inputs: Seq<PointerInput>,
    clicks: Seq<Pointer<Click, L>>,
    pointers: Seq<PointerState<L>>,
    no_deselect: Seq<Entity>,
    sel: Seq<Selectable>,
) -> Seq<SelectionEvent<L>> {
    down_events(downs, pointers, no_deselect, sel) + (if click_nothing_deselect_all {
        empty_events(inputs, downs, pointers, sel)
    } else {
        seq![]
    }) + click_events(clicks, pointers, sel)
}


/// The multiselect flag of the pointer with id `id` (`false` if it is unknown).
fn find_multiselect<L: Copy>(pointers: &Vec<PointerState<L>>, id: PointerId) -> (r: bool)
    ensures
        r == multiselect_of(pointers@, id),
{
    let mut i: usize = 0;
    while i < pointers.len()
        invariant
            i <= pointers.len(),
            multiselect_from(pointers@, id, i as int) == multiselect_of(pointers@, id),
        decreases pointers.len() - i,
    {
        if pointers[i].id == id {
            return pointers[i].multiselect.is_pressed;
        }
        i += 1;
    }
    false
}

/// The first pointer with id `id` and a known location: its multiselect flag
/// and that location.
fn find_located<L: Copy>(pointers: &Vec<PointerState<L>>, id: PointerId) -> (r: Option<(bool, L)>)
    ensures
        r == located_from(pointers@, id, 0),
{
    let mut i: usize = 0;
    while i < pointers.len()
        invariant
            i <= pointers.len(),
            located_from(pointers@, id, i as int) == located_from(pointers@, id, 0),
        decreases pointers.len() - i,
    {
        let p = &pointers[i];
        if p.id == id {
            match p.location {
                Some(loc) => {
                    return Some((p.multiselect.is_pressed, loc));
                },
                None => {},
            }
        }
        i += 1;
    }
    None
}

/// The mirror of the entity `e`, if it is pickable.
fn find_selectable(sel: &Vec<Selectable>, e: Entity) -> (r: Option<PickSelection>)
    ensures
        r == selectable_from(sel@, e, 0),
{
    let mut i: usize = 0;
    while i < sel.len()
        invariant
            i <= sel.len(),
            selectable_from(sel@, e, i as int) == selectable_from(sel@, e, 0),
        decreases sel.len() - i,
    {
        if sel[i].entity == e {
            return Some(sel[i].selection);
        }
        i += 1;
    }
    None
}

fn contains_entity(v: &Vec<Entity>, e: Entity) -> (r: bool)
    ensures
        r == v@.contains(e),
{
    let mut i: usize = 0;
    while i < v.len()
        invariant
            i <= v.len(),
            forall|k: int| 0 <= k < i ==> v@[k] != e,
        decreases v.len() - i,
    {
        if v[i] == e {
            return true;
        }
        i += 1;
    }
    false
}

fn contains_pointer(v: &Vec<PointerId>, id: PointerId) -> (r: bool)
    ensures
        r == v@.contains(id),
{
    let mut i: usize = 0;
    while i < v.len()
        invariant
            i <= v.len(),
            forall|k: int| 0 <= k < i ==> v@[k] != id,
        decreases v.len() - i,
    {
        if v[i] == id {
            return true;
        }
        i += 1;
    }
    false
}

/// Appends a deselect for every selected entity of `sel` other than `except`.
fn push_deselect_all<L: Copy>(
    out: &mut Vec<SelectionEvent<L>>,
    sel: &Vec<Selectable>,
    except: Option<Entity>,
    id: PointerId,
    loc: L,
)
    ensures
        final(out)@ == old(out)@ + deselect_all(sel@, except, id, loc),
{
    let ghost start = out@;
    let mut i: usize = 0;
    while i < sel.len()
        invariant
            i <= sel.len(),
            out@ == start + deselect_all(sel@.take(i as int), except, id, loc),
        decreases sel.len() - i,
    {
        let s = sel[i];
        proof {
            assert(sel@.take(i + 1).drop_last() =~= sel@.take(i as int));
            assert(sel@.take(i + 1).last() == s);
        }
        let keep = match except {
            Some(x) => x != s.entity,
            None => true,
        };
        if s.selection.is_selected && keep {
            out.push(
                SelectionEvent::Deselect(
                    Pointer { target: s.entity, pointer_id: id, pointer_location: loc, event: Deselect },
                ),
            );
        }
        proof {
            assert(out@ =~= start + deselect_all(sel@.take(i + 1), except, id, loc));
        }
        i += 1;
    }
    proof {
        assert(sel@.take(sel@.len() as int) =~= sel@);
    }
}

/// Determines which entities this frame selects or deselects, from the
/// primary-button downs, the raw inputs and the clicks, and returns the
/// notifications in the order they are sent.
pub fn send_selection_events<L: Copy>(
    settings: &SelectionPluginSettings,
    pointer_down: &Vec<Pointer<Down, L>>,
    pointer_input: &Vec<PointerInput>,
    pointer_click: &Vec<Pointer<Click, L>>,
    pointers: &Vec<PointerState<L>>,
    no_deselect: &Vec<Entity>,
    selectables: &Vec<Selectable>,
) -> (out: Vec<SelectionEvent<L>>)
    ensures
        out@ == frame_events(
            settings.click_nothing_deselect_all,
            pointer_down@,
            pointer_input@,
            pointer_click@,
            pointers@,
            no_deselect@,
            selectables@,
        ),
{
    let ghost downs = pointer_down@;
    let ghost ps = pointers@;
    let ghost nd = no_deselect@;
    let ghost sel = selectables@;
    let mut out: Vec<SelectionEvent<L>> = Vec::new();
    // Pointers that pressed on something.
    let mut pointer_down_list: Vec<PointerId> = Vec::new();
    let mut i: usize = 0;
    while i < pointer_down.len()
        invariant
            i <= pointer_down.len(),
            downs == pointer_down@,
            ps == pointers@,
            nd == no_deselect@,
            sel == selectables@,
            out@ == down_events(downs.take(i as int), ps, nd, sel),
            forall|id: PointerId|
                pointer_down_list@.contains(id) <==> pressed_on_target(downs.take(i as int), id),
        decreases pointer_down.len() - i,
    {
        let d = pointer_down[i];
        proof {
            assert(downs.take(i + 1).drop_last() =~= downs.take(i as int));
            assert(downs.take(i + 1).last() == d);
        }
        let ghost before = out@;
        let ghost list_before = pointer_down_list@;
        if d.event.button == PointerButton::Primary {
            pointer_down_list.push(d.pointer_id);
            let multiselect = find_multiselect(pointers, d.pointer_id);
            let target_can_deselect = !contains_entity(no_deselect, d.target);
            if !multiselect && target_can_deselect {
                push_deselect_all(&mut out, selectables, Some(d.target), d.pointer_id, d.pointer_location);
            }
        }
        proof {
            assert(out@ =~= before + down_events_one(d, ps, nd, sel));
            assert forall|id: PointerId|
                pointer_down_list@.contains(id) <==> pressed_on_target(downs.take(i + 1), id) by {
                let t = downs.take(i + 1);
                let p = downs.take(i as int);
                let primary = d.event.button == PointerButton::Primary;
                if primary {
                    assert(pointer_down_list@ == list_before.push(d.pointer_id));
                    assert(pointer_down_list@.contains(id) <==> (list_before.contains(id) || d.pointer_id == id)) by {
                        if list_before.contains(id) {
                            let w = choose|w: int| 0 <= w < list_before.len() && list_before[w] == id;
                            assert(pointer_down_list@[w] == id);
                        }
                        if d.pointer_id == id {
                            assert(pointer_down_list@[list_before.len() as int] == id);
                        }
                        if pointer_down_list@.contains(id) {
                            let w = choose|w: int| 0 <= w < pointer_down_list@.len() && pointer_down_list@[w] == id;
                            if w < list_before.len() {
                                assert(list_before[w] == id);
                            }
                        }
                    }
                } else {
                    assert(pointer_down_list@ == list_before);
                }
                if pressed_on_target(p, id) {
                    let k = choose|k: int|
                        0 <= k < p.len() && p[k].pointer_id == id && p[k].event.button == PointerButton::Primary;
                    assert(t[k] == p[k]);
                }
                if primary && d.pointer_id == id {
                    assert(t[i as int] == d);
                }
                if pressed_on_target(t, id) {
                    let k = choose|k: int|
                        0 <= k < t.len() && t[k].pointer_id == id && t[k].event.button == PointerButton::Primary;
                    if k < i {
                        assert(p[k] == t[k]);
                    } else {
                        assert(t[k] == d);
                    }
                }
            }
        }
        i += 1;
    }
    proof {
        assert(downs.take(downs.len() as int) =~= downs);
    }
    let ghost after_downs = out@;
    let ghost inputs = pointer_input@;
    // A pointer that pressed on nothing deselects everything.
    if settings.click_nothing_deselect_all {
        let mut j: usize = 0;
        while j < pointer_input.len()
            invariant
                j <= pointer_input.len(),
                inputs == pointer_input@,
                downs == pointer_down@,
                ps == pointers@,
                sel == selectables@,
                forall|id: PointerId| pointer_down_list@.contains(id) <==> pressed_on_target(downs, id),
                out@ == after_downs + empty_events(inputs.take(j as int), downs, ps, sel),
            decreases pointer_input.len() - j,
        {
            let input = pointer_input[j];
            proof {
                assert(inputs.take(j + 1).drop_last() =~= inputs.take(j as int));
                assert(inputs.take(j + 1).last() == input);
            }
            let ghost before = out@;
            if input.button_just_pressed(PointerButton::Primary) {
                let id = input.pointer_id;
                match find_located(pointers, id) {
                    Some((multiselect, location)) => {
                        if !contains_pointer(&pointer_down_list, id) && !multiselect {
                            push_deselect_all(&mut out, selectables, None, id, location);
                        }
                    },
                    None => {},
                }
            }
            proof {
                assert(out@ =~= before + empty_events_one(input, downs, ps, sel));
                assert(out@ =~= after_downs + empty_events(inputs.take(j + 1), downs, ps, sel));
            }
            j += 1;
        }
        proof {
            assert(inputs.take(inputs.len() as int) =~= inputs);
        }
    }
    let ghost after_empty = out@;
    let ghost clicks = pointer_click@;
    let mut k: usize = 0;
    while k < pointer_click.len()
        invariant
            k <= pointer_click.len(),
            clicks == pointer_click@,
            ps == pointers@,
            sel == selectables@,
            out@ == after_empty + click_events(clicks.take(k as int), ps, sel),
        decreases pointer_click.len() - k,
    {
        let c = pointer_click[k];
        proof {
            assert(clicks.take(k + 1).drop_last() =~= clicks.take(k as int));
            assert(clicks.take(k + 1).last() == c);
        }
        let ghost before = out@;
        if c.event.button == PointerButton::Primary {
            let multiselect = find_multiselect(pointers, c.pointer_id);
            match find_selectable(selectables, c.target) {
                Some(selection) => {
                    let select = SelectionEvent::Select(
                        Pointer {
                            target: c.target,
                            pointer_id: c.pointer_id,
                            pointer_location: c.pointer_location,
                            event: Select,
                        },
                    );
                    let deselect = SelectionEvent::Deselect(
                        Pointer {
                            target: c.target,
                            pointer_id: c.pointer_id,
                            pointer_location: c.pointer_location,
                            event: Deselect,
                        },
                    );
                    if multiselect {
                        if selection.is_selected {
                            out.push(deselect);
                        } else {
                            out.push(select);
                        }
                    } else if !selection.is_selected {
                        out.push(select);
                    }
                },
                None => {},
            }
        }
        proof {
            assert(out@ =~= before + click_events_one(c, ps, sel));
            assert(out@ =~= after_empty + click_events(clicks.take(k + 1), ps, sel));
        }
        k += 1;
    }
    proof {
        assert(clicks.take(clicks.len() as int) =~= clicks);
        assert(out@ =~= frame_events(
            settings.click_nothing_deselect_all,
            downs,
            inputs,
            clicks,
            ps,
            nd,
            sel,
        ));
    }
    out
}


/// The mirrors of `sel` after `events`: each entity's flag follows the last
/// event about it.
pub open spec fn mirror_after<L>(events: Seq<SelectionEvent<L>>, sel: Seq<Selectable>) -> Seq<Selectable> {
    Seq::new(
        sel.len(),
        |i: int|
            Selectable {
                entity: sel[i].entity,
                selection: PickSelection {
                    is_selected: selected_after(events, sel[i].entity, sel[i].selection.is_selected),
                },
            },
    )
}

/// Updates the selection mirrors from the notifications, in the order they
/// were sent: a select sets the target's flag, a deselect clears it.
pub fn update_state_from_events<L: Copy>(
    selectables: &mut Vec<Selectable>,
    events: &Vec<SelectionEvent<L>>,
)
    ensures
        final(selectables)@ == mirror_after(events@, old(selectables)@),
{
    let ghost start = selectables@;
    let mut j: usize = 0;
    while j < events.len()
        invariant
            j <= events.len(),
            selectables@.len() == start.len(),
            selectables@ == mirror_after(events@.take(j as int), start),
        decreases events.len() - j,
    {
        let target = events[j].target();
        let selects = events[j].selects();
        let ghost done = events@.take(j as int);
        let ghost next = events@.take(j + 1);
        proof {
            assert(next.drop_last() =~= done);
        }
        let mut m: usize = 0;
        while m < selectables.len()
            invariant
                j < events.len(),
                m <= selectables@.len(),
                selectables@.len() == start.len(),
                target == events@[j as int].target(),
                selects == events@[j as int].selects(),
                next == events@.take(j + 1),
                done == events@.take(j as int),
                next.drop_last() == done,
                forall|k: int|
                    0 <= k < m ==> #[trigger] selectables@[k] == mirror_after(next, start)[k],
                forall|k: int|
                    m <= k < selectables@.len() ==> #[trigger] selectables@[k] == mirror_after(done, start)[k],
            decreases selectables.len() - m,
        {
            let s = selectables[m];
            if s.entity == target {
                selectables.set(m, Selectable { entity: s.entity, selection: PickSelection { is_selected: selects } });
            }
            proof {
                let e = start[m as int].entity;
                let b = start[m as int].selection.is_selected;
                assert(next.len() > 0);
                assert(selected_after(next, e, b) == if next.last().target() == e {
                    next.last().selects()
                } else {
                    selected_after(next.drop_last(), e, b)
                });
                assert(selectables@[m as int] == mirror_after(next, start)[m as int]);
            }
            m += 1;
        }
        proof {
            assert(selectables@ =~= mirror_after(next, start));
        }
        j += 1;
    }
    proof {
        assert(events@.take(events@.len() as int) =~= events@);
    }
}

/// A world entity as selection setup sees it: whether it is visible, and its
/// selection mirror if it has one.
#[derive(Clone, Copy, Debug, PartialEq, Eq, Structural)]
pub struct PickableCandidate {
    pub visible: bool,
    pub selection: Option<PickSelection>,
}

/// Makes every visible entity pickable: one without a selection mirror gets
/// an unselected one.
pub fn add_selection(entities: &mut Vec<PickableCandidate>)
    ensures
        final(entities)@.len() == old(entities)@.len(),
        forall|i: int|
            0 <= i < final(entities)@.len() ==> #[trigger] final(entities)@[i] == if old(entities)@[i].visible
                && old(entities)@[i].selection is None {
                PickableCandidate { visible: true, selection: Some(PickSelection { is_selected: false }) }
            } else {
                old(entities)@[i]
            },
{
    let ghost start = entities@;
    let mut i: usize = 0;
    while i < entities.len()
        invariant
            i <= entities@.len(),
            entities@.len() == start.len(),
            forall|k: int| i <= k < entities@.len() ==> #[trigger] entities@[k] == start[k],
            forall|k: int|
                0 <= k < i ==> #[trigger] entities@[k] == if start[k].visible && start[k].selection is None {
                    PickableCandidate { visible: true, selection: Some(PickSelection { is_selected: false }) }
                } else {
                    start[k]
                },
        decreases entities.len() - i,
    {
        let c = entities[i];
        if c.visible && c.selection.is_none() {
            entities.set(i, PickableCandidate { visible: true, selection: Some(PickSelection { is_selected: false }) });
        }
        i += 1;
    }
}

/// A key of the keyboard, as far as the editor reads it.
#[derive(Clone, Copy, Debug, PartialEq, Eq, Structural, Hash)]
pub enum KeyCode {
    ControlLeft,
    ControlRight,
    ShiftLeft,
    ShiftRight,
    KeyA,
    KeyD,
    KeyE,
    KeyQ,
    KeyR,
    KeyS,
    KeyT,
    KeyW,
    Other(u32),
}

/// The keys that hold multiselect: both Control and both Shift keys.
pub open spec fn is_multiselect_key(k: KeyCode) -> bool {
    k == KeyCode::ControlLeft || k == KeyCode::ControlRight || k == KeyCode::ShiftLeft || k
        == KeyCode::ShiftRight
}

/// Whether any multiselect key is among the pressed keys.
pub fn is_multiselect_pressed(pressed: &Vec<KeyCode>) -> (r: bool)
    ensures
        r == exists|k: int| 0 <= k < pressed@.len() && is_multiselect_key(#[trigger] pressed@[k]),
{
    let mut i: usize = 0;
    while i < pressed.len()
        invariant
            i <= pressed.len(),
            forall|k: int| 0 <= k < i ==> !is_multiselect_key(#[trigger] pressed@[k]),
        decreases pressed.len() - i,
    {
        let k = pressed[i];
        if k == KeyCode::ControlLeft || k == KeyCode::ControlRight || k == KeyCode::ShiftLeft || k
            == KeyCode::ShiftRight {
            return true;
        }
        i += 1;
    }
    false
}

/// Sets every pointer's multiselect flag from the keyboard: active when any
/// Control or Shift key is pressed.
pub fn multiselect_events(pressed: &Vec<KeyCode>, pointers: &mut Vec<PointerMultiselect>)
    ensures
        final(pointers)@.len() == old(pointers)@.len(),
        forall|i: int|
            0 <= i < final(pointers)@.len() ==> #[trigger] final(pointers)@[i].is_pressed == exists|k: int|
                0 <= k < pressed@.len() && is_multiselect_key(#[trigger] pressed@[k]),
{
    let is_pressed = is_multiselect_pressed(pressed);
    let ghost n = pointers@.len();
    let mut i: usize = 0;
    while i < pointers.len()
        invariant
            i <= pointers@.len(),
            pointers@.len() == n,
            forall|k: int| 0 <= k < i ==> #[trigger] pointers@[k].is_pressed == is_pressed,
        decreases pointers.len() - i,
    {
        pointers.set(i, PointerMultiselect { is_pressed });
        i += 1;
    }
}

/// Gives every pointer that lacks one a default (inactive) multiselect flag.
pub fn add_required_components(pointers: &mut Vec<Option<PointerMultiselect>>)
    ensures
        final(pointers)@.len() == old(pointers)@.len(),
        forall|i: int|
            0 <= i < final(pointers)@.len() ==> #[trigger] final(pointers)@[i] == match old(pointers)@[i] {
                Some(m) => Some(m),
                None => Some(PointerMultiselect { is_pressed: false }),
            },
{
    let ghost start = pointers@;
    let mut i: usize = 0;
    while i < pointers.len()
        invariant
            i <= pointers@.len(),
            pointers@.len() == start.len(),
            forall|k: int| i <= k < pointers@.len() ==> #[trigger] pointers@[k] == start[k],
            forall|k: int|
                0 <= k < i ==> #[trigger] pointers@[k] == match start[k] {
                    Some(m) => Some(m),
                    None => Some(PointerMultiselect { is_pressed: false }),
                },
        decreases pointers.len() - i,
    {
        if pointers[i].is_none() {
            pointers.set(i, Some(PointerMultiselect { is_pressed: false }));
        }
        i += 1;
    }
}


/// The deselections sent for one press are exactly those of the selected
/// pickable entities other than `except`: each is a deselect by pointer `id`
/// at `loc`, and every such entity gets one.
pub proof fn lemma_deselect_all_members<L>(sel: Seq<Selectable>, except: Option<Entity>, id: PointerId, loc: L)
    ensures
        ({
            let ev = deselect_all(sel, except, id, loc);
            &&& forall|k: int| 0 <= k < ev.len() ==> exists|j: int|
                0 <= j < sel.len() && sel[j].selection.is_selected && except != Some(sel[j].entity)
                    && #[trigger] ev[k] == SelectionEvent::Deselect(
                    Pointer { target: sel[j].entity, pointer_id: id, pointer_location: loc, event: Deselect },
                )
            &&& forall|j: int|
                0 <= j < sel.len() && #[trigger] sel[j].selection.is_selected && except != Some(sel[j].entity)
                    ==> exists|k: int| 0 <= k < ev.len() && ev[k] == SelectionEvent::Deselect(
                    Pointer { target: sel[j].entity, pointer_id: id, pointer_location: loc, event: Deselect },
                )
        }),
    decreases sel.len(),
{
    if sel.len() > 0 {
        let init = sel.drop_last();
        lemma_deselect_all_members(init, except, id, loc);
        let rest = deselect_all(init, except, id, loc);
        let ev = deselect_all(sel, except, id, loc);
        let s = sel.last();
        let n = sel.len() - 1;
        assert forall|k: int| 0 <= k < ev.len() implies exists|j: int|
            0 <= j < sel.len() && sel[j].selection.is_selected && except != Some(sel[j].entity)
                && #[trigger] ev[k] == SelectionEvent::Deselect(
                Pointer { target: sel[j].entity, pointer_id: id, pointer_location: loc, event: Deselect },
            ) by {
            if k < rest.len() {
                assert(ev[k] == rest[k]);
                let j = choose|j: int|
                    0 <= j < init.len() && init[j].selection.is_selected && except != Some(init[j].entity)
                        && rest[k] == SelectionEvent::Deselect(
                        Pointer { target: init[j].entity, pointer_id: id, pointer_location: loc, event: Deselect },
                    );
                assert(sel[j] == init[j]);
            } else {
                assert(sel[n] == s);
            }
        }
        assert forall|j: int|
            0 <= j < sel.len() && #[trigger] sel[j].selection.is_selected && except != Some(sel[j].entity)
                implies exists|k: int| 0 <= k < ev.len() && ev[k] == SelectionEvent::Deselect(
                Pointer { target: sel[j].entity, pointer_id: id, pointer_location: loc, event: Deselect },
            ) by {
            if j < n {
                assert(init[j] == sel[j]);
                assert(init[j].selection.is_selected);
                let k = choose|k: int| 0 <= k < rest.len() && rest[k] == SelectionEvent::Deselect(
                    Pointer { target: init[j].entity, pointer_id: id, pointer_location: loc, event: Deselect },
                );
                assert(ev[k] == rest[k]);
            } else {
                assert(ev[rest.len() as int] == SelectionEvent::Deselect(
                    Pointer { target: s.entity, pointer_id: id, pointer_location: loc, event: Deselect },
                ));
            }
        }
    }
}

/// The pickable entity `t` has one selection mirror: at most one entry names it.
pub open spec fn listed_once(sel: Seq<Selectable>, t: Entity) -> bool {
    forall|a: int, b: int|
        0 <= a < sel.len() && 0 <= b < sel.len() && #[trigger] sel[a].entity == t && #[trigger] sel[b].entity
            == t ==> a == b
}

/// A primary-button press by pointer `id` on `t`.
pub open spec fn primary_down<L>(t: Entity, id: PointerId, loc: L) -> Pointer<Down, L> {
    Pointer { target: t, pointer_id: id, pointer_location: loc, event: Down { button: PointerButton::Primary } }
}

/// A primary-button click by pointer `id` on `t`.
pub open spec fn primary_click<L>(t: Entity, id: PointerId, loc: L) -> Pointer<Click, L> {
    Pointer { target: t, pointer_id: id, pointer_location: loc, event: Click { button: PointerButton::Primary } }
}

proof fn lemma_selected_after_concat<L>(
    a: Seq<SelectionEvent<L>>,
    b: Seq<SelectionEvent<L>>,
    e: Entity,
    before: bool,
)
    ensures
        selected_after(a + b, e, before) == selected_after(b, e, selected_after(a, e, before)),
    decreases b.len(),
{
    if b.len() == 0 {
        assert(a + b =~= a);
    } else {
        assert((a + b).drop_last() =~= a + b.drop_last());
        assert((a + b).last() == b.last());
        lemma_selected_after_concat(a, b.drop_last(), e, before);
    }
}

proof fn lemma_deselect_all<L>(
    sel: Seq<Selectable>,
    except: Option<Entity>,
    id: PointerId,
    loc: L,
    e: Entity,
    before: bool,
)
    ensures
        selected_after(deselect_all(sel, except, id, loc), e, before) == if except != Some(e) && exists|j: int|
            0 <= j < sel.len() && sel[j].entity == e && sel[j].selection.is_selected {
            false
        } else {
            before
        },
    decreases sel.len(),
{
    if sel.len() > 0 {
        let s = sel.last();
        let init = sel.drop_last();
        let rest = deselect_all(init, except, id, loc);
        lemma_deselect_all(init, except, id, loc, e, before);
        if s.selection.is_selected && except != Some(s.entity) {
            let ev = SelectionEvent::Deselect(
                Pointer { target: s.entity, pointer_id: id, pointer_location: loc, event: Deselect },
            );
            assert(rest.push(ev).drop_last() =~= rest);
        }
        if exists|j: int| 0 <= j < init.len() && init[j].entity == e && init[j].selection.is_selected {
            let j = choose|j: int| 0 <= j < init.len() && init[j].entity == e && init[j].selection.is_selected;
            assert(sel[j] == init[j]);
        }
        if exists|j: int| 0 <= j < sel.len() && sel[j].entity == e && sel[j].selection.is_selected {
            let j = choose|j: int| 0 <= j < sel.len() && sel[j].entity == e && sel[j].selection.is_selected;
            if j < init.len() {
                assert(init[j] == sel[j]);
            }
        }
    }
}

proof fn lemma_selectable_from(sel: Seq<Selectable>, e: Entity, j: int, i: int)
    requires
        0 <= j <= i < sel.len(),
        sel[i].entity == e,
        forall|k: int| j <= k < i ==> sel[k].entity != e,
    ensures
        selectable_from(sel, e, j) == Some(sel[i].selection),
    decreases i - j,
{
    if j < i {
        lemma_selectable_from(sel, e, j + 1, i);
    }
}

proof fn lemma_no_empty_events<L>(
    inputs: Seq<PointerInput>,
    downs: Seq<Pointer<Down, L>>,
    pointers: Seq<PointerState<L>>,
    sel: Seq<Selectable>,
    id: PointerId,
)
    requires
        pressed_on_target(downs, id),
        forall|k: int| 0 <= k < inputs.len() ==> #[trigger] inputs[k].pointer_id == id,
    ensures
        empty_events(inputs, downs, pointers, sel) == Seq::<SelectionEvent<L>>::empty(),
    decreases inputs.len(),
{
    if inputs.len() > 0 {
        let init = inputs.drop_last();
        assert forall|k: int| 0 <= k < init.len() implies #[trigger] init[k].pointer_id == id by {
            assert(init[k] == inputs[k]);
        }
        lemma_no_empty_events(init, downs, pointers, sel, id);
        assert(inputs[inputs.len() - 1].pointer_id == id);
        assert(empty_events_one(inputs.last(), downs, pointers, sel) =~= seq![]);
        assert(Seq::<SelectionEvent<L>>::empty() + Seq::<SelectionEvent<L>>::empty() =~= Seq::<
            SelectionEvent<L>,
        >::empty());
    }
}

/// The events of a frame in which pointer `id` pressed and clicked the primary
/// button on `t`, with `inputs` as that pointer's raw input.
pub open spec fn click_frame<L>(
    click_nothing_deselect_all: bool,
    t: Entity,
    id: PointerId,
    loc: L,
    inputs: Seq<PointerInput>,
    pointers: Seq<PointerState<L>>,
    no_deselect: Seq<Entity>,
    sel: Seq<Selectable>,
) -> Seq<SelectionEvent<L>> {
    frame_events(
        click_nothing_deselect_all,
        seq![primary_down(t, id, loc)],
        inputs,
        seq![primary_click(t, id, loc)],
        pointers,
        no_deselect,
        sel,
    )
}

proof fn lemma_click_frame_parts<L>(
    flag: bool,
    t: Entity,
    id: PointerId,
    loc: L,
    inputs: Seq<PointerInput>,
    pointers: Seq<PointerState<L>>,
    no_deselect: Seq<Entity>,
    sel: Seq<Selectable>,
    e: Entity,
    before: bool,
)
    requires
        forall|k: int| 0 <= k < inputs.len() ==> #[trigger] inputs[k].pointer_id == id,
    ensures
        selected_after(click_frame(flag, t, id, loc, inputs, pointers, no_deselect, sel), e, before)
            == selected_after(
            click_events_one(primary_click(t, id, loc), pointers, sel),
            e,
            selected_after(down_events_one(primary_down(t, id, loc), pointers, no_deselect, sel), e, before),
        ),
        click_frame(flag, t, id, loc, inputs, pointers, no_deselect, sel) == down_events_one(
            primary_down(t, id, loc),
            pointers,
            no_deselect,
            sel,
        ) + click_events_one(primary_click(t, id, loc), pointers, sel),
{
    let downs = seq![primary_down(t, id, loc)];
    let clicks = seq![primary_click(t, id, loc)];
    assert(downs.drop_last() =~= Seq::<Pointer<Down, L>>::empty());
    assert(clicks.drop_last() =~= Seq::<Pointer<Click, L>>::empty());
    let d = down_events(downs, pointers, no_deselect, sel);
    let c = click_events(clicks, pointers, sel);
    assert(downs.last() == primary_down(t, id, loc));
    assert(clicks.last() == primary_click(t, id, loc));
    assert(down_events(Seq::<Pointer<Down, L>>::empty(), pointers, no_deselect, sel) =~= seq![]);
    assert(click_events(Seq::<Pointer<Click, L>>::empty(), pointers, sel) =~= seq![]);
    assert(d =~= down_events_one(primary_down(t, id, loc), pointers, no_deselect, sel));
    assert(c =~= click_events_one(primary_click(t, id, loc), pointers, sel));
    assert(downs[0].pointer_id == id);
    assert(pressed_on_target(downs, id));
    lemma_no_empty_events(inputs, downs, pointers, sel, id);
    let m = if flag {
        empty_events(inputs, downs, pointers, sel)
    } else {
        seq![]
    };
    assert(m =~= Seq::<SelectionEvent<L>>::empty());
    assert(d + m =~= d);
    lemma_selected_after_concat(d + m, c, e, before);
    assert(click_frame(flag, t, id, loc, inputs, pointers, no_deselect, sel) == d + m + c);
}

/// Clicking a pickable entity `t` that may deselect, without multiselect,
/// leaves `t` selected and every other pickable entity deselected.
pub proof fn lemma_click_selects_only_target<L>(
    click_nothing_deselect_all: bool,
    t: Entity,
    id: PointerId,
    loc: L,
    inputs: Seq<PointerInput>,
    pointers: Seq<PointerState<L>>,
    no_deselect: Seq<Entity>,
    sel: Seq<Selectable>,
)
    requires
        !multiselect_of(pointers, id),
        !no_deselect.contains(t),
        exists|i: int| 0 <= i < sel.len() && sel[i].entity == t,
        listed_once(sel, t),
        forall|k: int| 0 <= k < inputs.len() ==> #[trigger] inputs[k].pointer_id == id,
    ensures
        ({
            let after = mirror_after(
                click_frame(click_nothing_deselect_all, t, id, loc, inputs, pointers, no_deselect, sel),
                sel,
            );
            forall|m: int| 0 <= m < sel.len() ==> #[trigger] after[m].selection.is_selected == (sel[m].entity == t)
        }),
        ({
            let ti = choose|i: int| 0 <= i < sel.len() && sel[i].entity == t;
            click_frame(click_nothing_deselect_all, t, id, loc, inputs, pointers, no_deselect, sel)
                == deselect_all(sel, Some(t), id, loc) + if sel[ti].selection.is_selected {
                Seq::<SelectionEvent<L>>::empty()
            } else {
                seq![SelectionEvent::Select(Pointer { target: t, pointer_id: id, pointer_location: loc, event: Select })]
            }
        }),
{
    let ti = choose|i: int| 0 <= i < sel.len() && sel[i].entity == t;
    lemma_selectable_from(sel, t, 0, ti);
    lemma_click_frame_parts(click_nothing_deselect_all, t, id, loc, inputs, pointers, no_deselect, sel, t, false);
    assert(click_events_one(primary_click(t, id, loc), pointers, sel) =~= if sel[ti].selection.is_selected {
        Seq::<SelectionEvent<L>>::empty()
    } else {
        seq![SelectionEvent::Select(Pointer { target: t, pointer_id: id, pointer_location: loc, event: Select })]
    });
    let events = click_frame(click_nothing_deselect_all, t, id, loc, inputs, pointers, no_deselect, sel);
    assert forall|m: int| 0 <= m < sel.len() implies #[trigger] mirror_after(events, sel)[m].selection.is_selected
        == (sel[m].entity == t) by {
        let e = sel[m].entity;
        let b = sel[m].selection.is_selected;
        lemma_click_frame_parts(click_nothing_deselect_all, t, id, loc, inputs, pointers, no_deselect, sel, e, b);
        lemma_deselect_all(sel, Some(t), id, loc, e, b);
        let after_down = selected_after(down_events_one(primary_down(t, id, loc), pointers, no_deselect, sel), e, b);
        let cl = click_events_one(primary_click(t, id, loc), pointers, sel);
        if cl.len() > 0 {
            assert(cl.drop_last() =~= Seq::<SelectionEvent<L>>::empty());
        }
        if e == t {
            assert(m == ti);
            assert(after_down == b);
            if b {
                assert(cl =~= Seq::<SelectionEvent<L>>::empty());
            } else {
                assert(cl.len() == 1);
                assert(cl.last().target() == t && cl.last().selects());
            }
        } else {
            if b {
                assert(sel[m].entity == e && sel[m].selection.is_selected);
            }
            assert(!after_down);
            if cl.len() > 0 {
                assert(cl.len() == 1);
                assert(cl.last().target() == t);
                assert(selected_after(cl.drop_last(), e, after_down) == after_down);
            }
        }
        assert(selected_after(cl, e, after_down) == (e == t));
        assert(mirror_after(events, sel)[m].selection.is_selected == selected_after(events, e, b));
    }
}

/// Clicking `t` with multiselect active toggles it and leaves every other
/// pickable entity as it was.
pub proof fn lemma_multiselect_click_toggles<L>(
    click_nothing_deselect_all: bool,
    t: Entity,
    id: PointerId,
    loc: L,
    inputs: Seq<PointerInput>,
    pointers: Seq<PointerState<L>>,
    no_deselect: Seq<Entity>,
    sel: Seq<Selectable>,
)
    requires
        multiselect_of(pointers, id),
        exists|i: int| 0 <= i < sel.len() && sel[i].entity == t,
        listed_once(sel, t),
        forall|k: int| 0 <= k < inputs.len() ==> #[trigger] inputs[k].pointer_id == id,
    ensures
        ({
            let after = mirror_after(
                click_frame(click_nothing_deselect_all, t, id, loc, inputs, pointers, no_deselect, sel),
                sel,
            );
            forall|m: int|
                0 <= m < sel.len() ==> #[trigger] after[m].selection.is_selected == if sel[m].entity == t {
                    !sel[m].selection.is_selected
                } else {
                    sel[m].selection.is_selected
                }
        }),
        ({
            let ti = choose|i: int| 0 <= i < sel.len() && sel[i].entity == t;
            click_frame(click_nothing_deselect_all, t, id, loc, inputs, pointers, no_deselect, sel) == if sel[ti].selection.is_selected {
                seq![SelectionEvent::Deselect(Pointer { target: t, pointer_id: id, pointer_location: loc, event: Deselect })]
            } else {
                seq![SelectionEvent::Select(Pointer { target: t, pointer_id: id, pointer_location: loc, event: Select })]
            }
        }),
{
    let ti = choose|i: int| 0 <= i < sel.len() && sel[i].entity == t;
    lemma_selectable_from(sel, t, 0, ti);
    lemma_click_frame_parts(click_nothing_deselect_all, t, id, loc, inputs, pointers, no_deselect, sel, t, false);
    assert(down_events_one(primary_down(t, id, loc), pointers, no_deselect, sel) =~= Seq::<SelectionEvent<L>>::empty());
    assert(click_frame(click_nothing_deselect_all, t, id, loc, inputs, pointers, no_deselect, sel) =~= click_events_one(
        primary_click(t, id, loc),
        pointers,
        sel,
    ));
    let events = click_frame(click_nothing_deselect_all, t, id, loc, inputs, pointers, no_deselect, sel);
    assert forall|m: int| 0 <= m < sel.len() implies #[trigger] mirror_after(events, sel)[m].selection.is_selected
        == if sel[m].entity == t {
        !sel[m].selection.is_selected
    } else {
        sel[m].selection.is_selected
    } by {
        let e = sel[m].entity;
        let b = sel[m].selection.is_selected;
        lemma_click_frame_parts(click_nothing_deselect_all, t, id, loc, inputs, pointers, no_deselect, sel, e, b);
        let cl = click_events_one(primary_click(t, id, loc), pointers, sel);
        assert(cl.len() == 1);
        assert(cl.drop_last() =~= Seq::<SelectionEvent<L>>::empty());
        if e == t {
            assert(m == ti);
        }
    }
}

/// The mirror and the selected set agree after any sequence of notifications
/// when they agreed before: every pickable entity's flag equals its membership.
pub proof fn lemma_mirror_consistency<L>(
    events: Seq<SelectionEvent<L>>,
    sel: Seq<Selectable>,
    selected: Seq<Entity>,
)
    requires
        forall|i: int|
            0 <= i < sel.len() ==> #[trigger] sel[i].selection.is_selected == selected.contains(sel[i].entity),
    ensures
        ({
            let after = mirror_after(events, sel);
            forall|i: int|
                0 <= i < after.len() ==> #[trigger] after[i].selection.is_selected == selected_after(
                    events,
                    after[i].entity,
                    selected.contains(after[i].entity),
                )
        }),
{
}

/// A primary press that lands on nothing, by a located pointer without
/// multiselect and with the setting on, deselects every pickable entity.
pub proof fn lemma_empty_press_clears<L>(
    id: PointerId,
    loc: L,
    pointers: Seq<PointerState<L>>,
    no_deselect: Seq<Entity>,
    sel: Seq<Selectable>,
)
    requires
        located_from(pointers, id, 0) == Some((false, loc)),
    ensures
        ({
            let input = PointerInput { pointer_id: id, action: PointerAction::Pressed(PointerButton::Primary) };
            let after = mirror_after(
                frame_events(true, seq![], seq![input], seq![], pointers, no_deselect, sel),
                sel,
            );
            forall|m: int| 0 <= m < sel.len() ==> !(#[trigger] after[m].selection.is_selected)
        }),
        ({
            let input = PointerInput { pointer_id: id, action: PointerAction::Pressed(PointerButton::Primary) };
            frame_events(true, seq![], seq![input], seq![], pointers, no_deselect, sel) == deselect_all(
                sel,
                None,
                id,
                loc,
            )
        }),
{
    let input = PointerInput { pointer_id: id, action: PointerAction::Pressed(PointerButton::Primary) };
    let downs = Seq::<Pointer<Down, L>>::empty();
    let inputs = seq![input];
    assert(inputs.drop_last() =~= Seq::<PointerInput>::empty());
    assert(!pressed_on_target(downs, id));
    let ev = frame_events(true, downs, inputs, seq![], pointers, no_deselect, sel);
    assert(inputs.last() == input);
    assert(down_events(downs, pointers, no_deselect, sel) =~= seq![]);
    assert(click_events(Seq::<Pointer<Click, L>>::empty(), pointers, sel) =~= seq![]);
    assert(empty_events(Seq::<PointerInput>::empty(), downs, pointers, sel) =~= seq![]);
    assert(empty_events_one(input, downs, pointers, sel) == deselect_all(sel, None, id, loc));
    assert(ev =~= deselect_all(sel, None, id, loc));
    assert forall|m: int| 0 <= m < sel.len() implies !(#[trigger] mirror_after(ev, sel)[m].selection.is_selected) by {
        lemma_deselect_all(sel, None, id, loc, sel[m].entity, sel[m].selection.is_selected);
    }
}

} // verus!
