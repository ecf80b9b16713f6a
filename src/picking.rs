//! Picking through the GUI: whether pressing on the GUI may deselect the
//! entities behind it.
use vstd::prelude::*;

use crate::selection::{Entity, PointerId};

verus! {

/// Settings of GUI picking.
#[derive(Clone, Copy, Debug, Default)]
pub struct EguiPickingSettings {
    /// Whether clicking on the GUI deselects other entities.
    pub allow_deselect: bool,
}

/// Marks the entity used as the GUI's pseudo pointer.
#[derive(Clone, Copy, Debug, Default)]
pub struct EguiPointer;

/// A GUI context entity and whether it carries the no-deselect marker.
#[derive(Clone, Copy, Debug, PartialEq, Eq, Structural)]
pub struct GuiContext {
    pub entity: Entity,
    pub no_deselect: bool,
}

/// Brings the no-deselect markers of the GUI contexts in line with the
/// settings when they were added or changed: a context carries the marker
/// exactly when deselecting through the GUI is not allowed.
pub fn update_settings(settings: &EguiPickingSettings, settings_changed: bool, contexts: &mut Vec<GuiContext>)
    ensures
        final(contexts)@.len() == old(contexts)@.len(),
        forall|i: int|
            0 <= i < final(contexts)@.len() ==> #[trigger] final(contexts)@[i] == if settings_changed {
                (GuiContext { entity: old(contexts)@[i].entity, no_deselect: !settings.allow_deselect })
            } else {
                old(contexts)@[i]
            },
{
    if !settings_changed {
        return;
    }
    let ghost start = contexts@;
    let mut i: usize = 0;
    while i < contexts.len()
        invariant
            i <= contexts@.len(),
            contexts@.len() == start.len(),
            forall|k: int| i <= k < contexts@.len() ==> #[trigger] contexts@[k] == start[k],
            forall|k: int|
                0 <= k < i ==> #[trigger] contexts@[k] == (GuiContext {
                    entity: start[k].entity,
                    no_deselect: !settings.allow_deselect,
                }),
        decreases contexts.len() - i,
    {
        let c = contexts[i];
        if settings.allow_deselect {
            if c.no_deselect {
                contexts.set(i, GuiContext { entity: c.entity, no_deselect: false });
            }
        } else {
            if !c.no_deselect {
                contexts.set(i, GuiContext { entity: c.entity, no_deselect: true });
            }
        }
        i += 1;
    }
}


/// A pointer and the window it is over, if it has a location on one.
#[derive(Clone, Copy, Debug, PartialEq, Eq, Structural)]
pub struct PointerOverWindow {
    pub pointer_id: PointerId,
    pub window: Option<Entity>,
}

/// A window's GUI context and whether the GUI wants the pointer there.
#[derive(Clone, Copy, Debug, PartialEq, Eq, Structural)]
pub struct GuiWindow {
    pub window: Entity,
    pub wants_pointer_input: bool,
}

/// Whether the GUI of the first context on `window` wants the pointer.
pub open spec fn gui_wants(windows: Seq<GuiWindow>, window: Entity) -> bool {
    exists|j: int|
        0 <= j < windows.len() && windows[j].window == window && windows[j].wants_pointer_input && forall|k: int|
            0 <= k < j ==> #[trigger] windows[k].window != window
}

/// The pointers the GUI hides everything else from: each pointer over a
/// window whose GUI wants the pointer is reported as hitting that window's
/// GUI, in order.
pub fn egui_picking(pointers: &Vec<PointerOverWindow>, windows: &Vec<GuiWindow>) -> (hits: Vec<(PointerId, Entity)>)
    ensures
        hits@ == gui_hits(pointers@, windows@),
{
    let mut hits: Vec<(PointerId, Entity)> = Vec::new();
    let mut i: usize = 0;
    while i < pointers.len()
        invariant
            i <= pointers@.len(),
            hits@ == gui_hits(pointers@.take(i as int), windows@),
        decreases pointers.len() - i,
    {
        proof {
            assert(pointers@.take(i + 1).drop_last() =~= pointers@.take(i as int));
            assert(pointers@.take(i + 1).last() == pointers@[i as int]);
        }
        let p = pointers[i];
        match p.window {
            Some(w) => {
                if find_wants(windows, w) {
                    hits.push((p.pointer_id, w));
                }
            },
            None => {},
        }
        i += 1;
    }
    proof {
        assert(pointers@.take(pointers@.len() as int) =~= pointers@);
    }
    hits
}

/// The hits of the pointers, in order.
pub open spec fn gui_hits(pointers: Seq<PointerOverWindow>, windows: Seq<GuiWindow>) -> Seq<(PointerId, Entity)>
    decreases pointers.len(),
{
    if pointers.len() == 0 {
        seq![]
    } else {
        let rest = gui_hits(pointers.drop_last(), windows);
        let p = pointers.last();
        match p.window {
            Some(w) => if gui_wants(windows, w) {
                rest.push((p.pointer_id, w))
            } else {
                rest
            },
            None => rest,
        }
    }
}

fn find_wants(windows: &Vec<GuiWindow>, window: Entity) -> (r: bool)
    ensures
        r == gui_wants(windows@, window),
{
    let mut j: usize = 0;
    while j < windows.len()
        invariant
            j <= windows@.len(),
            forall|k: int| 0 <= k < j ==> #[trigger] windows@[k].window != window,
        decreases windows.len() - j,
    {
        if windows[j].window == window {
            let r = windows[j].wants_pointer_input;
            proof {
                if !r && gui_wants(windows@, window) {
                    let x = choose|x: int|
                        0 <= x < windows@.len() && windows@[x].window == window && windows@[x].wants_pointer_input
                            && forall|k: int| 0 <= k < x ==> #[trigger] windows@[k].window != window;
                    if x > j {
                        assert(windows@[j as int].window != window);
                    }
                }
            }
            return r;
        }
        j += 1;
    }
    false
}

} // verus!
