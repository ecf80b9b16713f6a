//! The editor's panels and the registry that finds a tab's panel by name.
use vstd::prelude::*;

verus! {

/// The kinds of panel a tab can show.
#[derive(Clone, Copy, Debug, PartialEq, Eq, Structural)]
pub enum PanelKind {
    Assets,
    Explorer,
    Game,
    Hierarchy,
    Inspector,
    Resources,
    Scene,
}

/// The name under which a panel is registered and shown.
pub open spec fn panel_name(k: PanelKind) -> Seq<char> {
    match k {
        PanelKind::Assets => "Assets"@,
        PanelKind::Explorer => "Explorer"@,
        PanelKind::Game => "Game"@,
        PanelKind::Hierarchy => "Hierarchy"@,
        PanelKind::Inspector => "Inspector"@,
        PanelKind::Resources => "Resources"@,
        PanelKind::Scene => "Scene"@,
    }
}

/// Whether the dock paints a background before the panel's content: every
/// panel but the viewports, which show a live camera image.
pub open spec fn panel_clears_background(k: PanelKind) -> bool {
    !(k == PanelKind::Scene || k == PanelKind::Game)
}

impl PanelKind {
    pub fn name(&self) -> (r: String)
        ensures
            r@ == panel_name(*self),
    {
        match self {
            PanelKind::Assets => String::from_str("Assets"),
            PanelKind::Explorer => String::from_str("Explorer"),
            PanelKind::Game => String::from_str("Game"),
            PanelKind::Hierarchy => String::from_str("Hierarchy"),
            PanelKind::Inspector => String::from_str("Inspector"),
            PanelKind::Resources => String::from_str("Resources"),
            PanelKind::Scene => String::from_str("Scene"),
        }
    }

    pub fn clear_background(&self) -> (r: bool)
        ensures
            r == panel_clears_background(*self),
    {
        match self {
            PanelKind::Scene | PanelKind::Game => false,
            _ => true,
        }
    }
}

/// Lists the registered assets by type and lets one be inspected.
#[derive(Clone, Copy, Debug, Default)]
pub struct AssetsPanel;

/// Browses the project directory.
#[derive(Clone, Copy, Debug, Default)]
pub struct ExplorerPanel;

/// Shows the game camera's image.
#[derive(Clone, Copy, Debug, Default)]
pub struct GamePanel;

/// Shows the entity hierarchy.
#[derive(Clone, Copy, Debug, Default)]
pub struct HierarchyPanel;

/// Shows the components of the inspected entities, resource or asset.
#[derive(Clone, Copy, Debug, Default)]
pub struct InspectorPanel;

/// Lists the registered resources and lets one be inspected.
#[derive(Clone, Copy, Debug, Default)]
pub struct ResourcesPanel;

/// Shows the editor camera's image with the transform gizmo.
#[derive(Clone, Copy, Debug, Default)]
pub struct ScenePanel;

impl AssetsPanel {
    pub fn kind(&self) -> (r: PanelKind)
        ensures
            r == PanelKind::Assets,
    {
        PanelKind::Assets
    }
}

impl ExplorerPanel {
    pub fn kind(&self) -> (r: PanelKind)
        ensures
            r == PanelKind::Explorer,
    {
        PanelKind::Explorer
    }
}

impl GamePanel {
    pub fn kind(&self) -> (r: PanelKind)
        ensures
            r == PanelKind::Game,
    {
        PanelKind::Game
    }
}

impl HierarchyPanel {
    pub fn kind(&self) -> (r: PanelKind)
        ensures
            r == PanelKind::Hierarchy,
    {
        PanelKind::Hierarchy
    }
}

impl InspectorPanel {
    pub fn kind(&self) -> (r: PanelKind)
        ensures
            r == PanelKind::Inspector,
    {
        PanelKind::Inspector
    }
}

impl ResourcesPanel {
    pub fn kind(&self) -> (r: PanelKind)
        ensures
            r == PanelKind::Resources,
    {
        PanelKind::Resources
    }
}

impl ScenePanel {
    pub fn kind(&self) -> (r: PanelKind)
        ensures
            r == PanelKind::Scene,
    {
        PanelKind::Scene
    }
}

/// The panel registered under `name`, if any.
pub open spec fn lookup(panels: Seq<PanelKind>, name: Seq<char>) -> Option<PanelKind> {
    if exists|i: int| 0 <= i < panels.len() && panel_name(panels[i]) == name {
        Some(choose|k: PanelKind| panels.contains(k) && panel_name(k) == name)
    } else {
        None
    }
}

/// The panels by name, each kind at most once.
#[derive(Debug)]
pub struct PanelRegistry {
    panels: Vec<PanelKind>,
}

impl View for PanelRegistry {
    type V = Seq<PanelKind>;

    closed spec fn view(&self) -> Seq<PanelKind> {
        self.panels@
    }
}

proof fn lemma_name_determines_kind(a: PanelKind, b: PanelKind)
    ensures
        panel_name(a) == panel_name(b) ==> a == b,
{
    reveal_strlit("Assets");
    reveal_strlit("Explorer");
    reveal_strlit("Game");
    reveal_strlit("Hierarchy");
    reveal_strlit("Inspector");
    reveal_strlit("Resources");
    reveal_strlit("Scene");
    if panel_name(a) == panel_name(b) {
        assert(panel_name(a).len() == panel_name(b).len());
        assert(panel_name(a)[0] == panel_name(b)[0]);
        assert(panel_name(a)[1] == panel_name(b)[1]);
    }
}

impl PanelRegistry {
    pub open spec fn wf(&self) -> bool {
        self@.no_duplicates()
    }

    pub fn new() -> (r: Self)
        ensures
            r@ == Seq::<PanelKind>::empty(),
            r.wf(),
    {
        PanelRegistry { panels: Vec::new() }
    }

    /// Registers a panel under its name; registering it again changes nothing.
    pub fn insert_panel(&mut self, kind: PanelKind)
        requires
            old(self).wf(),
        ensures
            final(self).wf(),
            final(self)@ == if old(self)@.contains(kind) {
                old(self)@
            } else {
                old(self)@.push(kind)
            },
            forall|k: PanelKind| #[trigger]
                final(self)@.contains(k) <==> (old(self)@.contains(k) || k == kind),
    {
        let mut i: usize = 0;
        while i < self.panels.len()
            invariant
                i <= self@.len(),
                self@ == old(self)@,
                old(self).wf(),
                forall|k: int| 0 <= k < i ==> self@[k] != kind,
            decreases self@.len() - i,
        {
            if self.panels[i] == kind {
                return;
            }
            i += 1;
        }
        let ghost before = self@;
        self.panels.push(kind);
        proof {
            assert forall|a: int, b: int| 0 <= a < b < self@.len() implies self@[a] != self@[b] by {
                if b == self@.len() - 1 {
                    assert(before[a] != kind);
                }
            }
            assert forall|k: PanelKind| #[trigger] self@.contains(k) <==> (before.contains(k) || k == kind) by {
                if self@.contains(k) {
                    let j = choose|j: int| 0 <= j < self@.len() && self@[j] == k;
                    if j < before.len() {
                        assert(before[j] == k);
                    }
                }
                if before.contains(k) {
                    let j = choose|j: int| 0 <= j < before.len() && before[j] == k;
                    assert(self@[j] == k);
                }
                assert(self@[before.len() as int] == kind);
            }
        }
    }

    /// Registers the editor's panels.
    pub fn init_panels(&mut self)
        requires
            old(self).wf(),
        ensures
            final(self).wf(),
            forall|k: PanelKind| #[trigger]
                final(self)@.contains(k) <==> (old(self)@.contains(k) || k != PanelKind::Game),
    {
        self.insert_panel(PanelKind::Assets);
        self.insert_panel(PanelKind::Explorer);
        self.insert_panel(PanelKind::Hierarchy);
        self.insert_panel(PanelKind::Inspector);
        self.insert_panel(PanelKind::Resources);
        self.insert_panel(PanelKind::Scene);
    }

    /// The panel registered under `name`.
    pub fn get(&self, name: &str) -> (r: Option<PanelKind>)
        requires
            self.wf(),
        ensures
            r == lookup(self@, name@),
    {
        let wanted = String::from_str(name);
        let mut i: usize = 0;
        while i < self.panels.len()
            invariant
                i <= self@.len(),
                wanted@ == name@,
                forall|k: int| 0 <= k < i ==> panel_name(self@[k]) != name@,
            decreases self@.len() - i,
        {
            let k = self.panels[i];
            let n = k.name();
            if n == wanted {
                proof {
                    assert(self@.contains(k));
                    let c = choose|c: PanelKind| self@.contains(c) && panel_name(c) == name@;
                    lemma_name_determines_kind(c, k);
                }
                return Some(k);
            }
            i += 1;
        }
        None
    }

    /// Whether the dock paints a background behind the tab `name`: as its
    /// panel asks, and always for a tab with no registered panel.
    pub fn clear_background(&self, name: &str) -> (r: bool)
        requires
            self.wf(),
        ensures
            r == match lookup(self@, name@) {
                Some(k) => panel_clears_background(k),
                None => true,
            },
    {
        match self.get(name) {
            Some(k) => k.clear_background(),
            None => true,
        }
    }

    /// The registered names, in registration order.
    pub fn names(&self) -> (r: Vec<String>)
        ensures
            r@.len() == self@.len(),
            forall|i: int| 0 <= i < r@.len() ==> #[trigger] r@[i]@ == panel_name(self@[i]),
    {
        let mut out: Vec<String> = Vec::new();
        let mut i: usize = 0;
        while i < self.panels.len()
            invariant
                i <= self@.len(),
                out@.len() == i,
                forall|k: int| 0 <= k < i ==> #[trigger] out@[k]@ == panel_name(self@[k]),
            decreases self@.len() - i,
        {
            out.push(self.panels[i].name());
            i += 1;
        }
        out
    }
}

} // verus!
