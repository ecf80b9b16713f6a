//! The dock layout and the panels its tabs refer to.
use vstd::prelude::*;

use crate::codegen::views;

verus! {

/// How a split divides its area.
#[derive(Clone, Copy, Debug, PartialEq, Eq, Structural)]
pub enum SplitDirection {
    /// Side by side; the first child is on the left.
    Horizontal,
    /// Stacked; the first child is on top.
    Vertical,
}

/// A node of the dock tree: a group of tabs, or a split of two nodes where the
/// first child takes `fraction_percent` percent of the area.
#[derive(Debug)]
pub enum DockNode {
    Leaf { tabs: Vec<String> },
    Split { direction: SplitDirection, fraction_percent: u64, first: Box<DockNode>, second: Box<DockNode> },
}

/// The tab names of a node, left to right and top to bottom.
pub open spec fn node_tabs(n: DockNode) -> Seq<Seq<char>>
    decreases n,
{
    match n {
        DockNode::Leaf { tabs } => views(tabs@),
        DockNode::Split { first, second, .. } => node_tabs(*first) + node_tabs(*second),
    }
}

/// The tab names of several floating windows, in order.
pub open spec fn window_tabs(windows: Seq<Vec<String>>) -> Seq<Seq<char>>
    decreases windows.len(),
{
    if windows.len() == 0 {
        seq![]
    } else {
        window_tabs(windows.drop_last()) + views(windows.last()@)
    }
}

/// The main dock tree and the floating windows added to it.
#[derive(Debug)]
pub struct DockLayout {
    pub main: DockNode,
    pub windows: Vec<Vec<String>>,
}

/// Whether `n` is a group holding exactly the tabs `names`.
pub open spec fn leaf_is(n: DockNode, names: Seq<Seq<char>>) -> bool {
    match n {
        DockNode::Leaf { tabs } => views(tabs@) == names,
        _ => false,
    }
}

/// The standard arrangement: the inspector on the right quarter; of the rest,
/// the hierarchy on the left fifth; of the rest, the scene viewport on top
/// and the resources and assets below it, in the bottom fifth.
pub open spec fn is_standard(l: DockLayout) -> bool {
    &&& l.windows@.len() == 0
    &&& match l.main {
        DockNode::Split { direction: SplitDirection::Horizontal, fraction_percent: 75, first, second } => {
            &&& leaf_is(*second, seq!["Inspector"@])
            &&& match *first {
                DockNode::Split { direction: SplitDirection::Horizontal, fraction_percent: 20, first: h, second: rest } => {
                    &&& leaf_is(*h, seq!["Hierarchy"@])
                    &&& match *rest {
                        DockNode::Split { direction: SplitDirection::Vertical, fraction_percent: 80, first: top, second: bottom } => {
                            &&& leaf_is(*top, seq!["Scene"@])
                            &&& leaf_is(*bottom, seq!["Resources"@, "Assets"@])
                        },
                        _ => false,
                    }
                },
                _ => false,
            }
        },
        _ => false,
    }
}

fn leaf1(a: &str) -> (r: DockNode)
    ensures
        leaf_is(r, seq![a@]),
{
    let mut tabs: Vec<String> = Vec::new();
    tabs.push(String::from_str(a));
    proof {
        assert(views(tabs@) =~= seq![a@]);
    }
    DockNode::Leaf { tabs }
}

impl DockLayout {
    /// The layout a fresh editor starts with.
    pub fn standard() -> (r: Self)
        ensures
            is_standard(r),
    {
        let mut bottom_tabs: Vec<String> = Vec::new();
        bottom_tabs.push(String::from_str("Resources"));
        bottom_tabs.push(String::from_str("Assets"));
        proof {
            assert(views(bottom_tabs@) =~= seq!["Resources"@, "Assets"@]);
        }
        let viewport = DockNode::Split {
            direction: SplitDirection::Vertical,
            fraction_percent: 80,
            first: Box::new(leaf1("Scene")),
            second: Box::new(DockNode::Leaf { tabs: bottom_tabs }),
        };
        let left = DockNode::Split {
            direction: SplitDirection::Horizontal,
            fraction_percent: 20,
            first: Box::new(leaf1("Hierarchy")),
            second: Box::new(viewport),
        };
        DockLayout {
            main: DockNode::Split {
                direction: SplitDirection::Horizontal,
                fraction_percent: 75,
                first: Box::new(left),
                second: Box::new(leaf1("Inspector")),
            },
            windows: Vec::new(),
        }
    }

    /// Every tab name of the layout: the main tree's, then the windows'.
    pub open spec fn tabs(&self) -> Seq<Seq<char>> {
        node_tabs(self.main) + window_tabs(self.windows@)
    }

    /// Opens a floating window holding `tabs`.
    pub fn add_window(&mut self, tabs: Vec<String>)
        ensures
            final(self).main == old(self).main,
            final(self).windows@ == old(self).windows@.push(tabs),
            final(self).tabs() == old(self).tabs() + views(tabs@),
    {
        let ghost before = self.windows@;
        self.windows.push(tabs);
        proof {
            assert(self.windows@.drop_last() =~= before);
        }
    }
}

/// A fresh layout holds exactly the scene viewport, hierarchy, inspector,
/// resources and assets tabs, each once.
pub proof fn lemma_standard_layout_tabs(l: DockLayout)
    requires
        is_standard(l),
    ensures
        l.tabs() == seq!["Hierarchy"@, "Scene"@, "Resources"@, "Assets"@, "Inspector"@],
        l.tabs().to_set() == set!["Scene"@, "Hierarchy"@, "Inspector"@, "Resources"@, "Assets"@],
{
    let t = seq!["Hierarchy"@, "Scene"@, "Resources"@, "Assets"@, "Inspector"@];
    assert(window_tabs(l.windows@) =~= seq![]);
    match l.main {
        DockNode::Split { first, second, .. } => {
            match *first {
                DockNode::Split { first: h, second: rest, .. } => {
                    match *rest {
                        DockNode::Split { first: top, second: bottom, .. } => {
                            assert(node_tabs(*rest) == node_tabs(*top) + node_tabs(*bottom));
                            assert(node_tabs(*first) == node_tabs(*h) + node_tabs(*rest));
                            assert(node_tabs(l.main) == node_tabs(*first) + node_tabs(*second));
                        },
                        _ => {},
                    }
                },
                _ => {},
            }
        },
        _ => {},
    }
    assert(l.tabs() =~= t);
    let s = set!["Scene"@, "Hierarchy"@, "Inspector"@, "Resources"@, "Assets"@];
    assert forall|x: Seq<char>| t.to_set().contains(x) <==> s.contains(x) by {
        if s.contains(x) {
            if x == "Hierarchy"@ {
                assert(t[0] == x);
            } else if x == "Scene"@ {
                assert(t[1] == x);
            } else if x == "Resources"@ {
                assert(t[2] == x);
            } else if x == "Assets"@ {
                assert(t[3] == x);
            } else {
                assert(t[4] == x);
            }
        }
    }
    assert(t.to_set() =~= s);
}

} // verus!
