//! The compile and hot-reload controller for the companion project.
//!
//! The controller only decides: the caller performs each action it hands back
//! (unloading the scene, unregistering identifiers, spawning and polling the
//! build, loading the library) and reports what happened.
use vstd::prelude::*;

verus! {

/// How long one dot of the progress ellipsis lasts, in milliseconds.
pub const COMPILATION_ANIMATION_PERIOD_MS: u64 = 500;

/// The largest number of dots the progress ellipsis shows.
pub const COMPILATION_ANIMATION_DOTS: u64 = 3;

/// Where the controller stands.
#[derive(Clone, Copy, Debug, PartialEq, Eq, Structural)]
pub enum CompileStage {
    Idle,
    Compiling,
    Loaded,
}

/// What to undo before a new build starts.
#[derive(Debug)]
pub struct TeardownPlan {
    /// Type identifiers to remove from the type registry.
    pub unregister_type_ids: Vec<u64>,
    /// Component identifiers to remove from the world.
    pub unregister_component_ids: Vec<u64>,
    /// Whether a loaded companion library must be closed.
    pub close_library: bool,
    /// Whether a build still running must be terminated before the new one.
    pub stop_running_build: bool,
}

/// What a non-blocking wait on the build process reported.
#[derive(Clone, Copy, Debug, PartialEq, Eq, Structural)]
pub enum ProcessStatus {
    Running,
    Exited { success: bool },
    WaitFailed,
}

/// What the caller does after a poll.
#[derive(Clone, Copy, Debug, PartialEq, Eq, Structural)]
pub enum PollAction {
    /// No build is running.
    Nothing,
    /// Show the progress dialog with this many dots.
    ShowProgress { dots: u64 },
    /// The build ended without success: restore the editable manifest.
    RestoreManifest,
    /// The build succeeded: restore the editable manifest, load the library and
    /// report with [`CompileController::finish_load`].
    RestoreManifestAndLoad,
    /// Waiting on the process failed: forget it.
    Abandon,
}

/// What loading the companion library gave.
#[derive(Debug)]
pub enum LibraryLoad {
    /// The library could not be opened.
    LoadFailed,
    /// The library opened but has no registration entry point.
    SymbolMissing,
    /// The entry point ran and registered these identifiers.
    Registered { type_ids: Vec<u64>, component_ids: Vec<u64> },
}

/// Progress time and dot count after `delta` more milliseconds: the count is
/// the number of whole periods elapsed, and past the last dot both start over.
pub open spec fn animation_step(time: nat, delta: nat) -> (nat, nat) {
    let t = time + delta;
    if t / (COMPILATION_ANIMATION_PERIOD_MS as nat) > COMPILATION_ANIMATION_DOTS as nat {
        (0, 0)
    } else {
        (t, t / (COMPILATION_ANIMATION_PERIOD_MS as nat))
    }
}

/// The state of the compile and hot-reload cycle.
#[derive(Debug)]
pub struct CompileController {
    /// Type identifiers the companion library registered last.
    pub registration_type_ids: Vec<u64>,
    /// Component identifiers the companion library registered last.
    pub registration_component_ids: Vec<u64>,
    /// Whether a companion library is loaded.
    pub library_loaded: bool,
    /// Whether a build process is running.
    pub compiling: bool,
    /// Time spent in the current progress cycle, in milliseconds.
    pub animation_ms: u64,
}

impl CompileController {
    /// The progress time stays within one cycle.
    pub open spec fn wf(&self) -> bool {
        self.animation_ms < (COMPILATION_ANIMATION_DOTS + 1) * COMPILATION_ANIMATION_PERIOD_MS
    }

    pub open spec fn spec_stage(&self) -> CompileStage {
        if self.compiling {
            CompileStage::Compiling
        } else if self.library_loaded {
            CompileStage::Loaded
        } else {
            CompileStage::Idle
        }
    }

    /// Idle, with nothing registered and no library.
    pub fn new() -> (r: Self)
        ensures
            r.wf(),
            r.spec_stage() == CompileStage::Idle,
            r.registration_type_ids@ == Seq::<u64>::empty(),
            r.registration_component_ids@ == Seq::<u64>::empty(),
            r.animation_ms == 0,
    {
        CompileController {
            registration_type_ids: Vec::new(),
            registration_component_ids: Vec::new(),
            library_loaded: false,
            compiling: false,
            animation_ms: 0,
        }
    }

    #[verifier::when_used_as_spec(spec_stage)]
    pub fn stage(&self) -> (r: CompileStage)
        ensures
            r == self.spec_stage(),
    {
        if self.compiling {
            CompileStage::Compiling
        } else if self.library_loaded {
            CompileStage::Loaded
        } else {
            CompileStage::Idle
        }
    }

    /// Starts a compile: hands back exactly the identifiers the last
    /// registration gave, whether a library must be closed and whether a build
    /// still runs and must be terminated, and forgets the identifiers and the
    /// library. The caller then regenerates the manifest, spawns the build and
    /// reports with [`CompileController::process_spawned`].
    pub fn compile(&mut self) -> (plan: TeardownPlan)
        ensures
            plan.unregister_type_ids@ == old(self).registration_type_ids@,
            plan.unregister_component_ids@ == old(self).registration_component_ids@,
            plan.close_library == old(self).library_loaded,
            plan.stop_running_build == old(self).compiling,
            final(self).registration_type_ids@ == Seq::<u64>::empty(),
            final(self).registration_component_ids@ == Seq::<u64>::empty(),
            !final(self).library_loaded,
            final(self).compiling == old(self).compiling,
            final(self).animation_ms == old(self).animation_ms,
    {
        let mut type_ids: Vec<u64> = Vec::new();
        let mut component_ids: Vec<u64> = Vec::new();
        core::mem::swap(&mut type_ids, &mut self.registration_type_ids);
        core::mem::swap(&mut component_ids, &mut self.registration_component_ids);
        let close_library = self.library_loaded;
        self.library_loaded = false;
        TeardownPlan {
            unregister_type_ids: type_ids,
            unregister_component_ids: component_ids,
            close_library,
            stop_running_build: self.compiling,
        }
    }

    /// Records whether the build process could be spawned.
    pub fn process_spawned(&mut self, spawned: bool)
        ensures
            final(self).compiling == spawned,
            final(self).registration_type_ids == old(self).registration_type_ids,
            final(self).registration_component_ids == old(self).registration_component_ids,
            final(self).library_loaded == old(self).library_loaded,
            final(self).animation_ms == old(self).animation_ms,
    {
        self.compiling = spawned;
    }

    /// One frame's poll of the build process, `delta_ms` after the last frame.
    pub fn poll(&mut self, status: ProcessStatus, delta_ms: u64) -> (action: PollAction)
        requires
            old(self).wf(),
        ensures
            final(self).wf(),
            final(self).registration_type_ids == old(self).registration_type_ids,
            final(self).registration_component_ids == old(self).registration_component_ids,
            final(self).library_loaded == old(self).library_loaded,
            !old(self).compiling ==> action == PollAction::Nothing && final(self).compiling == false
                && final(self).animation_ms == old(self).animation_ms,
            old(self).compiling ==> match status {
                ProcessStatus::Running => {
                    let (t, dots) = animation_step(old(self).animation_ms as nat, delta_ms as nat);
                    &&& final(self).compiling
                    &&& final(self).animation_ms == t
                    &&& action == PollAction::ShowProgress { dots: dots as u64 }
                    &&& dots <= COMPILATION_ANIMATION_DOTS
                },
                ProcessStatus::Exited { success } => {
                    &&& !final(self).compiling
                    &&& final(self).animation_ms == 0
                    &&& action == if success {
                        PollAction::RestoreManifestAndLoad
                    } else {
                        PollAction::RestoreManifest
                    }
                },
                ProcessStatus::WaitFailed => {
                    &&& !final(self).compiling
                    &&& final(self).animation_ms == 0
                    &&& action == PollAction::Abandon
                },
            },
    {
        if !self.compiling {
            return PollAction::Nothing;
        }
        match status {
            ProcessStatus::Running => {
                let t = self.animation_ms.saturating_add(delta_ms);
                let dots = t / COMPILATION_ANIMATION_PERIOD_MS;
                if dots > COMPILATION_ANIMATION_DOTS {
                    self.animation_ms = 0;
                    PollAction::ShowProgress { dots: 0 }
                } else {
                    self.animation_ms = t;
                    PollAction::ShowProgress { dots }
                }
            },
            ProcessStatus::Exited { success } => {
                self.compiling = false;
                self.animation_ms = 0;
                if success {
                    PollAction::RestoreManifestAndLoad
                } else {
                    PollAction::RestoreManifest
                }
            },
            ProcessStatus::WaitFailed => {
                self.compiling = false;
                self.animation_ms = 0;
                PollAction::Abandon
            },
        }
    }

    /// Records what loading the companion library gave. The identifiers of a
    /// registration replace the recorded ones, so the next teardown removes
    /// exactly those. The caller then reloads the last scene.
    pub fn finish_load(&mut self, result: LibraryLoad)
        ensures
            final(self).compiling == old(self).compiling,
            final(self).animation_ms == old(self).animation_ms,
            match result {
                LibraryLoad::LoadFailed => {
                    &&& final(self).library_loaded == old(self).library_loaded
                    &&& final(self).registration_type_ids == old(self).registration_type_ids
                    &&& final(self).registration_component_ids == old(self).registration_component_ids
                },
                LibraryLoad::SymbolMissing => {
                    &&& final(self).library_loaded
                    &&& final(self).registration_type_ids == old(self).registration_type_ids
                    &&& final(self).registration_component_ids == old(self).registration_component_ids
                },
                LibraryLoad::Registered { type_ids, component_ids } => {
                    &&& final(self).library_loaded
                    &&& final(self).registration_type_ids@ == type_ids@
                    &&& final(self).registration_component_ids@ == component_ids@
                },
            },
    {
        match result {
            LibraryLoad::LoadFailed => {},
            LibraryLoad::SymbolMissing => {
                self.library_loaded = true;
            },
            LibraryLoad::Registered { type_ids, component_ids } => {
                self.library_loaded = true;
                self.registration_type_ids = type_ids;
                self.registration_component_ids = component_ids;
            },
        }
    }
}

/// The text of the progress dialog: "Compilation" followed by `dots` dots.
pub fn compilation_message(dots: u64) -> (r: String)
    requires
        dots <= COMPILATION_ANIMATION_DOTS,
    ensures
        r@ == "Compilation"@ + Seq::new(dots as nat, |i: int| '.'),
{
    let mut message = String::from_str("Compilation");
    let mut i: u64 = 0;
    while i < dots
        invariant
            i <= dots,
            message@ == "Compilation"@ + Seq::new(i as nat, |k: int| '.'),
        decreases dots - i,
    {
        message.append(".");
        proof {
            reveal_strlit(".");
            assert("Compilation"@ + Seq::new((i + 1) as nat, |k: int| '.') =~= "Compilation"@ + Seq::new(
                i as nat,
                |k: int| '.',
            ) + "."@);
        }
        i += 1;
    }
    message
}

/// The registry left after a teardown that removes `removed`.
pub open spec fn after_teardown(registry: Set<u64>, removed: Seq<u64>) -> Set<u64> {
    registry.difference(removed.to_set())
}

/// A teardown removes from the registry exactly the identifiers the last
/// registration returned: identifiers it did not return (the engine's own
/// types among them) stay registered.
pub proof fn lemma_teardown_removes_only_registered(registry: Set<u64>, registered: Seq<u64>, id: u64)
    ensures
        after_teardown(registry, registered).contains(id) <==> (registry.contains(id)
            && !registered.contains(id)),
{
}

/// While a build runs and the progress cycle does not complete, successive
/// polls show dot counts that never decrease and never exceed the maximum.
pub proof fn lemma_progress_dots_monotone(time: nat, d1: nat, d2: nat)
    requires
        time + d1 + d2 < (COMPILATION_ANIMATION_DOTS + 1) * COMPILATION_ANIMATION_PERIOD_MS,
    ensures
        animation_step(time, d1).1 <= animation_step(animation_step(time, d1).0, d2).1,
        animation_step(animation_step(time, d1).0, d2).1 <= COMPILATION_ANIMATION_DOTS,
{
    let p = COMPILATION_ANIMATION_PERIOD_MS as int;
    vstd::arithmetic::div_mod::lemma_div_is_ordered((time + d1) as int, (time + d1 + d2) as int, p);
    vstd::arithmetic::div_mod::lemma_div_is_ordered((time + d1 + d2) as int, 1999, p);
    assert(1999int / 500 == 3) by (nonlinear_arith);
}

} // verus!
