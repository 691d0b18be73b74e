use vstd::prelude::*;

verus! {

use crate::manifest::ModuleDescriptor;
use crate::resolve::BuildClosure;
use crate::resolve::closure_contains;

/// One immutable published build result: the compiled scheduler binary, its
/// companion loader script, and the build version counter. A new build always
/// constructs a fresh value; no snapshot is ever changed in place.
#[derive(Clone, Debug)]
pub struct Update {
    pub module: Vec<u8>,
    pub loader: Vec<u8>,
    pub nonce: usize,
}

/// Where one build cycle stands. Modules compile one at a time; the scheduler
/// is compiled after every module succeeded; its two artifact files are read
/// last; the first failure of any step abandons the cycle.
#[derive(Clone, Copy, Debug)]
pub enum BuildPhase {
    /// Compiling the resolved modules, one at a time.
    Modules,
    /// Every module compiled; compiling the scheduler.
    Scheduler,
    /// Scheduler compiled; reading its two output artifacts.
    Artifacts,
    /// A step failed; the cycle yields no new snapshot.
    Failed,
    /// All steps succeeded; the cycle yields a fresh snapshot.
    Complete,
}

/// What the driver of a cycle must do next.
pub enum BuildAction {
    /// Invoke the compiler in the named module directory.
    CompileModule(String),
    /// Invoke the scheduler build step in the workspace root.
    CompileScheduler,
    /// Read the scheduler's two fixed-named output files.
    ReadArtifacts,
    /// Nothing: the cycle is over.
    Finished,
}

/// What the outside world answered to the pending action.
pub enum BuildEvent {
    /// The pending compile step exited successfully.
    Succeeded,
    /// The pending step failed: a non-zero compiler exit, or an artifact file
    /// absent or unreadable.
    Failed,
    /// Both artifact files were read: the binary module, then the loader.
    Artifacts(Vec<u8>, Vec<u8>),
}

/// One build cycle: the resolved target modules, the position of the next one
/// to compile, the nonce of the snapshot published before this cycle (zero
/// when none ever was), the phase, and — once complete — the fresh snapshot.
pub struct BuildJob {
    pub targets: Vec<ModuleDescriptor>,
    pub next: usize,
    pub prev_nonce: usize,
    pub phase: BuildPhase,
    pub built: Option<Update>,
}

/// Well-formedness of a cycle: the position stays within the target list and
/// points at a real target while modules are compiling; the nonce has room to
/// grow; and a fresh snapshot exists exactly in the complete phase, carrying
/// a nonce exactly one above the previous build's.
pub open spec fn job_wf(j: BuildJob) -> bool {
    &&& j.targets@.len() <= usize::MAX
    &&& j.next <= j.targets@.len()
    &&& j.phase is Modules ==> j.next < j.targets@.len()
    &&& j.prev_nonce < usize::MAX
    &&& (j.phase is Complete <==> j.built is Some)
    &&& (j.built matches Some(u) ==> u.nonce == j.prev_nonce + 1)
}

/// The same cycle, abandoned.
pub open spec fn failed_of(j: BuildJob) -> BuildJob {
    BuildJob {
        phase: BuildPhase::Failed,
        targets: j.targets,
        next: j.next,
        prev_nonce: j.prev_nonce,
        built: j.built,
    }
}

/// The transition of one cycle on one event. An event that does not answer
/// the pending action changes nothing.
pub open spec fn step_spec(j: BuildJob, e: BuildEvent) -> BuildJob {
    match j.phase {
        BuildPhase::Modules => match e {
            BuildEvent::Succeeded => BuildJob {
                next: (j.next + 1) as usize,
                phase: if j.next + 1 < j.targets@.len() {
                    BuildPhase::Modules
                } else {
                    BuildPhase::Scheduler
                },
                targets: j.targets,
                prev_nonce: j.prev_nonce,
                built: j.built,
            },
            BuildEvent::Failed => failed_of(j),
            BuildEvent::Artifacts(_, _) => j,
        },
        BuildPhase::Scheduler => match e {
            BuildEvent::Succeeded => BuildJob {
                phase: BuildPhase::Artifacts,
                targets: j.targets,
                next: j.next,
                prev_nonce: j.prev_nonce,
                built: j.built,
            },
            BuildEvent::Failed => failed_of(j),
            BuildEvent::Artifacts(_, _) => j,
        },
        BuildPhase::Artifacts => match e {
            BuildEvent::Succeeded => j,
            BuildEvent::Failed => failed_of(j),
            BuildEvent::Artifacts(m, l) => BuildJob {
                phase: BuildPhase::Complete,
                built: Some(
                    Update { module: m, loader: l, nonce: (j.prev_nonce + 1) as usize },
                ),
                targets: j.targets,
                next: j.next,
                prev_nonce: j.prev_nonce,
            },
        },
        BuildPhase::Failed => j,
        BuildPhase::Complete => j,
    }
}

impl BuildJob {
    /// Resolves a closure to the concrete cycle that will run, against the
    /// freshly enumerated modules: the unrestricted sentinel expands to every
    /// module; an explicit closure keeps the modules whose identifier it
    /// holds. A cycle whose explicit closure selects no known module is
    /// skipped entirely — `None`, no compile step runs.
    pub fn new(closure: BuildClosure, modules: Vec<ModuleDescriptor>, prev_nonce: usize) -> (r:
        Option<BuildJob>)
        requires
            prev_nonce < usize::MAX,
            distinct_ids(modules@),
        ensures
            closure is Unrestricted ==> (r matches Some(j) && j.targets@ == modules@),
            closure matches BuildClosure::Restricted(v) ==> match r {
                Some(j) => j.targets@.len() > 0 && (forall|w: int|
                    0 <= w < j.targets@.len() ==> v.deep_view().contains(
                        #[trigger] j.targets@[w].id@,
                    ) && modules@.contains(j.targets@[w])) && (forall|o: int|
                    0 <= o < modules@.len() && v.deep_view().contains(#[trigger] modules@[o].id@)
                        ==> j.targets@.contains(modules@[o])),
                None => forall|o: int| 0 <= o < modules@.len() ==> !v.deep_view().contains(
                    #[trigger] modules@[o].id@,
                ),
            },
            r matches Some(j) ==> job_wf(j) && distinct_ids(j.targets@) && j.prev_nonce
                == prev_nonce && j.next == 0 && j.built is None && (j.phase is Modules
                <==> j.targets@.len() > 0) && (j.phase is Scheduler <==> j.targets@.len() == 0),
    {
        let targets: Vec<ModuleDescriptor> = match closure {
            BuildClosure::Unrestricted => modules,
            BuildClosure::Restricted(v) => {
                let ghost orig = modules@;
                let mut rest = modules;
                let mut out: Vec<ModuleDescriptor> = Vec::new();
                let ghost mut k: int = 0;
                proof {
                    assert(rest@ =~= orig.skip(0));
                }
                while rest.len() > 0
                    invariant
                        0 <= k <= orig.len(),
                        rest@ == orig.skip(k),
                        distinct_ids(orig),
                        distinct_ids(out@),
                        forall|w: int| 0 <= w < out@.len() ==> v.deep_view().contains(
                            #[trigger] out@[w].id@,
                        ),
                        forall|w: int| 0 <= w < out@.len() ==> exists|o: int|
                            0 <= o < k && orig[o] == #[trigger] out@[w],
                        forall|o: int| 0 <= o < k && v.deep_view().contains(
                            #[trigger] orig[o].id@,
                        ) ==> out@.contains(orig[o]),
                    decreases rest.len(),
                {
                    let m = rest.remove(0);
                    proof {
                        assert(m == orig.skip(k)[0]);
                        assert(m == orig[k]);
                        assert(rest@ =~= orig.skip(k + 1));
                    }
                    let keep = crate::classify::contains_string(&v, &m.id);
                    let ghost out_old = out@;
                    if keep {
                        out.push(m);
                    }
                    proof {
                        if keep {
                            assert(out@ == out_old.push(orig[k]));
                            assert(out@[out_old.len() as int] == orig[k]);
                            assert(out@.contains(orig[k]));
                            assert forall|a: int, b: int|
                                0 <= a < b < out@.len() implies out@[a].id@ != out@[b].id@ by {
                                if b == out_old.len() {
                                    let o = choose|o: int|
                                        0 <= o < k && orig[o] == out_old[a];
                                    assert(out@[a] == orig[o]);
                                    assert(orig[o].id@ != orig[k].id@);
                                }
                            }
                        }
                        assert forall|o: int|
                            0 <= o < k + 1 && v.deep_view().contains(
                                #[trigger] orig[o].id@,
                            ) implies out@.contains(orig[o]) by {
                            if o < k {
                                assert(out_old.contains(orig[o]));
                                let wi = choose|wi: int|
                                    0 <= wi < out_old.len() && out_old[wi] == orig[o];
                                assert(out@[wi] == orig[o]);
                            }
                        }
                        k = k + 1;
                    }
                }
                if out.len() == 0 {
                    proof {
                        assert forall|o: int|
                            0 <= o < orig.len() implies !v.deep_view().contains(
                            #[trigger] orig[o].id@,
                        ) by {
                            if v.deep_view().contains(orig[o].id@) {
                                assert(out@.contains(orig[o]));
                            }
                        }
                    }
                    return None;
                }
                out
            },
        };
        let phase = if targets.len() == 0 {
            BuildPhase::Scheduler
        } else {
            BuildPhase::Modules
        };
        Some(BuildJob { targets, next: 0, prev_nonce, phase, built: None })
    }

    /// The pending action of this cycle.
    pub fn action(&self) -> (a: BuildAction)
        requires
            job_wf(*self),
        ensures
            self.phase is Modules ==> (a matches BuildAction::CompileModule(n) && n@
                == self.targets@[self.next as int].name@),
            self.phase is Scheduler ==> a is CompileScheduler,
            self.phase is Artifacts ==> a is ReadArtifacts,
            self.phase is Failed || self.phase is Complete ==> a is Finished,
    {
        match self.phase {
            BuildPhase::Modules => BuildAction::CompileModule(self.targets[self.next].name.clone()),
            BuildPhase::Scheduler => BuildAction::CompileScheduler,
            BuildPhase::Artifacts => BuildAction::ReadArtifacts,
            BuildPhase::Failed => BuildAction::Finished,
            BuildPhase::Complete => BuildAction::Finished,
        }
    }

    /// Whether the cycle still awaits an event.
    pub fn running(&self) -> (b: bool)
        ensures
            b == !(self.phase is Failed || self.phase is Complete),
    {
        match self.phase {
            BuildPhase::Failed => false,
            BuildPhase::Complete => false,
            _ => true,
        }
    }

    /// Feeds the answer to the pending action into the cycle.
    pub fn step(self, e: BuildEvent) -> (r: BuildJob)
        requires
            job_wf(self),
        ensures
            r == step_spec(self, e),
            job_wf(r),
            r.prev_nonce == self.prev_nonce,
            r.targets == self.targets,
    {
        let BuildJob { targets, next, prev_nonce, phase, built } = self;
        match phase {
            BuildPhase::Modules => match e {
                BuildEvent::Succeeded => {
                    let len = targets.len();
                    assert(next < len);
                    let n2 = next + 1;
                    let p2 = if n2 < len {
                        BuildPhase::Modules
                    } else {
                        BuildPhase::Scheduler
                    };
                    BuildJob { targets, next: n2, prev_nonce, phase: p2, built }
                },
                BuildEvent::Failed => BuildJob {
                    targets,
                    next,
                    prev_nonce,
                    phase: BuildPhase::Failed,
                    built,
                },
                BuildEvent::Artifacts(_, _) => BuildJob { targets, next, prev_nonce, phase, built },
            },
            BuildPhase::Scheduler => match e {
                BuildEvent::Succeeded => BuildJob {
                    targets,
                    next,
                    prev_nonce,
                    phase: BuildPhase::Artifacts,
                    built,
                },
                BuildEvent::Failed => BuildJob {
                    targets,
                    next,
                    prev_nonce,
                    phase: BuildPhase::Failed,
                    built,
                },
                BuildEvent::Artifacts(_, _) => BuildJob { targets, next, prev_nonce, phase, built },
            },
            BuildPhase::Artifacts => match e {
                BuildEvent::Succeeded => BuildJob { targets, next, prev_nonce, phase, built },
                BuildEvent::Failed => BuildJob {
                    targets,
                    next,
                    prev_nonce,
                    phase: BuildPhase::Failed,
                    built,
                },
                BuildEvent::Artifacts(m, l) => BuildJob {
                    targets,
                    next,
                    prev_nonce,
                    phase: BuildPhase::Complete,
                    built: Some(Update { module: m, loader: l, nonce: prev_nonce + 1 }),
                },
            },
            BuildPhase::Failed => BuildJob { targets, next, prev_nonce, phase, built },
            BuildPhase::Complete => BuildJob { targets, next, prev_nonce, phase, built },
        }
    }

    /// The cycle's outcome: a fresh snapshot to publish, or `None` — the
    /// previous snapshot, whatever it was, stays untouched. A fresh snapshot
    /// exists only when every step succeeded, and carries a nonce exactly one
    /// above the previous build's.
    pub fn finish(self) -> (r: Option<Update>)
        requires
            job_wf(self),
        ensures
            r == self.built,
            r matches Some(u) ==> self.phase is Complete && u.nonce == self.prev_nonce + 1,
            r is None ==> !(self.phase is Complete),
    {
        self.built
    }
}

/// The state of one cycle after a whole sequence of events.
pub open spec fn run_spec(j: BuildJob, es: Seq<BuildEvent>) -> BuildJob
    decreases es.len(),
{
    if es.len() == 0 {
        j
    } else {
        run_spec(step_spec(j, es[0]), es.skip(1))
    }
}

proof fn lemma_step_wf(j: BuildJob, e: BuildEvent)
    requires
        job_wf(j),
    ensures
        job_wf(step_spec(j, e)),
        step_spec(j, e).prev_nonce == j.prev_nonce,
        step_spec(j, e).targets == j.targets,
        step_spec(j, e).next >= j.next,
        step_spec(j, e).built matches Some(u) ==> j.built == Some(u) || (
        step_spec(j, e).phase is Complete && u.nonce == j.prev_nonce + 1),
{
}

/// Law: whatever events a cycle sees, in whatever order, its state stays
/// well-formed, its target list and previous-nonce baseline never move, its
/// compile position never steps backward, and any snapshot it ever holds
/// carries a nonce exactly one above that baseline — one successful build
/// advances the version counter by exactly one, and a cycle that fails holds
/// no snapshot at all.
pub proof fn lemma_job_outcome(j: BuildJob, es: Seq<BuildEvent>)
    requires
        job_wf(j),
    ensures
        job_wf(run_spec(j, es)),
        run_spec(j, es).prev_nonce == j.prev_nonce,
        run_spec(j, es).targets == j.targets,
        run_spec(j, es).next >= j.next,
        run_spec(j, es).built matches Some(u) ==> u.nonce == j.prev_nonce + 1,
        run_spec(j, es).phase is Failed ==> run_spec(j, es).built is None,
    decreases es.len(),
{
    if es.len() > 0 {
        lemma_step_wf(j, es[0]);
        lemma_job_outcome(step_spec(j, es[0]), es.skip(1));
    }
}

/// Pairwise-distinct module identifiers: the workspace naming convention is
/// collision-free, which the cycle construction assumes.
pub open spec fn distinct_ids(ms: Seq<ModuleDescriptor>) -> bool {
    forall|i: int, j: int| 0 <= i < j < ms.len() ==> ms[i].id@ != ms[j].id@
}

/// Whether the enumerated modules carry pairwise-distinct identifiers.
pub fn modules_distinct(modules: &Vec<ModuleDescriptor>) -> (b: bool)
    ensures
        b == distinct_ids(modules@),
{
    let mut i: usize = 1;
    while i < modules.len()
        invariant
            1 <= i,
            forall|a: int, b: int| 0 <= a < b < i ==> modules@[a].id@ != modules@[b].id@,
        decreases modules.len() - i,
    {
        let mut j: usize = 0;
        while j < i
            invariant
                j <= i < modules.len(),
                forall|a: int| 0 <= a < j ==> modules@[a].id@ != modules@[i as int].id@,
            decreases i - j,
        {
            if modules[j].id == modules[i].id {
                return false;
            }
            j = j + 1;
        }
        i = i + 1;
    }
    true
}

/// What one watch-loop cycle decided after classification: skipped without
/// any orchestration, or started with a concrete cycle.
pub enum CycleDecision {
    Skip,
    Run(BuildJob),
}

/// One watch-loop cycle after event filtering and classification. An empty
/// seed means nothing usable changed — the cycle is skipped, with no
/// orchestration call and no publish; so is a seed whose closure selects no
/// known module. Otherwise the dependency closure of the seed is resolved and
/// a cycle starts over exactly the selected modules.
pub fn watch_cycle(seed: &Vec<String>, modules: Vec<ModuleDescriptor>, prev_nonce: usize) -> (r:
    CycleDecision)
    requires
        prev_nonce < usize::MAX,
        distinct_ids(modules@),
    ensures
        r matches CycleDecision::Run(j) ==> job_wf(j) && distinct_ids(j.targets@) && j.prev_nonce
            == prev_nonce && j.next == 0 && j.built is None && j.phase is Modules
            && j.targets@.len() > 0 && (forall|w: int|
            0 <= w < j.targets@.len() ==> closure_contains(
                #[trigger] j.targets@[w].id@,
                seed.deep_view(),
                modules@,
            ) && modules@.contains(j.targets@[w])) && (forall|o: int|
            0 <= o < modules@.len() && closure_contains(
                #[trigger] modules@[o].id@,
                seed.deep_view(),
                modules@,
            ) ==> j.targets@.contains(modules@[o])),
        r is Skip <==> seed.deep_view().len() == 0 || (forall|o: int|
            0 <= o < modules@.len() ==> !closure_contains(
                #[trigger] modules@[o].id@,
                seed.deep_view(),
                modules@,
            )),
{
    if seed.len() == 0 {
        return CycleDecision::Skip;
    }
    let ghost mdl = modules@;
    let c = crate::resolve::resolve(seed, &modules);
    match BuildJob::new(c, modules, prev_nonce) {
        Some(j) => {
            proof {
                assert(closure_contains(j.targets@[0].id@, seed.deep_view(), mdl));
                let o = choose|o: int|
                    0 <= o < mdl.len() && mdl[o].id@ == j.targets@[0].id@
                        && crate::resolve::module_selected(mdl[o], seed.deep_view());
                assert(closure_contains(mdl[o].id@, seed.deep_view(), mdl));
            }
            CycleDecision::Run(j)
        },
        None => CycleDecision::Skip,
    }
}

/// A forced full rebuild: the manual trigger, and process startup, synthesize
/// the unrestricted closure and drive the same pipeline, bypassing
/// classification entirely. The scheduler step runs even over an empty
/// module list.
pub fn manual_cycle(modules: Vec<ModuleDescriptor>, prev_nonce: usize) -> (j: BuildJob)
    requires
        prev_nonce < usize::MAX,
        distinct_ids(modules@),
    ensures
        job_wf(j),
        j.targets@ == modules@,
        j.prev_nonce == prev_nonce,
        j.next == 0,
        j.built is None,
        j.phase is Modules <==> modules@.len() > 0,
        j.phase is Scheduler <==> modules@.len() == 0,
{
    BuildJob::new(BuildClosure::Unrestricted, modules, prev_nonce).unwrap()
}

} // verus!
