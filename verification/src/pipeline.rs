//! The install pipeline: it holds the state of a run, names the request
//! that the driver has to carry out next, and takes the driver's answer.

use vstd::prelude::*;
use crate::containment::any_entry_escapes;
use crate::errors::{InstallError, PipelineError};
use crate::consistency::{lemma_initial_well_formed, lemma_step_well_formed, well_formed};
use crate::machine::{
    all_present, entered, halted, initial, inspected, pending, planned, step, Event, Phase,
    PipelineState, Request, Stage,
};
use crate::plan::{failure_of, install_plan, swap_plan, FileOp};
use crate::registry::{
    check_order, descriptor_views, is_first_misplaced, well_ordered, ComponentDescriptor,
    ComponentKind, DescriptorView,
};

verus! {

/// The state of a run, as it is stored.
struct Run {
    components: Vec<ComponentDescriptor>,
    phases: Vec<Phase>,
    current: usize,
    stage: Stage,
    flags: Vec<bool>,
    plan: Vec<FileOp>,
    cursor: usize,
    failure: Option<PipelineError>,
    performed: Vec<Request>,
}

impl View for Run {
    type V = PipelineState;

    closed spec fn view(&self) -> PipelineState {
        PipelineState {
            phases: self.phases@,
            current: self.current as nat,
            stage: self.stage,
            flags: self.flags@,
            plan: self.plan@,
            cursor: self.cursor as nat,
            failure: self.failure,
            performed: self.performed@,
        }
    }
}

/// A run of the installer over a table of components.
pub struct Pipeline {
    run: Run,
}

impl View for Pipeline {
    type V = PipelineState;

    closed spec fn view(&self) -> PipelineState {
        self.run@
    }
}

/// Decides whether every flag is set.
pub fn all_true(flags: &Vec<bool>) -> (r: bool)
    ensures
        r == all_present(flags@),
{
    let mut k: usize = 0;
    while k < flags.len()
        invariant
            k <= flags.len(),
            forall|j: int| 0 <= j < k ==> flags@[j],
        decreases flags.len() - k,
    {
        if !flags[k] {
            return false;
        }
        k = k + 1;
    }
    true
}

impl Run {
    closed spec fn descriptors(&self) -> Seq<DescriptorView> {
        descriptor_views(self.components@)
    }

    closed spec fn wf(&self) -> bool {
        well_formed(self.descriptors(), self@)
    }

    fn start(components: Vec<ComponentDescriptor>) -> (r: Run)
        ensures
            r.descriptors() == descriptor_views(components@),
            r@ == initial(descriptor_views(components@)),
            r.wf(),
    {
        let ghost cs = descriptor_views(components@);
        let mut phases: Vec<Phase> = Vec::new();
        let mut i: usize = 0;
        while i < components.len()
            invariant
                i <= components.len(),
                phases@.len() == i,
                forall|k: int| 0 <= k < i ==> phases@[k] is NotStarted,
            decreases components.len() - i,
        {
            phases.push(Phase::NotStarted);
            i = i + 1;
        }
        let mut r = Run {
            components,
            phases,
            current: 0,
            stage: Stage::Probing,
            flags: Vec::new(),
            plan: Vec::new(),
            cursor: 0,
            failure: None,
            performed: Vec::new(),
        };
        proof {
            assert(r@.phases =~= Seq::new(cs.len(), |i: int| Phase::NotStarted));
            lemma_initial_well_formed(cs);
        }
        r.enter(0);
        r
    }

    fn enter(&mut self, i: usize)
        requires
            i <= old(self).components.len(),
            old(self).phases.len() == old(self).components.len(),
        ensures
            final(self).components == old(self).components,
            final(self)@ == entered(old(self).descriptors(), old(self)@, i as nat),
    {
        self.flags = Vec::new();
        self.plan = Vec::new();
        self.cursor = 0;
        if i >= self.components.len() {
            self.current = self.components.len();
            self.stage = Stage::ProbingBinaries;
        } else if self.components[i].always_reinstall {
            self.current = i;
            self.stage = Stage::Fetching;
            self.phases.set(i, Phase::Fetching);
        } else {
            self.current = i;
            self.stage = Stage::Probing;
        }
    }

    fn halt(&mut self, error: PipelineError)
        ensures
            final(self).components == old(self).components,
            final(self)@ == halted(old(self)@, error),
    {
        self.stage = Stage::Halted;
        self.failure = Some(error);
    }

    fn plan_installation(&mut self, flags: Vec<bool>)
        requires
            old(self).current < old(self).components.len(),
        ensures
            final(self).components == old(self).components,
            final(self)@ == planned(old(self).descriptors(), old(self)@, flags@),
    {
        self.plan = install_plan(&self.components[self.current], &flags);
        self.flags = flags;
        self.cursor = 0;
        self.stage = Stage::Applying;
    }

    fn after_inspection(&mut self)
        requires
            old(self).current < old(self).components.len(),
        ensures
            final(self).components == old(self).components,
            final(self)@ == inspected(old(self).descriptors(), old(self)@),
    {
        if self.components[self.current].stale_artifacts.len() > 0 {
            self.stage = Stage::ProbingStale;
        } else {
            self.plan_installation(Vec::new());
        }
    }

    fn request(&self) -> (r: Request)
        requires
            self.wf(),
        ensures
            r == pending(self@),
    {
        match self.stage {
            Stage::Probing => Request::ProbeMarkers(self.current),
            Stage::Fetching => Request::Fetch(self.current),
            Stage::Inspecting => Request::ListEntries(self.current),
            Stage::ProbingStale => Request::ProbeStale(self.current),
            Stage::Applying => Request::Apply(self.current, self.plan[self.cursor]),
            Stage::ProbingBinaries => Request::ProbeBinaries,
            Stage::Swapping => Request::Swap(self.plan[self.cursor]),
            Stage::Finished => Request::Finish,
            Stage::Halted => match self.failure {
                Some(error) => Request::Halt(error),
                None => Request::Halt(PipelineError::UnexpectedEvent),
            },
        }
    }

    fn handle(&mut self, event: Event)
        requires
            old(self).wf(),
        ensures
            final(self).wf(),
            final(self).descriptors() == old(self).descriptors(),
            final(self)@ == step(old(self).descriptors(), old(self)@, event),
    {
        proof {
            lemma_step_well_formed(self.descriptors(), self@, event);
        }
        match self.stage {
            Stage::Probing => match event {
                Event::Presence(flags) => {
                    if flags.len() != self.components[self.current].installed_markers.len() {
                        self.halt(PipelineError::UnexpectedEvent);
                    } else if all_true(&flags) {
                        self.phases.set(self.current, Phase::AlreadyInstalled);
                        self.enter(self.current + 1);
                    } else {
                        self.phases.set(self.current, Phase::Fetching);
                        self.stage = Stage::Fetching;
                    }
                },
                _ => self.halt(PipelineError::UnexpectedEvent),
            },
            Stage::Fetching => match event {
                Event::Fetched => {
                    self.phases.set(self.current, Phase::Installing);
                    self.performed.push(Request::Fetch(self.current));
                    match self.components[self.current].kind {
                        ComponentKind::Archive => {
                            self.stage = Stage::Inspecting;
                        },
                        ComponentKind::SingleFile => self.after_inspection(),
                    }
                },
                Event::FetchFailed(cause) => self.halt(PipelineError::Fetch(self.current, cause)),
                _ => self.halt(PipelineError::UnexpectedEvent),
            },
            Stage::Inspecting => match event {
                Event::Entries(names) => {
                    if any_entry_escapes(&names) {
                        self.halt(
                            PipelineError::Install(self.current, InstallError::PathTraversal),
                        );
                    } else {
                        self.after_inspection();
                    }
                },
                Event::Failed => self.halt(
                    PipelineError::Install(self.current, InstallError::ExtractionFailed),
                ),
                _ => self.halt(PipelineError::UnexpectedEvent),
            },
            Stage::ProbingStale => match event {
                Event::Presence(flags) => {
                    if flags.len() != self.components[self.current].stale_artifacts.len() {
                        self.halt(PipelineError::UnexpectedEvent);
                    } else {
                        self.plan_installation(flags);
                    }
                },
                _ => self.halt(PipelineError::UnexpectedEvent),
            },
            Stage::Applying => match event {
                Event::Applied => {
                    self.performed.push(Request::Apply(self.current, self.plan[self.cursor]));
                    if self.cursor < self.plan.len() - 1 {
                        self.cursor = self.cursor + 1;
                    } else {
                        self.phases.set(self.current, Phase::Done);
                        self.enter(self.current + 1);
                    }
                },
                Event::Failed => self.halt(failure_of(self.plan[self.cursor], self.current)),
                _ => self.halt(PipelineError::UnexpectedEvent),
            },
            Stage::ProbingBinaries => match event {
                Event::Presence(flags) => {
                    if flags.len() != 2 {
                        self.halt(PipelineError::UnexpectedEvent);
                    } else {
                        let ops = swap_plan(flags[0], flags[1]);
                        if ops.len() == 0 {
                            self.stage = Stage::Finished;
                        } else {
                            self.stage = Stage::Swapping;
                            self.flags = flags;
                            self.plan = ops;
                            self.cursor = 0;
                        }
                    }
                },
                _ => self.halt(PipelineError::UnexpectedEvent),
            },
            Stage::Swapping => match event {
                Event::Applied => {
                    self.performed.push(Request::Swap(self.plan[self.cursor]));
                    if self.cursor < self.plan.len() - 1 {
                        self.cursor = self.cursor + 1;
                    } else {
                        self.stage = Stage::Finished;
                    }
                },
                Event::Failed => self.halt(failure_of(self.plan[self.cursor], 0)),
                _ => self.halt(PipelineError::UnexpectedEvent),
            },
            Stage::Finished => {},
            Stage::Halted => {},
        }
    }
}

impl Pipeline {
    #[verifier::type_invariant]
    spec fn consistent(self) -> bool {
        self.run.wf()
    }

    /// The table that the run goes over.
    pub closed spec fn descriptors(&self) -> Seq<DescriptorView> {
        self.run.descriptors()
    }

    /// The state is one that a run can be in.
    pub open spec fn wf(&self) -> bool {
        well_formed(self.descriptors(), self@)
    }

    /// Starts a run over `components`. A table in which a component needs a
    /// directory that no earlier component creates is rejected, with the
    /// position of the first such component.
    pub fn new(components: Vec<ComponentDescriptor>) -> (r: Result<Pipeline, PipelineError>)
        ensures
            match r {
                Ok(p) => {
                    &&& well_ordered(descriptor_views(components@))
                    &&& p.descriptors() == descriptor_views(components@)
                    &&& p@ == initial(descriptor_views(components@))
                    &&& p.wf()
                },
                Err(PipelineError::OrderViolation(i)) => is_first_misplaced(
                    descriptor_views(components@),
                    i as int,
                ),
                Err(_) => false,
            },
    {
        match check_order(&components) {
            Err(e) => Err(e),
            Ok(_) => Ok(Pipeline { run: Run::start(components) }),
        }
    }

    /// The request that the driver has to carry out next.
    pub fn request(&self) -> (r: Request)
        ensures
            self.wf(),
            r == pending(self@),
    {
        proof {
            use_type_invariant(self);
        }
        self.run.request()
    }

    /// Takes the driver's answer to the pending request and gives the run
    /// in the state that follows.
    pub fn handle(self, event: Event) -> (next: Pipeline)
        ensures
            self.wf(),
            next.wf(),
            next.descriptors() == self.descriptors(),
            next@ == step(self.descriptors(), self@, event),
    {
        proof {
            use_type_invariant(&self);
        }
        let mut run = self.run;
        run.handle(event);
        Pipeline { run }
    }

    /// The table that the run goes over.
    pub fn components(&self) -> (cs: &Vec<ComponentDescriptor>)
        ensures
            descriptor_views(cs@) == self.descriptors(),
    {
        &self.run.components
    }

    /// The phase of each component.
    pub fn phases(&self) -> (phases: &Vec<Phase>)
        ensures
            phases@ == self@.phases,
            phases@.len() == self.descriptors().len(),
    {
        proof {
            use_type_invariant(self);
        }
        &self.run.phases
    }

    /// The downloads and operations carried out so far, in order.
    pub fn performed(&self) -> (performed: &Vec<Request>)
        ensures
            performed@ == self@.performed,
    {
        &self.run.performed
    }

    /// How the run ended: `None` while it is going on, `Ok` once everything
    /// is installed, and the error once it has failed.
    pub fn outcome(&self) -> (r: Option<Result<(), PipelineError>>)
        ensures
            match r {
                None => !(self@.stage is Finished) && !(self@.stage is Halted),
                Some(Ok(_)) => self@.stage is Finished,
                Some(Err(e)) => self@.stage is Halted && self@.failure == Some(e),
            },
    {
        proof {
            use_type_invariant(self);
        }
        match self.run.stage {
            Stage::Finished => Some(Ok(())),
            Stage::Halted => match self.run.failure {
                Some(e) => Some(Err(e)),
                None => Some(Err(PipelineError::UnexpectedEvent)),
            },
            _ => None,
        }
    }
}

} // verus!
