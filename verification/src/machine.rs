//! The installation as a transition system: the states of a run, the
//! request that is pending in each, and the state that follows each answer.
//!
//! The run takes the components in order. A component that is not
//! reinstalled on every run is probed first and skipped when all its markers
//! are present. Otherwise it is fetched; an archive's entries are inspected;
//! the stale artifacts, if it lists any, are probed; and the operations of
//! its installation are applied one by one. After the last component the two
//! binaries are probed and, where the legacy binary is present, swapped. The
//! first failure halts the run for good.

use vstd::prelude::*;
use crate::containment::any_escapes;
use crate::errors::{FetchError, InstallError, PipelineError};
use crate::plan::{failure_of_op, install_ops, swap_ops, FileOp};
use crate::registry::{ComponentKind, DescriptorView};

verus! {

/// How far the installation of one component has come.
#[derive(Clone, Copy, Debug, PartialEq, Eq, Structural)]
pub enum Phase {
    NotStarted,
    Fetching,
    Installing,
    Done,
    AlreadyInstalled,
}

/// What the run is waiting for.
#[derive(Clone, Copy, Debug, PartialEq, Eq, Structural)]
pub enum Stage {
    /// The presence of the current component's markers.
    Probing,
    /// The current component's download.
    Fetching,
    /// The names of the entries of the downloaded archive.
    Inspecting,
    /// The presence of the current component's stale artifacts.
    ProbingStale,
    /// The outcome of an operation of the current component's installation.
    Applying,
    /// The presence of the legacy binary and of a file at the retired name.
    ProbingBinaries,
    /// The outcome of an operation of the binary swap.
    Swapping,
    /// Nothing: the run is over.
    Finished,
    /// Nothing: the run has failed.
    Halted,
}

/// What the driver is asked to do. A number is a component's position in
/// the table.
#[derive(Clone, Copy, Debug, PartialEq, Eq, Structural)]
pub enum Request {
    /// Report for each marker of the component whether it exists.
    ProbeMarkers(usize),
    /// Download the component to its working file.
    Fetch(usize),
    /// Report the names of the entries of the component's download.
    ListEntries(usize),
    /// Report for each stale artifact of the component whether it exists.
    ProbeStale(usize),
    /// Perform an operation of the component's installation.
    Apply(usize, FileOp),
    /// Report whether the legacy binary exists, and whether a file exists
    /// at the retired name, in this order.
    ProbeBinaries,
    /// Perform an operation of the binary swap.
    Swap(FileOp),
    /// Stop: everything is installed.
    Finish,
    /// Stop: the run has failed with this error.
    Halt(PipelineError),
}

/// The driver's answer to a request.
#[derive(Clone, Debug)]
pub enum Event {
    /// Answer to a probe: one flag for each path asked about.
    Presence(Vec<bool>),
    /// The download is complete.
    Fetched,
    /// The download failed.
    FetchFailed(FetchError),
    /// The names of the entries of the archive.
    Entries(Vec<String>),
    /// The operation succeeded.
    Applied,
    /// The operation, or the reading of the archive, failed.
    Failed,
}

/// A state of the run.
pub ghost struct PipelineState {
    /// Phase of each component.
    pub phases: Seq<Phase>,
    /// Position of the component being worked on; the number of components
    /// once all have been dealt with.
    pub current: nat,
    pub stage: Stage,
    /// The answer to the last probe that a plan was made from.
    pub flags: Seq<bool>,
    /// The operations being applied.
    pub plan: Seq<FileOp>,
    /// Position in the plan of the operation that is pending.
    pub cursor: nat,
    /// The error that halted the run.
    pub failure: Option<PipelineError>,
    /// The downloads and operations that the driver has carried out, in
    /// order.
    pub performed: Seq<Request>,
}

/// Position of a phase in the order in which phases follow each other.
pub open spec fn rank(phase: Phase) -> nat {
    match phase {
        Phase::NotStarted => 0,
        Phase::Fetching => 1,
        Phase::Installing => 2,
        Phase::Done => 3,
        Phase::AlreadyInstalled => 3,
    }
}

/// Whether a component in this phase is dealt with.
pub open spec fn is_terminal(phase: Phase) -> bool {
    phase is Done || phase is AlreadyInstalled
}

/// Whether every flag is set.
pub open spec fn all_present(flags: Seq<bool>) -> bool {
    forall|k: int| 0 <= k < flags.len() ==> flags[k]
}

/// The state in which the run has failed with `error`.
pub open spec fn halted(s: PipelineState, error: PipelineError) -> PipelineState {
    PipelineState { stage: Stage::Halted, failure: Some(error), ..s }
}

/// The state in which the run turns to the component at `i`, or to the
/// binaries when there is no such component.
pub open spec fn entered(cs: Seq<DescriptorView>, s: PipelineState, i: nat) -> PipelineState {
    let t = PipelineState { flags: Seq::empty(), plan: Seq::empty(), cursor: 0, ..s };
    if i >= cs.len() {
        PipelineState { current: cs.len(), stage: Stage::ProbingBinaries, ..t }
    } else if cs[i as int].always_reinstall {
        PipelineState {
            current: i,
            stage: Stage::Fetching,
            phases: s.phases.update(i as int, Phase::Fetching),
            ..t
        }
    } else {
        PipelineState { current: i, stage: Stage::Probing, ..t }
    }
}

/// The state in which a run over `cs` starts.
pub open spec fn initial(cs: Seq<DescriptorView>) -> PipelineState {
    entered(
        cs,
        PipelineState {
            phases: Seq::new(cs.len(), |i: int| Phase::NotStarted),
            current: 0,
            stage: Stage::Probing,
            flags: Seq::empty(),
            plan: Seq::empty(),
            cursor: 0,
            failure: None,
            performed: Seq::empty(),
        },
        0,
    )
}

/// The state in which the installation of the current component is
/// planned from the presence of its stale artifacts.
pub open spec fn planned(
    cs: Seq<DescriptorView>,
    s: PipelineState,
    flags: Seq<bool>,
) -> PipelineState {
    PipelineState {
        stage: Stage::Applying,
        flags,
        plan: install_ops(cs[s.current as int], flags),
        cursor: 0,
        ..s
    }
}

/// The state after the current component's download is found fit to be
/// placed: its stale artifacts are probed if it lists any, else its
/// installation is planned at once.
pub open spec fn inspected(cs: Seq<DescriptorView>, s: PipelineState) -> PipelineState {
    if cs[s.current as int].stale_artifacts.len() > 0 {
        PipelineState { stage: Stage::ProbingStale, ..s }
    } else {
        planned(cs, s, Seq::empty())
    }
}

/// The state after the current component's download has arrived: an
/// archive is inspected first.
pub open spec fn fetched(cs: Seq<DescriptorView>, s: PipelineState) -> PipelineState {
    let t = PipelineState {
        phases: s.phases.update(s.current as int, Phase::Installing),
        performed: s.performed.push(Request::Fetch(s.current as usize)),
        ..s
    };
    if cs[s.current as int].kind is Archive {
        PipelineState { stage: Stage::Inspecting, ..t }
    } else {
        inspected(cs, t)
    }
}

/// The state after the answer `e` to the probe of the current component's
/// markers.
pub open spec fn after_probe(cs: Seq<DescriptorView>, s: PipelineState, e: Event) -> PipelineState {
    match e {
        Event::Presence(flags) => {
            if flags@.len() != cs[s.current as int].installed_markers.len() {
                halted(s, PipelineError::UnexpectedEvent)
            } else if all_present(flags@) {
                entered(
                    cs,
                    PipelineState {
                        phases: s.phases.update(s.current as int, Phase::AlreadyInstalled),
                        ..s
                    },
                    s.current + 1,
                )
            } else {
                PipelineState {
                    phases: s.phases.update(s.current as int, Phase::Fetching),
                    stage: Stage::Fetching,
                    ..s
                }
            }
        },
        _ => halted(s, PipelineError::UnexpectedEvent),
    }
}

/// The state after the answer `e` to the request for a download.
pub open spec fn after_fetch(cs: Seq<DescriptorView>, s: PipelineState, e: Event) -> PipelineState {
    match e {
        Event::Fetched => fetched(cs, s),
        Event::FetchFailed(cause) => halted(s, PipelineError::Fetch(s.current as usize, cause)),
        _ => halted(s, PipelineError::UnexpectedEvent),
    }
}

/// The state after the answer `e` to the request for an archive's entries.
pub open spec fn after_inspection(
    cs: Seq<DescriptorView>,
    s: PipelineState,
    e: Event,
) -> PipelineState {
    match e {
        Event::Entries(names) => {
            if any_escapes(names@) {
                halted(s, PipelineError::Install(s.current as usize, InstallError::PathTraversal))
            } else {
                inspected(cs, s)
            }
        },
        Event::Failed => halted(
            s,
            PipelineError::Install(s.current as usize, InstallError::ExtractionFailed),
        ),
        _ => halted(s, PipelineError::UnexpectedEvent),
    }
}

/// The state after the answer `e` to the probe of the current component's
/// stale artifacts.
pub open spec fn after_stale_probe(
    cs: Seq<DescriptorView>,
    s: PipelineState,
    e: Event,
) -> PipelineState {
    match e {
        Event::Presence(flags) => {
            if flags@.len() != cs[s.current as int].stale_artifacts.len() {
                halted(s, PipelineError::UnexpectedEvent)
            } else {
                planned(cs, s, flags@)
            }
        },
        _ => halted(s, PipelineError::UnexpectedEvent),
    }
}

/// The state after the answer `e` to an operation of the current
/// component's installation.
pub open spec fn after_apply(cs: Seq<DescriptorView>, s: PipelineState, e: Event) -> PipelineState {
    match e {
        Event::Applied => {
            let t = PipelineState {
                performed: s.performed.push(
                    Request::Apply(s.current as usize, s.plan[s.cursor as int]),
                ),
                ..s
            };
            if s.cursor + 1 < s.plan.len() {
                PipelineState { cursor: s.cursor + 1, ..t }
            } else {
                entered(
                    cs,
                    PipelineState { phases: t.phases.update(s.current as int, Phase::Done), ..t },
                    s.current + 1,
                )
            }
        },
        Event::Failed => halted(s, failure_of_op(s.plan[s.cursor as int], s.current as usize)),
        _ => halted(s, PipelineError::UnexpectedEvent),
    }
}

/// The state after the answer `e` to the probe of the binaries.
pub open spec fn after_binary_probe(s: PipelineState, e: Event) -> PipelineState {
    match e {
        Event::Presence(flags) => {
            if flags@.len() != 2 {
                halted(s, PipelineError::UnexpectedEvent)
            } else if swap_ops(flags@[0], flags@[1]).len() == 0 {
                PipelineState { stage: Stage::Finished, ..s }
            } else {
                PipelineState {
                    stage: Stage::Swapping,
                    flags: flags@,
                    plan: swap_ops(flags@[0], flags@[1]),
                    cursor: 0,
                    ..s
                }
            }
        },
        _ => halted(s, PipelineError::UnexpectedEvent),
    }
}

/// The state after the answer `e` to an operation of the binary swap.
pub open spec fn after_swap(s: PipelineState, e: Event) -> PipelineState {
    match e {
        Event::Applied => {
            let t = PipelineState {
                performed: s.performed.push(Request::Swap(s.plan[s.cursor as int])),
                ..s
            };
            if s.cursor + 1 < s.plan.len() {
                PipelineState { cursor: s.cursor + 1, ..t }
            } else {
                PipelineState { stage: Stage::Finished, ..t }
            }
        },
        Event::Failed => halted(s, failure_of_op(s.plan[s.cursor as int], 0)),
        _ => halted(s, PipelineError::UnexpectedEvent),
    }
}

/// The state that follows `s` when the driver answers the pending request
/// with `e`. A run that is over or has failed stays as it is.
pub open spec fn step(cs: Seq<DescriptorView>, s: PipelineState, e: Event) -> PipelineState {
    match s.stage {
        Stage::Probing => after_probe(cs, s, e),
        Stage::Fetching => after_fetch(cs, s, e),
        Stage::Inspecting => after_inspection(cs, s, e),
        Stage::ProbingStale => after_stale_probe(cs, s, e),
        Stage::Applying => after_apply(cs, s, e),
        Stage::ProbingBinaries => after_binary_probe(s, e),
        Stage::Swapping => after_swap(s, e),
        Stage::Finished => s,
        Stage::Halted => s,
    }
}

/// The request that is pending in `s`.
pub open spec fn pending(s: PipelineState) -> Request {
    match s.stage {
        Stage::Probing => Request::ProbeMarkers(s.current as usize),
        Stage::Fetching => Request::Fetch(s.current as usize),
        Stage::Inspecting => Request::ListEntries(s.current as usize),
        Stage::ProbingStale => Request::ProbeStale(s.current as usize),
        Stage::Applying => Request::Apply(s.current as usize, s.plan[s.cursor as int]),
        Stage::ProbingBinaries => Request::ProbeBinaries,
        Stage::Swapping => Request::Swap(s.plan[s.cursor as int]),
        Stage::Finished => Request::Finish,
        Stage::Halted => match s.failure {
            Some(error) => Request::Halt(error),
            None => Request::Halt(PipelineError::UnexpectedEvent),
        },
    }
}

/// The state after the driver has answered with `events`, one after the
/// other, from `s` on.
pub open spec fn run(cs: Seq<DescriptorView>, s: PipelineState, events: Seq<Event>) -> PipelineState
    decreases events.len(),
{
    if events.len() == 0 {
        s
    } else {
        step(cs, run(cs, s, events.drop_last()), events.last())
    }
}

} // verus!
