//! What holds of every state of a run, and the proof that every answer of
//! the driver keeps it.

use vstd::prelude::*;
use crate::containment::any_escapes;
use crate::machine::{
    after_apply, after_fetch, after_inspection, after_probe, after_stale_probe, after_swap,
    all_present, entered, initial, is_terminal, planned, rank, step, Event, Phase, PipelineState,
    Request, Stage,
};
use crate::plan::{install_ops, lemma_install_ops, placement, stale_removals, swap_ops, FileOp};
use crate::registry::DescriptorView;

verus! {

/// Whether `request` was carried out and the component at `i` has not
/// been downloaded since.
pub open spec fn settled(performed: Seq<Request>, request: Request, i: usize) -> bool {
    exists|k: int|
        0 <= k < performed.len() && #[trigger] performed[k] == request && forall|m: int|
            k < m < performed.len() ==> #[trigger] performed[m] != Request::Fetch(i)
}

/// Whether the component at `i` was fully installed: downloaded, placed,
/// its download deleted and its empty directory, if it has one, created,
/// with no new download since.
pub open spec fn installed(cs: Seq<DescriptorView>, performed: Seq<Request>, i: int) -> bool {
    &&& performed.contains(Request::Fetch(i as usize))
    &&& settled(performed, Request::Apply(i as usize, placement(cs[i].kind)), i as usize)
    &&& settled(performed, Request::Apply(i as usize, FileOp::RemoveDownload), i as usize)
    &&& cs[i].created_dir is Some ==> settled(
        performed,
        Request::Apply(i as usize, FileOp::CreateDir),
        i as usize,
    )
}

/// Whether nothing was downloaded or changed for the component at `i`.
pub open spec fn untouched(performed: Seq<Request>, i: int) -> bool {
    forall|k: int|
        0 <= k < performed.len() ==> match #[trigger] performed[k] {
            Request::Fetch(j) => j != i,
            Request::Apply(j, _) => j != i,
            _ => true,
        }
}

/// Whether no operation was carried out for the component at `i`.
pub open spec fn unapplied(performed: Seq<Request>, i: int) -> bool {
    forall|k: int| 0 <= k < performed.len() ==> match #[trigger] performed[k] {
        Request::Apply(j, _) => j != i,
        _ => true,
    }
}

/// What holds of the stage that the run is in.
pub open spec fn stage_fits(cs: Seq<DescriptorView>, s: PipelineState) -> bool {
    let i = s.current as int;
    match s.stage {
        Stage::Probing => i < cs.len() && s.phases[i] is NotStarted,
        Stage::Fetching => i < cs.len() && s.phases[i] is Fetching,
        Stage::Inspecting => i < cs.len() && s.phases[i] is Installing && cs[i].kind is Archive
            && s.performed.len() > 0 && s.performed.last() == Request::Fetch(i as usize)
            && unapplied(s.performed, i),
        Stage::ProbingStale => i < cs.len() && s.phases[i] is Installing
            && cs[i].stale_artifacts.len() > 0 && s.performed.len() > 0 && s.performed.last()
            == Request::Fetch(i as usize) && unapplied(s.performed, i),
        Stage::Applying => {
            &&& i < cs.len()
            &&& s.phases[i] is Installing
            &&& s.flags.len() == cs[i].stale_artifacts.len()
            &&& s.flags.len() <= usize::MAX
            &&& s.plan == install_ops(cs[i], s.flags)
            &&& s.cursor < s.plan.len()
            &&& s.performed.contains(Request::Fetch(i as usize))
            &&& forall|j: int|
                0 <= j < s.cursor ==> settled(
                    s.performed,
                    Request::Apply(i as usize, #[trigger] s.plan[j]),
                    i as usize,
                )
        },
        Stage::ProbingBinaries => i == cs.len(),
        Stage::Swapping => {
            &&& i == cs.len()
            &&& s.flags.len() == 2
            &&& s.flags[0]
            &&& s.plan == swap_ops(s.flags[0], s.flags[1])
            &&& s.cursor < s.plan.len()
        },
        Stage::Finished => i == cs.len(),
        Stage::Halted => true,
    }
}

/// What holds of the components and of what was carried out, whatever
/// stage the run is in.
pub open spec fn components_fit(cs: Seq<DescriptorView>, s: PipelineState) -> bool {
    &&& cs.len() <= usize::MAX
    &&& s.phases.len() == cs.len()
    &&& s.current <= cs.len()
    &&& forall|i: int| 0 <= i < s.current ==> is_terminal(#[trigger] s.phases[i])
    &&& forall|i: int| s.current < i < cs.len() ==> (#[trigger] s.phases[i]) is NotStarted
    &&& forall|i: int|
        0 <= i < cs.len() && (#[trigger] s.phases[i]) is Done ==> installed(cs, s.performed, i)
    &&& forall|i: int|
        0 <= i < cs.len() && rank(#[trigger] s.phases[i]) < 2 ==> untouched(s.performed, i)
    &&& forall|i: int|
        0 <= i < cs.len() && (#[trigger] s.phases[i]) is AlreadyInstalled ==> untouched(
            s.performed,
            i,
        )
    &&& forall|k: int|
        0 <= k < s.performed.len() ==> match #[trigger] s.performed[k] {
            Request::Fetch(j) => j < cs.len(),
            Request::Apply(j, _) => j < cs.len(),
            Request::Swap(_) => s.current == cs.len() && s.flags.len() == 2 && s.flags[0],
            _ => false,
        }
}

/// What holds of every state of a run over `cs`.
pub open spec fn well_formed(cs: Seq<DescriptorView>, s: PipelineState) -> bool {
    &&& components_fit(cs, s)
    &&& stage_fits(cs, s)
    &&& s.failure is Some <==> s.stage is Halted
}

/// A request that was carried out stays so when another request that is
/// no download of the component at `i` is carried out after it.
pub proof fn lemma_settled_push(performed: Seq<Request>, request: Request, i: usize, next: Request)
    requires
        settled(performed, request, i),
        next != Request::Fetch(i),
    ensures
        settled(performed.push(next), request, i),
{
    let k = choose|k: int|
        0 <= k < performed.len() && #[trigger] performed[k] == request && forall|m: int|
            k < m < performed.len() ==> #[trigger] performed[m] != Request::Fetch(i);
    let after = performed.push(next);
    assert(after[k] == request);
    assert forall|m: int| k < m < after.len() implies #[trigger] after[m] != Request::Fetch(i) by {
        if m < performed.len() {
            assert(after[m] == performed[m]);
        }
    }
}

/// The request that was carried out last is settled.
pub proof fn lemma_settled_last(performed: Seq<Request>, request: Request, i: usize)
    ensures
        settled(performed.push(request), request, i),
{
    let after = performed.push(request);
    assert(after[performed.len() as int] == request);
}

/// A full installation stays one when a request that is no download of
/// the same component is carried out after it.
pub proof fn lemma_installed_push(
    cs: Seq<DescriptorView>,
    performed: Seq<Request>,
    i: int,
    next: Request,
)
    requires
        installed(cs, performed, i),
        next != Request::Fetch(i as usize),
    ensures
        installed(cs, performed.push(next), i),
{
    let u = i as usize;
    let k = choose|k: int| 0 <= k < performed.len() && performed[k] == Request::Fetch(u);
    assert(performed.push(next)[k] == Request::Fetch(u));
    lemma_settled_push(performed, Request::Apply(u, placement(cs[i].kind)), u, next);
    lemma_settled_push(performed, Request::Apply(u, FileOp::RemoveDownload), u, next);
    if cs[i].created_dir is Some {
        lemma_settled_push(performed, Request::Apply(u, FileOp::CreateDir), u, next);
    }
}

/// What holds of the components that the run is not working on stays so
/// when a request for the current component, or of the swap, is carried
/// out.
proof fn lemma_others_keep(cs: Seq<DescriptorView>, s: PipelineState, next: Request)
    requires
        well_formed(cs, s),
        !(s.stage is Halted),
        s.current < cs.len() ==> !is_terminal(s.phases[s.current as int]) && rank(
            s.phases[s.current as int],
        ) >= 1,
        match next {
            Request::Fetch(j) => j == s.current && s.current < cs.len(),
            Request::Apply(j, _) => j == s.current && s.current < cs.len(),
            Request::Swap(_) => s.stage is Swapping,
            _ => false,
        },
    ensures
        forall|i: int|
            0 <= i < cs.len() && i != s.current && (#[trigger] s.phases[i]) is Done ==> installed(
                cs,
                s.performed.push(next),
                i,
            ),
        forall|i: int|
            0 <= i < cs.len() && i != s.current && (rank(#[trigger] s.phases[i]) < 2
                || s.phases[i] is AlreadyInstalled) ==> untouched(s.performed.push(next), i),
        forall|k: int|
            0 <= k < s.performed.push(next).len() ==> match #[trigger] s.performed.push(next)[k] {
                Request::Fetch(j) => j < cs.len(),
                Request::Apply(j, _) => j < cs.len(),
                Request::Swap(_) => s.current == cs.len() && s.flags.len() == 2 && s.flags[0],
                _ => false,
            },
{
    let after = s.performed.push(next);
    assert forall|i: int|
        0 <= i < cs.len() && i != s.current && (#[trigger] s.phases[i]) is Done implies installed(
        cs,
        after,
        i,
    ) by {
        lemma_installed_push(cs, s.performed, i, next);
    }
    assert forall|i: int|
        0 <= i < cs.len() && i != s.current && (rank(#[trigger] s.phases[i]) < 2
            || s.phases[i] is AlreadyInstalled) implies untouched(after, i) by {
        assert(untouched(s.performed, i));
        assert forall|k: int| 0 <= k < after.len() implies match #[trigger] after[k] {
            Request::Fetch(j) => j != i,
            Request::Apply(j, _) => j != i,
            _ => true,
        } by {
            if k < s.performed.len() {
                assert(after[k] == s.performed[k]);
            }
        }
    }
    assert forall|k: int| 0 <= k < after.len() implies match #[trigger] after[k] {
        Request::Fetch(j) => j < cs.len(),
        Request::Apply(j, _) => j < cs.len(),
        Request::Swap(_) => s.current == cs.len() && s.flags.len() == 2 && s.flags[0],
        _ => false,
    } by {
        if k < s.performed.len() {
            assert(after[k] == s.performed[k]);
        }
    }
}

/// A run starts in a well-formed state.
pub proof fn lemma_initial_well_formed(cs: Seq<DescriptorView>)
    requires
        cs.len() <= usize::MAX,
    ensures
        well_formed(cs, initial(cs)),
{
}

/// Turning to the next component, or to the binaries, keeps the state
/// well formed.
proof fn lemma_entered(cs: Seq<DescriptorView>, s: PipelineState)
    requires
        components_fit(cs, s),
        s.current < cs.len(),
        s.failure is None,
        is_terminal(s.phases[s.current as int]),
    ensures
        well_formed(cs, entered(cs, s, s.current + 1)),
{
}

proof fn lemma_probe_step(cs: Seq<DescriptorView>, s: PipelineState, e: Event)
    requires
        well_formed(cs, s),
        s.stage is Probing,
    ensures
        well_formed(cs, after_probe(cs, s, e)),
{
    if let Event::Presence(flags) = e {
        if flags@.len() == cs[s.current as int].installed_markers.len() && all_present(flags@) {
            lemma_entered(
                cs,
                PipelineState {
                    phases: s.phases.update(s.current as int, Phase::AlreadyInstalled),
                    ..s
                },
            );
        }
    }
}

/// Recording the download of the current component keeps what holds of
/// the components; the download is then the last thing carried out, and
/// nothing of the component has been applied.
proof fn lemma_fetch_recorded(cs: Seq<DescriptorView>, s: PipelineState) -> (t: PipelineState)
    requires
        well_formed(cs, s),
        s.stage is Fetching,
    ensures
        t == (PipelineState {
            phases: s.phases.update(s.current as int, Phase::Installing),
            performed: s.performed.push(Request::Fetch(s.current as usize)),
            ..s
        }),
        components_fit(cs, t),
        t.performed.last() == Request::Fetch(s.current as usize),
        t.performed.contains(Request::Fetch(s.current as usize)),
        unapplied(t.performed, s.current as int),
{
    let c = s.current as int;
    let next = Request::Fetch(s.current as usize);
    let t = PipelineState {
        phases: s.phases.update(c, Phase::Installing),
        performed: s.performed.push(next),
        ..s
    };
    lemma_others_keep(cs, s, next);
    assert(t.performed[s.performed.len() as int] == next);
    assert(untouched(s.performed, c));
    t
}

/// Planning the installation of a downloaded component keeps the state
/// well formed.
proof fn lemma_planned(cs: Seq<DescriptorView>, s: PipelineState, flags: Seq<bool>)
    requires
        components_fit(cs, s),
        s.failure is None,
        s.current < cs.len(),
        s.phases[s.current as int] is Installing,
        s.performed.contains(Request::Fetch(s.current as usize)),
        flags.len() == cs[s.current as int].stale_artifacts.len(),
        flags.len() <= usize::MAX,
    ensures
        well_formed(cs, planned(cs, s, flags)),
{
    lemma_install_ops(cs[s.current as int], flags);
}

proof fn lemma_fetch_step(cs: Seq<DescriptorView>, s: PipelineState, e: Event)
    requires
        well_formed(cs, s),
        s.stage is Fetching,
    ensures
        well_formed(cs, after_fetch(cs, s, e)),
{
    if e is Fetched {
        let t = lemma_fetch_recorded(cs, s);
        let component = cs[s.current as int];
        if !(component.kind is Archive) && component.stale_artifacts.len() == 0 {
            lemma_planned(cs, t, Seq::empty());
        }
    }
}

proof fn lemma_inspection_step(cs: Seq<DescriptorView>, s: PipelineState, e: Event)
    requires
        well_formed(cs, s),
        s.stage is Inspecting,
    ensures
        well_formed(cs, after_inspection(cs, s, e)),
{
    if let Event::Entries(names) = e {
        if !any_escapes(names@) && cs[s.current as int].stale_artifacts.len() == 0 {
            assert(s.performed[s.performed.len() - 1] == Request::Fetch(s.current as usize));
            lemma_planned(cs, s, Seq::empty());
        }
    }
}

proof fn lemma_stale_step(cs: Seq<DescriptorView>, s: PipelineState, e: Event)
    requires
        well_formed(cs, s),
        s.stage is ProbingStale,
    ensures
        well_formed(cs, after_stale_probe(cs, s, e)),
{
    if let Event::Presence(flags) = e {
        if flags@.len() == cs[s.current as int].stale_artifacts.len() {
            assert(s.performed[s.performed.len() - 1] == Request::Fetch(s.current as usize));
            assert(flags.len() == flags@.len());
            lemma_planned(cs, s, flags@);
        }
    }
}

proof fn lemma_apply_step(cs: Seq<DescriptorView>, s: PipelineState, e: Event)
    requires
        well_formed(cs, s),
        s.stage is Applying,
    ensures
        well_formed(cs, after_apply(cs, s, e)),
{
    if e is Applied {
        let c = s.current as int;
        let u = s.current as usize;
        let next = Request::Apply(u, s.plan[s.cursor as int]);
        let t = PipelineState { performed: s.performed.push(next), ..s };
        lemma_others_keep(cs, s, next);
        let k = choose|k: int| 0 <= k < s.performed.len() && s.performed[k] == Request::Fetch(u);
        assert(t.performed[k] == Request::Fetch(u));
        assert forall|j: int| 0 <= j <= s.cursor implies settled(
            t.performed,
            Request::Apply(u, #[trigger] s.plan[j]),
            u,
        ) by {
            if j < s.cursor {
                lemma_settled_push(s.performed, Request::Apply(u, s.plan[j]), u, next);
            } else {
                lemma_settled_last(s.performed, next, u);
            }
        }
        if s.cursor + 1 >= s.plan.len() {
            lemma_install_ops(cs[c], s.flags);
            let at = stale_removals(s.flags, s.flags.len()).len() as int;
            assert(s.plan[at] == placement(cs[c].kind));
            assert(s.plan[at + 1] == FileOp::RemoveDownload);
            let d = PipelineState { phases: t.phases.update(c, Phase::Done), ..t };
            assert(installed(cs, d.performed, c));
            lemma_entered(cs, d);
        }
    }
}

proof fn lemma_swap_step(cs: Seq<DescriptorView>, s: PipelineState, e: Event)
    requires
        well_formed(cs, s),
        s.stage is Swapping,
    ensures
        well_formed(cs, after_swap(s, e)),
{
    if e is Applied {
        lemma_others_keep(cs, s, Request::Swap(s.plan[s.cursor as int]));
    }
}

/// Every answer leads from a well-formed state to a well-formed state.
pub proof fn lemma_step_well_formed(cs: Seq<DescriptorView>, s: PipelineState, e: Event)
    requires
        well_formed(cs, s),
    ensures
        well_formed(cs, step(cs, s, e)),
{
    match s.stage {
        Stage::Probing => lemma_probe_step(cs, s, e),
        Stage::Fetching => lemma_fetch_step(cs, s, e),
        Stage::Inspecting => lemma_inspection_step(cs, s, e),
        Stage::ProbingStale => lemma_stale_step(cs, s, e),
        Stage::Applying => lemma_apply_step(cs, s, e),
        Stage::ProbingBinaries => {},
        Stage::Swapping => lemma_swap_step(cs, s, e),
        Stage::Finished => {},
        Stage::Halted => {},
    }
}

/// No answer takes a component back to an earlier phase, changes the
/// phase of a component that is dealt with, or takes anything back from
/// what was carried out.
pub proof fn lemma_step_never_backward(cs: Seq<DescriptorView>, s: PipelineState, e: Event)
    requires
        well_formed(cs, s),
    ensures
        step(cs, s, e).phases.len() == s.phases.len(),
        forall|i: int|
            0 <= i < cs.len() ==> rank(s.phases[i]) <= rank(#[trigger] step(cs, s, e).phases[i]),
        forall|i: int|
            0 <= i < cs.len() && is_terminal(s.phases[i]) ==> #[trigger] step(cs, s, e).phases[i]
                == s.phases[i],
        s.performed.is_prefix_of(step(cs, s, e).performed),
        s.stage is Halted || s.stage is Finished ==> step(cs, s, e) == s,
{
    lemma_step_well_formed(cs, s, e);
}

} // verus!
