//! What holds of every run of the pipeline, whatever the driver answers.

use vstd::prelude::*;
use crate::containment::{
    any_escapes, climbs_out, escapes, is_separator, parent_segment, segment_end,
};
use crate::errors::{InstallError, PipelineError};
use crate::consistency::{
    installed, lemma_initial_well_formed, lemma_step_never_backward, lemma_step_well_formed,
    settled, unapplied, untouched, well_formed,
};
use crate::machine::{
    all_present, halted, initial, is_terminal, pending, run, step, Event, PipelineState, Request,
    Stage,
};
use crate::plan::FileOp;
use crate::registry::{placed_after_provider, well_ordered, DescriptorView};

verus! {

/// Every state that a run reaches is well formed.
pub proof fn lemma_run_well_formed(cs: Seq<DescriptorView>, s: PipelineState, events: Seq<Event>)
    requires
        well_formed(cs, s),
    ensures
        well_formed(cs, run(cs, s, events)),
    decreases events.len(),
{
    if events.len() > 0 {
        lemma_run_well_formed(cs, s, events.drop_last());
        lemma_step_well_formed(cs, run(cs, s, events.drop_last()), events.last());
    }
}

/// A component whose markers are all present is skipped: it counts as
/// installed, nothing is carried out for it, and the run turns to what
/// comes after it.
pub proof fn lemma_present_component_is_skipped(
    cs: Seq<DescriptorView>,
    s: PipelineState,
    flags: Vec<bool>,
)
    requires
        well_formed(cs, s),
        s.stage is Probing,
        flags@.len() == cs[s.current as int].installed_markers.len(),
        all_present(flags@),
    ensures
        ({
            let t = step(cs, s, Event::Presence(flags));
            &&& t.phases[s.current as int] is AlreadyInstalled
            &&& t.performed == s.performed
            &&& t.current == if s.current + 1 < cs.len() {
                s.current + 1
            } else {
                cs.len()
            }
            &&& pending(t) != Request::Fetch(s.current as usize)
        }),
{
}

/// A component that was skipped stays skipped for the rest of the run,
/// whatever the driver answers: it is never downloaded and none of its
/// operations is ever carried out.
pub proof fn lemma_skipped_is_never_touched(
    cs: Seq<DescriptorView>,
    s: PipelineState,
    events: Seq<Event>,
    i: int,
)
    requires
        well_formed(cs, s),
        0 <= i < cs.len(),
        s.phases[i] is AlreadyInstalled,
    ensures
        run(cs, s, events).phases[i] is AlreadyInstalled,
        untouched(run(cs, s, events).performed, i),
    decreases events.len(),
{
    if events.len() > 0 {
        let before = run(cs, s, events.drop_last());
        lemma_skipped_is_never_touched(cs, s, events.drop_last(), i);
        lemma_run_well_formed(cs, s, events.drop_last());
        lemma_step_never_backward(cs, before, events.last());
        lemma_step_well_formed(cs, before, events.last());
    }
    lemma_run_well_formed(cs, s, events);
}

/// Whether `events` answers the probe of every component of `cs` with
/// "all markers present" and the probe of the binaries with "no legacy
/// binary".
pub open spec fn reports_everything_installed(cs: Seq<DescriptorView>, events: Seq<Event>) -> bool {
    &&& events.len() == cs.len() + 1
    &&& forall|i: int|
        0 <= i < cs.len() ==> match #[trigger] events[i] {
            Event::Presence(flags) => flags@.len() == cs[i].installed_markers.len() && all_present(
                flags@,
            ),
            _ => false,
        }
    &&& match events[cs.len() as int] {
        Event::Presence(flags) => flags@.len() == 2 && !flags@[0],
        _ => false,
    }
}

/// After the first `n` answers of a run that finds everything installed,
/// the run is about to probe the component at `n`, or the binaries, and has
/// carried out nothing.
proof fn lemma_installed_prefix(cs: Seq<DescriptorView>, events: Seq<Event>, n: int)
    requires
        cs.len() <= usize::MAX,
        forall|i: int| 0 <= i < cs.len() ==> !(#[trigger] cs[i]).always_reinstall,
        reports_everything_installed(cs, events),
        0 <= n <= cs.len(),
    ensures
        ({
            let s = run(cs, initial(cs), events.take(n));
            &&& well_formed(cs, s)
            &&& s.current == n
            &&& s.performed.len() == 0
            &&& s.stage == if n < cs.len() {
                Stage::Probing
            } else {
                Stage::ProbingBinaries
            }
        }),
    decreases n,
{
    lemma_initial_well_formed(cs);
    if n > 0 {
        lemma_installed_prefix(cs, events, n - 1);
        assert(events.take(n).drop_last() =~= events.take(n - 1));
        assert(events.take(n).last() == events[n - 1]);
        lemma_run_well_formed(cs, initial(cs), events.take(n));
    } else {
        assert(cs.len() > 0 ==> !cs[0].always_reinstall);
    }
}

/// A run over a table without a component that is reinstalled every time,
/// on a target where every component's markers are present and the legacy
/// binary is absent, finishes without a single download or filesystem
/// operation: a second run leaves what the first run made as it is.
pub proof fn lemma_second_run_changes_nothing(cs: Seq<DescriptorView>, events: Seq<Event>)
    requires
        cs.len() <= usize::MAX,
        forall|i: int| 0 <= i < cs.len() ==> !(#[trigger] cs[i]).always_reinstall,
        reports_everything_installed(cs, events),
    ensures
        run(cs, initial(cs), events).stage is Finished,
        run(cs, initial(cs), events).performed.len() == 0,
        forall|i: int|
            0 <= i < cs.len() ==> (#[trigger] run(
                cs,
                initial(cs),
                events,
            ).phases[i]) is AlreadyInstalled,
{
    let n = cs.len() as int;
    lemma_installed_prefix(cs, events, n);
    assert(events.drop_last() =~= events.take(n));
    let before = run(cs, initial(cs), events.take(n));
    let after = run(cs, initial(cs), events);
    assert(after == step(cs, before, events.last()));
    lemma_step_well_formed(cs, before, events.last());
    assert forall|i: int| 0 <= i < cs.len() implies (#[trigger] after.phases[i])
        is AlreadyInstalled by {
        assert(is_terminal(before.phases[i]));
        if before.phases[i] is Done {
            assert(installed(cs, before.performed, i));
            assert(before.performed.contains(Request::Fetch(i as usize)));
        }
    }
}

/// Whenever the run works on a component that needs a directory, the
/// component that creates it is dealt with: it was found installed, or its
/// installation, the creation of the directory included, was carried out.
pub proof fn lemma_provider_comes_first(cs: Seq<DescriptorView>, s: PipelineState)
    requires
        well_formed(cs, s),
        well_ordered(cs),
        s.current < cs.len(),
        cs[s.current as int].required_dir is Some,
    ensures
        exists|j: int|
            0 <= j < s.current && (#[trigger] cs[j]).created_dir
                == cs[s.current as int].required_dir
                && is_terminal(s.phases[j]) && (s.phases[j] is Done ==> settled(
                s.performed,
                Request::Apply(j as usize, FileOp::CreateDir),
                j as usize,
            )),
{
    let i = s.current as int;
    assert(placed_after_provider(cs, i));
    let j = choose|j: int| 0 <= j < i && (#[trigger] cs[j]).created_dir == cs[i].required_dir;
    assert(is_terminal(s.phases[j]));
    if s.phases[j] is Done {
        assert(installed(cs, s.performed, j));
    }
}

/// In every state that a run reaches, each component that is done was
/// downloaded and placed, and its temporary download was deleted after
/// that and not fetched again.
pub proof fn lemma_done_leaves_no_download(cs: Seq<DescriptorView>, events: Seq<Event>, i: int)
    requires
        cs.len() <= usize::MAX,
        0 <= i < cs.len(),
        run(cs, initial(cs), events).phases[i] is Done,
    ensures
        installed(cs, run(cs, initial(cs), events).performed, i),
        settled(
            run(cs, initial(cs), events).performed,
            Request::Apply(i as usize, FileOp::RemoveDownload),
            i as usize,
        ),
{
    lemma_initial_well_formed(cs);
    lemma_run_well_formed(cs, initial(cs), events);
}

/// When a run has finished, every download that was made has been
/// deleted again, and was not made anew after that: no temporary download
/// is left.
pub proof fn lemma_finished_run_leaves_no_download(
    cs: Seq<DescriptorView>,
    events: Seq<Event>,
    k: int,
)
    requires
        cs.len() <= usize::MAX,
        run(cs, initial(cs), events).stage is Finished,
        0 <= k < run(cs, initial(cs), events).performed.len(),
        run(cs, initial(cs), events).performed[k] is Fetch,
    ensures
        settled(
            run(cs, initial(cs), events).performed,
            Request::Apply(
                run(cs, initial(cs), events).performed[k]->Fetch_0,
                FileOp::RemoveDownload,
            ),
            run(cs, initial(cs), events).performed[k]->Fetch_0,
        ),
{
    lemma_initial_well_formed(cs);
    lemma_run_well_formed(cs, initial(cs), events);
    let s = run(cs, initial(cs), events);
    let i = s.performed[k]->Fetch_0 as int;
    assert(is_terminal(s.phases[i]));
    if s.phases[i] is AlreadyInstalled {
        assert(untouched(s.performed, i));
    }
    assert(installed(cs, s.performed, i));
}

/// An archive with an entry that escapes the destination halts the run
/// before anything of the archive is written, and the run stays halted.
pub proof fn lemma_escaping_entry_halts(
    cs: Seq<DescriptorView>,
    s: PipelineState,
    names: Vec<String>,
    later: Event,
)
    requires
        well_formed(cs, s),
        s.stage is Inspecting,
        any_escapes(names@),
    ensures
        ({
            let t = step(cs, s, Event::Entries(names));
            &&& t == halted(
                s,
                PipelineError::Install(s.current as usize, InstallError::PathTraversal),
            )
            &&& t.performed == s.performed
            &&& unapplied(s.performed, s.current as int)
            &&& pending(t) == Request::Halt(
                PipelineError::Install(s.current as usize, InstallError::PathTraversal),
            )
            &&& step(cs, t, later) == t
        }),
{
}

/// A name that begins with a parent segment escapes.
pub proof fn lemma_leading_parent_escapes(name: Seq<u8>)
    requires
        name.len() >= 2,
        name[0] == 0x2e,
        name[1] == 0x2e,
        name.len() == 2 || is_separator(name[2]),
    ensures
        escapes(name),
{
    assert(segment_end(name, 2) == 2);
    assert(segment_end(name, 1) == 2);
    assert(segment_end(name, 0) == 2);
    assert(name.subrange(0, 2) =~= parent_segment());
    assert(climbs_out(name, 0, 0));
}

/// Without the legacy binary the swap is not run: the run finishes and
/// carries out nothing more.
pub proof fn lemma_no_swap_without_legacy(
    cs: Seq<DescriptorView>,
    s: PipelineState,
    flags: Vec<bool>,
)
    requires
        well_formed(cs, s),
        s.stage is ProbingBinaries,
        flags@.len() == 2,
        !flags@[0],
    ensures
        step(cs, s, Event::Presence(flags)).stage is Finished,
        step(cs, s, Event::Presence(flags)).performed == s.performed,
{
}

/// In every state that a run reaches, an operation of the swap was
/// carried out only if the legacy binary was reported present.
pub proof fn lemma_swap_only_with_legacy(cs: Seq<DescriptorView>, events: Seq<Event>, k: int)
    requires
        cs.len() <= usize::MAX,
        0 <= k < run(cs, initial(cs), events).performed.len(),
        run(cs, initial(cs), events).performed[k] is Swap,
    ensures
        run(cs, initial(cs), events).flags.len() == 2,
        run(cs, initial(cs), events).flags[0],
{
    lemma_initial_well_formed(cs);
    lemma_run_well_formed(cs, initial(cs), events);
}

} // verus!
