use std::collections::BTreeSet;

use mod_installer::errors::{FetchError, InstallError, PipelineError, SwapError};
use mod_installer::machine::{Event, Phase, Request};
use mod_installer::pipeline::{all_true, Pipeline};
use mod_installer::plan::{active_binary, legacy_binary, retired_binary, FileOp};
use mod_installer::registry::{
    chroma_component, core_library_component, framework_component, ordered_components,
    track_speed_component, ComponentDescriptor, ComponentKind, Sources,
};

/// A target directory and a working directory, as sets of paths.
struct Disk {
    target: BTreeSet<String>,
    working: BTreeSet<String>,
    fetches: Vec<String>,
}

fn disk(paths: &[&str]) -> Disk {
    Disk {
        target: paths.iter().map(|p| p.to_string()).collect(),
        working: BTreeSet::new(),
        fetches: Vec::new(),
    }
}

fn unpacked(d: &ComponentDescriptor) -> Vec<String> {
    if d.name == "BepInEx" {
        vec![String::from("BepInEx"), String::from("BepInEx/core/BepInEx.dll")]
    } else {
        d.installed_markers.clone()
    }
}

fn answer(p: &Pipeline, disk: &mut Disk, request: Request) -> Event {
    let cs = p.components();
    match request {
        Request::ProbeMarkers(i) => {
            Event::Presence(cs[i].installed_markers.iter().map(|m| disk.target.contains(m)).collect())
        }
        Request::ProbeStale(i) => {
            Event::Presence(cs[i].stale_artifacts.iter().map(|m| disk.target.contains(m)).collect())
        }
        Request::Fetch(i) => {
            if !disk.working.insert(cs[i].working_file.clone()) {
                return Event::FetchFailed(FetchError::DestinationExists);
            }
            disk.fetches.push(cs[i].source_uri.clone());
            Event::Fetched
        }
        Request::ListEntries(i) => Event::Entries(unpacked(&cs[i])),
        Request::Apply(i, op) => {
            let d = &cs[i];
            match op {
                FileOp::RemoveStale(k) => {
                    if !disk.target.remove(&d.stale_artifacts[k]) {
                        return Event::Failed;
                    }
                }
                FileOp::Extract => {
                    assert_eq!(d.kind, ComponentKind::Archive);
                    if !disk.working.contains(&d.working_file) {
                        return Event::Failed;
                    }
                    for path in unpacked(d) {
                        disk.target.insert(path);
                    }
                }
                FileOp::CopyFile => {
                    assert_eq!(d.kind, ComponentKind::SingleFile);
                    let parent = d.required_dir.clone().unwrap();
                    if !disk.target.contains(&parent) || !disk.working.contains(&d.working_file) {
                        return Event::Failed;
                    }
                    disk.target.insert(d.destination.clone());
                }
                FileOp::RemoveDownload => {
                    if !disk.working.remove(&d.working_file) {
                        return Event::Failed;
                    }
                }
                FileOp::CreateDir => {
                    if !disk.target.insert(d.created_dir.clone().unwrap()) {
                        return Event::Failed;
                    }
                }
                _ => panic!("not an installation: {:?}", op),
            }
            Event::Applied
        }
        Request::ProbeBinaries => Event::Presence(vec![
            disk.target.contains(legacy_binary()),
            disk.target.contains(retired_binary()),
        ]),
        Request::Swap(op) => {
            match op {
                FileOp::RemoveRetired => {
                    if !disk.target.remove(retired_binary()) {
                        return Event::Failed;
                    }
                }
                FileOp::RetireActive => {
                    if !disk.target.remove(active_binary()) {
                        return Event::Failed;
                    }
                    disk.target.insert(retired_binary().to_string());
                }
                FileOp::PromoteLegacy => {
                    if !disk.target.remove(legacy_binary()) {
                        return Event::Failed;
                    }
                    disk.target.insert(active_binary().to_string());
                }
                _ => panic!("not a swap: {:?}", op),
            }
            Event::Applied
        }
        Request::Finish | Request::Halt(_) => unreachable!(),
    }
}

fn drive(p: &mut Pipeline, disk: &mut Disk) -> Result<(), PipelineError> {
    loop {
        match p.request() {
            Request::Finish => return Ok(()),
            Request::Halt(e) => return Err(e),
            request => {
                let event = answer(p, disk, request);
                let run = std::mem::replace(p, Pipeline::new(Vec::new()).unwrap());
                *p = run.handle(event);
            }
        }
    }
}

fn paths(items: &[&str]) -> BTreeSet<String> {
    items.iter().map(|p| p.to_string()).collect()
}

const INSTALLED: [&str; 8] = [
    "SpinRhythm.exe",
    "UnityPlayer.dll",
    "BepInEx",
    "BepInEx/core/BepInEx.dll",
    "BepInEx/plugins",
    "BepInEx/plugins/SpinCore.dll",
    "BepInEx/plugins/Newtonsoft.Json.dll",
    "BepInEx/plugins/DynamicTrackSpeed.dll",
];

#[test]
fn all_true_is_conjunction() {
    assert!(all_true(&vec![]));
    assert!(all_true(&vec![true]));
    assert!(all_true(&vec![true, true, true]));
    assert!(!all_true(&vec![false]));
    assert!(!all_true(&vec![true, false, true]));
    assert!(!all_true(&vec![true, true, false]));
}

#[test]
fn fresh_target_gets_everything_in_order() {
    let mut d = disk(&["SpinRhythm.exe", "UnityPlayer.dll"]);
    let mut p = Pipeline::new(ordered_components(&Sources::released(), true)).unwrap();
    assert_eq!(p.outcome(), None);
    assert_eq!(drive(&mut p, &mut d), Ok(()));
    assert_eq!(p.outcome(), Some(Ok(())));
    assert_eq!(
        p.performed(),
        &vec![
            Request::Fetch(0),
            Request::Apply(0, FileOp::Extract),
            Request::Apply(0, FileOp::RemoveDownload),
            Request::Apply(0, FileOp::CreateDir),
            Request::Fetch(1),
            Request::Apply(1, FileOp::Extract),
            Request::Apply(1, FileOp::RemoveDownload),
            Request::Fetch(2),
            Request::Apply(2, FileOp::CopyFile),
            Request::Apply(2, FileOp::RemoveDownload),
            Request::Fetch(3),
            Request::Apply(3, FileOp::CopyFile),
            Request::Apply(3, FileOp::RemoveDownload),
        ]
    );
    assert_eq!(p.phases(), &vec![Phase::Done; 4]);
    let mut expected = paths(&INSTALLED);
    expected.insert(String::from("BepInEx/plugins/SpeenChroma2.dll"));
    assert_eq!(d.target, expected);
    assert!(d.working.is_empty());
    let s = Sources::released();
    assert_eq!(d.fetches, vec![s.framework, s.core_library, s.track_speed, s.chroma]);
}

#[test]
fn second_run_fetches_nothing_and_changes_nothing() {
    let mut d = disk(&["SpinRhythm.exe", "UnityPlayer.dll"]);
    let mut first = Pipeline::new(ordered_components(&Sources::released(), false)).unwrap();
    assert_eq!(drive(&mut first, &mut d), Ok(()));
    let after_first = d.target.clone();
    assert_eq!(d.fetches.len(), 4);

    let mut second = Pipeline::new(ordered_components(&Sources::released(), false)).unwrap();
    assert_eq!(drive(&mut second, &mut d), Ok(()));
    assert_eq!(d.fetches.len(), 4);
    assert!(second.performed().is_empty());
    assert_eq!(second.phases(), &vec![Phase::AlreadyInstalled; 4]);
    assert_eq!(d.target, after_first);
    assert!(d.working.is_empty());
}

#[test]
fn second_run_redoes_only_the_component_that_is_always_reinstalled() {
    let mut d = disk(&["SpinRhythm.exe", "UnityPlayer.dll"]);
    let mut first = Pipeline::new(ordered_components(&Sources::released(), true)).unwrap();
    assert_eq!(drive(&mut first, &mut d), Ok(()));
    let after_first = d.target.clone();

    let mut second = Pipeline::new(ordered_components(&Sources::released(), true)).unwrap();
    assert_eq!(drive(&mut second, &mut d), Ok(()));
    assert_eq!(
        second.performed(),
        &vec![
            Request::Fetch(1),
            Request::Apply(1, FileOp::RemoveStale(0)),
            Request::Apply(1, FileOp::RemoveStale(1)),
            Request::Apply(1, FileOp::Extract),
            Request::Apply(1, FileOp::RemoveDownload),
        ]
    );
    assert_eq!(
        second.phases(),
        &vec![
            Phase::AlreadyInstalled,
            Phase::Done,
            Phase::AlreadyInstalled,
            Phase::AlreadyInstalled
        ]
    );
    assert_eq!(d.target, after_first);
    assert!(d.working.is_empty());
    assert_eq!(d.fetches.len(), 5);
}

#[test]
fn partly_installed_target_gets_the_rest() {
    let mut d = disk(&INSTALLED);
    let mut p = Pipeline::new(ordered_components(&Sources::released(), false)).unwrap();
    assert_eq!(drive(&mut p, &mut d), Ok(()));
    assert_eq!(
        p.performed(),
        &vec![
            Request::Fetch(3),
            Request::Apply(3, FileOp::CopyFile),
            Request::Apply(3, FileOp::RemoveDownload),
        ]
    );
    assert!(d.target.contains("BepInEx/plugins/SpeenChroma2.dll"));
    assert_eq!(d.fetches, vec![Sources::released().chroma]);
}

#[test]
fn one_missing_artifact_reinstalls_the_core_library() {
    let mut d = disk(&INSTALLED);
    d.target.remove("BepInEx/plugins/Newtonsoft.Json.dll");
    d.target.insert(String::from("BepInEx/plugins/SpeenChroma2.dll"));
    let mut p = Pipeline::new(ordered_components(&Sources::released(), false)).unwrap();
    assert_eq!(drive(&mut p, &mut d), Ok(()));
    assert_eq!(
        p.performed(),
        &vec![
            Request::Fetch(1),
            Request::Apply(1, FileOp::RemoveStale(0)),
            Request::Apply(1, FileOp::Extract),
            Request::Apply(1, FileOp::RemoveDownload),
        ]
    );
    assert!(d.target.contains("BepInEx/plugins/Newtonsoft.Json.dll"));
}

#[test]
fn reordered_table_is_rejected() {
    let mut cs = ordered_components(&Sources::released(), true);
    cs.swap(0, 2);
    assert_eq!(Pipeline::new(cs).err(), Some(PipelineError::OrderViolation(0)));
    let cs = vec![core_library_component("a", true), framework_component("b")];
    assert_eq!(Pipeline::new(cs).err(), Some(PipelineError::OrderViolation(0)));
    let cs = vec![framework_component("b"), chroma_component("c"), track_speed_component("d")];
    assert!(Pipeline::new(cs).is_ok());
}

#[test]
fn requests_follow_the_stages_of_a_component() {
    let mut p = Pipeline::new(ordered_components(&Sources::released(), true)).unwrap();
    assert_eq!(p.phases(), &vec![Phase::NotStarted; 4]);
    assert_eq!(p.request(), Request::ProbeMarkers(0));
    p = p.handle(Event::Presence(vec![false]));
    assert_eq!(p.phases()[0], Phase::Fetching);
    assert_eq!(p.request(), Request::Fetch(0));
    p = p.handle(Event::Fetched);
    assert_eq!(p.phases()[0], Phase::Installing);
    assert_eq!(p.request(), Request::ListEntries(0));
    p = p.handle(Event::Entries(vec![String::from("BepInEx/core/BepInEx.dll")]));
    assert_eq!(p.request(), Request::Apply(0, FileOp::Extract));
    p = p.handle(Event::Applied);
    assert_eq!(p.request(), Request::Apply(0, FileOp::RemoveDownload));
    p = p.handle(Event::Applied);
    assert_eq!(p.request(), Request::Apply(0, FileOp::CreateDir));
    assert_eq!(p.phases()[0], Phase::Installing);
    p = p.handle(Event::Applied);
    assert_eq!(p.phases()[0], Phase::Done);
    // the core library is reinstalled without a look at its markers
    assert_eq!(p.phases()[1], Phase::Fetching);
    assert_eq!(p.request(), Request::Fetch(1));
    p = p.handle(Event::Fetched);
    assert_eq!(p.request(), Request::ListEntries(1));
    p = p.handle(Event::Entries(vec![String::from("SpinCore.dll")]));
    assert_eq!(p.request(), Request::ProbeStale(1));
    p = p.handle(Event::Presence(vec![false, true]));
    assert_eq!(p.request(), Request::Apply(1, FileOp::RemoveStale(1)));
    p = p.handle(Event::Applied);
    assert_eq!(p.request(), Request::Apply(1, FileOp::Extract));
    p = p.handle(Event::Applied);
    assert_eq!(p.request(), Request::Apply(1, FileOp::RemoveDownload));
    p = p.handle(Event::Applied);
    assert_eq!(p.phases()[1], Phase::Done);
    assert_eq!(p.request(), Request::ProbeMarkers(2));
    p = p.handle(Event::Presence(vec![true]));
    assert_eq!(p.phases()[2], Phase::AlreadyInstalled);
    assert_eq!(p.request(), Request::ProbeMarkers(3));
    p = p.handle(Event::Presence(vec![false]));
    assert_eq!(p.request(), Request::Fetch(3));
    p = p.handle(Event::Fetched);
    // a single file is not inspected
    assert_eq!(p.request(), Request::Apply(3, FileOp::CopyFile));
    p = p.handle(Event::Applied);
    assert_eq!(p.request(), Request::Apply(3, FileOp::RemoveDownload));
    p = p.handle(Event::Applied);
    assert_eq!(p.request(), Request::ProbeBinaries);
    p = p.handle(Event::Presence(vec![false, false]));
    assert_eq!(p.request(), Request::Finish);
    assert_eq!(p.outcome(), Some(Ok(())));
}

#[test]
fn with_the_toggle_off_the_core_library_is_probed() {
    let mut p = Pipeline::new(ordered_components(&Sources::released(), false)).unwrap();
    p = p.handle(Event::Presence(vec![true]));
    assert_eq!(p.request(), Request::ProbeMarkers(1));
    p = p.handle(Event::Presence(vec![true, true]));
    assert_eq!(p.phases()[1], Phase::AlreadyInstalled);
    assert_eq!(p.request(), Request::ProbeMarkers(2));
}

#[test]
fn fetch_failure_halts_and_leaves_earlier_components_installed() {
    let mut p = Pipeline::new(ordered_components(&Sources::released(), false)).unwrap();
    p = p.handle(Event::Presence(vec![true]));
    p = p.handle(Event::Presence(vec![true, true]));
    p = p.handle(Event::Presence(vec![false]));
    assert_eq!(p.request(), Request::Fetch(2));
    p = p.handle(Event::FetchFailed(FetchError::Unreachable));
    let error = PipelineError::Fetch(2, FetchError::Unreachable);
    assert_eq!(p.request(), Request::Halt(error));
    assert_eq!(p.outcome(), Some(Err(error)));
    assert_eq!(
        p.phases(),
        &vec![
            Phase::AlreadyInstalled,
            Phase::AlreadyInstalled,
            Phase::Fetching,
            Phase::NotStarted
        ]
    );
    // the run stays halted whatever comes
    p = p.handle(Event::Fetched);
    p = p.handle(Event::Applied);
    assert_eq!(p.request(), Request::Halt(error));
    assert!(p.performed().is_empty());
}

#[test]
fn each_fetch_error_is_passed_on() {
    for cause in [
        FetchError::Unreachable,
        FetchError::BadStatus,
        FetchError::ContentLengthMissing,
        FetchError::StreamInterrupted,
        FetchError::LocalWriteFailed,
        FetchError::DestinationExists,
    ] {
        let mut p = Pipeline::new(ordered_components(&Sources::released(), true)).unwrap();
        p = p.handle(Event::Presence(vec![false]));
        p = p.handle(Event::FetchFailed(cause));
        assert_eq!(p.outcome(), Some(Err(PipelineError::Fetch(0, cause))));
    }
}

#[test]
fn leftover_download_stops_the_run() {
    let mut d = disk(&["SpinRhythm.exe"]);
    d.working.insert(String::from("BepInEx.zip"));
    let mut p = Pipeline::new(ordered_components(&Sources::released(), true)).unwrap();
    assert_eq!(
        drive(&mut p, &mut d),
        Err(PipelineError::Fetch(0, FetchError::DestinationExists))
    );
    assert!(d.fetches.is_empty());
    assert_eq!(d.target, paths(&["SpinRhythm.exe"]));
}

#[test]
fn escaping_entry_halts_before_anything_is_unpacked() {
    let mut p = Pipeline::new(ordered_components(&Sources::released(), true)).unwrap();
    p = p.handle(Event::Presence(vec![false]));
    p = p.handle(Event::Fetched);
    assert_eq!(p.request(), Request::ListEntries(0));
    p = p.handle(Event::Entries(vec![
        String::from("BepInEx/core/BepInEx.dll"),
        String::from("../../outside.dll"),
    ]));
    let error = PipelineError::Install(0, InstallError::PathTraversal);
    assert_eq!(p.request(), Request::Halt(error));
    assert_eq!(p.performed(), &vec![Request::Fetch(0)]);
    assert_eq!(p.phases()[0], Phase::Installing);
}

#[test]
fn unreadable_archive_is_an_extraction_failure() {
    let mut p = Pipeline::new(ordered_components(&Sources::released(), true)).unwrap();
    p = p.handle(Event::Presence(vec![false]));
    p = p.handle(Event::Fetched);
    p = p.handle(Event::Failed);
    assert_eq!(
        p.outcome(),
        Some(Err(PipelineError::Install(0, InstallError::ExtractionFailed)))
    );
}

#[test]
fn failed_operations_halt_with_their_errors() {
    // extraction
    let mut p = Pipeline::new(ordered_components(&Sources::released(), true)).unwrap();
    p = p.handle(Event::Presence(vec![false]));
    p = p.handle(Event::Fetched);
    p = p.handle(Event::Entries(vec![]));
    p = p.handle(Event::Failed);
    assert_eq!(
        p.outcome(),
        Some(Err(PipelineError::Install(0, InstallError::ExtractionFailed)))
    );
    // deleting the download
    let mut p = Pipeline::new(ordered_components(&Sources::released(), true)).unwrap();
    p = p.handle(Event::Presence(vec![false]));
    p = p.handle(Event::Fetched);
    p = p.handle(Event::Entries(vec![]));
    p = p.handle(Event::Applied);
    p = p.handle(Event::Failed);
    assert_eq!(p.outcome(), Some(Err(PipelineError::Install(0, InstallError::CleanupFailed))));
    assert_eq!(p.performed(), &vec![Request::Fetch(0), Request::Apply(0, FileOp::Extract)]);
    // copying a single file
    let cs = vec![framework_component("a"), track_speed_component("b")];
    let mut p = Pipeline::new(cs).unwrap();
    p = p.handle(Event::Presence(vec![true]));
    p = p.handle(Event::Presence(vec![false]));
    p = p.handle(Event::Fetched);
    assert_eq!(p.request(), Request::Apply(1, FileOp::CopyFile));
    p = p.handle(Event::Failed);
    assert_eq!(p.outcome(), Some(Err(PipelineError::Install(1, InstallError::CopyFailed))));
}

#[test]
fn plugin_step_fails_when_the_plugins_directory_is_missing() {
    // the framework's marker is there, the directory it should have created is not
    let mut d = disk(&["SpinRhythm.exe", "BepInEx"]);
    let cs = vec![framework_component("a"), track_speed_component("b")];
    let mut p = Pipeline::new(cs).unwrap();
    assert_eq!(
        drive(&mut p, &mut d),
        Err(PipelineError::Install(1, InstallError::CopyFailed))
    );
}

#[test]
fn answers_that_do_not_fit_halt_the_run() {
    let mut p = Pipeline::new(ordered_components(&Sources::released(), true)).unwrap();
    p = p.handle(Event::Applied);
    assert_eq!(p.outcome(), Some(Err(PipelineError::UnexpectedEvent)));

    let mut p = Pipeline::new(ordered_components(&Sources::released(), true)).unwrap();
    p = p.handle(Event::Presence(vec![true, true]));
    assert_eq!(p.outcome(), Some(Err(PipelineError::UnexpectedEvent)));

    let mut p = Pipeline::new(ordered_components(&Sources::released(), true)).unwrap();
    p = p.handle(Event::Presence(vec![false]));
    p = p.handle(Event::Presence(vec![false]));
    assert_eq!(p.outcome(), Some(Err(PipelineError::UnexpectedEvent)));

    let mut p = Pipeline::new(Vec::new()).unwrap();
    assert_eq!(p.request(), Request::ProbeBinaries);
    p = p.handle(Event::Presence(vec![true]));
    assert_eq!(p.outcome(), Some(Err(PipelineError::UnexpectedEvent)));
}

#[test]
fn without_legacy_binary_the_three_names_are_untouched() {
    let mut d = disk(&INSTALLED);
    d.target.insert(String::from("BepInEx/plugins/SpeenChroma2.dll"));
    d.target.insert(String::from("UnityPlayer_IL2CPP.dll"));
    let before = d.target.clone();
    let mut p = Pipeline::new(ordered_components(&Sources::released(), false)).unwrap();
    assert_eq!(drive(&mut p, &mut d), Ok(()));
    assert!(p.performed().is_empty());
    assert_eq!(d.target, before);
}

#[test]
fn legacy_binary_takes_the_active_name() {
    let mut d = disk(&["UnityPlayer.dll", "UnityPlayer_Mono.dll"]);
    let mut p = Pipeline::new(Vec::new()).unwrap();
    assert_eq!(drive(&mut p, &mut d), Ok(()));
    assert_eq!(
        p.performed(),
        &vec![Request::Swap(FileOp::RetireActive), Request::Swap(FileOp::PromoteLegacy)]
    );
    assert_eq!(d.target, paths(&["UnityPlayer.dll", "UnityPlayer_IL2CPP.dll"]));
    // the guard is looked at again: a second run is a no-op
    let mut again = Pipeline::new(Vec::new()).unwrap();
    assert_eq!(drive(&mut again, &mut d), Ok(()));
    assert!(again.performed().is_empty());
    assert_eq!(d.target, paths(&["UnityPlayer.dll", "UnityPlayer_IL2CPP.dll"]));
}

#[test]
fn file_at_the_retired_name_is_deleted_first() {
    let mut d = disk(&["UnityPlayer.dll", "UnityPlayer_Mono.dll", "UnityPlayer_IL2CPP.dll"]);
    let mut p = Pipeline::new(Vec::new()).unwrap();
    assert_eq!(drive(&mut p, &mut d), Ok(()));
    assert_eq!(
        p.performed(),
        &vec![
            Request::Swap(FileOp::RemoveRetired),
            Request::Swap(FileOp::RetireActive),
            Request::Swap(FileOp::PromoteLegacy)
        ]
    );
    assert_eq!(d.target, paths(&["UnityPlayer.dll", "UnityPlayer_IL2CPP.dll"]));
}

#[test]
fn swap_failures_halt_with_their_errors() {
    let mut p = Pipeline::new(Vec::new()).unwrap();
    p = p.handle(Event::Presence(vec![true, true]));
    assert_eq!(p.request(), Request::Swap(FileOp::RemoveRetired));
    p = p.handle(Event::Failed);
    assert_eq!(p.outcome(), Some(Err(PipelineError::Swap(SwapError::DestinationBusy))));

    let mut p = Pipeline::new(Vec::new()).unwrap();
    p = p.handle(Event::Presence(vec![true, false]));
    assert_eq!(p.request(), Request::Swap(FileOp::RetireActive));
    p = p.handle(Event::Failed);
    assert_eq!(p.outcome(), Some(Err(PipelineError::Swap(SwapError::RenameFailed))));

    // the active binary is missing: the first rename fails
    let mut d = disk(&["UnityPlayer_Mono.dll"]);
    let mut p = Pipeline::new(Vec::new()).unwrap();
    assert_eq!(drive(&mut p, &mut d), Err(PipelineError::Swap(SwapError::RenameFailed)));
    assert_eq!(d.target, paths(&["UnityPlayer_Mono.dll"]));
}

#[test]
fn phases_never_go_backward() {
    fn rank(p: Phase) -> u8 {
        match p {
            Phase::NotStarted => 0,
            Phase::Fetching => 1,
            Phase::Installing => 2,
            Phase::Done | Phase::AlreadyInstalled => 3,
        }
    }
    let mut d = disk(&["BepInEx", "BepInEx/plugins"]);
    let mut p = Pipeline::new(ordered_components(&Sources::released(), true)).unwrap();
    let mut before: Vec<Phase> = p.phases().clone();
    loop {
        let request = p.request();
        if request == Request::Finish {
            break;
        }
        let event = answer(&p, &mut d, request);
        p = p.handle(event);
        let now: Vec<Phase> = p.phases().clone();
        for (a, b) in before.iter().zip(now.iter()) {
            assert!(rank(*a) <= rank(*b));
        }
        before = now;
    }
    assert_eq!(before[0], Phase::AlreadyInstalled);
}
