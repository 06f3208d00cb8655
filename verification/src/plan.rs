//! The filesystem operations that place a downloaded component, and those
//! of the final exchange of the platform binaries, in the order in which
//! they are performed.

use vstd::prelude::*;
use crate::errors::{InstallError, PipelineError, SwapError};
use crate::registry::{ComponentDescriptor, ComponentKind, DescriptorView};

verus! {

/// One filesystem operation, performed by the driver.
#[derive(Clone, Copy, Debug, PartialEq, Eq, Structural)]
pub enum FileOp {
    /// Delete the stale artifact at this position of the component's list.
    RemoveStale(usize),
    /// Unpack the download into the component's destination directory,
    /// creating that directory if it is absent.
    Extract,
    /// Copy the download to the component's destination path.
    CopyFile,
    /// Delete the temporary download.
    RemoveDownload,
    /// Create the component's empty directory.
    CreateDir,
    /// Delete the file that stands where the active binary is retired to.
    RemoveRetired,
    /// Rename the active binary to its retired name.
    RetireActive,
    /// Rename the legacy binary to the active name.
    PromoteLegacy,
}

/// The removals of the stale artifacts among the first `n` that are
/// present, in the order of the list.
pub open spec fn stale_removals(present: Seq<bool>, n: nat) -> Seq<FileOp>
    decreases n,
{
    if n == 0 || n > present.len() {
        Seq::empty()
    } else if present[n - 1] {
        stale_removals(present, (n - 1) as nat).push(FileOp::RemoveStale((n - 1) as usize))
    } else {
        stale_removals(present, (n - 1) as nat)
    }
}

/// The operation that places a download of this kind.
pub open spec fn placement(kind: ComponentKind) -> FileOp {
    match kind {
        ComponentKind::Archive => FileOp::Extract,
        ComponentKind::SingleFile => FileOp::CopyFile,
    }
}

/// The operations that install a downloaded component: the stale artifacts
/// that are present are deleted, the download is placed, the download is
/// deleted, and the component's empty directory, if it has one, is created.
pub open spec fn install_ops(component: DescriptorView, stale_present: Seq<bool>) -> Seq<FileOp> {
    stale_removals(stale_present, stale_present.len()) + seq![
        placement(component.kind),
        FileOp::RemoveDownload,
    ] + if component.created_dir is Some {
        seq![FileOp::CreateDir]
    } else {
        Seq::empty()
    }
}

/// The operations of the binary swap. Without the legacy binary there are
/// none. With it, whatever stands at the retired name is deleted first, then
/// the active binary is retired and the legacy binary takes its name.
pub open spec fn swap_ops(legacy_present: bool, retired_present: bool) -> Seq<FileOp> {
    if !legacy_present {
        Seq::empty()
    } else if retired_present {
        seq![FileOp::RemoveRetired, FileOp::RetireActive, FileOp::PromoteLegacy]
    } else {
        seq![FileOp::RetireActive, FileOp::PromoteLegacy]
    }
}

/// Whether an operation belongs to the installation of a component.
pub open spec fn is_install_op(op: FileOp) -> bool {
    op is RemoveStale || op is Extract || op is CopyFile || op is RemoveDownload || op is CreateDir
}

/// The error that the failure of an operation on the component at
/// `component` stands for.
pub open spec fn failure_of_op(op: FileOp, component: usize) -> PipelineError {
    match op {
        FileOp::RemoveStale(_) => PipelineError::Install(component, InstallError::CleanupFailed),
        FileOp::Extract => PipelineError::Install(component, InstallError::ExtractionFailed),
        FileOp::CopyFile => PipelineError::Install(component, InstallError::CopyFailed),
        FileOp::RemoveDownload => PipelineError::Install(component, InstallError::CleanupFailed),
        FileOp::CreateDir => PipelineError::Install(component, InstallError::ExtractionFailed),
        FileOp::RemoveRetired => PipelineError::Swap(SwapError::DestinationBusy),
        FileOp::RetireActive => PipelineError::Swap(SwapError::RenameFailed),
        FileOp::PromoteLegacy => PipelineError::Swap(SwapError::RenameFailed),
    }
}

/// Every removal among the first `n` names a position below `n` at which
/// the artifact is present, and there are at most `n` of them.
pub proof fn lemma_stale_removals(present: Seq<bool>, n: nat)
    requires
        n <= present.len() <= usize::MAX,
    ensures
        stale_removals(present, n).len() <= n,
        forall|j: int|
            0 <= j < stale_removals(present, n).len() ==> match #[trigger] stale_removals(
                present,
                n,
            )[j] {
                FileOp::RemoveStale(k) => k < n && present[k as int],
                _ => false,
            },
    decreases n,
{
    if n > 0 {
        lemma_stale_removals(present, (n - 1) as nat);
    }
}

/// In an installation the download is placed exactly once, deleted right
/// after that, and never touched again; every operation belongs to an
/// installation, and every removal of a stale artifact names one that is
/// listed and present.
pub proof fn lemma_install_ops(component: DescriptorView, stale_present: Seq<bool>)
    requires
        stale_present.len() <= usize::MAX,
    ensures
        ({
            let ops = install_ops(component, stale_present);
            let at = stale_removals(stale_present, stale_present.len()).len() as int;
            &&& at <= stale_present.len()
            &&& ops.len() == at + 2 + if component.created_dir is Some {
                1int
            } else {
                0int
            }
            &&& component.created_dir is Some ==> ops[at + 2] == FileOp::CreateDir
            &&& ops[at] == placement(component.kind)
            &&& ops[at + 1] == FileOp::RemoveDownload
            &&& forall|j: int|
                0 <= j < ops.len() && j != at ==> !((#[trigger] ops[j]) is Extract) && !(ops[j]
                    is CopyFile)
            &&& forall|j: int|
                0 <= j < ops.len() && j != at + 1 ==> !((#[trigger] ops[j]) is RemoveDownload)
            &&& forall|j: int| 0 <= j < ops.len() ==> is_install_op(#[trigger] ops[j])
            &&& forall|j: int|
                0 <= j < ops.len() ==> match #[trigger] ops[j] {
                    FileOp::RemoveStale(k) => k < stale_present.len() && stale_present[k as int],
                    _ => true,
                }
        }),
{
    lemma_stale_removals(stale_present, stale_present.len());
}

/// Plans the installation of a downloaded component, given for each of its
/// stale artifacts whether it is present.
pub fn install_plan(component: &ComponentDescriptor, stale_present: &Vec<bool>) -> (ops: Vec<
    FileOp,
>)
    ensures
        ops@ == install_ops(component@, stale_present@),
{
    let mut ops: Vec<FileOp> = Vec::new();
    let mut k: usize = 0;
    while k < stale_present.len()
        invariant
            k <= stale_present.len(),
            ops@ == stale_removals(stale_present@, k as nat),
        decreases stale_present.len() - k,
    {
        if stale_present[k] {
            ops.push(FileOp::RemoveStale(k));
        }
        k = k + 1;
    }
    match component.kind {
        ComponentKind::Archive => ops.push(FileOp::Extract),
        ComponentKind::SingleFile => ops.push(FileOp::CopyFile),
    }
    ops.push(FileOp::RemoveDownload);
    if component.created_dir.is_some() {
        ops.push(FileOp::CreateDir);
    }
    assert(ops@ =~= install_ops(component@, stale_present@));
    ops
}

/// Plans the binary swap from the presence of the legacy binary and of a
/// file at the retired name.
pub fn swap_plan(legacy_present: bool, retired_present: bool) -> (ops: Vec<FileOp>)
    ensures
        ops@ == swap_ops(legacy_present, retired_present),
        !legacy_present ==> ops@.len() == 0,
{
    let mut ops: Vec<FileOp> = Vec::new();
    if legacy_present {
        if retired_present {
            ops.push(FileOp::RemoveRetired);
        }
        ops.push(FileOp::RetireActive);
        ops.push(FileOp::PromoteLegacy);
    }
    assert(ops@ =~= swap_ops(legacy_present, retired_present));
    ops
}

/// The error that the failure of `op` on the component at `component`
/// stands for.
pub fn failure_of(op: FileOp, component: usize) -> (e: PipelineError)
    ensures
        e == failure_of_op(op, component),
{
    match op {
        FileOp::RemoveStale(_) => PipelineError::Install(component, InstallError::CleanupFailed),
        FileOp::Extract => PipelineError::Install(component, InstallError::ExtractionFailed),
        FileOp::CopyFile => PipelineError::Install(component, InstallError::CopyFailed),
        FileOp::RemoveDownload => PipelineError::Install(component, InstallError::CleanupFailed),
        FileOp::CreateDir => PipelineError::Install(component, InstallError::ExtractionFailed),
        FileOp::RemoveRetired => PipelineError::Swap(SwapError::DestinationBusy),
        FileOp::RetireActive => PipelineError::Swap(SwapError::RenameFailed),
        FileOp::PromoteLegacy => PipelineError::Swap(SwapError::RenameFailed),
    }
}

/// Name of the binary that the application loads.
pub fn active_binary() -> (name: &'static str)
    ensures
        name@ == "UnityPlayer.dll"@,
{
    "UnityPlayer.dll"
}

/// Name of the legacy binary, whose presence calls for the swap.
pub fn legacy_binary() -> (name: &'static str)
    ensures
        name@ == "UnityPlayer_Mono.dll"@,
{
    "UnityPlayer_Mono.dll"
}

/// Name under which the active binary is retired.
pub fn retired_binary() -> (name: &'static str)
    ensures
        name@ == "UnityPlayer_IL2CPP.dll"@,
{
    "UnityPlayer_IL2CPP.dll"
}

} // verus!
