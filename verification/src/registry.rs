//! The fixed, ordered table of installable components.
//!
//! Every path in a descriptor is relative to the target directory and uses
//! `/` between its segments; the empty path is the target directory itself.

use vstd::prelude::*;
use vstd::string::*;
use crate::errors::PipelineError;

verus! {

/// How a component's download is placed.
#[derive(Clone, Copy, Debug, PartialEq, Eq, Structural)]
pub enum ComponentKind {
    /// A zip archive, unpacked into the destination directory.
    Archive,
    /// One file, copied to the destination path.
    SingleFile,
}

/// Mathematical content of a [`ComponentDescriptor`].
pub ghost struct DescriptorView {
    pub name: Seq<char>,
    pub source_uri: Seq<char>,
    pub working_file: Seq<char>,
    pub kind: ComponentKind,
    pub destination: Seq<char>,
    pub installed_markers: Seq<Seq<char>>,
    pub always_reinstall: bool,
    pub stale_artifacts: Seq<Seq<char>>,
    pub required_dir: Option<Seq<char>>,
    pub created_dir: Option<Seq<char>>,
}

/// One installable component.
#[derive(Clone, Debug)]
pub struct ComponentDescriptor {
    /// Name shown to the user.
    pub name: String,
    /// Where the component is fetched from.
    pub source_uri: String,
    /// Name of the temporary download in the working directory.
    pub working_file: String,
    /// Whether the download is unpacked or copied.
    pub kind: ComponentKind,
    /// Directory to unpack into, or path to copy to.
    pub destination: String,
    /// The component counts as installed when all of these paths exist.
    pub installed_markers: Vec<String>,
    /// Install on every run, without looking at the markers.
    pub always_reinstall: bool,
    /// Files of an older installation, deleted before the new one is placed.
    pub stale_artifacts: Vec<String>,
    /// Directory that an earlier component has to have created.
    pub required_dir: Option<String>,
    /// Empty directory created once the download is placed.
    pub created_dir: Option<String>,
}

impl View for ComponentDescriptor {
    type V = DescriptorView;

    open spec fn view(&self) -> DescriptorView {
        DescriptorView {
            name: self.name@,
            source_uri: self.source_uri@,
            working_file: self.working_file@,
            kind: self.kind,
            destination: self.destination@,
            installed_markers: self.installed_markers.deep_view(),
            always_reinstall: self.always_reinstall,
            stale_artifacts: self.stale_artifacts.deep_view(),
            required_dir: self.required_dir.deep_view(),
            created_dir: self.created_dir.deep_view(),
        }
    }
}

/// The views of a list of descriptors, in order.
pub open spec fn descriptor_views(components: Seq<ComponentDescriptor>) -> Seq<DescriptorView> {
    Seq::new(components.len(), |i: int| components[i]@)
}

/// The four remote resources.
#[derive(Clone, Debug)]
pub struct Sources {
    pub framework: String,
    pub core_library: String,
    pub track_speed: String,
    pub chroma: String,
}

/// Mathematical content of [`Sources`].
pub ghost struct SourcesView {
    pub framework: Seq<char>,
    pub core_library: Seq<char>,
    pub track_speed: Seq<char>,
    pub chroma: Seq<char>,
}

impl View for Sources {
    type V = SourcesView;

    open spec fn view(&self) -> SourcesView {
        SourcesView {
            framework: self.framework@,
            core_library: self.core_library@,
            track_speed: self.track_speed@,
            chroma: self.chroma@,
        }
    }
}

/// The released resources that the installer fetches by default.
pub open spec fn released_sources() -> SourcesView {
    SourcesView {
        framework: "https://github.com/BepInEx/BepInEx/releases/download/v5.4.23.2/BepInEx_win_x64_5.4.23.2.zip"@,
        core_library: "https://github.com/Raoul1808/SpinCore/releases/download/v1.1.0/SpinCore.zip"@,
        track_speed: "https://github.com/Raoul1808/DynamicTrackSpeed/releases/download/v1.5.0/DynamicTrackSpeed.dll"@,
        chroma: "https://github.com/Raoul1808/SpeenChroma2/releases/download/v2.1.0/SpeenChroma2.dll"@,
    }
}

impl Sources {
    /// The released resources.
    pub fn released() -> (s: Sources)
        ensures
            s@ == released_sources(),
    {
        Sources {
            framework: String::from_str(
                "https://github.com/BepInEx/BepInEx/releases/download/v5.4.23.2/BepInEx_win_x64_5.4.23.2.zip",
            ),
            core_library: String::from_str(
                "https://github.com/Raoul1808/SpinCore/releases/download/v1.1.0/SpinCore.zip",
            ),
            track_speed: String::from_str(
                "https://github.com/Raoul1808/DynamicTrackSpeed/releases/download/v1.5.0/DynamicTrackSpeed.dll",
            ),
            chroma: String::from_str(
                "https://github.com/Raoul1808/SpeenChroma2/releases/download/v2.1.0/SpeenChroma2.dll",
            ),
        }
    }
}

/// The framework's directory, whose presence marks the framework as
/// installed.
pub open spec fn framework_dir() -> Seq<char> {
    "BepInEx"@
}

/// The directory that plugins are placed in.
pub open spec fn plugins_dir() -> Seq<char> {
    "BepInEx/plugins"@
}

/// The framework: an archive unpacked into the target directory itself,
/// followed by the creation of the empty plugins directory.
pub open spec fn framework_descriptor(uri: Seq<char>) -> DescriptorView {
    DescriptorView {
        name: "BepInEx"@,
        source_uri: uri,
        working_file: "BepInEx.zip"@,
        kind: ComponentKind::Archive,
        destination: ""@,
        installed_markers: seq![framework_dir()],
        always_reinstall: false,
        stale_artifacts: Seq::empty(),
        required_dir: None,
        created_dir: Some(plugins_dir()),
    }
}

/// The core-library plugin: an archive of two artifacts unpacked into the
/// plugins directory, where the artifacts of an older installation are
/// deleted first.
pub open spec fn core_library_descriptor(uri: Seq<char>, always_reinstall: bool) -> DescriptorView {
    DescriptorView {
        name: "SpinCore"@,
        source_uri: uri,
        working_file: "SpinCore.zip"@,
        kind: ComponentKind::Archive,
        destination: plugins_dir(),
        installed_markers: seq![
            "BepInEx/plugins/SpinCore.dll"@,
            "BepInEx/plugins/Newtonsoft.Json.dll"@,
        ],
        always_reinstall,
        stale_artifacts: seq![
            "BepInEx/plugins/SpinCore.dll"@,
            "BepInEx/plugins/Newtonsoft.Json.dll"@,
        ],
        required_dir: Some(plugins_dir()),
        created_dir: None,
    }
}

/// The track-speed plugin: one file copied into the plugins directory.
pub open spec fn track_speed_descriptor(uri: Seq<char>) -> DescriptorView {
    DescriptorView {
        name: "DynamicTrackSpeed"@,
        source_uri: uri,
        working_file: "DynamicTrackSpeed.dll"@,
        kind: ComponentKind::SingleFile,
        destination: "BepInEx/plugins/DynamicTrackSpeed.dll"@,
        installed_markers: seq!["BepInEx/plugins/DynamicTrackSpeed.dll"@],
        always_reinstall: false,
        stale_artifacts: Seq::empty(),
        required_dir: Some(plugins_dir()),
        created_dir: None,
    }
}

/// The chroma plugin: one file copied into the plugins directory.
pub open spec fn chroma_descriptor(uri: Seq<char>) -> DescriptorView {
    DescriptorView {
        name: "SpeenChroma2"@,
        source_uri: uri,
        working_file: "SpeenChroma2.dll"@,
        kind: ComponentKind::SingleFile,
        destination: "BepInEx/plugins/SpeenChroma2.dll"@,
        installed_markers: seq!["BepInEx/plugins/SpeenChroma2.dll"@],
        always_reinstall: false,
        stale_artifacts: Seq::empty(),
        required_dir: Some(plugins_dir()),
        created_dir: None,
    }
}

/// The component table: the framework first, then the three plugins.
pub open spec fn catalogue(sources: SourcesView, reinstall_core_library: bool) -> Seq<
    DescriptorView,
> {
    seq![
        framework_descriptor(sources.framework),
        core_library_descriptor(sources.core_library, reinstall_core_library),
        track_speed_descriptor(sources.track_speed),
        chroma_descriptor(sources.chroma),
    ]
}

/// Whether the component at `i` finds the directory it needs: it needs
/// none, or an earlier component creates it.
pub open spec fn placed_after_provider(components: Seq<DescriptorView>, i: int) -> bool {
    components[i].required_dir is Some ==> exists|j: int|
        0 <= j < i && (#[trigger] components[j]).created_dir == components[i].required_dir
}

/// Whether every component comes after the one that creates the directory
/// it is placed in.
pub open spec fn well_ordered(components: Seq<DescriptorView>) -> bool {
    forall|i: int| 0 <= i < components.len() ==> placed_after_provider(components, i)
}

/// Whether the component at `i` is the first that does not find the
/// directory it needs.
pub open spec fn is_first_misplaced(components: Seq<DescriptorView>, i: int) -> bool {
    &&& 0 <= i < components.len()
    &&& !placed_after_provider(components, i)
    &&& forall|k: int| 0 <= k < i ==> placed_after_provider(components, k)
}

fn one_path(a: &str) -> (v: Vec<String>)
    ensures
        v.deep_view() == seq![a@],
{
    let mut v: Vec<String> = Vec::new();
    v.push(String::from_str(a));
    assert(v.deep_view() =~= seq![a@]);
    v
}

fn two_paths(a: &str, b: &str) -> (v: Vec<String>)
    ensures
        v.deep_view() == seq![a@, b@],
{
    let mut v: Vec<String> = Vec::new();
    v.push(String::from_str(a));
    v.push(String::from_str(b));
    assert(v.deep_view() =~= seq![a@, b@]);
    v
}

fn no_paths() -> (v: Vec<String>)
    ensures
        v.deep_view() == Seq::<Seq<char>>::empty(),
{
    let v: Vec<String> = Vec::new();
    assert(v.deep_view() =~= Seq::<Seq<char>>::empty());
    v
}

/// The framework component, fetched from `uri`.
pub fn framework_component(uri: &str) -> (d: ComponentDescriptor)
    ensures
        d@ == framework_descriptor(uri@),
{
    ComponentDescriptor {
        name: String::from_str("BepInEx"),
        source_uri: String::from_str(uri),
        working_file: String::from_str("BepInEx.zip"),
        kind: ComponentKind::Archive,
        destination: String::from_str(""),
        installed_markers: one_path("BepInEx"),
        always_reinstall: false,
        stale_artifacts: no_paths(),
        required_dir: None,
        created_dir: Some(String::from_str("BepInEx/plugins")),
    }
}

/// The core-library plugin, fetched from `uri`. With `always_reinstall` it
/// is installed on every run; without, only when one of its two artifacts
/// is missing.
pub fn core_library_component(uri: &str, always_reinstall: bool) -> (d: ComponentDescriptor)
    ensures
        d@ == core_library_descriptor(uri@, always_reinstall),
{
    ComponentDescriptor {
        name: String::from_str("SpinCore"),
        source_uri: String::from_str(uri),
        working_file: String::from_str("SpinCore.zip"),
        kind: ComponentKind::Archive,
        destination: String::from_str("BepInEx/plugins"),
        installed_markers: two_paths(
            "BepInEx/plugins/SpinCore.dll",
            "BepInEx/plugins/Newtonsoft.Json.dll",
        ),
        always_reinstall,
        stale_artifacts: two_paths(
            "BepInEx/plugins/SpinCore.dll",
            "BepInEx/plugins/Newtonsoft.Json.dll",
        ),
        required_dir: Some(String::from_str("BepInEx/plugins")),
        created_dir: None,
    }
}

/// The track-speed plugin, fetched from `uri`.
pub fn track_speed_component(uri: &str) -> (d: ComponentDescriptor)
    ensures
        d@ == track_speed_descriptor(uri@),
{
    ComponentDescriptor {
        name: String::from_str("DynamicTrackSpeed"),
        source_uri: String::from_str(uri),
        working_file: String::from_str("DynamicTrackSpeed.dll"),
        kind: ComponentKind::SingleFile,
        destination: String::from_str("BepInEx/plugins/DynamicTrackSpeed.dll"),
        installed_markers: one_path("BepInEx/plugins/DynamicTrackSpeed.dll"),
        always_reinstall: false,
        stale_artifacts: no_paths(),
        required_dir: Some(String::from_str("BepInEx/plugins")),
        created_dir: None,
    }
}

/// The chroma plugin, fetched from `uri`.
pub fn chroma_component(uri: &str) -> (d: ComponentDescriptor)
    ensures
        d@ == chroma_descriptor(uri@),
{
    ComponentDescriptor {
        name: String::from_str("SpeenChroma2"),
        source_uri: String::from_str(uri),
        working_file: String::from_str("SpeenChroma2.dll"),
        kind: ComponentKind::SingleFile,
        destination: String::from_str("BepInEx/plugins/SpeenChroma2.dll"),
        installed_markers: one_path("BepInEx/plugins/SpeenChroma2.dll"),
        always_reinstall: false,
        stale_artifacts: no_paths(),
        required_dir: Some(String::from_str("BepInEx/plugins")),
        created_dir: None,
    }
}

/// The component table in the order in which it has to be applied. The
/// core-library plugin is reinstalled on every run when
/// `reinstall_core_library` is set.
pub fn ordered_components(sources: &Sources, reinstall_core_library: bool) -> (components: Vec<
    ComponentDescriptor,
>)
    ensures
        descriptor_views(components@) == catalogue(sources@, reinstall_core_library),
        well_ordered(descriptor_views(components@)),
{
    let mut components: Vec<ComponentDescriptor> = Vec::new();
    components.push(framework_component(sources.framework.as_str()));
    components.push(core_library_component(sources.core_library.as_str(), reinstall_core_library));
    components.push(track_speed_component(sources.track_speed.as_str()));
    components.push(chroma_component(sources.chroma.as_str()));
    proof {
        assert(descriptor_views(components@) =~= catalogue(sources@, reinstall_core_library));
        lemma_catalogue_well_ordered(sources@, reinstall_core_library);
    }
    components
}

/// In the component table every plugin comes after the framework, which
/// creates the directory the plugins are placed in.
pub proof fn lemma_catalogue_well_ordered(sources: SourcesView, reinstall_core_library: bool)
    ensures
        well_ordered(catalogue(sources, reinstall_core_library)),
{
    let c = catalogue(sources, reinstall_core_library);
    assert forall|i: int| 0 <= i < c.len() implies placed_after_provider(c, i) by {
        if i > 0 {
            assert(c[0].created_dir == c[i].required_dir);
        }
    }
}

/// Looks for the first component that needs a directory which no earlier
/// component creates, and reports its position.
pub fn check_order(components: &Vec<ComponentDescriptor>) -> (r: Result<(), PipelineError>)
    ensures
        match r {
            Ok(_) => well_ordered(descriptor_views(components@)),
            Err(PipelineError::OrderViolation(i)) => is_first_misplaced(
                descriptor_views(components@),
                i as int,
            ),
            Err(_) => false,
        },
{
    let ghost views = descriptor_views(components@);
    let mut i: usize = 0;
    while i < components.len()
        invariant
            i <= components.len(),
            views == descriptor_views(components@),
            forall|k: int| 0 <= k < i ==> placed_after_provider(views, k),
        decreases components.len() - i,
    {
        match &components[i].required_dir {
            None => {
                assert(views[i as int].required_dir is None);
            },
            Some(needed) => {
                let mut found = false;
                let mut j: usize = 0;
                while j < i
                    invariant
                        j <= i < components.len(),
                        views == descriptor_views(components@),
                        views[i as int].required_dir == Some(needed@),
                        found ==> placed_after_provider(views, i as int),
                        !found ==> forall|k: int|
                            0 <= k < j ==> (#[trigger] views[k]).created_dir != Some(needed@),
                    decreases i - j,
                {
                    match &components[j].created_dir {
                        None => {
                            assert(views[j as int].created_dir is None);
                        },
                        Some(created) => {
                            assert(views[j as int].created_dir == Some(created@));
                            if *created == *needed {
                                found = true;
                            }
                        },
                    }
                    j = j + 1;
                }
                if !found {
                    proof {
                        assert(!placed_after_provider(views, i as int));
                    }
                    return Err(PipelineError::OrderViolation(i));
                }
            },
        }
        i = i + 1;
    }
    Ok(())
}

} // verus!
