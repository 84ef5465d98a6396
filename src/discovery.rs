use vstd::prelude::*;
use vstd::string::*;

use crate::text::same_text;

verus! {

/// What a device directory supports, judged by the attribute files it holds.
#[derive(Clone, Copy, Debug, PartialEq, Eq, Structural)]
pub enum Capability {
    /// `brightness` and `max_brightness`: an LED or a backlight.
    Brightness,
    /// The brightness files and also `actual_brightness`, `bl_power` and `type`.
    Backlight,
    /// No error occurred, but the directory does not look like a device.
    Unsupported,
}

/// Why a path could not be classified.
#[derive(Debug)]
pub enum CapabilityCheckError {
    NotFound(String),
    PermissionDenied(String),
    NotADirectory(String),
    Unexpected { source: std::io::Error, whilst: String },
}

/// What was found at a path, before it is classified.
#[derive(Debug)]
pub enum PathProbe {
    Missing,
    PermissionDenied,
    /// Whether the path exists could not be told.
    Failed(std::io::Error),
    NotADirectory,
    /// A directory, with its entries in the order they were listed.
    Directory(Vec<EntryProbe>),
}

/// One entry of a device directory.
#[derive(Debug)]
pub enum EntryProbe {
    /// A regular file whose name is valid text.
    File(String),
    /// Anything else: a directory, a link, a name that is not text.
    Other,
    /// The entry could not be read.
    Failed(std::io::Error),
}

/// The names of the regular files among `entries`, in order.
pub open spec fn listed_files(entries: Seq<EntryProbe>) -> Seq<Seq<char>>
    decreases entries.len(),
{
    if entries.len() == 0 {
        seq![]
    } else {
        let rest = listed_files(entries.drop_last());
        match entries.last() {
            EntryProbe::File(name) => rest.push(name@),
            _ => rest,
        }
    }
}

/// The names that `files` hold.
pub open spec fn names(files: Seq<String>) -> Seq<Seq<char>> {
    files.map_values(|f: String| f@)
}

/// The capability of a directory whose regular files are named `files`.
pub open spec fn capability_of(files: Seq<Seq<char>>) -> Capability {
    let brightness = files.contains("brightness"@) && files.contains("max_brightness"@);
    let backlight = brightness && files.contains("actual_brightness"@) && files.contains(
        "bl_power"@,
    ) && files.contains("type"@);
    if backlight {
        Capability::Backlight
    } else if brightness {
        Capability::Brightness
    } else {
        Capability::Unsupported
    }
}

/// The index of the first entry that could not be read, if any.
pub open spec fn first_failure(entries: Seq<EntryProbe>) -> Option<int> {
    if exists|i: int| 0 <= i < entries.len() && #[trigger] entries[i] is Failed {
        Some(
            choose|i: int|
                0 <= i < entries.len() && #[trigger] entries[i] is Failed && forall|j: int|
                    0 <= j < i ==> !(#[trigger] entries[j] is Failed),
        )
    } else {
        None
    }
}

/// The outcome of classifying `path`, given what was found there.
pub open spec fn checked(path: Seq<char>, probe: PathProbe, r: Result<Capability, CapabilityCheckError>) -> bool {
    match probe {
        PathProbe::Missing => r matches Err(CapabilityCheckError::NotFound(p)) && p@ == path,
        PathProbe::PermissionDenied => r matches Err(CapabilityCheckError::PermissionDenied(p))
            && p@ == path,
        PathProbe::Failed(e) => r matches Err(CapabilityCheckError::Unexpected { source, whilst })
            && source == e && whilst@ == "attempting to read device path: "@ + path,
        PathProbe::NotADirectory => r matches Err(CapabilityCheckError::NotADirectory(p)) && p@
            == path,
        PathProbe::Directory(entries) => match first_failure(entries@) {
            Some(i) => r matches Err(CapabilityCheckError::Unexpected { source, whilst })
                && entries@[i] == EntryProbe::Failed(source) && whilst@
                == "iterating device path: "@ + path,
            None => r == Ok::<Capability, CapabilityCheckError>(
                capability_of(listed_files(entries@)),
            ),
        },
    }
}

/// Tells whether `files` holds a file called `name`.
fn lists(files: &Vec<String>, name: &str) -> (r: bool)
    ensures
        r == names(files@).contains(name@),
{
    let mut i: usize = 0;
    while i < files.len()
        invariant
            i <= files@.len(),
            forall|j: int| 0 <= j < i ==> files@[j]@ != name@,
        decreases files@.len() - i,
    {
        if same_text(files[i].as_str(), name) {
            assert(names(files@)[i as int] == name@);
            return true;
        }
        i = i + 1;
    }
    proof {
        if names(files@).contains(name@) {
            let k = choose|k: int| 0 <= k < names(files@).len() && names(files@)[k] == name@;
            assert(files@[k]@ == name@);
        }
    }
    false
}

impl CapabilityCheckError {
    /// Nothing exists at `path`.
    pub fn not_found(path: &str) -> (r: Self)
        ensures
            r matches CapabilityCheckError::NotFound(p) && p@ == path@,
    {
        CapabilityCheckError::NotFound(path.to_owned())
    }

    /// `path` may not be read.
    pub fn permission_denied(path: &str) -> (r: Self)
        ensures
            r matches CapabilityCheckError::PermissionDenied(p) && p@ == path@,
    {
        CapabilityCheckError::PermissionDenied(path.to_owned())
    }

    /// `path` is not a directory.
    pub fn not_a_directory(path: &str) -> (r: Self)
        ensures
            r matches CapabilityCheckError::NotADirectory(p) && p@ == path@,
    {
        CapabilityCheckError::NotADirectory(path.to_owned())
    }
}

impl Capability {
    /// The capability of a directory whose regular files are `files`.
    pub fn classify(files: &Vec<String>) -> (r: Capability)
        ensures
            r == capability_of(names(files@)),
    {
        let brightness = lists(files, "brightness") && lists(files, "max_brightness");
        let backlight = brightness && lists(files, "actual_brightness") && lists(files, "bl_power")
            && lists(files, "type");
        if backlight {
            Capability::Backlight
        } else if brightness {
            Capability::Brightness
        } else {
            Capability::Unsupported
        }
    }

    /// Classifies `path` from what was found there: the path must be a
    /// readable directory, and its regular files decide the capability.
    pub fn check(path: &str, probe: PathProbe) -> (r: Result<Capability, CapabilityCheckError>)
        ensures
            checked(path@, probe, r),
    {
        match probe {
            PathProbe::Missing => Err(CapabilityCheckError::not_found(path)),
            PathProbe::PermissionDenied => Err(CapabilityCheckError::permission_denied(path)),
            PathProbe::Failed(e) => {
                let whilst = String::from_str("attempting to read device path: ").concat(path);
                Err(CapabilityCheckError::Unexpected { source: e, whilst })
            },
            PathProbe::NotADirectory => Err(CapabilityCheckError::not_a_directory(path)),
            PathProbe::Directory(entries) => Capability::check_entries(path, entries),
        }
    }

    /// Classifies a directory from its entries; the first entry that could
    /// not be read ends the check.
    fn check_entries(path: &str, entries: Vec<EntryProbe>) -> (r: Result<Capability, CapabilityCheckError>)
        ensures
            checked(path@, PathProbe::Directory(entries), r),
    {
        let mut files: Vec<String> = Vec::new();
        let mut i: usize = 0;
        while i < entries.len()
            invariant
                i <= entries@.len(),
                names(files@) == listed_files(entries@.subrange(0, i as int)),
                forall|j: int| 0 <= j < i ==> !(#[trigger] entries@[j] is Failed),
            decreases entries@.len() - i,
        {
            assert(entries@.subrange(0, i + 1).drop_last() =~= entries@.subrange(0, i as int));
            match &entries[i] {
                EntryProbe::File(name) => {
                    files.push(name.clone());
                    assert(names(files@) =~= listed_files(entries@.subrange(0, i + 1)));
                },
                EntryProbe::Other => {},
                EntryProbe::Failed(_) => {
                    proof {
                        assert(first_failure(entries@) == Some(i as int));
                    }
                    let mut entries = entries;
                    let failed = entries.remove(i);
                    let whilst = String::from_str("iterating device path: ").concat(path);
                    return match failed {
                        EntryProbe::Failed(source) => Err(CapabilityCheckError::Unexpected { source, whilst }),
                        // Not reached: the entry at `i` is the failed one.
                        _ => Ok(Capability::Unsupported),
                    };
                },
            }
            i = i + 1;
        }
        assert(entries@.subrange(0, i as int) =~= entries@);
        Ok(Capability::classify(&files))
    }
}

/// The capability that a probe leads to, when classification succeeds.
pub open spec fn probed_capability(probe: PathProbe) -> Option<Capability> {
    match probe {
        PathProbe::Directory(entries) => if first_failure(entries@) is None {
            Some(capability_of(listed_files(entries@)))
        } else {
            None
        },
        _ => None,
    }
}

/// Where the last segment of a path begins: just after its last `/`.
pub open spec fn segment_start(path: Seq<char>) -> nat
    decreases path.len(),
{
    if path.len() == 0 {
        0
    } else if path.last() == '/' {
        path.len()
    } else {
        segment_start(path.drop_last())
    }
}

/// The last segment of a path: what follows its last `/`.
pub open spec fn last_segment(path: Seq<char>) -> Seq<char> {
    path.subrange(segment_start(path) as int, path.len() as int)
}

/// A device found on the system.
#[derive(Clone, Debug, PartialEq, Eq)]
pub struct DeviceDetail {
    pub path: String,
    /// The last segment of the path.
    pub name: String,
    pub capability: Capability,
}

impl DeviceDetail {
    /// The path, name and capability of the device.
    pub open spec fn view(self) -> (Seq<char>, Seq<char>, Capability) {
        (self.path@, self.name@, self.capability)
    }

    /// The device at `path`, given what was found there; none unless the path
    /// is a readable directory holding at least the brightness files.
    pub fn from_probe(path: &str, probe: PathProbe) -> (r: Option<DeviceDetail>)
        ensures
            r matches Some(d) <==> (probed_capability(probe) matches Some(c) && c
                != Capability::Unsupported),
            r matches Some(d) ==> d.view() == (
                path@,
                last_segment(path@),
                probed_capability(probe)->Some_0,
            ),
    {
        let checked = Capability::check(path, probe);
        match checked {
            Ok(capability) => {
                if capability == Capability::Unsupported {
                    None
                } else {
                    Some(
                        DeviceDetail {
                            path: path.to_owned(),
                            name: final_segment(path),
                            capability,
                        },
                    )
                }
            },
            Err(_) => None,
        }
    }
}

/// The last segment of `path`.
pub fn final_segment(path: &str) -> (r: String)
    ensures
        r@ == last_segment(path@),
{
    let n = path.unicode_len();
    let mut i: usize = n;
    let mut at_slash = false;
    assert(path@.subrange(0, n as int) =~= path@);
    while i > 0 && !at_slash
        invariant
            n == path@.len(),
            i <= n,
            segment_start(path@.subrange(0, i as int)) == segment_start(path@),
            at_slash ==> i > 0 && path@[i - 1] == '/',
        decreases i + (if at_slash { 0int } else { 1int }),
    {
        if path.get_char(i - 1) == '/' {
            at_slash = true;
        } else {
            assert(path@.subrange(0, i as int).drop_last() =~= path@.subrange(0, i - 1));
            i = i - 1;
        }
    }
    assert(segment_start(path@) == i);
    path.substring_char(i, n).to_owned()
}

/// A directory entry under one of the device roots, with what was found there.
#[derive(Debug)]
pub struct Candidate {
    pub path: String,
    pub probe: PathProbe,
}

/// The devices among `candidates`, in order.
pub open spec fn detected(candidates: Seq<Candidate>) -> Seq<(Seq<char>, Seq<char>, Capability)>
    decreases candidates.len(),
{
    if candidates.len() == 0 {
        seq![]
    } else {
        let rest = detected(candidates.drop_last());
        let c = candidates.last();
        match probed_capability(c.probe) {
            Some(cap) => if cap != Capability::Unsupported {
                rest.push((c.path@, last_segment(c.path@), cap))
            } else {
                rest
            },
            None => rest,
        }
    }
}

/// Keeps the candidates that are devices, in the order they were listed:
/// those that could not be read or do not look like devices are skipped.
pub fn find_devices(candidates: Vec<Candidate>) -> (r: Vec<DeviceDetail>)
    ensures
        r@.map_values(|d: DeviceDetail| d.view()) == detected(candidates@),
{
    let ghost all = candidates@;
    let total = candidates.len();
    let mut rest = candidates;
    let mut found: Vec<DeviceDetail> = Vec::new();
    let mut k: usize = 0;
    while rest.len() > 0
        invariant
            k <= all.len(),
            all.len() == total,
            rest@ == all.subrange(k as int, all.len() as int),
            found@.map_values(|d: DeviceDetail| d.view()) == detected(all.subrange(0, k as int)),
        decreases rest@.len(),
    {
        let candidate = rest.remove(0);
        assert(candidate == all[k as int]);
        assert(all.subrange(0, k + 1).drop_last() =~= all.subrange(0, k as int));
        let ghost before = found@;
        match DeviceDetail::from_probe(candidate.path.as_str(), candidate.probe) {
            Some(device) => {
                found.push(device);
                assert(found@.map_values(|d: DeviceDetail| d.view()) =~= before.map_values(
                    |d: DeviceDetail| d.view(),
                ).push(device.view()));
            },
            None => {},
        }
        k = k + 1;
    }
    assert(all.subrange(0, k as int) =~= all);
    found
}

} // verus!
