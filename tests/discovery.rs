use slight::discovery::{
    final_segment, find_devices, Candidate, Capability, CapabilityCheckError, DeviceDetail,
    EntryProbe, PathProbe,
};

fn files(names: &[&str]) -> Vec<String> {
    names.iter().map(|n| n.to_string()).collect()
}

fn dir(names: &[&str]) -> PathProbe {
    PathProbe::Directory(names.iter().map(|n| EntryProbe::File(n.to_string())).collect())
}

fn io_error() -> std::io::Error {
    std::io::Error::new(std::io::ErrorKind::Other, "disk on fire")
}

#[test]
fn brightness_files_make_a_brightness_device() {
    assert_eq!(Capability::classify(&files(&["brightness", "max_brightness"])), Capability::Brightness);
    assert_eq!(
        Capability::classify(&files(&["uevent", "max_brightness", "trigger", "brightness"])),
        Capability::Brightness
    );
}

#[test]
fn backlight_files_make_a_backlight() {
    let all = ["brightness", "max_brightness", "actual_brightness", "bl_power", "type"];
    assert_eq!(Capability::classify(&files(&all)), Capability::Backlight);
    assert_eq!(Capability::classify(&files(&all[..4])), Capability::Brightness);
}

#[test]
fn partial_sets_are_unsupported() {
    assert_eq!(Capability::classify(&files(&["brightness"])), Capability::Unsupported);
    assert_eq!(Capability::classify(&files(&[])), Capability::Unsupported);
    assert_eq!(
        Capability::classify(&files(&["actual_brightness", "bl_power", "type", "max_brightness"])),
        Capability::Unsupported
    );
    assert_eq!(Capability::classify(&files(&["Brightness", "max_brightness"])), Capability::Unsupported);
}

#[test]
fn check_directory_entries() {
    let probe = PathProbe::Directory(vec![
        EntryProbe::File("brightness".to_string()),
        EntryProbe::Other,
        EntryProbe::File("max_brightness".to_string()),
    ]);
    assert!(matches!(Capability::check("/sys/class/leds/a", probe), Ok(Capability::Brightness)));
    // A subdirectory called like an attribute does not count.
    let probe = PathProbe::Directory(vec![EntryProbe::File("brightness".to_string()), EntryProbe::Other]);
    assert!(matches!(Capability::check("/x", probe), Ok(Capability::Unsupported)));
}

#[test]
fn check_path_errors() {
    match Capability::check("/nope", PathProbe::Missing) {
        Err(CapabilityCheckError::NotFound(p)) => assert_eq!(p, "/nope"),
        other => panic!("unexpected {:?}", other),
    }
    match Capability::check("/secret", PathProbe::PermissionDenied) {
        Err(CapabilityCheckError::PermissionDenied(p)) => assert_eq!(p, "/secret"),
        other => panic!("unexpected {:?}", other),
    }
    match Capability::check("/file", PathProbe::NotADirectory) {
        Err(CapabilityCheckError::NotADirectory(p)) => assert_eq!(p, "/file"),
        other => panic!("unexpected {:?}", other),
    }
    match Capability::check("/d", PathProbe::Failed(io_error())) {
        Err(CapabilityCheckError::Unexpected { source, whilst }) => {
            assert_eq!(whilst, "attempting to read device path: /d");
            assert_eq!(source.to_string(), "disk on fire");
        }
        other => panic!("unexpected {:?}", other),
    }
}

#[test]
fn check_stops_at_unreadable_entry() {
    let probe = PathProbe::Directory(vec![
        EntryProbe::File("brightness".to_string()),
        EntryProbe::Failed(io_error()),
        EntryProbe::File("max_brightness".to_string()),
        EntryProbe::Failed(std::io::Error::new(std::io::ErrorKind::Other, "second")),
    ]);
    match Capability::check("/d", probe) {
        Err(CapabilityCheckError::Unexpected { source, whilst }) => {
            assert_eq!(whilst, "iterating device path: /d");
            assert_eq!(source.to_string(), "disk on fire");
        }
        other => panic!("unexpected {:?}", other),
    }
}

#[test]
fn error_constructors() {
    assert!(matches!(CapabilityCheckError::not_found("/a"), CapabilityCheckError::NotFound(p) if p == "/a"));
    assert!(matches!(
        CapabilityCheckError::permission_denied("/b"),
        CapabilityCheckError::PermissionDenied(p) if p == "/b"
    ));
    assert!(matches!(
        CapabilityCheckError::not_a_directory("/c"),
        CapabilityCheckError::NotADirectory(p) if p == "/c"
    ));
}

#[test]
fn final_segment_of_paths() {
    assert_eq!(final_segment("/sys/class/backlight/intel_backlight"), "intel_backlight");
    assert_eq!(final_segment("relative"), "relative");
    assert_eq!(final_segment(""), "");
}

#[test]
fn devices_are_found_in_order() {
    let candidates = vec![
        Candidate { path: "/sys/class/backlight/acpi_video0".to_string(), probe: dir(&["brightness"]) },
        Candidate {
            path: "/sys/class/backlight/intel_backlight".to_string(),
            probe: dir(&["type", "bl_power", "actual_brightness", "max_brightness", "brightness"]),
        },
        Candidate { path: "/sys/class/leds/gone".to_string(), probe: PathProbe::Missing },
        Candidate {
            path: "/sys/class/leds/input0::capslock".to_string(),
            probe: dir(&["brightness", "max_brightness"]),
        },
    ];
    let found = find_devices(candidates);
    assert_eq!(
        found,
        vec![
            DeviceDetail {
                path: "/sys/class/backlight/intel_backlight".to_string(),
                name: "intel_backlight".to_string(),
                capability: Capability::Backlight,
            },
            DeviceDetail {
                path: "/sys/class/leds/input0::capslock".to_string(),
                name: "input0::capslock".to_string(),
                capability: Capability::Brightness,
            },
        ]
    );
    assert!(find_devices(Vec::new()).is_empty());
}

#[test]
fn detail_from_probe() {
    assert!(DeviceDetail::from_probe("/a/b", dir(&["brightness"])).is_none());
    let d = DeviceDetail::from_probe("/a/b", dir(&["brightness", "max_brightness"])).unwrap();
    assert_eq!((d.name.as_str(), d.capability), ("b", Capability::Brightness));
}
