use gem12_display::startup::{
    check_tap_gap, display_source, display_task, filter_file_name, resolve_path, DisplaySource,
    DisplayTask,
};
use std::path::Path;

#[test]
fn checks_the_tap_gap() {
    assert!(check_tap_gap(150, 1000));
    assert!(check_tap_gap(150, 150));
    assert!(!check_tap_gap(151, 150));
}

#[test]
fn chooses_the_display() {
    assert_eq!(display_source(true, true, true), DisplaySource::Simulated);
    assert_eq!(display_source(false, true, true), DisplaySource::Device);
    assert_eq!(display_source(false, false, true), DisplaySource::Usb);
    assert_eq!(display_source(false, false, false), DisplaySource::Default);
}

#[test]
fn chooses_the_task() {
    assert_eq!(display_task(true, true, true, true), DisplayTask::Off);
    assert_eq!(display_task(false, true, true, true), DisplayTask::On);
    assert_eq!(display_task(false, false, true, true), DisplayTask::Panels);
    assert_eq!(display_task(false, false, false, true), DisplayTask::Image);
    assert_eq!(display_task(false, false, false, false), DisplayTask::Blank);
}

#[test]
fn joins_paths_like_the_standard_library() {
    for directory in ["cfg", "cfg/", "/etc/gem12", "", "/", "a/b"] {
        for path in ["monitor.json", "/etc/monitor.json", "", "sub/monitor.json", "../x"] {
            let expected = Path::new(directory).join(path);
            let resolved = resolve_path(directory.as_bytes(), path.as_bytes());
            assert_eq!(
                String::from_utf8(resolved).unwrap(),
                expected.to_str().unwrap(),
                "{directory} {path}"
            );
        }
    }
}

#[test]
fn resolved_paths_are_settled() {
    let once = resolve_path(b"/etc/gem12", b"monitor.json");
    assert_eq!(resolve_path(b"/etc/gem12", &once), once);
}

#[test]
fn names_the_filter_file_like_the_standard_library() {
    for name in [
        "sensor-mapping.cfg",
        "a.b.cfg",
        ".hidden.cfg",
        "x.",
        ".a.b.c",
        "mapping.tar.gz",
    ] {
        let mapping = Path::new(name);
        let stem = mapping.file_stem().unwrap().to_str().unwrap();
        let extension = mapping.extension().unwrap().to_str().unwrap();
        let expected = Path::new("")
            .join(format!("{stem}-filter"))
            .with_extension(extension);
        let actual = filter_file_name(stem.as_bytes(), extension.as_bytes());
        assert_eq!(
            String::from_utf8(actual).unwrap(),
            expected.to_str().unwrap(),
            "{name}"
        );
    }
    assert_eq!(
        filter_file_name(b"sensor-mapping", b"cfg"),
        b"sensor-mapping-filter.cfg"
    );
}
