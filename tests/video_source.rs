use video_source::{
    aggregate_sources, cameras_available, find_video_source, get_video_source, reset_controls,
    reset_source_controls, set_control, set_source_control, Control, ControlBool, ControlMenu,
    ControlOption, ControlSlider, ControlState, ControlType, ErrorKind, MemorySource, VideoSource,
    VideoSourceError, VideoSourceType,
};

type Source = VideoSourceType<MemorySource, MemorySource, MemorySource>;

fn slider(id: u64, name: &str, default: i64, inactive: bool) -> Control {
    Control {
        name: name.to_string(),
        id,
        configuration: ControlType::Slider(ControlSlider { default, min: 0, max: 255, step: 1 }),
        state: ControlState { is_inactive: inactive },
    }
}

fn menu(id: u64, name: &str, default: i64, inactive: bool) -> Control {
    Control {
        name: name.to_string(),
        id,
        configuration: ControlType::Menu(ControlMenu {
            default,
            options: vec![
                ControlOption { name: "auto".to_string(), value: 0 },
                ControlOption { name: "manual".to_string(), value: 1 },
            ],
        }),
        state: ControlState { is_inactive: inactive },
    }
}

fn switch(id: u64, name: &str, default: bool, inactive: bool) -> Control {
    Control {
        name: name.to_string(),
        id,
        configuration: ControlType::Bool(ControlBool { default }),
        state: ControlState { is_inactive: inactive },
    }
}

fn memory(identity: &str, controls: Vec<Control>) -> MemorySource {
    MemorySource::new(format!("camera {identity}"), identity.to_string(), vec![], controls)
}

fn sources() -> Vec<Source> {
    aggregate_sources(
        vec![memory("local:/dev/video0", vec![]), memory("local:/dev/video2", vec![])],
        vec![memory("gst:videotestsrc", vec![])],
        vec![memory("redirect:alias", vec![])],
    )
}

fn control_error(e: &VideoSourceError) -> (String, u64, ErrorKind) {
    match e {
        VideoSourceError::Control { name, id, cause } => (name.clone(), *id, cause.kind),
        other => panic!("not a control error: {other:?}"),
    }
}

fn writes(s: &Source) -> Vec<(u64, i64, bool)> {
    let log = match s {
        VideoSourceType::Local(m) | VideoSourceType::Gst(m) | VideoSourceType::Redirect(m) => m.write_log(),
    };
    log.iter().map(|(id, value, r)| (*id, *value, r.is_ok())).collect()
}

#[test]
fn simple_test() {
    println!("{:#?}", cameras_available::<MemorySource, MemorySource, MemorySource>());
}

#[test]
fn discovery_of_memory_sources_is_empty() {
    assert!(cameras_available::<MemorySource, MemorySource, MemorySource>().is_empty());
}

#[test]
fn aggregation_keeps_every_source_in_kind_order() {
    let all = sources();
    assert_eq!(all.len(), 2 + 1 + 1);
    let ids: Vec<String> = all.iter().map(|s| s.source_string()).collect();
    assert_eq!(ids, vec!["local:/dev/video0", "local:/dev/video2", "gst:videotestsrc", "redirect:alias"]);
    assert!(matches!(all[0], VideoSourceType::Local(_)));
    assert!(matches!(all[2], VideoSourceType::Gst(_)));
    assert!(matches!(all[3], VideoSourceType::Redirect(_)));
}

#[test]
fn aggregation_does_not_deduplicate() {
    let all: Vec<Source> = aggregate_sources(
        vec![memory("same", vec![])],
        vec![],
        vec![memory("same", vec![])],
    );
    assert_eq!(all.len(), 2);
}

#[test]
fn aggregation_of_nothing_is_empty() {
    let all: Vec<Source> = aggregate_sources(vec![], vec![], vec![]);
    assert!(all.is_empty());
}

#[test]
fn lookup_finds_source_by_identity() {
    let found = find_video_source(sources(), "gst:videotestsrc").unwrap();
    assert!(matches!(found, VideoSourceType::Gst(_)));
    assert_eq!(found.source_string(), "gst:videotestsrc");
}

#[test]
fn lookup_takes_first_of_equal_identities() {
    let all: Vec<Source> = aggregate_sources(
        vec![],
        vec![memory("same", vec![slider(1, "gain", 3, false)])],
        vec![memory("same", vec![])],
    );
    let found = find_video_source(all, "same").unwrap();
    assert!(matches!(found, VideoSourceType::Gst(_)));
    assert_eq!(found.controls().len(), 1);
}

#[test]
fn lookup_of_unknown_identity_lists_available() {
    match find_video_source(sources(), "local:/dev/video9") {
        Err(VideoSourceError::NotFound { attempted, available }) => {
            assert_eq!(attempted, "local:/dev/video9");
            assert_eq!(
                available,
                vec!["local:/dev/video0", "local:/dev/video2", "gst:videotestsrc", "redirect:alias"]
            );
        }
        other => panic!("unexpected: {other:?}"),
    }
}

#[test]
fn lookup_in_empty_discovery_lists_nothing() {
    let none: Vec<Source> = vec![];
    match find_video_source(none, "x") {
        Err(VideoSourceError::NotFound { attempted, available }) => {
            assert_eq!(attempted, "x");
            assert!(available.is_empty());
        }
        other => panic!("unexpected: {other:?}"),
    }
}

#[test]
fn get_video_source_reports_not_found() {
    let r = get_video_source::<MemorySource, MemorySource, MemorySource>("local:/dev/video0");
    assert!(matches!(r, Err(VideoSourceError::NotFound { .. })));
}

#[test]
fn set_control_reports_not_found() {
    let r = set_control::<MemorySource, MemorySource, MemorySource>("local:/dev/video0", 1, 5);
    match r {
        Err(VideoSourceError::NotFound { attempted, available }) => {
            assert_eq!(attempted, "local:/dev/video0");
            assert!(available.is_empty());
        }
        other => panic!("unexpected: {other:?}"),
    }
}

#[test]
fn reset_controls_wraps_lookup_failure_in_list() {
    let r = reset_controls::<MemorySource, MemorySource, MemorySource>("local:/dev/video0");
    let errors = r.unwrap_err();
    assert_eq!(errors.len(), 1);
    assert!(matches!(errors[0], VideoSourceError::NotFound { .. }));
}

#[test]
fn set_source_control_writes_value() {
    let mut s = memory("local:/dev/video0", vec![slider(7, "gain", 10, false)]);
    assert!(set_source_control(&mut s, 7, 42).is_ok());
    assert_eq!(s.control_value_by_id(7).unwrap(), 42);
    assert_eq!(s.write_log().len(), 1);
    assert_eq!((s.write_log()[0].0, s.write_log()[0].1), (7, 42));
}

#[test]
fn set_source_control_surfaces_refused_write() {
    let mut s = memory("local:/dev/video0", vec![slider(7, "gain", 10, false)]);
    s.refuse_writes(7);
    match set_source_control(&mut s, 7, 42) {
        Err(VideoSourceError::Io(e)) => {
            assert_eq!(e.kind, ErrorKind::PermissionDenied);
            assert_eq!(e.message, "write refused");
        }
        other => panic!("unexpected: {other:?}"),
    }
    assert!(s.control_value_by_id(7).is_err());
}

#[test]
fn set_source_control_of_unknown_id_fails() {
    let mut s = memory("local:/dev/video0", vec![slider(7, "gain", 10, false)]);
    match set_source_control(&mut s, 8, 1) {
        Err(VideoSourceError::Io(e)) => assert_eq!(e.kind, ErrorKind::NotFound),
        other => panic!("unexpected: {other:?}"),
    }
}

#[test]
fn name_and_id_reach_the_same_control() {
    let mut s = memory("local:/dev/video0", vec![slider(7, "gain", 10, false)]);
    s.set_control_by_name("gain", 99).unwrap();
    assert_eq!(s.control_value_by_id(7).unwrap(), 99);
    s.set_control_by_id(7, 12).unwrap();
    assert_eq!(s.control_value_by_name("gain").unwrap(), 12);
    assert!(s.set_control_by_name("zoom", 1).is_err());
}

#[test]
fn default_values_by_shape() {
    assert_eq!(switch(1, "on", true, false).configuration.default_value(), 1);
    assert_eq!(switch(1, "on", false, false).configuration.default_value(), 0);
    assert_eq!(slider(2, "gain", -4, false).configuration.default_value(), -4);
    assert_eq!(menu(3, "mode", 1, false).configuration.default_value(), 1);
}

#[test]
fn snapshot_keeps_name_id_state_and_default() {
    let c = menu(3, "mode", 1, true);
    let copy = c.snapshot();
    assert_eq!(copy.name, "mode");
    assert_eq!(copy.id, 3);
    assert!(copy.state.is_inactive);
    assert_eq!(copy.configuration.default_value(), 1);
}

#[test]
fn reset_example_writes_only_active_control() {
    let mut s: Source = VideoSourceType::Local(memory(
        "local:/dev/video0",
        vec![slider(1, "brightness", 128, false), menu(2, "mode", 0, true)],
    ));
    assert!(reset_source_controls(&mut s).is_ok());
    assert_eq!(writes(&s), vec![(1, 128, true)]);
    assert_eq!(s.control_value_by_id(1).unwrap(), 128);
    assert!(s.control_value_by_id(2).is_err());
}

#[test]
fn reset_example_reports_refused_brightness() {
    let mut m = memory(
        "local:/dev/video0",
        vec![slider(1, "brightness", 128, false), menu(2, "mode", 0, true)],
    );
    m.refuse_writes(1);
    let mut s: Source = VideoSourceType::Local(m);
    let errors = reset_source_controls(&mut s).unwrap_err();
    assert_eq!(writes(&s), vec![(1, 128, false)]);
    assert_eq!(errors.len(), 1);
    assert_eq!(control_error(&errors[0]), ("brightness".to_string(), 1, ErrorKind::PermissionDenied));
    match &errors[0] {
        VideoSourceError::Control { cause, .. } => assert_eq!(cause.message, "write refused"),
        other => panic!("unexpected: {other:?}"),
    }
}

#[test]
fn reset_continues_past_refused_writes() {
    let mut m = memory(
        "local:/dev/video0",
        vec![
            slider(1, "brightness", 128, false),
            slider(2, "contrast", 32, false),
            switch(3, "auto", true, false),
            menu(4, "mode", 2, false),
            slider(5, "hue", 7, true),
        ],
    );
    m.refuse_writes(2);
    m.refuse_writes(4);
    let mut s: Source = VideoSourceType::Gst(m);
    let errors = reset_source_controls(&mut s).unwrap_err();
    assert_eq!(errors.len(), 2);
    assert_eq!(control_error(&errors[0]), ("contrast".to_string(), 2, ErrorKind::PermissionDenied));
    assert_eq!(control_error(&errors[1]), ("mode".to_string(), 4, ErrorKind::PermissionDenied));
    assert_eq!(writes(&s), vec![(1, 128, true), (2, 32, false), (3, 1, true), (4, 2, false)]);
    assert_eq!(s.control_value_by_id(1).unwrap(), 128);
    assert_eq!(s.control_value_by_id(3).unwrap(), 1);
    assert!(s.control_value_by_id(5).is_err());
}

#[test]
fn reset_with_only_inactive_controls_succeeds_without_writes() {
    let mut m = memory("local:/dev/video0", vec![slider(1, "gain", 5, true), menu(2, "mode", 1, true)]);
    m.refuse_writes(1);
    let mut s: Source = VideoSourceType::Redirect(m);
    assert!(reset_source_controls(&mut s).is_ok());
    assert!(writes(&s).is_empty());
    assert!(s.control_value_by_id(1).is_err());
    assert!(s.control_value_by_id(2).is_err());
}

#[test]
fn reset_without_controls_succeeds() {
    let mut s: Source = VideoSourceType::Local(memory("local:/dev/video0", vec![]));
    assert!(reset_source_controls(&mut s).is_ok());
    assert!(writes(&s).is_empty());
}

#[test]
fn reset_twice_gives_same_result() {
    let mut s: Source = VideoSourceType::Local(memory(
        "local:/dev/video0",
        vec![slider(1, "brightness", 128, false), switch(2, "auto", false, false)],
    ));
    s.set_control_by_id(1, 3).unwrap();
    assert!(reset_source_controls(&mut s).is_ok());
    assert_eq!(s.control_value_by_id(1).unwrap(), 128);
    assert_eq!(s.control_value_by_id(2).unwrap(), 0);
    let first = writes(&s);
    assert!(reset_source_controls(&mut s).is_ok());
    assert_eq!(s.control_value_by_id(1).unwrap(), 128);
    assert_eq!(s.control_value_by_id(2).unwrap(), 0);
    let both = writes(&s);
    assert_eq!(both[..first.len()], first[..]);
    assert_eq!(both[first.len()..], vec![(1, 128, true), (2, 0, true)][..]);
}
