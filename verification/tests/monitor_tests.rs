use cosmic_applet_privacy::pipewire_monitor::{
    camera_fd_pid, camera_usage_for, collect_proc_cameras, is_recording_app, names_recording_app,
    proc_camera_usage, proc_fd_pid, prop_get, DeviceType, DeviceUsage, MonitorState, ObjectKind,
    PipeWireEvent, Property, RegistryGlobal,
};

fn props(pairs: &[(&str, &str)]) -> Vec<Property> {
    pairs
        .iter()
        .map(|(k, v)| Property { key: k.to_string(), value: v.to_string() })
        .collect()
}

fn node(id: u32, pairs: &[(&str, &str)]) -> RegistryGlobal {
    RegistryGlobal { id, kind: ObjectKind::Node, props: Some(props(pairs)) }
}

fn link(id: u32, output: &str, input: &str) -> RegistryGlobal {
    RegistryGlobal {
        id,
        kind: ObjectKind::Link,
        props: Some(props(&[("link.output.node", output), ("link.input.node", input)])),
    }
}

fn added(e: Option<PipeWireEvent>) -> DeviceUsage {
    match e {
        Some(PipeWireEvent::DeviceAdded(u)) => u,
        other => panic!("expected DeviceAdded, got {:?}", other),
    }
}

#[test]
fn recording_apps_are_matched_case_insensitively() {
    assert!(is_recording_app("OBS Studio"));
    assert!(is_recording_app("com.obsproject.Studio"));
    assert!(is_recording_app("Kooha"));
    assert!(is_recording_app("SimpleScreenRecorder"));
    assert!(is_recording_app("peek"));
    assert!(!is_recording_app("Firefox"));
    assert!(!is_recording_app("xdg-desktop-portal"));
    assert!(!is_recording_app(""));
}

#[test]
fn names_recording_app_needs_lowercase_input() {
    assert!(names_recording_app("vokoscreenng"));
    assert!(!names_recording_app("Kazam"));
    assert!(names_recording_app("kazam"));
}

#[test]
fn prop_get_finds_first_entry_of_key() {
    let p = props(&[("a", "1"), ("b", "2"), ("a", "3")]);
    assert_eq!(prop_get(&p, "a").map(|s| s.as_str()), Some("1"));
    assert_eq!(prop_get(&p, "b").map(|s| s.as_str()), Some("2"));
    assert_eq!(prop_get(&p, "c"), None);
}

#[test]
fn microphone_stream_is_reported_at_once() {
    let mut m = MonitorState::new();
    let u = added(m.handle_global(&node(
        40,
        &[
            ("media.class", "Stream/Input/Audio"),
            ("node.name", "Firefox"),
            ("node.description", "Built-in Audio"),
            ("application.name", "Firefox"),
            ("application.id", "org.mozilla.firefox"),
            ("application.process.id", "4242"),
        ],
    )));
    assert_eq!(u.device_type, DeviceType::Microphone);
    assert_eq!(u.device_name, "Built-in Audio");
    assert_eq!(u.app_name, "Firefox");
    assert_eq!(u.app_id.as_deref(), Some("org.mozilla.firefox"));
    assert_eq!(u.process_id, Some(4242));
    assert_eq!(u.node_id, 40);
}

#[test]
fn microphone_names_fall_back() {
    let mut m = MonitorState::new();
    let u = added(m.handle_global(&node(
        41,
        &[
            ("media.class", "Stream/Input/Audio"),
            ("node.name", "arecord"),
            ("application.process.binary", "arecord"),
            ("application.process.id", "not-a-pid"),
        ],
    )));
    assert_eq!(u.device_name, "arecord");
    assert_eq!(u.app_name, "arecord");
    assert_eq!(u.app_id, None);
    assert_eq!(u.process_id, None);

    let u = added(m.handle_global(&node(42, &[("media.class", "Stream/Input/Audio")])));
    assert_eq!(u.device_name, "Unknown Device");
    assert_eq!(u.app_name, "Unknown");
}

#[test]
fn monitor_loopbacks_are_ignored() {
    let mut m = MonitorState::new();
    let e = m.handle_global(&node(
        43,
        &[("media.class", "Stream/Input/Audio"), ("node.name", "alsa_output.pci.monitor")],
    ));
    assert!(e.is_none());
}

#[test]
fn objects_without_class_or_props_are_ignored() {
    let mut m = MonitorState::new();
    assert!(m.handle_global(&node(1, &[("node.name", "x")])).is_none());
    assert!(m
        .handle_global(&RegistryGlobal { id: 2, kind: ObjectKind::Node, props: None })
        .is_none());
    assert!(m
        .handle_global(&RegistryGlobal {
            id: 3,
            kind: ObjectKind::Other,
            props: Some(props(&[("media.class", "Stream/Input/Audio")])),
        })
        .is_none());
    assert!(m.handle_global(&node(4, &[("media.class", "Audio/Sink")])).is_none());
}

#[test]
fn camera_stream_is_classified_by_its_link() {
    let mut m = MonitorState::new();
    assert!(m
        .handle_global(&node(10, &[("media.class", "Video/Source"), ("media.role", "Camera")]))
        .is_none());
    assert!(m
        .handle_global(&node(
            50,
            &[
                ("media.class", "Stream/Input/Video"),
                ("node.name", "cheese"),
                ("node.description", "Webcam stream"),
            ],
        ))
        .is_none());
    let u = added(m.handle_global(&link(70, "10", "50")));
    assert_eq!(u.device_type, DeviceType::Camera);
    assert_eq!(u.device_name, "Webcam stream");
    assert_eq!(u.app_name, "cheese");
    assert_eq!(u.node_id, 50);
    // A second link from the camera into the same stream reports nothing.
    assert!(m.handle_global(&link(71, "10", "50")).is_none());
}

#[test]
fn screen_streams_are_share_or_record() {
    let mut m = MonitorState::new();
    m.handle_global(&node(11, &[("media.class", "Video/Source")]));
    m.handle_global(&node(51, &[("media.class", "Stream/Input/Video"), ("application.name", "OBS Studio")]));
    m.handle_global(&node(52, &[("media.class", "Stream/Input/Video"), ("application.name", "Zoom")]));
    let rec = added(m.handle_global(&link(72, "11", "51")));
    assert_eq!(rec.device_type, DeviceType::ScreenRecord);
    assert_eq!(rec.node_id, 51);
    let share = added(m.handle_global(&link(73, "11", "52")));
    assert_eq!(share.device_type, DeviceType::ScreenShare);
    assert_eq!(share.app_name, "Zoom");
    assert_eq!(share.device_name, "Unknown Device");
}

#[test]
fn links_need_both_endpoints() {
    let mut m = MonitorState::new();
    m.handle_global(&node(53, &[("media.class", "Stream/Input/Video")]));
    assert!(m.handle_global(&link(74, "x", "53")).is_none());
    let half = RegistryGlobal {
        id: 75,
        kind: ObjectKind::Link,
        props: Some(props(&[("link.input.node", "53")])),
    };
    assert!(m.handle_global(&half).is_none());
    // The stream is still pending and a proper link classifies it.
    let u = added(m.handle_global(&link(76, "9", "53")));
    assert_eq!(u.device_type, DeviceType::ScreenShare);
}

#[test]
fn removal_is_reported_and_forgets_the_stream() {
    let mut m = MonitorState::new();
    m.handle_global(&node(54, &[("media.class", "Stream/Input/Video")]));
    match m.handle_remove(54) {
        PipeWireEvent::DeviceRemoved(id) => assert_eq!(id, 54),
        other => panic!("unexpected {:?}", other),
    }
    assert!(m.handle_global(&link(77, "9", "54")).is_none());
}

#[test]
fn proc_fd_paths_name_their_process() {
    assert_eq!(proc_fd_pid("/proc/1234/fd/5"), Some(1234));
    assert_eq!(proc_fd_pid("/proc/42"), Some(42));
    assert_eq!(proc_fd_pid("/proc/self/fd/3"), None);
    assert_eq!(proc_fd_pid("/sys/1/fd/3"), None);
    assert_eq!(proc_fd_pid("/proc//fd/3"), None);
    assert_eq!(camera_fd_pid("/proc/77/fd/9", "/dev/video0"), Some(77));
    assert_eq!(camera_fd_pid("/proc/77/fd/9", "/dev/snd/pcmC0D0c"), None);
}

#[test]
fn proc_camera_usage_names_the_process() {
    let u = proc_camera_usage(77, "/dev/video0".to_string(), Some("zoom\n".to_string())).unwrap();
    assert_eq!(u.device_type, DeviceType::Camera);
    assert_eq!(u.app_name, "zoom");
    assert_eq!(u.device_name, "/dev/video0");
    assert_eq!(u.process_id, Some(77));
    assert_eq!(u.node_id, 77);
    assert_eq!(u.app_id, None);
    let unknown = proc_camera_usage(78, "/dev/video2".to_string(), None).unwrap();
    assert_eq!(unknown.app_name, "Unknown");
    assert!(proc_camera_usage(79, "/dev/video0".to_string(), Some("pipewire\n".to_string())).is_none());
    assert!(proc_camera_usage(80, "/dev/video0".to_string(), Some("  wireplumber ".to_string())).is_none());
    assert!(camera_usage_for(81, "/dev/video0".to_string(), "pipewire".to_string()).is_none());
}

#[test]
fn later_proc_usage_of_a_process_wins() {
    let a = proc_camera_usage(5, "/dev/video0".to_string(), Some("app".to_string())).unwrap();
    let b = proc_camera_usage(5, "/dev/video1".to_string(), Some("app".to_string())).unwrap();
    let c = proc_camera_usage(6, "/dev/video0".to_string(), Some("other".to_string())).unwrap();
    let m = collect_proc_cameras(vec![a, b, c]);
    assert_eq!(m.len(), 2);
    assert_eq!(m[&5].device_name, "/dev/video1");
    assert_eq!(m[&6].app_name, "other");
}

#[test]
fn recorder_matching_ignores_ascii_case() {
    for (a, b) in [("OBS", "obs"), ("KOOHA", "kooha"), ("Peek", "pEEK"), ("Zoom", "ZOOM")] {
        assert_eq!(is_recording_app(a), is_recording_app(b), "{} vs {}", a, b);
    }
    assert!(is_recording_app("VOKOSCREEN"));
    assert!(!is_recording_app("ZOOM"));
}

#[test]
fn stream_is_reported_again_only_after_removal_and_new_announcement() {
    let mut m = MonitorState::new();
    let video = [("media.class", "Stream/Input/Video"), ("application.name", "Meet")];
    m.handle_global(&node(60, &video));
    assert_eq!(added(m.handle_global(&link(80, "12", "60"))).node_id, 60);
    assert!(m.handle_global(&link(81, "12", "60")).is_none());
    assert!(m.handle_global(&link(82, "13", "60")).is_none());
    m.handle_remove(60);
    m.handle_global(&node(60, &video));
    assert_eq!(added(m.handle_global(&link(83, "12", "60"))).node_id, 60);
    assert!(m.handle_global(&link(84, "12", "60")).is_none());
}

#[test]
fn capture_events_need_a_video_node_and_a_link() {
    let mut m = MonitorState::new();
    m.handle_global(&node(14, &[("media.class", "Video/Source"), ("media.role", "Camera")]));
    // A link into a node never announced as a video stream sends nothing.
    assert!(m.handle_global(&link(85, "14", "61")).is_none());
    // Nor does a link into an audio stream.
    m.handle_global(&node(62, &[("media.class", "Stream/Input/Audio")]));
    assert!(m.handle_global(&link(86, "14", "62")).is_none());
    // A video stream announcement sends nothing until a link comes.
    assert!(m.handle_global(&node(63, &[("media.class", "Stream/Input/Video")])).is_none());
    assert_eq!(added(m.handle_global(&link(87, "14", "63"))).device_type, DeviceType::Camera);
}

#[test]
fn recorder_match_survives_added_text() {
    for s in ["obs", "Kooha", "PEEK"] {
        assert!(is_recording_app(s));
        let wrapped = format!("my {} build 2", s);
        assert!(is_recording_app(&wrapped), "{}", wrapped);
    }
}
