use cosmic_applet_privacy::indicator::{IndicatorState, Message, PopupAction, PopupItem, PrivacyIndicator, COOLDOWN_MILLIS};
use cosmic_applet_privacy::pipewire_monitor::{DeviceType, DeviceUsage, PipeWireEvent};
use rustc_hash::FxHashMap;
use std::time::Instant;

fn usage(t: DeviceType, node_id: u32, app: &str) -> DeviceUsage {
    DeviceUsage {
        device_type: t,
        device_name: "dev".to_string(),
        app_name: app.to_string(),
        app_id: None,
        process_id: None,
        node_id,
    }
}

#[test]
fn fresh_indicator_is_hidden() {
    let s = IndicatorState::default();
    assert!(!s.active);
    assert!(s.last_active.is_none());
    assert!(!s.should_show());
    assert!(!s.should_show_after(0));
}

#[test]
fn active_indicator_shows() {
    let mut s = IndicatorState::default();
    s.update(true);
    assert!(s.active);
    assert!(s.last_active.is_some());
    assert!(s.should_show());
    assert!(s.should_show_after(u128::MAX));
}

#[test]
fn cooldown_lasts_ten_seconds() {
    let now = Instant::now();
    let mut s = IndicatorState::default();
    s.update_at(true, now);
    s.update_at(false, now);
    assert!(!s.active);
    assert_eq!(s.last_active, Some(now));
    assert!(s.should_show_after(0));
    assert!(s.should_show_after(COOLDOWN_MILLIS - 1));
    assert!(!s.should_show_after(COOLDOWN_MILLIS));
    assert!(!s.should_show_after(60_000));
    // Right after the device stops, the indicator is still visible.
    assert!(s.should_show());
}

#[test]
fn idle_update_does_not_restart_cooldown() {
    let earlier = Instant::now();
    let mut s = IndicatorState::default();
    s.update_at(true, earlier);
    s.update_at(false, earlier);
    let later = Instant::now();
    s.update_at(false, later);
    assert_eq!(s.last_active, Some(earlier));
    assert!(!s.active);
}

#[test]
fn pipewire_events_drive_indicators() {
    let mut p = PrivacyIndicator::new();
    assert!(!p.has_device_type(DeviceType::Microphone));
    assert!(!p.any_visible());
    p.update(Message::PipeWire(PipeWireEvent::DeviceAdded(usage(DeviceType::Microphone, 40, "Firefox"))));
    assert!(p.has_device_type(DeviceType::Microphone));
    assert!(p.indicator_state(DeviceType::Microphone).active);
    assert!(!p.indicator_state(DeviceType::Camera).active);
    assert!(p.any_visible());
    p.update(Message::PipeWire(PipeWireEvent::DeviceRemoved(40)));
    assert!(!p.has_device_type(DeviceType::Microphone));
    let mic = p.indicator_state(DeviceType::Microphone);
    assert!(!mic.active);
    // In cooldown right after removal.
    assert!(mic.should_show());
    assert!(p.any_visible());
}

#[test]
fn untracked_removal_and_errors_change_nothing() {
    let mut p = PrivacyIndicator::new();
    p.update(Message::PipeWire(PipeWireEvent::DeviceAdded(usage(DeviceType::ScreenShare, 7, "Zoom"))));
    p.update(Message::PipeWire(PipeWireEvent::DeviceRemoved(99)));
    p.update(Message::PipeWire(PipeWireEvent::Error("lost connection".to_string())));
    assert!(p.has_device_type(DeviceType::ScreenShare));
    assert!(p.indicator_state(DeviceType::ScreenShare).active);
    assert_eq!(p.get_devices_by_type(DeviceType::ScreenShare).len(), 1);
}

#[test]
fn proc_cameras_light_the_camera() {
    let mut p = PrivacyIndicator::new();
    let mut cams = FxHashMap::default();
    cams.insert(321u32, usage(DeviceType::Camera, 321, "guvcview"));
    p.update(Message::Tick(cams));
    assert!(p.indicator_state(DeviceType::Camera).active);
    let cams = p.get_devices_by_type(DeviceType::Camera);
    assert_eq!(cams.len(), 1);
    assert_eq!(cams[0].app_name, "guvcview");
    p.update(Message::Tick(FxHashMap::default()));
    assert!(!p.indicator_state(DeviceType::Camera).active);
}

#[test]
fn popup_toggles_and_closes() {
    let mut p = PrivacyIndicator::new();
    assert_eq!(p.update(Message::TogglePopup(1)), PopupAction::Open(1));
    assert_eq!(p.popup(), Some(1));
    assert_eq!(p.update(Message::TogglePopup(2)), PopupAction::Destroy(1));
    assert_eq!(p.popup(), None);
    assert_eq!(p.update(Message::TogglePopup(3)), PopupAction::Open(3));
    assert_eq!(p.update(Message::CloseRequested(4)), PopupAction::Keep);
    assert_eq!(p.popup(), Some(3));
    assert_eq!(p.update(Message::CloseRequested(3)), PopupAction::Keep);
    assert_eq!(p.popup(), None);
}

#[test]
fn popup_lists_sections_in_order_with_dividers() {
    let mut p = PrivacyIndicator::new();
    let items = p.popup_items();
    assert_eq!(items.len(), 1);
    assert!(matches!(items[0], PopupItem::NoActiveDevices));
    drop(items);
    p.update(Message::PipeWire(PipeWireEvent::DeviceAdded(usage(DeviceType::ScreenRecord, 3, "obs"))));
    p.update(Message::PipeWire(PipeWireEvent::DeviceAdded(usage(DeviceType::Microphone, 2, "obs"))));
    p.update(Message::PipeWire(PipeWireEvent::DeviceAdded(usage(DeviceType::Microphone, 5, "arecord"))));
    let items = p.popup_items();
    assert_eq!(items.len(), 3);
    match &items[0] {
        PopupItem::Section(t, v) => {
            assert_eq!(*t, DeviceType::Microphone);
            let mut names: Vec<&str> = v.iter().map(|u| u.app_name.as_str()).collect();
            names.sort();
            assert_eq!(names, vec!["arecord", "obs"]);
        },
        other => panic!("unexpected {:?}", other),
    }
    assert!(matches!(items[1], PopupItem::Divider));
    match &items[2] {
        PopupItem::Section(t, v) => {
            assert_eq!(*t, DeviceType::ScreenRecord);
            assert_eq!(v.len(), 1);
        },
        other => panic!("unexpected {:?}", other),
    }
}

#[test]
fn re_adding_a_node_replaces_its_usage() {
    let mut p = PrivacyIndicator::new();
    p.update(Message::PipeWire(PipeWireEvent::DeviceAdded(usage(DeviceType::Microphone, 9, "a"))));
    p.update(Message::PipeWire(PipeWireEvent::DeviceAdded(usage(DeviceType::ScreenShare, 9, "b"))));
    assert!(!p.has_device_type(DeviceType::Microphone));
    assert!(p.has_device_type(DeviceType::ScreenShare));
    assert!(!p.indicator_state(DeviceType::Microphone).active);
}

#[test]
fn active_indicators_know_when_they_were_last_active() {
    let mut p = PrivacyIndicator::new();
    let types = [DeviceType::Camera, DeviceType::Microphone, DeviceType::ScreenShare, DeviceType::ScreenRecord];
    let check = |p: &PrivacyIndicator| {
        for t in types {
            let s = p.indicator_state(t);
            assert!(!s.active || s.last_active.is_some(), "{:?}", t);
        }
    };
    check(&p);
    p.update(Message::PipeWire(PipeWireEvent::DeviceAdded(usage(DeviceType::Camera, 1, "a"))));
    check(&p);
    p.update(Message::TogglePopup(0));
    check(&p);
    p.update(Message::PipeWire(PipeWireEvent::DeviceRemoved(1)));
    check(&p);
    p.update(Message::Tick(FxHashMap::default()));
    check(&p);
}
