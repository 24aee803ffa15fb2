//! The applet's state: which devices are in use, and for each kind of
//! device an indicator that stays visible for a cooldown after the device
//! stops being used.

use vstd::prelude::*;
use std::time::{Duration, Instant};
use crate::fx::{device_map_contents, device_map_get, device_map_insert, device_map_is_empty, device_map_keys, device_map_new, device_map_remove, DeviceMap};
use crate::pipewire_monitor::{DeviceType, DeviceUsage, PipeWireEvent};

verus! {

#[verifier::external_type_specification]
#[verifier::external_body]
pub struct ExInstant(Instant);

/// `Instant::now()`. Nothing is stated of the result: it is read from the clock.
#[verifier::external_body]
fn instant_now() -> Instant {
    Instant::now()
}

/// `Instant::elapsed()`. Nothing is stated of the result: it is read from the clock.
#[verifier::external_body]
fn instant_elapsed(since: &Instant) -> Duration {
    since.elapsed()
}

/// `Duration::as_millis()`: the whole milliseconds in `d`. Nothing is stated
/// of the result; its only argument is the time that `instant_elapsed` read.
#[verifier::external_body]
fn duration_as_millis(d: &Duration) -> u128 {
    d.as_millis()
}

/// How long, in milliseconds, to keep showing an indicator after its device
/// stops being used. An elapsed `Duration` is under ten seconds exactly when
/// its whole milliseconds are under this bound.
pub const COOLDOWN_MILLIS: u128 = 10000;

/// State for each indicator type
#[derive(Debug, Clone, Copy)]
pub struct IndicatorState {
    /// Whether the device is currently active
    pub active: bool,
    /// When the device was last active (for cooldown)
    pub last_active: Option<Instant>,
}

/// The indicator is visible when `elapsed_ms` milliseconds have passed
/// since it was last active: while active, or within the cooldown.
pub open spec fn visible_after(s: IndicatorState, elapsed_ms: u128) -> bool {
    s.active || (s.last_active is Some && elapsed_ms < COOLDOWN_MILLIS)
}

/// The state after an update at instant `now` that finds the device active or not.
pub open spec fn updated(s: IndicatorState, is_active: bool, now: Instant) -> IndicatorState {
    if is_active {
        IndicatorState { active: true, last_active: Some(now) }
    } else if s.active {
        // Transition from active to inactive - start cooldown
        IndicatorState { active: false, last_active: Some(now) }
    } else {
        s
    }
}

/// An active indicator knows when it was last active.
pub open spec fn stamped(s: IndicatorState) -> bool {
    s.active ==> s.last_active is Some
}

/// `new` is `s` updated with `is_active` at some instant.
pub open spec fn updated_at_some_instant(s: IndicatorState, is_active: bool, new: IndicatorState) -> bool {
    exists|now: Instant| new == updated(s, is_active, now)
}

impl Default for IndicatorState {
    fn default() -> (r: Self)
        ensures
            !r.active,
            r.last_active is None,
    {
        Self { active: false, last_active: None }
    }
}

impl IndicatorState {
    /// Returns true if the indicator should be visible (active or in cooldown),
    /// reading the time elapsed since it was last active from the clock.
    pub fn should_show(&self) -> (r: bool)
        ensures
            self.active ==> r,
            (!self.active && self.last_active is None) ==> !r,
            exists|elapsed_ms: u128| r == visible_after(*self, elapsed_ms),
    {
        if self.active {
            assert(visible_after(*self, 0));
            return true;
        }
        match &self.last_active {
            Some(last) => {
                let elapsed = instant_elapsed(last);
                let ms = duration_as_millis(&elapsed);
                let r = self.should_show_after(ms);
                assert(r == visible_after(*self, ms));
                r
            },
            None => {
                assert(!visible_after(*self, 0));
                false
            },
        }
    }

    /// Whether the indicator is visible `elapsed_ms` milliseconds after it was last active.
    pub fn should_show_after(&self, elapsed_ms: u128) -> (r: bool)
        ensures
            r == visible_after(*self, elapsed_ms),
    {
        if self.active {
            return true;
        }
        match self.last_active {
            Some(_) => elapsed_ms < COOLDOWN_MILLIS,
            None => false,
        }
    }

    /// Update state based on whether device is currently active, at the
    /// current instant.
    pub fn update(&mut self, is_active: bool)
        ensures
            updated_at_some_instant(*old(self), is_active, *final(self)),
            final(self).active == is_active,
            stamped(*final(self)),
    {
        let now = instant_now();
        self.update_at(is_active, now);
    }

    /// Update state based on whether device is active at instant `now`.
    pub fn update_at(&mut self, is_active: bool, now: Instant)
        ensures
            *final(self) == updated(*old(self), is_active, now),
            final(self).active == is_active,
            stamped(*final(self)),
    {
        if is_active {
            self.active = true;
            self.last_active = Some(now);
        } else if self.active {
            // Transition from active to inactive - start cooldown
            self.active = false;
            self.last_active = Some(now);
        }
    }
}

} // verus!

verus! {

/// Some entry of `m` is a usage of a device of type `t`.
pub open spec fn map_has_type(m: Map<u32, DeviceUsage>, t: DeviceType) -> bool {
    exists|k: u32| #[trigger] m.contains_key(k) && m[k].device_type == t
}

/// The keys of `m` whose usage is of a device of type `t`.
pub open spec fn keys_of_type(m: Map<u32, DeviceUsage>, t: DeviceType) -> Set<u32> {
    m.dom().filter(|k: u32| m[k].device_type == t)
}

/// `ks` lists each key of `m` with a usage of type `t` once.
pub open spec fn lists_keys_of_type(ks: Seq<u32>, m: Map<u32, DeviceUsage>, t: DeviceType) -> bool {
    ks.no_duplicates() && ks.to_set() == keys_of_type(m, t)
}

/// The usages of `m` under the keys `ks`, in that order.
pub open spec fn usages_at(m: Map<u32, DeviceUsage>, ks: Seq<u32>) -> Seq<DeviceUsage> {
    ks.map_values(|k: u32| m[k])
}

/// The usages `r` are those of type `t` in `a`, in some order, then those of type `t` in `b`.
pub open spec fn lists_usages_of_type(
    r: Seq<DeviceUsage>,
    a: Map<u32, DeviceUsage>,
    b: Map<u32, DeviceUsage>,
    t: DeviceType,
) -> bool {
    exists|ka: Seq<u32>, kb: Seq<u32>|
        #![trigger lists_keys_of_type(ka, a, t), lists_keys_of_type(kb, b, t)]
        lists_keys_of_type(ka, a, t) && lists_keys_of_type(kb, b, t) && r == usages_at(a, ka)
            + usages_at(b, kb)
}

/// The referenced usages.
pub open spec fn deref_all(r: Seq<&DeviceUsage>) -> Seq<DeviceUsage> {
    r.map_values(|u: &DeviceUsage| *u)
}

/// `x` is among the first `i` entries of `s`.
pub open spec fn seen_before(s: Seq<u32>, i: int, x: u32) -> bool {
    exists|j: int| 0 <= j < i && #[trigger] s[j] == x
}

/// Append to `out` the usages of type `t` in `m`, returning the keys they sit under.
fn push_usages_of_type<'a>(m: &'a DeviceMap, t: DeviceType, out: &mut Vec<&'a DeviceUsage>) -> (ks: Ghost<Seq<u32>>)
    ensures
        lists_keys_of_type(ks@, device_map_contents(*m), t),
        deref_all(final(out)@) == deref_all(old(out)@) + usages_at(device_map_contents(*m), ks@),
{
    let ghost c = device_map_contents(*m);
    let keys = device_map_keys(m);
    let ghost mut ks: Seq<u32> = Seq::empty();
    let ghost start = deref_all(out@);
    let mut i: usize = 0;
    while i < keys.len()
        invariant
            c == device_map_contents(*m),
            keys@.no_duplicates(),
            keys@.to_set() == c.dom(),
            i <= keys.len(),
            ks.no_duplicates(),
            forall|x: u32| ks.contains(x) <==> (seen_before(keys@, i as int, x) && c[x].device_type == t),
            forall|x: u32| ks.contains(x) ==> c.contains_key(x),
            deref_all(out@) == start + usages_at(c, ks),
        decreases keys.len() - i,
    {
        let k = keys[i];
        assert(keys@.to_set().contains(k));
        assert(c.contains_key(k));
        proof {
            assert(!seen_before(keys@, i as int, k)) by {
                if seen_before(keys@, i as int, k) {
                    let j = choose|j: int| 0 <= j < i && #[trigger] keys@[j] == k;
                    assert(keys@[j] == keys@[i as int]);
                }
            }
            assert forall|x: u32| seen_before(keys@, i + 1, x) <==> (seen_before(keys@, i as int, x) || x == k) by {
                if x == k {
                    assert(keys@[i as int] == x);
                }
            }
        }
        match device_map_get(m, k) {
            Some(u) => {
                if u.device_type == t {
                    let ghost old_out = out@;
                    out.push(u);
                    proof {
                        assert(usages_at(c, ks.push(k)) =~= usages_at(c, ks).push(c[k]));
                        assert(deref_all(out@) =~= deref_all(old_out).push(*u));
                        assert forall|a: int, b: int| 0 <= a < b < ks.push(k).len() implies ks.push(k)[a] != ks.push(k)[b] by {
                            if b == ks.len() {
                                assert(ks.contains(ks[a]));
                            }
                        }
                        assert forall|x: u32| ks.push(k).contains(x) <==> (ks.contains(x) || x == k) by {
                            if ks.push(k).contains(x) {
                                let j = choose|j: int| 0 <= j < ks.push(k).len() && ks.push(k)[j] == x;
                                if j < ks.len() {
                                    assert(ks[j] == x);
                                }
                            }
                            if ks.contains(x) {
                                let j = choose|j: int| 0 <= j < ks.len() && ks[j] == x;
                                assert(ks.push(k)[j] == x);
                            }
                            if x == k {
                                assert(ks.push(k)[ks.len() as int] == x);
                            }
                        }
                        let ghost prev = ks;
                        ks = ks.push(k);
                        assert forall|x: u32| ks.contains(x) implies c.contains_key(x) by {
                            assert(prev.contains(x) || x == k);
                        }
                        assert forall|x: u32| ks.contains(x) <==> (seen_before(keys@, i + 1, x) && c[x].device_type == t) by {
                            assert(ks.contains(x) <==> (prev.contains(x) || x == k));
                            assert(seen_before(keys@, i + 1, x) <==> (seen_before(keys@, i as int, x) || x == k));
                        }
                    }
                } else {
                    assert forall|x: u32| ks.contains(x) <==> (seen_before(keys@, i + 1, x) && c[x].device_type == t) by {
                        assert(seen_before(keys@, i + 1, x) <==> (seen_before(keys@, i as int, x) || x == k));
                    }
                }
            },
            None => {},
        }
        i = i + 1;
    }
    proof {
        assert forall|x: u32| ks.to_set().contains(x) <==> keys_of_type(c, t).contains(x) by {
            if seen_before(keys@, keys@.len() as int, x) {
                let j = choose|j: int| 0 <= j < keys@.len() && #[trigger] keys@[j] == x;
                assert(keys@.contains(x));
                assert(keys@.to_set().contains(x));
            }
            if c.dom().contains(x) {
                assert(keys@.to_set().contains(x));
            }
        }
        assert(ks.to_set() =~= keys_of_type(c, t));
    }
    Ghost(ks)
}

/// Whether some usage in `m` is of a device of type `t`.
fn map_has_device_type(m: &DeviceMap, t: DeviceType) -> (r: bool)
    ensures
        r == map_has_type(device_map_contents(*m), t),
{
    let ghost c = device_map_contents(*m);
    let keys = device_map_keys(m);
    let mut i: usize = 0;
    while i < keys.len()
        invariant
            c == device_map_contents(*m),
            keys@.to_set() == c.dom(),
            i <= keys.len(),
            forall|j: int| 0 <= j < i ==> c[#[trigger] keys@[j]].device_type != t,
        decreases keys.len() - i,
    {
        let k = keys[i];
        assert(keys@.to_set().contains(k));
        match device_map_get(m, k) {
            Some(u) => {
                if u.device_type == t {
                    return true;
                }
            },
            None => {},
        }
        i = i + 1;
    }
    proof {
        if map_has_type(c, t) {
            let k = choose|k: u32| #[trigger] c.contains_key(k) && c[k].device_type == t;
            assert(keys@.to_set().contains(k));
            let j = choose|j: int| 0 <= j < keys@.len() && keys@[j] == k;
            assert(c[keys@[j]].device_type != t);
        }
    }
    false
}

} // verus!

verus! {

/// The privacy applet's state.
pub struct PrivacyIndicator {
    /// Popup window, if open
    popup: Option<u64>,
    /// Active devices from PipeWire, keyed by node_id
    pipewire_devices: DeviceMap,
    /// Active cameras from /proc scanning, keyed by PID
    proc_cameras: DeviceMap,
    /// State for each indicator type
    camera_state: IndicatorState,
    microphone_state: IndicatorState,
    screenshare_state: IndicatorState,
    screenrecord_state: IndicatorState,
}

/// What the popup window does after a message.
#[derive(Debug, Clone, Copy, PartialEq, Eq, Structural)]
pub enum PopupAction {
    /// Leave the popup as it is
    Keep,
    /// Open a popup under this id
    Open(u64),
    /// Close the popup with this id
    Destroy(u64),
}

/// Messages the applet handles, with what the outside world supplied for them.
#[derive(Debug)]
pub enum Message {
    /// A periodic tick, with the cameras that the latest `/proc` scan found
    Tick(DeviceMap),
    /// The panel button was pressed; the id is fresh for a popup to be opened
    TogglePopup(u64),
    /// The window with this id asks to be closed
    CloseRequested(u64),
    /// An event of the PipeWire monitor
    PipeWire(PipeWireEvent),
}

/// Whether a device of type `t` is in use, given both device maps.
pub open spec fn type_in_use(pw: Map<u32, DeviceUsage>, procs: Map<u32, DeviceUsage>, t: DeviceType) -> bool {
    map_has_type(pw, t) || map_has_type(procs, t)
}

/// Whether the camera is in use: a camera usage is known, or `/proc` found any process.
pub open spec fn camera_in_use(pw: Map<u32, DeviceUsage>, procs: Map<u32, DeviceUsage>) -> bool {
    type_in_use(pw, procs, DeviceType::Camera) || !procs.is_empty()
}

impl PrivacyIndicator {
    /// The devices that PipeWire reported, keyed by node id.
    pub closed spec fn devices(&self) -> Map<u32, DeviceUsage> {
        device_map_contents(self.pipewire_devices)
    }

    /// The cameras that `/proc` scanning found, keyed by process id.
    pub closed spec fn cameras(&self) -> Map<u32, DeviceUsage> {
        device_map_contents(self.proc_cameras)
    }

    /// The id of the open popup, if any.
    pub closed spec fn popup_id(&self) -> Option<u64> {
        self.popup
    }

    /// The indicator state for devices of type `t`.
    pub closed spec fn indicator(&self, t: DeviceType) -> IndicatorState {
        match t {
            DeviceType::Camera => self.camera_state,
            DeviceType::Microphone => self.microphone_state,
            DeviceType::ScreenShare => self.screenshare_state,
            DeviceType::ScreenRecord => self.screenrecord_state,
        }
    }

    /// Each indicator's `active` flag tells whether a device of its kind is in use.
    pub open spec fn activity_matches(&self) -> bool {
        &&& self.indicator(DeviceType::Camera).active == camera_in_use(self.devices(), self.cameras())
        &&& self.indicator(DeviceType::Microphone).active == type_in_use(self.devices(), self.cameras(), DeviceType::Microphone)
        &&& self.indicator(DeviceType::ScreenShare).active == type_in_use(self.devices(), self.cameras(), DeviceType::ScreenShare)
        &&& self.indicator(DeviceType::ScreenRecord).active == type_in_use(self.devices(), self.cameras(), DeviceType::ScreenRecord)
    }

    /// Every active indicator knows when it was last active.
    pub open spec fn all_stamped(&self) -> bool {
        forall|t: DeviceType| #[trigger] stamped(self.indicator(t))
    }

    /// The applet's invariant: indicators match the devices in use, and the
    /// active ones know when they were last active.
    pub open spec fn well_formed(&self) -> bool {
        self.activity_matches() && self.all_stamped()
    }

    /// `self`'s indicators are `old`'s, updated for the devices `self` holds.
    pub open spec fn indicators_follow(&self, old: &PrivacyIndicator) -> bool {
        &&& updated_at_some_instant(old.indicator(DeviceType::Camera), camera_in_use(self.devices(), self.cameras()), self.indicator(DeviceType::Camera))
        &&& updated_at_some_instant(old.indicator(DeviceType::Microphone), type_in_use(self.devices(), self.cameras(), DeviceType::Microphone), self.indicator(DeviceType::Microphone))
        &&& updated_at_some_instant(old.indicator(DeviceType::ScreenShare), type_in_use(self.devices(), self.cameras(), DeviceType::ScreenShare), self.indicator(DeviceType::ScreenShare))
        &&& updated_at_some_instant(old.indicator(DeviceType::ScreenRecord), type_in_use(self.devices(), self.cameras(), DeviceType::ScreenRecord), self.indicator(DeviceType::ScreenRecord))
    }

    /// The applet before any message: no devices, no popup, nothing shown.
    pub fn new() -> (r: PrivacyIndicator)
        ensures
            r.devices().is_empty(),
            r.cameras().is_empty(),
            r.popup_id() is None,
            forall|t: DeviceType| !#[trigger] r.indicator(t).active && r.indicator(t).last_active is None,
            r.well_formed(),
    {
        let r = PrivacyIndicator {
            popup: None,
            pipewire_devices: device_map_new(),
            proc_cameras: device_map_new(),
            camera_state: IndicatorState::default(),
            microphone_state: IndicatorState::default(),
            screenshare_state: IndicatorState::default(),
            screenrecord_state: IndicatorState::default(),
        };
        assert(!map_has_type(r.devices(), DeviceType::Camera));
        r
    }

    /// The id of the open popup, if any.
    pub fn popup(&self) -> (r: Option<u64>)
        ensures
            r == self.popup_id(),
    {
        self.popup
    }

    /// The indicator state for devices of type `device_type`.
    pub fn indicator_state(&self, device_type: DeviceType) -> (r: IndicatorState)
        ensures
            r == self.indicator(device_type),
    {
        match device_type {
            DeviceType::Camera => self.camera_state,
            DeviceType::Microphone => self.microphone_state,
            DeviceType::ScreenShare => self.screenshare_state,
            DeviceType::ScreenRecord => self.screenrecord_state,
        }
    }

    /// Whether some device of type `device_type` is in use.
    pub fn has_device_type(&self, device_type: DeviceType) -> (r: bool)
        ensures
            r == type_in_use(self.devices(), self.cameras(), device_type),
    {
        map_has_device_type(&self.pipewire_devices, device_type) || map_has_device_type(
            &self.proc_cameras,
            device_type,
        )
    }

    /// The usages of devices of type `device_type`: PipeWire's, then `/proc`'s.
    pub fn get_devices_by_type(&self, device_type: DeviceType) -> (r: Vec<&DeviceUsage>)
        ensures
            lists_usages_of_type(deref_all(r@), self.devices(), self.cameras(), device_type),
    {
        let mut out: Vec<&DeviceUsage> = Vec::new();
        let ka = push_usages_of_type(&self.pipewire_devices, device_type, &mut out);
        let kb = push_usages_of_type(&self.proc_cameras, device_type, &mut out);
        assert(deref_all(Seq::<&DeviceUsage>::empty()) =~= Seq::<DeviceUsage>::empty());
        assert(deref_all(out@) =~= usages_at(self.devices(), ka@) + usages_at(self.cameras(), kb@));
        assert(lists_keys_of_type(ka@, self.devices(), device_type));
        assert(lists_keys_of_type(kb@, self.cameras(), device_type));
        out
    }

    /// Update every indicator for the devices now in use.
    pub fn update_states(&mut self)
        ensures
            final(self).devices() == old(self).devices(),
            final(self).cameras() == old(self).cameras(),
            final(self).popup_id() == old(self).popup_id(),
            final(self).indicators_follow(old(self)),
            final(self).well_formed(),
    {
        let camera_active = self.has_device_type(DeviceType::Camera) || !device_map_is_empty(&self.proc_cameras);
        let mic_active = self.has_device_type(DeviceType::Microphone);
        let screenshare_active = self.has_device_type(DeviceType::ScreenShare);
        let screenrecord_active = self.has_device_type(DeviceType::ScreenRecord);

        self.camera_state.update(camera_active);
        self.microphone_state.update(mic_active);
        self.screenshare_state.update(screenshare_active);
        self.screenrecord_state.update(screenrecord_active);
    }

    /// Some indicator is visible when the camera, microphone, screen share and
    /// screen record indicators were last active `m1`, `m2`, `m3`, `m4` ms ago.
    pub open spec fn visible_after_each(&self, m1: u128, m2: u128, m3: u128, m4: u128) -> bool {
        visible_after(self.indicator(DeviceType::Camera), m1)
            || visible_after(self.indicator(DeviceType::Microphone), m2)
            || visible_after(self.indicator(DeviceType::ScreenShare), m3)
            || visible_after(self.indicator(DeviceType::ScreenRecord), m4)
    }

    /// Whether any indicator is visible, reading elapsed times from the clock.
    pub fn any_visible(&self) -> (r: bool)
        ensures
            exists|m1: u128, m2: u128, m3: u128, m4: u128| r == #[trigger] self.visible_after_each(m1, m2, m3, m4),
    {
        let a = self.camera_state.should_show();
        let b = if a { true } else { self.microphone_state.should_show() };
        let c = if b { true } else { self.screenshare_state.should_show() };
        let d = if c { true } else { self.screenrecord_state.should_show() };
        proof {
            let m1 = choose|ms: u128| a == visible_after(self.camera_state, ms);
            let m2 = if a { 0 } else { choose|ms: u128| b == visible_after(self.microphone_state, ms) };
            let m3 = if b { 0 } else { choose|ms: u128| c == visible_after(self.screenshare_state, ms) };
            let m4 = if c { 0 } else { choose|ms: u128| d == visible_after(self.screenrecord_state, ms) };
            assert(d == self.visible_after_each(m1, m2, m3, m4));
        }
        d
    }
}

} // verus!

verus! {

/// The PipeWire devices after event `e`: an added usage is recorded under its
/// node id (replacing any earlier one), a removed node is forgotten, errors
/// change nothing.
pub open spec fn devices_after(m: Map<u32, DeviceUsage>, e: PipeWireEvent) -> Map<u32, DeviceUsage> {
    match e {
        PipeWireEvent::DeviceAdded(u) => m.insert(u.node_id, u),
        PipeWireEvent::DeviceRemoved(id) => m.remove(id),
        PipeWireEvent::Error(_) => m,
    }
}

/// Pressing the panel button: an open popup closes, else one opens as `fresh`.
pub open spec fn toggled_popup(p: Option<u64>, fresh: u64) -> (Option<u64>, PopupAction) {
    match p {
        Some(q) => (None, PopupAction::Destroy(q)),
        None => (Some(fresh), PopupAction::Open(fresh)),
    }
}

/// A close request for window `id` forgets the popup if it is that window.
pub open spec fn closed_popup(p: Option<u64>, id: u64) -> Option<u64> {
    if p == Some(id) {
        None
    } else {
        p
    }
}

impl PrivacyIndicator {
    /// The indicators of `self` and `old` are the same.
    pub open spec fn same_indicators(&self, old: &PrivacyIndicator) -> bool {
        forall|t: DeviceType| #[trigger] self.indicator(t) == old.indicator(t)
    }

    /// Toggle the popup; `fresh` is the id a newly opened popup gets.
    pub fn toggle_popup(&mut self, fresh: u64) -> (r: PopupAction)
        ensures
            (final(self).popup_id(), r) == toggled_popup(old(self).popup_id(), fresh),
            final(self).devices() == old(self).devices(),
            final(self).cameras() == old(self).cameras(),
            final(self).same_indicators(old(self)),
    {
        if let Some(p) = self.popup.take() {
            return PopupAction::Destroy(p);
        }
        self.popup = Some(fresh);
        PopupAction::Open(fresh)
    }

    /// Window `id` asks to be closed.
    pub fn close_requested(&mut self, id: u64)
        ensures
            final(self).popup_id() == closed_popup(old(self).popup_id(), id),
            final(self).devices() == old(self).devices(),
            final(self).cameras() == old(self).cameras(),
            final(self).same_indicators(old(self)),
    {
        if self.popup == Some(id) {
            self.popup = None;
        }
    }

    /// A tick: take the cameras the latest `/proc` scan found, then update
    /// the indicators (cooldowns run from these updates).
    pub fn tick(&mut self, proc_cameras: DeviceMap)
        ensures
            final(self).cameras() == device_map_contents(proc_cameras),
            final(self).devices() == old(self).devices(),
            final(self).popup_id() == old(self).popup_id(),
            final(self).indicators_follow(old(self)),
            final(self).well_formed(),
    {
        self.proc_cameras = proc_cameras;
        let ghost mid = *self;
        self.update_states();
        assert(final(self).indicators_follow(&mid));
    }

    /// An event of the PipeWire monitor.
    pub fn pipewire_event(&mut self, event: PipeWireEvent)
        ensures
            final(self).devices() == devices_after(old(self).devices(), event),
            final(self).cameras() == old(self).cameras(),
            final(self).popup_id() == old(self).popup_id(),
            event is Error ==> final(self).same_indicators(old(self)),
            !(event is Error) ==> final(self).indicators_follow(old(self)),
            !(event is Error) ==> final(self).well_formed(),
            old(self).well_formed() ==> final(self).well_formed(),
    {
        match event {
            PipeWireEvent::DeviceAdded(usage) => {
                let node_id = usage.node_id;
                device_map_insert(&mut self.pipewire_devices, node_id, usage);
                self.update_states();
            },
            PipeWireEvent::DeviceRemoved(node_id) => {
                let _ = device_map_remove(&mut self.pipewire_devices, node_id);
                self.update_states();
            },
            PipeWireEvent::Error(_) => {},
        }
    }

    /// Handle a message; the result says what to do with the popup window.
    pub fn update(&mut self, message: Message) -> (r: PopupAction)
        ensures
            match message {
                Message::Tick(cams) => {
                    &&& final(self).cameras() == device_map_contents(cams)
                    &&& final(self).devices() == old(self).devices()
                    &&& final(self).popup_id() == old(self).popup_id()
                    &&& final(self).indicators_follow(old(self))
                    &&& r == PopupAction::Keep
                },
                Message::TogglePopup(fresh) => {
                    &&& (final(self).popup_id(), r) == toggled_popup(old(self).popup_id(), fresh)
                    &&& final(self).devices() == old(self).devices()
                    &&& final(self).cameras() == old(self).cameras()
                    &&& final(self).same_indicators(old(self))
                },
                Message::CloseRequested(id) => {
                    &&& final(self).popup_id() == closed_popup(old(self).popup_id(), id)
                    &&& final(self).devices() == old(self).devices()
                    &&& final(self).cameras() == old(self).cameras()
                    &&& final(self).same_indicators(old(self))
                    &&& r == PopupAction::Keep
                },
                Message::PipeWire(e) => {
                    &&& final(self).devices() == devices_after(old(self).devices(), e)
                    &&& final(self).cameras() == old(self).cameras()
                    &&& final(self).popup_id() == old(self).popup_id()
                    &&& (e is Error ==> final(self).same_indicators(old(self)))
                    &&& (!(e is Error) ==> final(self).indicators_follow(old(self)))
                    &&& r == PopupAction::Keep
                },
            },
            match message {
                Message::Tick(_) => final(self).well_formed(),
                Message::PipeWire(e) => !(e is Error) ==> final(self).well_formed(),
                _ => true,
            },
            old(self).well_formed() ==> final(self).well_formed(),
    {
        match message {
            Message::Tick(cams) => {
                self.tick(cams);
                PopupAction::Keep
            },
            Message::TogglePopup(fresh) => self.toggle_popup(fresh),
            Message::CloseRequested(id) => {
                self.close_requested(id);
                PopupAction::Keep
            },
            Message::PipeWire(e) => {
                self.pipewire_event(e);
                PopupAction::Keep
            },
        }
    }
}

} // verus!

verus! {

/// One entry of the popup that lists the devices in use.
#[derive(Debug)]
pub enum PopupItem<'a> {
    /// A section headed by the device type, listing its usages
    Section(DeviceType, Vec<&'a DeviceUsage>),
    /// A separator between two sections
    Divider,
    /// The message shown when no device is in use
    NoActiveDevices,
}

/// The shape of a popup entry.
#[derive(Debug, Clone, Copy, PartialEq, Eq, Structural)]
pub enum ItemKind {
    Section(DeviceType),
    Divider,
    NoActiveDevices,
}

/// The shape of popup entry `i`.
pub open spec fn item_kind(i: PopupItem) -> ItemKind {
    match i {
        PopupItem::Section(t, _) => ItemKind::Section(t),
        PopupItem::Divider => ItemKind::Divider,
        PopupItem::NoActiveDevices => ItemKind::NoActiveDevices,
    }
}

/// The shapes of popup entries `items`.
pub open spec fn item_kinds(items: Seq<PopupItem>) -> Seq<ItemKind> {
    items.map_values(|i: PopupItem| item_kind(i))
}

/// `items` followed by a section for `t` if `shown`, with a divider before it
/// unless it is the first.
pub open spec fn with_section(items: Seq<ItemKind>, t: DeviceType, shown: bool) -> Seq<ItemKind> {
    if !shown {
        items
    } else if items.len() == 0 {
        seq![ItemKind::Section(t)]
    } else {
        items + seq![ItemKind::Divider, ItemKind::Section(t)]
    }
}

/// The popup's shape: camera, microphone, screen share and screen record
/// sections for the types in use, in that order and divided, or the
/// no-active-devices message when none is.
pub open spec fn popup_layout(pw: Map<u32, DeviceUsage>, procs: Map<u32, DeviceUsage>) -> Seq<ItemKind> {
    let a = with_section(Seq::empty(), DeviceType::Camera, type_in_use(pw, procs, DeviceType::Camera));
    let b = with_section(a, DeviceType::Microphone, type_in_use(pw, procs, DeviceType::Microphone));
    let c = with_section(b, DeviceType::ScreenShare, type_in_use(pw, procs, DeviceType::ScreenShare));
    let d = with_section(c, DeviceType::ScreenRecord, type_in_use(pw, procs, DeviceType::ScreenRecord));
    if d.len() == 0 {
        seq![ItemKind::NoActiveDevices]
    } else {
        d
    }
}

/// A listing of the usages of type `t` is empty exactly when no such device is in use.
pub proof fn lemma_listing_empty(r: Seq<DeviceUsage>, a: Map<u32, DeviceUsage>, b: Map<u32, DeviceUsage>, t: DeviceType)
    requires
        lists_usages_of_type(r, a, b, t),
    ensures
        (r.len() == 0) == !type_in_use(a, b, t),
{
    let (ka, kb) = choose|ka: Seq<u32>, kb: Seq<u32>|
        lists_keys_of_type(ka, a, t) && lists_keys_of_type(kb, b, t) && r == usages_at(a, ka) + usages_at(b, kb);
    lemma_keys_listing_empty(ka, a, t);
    lemma_keys_listing_empty(kb, b, t);
}

/// A listing of the keys of type `t` is empty exactly when `m` has no usage of type `t`.
proof fn lemma_keys_listing_empty(ks: Seq<u32>, m: Map<u32, DeviceUsage>, t: DeviceType)
    requires
        lists_keys_of_type(ks, m, t),
    ensures
        (ks.len() == 0) == !map_has_type(m, t),
{
    if ks.len() > 0 {
        assert(ks.to_set().contains(ks[0]));
        assert(keys_of_type(m, t).contains(ks[0]));
        assert(m.contains_key(ks[0]));
    }
    if map_has_type(m, t) {
        let k = choose|k: u32| #[trigger] m.contains_key(k) && m[k].device_type == t;
        assert(keys_of_type(m, t).contains(k));
        assert(ks.to_set().contains(k));
    }
}

/// Append a section for `t` listing `v`, after a divider unless it is the first entry.
fn push_section<'a>(items: &mut Vec<PopupItem<'a>>, t: DeviceType, v: Vec<&'a DeviceUsage>)
    requires
        v.len() > 0,
    ensures
        item_kinds(final(items)@) == with_section(item_kinds(old(items)@), t, true),
        forall|i: int| 0 <= i < old(items)@.len() ==> final(items)@[i] == old(items)@[i],
        final(items)@.last() == PopupItem::Section(t, v),
        final(items)@.len() == if old(items)@.len() == 0 { 1 } else { old(items)@.len() + 2 },
        old(items)@.len() > 0 ==> final(items)@[old(items)@.len() as int] == PopupItem::Divider,
{
    let ghost before = items@;
    if items.len() > 0 {
        items.push(PopupItem::Divider);
    }
    items.push(PopupItem::Section(t, v));
    assert(item_kinds(items@) =~= with_section(item_kinds(before), t, true));
}

impl PrivacyIndicator {
    /// What the popup shows: a section per device type in use, each listing
    /// its usages, with dividers between sections; or, when no device is in
    /// use, the no-active-devices message.
    pub fn popup_items(&self) -> (r: Vec<PopupItem<'_>>)
        ensures
            item_kinds(r@) == popup_layout(self.devices(), self.cameras()),
            forall|i: int|
                0 <= i < r@.len() ==> match #[trigger] r@[i] {
                    PopupItem::Section(t, v) => lists_usages_of_type(deref_all(v@), self.devices(), self.cameras(), t),
                    _ => true,
                },
    {
        let mut content: Vec<PopupItem<'_>> = Vec::new();
        let types = [DeviceType::Camera, DeviceType::Microphone, DeviceType::ScreenShare, DeviceType::ScreenRecord];
        let ghost pw = self.devices();
        let ghost procs = self.cameras();
        let mut j: usize = 0;
        while j < 4
            invariant
                pw == self.devices(),
                procs == self.cameras(),
                j <= 4,
                types@ == seq![DeviceType::Camera, DeviceType::Microphone, DeviceType::ScreenShare, DeviceType::ScreenRecord],
                item_kinds(content@) == layout_prefix(pw, procs, j as int),
                forall|i: int|
                    0 <= i < content@.len() ==> match #[trigger] content@[i] {
                        PopupItem::Section(t, v) => lists_usages_of_type(deref_all(v@), pw, procs, t),
                        _ => true,
                    },
            decreases 4 - j,
        {
            let t = types[j];
            let devices = self.get_devices_by_type(t);
            proof {
                lemma_listing_empty(deref_all(devices@), pw, procs, t);
            }
            if devices.len() > 0 {
                let ghost before = content@;
                push_section(&mut content, t, devices);
                assert forall|i: int| 0 <= i < content@.len() implies match #[trigger] content@[i] {
                    PopupItem::Section(t, v) => lists_usages_of_type(deref_all(v@), pw, procs, t),
                    _ => true,
                } by {
                    if i < before.len() {
                        assert(content@[i] == before[i]);
                    }
                }
            }
            j = j + 1;
        }
        proof {
            reveal_with_fuel(layout_prefix, 5);
        }
        if content.len() == 0 {
            content.push(PopupItem::NoActiveDevices);
            assert(item_kinds(content@) =~= seq![ItemKind::NoActiveDevices]);
        }
        content
    }
}

/// The popup's shape after considering the first `j` device types.
pub open spec fn layout_prefix(pw: Map<u32, DeviceUsage>, procs: Map<u32, DeviceUsage>, j: int) -> Seq<ItemKind>
    decreases j,
{
    if j <= 0 {
        Seq::empty()
    } else {
        let t = seq![DeviceType::Camera, DeviceType::Microphone, DeviceType::ScreenShare, DeviceType::ScreenRecord][j - 1];
        with_section(layout_prefix(pw, procs, j - 1), t, type_in_use(pw, procs, t))
    }
}

} // verus!

verus! {

/// Updating with an active device makes the indicator visible, however much
/// time passes before it is next looked at (until the next update).
pub proof fn law_active_update_shows(s: IndicatorState, now: Instant, elapsed_ms: u128)
    ensures
        visible_after(updated(s, true, now), elapsed_ms),
{
}

/// When an active device stops being used, its indicator stays visible for
/// exactly the cooldown after that update.
pub proof fn law_cooldown_after_stop(s: IndicatorState, now: Instant, elapsed_ms: u128)
    requires
        s.active,
    ensures
        updated(s, false, now).last_active == Some(now),
        visible_after(updated(s, false, now), elapsed_ms) == (elapsed_ms < COOLDOWN_MILLIS),
{
}

/// Once an inactive indicator's cooldown has run out it stays hidden as more
/// time passes.
pub proof fn law_cooldown_expiry_is_final(s: IndicatorState, earlier_ms: u128, later_ms: u128)
    requires
        !s.active,
        earlier_ms <= later_ms,
        !visible_after(s, earlier_ms),
    ensures
        !visible_after(s, later_ms),
{
}

/// Every update leaves the indicator active exactly when the device is, and an
/// active indicator always knows when it was last active.
pub proof fn law_update_stamps_active(s: IndicatorState, is_active: bool, now: Instant)
    ensures
        updated(s, is_active, now).active == is_active,
        stamped(updated(s, is_active, now)),
{
}

/// Updating an inactive indicator with an inactive device changes nothing:
/// a running cooldown is not restarted.
pub proof fn law_idle_update_keeps_state(s: IndicatorState, now: Instant)
    requires
        !s.active,
    ensures
        updated(s, false, now) == s,
{
}

/// An indicator that was never active is never visible.
pub proof fn law_never_active_never_shows(s: IndicatorState, elapsed_ms: u128)
    requires
        !s.active,
        s.last_active is None,
    ensures
        !visible_after(s, elapsed_ms),
{
}

/// Removing a node undoes adding its usage, when the node was not tracked before.
pub proof fn law_remove_undoes_add(m: Map<u32, DeviceUsage>, u: DeviceUsage)
    requires
        !m.contains_key(u.node_id),
    ensures
        devices_after(devices_after(m, PipeWireEvent::DeviceAdded(u)), PipeWireEvent::DeviceRemoved(u.node_id)) == m,
{
    assert(m.insert(u.node_id, u).remove(u.node_id) =~= m);
}

/// A removal of a node the applet does not track is ignored.
pub proof fn law_untracked_removal_ignored(m: Map<u32, DeviceUsage>, id: u32)
    requires
        !m.contains_key(id),
    ensures
        devices_after(m, PipeWireEvent::DeviceRemoved(id)) == m,
{
    assert(m.remove(id) =~= m);
}

/// After a removal the node is no longer tracked, whatever was recorded for it.
pub proof fn law_removed_node_forgotten(m: Map<u32, DeviceUsage>, id: u32)
    ensures
        !devices_after(m, PipeWireEvent::DeviceRemoved(id)).contains_key(id),
{
}

/// Pressing the panel button twice from a closed popup opens it and then
/// closes the same window, leaving no popup.
pub proof fn law_toggle_twice_closes(fresh: u64, other: u64)
    ensures
        toggled_popup(None, fresh) == (Some(fresh), PopupAction::Open(fresh)),
        toggled_popup(toggled_popup(None, fresh).0, other) == (None::<u64>, PopupAction::Destroy(fresh)),
{
}

/// A close request for a window other than the popup leaves the popup open.
pub proof fn law_close_other_window_keeps_popup(p: u64, id: u64)
    requires
        p != id,
    ensures
        closed_popup(Some(p), id) == Some(p),
        closed_popup(Some(p), p) is None,
{
}

/// After any message other than a popup or error message, whatever the
/// state before, the indicators' activity matches the devices in use and
/// every active indicator knows when it was last active.
pub proof fn law_activity_after_device_change(old: PrivacyIndicator, new: PrivacyIndicator)
    requires
        new.indicators_follow(&old),
    ensures
        new.activity_matches(),
        new.all_stamped(),
{
    let c = camera_in_use(new.devices(), new.cameras());
    let n1 = choose|now: Instant| new.indicator(DeviceType::Camera) == updated(old.indicator(DeviceType::Camera), c, now);
    let mi = type_in_use(new.devices(), new.cameras(), DeviceType::Microphone);
    let n2 = choose|now: Instant| new.indicator(DeviceType::Microphone) == updated(old.indicator(DeviceType::Microphone), mi, now);
    let ss = type_in_use(new.devices(), new.cameras(), DeviceType::ScreenShare);
    let n3 = choose|now: Instant| new.indicator(DeviceType::ScreenShare) == updated(old.indicator(DeviceType::ScreenShare), ss, now);
    let sr = type_in_use(new.devices(), new.cameras(), DeviceType::ScreenRecord);
    let n4 = choose|now: Instant| new.indicator(DeviceType::ScreenRecord) == updated(old.indicator(DeviceType::ScreenRecord), sr, now);
}

} // verus!

verus! {

/// What adding a section does to the entries present.
proof fn lemma_with_section(items: Seq<ItemKind>, t2: DeviceType, shown: bool, t: DeviceType)
    ensures
        with_section(items, t2, shown).contains(ItemKind::Section(t)) == (items.contains(ItemKind::Section(t)) || (
        shown && t2 == t)),
        (with_section(items, t2, shown).len() == 0) == (items.len() == 0 && !shown),
        !items.contains(ItemKind::NoActiveDevices) ==> !with_section(items, t2, shown).contains(
            ItemKind::NoActiveDevices,
        ),
{
    let w = with_section(items, t2, shown);
    if shown && items.len() > 0 {
        assert(w =~= items + seq![ItemKind::Divider, ItemKind::Section(t2)]);
        assert forall|x: ItemKind| w.contains(x) <==> (items.contains(x) || x == ItemKind::Divider || x
            == ItemKind::Section(t2)) by {
            if w.contains(x) {
                let i = choose|i: int| 0 <= i < w.len() && w[i] == x;
                if i < items.len() {
                    assert(items[i] == x);
                }
            }
            if items.contains(x) {
                let i = choose|i: int| 0 <= i < items.len() && items[i] == x;
                assert(w[i] == x);
            }
            if x == ItemKind::Divider {
                assert(w[items.len() as int] == x);
            }
            if x == ItemKind::Section(t2) {
                assert(w[items.len() as int + 1] == x);
            }
        }
    } else if shown {
        assert(w[0] == ItemKind::Section(t2));
        assert(!items.contains(ItemKind::Section(t)));
    }
}

/// The popup has a section for a device type exactly when a device of that
/// type is in use, whether PipeWire or the `/proc` scan found it, and shows
/// the no-active-devices message, alone, exactly when neither found any
/// device.
pub proof fn law_popup_sections_are_types_in_use(pw: Map<u32, DeviceUsage>, procs: Map<u32, DeviceUsage>, t: DeviceType)
    ensures
        popup_layout(pw, procs).contains(ItemKind::Section(t)) == ((exists|k: u32| #[trigger] pw.contains_key(k) && pw[k].device_type == t)
            || (exists|k: u32| #[trigger] procs.contains_key(k) && procs[k].device_type == t)),
        (popup_layout(pw, procs) == seq![ItemKind::NoActiveDevices]) == ((forall|k: u32| !#[trigger] pw.contains_key(k))
            && (forall|k: u32| !#[trigger] procs.contains_key(k))),
        popup_layout(pw, procs).contains(ItemKind::NoActiveDevices) == ((forall|k: u32| !#[trigger] pw.contains_key(k))
            && (forall|k: u32| !#[trigger] procs.contains_key(k))),
{
    let ca = type_in_use(pw, procs, DeviceType::Camera);
    let mi = type_in_use(pw, procs, DeviceType::Microphone);
    let ss = type_in_use(pw, procs, DeviceType::ScreenShare);
    let sr = type_in_use(pw, procs, DeviceType::ScreenRecord);
    let e = Seq::<ItemKind>::empty();
    let a = with_section(e, DeviceType::Camera, ca);
    let b = with_section(a, DeviceType::Microphone, mi);
    let c = with_section(b, DeviceType::ScreenShare, ss);
    let d = with_section(c, DeviceType::ScreenRecord, sr);
    assert(!e.contains(ItemKind::Section(t)));
    assert(!e.contains(ItemKind::NoActiveDevices));
    lemma_with_section(e, DeviceType::Camera, ca, t);
    lemma_with_section(a, DeviceType::Microphone, mi, t);
    lemma_with_section(b, DeviceType::ScreenShare, ss, t);
    lemma_with_section(c, DeviceType::ScreenRecord, sr, t);
    let none_used = (forall|k: u32| !#[trigger] pw.contains_key(k)) && (forall|k: u32| !#[trigger] procs.contains_key(k));
    assert(none_used == (!ca && !mi && !ss && !sr)) by {
        if !ca && !mi && !ss && !sr {
            assert forall|k: u32| !#[trigger] pw.contains_key(k) by {
                if pw.contains_key(k) {
                    let t2 = pw[k].device_type;
                    assert(type_in_use(pw, procs, t2));
                    match t2 {
                        DeviceType::Camera => {},
                        DeviceType::Microphone => {},
                        DeviceType::ScreenShare => {},
                        DeviceType::ScreenRecord => {},
                    }
                }
            }
            assert forall|k: u32| !#[trigger] procs.contains_key(k) by {
                if procs.contains_key(k) {
                    let t2 = procs[k].device_type;
                    assert(type_in_use(pw, procs, t2));
                    match t2 {
                        DeviceType::Camera => {},
                        DeviceType::Microphone => {},
                        DeviceType::ScreenShare => {},
                        DeviceType::ScreenRecord => {},
                    }
                }
            }
        }
        if none_used {
            assert forall|t2: DeviceType| !#[trigger] type_in_use(pw, procs, t2) by {
                if map_has_type(pw, t2) {
                    let k = choose|k: u32| #[trigger] pw.contains_key(k) && pw[k].device_type == t2;
                    assert(!pw.contains_key(k));
                }
                if map_has_type(procs, t2) {
                    let k = choose|k: u32| #[trigger] procs.contains_key(k) && procs[k].device_type == t2;
                    assert(!procs.contains_key(k));
                }
            }
            assert(!type_in_use(pw, procs, DeviceType::Camera));
            assert(!type_in_use(pw, procs, DeviceType::Microphone));
            assert(!type_in_use(pw, procs, DeviceType::ScreenShare));
            assert(!type_in_use(pw, procs, DeviceType::ScreenRecord));
        }
    }
    let no = seq![ItemKind::NoActiveDevices];
    assert(no.contains(ItemKind::NoActiveDevices)) by {
        assert(no[0] == ItemKind::NoActiveDevices);
    }
    assert(!no.contains(ItemKind::Section(t))) by {
        if no.contains(ItemKind::Section(t)) {
            let i = choose|i: int| 0 <= i < no.len() && no[i] == ItemKind::Section(t);
            assert(no[i] == ItemKind::NoActiveDevices);
        }
    }
    if d.len() > 0 {
        assert(d != no);
    }
}

} // verus!
