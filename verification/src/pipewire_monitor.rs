//! Classification of PipeWire registry objects into privacy-relevant device
//! usages, and of `/proc` file descriptors into direct camera users.

use vstd::prelude::*;
use crate::fx::{id_set_contains, id_set_contents, id_set_insert, id_set_new, id_set_remove, link_map_contents, link_map_insert, link_map_new, link_map_remove, pending_map_contents, pending_map_insert, pending_map_new, pending_map_remove, device_map_contents, device_map_insert, device_map_new, DeviceMap, IdSet, LinkMap, PendingMap};
use crate::text::{all_ascii, ascii_lower, same_ignoring_ascii_case, chars_of, contains, first_segment, lemma_first_segment, lowercased, parse_u32, parse_u32_chars, parse_u32_spec, seq_contains, seq_starts_with, starts_with, str_eq, to_lowercase, trim, trimmed};

verus! {

/// Type of privacy-sensitive device
#[derive(Debug, Clone, Copy, PartialEq, Eq, Hash, Structural)]
pub enum DeviceType {
    Camera,
    Microphone,
    ScreenShare,
    ScreenRecord,
}

/// Information about an application using a privacy-sensitive device
#[derive(Debug, Clone)]
pub struct DeviceUsage {
    pub device_type: DeviceType,
    pub device_name: String,
    pub app_name: String,
    pub app_id: Option<String>,
    pub process_id: Option<u32>,
    pub node_id: u32,
}

/// Pending video stream info (waiting for link classification)
#[derive(Debug, Clone)]
pub struct PendingVideoStream {
    pub device_name: String,
    pub app_name: String,
    pub app_id: Option<String>,
    pub process_id: Option<u32>,
}

/// Events from PipeWire monitoring
#[derive(Debug, Clone)]
pub enum PipeWireEvent {
    /// A device started being used
    DeviceAdded(DeviceUsage),
    /// A device stopped being used
    DeviceRemoved(u32),
    /// PipeWire connection error
    Error(String),
}

} // verus!

verus! {

/// Names that mark an application as a screen recorder, as lowercase
/// substrings of its name.
pub open spec fn recording_app_names() -> Seq<Seq<char>> {
    seq![
        "obs"@,
        "obs-studio"@,
        "simplescreenrecorder"@,
        "kazam"@,
        "recordmydesktop"@,
        "peek"@,
        "gifcurry"@,
        "vokoscreen"@,
        "kooha"@,
    ]
}

/// The (already lowercased) name `lower` contains one of the recorder names.
pub open spec fn names_recording_app_spec(lower: Seq<char>) -> bool {
    exists|i: int| 0 <= i < recording_app_names().len() && seq_contains(lower, #[trigger] recording_app_names()[i])
}

/// Known screen recording applications
fn recording_apps() -> (r: Vec<&'static str>)
    ensures
        r@.len() == recording_app_names().len(),
        forall|i: int| 0 <= i < r@.len() ==> #[trigger] r@[i]@ == recording_app_names()[i],
{
    vec![
        "obs",
        "obs-studio",
        "simplescreenrecorder",
        "kazam",
        "recordmydesktop",
        "peek",
        "gifcurry",
        "vokoscreen",
        "kooha",
    ]
}

/// Whether the lowercased application name `lower` contains a recorder name.
pub fn names_recording_app(lower: &str) -> (r: bool)
    ensures
        r == names_recording_app_spec(lower@),
{
    let apps = recording_apps();
    let mut i: usize = 0;
    while i < apps.len()
        invariant
            apps@.len() == recording_app_names().len(),
            forall|k: int| 0 <= k < apps@.len() ==> #[trigger] apps@[k]@ == recording_app_names()[k],
            i <= apps.len(),
            forall|k: int| 0 <= k < i ==> !seq_contains(lower@, #[trigger] recording_app_names()[k]),
        decreases apps.len() - i,
    {
        if contains(lower, apps[i]) {
            assert(seq_contains(lower@, recording_app_names()[i as int]));
            return true;
        }
        i = i + 1;
    }
    false
}

/// Recorder matching ignores the case of ASCII letters: two ASCII names that
/// differ only in letter case are both recorders or both not.
pub proof fn law_recorder_match_ignores_ascii_case(a: Seq<char>, b: Seq<char>)
    requires
        same_ignoring_ascii_case(a, b),
    ensures
        names_recording_app_spec(ascii_lower(a)) == names_recording_app_spec(ascii_lower(b)),
{
    assert(ascii_lower(a) =~= ascii_lower(b));
}

/// For ASCII names, adding text around a name that matches a recorder keeps
/// the match: `p + s + q` is ASCII too, and its lowercase still contains the
/// recorder name that the lowercase of `s` contains.
pub proof fn law_recorder_match_survives_added_text(p: Seq<char>, s: Seq<char>, q: Seq<char>)
    requires
        all_ascii(p),
        all_ascii(s),
        all_ascii(q),
        names_recording_app_spec(ascii_lower(s)),
    ensures
        all_ascii(p + s + q),
        names_recording_app_spec(ascii_lower(p + s + q)),
{
    let w = p + s + q;
    assert forall|i: int| 0 <= i < w.len() implies (#[trigger] w[i] as u32) < 128 by {
        if i < p.len() {
            assert(w[i] == p[i]);
        } else if i < p.len() + s.len() {
            assert(w[i] == s[i - p.len()]);
        } else {
            assert(w[i] == q[i - p.len() - s.len()]);
        }
    }
    let k = choose|k: int| 0 <= k < recording_app_names().len() && seq_contains(ascii_lower(s), #[trigger] recording_app_names()[k]);
    let n = recording_app_names()[k];
    let j = choose|j: int| 0 <= j && j + n.len() <= ascii_lower(s).len() && #[trigger] ascii_lower(s).subrange(j, j + n.len()) == n;
    let at = p.len() + j;
    assert(ascii_lower(w).subrange(at, at + n.len()) =~= ascii_lower(s).subrange(j, j + n.len())) by {
        assert forall|x: int| 0 <= x < n.len() implies #[trigger] ascii_lower(w).subrange(at, at + n.len())[x]
            == ascii_lower(s).subrange(j, j + n.len())[x] by {
            assert(w[at + x] == s[j + x]);
        }
    }
    assert(seq_contains(ascii_lower(w), n));
}

/// Whether `app_name`, lowercased, names a known screen recorder.
pub fn is_recording_app(app_name: &str) -> (r: bool)
    ensures
        r == names_recording_app_spec(lowercased(app_name@)),
        all_ascii(app_name@) ==> r == names_recording_app_spec(ascii_lower(app_name@)),
{
    let lower = to_lowercase(app_name);
    names_recording_app(lower.as_str())
}

} // verus!

verus! {

/// PipeWire media class of applications recording audio.
pub const STREAM_INPUT_AUDIO: &'static str = "Stream/Input/Audio";

/// PipeWire media class of applications consuming video.
pub const STREAM_INPUT_VIDEO: &'static str = "Stream/Input/Video";

/// PipeWire media class of video producers (cameras, screen casts).
pub const VIDEO_SOURCE: &'static str = "Video/Source";

/// One `key = value` entry of a PipeWire object's properties.
#[derive(Debug, Clone)]
pub struct Property {
    pub key: String,
    pub value: String,
}

/// The kinds of registry object that the monitor tells apart.
#[derive(Debug, Clone, Copy, PartialEq, Eq, Structural)]
pub enum ObjectKind {
    Node,
    Link,
    Other,
}

/// A global object announced by the PipeWire registry.
#[derive(Debug, Clone)]
pub struct RegistryGlobal {
    pub id: u32,
    pub kind: ObjectKind,
    pub props: Option<Vec<Property>>,
}

/// A `DeviceUsage` with its strings read as characters.
pub struct UsageView {
    pub device_type: DeviceType,
    pub device_name: Seq<char>,
    pub app_name: Seq<char>,
    pub app_id: Option<Seq<char>>,
    pub process_id: Option<u32>,
    pub node_id: u32,
}

/// A `PipeWireEvent` with its strings read as characters.
pub enum EventView {
    DeviceAdded(UsageView),
    DeviceRemoved(u32),
    Error(Seq<char>),
}

/// The characters of an optional string.
pub open spec fn opt_chars(o: Option<String>) -> Option<Seq<char>> {
    match o {
        Some(s) => Some(s@),
        None => None,
    }
}

impl View for DeviceUsage {
    type V = UsageView;

    open spec fn view(&self) -> UsageView {
        UsageView {
            device_type: self.device_type,
            device_name: self.device_name@,
            app_name: self.app_name@,
            app_id: opt_chars(self.app_id),
            process_id: self.process_id,
            node_id: self.node_id,
        }
    }
}

impl View for PipeWireEvent {
    type V = EventView;

    open spec fn view(&self) -> EventView {
        match self {
            PipeWireEvent::DeviceAdded(u) => EventView::DeviceAdded(u@),
            PipeWireEvent::DeviceRemoved(id) => EventView::DeviceRemoved(*id),
            PipeWireEvent::Error(e) => EventView::Error(e@),
        }
    }
}

/// The view of an optional event.
pub open spec fn event_opt_view(e: Option<PipeWireEvent>) -> Option<EventView> {
    match e {
        Some(e) => Some(e@),
        None => None,
    }
}

/// The value of the first property named `key`, as `DictRef::get` finds it.
pub open spec fn prop_lookup(props: Seq<Property>, key: Seq<char>) -> Option<Seq<char>>
    decreases props.len(),
{
    if props.len() == 0 {
        None
    } else if props[0].key@ == key {
        Some(props[0].value@)
    } else {
        prop_lookup(props.drop_first(), key)
    }
}

/// `a`, or `b` where `a` is absent: `Option::or_else`.
pub open spec fn or_else(a: Option<Seq<char>>, b: Option<Seq<char>>) -> Option<Seq<char>> {
    match a {
        Some(x) => Some(x),
        None => b,
    }
}

/// `a`, or `d` where `a` is absent: `Option::unwrap_or`.
pub open spec fn unwrap_or(a: Option<Seq<char>>, d: Seq<char>) -> Seq<char> {
    match a {
        Some(x) => x,
        None => d,
    }
}

/// The device name shown for a stream: its description, else its node name.
pub open spec fn stream_device_name(props: Seq<Property>) -> Seq<char> {
    unwrap_or(
        or_else(prop_lookup(props, "node.description"@), prop_lookup(props, "node.name"@)),
        "Unknown Device"@,
    )
}

/// The application name of an audio capture stream.
pub open spec fn microphone_app_name(props: Seq<Property>) -> Seq<char> {
    unwrap_or(
        or_else(
            prop_lookup(props, "application.name"@),
            prop_lookup(props, "application.process.binary"@),
        ),
        "Unknown"@,
    )
}

/// The application name of a video capture stream: as for audio, then the node name.
pub open spec fn video_app_name(props: Seq<Property>) -> Seq<char> {
    unwrap_or(
        or_else(
            or_else(
                prop_lookup(props, "application.name"@),
                prop_lookup(props, "application.process.binary"@),
            ),
            prop_lookup(props, "node.name"@),
        ),
        "Unknown"@,
    )
}

/// The process id a stream declares, where it parses as a `u32`.
pub open spec fn declared_process_id(props: Seq<Property>) -> Option<u32> {
    match prop_lookup(props, "application.process.id"@) {
        Some(s) => parse_u32_spec(s),
        None => None,
    }
}

/// A node id named by a link property, where it parses as a `u32`.
pub open spec fn link_endpoint(props: Seq<Property>, key: Seq<char>) -> Option<u32> {
    match prop_lookup(props, key) {
        Some(s) => parse_u32_spec(s),
        None => None,
    }
}

/// A camera device node: media class `Video/Source` with media role `Camera`.
pub open spec fn is_camera_source(props: Seq<Property>) -> bool {
    prop_lookup(props, "media.class"@) == Some(VIDEO_SOURCE@) && prop_lookup(props, "media.role"@)
        == Some("Camera"@)
}

/// An application's audio capture stream that is no monitor loopback.
pub open spec fn is_microphone_stream(props: Seq<Property>) -> bool {
    &&& prop_lookup(props, "media.class"@) == Some(STREAM_INPUT_AUDIO@)
    &&& !(prop_lookup(props, "node.name"@) matches Some(n) && seq_contains(n, "monitor"@))
}

/// An application's video capture stream.
pub open spec fn is_video_stream(props: Seq<Property>) -> bool {
    prop_lookup(props, "media.class"@) == Some(STREAM_INPUT_VIDEO@)
}

/// The microphone usage reported for audio capture stream `id`.
pub open spec fn microphone_usage(id: u32, props: Seq<Property>) -> UsageView {
    UsageView {
        device_type: DeviceType::Microphone,
        device_name: stream_device_name(props),
        app_name: microphone_app_name(props),
        app_id: prop_lookup(props, "application.id"@),
        process_id: declared_process_id(props),
        node_id: id,
    }
}

/// A `PendingVideoStream` with its strings read as characters.
pub struct PendingView {
    pub device_name: Seq<char>,
    pub app_name: Seq<char>,
    pub app_id: Option<Seq<char>>,
    pub process_id: Option<u32>,
}

impl View for PendingVideoStream {
    type V = PendingView;

    open spec fn view(&self) -> PendingView {
        PendingView {
            device_name: self.device_name@,
            app_name: self.app_name@,
            app_id: opt_chars(self.app_id),
            process_id: self.process_id,
        }
    }
}

/// What is kept of a video capture stream until a link classifies it.
pub open spec fn pending_stream(props: Seq<Property>) -> PendingView {
    PendingView {
        device_name: stream_device_name(props),
        app_name: video_app_name(props),
        app_id: prop_lookup(props, "application.id"@),
        process_id: declared_process_id(props),
    }
}

/// The usage reported for pending stream `p`, node `node`, once classified as `t`.
pub open spec fn classified_usage(p: PendingView, t: DeviceType, node: u32) -> UsageView {
    UsageView {
        device_type: t,
        device_name: p.device_name,
        app_name: p.app_name,
        app_id: p.app_id,
        process_id: p.process_id,
        node_id: node,
    }
}

/// The first property named `key`, as `DictRef::get` finds it.
pub fn prop_get<'a>(props: &'a Vec<Property>, key: &str) -> (r: Option<&'a String>)
    ensures
        match r {
            Some(v) => prop_lookup(props@, key@) == Some(v@),
            None => prop_lookup(props@, key@) is None,
        },
{
    let mut i: usize = 0;
    assert(props@.skip(0) =~= props@);
    while i < props.len()
        invariant
            i <= props@.len(),
            prop_lookup(props@, key@) == prop_lookup(props@.skip(i as int), key@),
        decreases props.len() - i,
    {
        assert(props@.skip(i as int).drop_first() =~= props@.skip(i + 1));
        if str_eq(props[i].key.as_str(), key) {
            return Some(&props[i].value);
        }
        i = i + 1;
    }
    None
}

/// An owned copy of an optional property value.
fn owned_opt(v: Option<&String>) -> (r: Option<String>)
    ensures
        opt_chars(r) == match v {
            Some(s) => Some(s@),
            None => None::<Seq<char>>,
        },
{
    match v {
        Some(s) => Some(s.clone()),
        None => None,
    }
}

/// The process id property, parsed.
fn process_id_of(props: &Vec<Property>) -> (r: Option<u32>)
    ensures
        r == declared_process_id(props@),
{
    match prop_get(props, "application.process.id") {
        Some(s) => parse_u32(s.as_str()),
        None => None,
    }
}

/// The device name of a stream.
fn device_name_of(props: &Vec<Property>) -> (r: String)
    ensures
        r@ == stream_device_name(props@),
{
    match prop_get(props, "node.description") {
        Some(d) => d.clone(),
        None => match prop_get(props, "node.name") {
            Some(n) => n.clone(),
            None => "Unknown Device".to_owned(),
        },
    }
}

/// The application name of a stream, falling back to the node name if `use_node_name`.
fn app_name_of(props: &Vec<Property>, use_node_name: bool) -> (r: String)
    ensures
        use_node_name ==> r@ == video_app_name(props@),
        !use_node_name ==> r@ == microphone_app_name(props@),
{
    match prop_get(props, "application.name") {
        Some(a) => a.clone(),
        None => match prop_get(props, "application.process.binary") {
            Some(b) => b.clone(),
            None => {
                if use_node_name {
                    match prop_get(props, "node.name") {
                        Some(n) => n.clone(),
                        None => "Unknown".to_owned(),
                    }
                } else {
                    "Unknown".to_owned()
                }
            },
        },
    }
}

/// A link endpoint property, parsed.
fn endpoint_of(props: &Vec<Property>, key: &str) -> (r: Option<u32>)
    ensures
        r == link_endpoint(props@, key@),
{
    match prop_get(props, key) {
        Some(s) => parse_u32(s.as_str()),
        None => None,
    }
}

} // verus!

verus! {

/// What the monitor tracks between registry events.
pub struct MonitorState {
    /// Camera source node ids (Video/Source with media.role=Camera)
    camera_sources: IdSet,
    /// Video streams waiting for link-based classification
    pending_streams: PendingMap,
    /// Streams already classified as camera (to avoid duplicate events)
    camera_streams: IdSet,
    /// Camera link ids to the stream node they feed (for removal)
    link_to_stream: LinkMap,
}

/// The contents of a `MonitorState`.
pub struct MonitorView {
    pub camera_sources: Set<u32>,
    pub pending_streams: Map<u32, PendingView>,
    pub camera_streams: Set<u32>,
    pub link_to_stream: Map<u32, u32>,
}

/// The pending streams with their strings read as characters.
pub open spec fn pending_view(m: Map<u32, PendingVideoStream>) -> Map<u32, PendingView> {
    m.map_values(|p: PendingVideoStream| p@)
}

impl View for MonitorState {
    type V = MonitorView;

    closed spec fn view(&self) -> MonitorView {
        MonitorView {
            camera_sources: id_set_contents(self.camera_sources),
            pending_streams: pending_view(pending_map_contents(self.pending_streams)),
            camera_streams: id_set_contents(self.camera_streams),
            link_to_stream: link_map_contents(self.link_to_stream),
        }
    }
}

/// The monitor before any registry event.
pub open spec fn initial_monitor() -> MonitorView {
    MonitorView {
        camera_sources: Set::empty(),
        pending_streams: Map::empty(),
        camera_streams: Set::empty(),
        link_to_stream: Map::empty(),
    }
}

/// A node `id` with properties `props` appears: its next state and the event to send.
pub open spec fn node_step(s: MonitorView, id: u32, props: Seq<Property>) -> (MonitorView, Option<EventView>) {
    if is_camera_source(props) {
        (MonitorView { camera_sources: s.camera_sources.insert(id), ..s }, None)
    } else if is_microphone_stream(props) {
        (s, Some(EventView::DeviceAdded(microphone_usage(id, props))))
    } else if is_video_stream(props) {
        (MonitorView { pending_streams: s.pending_streams.insert(id, pending_stream(props)), ..s }, None)
    } else {
        (s, None)
    }
}

/// The kind of screen capture a pending stream of application `app_name` is.
pub open spec fn screen_capture_type(app_name: Seq<char>) -> DeviceType {
    if names_recording_app_spec(lowercased(app_name)) {
        DeviceType::ScreenRecord
    } else {
        DeviceType::ScreenShare
    }
}

/// A link `id` from node `output` into node `input` appears: next state and event.
pub open spec fn link_step(s: MonitorView, id: u32, output: u32, input: u32) -> (MonitorView, Option<EventView>) {
    if s.camera_sources.contains(output) {
        if s.pending_streams.contains_key(input) {
            (
                MonitorView {
                    camera_sources: s.camera_sources,
                    pending_streams: s.pending_streams.remove(input),
                    camera_streams: s.camera_streams.insert(input),
                    link_to_stream: s.link_to_stream.insert(id, input),
                },
                Some(EventView::DeviceAdded(classified_usage(s.pending_streams[input], DeviceType::Camera, input))),
            )
        } else if s.camera_streams.contains(input) {
            (MonitorView { link_to_stream: s.link_to_stream.insert(id, input), ..s }, None)
        } else {
            (s, None)
        }
    } else if s.pending_streams.contains_key(input) {
        let p = s.pending_streams[input];
        (
            MonitorView { pending_streams: s.pending_streams.remove(input), ..s },
            Some(EventView::DeviceAdded(classified_usage(p, screen_capture_type(p.app_name), input))),
        )
    } else {
        (s, None)
    }
}

/// A link with properties `props` appears: it counts only when both its ends parse.
pub open spec fn link_props_step(s: MonitorView, id: u32, props: Seq<Property>) -> (MonitorView, Option<EventView>) {
    match (link_endpoint(props, "link.output.node"@), link_endpoint(props, "link.input.node"@)) {
        (Some(output), Some(input)) => link_step(s, id, output, input),
        _ => (s, None),
    }
}

/// Object `id` leaves the registry: it is forgotten everywhere.
pub open spec fn remove_step(s: MonitorView, id: u32) -> MonitorView {
    MonitorView {
        camera_sources: s.camera_sources.remove(id),
        pending_streams: s.pending_streams.remove(id),
        camera_streams: s.camera_streams.remove(id),
        link_to_stream: s.link_to_stream.remove(id),
    }
}

/// A registry global appears: nodes and links with properties are handled, the rest ignored.
pub open spec fn global_step(s: MonitorView, g: RegistryGlobal) -> (MonitorView, Option<EventView>) {
    match g.props {
        Some(props) => match g.kind {
            ObjectKind::Node => node_step(s, g.id, props@),
            ObjectKind::Link => link_props_step(s, g.id, props@),
            ObjectKind::Other => (s, None),
        },
        None => (s, None),
    }
}

impl MonitorState {
    /// A monitor that has seen no registry event.
    pub fn new() -> (r: MonitorState)
        ensures
            r@ == initial_monitor(),
    {
        let r = MonitorState {
            camera_sources: id_set_new(),
            pending_streams: pending_map_new(),
            camera_streams: id_set_new(),
            link_to_stream: link_map_new(),
        };
        assert(r@.pending_streams =~= Map::empty());
        assert(r@.link_to_stream =~= Map::empty());
        r
    }

    /// Handle a node announced by the registry.
    pub fn handle_node(&mut self, id: u32, props: &Vec<Property>) -> (r: Option<PipeWireEvent>)
        ensures
            (final(self)@, event_opt_view(r)) == node_step(old(self)@, id, props@),
    {
        let media_class = match prop_get(props, "media.class") {
            Some(c) => c,
            None => return None,
        };
        let is_camera_role = match prop_get(props, "media.role") {
            Some(role) => str_eq(role.as_str(), "Camera"),
            None => false,
        };

        // Track camera source nodes
        if str_eq(media_class.as_str(), VIDEO_SOURCE) && is_camera_role {
            id_set_insert(&mut self.camera_sources, id);
            return None;
        }

        if str_eq(media_class.as_str(), STREAM_INPUT_AUDIO) {
            // Skip monitor sources (internal loopbacks)
            if let Some(name) = prop_get(props, "node.name") {
                if contains(name.as_str(), "monitor") {
                    proof {
                        reveal_strlit("Stream/Input/Audio");
                        reveal_strlit("Stream/Input/Video");
                        assert(STREAM_INPUT_AUDIO@[13] != STREAM_INPUT_VIDEO@[13]);
                    }
                    return None;
                }
            }
            let device_usage = DeviceUsage {
                device_type: DeviceType::Microphone,
                device_name: device_name_of(props),
                app_name: app_name_of(props, false),
                app_id: owned_opt(prop_get(props, "application.id")),
                process_id: process_id_of(props),
                node_id: id,
            };
            return Some(PipeWireEvent::DeviceAdded(device_usage));
        }

        if str_eq(media_class.as_str(), STREAM_INPUT_VIDEO) {
            // Store as pending - will be classified when we see its link
            let pending = PendingVideoStream {
                device_name: device_name_of(props),
                app_name: app_name_of(props, true),
                app_id: owned_opt(prop_get(props, "application.id")),
                process_id: process_id_of(props),
            };
            proof {
                let old_p = pending_map_contents(self.pending_streams);
                assert(pending_view(old_p.insert(id, pending)) =~= pending_view(old_p).insert(id, pending@));
            }
            pending_map_insert(&mut self.pending_streams, id, pending);
        }
        None
    }
}


impl MonitorState {
    /// Handle a link announced by the registry: a link from a camera source
    /// classifies its pending input stream as a camera; a link from anything
    /// else classifies it as a screen share (or recording).
    pub fn handle_link(&mut self, id: u32, props: &Vec<Property>) -> (r: Option<PipeWireEvent>)
        ensures
            (final(self)@, event_opt_view(r)) == link_props_step(old(self)@, id, props@),
    {
        let output_node_id = endpoint_of(props, "link.output.node");
        let input_node_id = endpoint_of(props, "link.input.node");
        let (output_id, input_id) = match (output_node_id, input_node_id) {
            (Some(o), Some(i)) => (o, i),
            _ => return None,
        };
        let ghost old_pending = pending_map_contents(self.pending_streams);
        proof {
            assert(pending_view(old_pending.remove(input_id)) =~= pending_view(old_pending).remove(input_id));
            if !old_pending.contains_key(input_id) {
                assert(pending_view(old_pending).remove(input_id) =~= pending_view(old_pending));
            }
        }

        // Check if this link connects a camera source to a video stream
        let is_camera_link = id_set_contains(&self.camera_sources, output_id);

        if is_camera_link {
            match pending_map_remove(&mut self.pending_streams, input_id) {
                Some(pending) => {
                    // This stream is connected to a camera
                    id_set_insert(&mut self.camera_streams, input_id);
                    link_map_insert(&mut self.link_to_stream, id, input_id);
                    let device_usage = DeviceUsage {
                        device_type: DeviceType::Camera,
                        device_name: pending.device_name,
                        app_name: pending.app_name,
                        app_id: pending.app_id,
                        process_id: pending.process_id,
                        node_id: input_id,
                    };
                    Some(PipeWireEvent::DeviceAdded(device_usage))
                },
                None => {
                    if id_set_contains(&self.camera_streams, input_id) {
                        // Already classified as camera, just track the link
                        link_map_insert(&mut self.link_to_stream, id, input_id);
                    }
                    None
                },
            }
        } else {
            // Not a camera link - a pending stream is a screen share or recording
            match pending_map_remove(&mut self.pending_streams, input_id) {
                Some(pending) => {
                    let device_type = if is_recording_app(pending.app_name.as_str()) {
                        DeviceType::ScreenRecord
                    } else {
                        DeviceType::ScreenShare
                    };
                    let device_usage = DeviceUsage {
                        device_type,
                        device_name: pending.device_name,
                        app_name: pending.app_name,
                        app_id: pending.app_id,
                        process_id: pending.process_id,
                        node_id: input_id,
                    };
                    Some(PipeWireEvent::DeviceAdded(device_usage))
                },
                None => None,
            }
        }
    }

    /// Handle an object leaving the registry: forget it everywhere and report
    /// it as removed (the applet ignores ids it does not track).
    pub fn handle_remove(&mut self, id: u32) -> (r: PipeWireEvent)
        ensures
            final(self)@ == remove_step(old(self)@, id),
            r@ == EventView::DeviceRemoved(id),
    {
        let ghost old_pending = pending_map_contents(self.pending_streams);
        id_set_remove(&mut self.camera_sources, id);
        let _ = pending_map_remove(&mut self.pending_streams, id);
        id_set_remove(&mut self.camera_streams, id);
        let _ = link_map_remove(&mut self.link_to_stream, id);
        assert(pending_view(old_pending.remove(id)) =~= pending_view(old_pending).remove(id));
        PipeWireEvent::DeviceRemoved(id)
    }

    /// Handle a global announced by the registry.
    pub fn handle_global(&mut self, global: &RegistryGlobal) -> (r: Option<PipeWireEvent>)
        ensures
            (final(self)@, event_opt_view(r)) == global_step(old(self)@, *global),
    {
        match &global.props {
            Some(props) => match global.kind {
                ObjectKind::Node => self.handle_node(global.id, props),
                ObjectKind::Link => self.handle_link(global.id, props),
                ObjectKind::Other => None,
            },
            None => None,
        }
    }
}

} // verus!

verus! {

/// The process id that a `/proc/PID/fd/FD` path names: the segment after
/// `/proc/`, parsed as a `u32`.
pub open spec fn proc_fd_pid_spec(path: Seq<char>) -> Option<u32> {
    if seq_starts_with(path, "/proc/"@) {
        parse_u32_spec(first_segment(path.skip("/proc/"@.len() as int)))
    } else {
        None
    }
}

/// The process id of a `/proc/PID/fd/FD` path, if it has that form.
pub fn proc_fd_pid(path: &str) -> (r: Option<u32>)
    ensures
        r == proc_fd_pid_spec(path@),
{
    if !starts_with(path, "/proc/") {
        return None;
    }
    proof {
        reveal_strlit("/proc/");
    }
    let cs = chars_of(path);
    let mut end: usize = 6;
    while end < cs.len() && cs[end] != '/'
        invariant
            6 <= end <= cs.len(),
            forall|j: int| 6 <= j < end ==> cs@[j] != '/',
        decreases cs.len() - end,
    {
        end = end + 1;
    }
    proof {
        let rest = path@.skip(6);
        assert forall|j: int| 0 <= j < end - 6 implies rest[j] != '/' by {
            assert(rest[j] == cs@[j + 6]);
        }
        if end < cs.len() {
            assert(rest[end - 6] == cs@[end as int]);
        }
        lemma_first_segment(rest, end - 6);
        assert(rest.subrange(0, end - 6) =~= cs@.subrange(6, end as int));
    }
    parse_u32_chars(&cs, 6, end)
}

/// An open file descriptor of process `/proc/PID` pointing at a
/// `/dev/video*` device names that process's id.
pub open spec fn camera_fd_pid_spec(fd_path: Seq<char>, link_target: Seq<char>) -> Option<u32> {
    if seq_starts_with(link_target, "/dev/video"@) {
        proc_fd_pid_spec(fd_path)
    } else {
        None
    }
}

/// The process holding a video device open, from a `/proc/PID/fd/FD` path
/// and the target that this link points at.
pub fn camera_fd_pid(fd_path: &str, link_target: &str) -> (r: Option<u32>)
    ensures
        r == camera_fd_pid_spec(fd_path@, link_target@),
{
    if starts_with(link_target, "/dev/video") {
        proc_fd_pid(fd_path)
    } else {
        None
    }
}

/// The PipeWire daemons, which open cameras on behalf of other applications.
pub open spec fn is_media_daemon(app_name: Seq<char>) -> bool {
    app_name == "pipewire"@ || app_name == "wireplumber"@
}

/// The camera usage recorded for process `pid` (named `app_name`) holding
/// video device `device`: none for the PipeWire daemons.
pub open spec fn proc_camera_spec(pid: u32, device: Seq<char>, app_name: Seq<char>) -> Option<UsageView> {
    if is_media_daemon(app_name) {
        None
    } else {
        Some(
            UsageView {
                device_type: DeviceType::Camera,
                device_name: device,
                app_name: app_name,
                app_id: None,
                process_id: Some(pid),
                node_id: pid,
            },
        )
    }
}

/// The view of an optional usage.
pub open spec fn usage_opt_view(u: Option<DeviceUsage>) -> Option<UsageView> {
    match u {
        Some(u) => Some(u@),
        None => None,
    }
}

/// The camera usage of process `pid`, whose name is `app_name`, holding
/// video device `device` open.
pub fn camera_usage_for(pid: u32, device: String, app_name: String) -> (r: Option<DeviceUsage>)
    ensures
        usage_opt_view(r) == proc_camera_spec(pid, device@, app_name@),
{
    // Skip PipeWire daemon and related processes - they access
    // /dev/video* on behalf of other apps, not directly
    if str_eq(app_name.as_str(), "pipewire") || str_eq(app_name.as_str(), "wireplumber") {
        return None;
    }
    Some(
        DeviceUsage {
            device_type: DeviceType::Camera,
            device_name: device,
            app_name,
            app_id: None,
            process_id: Some(pid),
            node_id: pid,
        },
    )
}

/// The name of a process: its `comm` file trimmed, or `Unknown` where it
/// could not be read.
pub open spec fn process_name(comm: Option<Seq<char>>) -> Seq<char> {
    match comm {
        Some(c) => trimmed(c),
        None => "Unknown"@,
    }
}

/// The camera usage of process `pid` holding video device `device`, given
/// the contents of its `comm` file if it could be read.
pub fn proc_camera_usage(pid: u32, device: String, comm: Option<String>) -> (r: Option<DeviceUsage>)
    ensures
        usage_opt_view(r) == proc_camera_spec(pid, device@, process_name(opt_chars(comm))),
{
    let app_name = match comm {
        Some(c) => trim(c.as_str()).to_owned(),
        None => "Unknown".to_owned(),
    };
    camera_usage_for(pid, device, app_name)
}

/// The map that inserting `usages` in order, each under its node id, builds.
pub open spec fn usages_by_node(usages: Seq<DeviceUsage>) -> Map<u32, DeviceUsage>
    decreases usages.len(),
{
    if usages.len() == 0 {
        Map::empty()
    } else {
        usages_by_node(usages.drop_last()).insert(usages.last().node_id, usages.last())
    }
}

/// The cameras found in `/proc`, keyed by their node id (the process id);
/// a later usage of the same process replaces an earlier one.
pub fn collect_proc_cameras(found: Vec<DeviceUsage>) -> (r: DeviceMap)
    ensures
        device_map_contents(r) == usages_by_node(found@),
{
    let mut cameras = device_map_new();
    let ghost all = found@;
    assert(device_map_contents(cameras) =~= usages_by_node(all.take(0)));
    for u in it: found.into_iter()
        invariant
            it.seq() == all,
            device_map_contents(cameras) == usages_by_node(all.take(it.index() as int)),
    {
        let ghost k = it.index();
        proof {
            assert(all.take(k + 1).drop_last() =~= all.take(k as int));
        }
        let node_id = u.node_id;
        device_map_insert(&mut cameras, node_id, u);
    }
    assert(all.take(all.len() as int) =~= all);
    cameras
}

} // verus!

verus! {

/// A video stream is reported at most once: after a link reports it, a
/// further link into the same stream reports nothing.
pub proof fn law_stream_reported_once(s: MonitorView, l1: u32, o1: u32, l2: u32, o2: u32, input: u32)
    requires
        link_step(s, l1, o1, input).1 is Some,
    ensures
        link_step(link_step(s, l1, o1, input).0, l2, o2, input).1 is None,
{
}

/// Once an object leaves the registry the monitor holds nothing under its id,
/// and a link into it reports nothing.
pub proof fn law_removal_forgets(s: MonitorView, id: u32, link: u32, output: u32)
    ensures
        !remove_step(s, id).camera_sources.contains(id),
        !remove_step(s, id).pending_streams.contains_key(id),
        !remove_step(s, id).camera_streams.contains(id),
        !remove_step(s, id).link_to_stream.contains_key(id),
        link_step(remove_step(s, id), link, output, id).1 is None,
{
}

/// A video stream is reported only once a link classifies it: its node
/// announcement reports nothing and keeps it pending.
pub proof fn law_video_stream_waits_for_link(s: MonitorView, id: u32, props: Seq<Property>)
    requires
        is_video_stream(props),
    ensures
        node_step(s, id, props).1 is None,
        node_step(s, id, props).0.pending_streams.contains_key(id),
{
    reveal_strlit("Video/Source");
    reveal_strlit("Stream/Input/Audio");
    reveal_strlit("Stream/Input/Video");
    assert(VIDEO_SOURCE@[0] != STREAM_INPUT_VIDEO@[0]);
    assert(STREAM_INPUT_AUDIO@[13] != STREAM_INPUT_VIDEO@[13]);
}

/// A stream linked from a camera source is reported as a camera under its own
/// node id; a stream linked from anything else as a screen share or
/// recording, by its application name.
pub proof fn law_link_classification(s: MonitorView, link: u32, output: u32, input: u32)
    requires
        s.pending_streams.contains_key(input),
    ensures
        link_step(s, link, output, input).1 == Some(
            EventView::DeviceAdded(
                classified_usage(
                    s.pending_streams[input],
                    if s.camera_sources.contains(output) {
                        DeviceType::Camera
                    } else {
                        screen_capture_type(s.pending_streams[input].app_name)
                    },
                    input,
                ),
            ),
        ),
{
}

} // verus!

verus! {

/// A registry callback: a global appears, or the object with this id leaves.
pub enum RegistryEvent {
    Global(RegistryGlobal),
    Remove(u32),
}

/// What the monitor does on one registry callback: its next state and the event it sends.
pub open spec fn event_step(s: MonitorView, e: RegistryEvent) -> (MonitorView, Option<EventView>) {
    match e {
        RegistryEvent::Global(g) => global_step(s, g),
        RegistryEvent::Remove(id) => (remove_step(s, id), Some(EventView::DeviceRemoved(id))),
    }
}

/// The monitor's state after the callbacks `evs`, from state `s`.
pub open spec fn run_state(s: MonitorView, evs: Seq<RegistryEvent>) -> MonitorView
    decreases evs.len(),
{
    if evs.len() == 0 {
        s
    } else {
        event_step(run_state(s, evs.drop_last()), evs.last()).0
    }
}

/// The event the monitor sends on callback `k` of `evs`, run from state `s`.
pub open spec fn output_at(s: MonitorView, evs: Seq<RegistryEvent>, k: int) -> Option<EventView> {
    event_step(run_state(s, evs.take(k)), evs[k]).1
}

/// `o` reports a usage of node `i` as added.
pub open spec fn reports_added(o: Option<EventView>, i: u32) -> bool {
    o matches Some(EventView::DeviceAdded(u)) && u.node_id == i
}

/// `e` announces node `i`.
pub open spec fn announces_node(e: RegistryEvent, i: u32) -> bool {
    e matches RegistryEvent::Global(g) && g.kind == ObjectKind::Node && g.id == i
}

/// `e` announces node `i` as an application's video capture stream.
pub open spec fn announces_video_stream(e: RegistryEvent, i: u32) -> bool {
    match e {
        RegistryEvent::Global(g) => g.kind == ObjectKind::Node && g.id == i && match g.props {
            Some(p) => is_video_stream(p@),
            None => false,
        },
        RegistryEvent::Remove(_) => false,
    }
}

/// `e` tells that object `i` left the registry.
pub open spec fn removes(e: RegistryEvent, i: u32) -> bool {
    e matches RegistryEvent::Remove(id) && id == i
}

/// `e` announces a link whose input node is `i`.
pub open spec fn links_into(e: RegistryEvent, i: u32) -> bool {
    match e {
        RegistryEvent::Global(g) => g.kind == ObjectKind::Link && match g.props {
            Some(p) => link_endpoint(p@, "link.input.node"@) == Some(i),
            None => false,
        },
        RegistryEvent::Remove(_) => false,
    }
}

/// What one callback can do to, and tell of, stream node `i`.
proof fn lemma_step_facts(s: MonitorView, e: RegistryEvent, i: u32)
    ensures
        event_step(s, e).0.pending_streams.contains_key(i) ==> ((s.pending_streams.contains_key(i) && !removes(e, i))
            || announces_video_stream(e, i)),
        reports_added(event_step(s, e).1, i) && !announces_node(e, i) ==> (s.pending_streams.contains_key(i)
            && !event_step(s, e).0.pending_streams.contains_key(i)),
        reports_added(event_step(s, e).1, i) && announces_node(e, i) ==> (event_step(s, e).0.pending_streams.contains_key(i)
            == s.pending_streams.contains_key(i)),
{
}

/// A camera or screen capture usage is only ever sent for a link into a pending stream.
proof fn lemma_capture_step(s: MonitorView, e: RegistryEvent, u: UsageView)
    requires
        event_step(s, e).1 == Some(EventView::DeviceAdded(u)),
        u.device_type != DeviceType::Microphone,
    ensures
        links_into(e, u.node_id),
        s.pending_streams.contains_key(u.node_id),
{
}

/// The state after `k + 1` callbacks is one step on from the state after `k`.
proof fn lemma_run_take(s: MonitorView, evs: Seq<RegistryEvent>, k: int)
    requires
        0 <= k < evs.len(),
    ensures
        run_state(s, evs.take(k + 1)) == event_step(run_state(s, evs.take(k)), evs[k]).0,
{
    assert(evs.take(k + 1).drop_last() =~= evs.take(k));
}

/// From callback `j` on, while node `i` is not pending and not announced,
/// nothing is reported for it and it does not become pending.
proof fn lemma_quiet_from(s: MonitorView, evs: Seq<RegistryEvent>, i: u32, j: int)
    requires
        0 <= j <= evs.len(),
        !run_state(s, evs.take(j)).pending_streams.contains_key(i),
        forall|k: int| j <= k < evs.len() ==> !announces_node(#[trigger] evs[k], i),
    ensures
        forall|k: int| j <= k < evs.len() ==> !reports_added(#[trigger] output_at(s, evs, k), i),
    decreases evs.len() - j,
{
    if j < evs.len() {
        lemma_step_facts(run_state(s, evs.take(j)), evs[j], i);
        lemma_run_take(s, evs, j);
        assert(!announces_node(evs[j], i));
        lemma_quiet_from(s, evs, i, j + 1);
    }
}

/// A video stream is reported at most once after it is announced: from any
/// state in which it is not pending, once node `i` is announced, at most one
/// of the following callbacks (before `i` is announced again) sends a usage
/// of node `i`; further links into it send nothing.
pub proof fn law_stream_reported_at_most_once(s: MonitorView, evs: Seq<RegistryEvent>, i: u32, k1: int, k2: int)
    requires
        !s.pending_streams.contains_key(i),
        evs.len() > 0,
        announces_node(evs[0], i),
        forall|k: int| 1 <= k < evs.len() ==> !announces_node(#[trigger] evs[k], i),
        0 <= k1 < k2 < evs.len(),
        reports_added(output_at(s, evs, k1), i),
    ensures
        !reports_added(output_at(s, evs, k2), i),
{
    let before = run_state(s, evs.take(k1));
    lemma_step_facts(before, evs[k1], i);
    lemma_run_take(s, evs, k1);
    if k1 == 0 {
        assert(evs.take(0) =~= Seq::<RegistryEvent>::empty());
    }
    assert(!run_state(s, evs.take(k1 + 1)).pending_streams.contains_key(i));
    lemma_quiet_from(s, evs, i, k1 + 1);
    assert(!reports_added(output_at(s, evs, k2), i));
}

/// A stream is pending only after an announcement of it as a video stream
/// that no removal of it has followed.
proof fn lemma_pending_origin(evs: Seq<RegistryEvent>, i: u32)
    ensures
        run_state(initial_monitor(), evs).pending_streams.contains_key(i) ==> exists|j: int|
            0 <= j < evs.len() && announces_video_stream(#[trigger] evs[j], i) && forall|l: int|
                j < l < evs.len() ==> !removes(#[trigger] evs[l], i),
    decreases evs.len(),
{
    if evs.len() > 0 {
        let front = evs.drop_last();
        lemma_pending_origin(front, i);
        lemma_step_facts(run_state(initial_monitor(), front), evs.last(), i);
        if run_state(initial_monitor(), evs).pending_streams.contains_key(i) {
            if announces_video_stream(evs.last(), i) {
                assert(announces_video_stream(evs[evs.len() - 1], i));
            } else {
                let j = choose|j: int|
                    0 <= j < front.len() && announces_video_stream(#[trigger] front[j], i) && forall|l: int|
                        j < l < front.len() ==> !removes(#[trigger] front[l], i);
                assert(announces_video_stream(evs[j], i));
                assert forall|l: int| j < l < evs.len() implies !removes(#[trigger] evs[l], i) by {
                    if l < front.len() {
                        assert(evs[l] == front[l]);
                    }
                }
            }
        }
    }
}

/// From the start, a stream is reported at most once per announcement: when
/// every earlier announcement of node `i` was followed by its removal, then
/// after `i` is announced again, at most one callback (before `i` is
/// announced once more) sends a usage of node `i`.
pub proof fn law_stream_reported_once_per_announcement(
    history: Seq<RegistryEvent>,
    evs: Seq<RegistryEvent>,
    i: u32,
    k1: int,
    k2: int,
)
    requires
        forall|j: int|
            0 <= j < history.len() && announces_node(#[trigger] history[j], i) ==> exists|l: int|
                j < l < history.len() && removes(#[trigger] history[l], i),
        evs.len() > 0,
        announces_node(evs[0], i),
        forall|k: int| 1 <= k < evs.len() ==> !announces_node(#[trigger] evs[k], i),
        0 <= k1 < k2 < evs.len(),
        reports_added(output_at(run_state(initial_monitor(), history), evs, k1), i),
    ensures
        !reports_added(output_at(run_state(initial_monitor(), history), evs, k2), i),
{
    lemma_pending_origin(history, i);
    if run_state(initial_monitor(), history).pending_streams.contains_key(i) {
        let j = choose|j: int|
            0 <= j < history.len() && announces_video_stream(#[trigger] history[j], i) && forall|l: int|
                j < l < history.len() ==> !removes(#[trigger] history[l], i);
        assert(announces_node(history[j], i));
    }
    law_stream_reported_at_most_once(run_state(initial_monitor(), history), evs, i, k1, k2);
}

/// From the start, every camera, screen share or screen record usage is sent
/// while handling a link into its node, after that node was announced as a
/// video capture stream and not removed since.
pub proof fn law_capture_follows_video_stream_and_link(evs: Seq<RegistryEvent>, k: int, u: UsageView)
    requires
        0 <= k < evs.len(),
        output_at(initial_monitor(), evs, k) == Some(EventView::DeviceAdded(u)),
        u.device_type != DeviceType::Microphone,
    ensures
        links_into(evs[k], u.node_id),
        exists|j: int|
            0 <= j < k && announces_video_stream(#[trigger] evs[j], u.node_id) && forall|l: int|
                j < l < k ==> !removes(#[trigger] evs[l], u.node_id),
{
    let front = evs.take(k);
    lemma_capture_step(run_state(initial_monitor(), front), evs[k], u);
    lemma_pending_origin(front, u.node_id);
    let j = choose|j: int|
        0 <= j < front.len() && announces_video_stream(#[trigger] front[j], u.node_id) && forall|l: int|
            j < l < front.len() ==> !removes(#[trigger] front[l], u.node_id);
    assert(announces_video_stream(evs[j], u.node_id));
    assert forall|l: int| j < l < k implies !removes(#[trigger] evs[l], u.node_id) by {
        assert(evs[l] == front[l]);
    }
}

} // verus!

verus! {

/// An application's audio capture stream is reported at once as a microphone
/// usage of its own node: named after the stream's `application.name`, or
/// failing that its `application.process.binary`, or else `Unknown` (never
/// after its node name); its device is the node's description, or failing
/// that its node name, or else `Unknown Device`; the monitor's state is left
/// as it was.
pub proof fn law_microphone_usage_names(s: MonitorView, id: u32, props: Seq<Property>)
    requires
        is_microphone_stream(props),
    ensures
        node_step(s, id, props).0 == s,
        node_step(s, id, props).1 matches Some(EventView::DeviceAdded(u)) && {
            &&& u.device_type == DeviceType::Microphone
            &&& u.node_id == id
            &&& u.app_name == match prop_lookup(props, "application.name"@) {
                Some(a) => a,
                None => match prop_lookup(props, "application.process.binary"@) {
                    Some(b) => b,
                    None => "Unknown"@,
                },
            }
            &&& u.device_name == match prop_lookup(props, "node.description"@) {
                Some(d) => d,
                None => match prop_lookup(props, "node.name"@) {
                    Some(n) => n,
                    None => "Unknown Device"@,
                },
            }
            &&& u.app_id == prop_lookup(props, "application.id"@)
        },
{
    reveal_strlit("Video/Source");
    reveal_strlit("Stream/Input/Audio");
    assert(VIDEO_SOURCE@[0] != STREAM_INPUT_AUDIO@[0]);
}

/// A video capture stream, once a link into it is announced, is reported as a
/// usage of its own node named after the stream's `application.name`, or
/// failing that its `application.process.binary`, or failing that its node
/// name, or else `Unknown`; its device is the node's description, or failing
/// that its node name, or else `Unknown Device`. It is a camera when the link
/// comes from a camera source, else a screen recording when that name,
/// lowercased, names a recorder, else a screen share.
pub proof fn law_video_usage_names(s: MonitorView, id: u32, props: Seq<Property>, link: u32, output: u32)
    requires
        is_video_stream(props),
    ensures
        link_step(node_step(s, id, props).0, link, output, id).1 matches Some(EventView::DeviceAdded(u)) && {
            let app = match prop_lookup(props, "application.name"@) {
                Some(a) => a,
                None => match prop_lookup(props, "application.process.binary"@) {
                    Some(b) => b,
                    None => match prop_lookup(props, "node.name"@) {
                        Some(n) => n,
                        None => "Unknown"@,
                    },
                },
            };
            &&& u.node_id == id
            &&& u.app_name == app
            &&& u.device_name == match prop_lookup(props, "node.description"@) {
                Some(d) => d,
                None => match prop_lookup(props, "node.name"@) {
                    Some(n) => n,
                    None => "Unknown Device"@,
                },
            }
            &&& u.device_type == if s.camera_sources.contains(output) {
                DeviceType::Camera
            } else if names_recording_app_spec(lowercased(app)) {
                DeviceType::ScreenRecord
            } else {
                DeviceType::ScreenShare
            }
        },
{
    law_video_stream_waits_for_link(s, id, props);
    reveal_strlit("Video/Source");
    reveal_strlit("Stream/Input/Audio");
    reveal_strlit("Stream/Input/Video");
    assert(VIDEO_SOURCE@[0] != STREAM_INPUT_VIDEO@[0]);
    assert(STREAM_INPUT_AUDIO@[13] != STREAM_INPUT_VIDEO@[13]);
}

} // verus!
