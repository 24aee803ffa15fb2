# cosmic-applet-privacy

A privacy indicator for the COSMIC panel: it shows when an application uses
the camera, the microphone, or captures the screen (sharing or recording).

The logic is a Verus-verified library:

- `src/pipewire_monitor.rs` classifies PipeWire registry objects (nodes and
  links, with their properties) into device usages, as a state machine from
  registry event to next state and event to send; it also interprets the
  `/proc/PID/fd` paths, link targets and process names that the applet reads,
  finding processes that hold a video device open.
- `src/indicator.rs` holds the applet's state: the devices in use, one
  indicator per device type that stays visible for a cooldown after its device
  stops, the popup window, and the popup's layout.
- `src/text.rs` has the character-level string operations the classification
  needs (substring, prefix, equality, `u32` parsing, trimming, lowercasing).
- `src/fx.rs` gives the `rustc_hash` collections their contracts.

`app/` is the panel applet around the library: the iced application, the
PipeWire main loop on its own thread, and the `/proc` scan.
