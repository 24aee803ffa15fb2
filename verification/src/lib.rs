//! Privacy indicator logic: classification of PipeWire registry objects into
//! camera, microphone, screen-share and screen-record usages, the per-device
//! indicator state with its cooldown, and the applet's bookkeeping of active
//! devices.

pub mod text;
pub mod fx;
pub mod pipewire_monitor;
pub mod indicator;
