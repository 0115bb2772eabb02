//! Decision core of an Emacs-driven Wayland compositor.
//!
//! The library holds the state of the compositor as plain values and decides
//! what happens to it: which surface is focused, where windows are, when
//! outputs are drawn, what the lock screen waits for. What the display server
//! has to carry out comes out as a list of actions; what Emacs is told comes
//! out as events. Handles stand for surfaces, windows and outputs.
pub mod action;
pub mod backend;
pub mod commands;
pub mod dbus;
pub mod event;
pub mod ewm;
pub mod geometry;
pub mod hits;
pub mod im_relay;
pub mod input;
pub mod ipc;
pub mod keys;
pub mod laws;
pub mod layer_shell;
pub mod layers;
pub mod lock;
pub mod module;
pub mod names;
pub mod output;
pub mod outputs;
pub mod pipewire;
pub mod promises;
pub mod protocols;
pub mod redraw;
pub mod render;
pub mod space;
pub mod standalone;
pub mod state;
pub mod surfaces;
pub mod testing;
pub mod text;
pub mod vt;

pub use crate::event::{Event, OutputInfo, OutputMode};
pub use crate::ewm::Ewm;
pub use crate::keys::{is_kill_combo, InterceptedKey, KeyId};
pub use crate::module::{ModuleCommand, SurfaceView};
pub use crate::output::{LockRenderState, LockState, OutputConfig, OutputState};
pub use crate::redraw::RedrawState;
pub use crate::state::State;
pub use crate::vt::{current_vt, vt_suffix};
