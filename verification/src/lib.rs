//! Global hotkey engine: the keybind table, the key-state machine that turns raw
//! key events into pressed/released notifications, the keymaps of the platform
//! backends, and the decisions of the desktop-portal backend.

pub mod errors;
pub mod structs;
pub mod laws;
pub mod keymap;
pub mod wayland;
pub mod registry;
pub mod chord;
pub mod platform;

pub use errors::GoofbindError;
pub use registry::{register_keybind, unregister_keybind};
pub use structs::{EngineState, IncomingMessage, InternalMessage, KeybindInfo, OutgoingMessage};
