//! Verified core of a keyboard/trackpad bridge.
pub mod capture;
pub mod cursor;
pub mod debug;
pub mod hidd;
pub mod hid_descriptor;
pub mod input;
pub mod keyboard;
pub mod keymap;
pub mod outbox;
pub mod serial;
pub mod ptp;
pub mod session;
pub mod slots;
pub mod timing;
pub mod wire;
