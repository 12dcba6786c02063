//! Input devices: keyboard scan codes, mouse events and the mouse devices that serve them.
pub mod controller;
pub mod key_queue;
pub mod keyboard;
pub mod mouse;
pub mod psaux;
pub mod packet;
