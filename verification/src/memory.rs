//! Memory devices and the address-space router: RAM, the console
//! ("debug") device, the video/keyboard device, and the router that
//! dispatches byte, halfword and word accesses among them.

pub mod addressspace;
pub mod debug;
pub mod ram;
pub mod video;
