//! Compositing core of an e-paper weather station: a two-plane (black/red)
//! packed framebuffer with pixel, rectangle, bitmap-blit and text primitives,
//! and the SSD1683 panel-driver protocol engine that serializes the planes
//! and programs the controller over a command/data port.
#![verifier::loop_isolation(false)]

pub mod bits;
pub mod config;
pub mod device;
pub mod error;
pub mod glyphs;
pub mod icons;
pub mod schedule;
pub mod screen;
pub mod sensor;
pub mod ssd1683;
