//! The rules of a tyMNL server: which screen a device is shown, how long it is
//! kept, what the device is told, and how a rendered page becomes the packed
//! grayscale image that an e-ink panel takes.
//!
//! Reading files, talking to devices and laying out pages are left to the
//! program around this library.

// building blocks
pub mod text;
pub mod table;
pub mod clock;

// what is configured
pub mod config;
pub mod loading;
pub mod query;

// which font files can be read
pub mod bytes;
pub mod lookups;
pub mod variations;
pub mod outlines;
pub mod sound;

// from a page to an image
pub mod fonts;
pub mod diagnostic;
pub mod render;

// serving devices
pub mod device;
pub mod reply;
pub mod state;
pub mod handlers;
pub mod command;

// what holds of all this
pub mod laws;
