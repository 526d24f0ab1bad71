//! The platform glue: what the cooperative tick decides between pumping
//! the window's events and handing them to the toolkit.

pub mod dispatcher;
pub mod display;
pub mod input;
pub mod keys;
