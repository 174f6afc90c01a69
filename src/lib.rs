//! Widget composition, message dispatch and frame scheduling for a small
//! pixel console, with the map grid that games draw from.

pub mod event;
pub mod frame;
pub mod map;
pub mod ui;
