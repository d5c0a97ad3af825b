use vstd::prelude::*;

pub mod text;
pub mod geometry;
pub mod options;
pub mod state;
pub mod native;
pub mod win32;
pub mod daemon;
