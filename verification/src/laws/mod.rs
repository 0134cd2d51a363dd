//! What the library promises as a whole, stated of the results of its functions.

pub mod archive;
pub mod effects;
pub mod items;
pub mod journal;
pub mod layout;
pub mod paths;
pub mod programs;
pub mod recording;
pub mod runs;
pub mod sandbox;
pub mod text;
pub mod tracking;
pub mod usn;
pub mod watching;
