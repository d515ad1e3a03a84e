//! Status-line sensors: the pure core of two periodic feeds, one reporting
//! free memory and one reporting the state of a media player.

pub mod memory;
pub mod player;
pub mod poll;
pub mod scan;
pub mod ratio;
pub mod text;
