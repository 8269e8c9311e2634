//! A plotting library: axis resolution, tick placement and labelling, space
//! allocation and the transformation of data into drawing commands.
//!
//! Numbers on data axes are fixed-point decimals: an `i64` counts millionths
//! of a unit (see [`fixed`]).

pub mod fixed;
pub mod text;
pub mod draw;
pub mod error;
pub mod layout;
pub mod ticks;
pub mod subplot;
pub mod axis;
pub mod space;
pub mod transform;
pub mod figure;
pub mod grid;
