use vstd::prelude::*;

pub mod bus;
pub mod cpu;
pub mod devs;
pub mod gfx;
pub mod misc;

verus! {
}
