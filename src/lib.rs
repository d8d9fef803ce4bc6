//! Replay of the aribas calculator's pseudo-random generator, with the
//! C runtime `rand()` streams of glibc and MSVCRT that seed it.

pub mod arib_rand;
pub mod c_rand;
pub mod limbs;

pub use arib_rand::{AribasRandom, Platform};

use vstd::prelude::*;

verus! {

} // verus!
