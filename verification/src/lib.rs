use vstd::prelude::*;

pub mod display;
pub mod io;
pub mod sim;
pub mod shared_data;
pub mod pages;

verus! {
} // verus!
