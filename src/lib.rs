use vstd::prelude::*;

pub mod contract;
pub mod keyed_store;
pub mod room;

pub use contract::Contract;
pub use room::{Booking, RegisteredRoom, Room, UsageStatus};

verus! {

} // verus!
