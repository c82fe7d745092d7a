//! Market-data capture: subscription frames, hour-bucketed durable log files
//! and the connection session that ties them together.
use vstd::prelude::*;

pub mod text;
pub mod clock;
pub mod channels;
pub mod writer;
pub mod session;

verus! {

} // verus!
