use vstd::prelude::*;

pub mod client_stubs;
pub mod depth;
pub mod dispatch;
pub mod farm;
pub mod fields;
pub mod fix_msg;
pub mod hmds;
pub mod market_state;
pub mod news;
pub mod order_tags;
pub mod orders;
pub mod text;
pub mod ticks;
pub mod types;
pub mod wire;

verus! {

} // verus!
