use vstd::prelude::*;

pub mod context;
pub mod context_wrapper;
pub mod value;

pub use context::{Context, Neighbor};
pub use context_wrapper::ContextWrapper;
pub use value::{ConversionError, HostValue, Payload};

verus! {

} // verus!
