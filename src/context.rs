use vstd::prelude::*;

use crate::value::Payload;

verus! {

/// A neighboring agent, as the engine describes it.
#[derive(Debug)]
pub struct Neighbor {
    pub agent_id: String,
}

/// One agent's view of the current simulation step: its inbound messages and its
/// neighbors, both in the engine's order.
#[derive(Debug)]
pub struct Context {
    pub messages: Vec<Payload>,
    pub neighbors: Vec<Neighbor>,
}

/// The neighbors' agent ids, in order.
pub open spec fn neighbor_ids_of(c: Context) -> Seq<Seq<char>> {
    c.neighbors@.map_values(|n: Neighbor| n.agent_id@)
}

} // verus!
