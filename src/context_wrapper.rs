use vstd::prelude::*;

use crate::context::{neighbor_ids_of, Context};
use crate::value::{
    all_representable, duplicate, lemma_mirrors_same_host, lemma_same_host_symmetric,
    lemma_same_host_transitive, list_to_host, mirrors, mirrors_list, same_host, ConversionError,
    HostValue,
};

verus! {

/// `h` is a host array of strings whose texts are `ids`, in order.
pub open spec fn string_array(h: HostValue, ids: Seq<Seq<char>>) -> bool {
    &&& h matches HostValue::Array(hs)
    &&& hs.len() == ids.len()
    &&& forall|i: int|
        0 <= i < hs.len() ==> (#[trigger] hs[i] matches HostValue::Str(s) && s@ == ids[i])
}

/// A read-only snapshot of a context, ready to hand to the host: the messages
/// already in the host's value model, the neighbor ids as owned strings.
#[derive(Debug)]
pub struct ContextWrapper {
    messages_values: HostValue,
    neighbor_ids: Vec<String>,
}

impl ContextWrapper {
    /// The host array of messages captured at construction.
    pub closed spec fn held_messages(&self) -> HostValue {
        self.messages_values
    }

    /// The neighbor ids captured at construction.
    pub closed spec fn ids(&self) -> Seq<Seq<char>> {
        self.neighbor_ids@.map_values(|s: String| s@)
    }

    /// This snapshot holds `c` as it was: the host images of its messages and its
    /// neighbor ids, both in order.
    pub open spec fn captures(&self, c: Context) -> bool {
        &&& mirrors_list(c.messages, self.held_messages())
        &&& self.ids() == neighbor_ids_of(c)
    }

    /// Takes a snapshot of `context`; fails exactly when one of its messages holds an
    /// integer that the host's number type cannot hold exactly.
    pub fn new(context: &Context) -> (r: Result<ContextWrapper, ConversionError>)
        ensures
            r is Ok <==> all_representable(context.messages),
            r matches Ok(w) ==> w.captures(*context),
            r matches Err(e) ==> e.message@.len() > 0,
    {
        let messages_values = list_to_host(&context.messages)?;
        let mut neighbor_ids: Vec<String> = Vec::new();
        let mut i: usize = 0;
        while i < context.neighbors.len()
            invariant
                i <= context.neighbors.len(),
                neighbor_ids.len() == i,
                forall|j: int|
                    0 <= j < i ==> #[trigger] neighbor_ids[j]@ == context.neighbors[j].agent_id@,
            decreases context.neighbors.len() - i,
        {
            neighbor_ids.push(context.neighbors[i].agent_id.clone());
            i = i + 1;
        }
        let w = ContextWrapper { messages_values, neighbor_ids };
        assert(w.ids() =~= neighbor_ids_of(*context));
        Ok(w)
    }

    /// The neighbor ids as a host array of strings, built anew on each call.
    pub fn neighbors(&self) -> (r: Result<HostValue, ConversionError>)
        ensures
            r matches Ok(h) && string_array(h, self.ids()),
    {
        let mut out: Vec<HostValue> = Vec::new();
        let mut i: usize = 0;
        while i < self.neighbor_ids.len()
            invariant
                i <= self.neighbor_ids.len(),
                out.len() == i,
                forall|j: int|
                    0 <= j < i ==> (#[trigger] out[j] matches HostValue::Str(s) && s@
                        == self.neighbor_ids[j]@),
            decreases self.neighbor_ids.len() - i,
        {
            out.push(HostValue::Str(self.neighbor_ids[i].clone()));
            i = i + 1;
        }
        Ok(HostValue::Array(out))
    }

    /// A copy of the messages captured at construction; nothing is converted again.
    pub fn messages(&self) -> (r: Result<HostValue, ConversionError>)
        ensures
            r matches Ok(h) && same_host(self.held_messages(), h),
    {
        Ok(duplicate(&self.messages_values))
    }
}

/// The neighbors read from a snapshot of `c` are the agent ids of `c`'s neighbors:
/// one string per neighbor, in the neighbors' order.
pub proof fn lemma_neighbors_follow_context(c: Context, w: ContextWrapper, h: HostValue)
    requires
        w.captures(c),
        string_array(h, w.ids()),
    ensures
        h matches HostValue::Array(hs) && hs.len() == c.neighbors.len() && forall|i: int|
            0 <= i < hs.len() ==> (#[trigger] hs[i] matches HostValue::Str(s) && s@
                == c.neighbors[i].agent_id@),
{
    let hs = h->Array_0;
    assert forall|i: int| 0 <= i < hs.len() implies (#[trigger] hs[i] matches HostValue::Str(s)
        && s@ == c.neighbors[i].agent_id@) by {
        assert(w.ids()[i] == neighbor_ids_of(c)[i]);
    }
}

/// Reading a snapshot twice gives the same values: two reads of the messages are the
/// same host value, and so are two reads of the neighbors.
pub proof fn lemma_repeated_reads_agree(
    w: ContextWrapper,
    a: HostValue,
    b: HostValue,
    x: HostValue,
    y: HostValue,
)
    requires
        same_host(w.held_messages(), a),
        same_host(w.held_messages(), b),
        string_array(x, w.ids()),
        string_array(y, w.ids()),
    ensures
        same_host(a, b),
        same_host(x, y),
{
    lemma_same_host_symmetric(w.held_messages(), a);
    lemma_same_host_transitive(a, w.held_messages(), b);
    let xs = x->Array_0;
    let ys = y->Array_0;
    assert forall|i: int| 0 <= i < xs.len() implies same_host(#[trigger] xs[i], ys[i]) by {
        assert(xs[i] matches HostValue::Str(s) && s@ == w.ids()[i]);
        assert(ys[i] matches HostValue::Str(s) && s@ == w.ids()[i]);
    }
}

/// What a snapshot of `c` hands out is `c` as it was when the snapshot was taken:
/// the messages read are the host images of `c`'s messages, in order, whatever
/// becomes of `c` afterwards.
pub proof fn lemma_snapshot_fixed_at_construction(c: Context, w: ContextWrapper, a: HostValue)
    requires
        w.captures(c),
        same_host(w.held_messages(), a),
    ensures
        mirrors_list(c.messages, a),
{
    let hs = w.held_messages()->Array_0;
    let as_ = a->Array_0;
    assert forall|i: int| 0 <= i < c.messages.len() implies mirrors(
        #[trigger] c.messages[i],
        as_[i],
    ) by {
        assert(same_host(hs[i], as_[i]));
        lemma_mirrors_same_host(c.messages[i], hs[i], as_[i]);
    }
}

/// A context with no messages and no neighbors always gives a snapshot, and both of
/// its reads are empty host arrays.
pub proof fn lemma_empty_context(c: Context, w: ContextWrapper, a: HostValue, x: HostValue)
    requires
        c.messages.len() == 0,
        c.neighbors.len() == 0,
        w.captures(c),
        same_host(w.held_messages(), a),
        string_array(x, w.ids()),
    ensures
        all_representable(c.messages),
        a matches HostValue::Array(v) && v.len() == 0,
        x matches HostValue::Array(v) && v.len() == 0,
{
}

} // verus!
