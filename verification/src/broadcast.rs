//! The broadcast node: records every broadcast value in arrival order,
//! answers reads with a snapshot of the whole log, and records the topology
//! the harness supplies.  Dissemination to neighbors is deliberately absent:
//! the topology is stored but never consulted, so this node is a local
//! bookkeeping stub, not a gossip protocol.

use vstd::prelude::*;

use crate::message::{Body, InitView, Message, MessageView};
use crate::runtime::{run_spec, Node};

verus! {

/// One node's adjacency list: the node's identifier and the identifiers of
/// its directly connected peers.
pub type TopologyEntry = (String, Vec<String>);

/// The broadcast node's payload vocabulary.
pub enum BroadcastPayload {
    Broadcast { message: i32 },
    BroadcastOk,
    Read,
    ReadOk { messages: Vec<i32> },
    Topology { topology: Vec<TopologyEntry> },
    TopologyOk,
}

/// Mathematical view of `BroadcastPayload`.
pub enum BroadcastPayloadView {
    Broadcast { message: i32 },
    BroadcastOk,
    Read,
    ReadOk { messages: Seq<i32> },
    Topology { topology: Seq<(Seq<char>, Seq<Seq<char>>)> },
    TopologyOk,
}

impl DeepView for BroadcastPayload {
    type V = BroadcastPayloadView;

    open spec fn deep_view(&self) -> BroadcastPayloadView {
        match self {
            BroadcastPayload::Broadcast { message } => BroadcastPayloadView::Broadcast {
                message: *message,
            },
            BroadcastPayload::BroadcastOk => BroadcastPayloadView::BroadcastOk,
            BroadcastPayload::Read => BroadcastPayloadView::Read,
            BroadcastPayload::ReadOk { messages } => BroadcastPayloadView::ReadOk {
                messages: messages.deep_view(),
            },
            BroadcastPayload::Topology { topology } => BroadcastPayloadView::Topology {
                topology: topology.deep_view(),
            },
            BroadcastPayload::TopologyOk => BroadcastPayloadView::TopologyOk,
        }
    }
}

/// The broadcast node: its outgoing-message counter, the append-only log of
/// every broadcast value received (duplicates kept, arrival order kept), and
/// the cluster topology once the harness has supplied it.
pub struct BroadcastNode {
    pub id: usize,
    pub messages: Vec<i32>,
    pub topology: Vec<TopologyEntry>,
}

/// Mathematical view of `BroadcastNode`.
#[verifier::ext_equal]
pub struct BroadcastNodeView {
    pub counter: int,
    pub messages: Seq<i32>,
    pub topology: Seq<(Seq<char>, Seq<Seq<char>>)>,
}

impl DeepView for BroadcastNode {
    type V = BroadcastNodeView;

    open spec fn deep_view(&self) -> BroadcastNodeView {
        BroadcastNodeView {
            counter: self.id as int,
            messages: self.messages.deep_view(),
            topology: self.topology.deep_view(),
        }
    }
}

impl BroadcastNode {
    /// The reply envelope answering `input` with `payload`: `src`/`dest`
    /// swapped, `in_reply_to` the input's id, own id the node's counter.
    pub fn construct_reply(
        &self,
        input: Message<BroadcastPayload>,
        payload: BroadcastPayload,
    ) -> (reply: Message<BroadcastPayload>)
        ensures
            reply.deep_view() == crate::message::reply_view(
                input.deep_view(),
                self.id as int,
                payload.deep_view(),
            ),
    {
        Message {
            src: input.dest,
            dest: input.src,
            body: Body { id: Some(self.id), in_reply_to: input.body.id, payload },
        }
    }
}

impl Node<BroadcastPayload> for BroadcastNode {
    open spec fn init_spec(init: InitView) -> BroadcastNodeView {
        BroadcastNodeView { counter: 1, messages: Seq::empty(), topology: Seq::empty() }
    }

    /// `Broadcast { message }` appends to the log and draws `BroadcastOk`;
    /// `Read` draws `ReadOk` carrying the whole log in arrival order;
    /// `Topology { topology }` records the mapping and draws `TopologyOk`;
    /// the acknowledgement payloads are ignored.
    open spec fn step_spec(pre: BroadcastNodeView, input: MessageView<BroadcastPayloadView>) -> (
        BroadcastNodeView,
        Option<MessageView<BroadcastPayloadView>>,
    ) {
        match input.body.payload {
            BroadcastPayloadView::Broadcast { message } => (
                BroadcastNodeView {
                    counter: pre.counter + 1,
                    messages: pre.messages.push(message),
                    ..pre
                },
                Some(
                    crate::message::reply_view(
                        input,
                        pre.counter,
                        BroadcastPayloadView::BroadcastOk,
                    ),
                ),
            ),
            BroadcastPayloadView::BroadcastOk => (pre, None),
            BroadcastPayloadView::Read => (
                BroadcastNodeView { counter: pre.counter + 1, ..pre },
                Some(
                    crate::message::reply_view(
                        input,
                        pre.counter,
                        BroadcastPayloadView::ReadOk { messages: pre.messages },
                    ),
                ),
            ),
            BroadcastPayloadView::ReadOk { .. } => (pre, None),
            BroadcastPayloadView::Topology { topology } => (
                BroadcastNodeView { counter: pre.counter + 1, topology, ..pre },
                Some(
                    crate::message::reply_view(
                        input,
                        pre.counter,
                        BroadcastPayloadView::TopologyOk,
                    ),
                ),
            ),
            BroadcastPayloadView::TopologyOk => (pre, None),
        }
    }

    open spec fn counter_of(state: BroadcastNodeView) -> int {
        state.counter
    }

    proof fn lemma_init_counter(init: InitView) {
    }

    proof fn lemma_step_frame(pre: BroadcastNodeView, input: MessageView<BroadcastPayloadView>) {
    }

    fn from_init(init: crate::message::Init) -> (node: Self) {
        let node = BroadcastNode { id: 1, messages: Vec::new(), topology: Vec::new() };
        proof {
            assert(node.deep_view() =~= Self::init_spec(init.deep_view()));
        }
        node
    }

    fn step(&mut self, input: Message<BroadcastPayload>) -> (out: Option<Message<BroadcastPayload>>) {
        match input.body.payload {
            BroadcastPayload::Broadcast { message } => {
                self.messages.push(message);
                let reply = self.construct_reply(input, BroadcastPayload::BroadcastOk);
                self.id = self.id + 1;
                proof {
                    assert(self.messages.deep_view() =~= old(self).messages.deep_view().push(
                        message,
                    ));
                }
                Some(reply)
            },
            BroadcastPayload::BroadcastOk => None,
            BroadcastPayload::Read => {
                let snapshot = self.messages.clone();
                proof {
                    assert(snapshot.deep_view() =~= self.messages.deep_view());
                }
                let reply = self.construct_reply(
                    input,
                    BroadcastPayload::ReadOk { messages: snapshot },
                );
                self.id = self.id + 1;
                Some(reply)
            },
            BroadcastPayload::ReadOk { .. } => None,
            BroadcastPayload::Topology { topology } => {
                let reply = Message {
                    src: input.dest,
                    dest: input.src,
                    body: Body {
                        id: Some(self.id),
                        in_reply_to: input.body.id,
                        payload: BroadcastPayload::TopologyOk,
                    },
                };
                self.topology = topology;
                self.id = self.id + 1;
                Some(reply)
            },
            BroadcastPayload::TopologyOk => None,
        }
    }
}

/// The broadcast values carried by a sequence of `Broadcast` inputs, in
/// order.
pub open spec fn broadcast_values(inputs: Seq<MessageView<BroadcastPayloadView>>) -> Seq<i32> {
    Seq::new(inputs.len(), |k: int| inputs[k].body.payload->Broadcast_message)
}

/// Read-your-writes: after any sequence of `Broadcast` inputs followed by one
/// `Read`, the node has replied once per input, and the final reply is
/// `ReadOk` carrying exactly the broadcast values, in arrival order and with
/// duplicates kept, appended to whatever log the node already held (empty on
/// a fresh node).
pub proof fn lemma_broadcast_then_read(
    state: BroadcastNodeView,
    inputs: Seq<MessageView<BroadcastPayloadView>>,
    read_input: MessageView<BroadcastPayloadView>,
)
    requires
        forall|k: int| 0 <= k < inputs.len() ==> (#[trigger] inputs[k]).body.payload is Broadcast,
        read_input.body.payload is Read,
    ensures
        ({
            let (fin, outs) = run_spec::<BroadcastPayload, BroadcastNode>(
                state,
                inputs.push(read_input),
            );
            &&& outs.len() == inputs.len() + 1
            &&& outs.last().body.payload == (BroadcastPayloadView::ReadOk {
                messages: state.messages + broadcast_values(inputs),
            })
        }),
    decreases inputs.len(),
{
    let all = inputs.push(read_input);
    let (mid, first_out) = <BroadcastNode as Node<BroadcastPayload>>::step_spec(
        state,
        all.first(),
    );
    let (fin, rest) = run_spec::<BroadcastPayload, BroadcastNode>(mid, all.drop_first());
    let (fin2, outs) = run_spec::<BroadcastPayload, BroadcastNode>(state, all);
    if inputs.len() == 0 {
        assert(all.first() == read_input);
        assert(all.drop_first() =~= Seq::<MessageView<BroadcastPayloadView>>::empty());
        assert(outs =~= seq![first_out->Some_0]);
        assert(state.messages + broadcast_values(inputs) =~= state.messages);
    } else {
        assert(all.first() == inputs[0]);
        assert(all.drop_first() =~= inputs.drop_first().push(read_input));
        lemma_broadcast_then_read(mid, inputs.drop_first(), read_input);
        assert(outs == seq![first_out->Some_0] + rest);
        assert(rest.len() == inputs.len());
        assert(outs.last() == rest.last());
        assert(mid.messages + broadcast_values(inputs.drop_first()) =~= state.messages
            + broadcast_values(inputs));
    }
}

/// Every `Topology` input draws exactly one reply, and it is `TopologyOk`,
/// whatever the shape of the supplied mapping.
pub proof fn lemma_topology_acked(
    pre: BroadcastNodeView,
    input: MessageView<BroadcastPayloadView>,
)
    requires
        input.body.payload is Topology,
    ensures
        ({
            let (post, out) = <BroadcastNode as Node<BroadcastPayload>>::step_spec(pre, input);
            out matches Some(r) && r.body.payload is TopologyOk
        }),
{
}

} // verus!
