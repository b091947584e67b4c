//! The unique-id node: each `Generate` draws `GenerateOk { id }` where the id
//! is `"{node_identifier}-{counter}"`.  Within one node the ids are pairwise
//! distinct because the counter is strictly increasing; across nodes they are
//! distinct because the harness hands every node a distinct identifier.

use vstd::prelude::*;

use crate::decimal::{dec_of, lemma_dec_of_injective, lemma_dec_of_val, usize_to_decimal};
use crate::message::{Body, InitView, Message, MessageView};
use crate::runtime::{run_spec, Node};

verus! {

/// The unique-id node's payload vocabulary.
pub enum UniqueIdPayload {
    Generate,
    GenerateOk { guid: String },
}

/// Mathematical view of `UniqueIdPayload`.
pub enum UniqueIdPayloadView {
    Generate,
    GenerateOk { guid: Seq<char> },
}

impl DeepView for UniqueIdPayload {
    type V = UniqueIdPayloadView;

    open spec fn deep_view(&self) -> UniqueIdPayloadView {
        match self {
            UniqueIdPayload::Generate => UniqueIdPayloadView::Generate,
            UniqueIdPayload::GenerateOk { guid } => UniqueIdPayloadView::GenerateOk {
                guid: guid@,
            },
        }
    }
}

/// The unique-id node: its outgoing-message counter and its own identifier,
/// captured at init.
pub struct UniqueIdNode {
    pub id: usize,
    pub node_id: String,
}

/// Mathematical view of `UniqueIdNode`.
#[verifier::ext_equal]
pub struct UniqueIdNodeView {
    pub counter: int,
    pub node_id: Seq<char>,
}

impl DeepView for UniqueIdNode {
    type V = UniqueIdNodeView;

    open spec fn deep_view(&self) -> UniqueIdNodeView {
        UniqueIdNodeView { counter: self.id as int, node_id: self.node_id@ }
    }
}

/// The generated identifier for counter value `k` on node `node_id`:
/// `"{node_id}-{k}"`.
pub open spec fn guid_of(node_id: Seq<char>, k: nat) -> Seq<char> {
    node_id + seq!['-'] + dec_of(k)
}

/// On one node, distinct counter values give distinct generated identifiers.
pub proof fn lemma_guid_injective(node_id: Seq<char>, i: nat, j: nat)
    requires
        i != j,
    ensures
        guid_of(node_id, i) != guid_of(node_id, j),
{
    lemma_dec_of_val(i);
    lemma_dec_of_val(j);
    lemma_dec_of_injective(i, j);
    let gi = guid_of(node_id, i);
    let gj = guid_of(node_id, j);
    if gi == gj {
        let start = node_id.len() + 1;
        assert(gi.subrange(start as int, gi.len() as int) =~= dec_of(i));
        assert(gj.subrange(start as int, gj.len() as int) =~= dec_of(j));
        assert(false);
    }
}

/// Renders the generated identifier `"{node_id}-{k}"`.
fn guid_string(node_id: &String, k: usize) -> (s: String)
    ensures
        s@ == guid_of(node_id@, k as nat),
{
    let mut s = node_id.clone();
    s.append("-");
    let digits = usize_to_decimal(k);
    s.append(digits.as_str());
    proof {
        reveal_strlit("-");
        assert(s@ =~= guid_of(node_id@, k as nat));
    }
    s
}

impl Node<UniqueIdPayload> for UniqueIdNode {
    open spec fn init_spec(init: InitView) -> UniqueIdNodeView {
        UniqueIdNodeView { counter: 1, node_id: init.node_id }
    }

    /// `Generate` draws `GenerateOk` carrying `"{node_id}-{counter}"` and
    /// bumps the counter; an (unsolicited) `GenerateOk` is ignored.
    open spec fn step_spec(pre: UniqueIdNodeView, input: MessageView<UniqueIdPayloadView>) -> (
        UniqueIdNodeView,
        Option<MessageView<UniqueIdPayloadView>>,
    ) {
        match input.body.payload {
            UniqueIdPayloadView::Generate => (
                UniqueIdNodeView { counter: pre.counter + 1, ..pre },
                Some(
                    crate::message::reply_view(
                        input,
                        pre.counter,
                        UniqueIdPayloadView::GenerateOk {
                            guid: guid_of(pre.node_id, pre.counter as nat),
                        },
                    ),
                ),
            ),
            UniqueIdPayloadView::GenerateOk { .. } => (pre, None),
        }
    }

    open spec fn counter_of(state: UniqueIdNodeView) -> int {
        state.counter
    }

    proof fn lemma_init_counter(init: InitView) {
    }

    proof fn lemma_step_frame(pre: UniqueIdNodeView, input: MessageView<UniqueIdPayloadView>) {
    }

    fn from_init(init: crate::message::Init) -> (node: Self) {
        UniqueIdNode { id: 1, node_id: init.node_id }
    }

    fn step(&mut self, input: Message<UniqueIdPayload>) -> (out: Option<Message<UniqueIdPayload>>) {
        match input.body.payload {
            UniqueIdPayload::Generate => {
                let guid = guid_string(&self.node_id, self.id);
                let reply = Message {
                    src: input.dest,
                    dest: input.src,
                    body: Body {
                        id: Some(self.id),
                        in_reply_to: input.body.id,
                        payload: UniqueIdPayload::GenerateOk { guid },
                    },
                };
                self.id = self.id + 1;
                Some(reply)
            },
            UniqueIdPayload::GenerateOk { .. } => None,
        }
    }
}

/// Over any sequence of `Generate` inputs, the node replies exactly once per
/// input; the k-th reply carries the id `"{node_id}-{c0+k}"`, where `c0` is
/// the counter the node started with (1 on a fresh node, so the number is the
/// call's 1-based position in the node's outgoing sequence); and the returned
/// ids are pairwise distinct.
pub proof fn lemma_generate_ids(
    state: UniqueIdNodeView,
    inputs: Seq<MessageView<UniqueIdPayloadView>>,
)
    requires
        state.counter >= 0,
        forall|k: int| 0 <= k < inputs.len() ==> (#[trigger] inputs[k]).body.payload is Generate,
    ensures
        ({
            let (fin, outs) = run_spec::<UniqueIdPayload, UniqueIdNode>(state, inputs);
            &&& outs.len() == inputs.len()
            &&& forall|k: int|
                0 <= k < outs.len() ==> (#[trigger] outs[k]).body.payload
                    == (UniqueIdPayloadView::GenerateOk {
                    guid: guid_of(state.node_id, (state.counter + k) as nat),
                })
            &&& forall|k: int, l: int|
                0 <= k < l < outs.len() ==> (#[trigger] outs[k]).body.payload->GenerateOk_guid != (
                #[trigger] outs[l]).body.payload->GenerateOk_guid
        }),
    decreases inputs.len(),
{
    if inputs.len() > 0 {
        let (mid, first_out) = <UniqueIdNode as Node<UniqueIdPayload>>::step_spec(
            state,
            inputs.first(),
        );
        let (fin, rest) = run_spec::<UniqueIdPayload, UniqueIdNode>(mid, inputs.drop_first());
        let (fin2, outs) = run_spec::<UniqueIdPayload, UniqueIdNode>(state, inputs);
        lemma_generate_ids(mid, inputs.drop_first());
        assert forall|k: int|
            0 <= k < outs.len() implies (#[trigger] outs[k]).body.payload == (
        UniqueIdPayloadView::GenerateOk {
            guid: guid_of(state.node_id, (state.counter + k) as nat),
        }) by {
            if k > 0 {
                assert(outs[k] == rest[k - 1]);
            }
        }
    }
    let (fin, outs) = run_spec::<UniqueIdPayload, UniqueIdNode>(state, inputs);
    assert forall|k: int, l: int|
        0 <= k < l < outs.len() implies (#[trigger] outs[k]).body.payload->GenerateOk_guid != (
    #[trigger] outs[l]).body.payload->GenerateOk_guid by {
        lemma_guid_injective(state.node_id, (state.counter + k) as nat, (state.counter + l) as nat);
    }
}

} // verus!
