//! The echo node: answers every `Echo { echo }` with `EchoOk { echo }`,
//! returning the received text unchanged.

use vstd::prelude::*;

use crate::message::{Body, InitView, Message, MessageView};
use crate::runtime::{run_spec, Node};

verus! {

/// The echo node's payload vocabulary.
pub enum EchoPayload {
    Echo { echo: String },
    EchoOk { echo: String },
}

/// Mathematical view of `EchoPayload`.
pub enum EchoPayloadView {
    Echo { echo: Seq<char> },
    EchoOk { echo: Seq<char> },
}

impl DeepView for EchoPayload {
    type V = EchoPayloadView;

    open spec fn deep_view(&self) -> EchoPayloadView {
        match self {
            EchoPayload::Echo { echo } => EchoPayloadView::Echo { echo: echo@ },
            EchoPayload::EchoOk { echo } => EchoPayloadView::EchoOk { echo: echo@ },
        }
    }
}

/// The echo node holds nothing but its outgoing-message counter.
pub struct EchoNode {
    pub id: usize,
}

/// Mathematical view of `EchoNode`.
#[verifier::ext_equal]
pub struct EchoNodeView {
    pub counter: int,
}

impl DeepView for EchoNode {
    type V = EchoNodeView;

    open spec fn deep_view(&self) -> EchoNodeView {
        EchoNodeView { counter: self.id as int }
    }
}

impl Node<EchoPayload> for EchoNode {
    open spec fn init_spec(init: InitView) -> EchoNodeView {
        EchoNodeView { counter: 1 }
    }

    /// `Echo { echo }` draws `EchoOk { echo }` with the same text and bumps
    /// the counter; an (unsolicited) `EchoOk` is ignored.
    open spec fn step_spec(pre: EchoNodeView, input: MessageView<EchoPayloadView>) -> (
        EchoNodeView,
        Option<MessageView<EchoPayloadView>>,
    ) {
        match input.body.payload {
            EchoPayloadView::Echo { echo } => (
                EchoNodeView { counter: pre.counter + 1 },
                Some(
                    crate::message::reply_view(
                        input,
                        pre.counter,
                        EchoPayloadView::EchoOk { echo },
                    ),
                ),
            ),
            EchoPayloadView::EchoOk { .. } => (pre, None),
        }
    }

    open spec fn counter_of(state: EchoNodeView) -> int {
        state.counter
    }

    proof fn lemma_init_counter(init: InitView) {
    }

    proof fn lemma_step_frame(pre: EchoNodeView, input: MessageView<EchoPayloadView>) {
    }

    fn from_init(init: crate::message::Init) -> (node: Self) {
        EchoNode { id: 1 }
    }

    fn step(&mut self, input: Message<EchoPayload>) -> (out: Option<Message<EchoPayload>>) {
        match input.body.payload {
            EchoPayload::Echo { echo } => {
                let reply = Message {
                    src: input.dest,
                    dest: input.src,
                    body: Body {
                        id: Some(self.id),
                        in_reply_to: input.body.id,
                        payload: EchoPayload::EchoOk { echo },
                    },
                };
                self.id = self.id + 1;
                Some(reply)
            },
            EchoPayload::EchoOk { .. } => None,
        }
    }
}

/// Round-trip identity: over any sequence of `Echo` inputs, the node replies
/// exactly once per input, and the k-th reply is `EchoOk` carrying the k-th
/// input's `echo` text unchanged.
pub proof fn lemma_echo_round_trip(state: EchoNodeView, inputs: Seq<MessageView<EchoPayloadView>>)
    requires
        forall|k: int| 0 <= k < inputs.len() ==> (#[trigger] inputs[k]).body.payload is Echo,
    ensures
        ({
            let (fin, outs) = run_spec::<EchoPayload, EchoNode>(state, inputs);
            &&& outs.len() == inputs.len()
            &&& forall|k: int|
                0 <= k < inputs.len() ==> (#[trigger] outs[k]).body.payload
                    == (EchoPayloadView::EchoOk { echo: inputs[k].body.payload->Echo_echo })
        }),
    decreases inputs.len(),
{
    if inputs.len() > 0 {
        let (mid, first_out) = <EchoNode as Node<EchoPayload>>::step_spec(state, inputs.first());
        let (fin, rest) = run_spec::<EchoPayload, EchoNode>(mid, inputs.drop_first());
        let (fin2, outs) = run_spec::<EchoPayload, EchoNode>(state, inputs);
        lemma_echo_round_trip(mid, inputs.drop_first());
        assert forall|k: int| 0 <= k < inputs.len() implies (#[trigger] outs[k]).body.payload == (
        EchoPayloadView::EchoOk { echo: inputs[k].body.payload->Echo_echo }) by {
            if k > 0 {
                assert(outs[k] == rest[k - 1]);
                assert(inputs[k] == inputs.drop_first()[k - 1]);
            }
        }
    }
}

} // verus!
