//! The generic node runtime: the dispatch contract every concrete node
//! satisfies, the initialization handshake, and the laws that hold of every
//! node's reply stream.
//!
//! A node is a state machine.  Its exec entry points (`from_init`, `step`)
//! are proved equal to pure transition functions (`init_spec`, `step_spec`)
//! over the views of its state and of the messages, and every node proves
//! once and for all (`lemma_step_frame`) that each reply it emits swaps
//! `src`/`dest`, answers the input's id, and carries the node's own counter,
//! which advances by exactly one per reply.

use vstd::prelude::*;

use crate::message::{Init, InitPayload, InitPayloadView, InitView, Message, MessageView};

verus! {

/// The capability a concrete node type implements: construct from the
/// initialization data, then handle one envelope at a time, emitting at most
/// one reply per input.
pub trait Node<P: DeepView>: Sized + DeepView {
    /// The state a node starts in, given the handshake data.
    spec fn init_spec(init: InitView) -> Self::V;

    /// The pure transition: from a state and one input message to the next
    /// state and the reply, if any.
    spec fn step_spec(pre: Self::V, input: MessageView<P::V>) -> (Self::V, Option<
        MessageView<P::V>,
    >);

    /// The node's outgoing-message counter: the id its next reply will carry.
    spec fn counter_of(state: Self::V) -> int;

    /// A fresh node's counter is 1: its first reply carries id 1.
    proof fn lemma_init_counter(init: InitView)
        ensures
            Self::counter_of(Self::init_spec(init)) == 1,
    ;

    /// Every reply answers its input (`src`/`dest` swapped, `in_reply_to`
    /// equal to the input's id), carries the pre-state counter as its id, and
    /// advances the counter by exactly one; an input that draws no reply
    /// leaves the state unchanged.
    proof fn lemma_step_frame(pre: Self::V, input: MessageView<P::V>)
        ensures
            ({
                let (post, out) = Self::step_spec(pre, input);
                match out {
                    Some(r) => {
                        &&& r.src == input.dest
                        &&& r.dest == input.src
                        &&& r.body.in_reply_to == input.body.id
                        &&& r.body.id == Some(Self::counter_of(pre))
                        &&& Self::counter_of(post) == Self::counter_of(pre) + 1
                    },
                    None => post == pre,
                }
            }),
    ;

    /// Builds the initial state; called exactly once, before any `step`.
    fn from_init(init: Init) -> (node: Self)
        ensures
            node.deep_view() == Self::init_spec(init.deep_view()),
    ;

    /// Handles one incoming envelope: mutates the state and returns the
    /// reply to emit, if any, exactly as `step_spec` says.
    fn step(&mut self, input: Message<P>) -> (out: Option<Message<P>>)
        requires
            Self::counter_of(old(self).deep_view()) < usize::MAX as int,
        ensures
            ({
                let (post, outv) = Self::step_spec(old(self).deep_view(), input.deep_view());
                &&& final (self).deep_view() == post
                &&& out.deep_view() == outv
            }),
    ;
}

/// The result of feeding a node one input after another: the state it ends
/// in and the sequence of all replies it emitted, in order.
pub open spec fn run_spec<P: DeepView, N: Node<P>>(
    state: N::V,
    inputs: Seq<MessageView<P::V>>,
) -> (N::V, Seq<MessageView<P::V>>)
    decreases inputs.len(),
{
    if inputs.len() == 0 {
        (state, Seq::empty())
    } else {
        let (mid, first_out) = N::step_spec(state, inputs.first());
        let (fin, rest) = run_spec::<P, N>(mid, inputs.drop_first());
        (
            fin,
            match first_out {
                Some(r) => seq![r] + rest,
                None => rest,
            },
        )
    }
}

/// Over any input sequence, the ids a node assigns to its replies are
/// consecutive: the k-th reply emitted carries the counter the node started
/// with plus k, and the counter ends advanced by exactly the number of
/// replies emitted.
pub proof fn lemma_run_ids_consecutive<P: DeepView, N: Node<P>>(
    state: N::V,
    inputs: Seq<MessageView<P::V>>,
)
    ensures
        ({
            let (fin, outs) = run_spec::<P, N>(state, inputs);
            &&& N::counter_of(fin) == N::counter_of(state) + outs.len()
            &&& forall|k: int|
                0 <= k < outs.len() ==> (#[trigger] outs[k]).body.id == Some(
                    N::counter_of(state) + k,
                )
        }),
    decreases inputs.len(),
{
    if inputs.len() > 0 {
        let (mid, first_out) = N::step_spec(state, inputs.first());
        let (fin, rest) = run_spec::<P, N>(mid, inputs.drop_first());
        let (fin2, outs) = run_spec::<P, N>(state, inputs);
        N::lemma_step_frame(state, inputs.first());
        lemma_run_ids_consecutive::<P, N>(mid, inputs.drop_first());
        match first_out {
            Some(r) => {
                assert forall|k: int| 0 <= k < outs.len() implies (#[trigger] outs[k]).body.id
                    == Some(N::counter_of(state) + k) by {
                    if k > 0 {
                        assert(outs[k] == rest[k - 1]);
                    }
                }
            },
            None => {},
        }
    }
}

/// A node fresh from the initialization handshake assigns ids 1, 2, 3, … to
/// its replies: strictly increasing by exactly one per reply emitted,
/// starting from 1.
pub proof fn lemma_run_ids_from_init<P: DeepView, N: Node<P>>(
    init: InitView,
    inputs: Seq<MessageView<P::V>>,
)
    ensures
        ({
            let (fin, outs) = run_spec::<P, N>(N::init_spec(init), inputs);
            forall|k: int| 0 <= k < outs.len() ==> (#[trigger] outs[k]).body.id == Some(k + 1)
        }),
{
    N::lemma_init_counter(init);
    lemma_run_ids_consecutive::<P, N>(N::init_spec(init), inputs);
}

/// Why the runtime refused to start: the first message a node receives must
/// be the initialization handshake.
#[derive(Debug)]
pub enum RuntimeError {
    FirstMessageNotInit,
}

impl RuntimeError {
    /// A human-readable rendering, for the process's fatal-error message.
    pub fn describe(&self) -> (s: String)
        ensures
            s@ == "first message must be an init message"@,
    {
        String::from_str("first message must be an init message")
    }
}

/// Performs the initialization handshake: if `input` carries the handshake
/// payload, constructs the node from it and returns the acknowledgement
/// envelope (`src`/`dest` swapped, `in_reply_to` the handshake's id, own id
/// 0, payload `InitOk`); any other first message is refused.
pub fn handle_init<P: DeepView, N: Node<P>>(input: Message<InitPayload>) -> (res: Result<
    (N, Message<InitPayload>),
    RuntimeError,
>)
    ensures
        input.deep_view().body.payload is Init <==> res is Ok,
        res matches Ok((node, reply)) ==> {
            &&& node.deep_view() == N::init_spec(input.deep_view().body.payload->Init_0)
            &&& reply.deep_view() == crate::message::reply_view(
                input.deep_view(),
                0,
                InitPayloadView::InitOk,
            )
        },
        res matches Err(e) ==> e is FirstMessageNotInit,
{
    let Message { src, dest, body } = input;
    match body.payload {
        InitPayload::Init(init) => {
            let node = N::from_init(init);
            let reply = Message {
                src: dest,
                dest: src,
                body: crate::message::Body {
                    id: Some(0),
                    in_reply_to: body.id,
                    payload: InitPayload::InitOk,
                },
            };
            Ok((node, reply))
        },
        InitPayload::InitOk => Err(RuntimeError::FirstMessageNotInit),
    }
}

} // verus!
