//! The wire envelope types and their mathematical views.
//!
//! An envelope carries a source identifier, a destination identifier, and a
//! body; the body carries the correlation ids and one payload of the active
//! node's vocabulary.  Replies swap `src` and `dest` and set `in_reply_to`
//! to the id of the message being answered.

use vstd::prelude::*;

verus! {

/// The payload-bearing part of an envelope: the sender-assigned message id,
/// the id of the message this one answers (if any), and the payload itself.
pub struct Body<P> {
    pub id: Option<usize>,
    pub in_reply_to: Option<usize>,
    pub payload: P,
}

/// One wire message: who sent it, who receives it, and its body.
pub struct Message<P> {
    pub src: String,
    pub dest: String,
    pub body: Body<P>,
}

/// Initialization handshake data: the node's own identifier and the full
/// set of peer identifiers in the cluster.
pub struct Init {
    pub node_id: String,
    pub node_ids: Vec<String>,
}

/// The payload vocabulary of the initialization handshake.
pub enum InitPayload {
    Init(Init),
    InitOk,
}

/// Mathematical view of a `Body`: ids as unbounded integers, payload as the
/// payload's own view.
#[verifier::ext_equal]
pub struct BodyView<PV> {
    pub id: Option<int>,
    pub in_reply_to: Option<int>,
    pub payload: PV,
}

/// Mathematical view of a `Message`: identifiers as character sequences.
#[verifier::ext_equal]
pub struct MessageView<PV> {
    pub src: Seq<char>,
    pub dest: Seq<char>,
    pub body: BodyView<PV>,
}

/// Mathematical view of `Init`.
#[verifier::ext_equal]
pub struct InitView {
    pub node_id: Seq<char>,
    pub node_ids: Seq<Seq<char>>,
}

/// Mathematical view of `InitPayload`.
pub enum InitPayloadView {
    Init(InitView),
    InitOk,
}

/// An optional message id, widened from `usize` to `int`.
pub open spec fn opt_id_view(o: Option<usize>) -> Option<int> {
    match o {
        Some(i) => Some(i as int),
        None => None,
    }
}

impl<P: DeepView> DeepView for Body<P> {
    type V = BodyView<P::V>;

    open spec fn deep_view(&self) -> BodyView<P::V> {
        BodyView {
            id: opt_id_view(self.id),
            in_reply_to: opt_id_view(self.in_reply_to),
            payload: self.payload.deep_view(),
        }
    }
}

impl<P: DeepView> DeepView for Message<P> {
    type V = MessageView<P::V>;

    open spec fn deep_view(&self) -> MessageView<P::V> {
        MessageView { src: self.src@, dest: self.dest@, body: self.body.deep_view() }
    }
}

impl DeepView for Init {
    type V = InitView;

    open spec fn deep_view(&self) -> InitView {
        InitView { node_id: self.node_id@, node_ids: self.node_ids.deep_view() }
    }
}

impl DeepView for InitPayload {
    type V = InitPayloadView;

    open spec fn deep_view(&self) -> InitPayloadView {
        match self {
            InitPayload::Init(init) => InitPayloadView::Init(init.deep_view()),
            InitPayload::InitOk => InitPayloadView::InitOk,
        }
    }
}

/// The view of the reply envelope that answers `input` with payload `payload`
/// and carries `id` as the sender's own message id: `src` and `dest` swapped,
/// `in_reply_to` equal to the input's id.
pub open spec fn reply_view<PV>(input: MessageView<PV>, id: int, payload: PV) -> MessageView<PV> {
    MessageView {
        src: input.dest,
        dest: input.src,
        body: BodyView { id: Some(id), in_reply_to: input.body.id, payload },
    }
}

} // verus!
