//! Node state and the per-message capability context.
//!
//! A [`Node`] holds the process-wide mutable state: the monotonically
//! increasing message-id counter (starting at 1) and the optional
//! initialization record.  A [`MessageContext`] is created for one incoming
//! envelope; it is the only way a handler can produce outbound traffic or
//! observe the node's identity.  Outbound envelopes accumulate in the
//! context's outbox, in the order they were produced; the unverified shell
//! around the library serializes and writes them after each dispatch.

use vstd::prelude::*;
use vstd::seq_lib::*;
use crate::envelope::{Body, BodyView, Init, InitView, Message, MessageView, Payload, PayloadView};

verus! {

/// The failures the verified core can signal while handling one message.
#[derive(Debug, Clone, Copy, PartialEq, Eq, Structural)]
pub enum Error {
    /// An identity-dependent operation ran before the node was initialized.
    Uninitialized,
    /// A forwarding decision needed a topology, and none was supplied yet.
    TopologyUnset,
}

/// Process-wide node state: the id counter and the initialization record.
pub struct Node {
    message_id: usize,
    init: Option<Init>,
}

/// Mathematical image of a [`Node`].
pub ghost struct NodeView {
    pub message_id: usize,
    pub init: Option<InitView>,
}

impl View for Node {
    type V = NodeView;

    closed spec fn view(&self) -> NodeView {
        NodeView {
            message_id: self.message_id,
            init: match self.init {
                Some(init) => Some(init@),
                None => None,
            },
        }
    }
}

impl Node {
    /// The id the next outbound envelope will carry; the counter only
    /// ever grows.
    pub fn message_id(&self) -> (id: usize)
        ensures
            id == self@.message_id,
    {
        self.message_id
    }
}

impl Default for Node {
    /// A fresh node: the id counter starts at 1 and no identity is set.
    fn default() -> (node: Node)
        ensures
            node@.message_id == 1,
            node@.init is None,
    {
        Node { message_id: 1, init: None }
    }
}

/// The envelopes of `v`, seen mathematically and in order.
pub open spec fn msgs_view(v: Seq<Message>) -> Seq<MessageView> {
    v.map_values(|m: Message| m@)
}

pub proof fn lemma_msgs_view_push(v: Seq<Message>, m: Message)
    ensures
        msgs_view(v.push(m)) == msgs_view(v).push(m@),
{
    assert(msgs_view(v.push(m)) =~= msgs_view(v).push(m@));
}

/// Mathematical image of a [`MessageContext`]: the node state, the
/// envelopes written so far, and the source and id of the message being
/// handled.
pub ghost struct ContextView {
    pub node: NodeView,
    pub outbox: Seq<MessageView>,
    pub src: Seq<char>,
    pub in_reply_to: Option<usize>,
}

/// The envelope a context in state `c` produces for `reply(p)`: addressed
/// to the sender of the message being handled, correlated to that
/// message's id, carrying the next fresh id.
pub open spec fn reply_view(c: ContextView, p: PayloadView) -> MessageView
    recommends
        c.node.init is Some,
{
    MessageView {
        src: c.node.init->0.node_id,
        dst: c.src,
        body: BodyView { id: Some(c.node.message_id), in_reply_to: c.in_reply_to, payload: p },
    }
}

/// The envelope a context in state `c` produces for `send(dst, p)`:
/// unsolicited, so no correlation id.
pub open spec fn sent_view(c: ContextView, dst: Seq<char>, p: PayloadView) -> MessageView
    recommends
        c.node.init is Some,
{
    MessageView {
        src: c.node.init->0.node_id,
        dst: dst,
        body: BodyView { id: Some(c.node.message_id), in_reply_to: None, payload: p },
    }
}

/// The context state after a successful `reply(p)`.
pub open spec fn ctx_replied(c: ContextView, p: PayloadView) -> ContextView
    recommends
        c.node.init is Some,
        c.node.message_id < usize::MAX,
{
    ContextView {
        node: NodeView { message_id: (c.node.message_id + 1) as usize, init: c.node.init },
        outbox: c.outbox.push(reply_view(c, p)),
        src: c.src,
        in_reply_to: c.in_reply_to,
    }
}

/// The context state after a successful `send(dst, p)`.
pub open spec fn ctx_sent(c: ContextView, dst: Seq<char>, p: PayloadView) -> ContextView
    recommends
        c.node.init is Some,
        c.node.message_id < usize::MAX,
{
    ContextView {
        node: NodeView { message_id: (c.node.message_id + 1) as usize, init: c.node.init },
        outbox: c.outbox.push(sent_view(c, dst, p)),
        src: c.src,
        in_reply_to: c.in_reply_to,
    }
}

/// The context state after `initialize(init)`.
pub open spec fn ctx_initialized(c: ContextView, init: InitView) -> ContextView {
    ContextView {
        node: NodeView { message_id: c.node.message_id, init: Some(init) },
        outbox: c.outbox,
        src: c.src,
        in_reply_to: c.in_reply_to,
    }
}

/// The envelope discipline every handler step obeys, whatever the handler
/// does: the outbox only grows; each envelope appended while handling a
/// message carries a fresh id, the ids are consecutive, and the counter
/// advances by exactly the number of envelopes written; a correlation id,
/// when present, equals the id of the message being handled; and an
/// identity, once set, is never cleared.
pub open spec fn context_step_wf(pre: ContextView, post: ContextView) -> bool {
    &&& post.src == pre.src
    &&& post.in_reply_to == pre.in_reply_to
    &&& pre.outbox.is_prefix_of(post.outbox)
    &&& post.node.message_id - pre.node.message_id == post.outbox.len() - pre.outbox.len()
    &&& (pre.node.init is Some ==> post.node.init is Some)
    &&& forall|j: int|
        pre.outbox.len() <= j < post.outbox.len() ==> {
            let m = #[trigger] post.outbox[j];
            &&& m.body.id == Some((pre.node.message_id + j - pre.outbox.len()) as usize)
            &&& (m.body.in_reply_to is None || m.body.in_reply_to == pre.in_reply_to)
        }
}

pub proof fn lemma_step_wf_refl(c: ContextView)
    ensures
        context_step_wf(c, c),
{
    assert(c.outbox.is_prefix_of(c.outbox)) by {
        assert(c.outbox =~= c.outbox.subrange(0, c.outbox.len() as int));
    }
}

pub proof fn lemma_step_wf_trans(a: ContextView, b: ContextView, c: ContextView)
    requires
        context_step_wf(a, b),
        context_step_wf(b, c),
    ensures
        context_step_wf(a, c),
{
    assert(a.outbox.is_prefix_of(c.outbox)) by {
        assert(a.outbox =~= c.outbox.subrange(0, a.outbox.len() as int));
    }
    assert forall|j: int| a.outbox.len() <= j < c.outbox.len() implies {
        let m = #[trigger] c.outbox[j];
        &&& m.body.id == Some((a.node.message_id + j - a.outbox.len()) as usize)
        &&& (m.body.in_reply_to is None || m.body.in_reply_to == a.in_reply_to)
    } by {
        if j < b.outbox.len() {
            assert(b.outbox[j] == b.outbox.subrange(0, b.outbox.len() as int)[j]);
            assert(c.outbox[j] == b.outbox[j]);
        }
    }
}

pub proof fn lemma_ctx_replied_wf(c: ContextView, p: PayloadView)
    requires
        c.node.init is Some,
        c.node.message_id < usize::MAX,
    ensures
        context_step_wf(c, ctx_replied(c, p)),
{
    let post = ctx_replied(c, p);
    assert(c.outbox.is_prefix_of(post.outbox)) by {
        assert(c.outbox =~= post.outbox.subrange(0, c.outbox.len() as int));
    }
}

pub proof fn lemma_ctx_sent_wf(c: ContextView, dst: Seq<char>, p: PayloadView)
    requires
        c.node.init is Some,
        c.node.message_id < usize::MAX,
    ensures
        context_step_wf(c, ctx_sent(c, dst, p)),
{
    let post = ctx_sent(c, dst, p);
    assert(c.outbox.is_prefix_of(post.outbox)) by {
        assert(c.outbox =~= post.outbox.subrange(0, c.outbox.len() as int));
    }
}

pub proof fn lemma_ctx_initialized_wf(c: ContextView, init: InitView)
    ensures
        context_step_wf(c, ctx_initialized(c, init)),
{
    assert(c.outbox.is_prefix_of(ctx_initialized(c, init).outbox)) by {
        assert(c.outbox =~= c.outbox.subrange(0, c.outbox.len() as int));
    }
}

/// A per-incoming-message capability object bound to the node state and an
/// outbox.  Handlers may only produce outbound envelopes through `reply`
/// and `send`, which allocate fresh ids; the runtime moves the node in for
/// one message and takes it back, with the envelopes to write, through
/// `into_parts`.
pub struct MessageContext {
    node: Node,
    outbox: Vec<Message>,
    src: String,
    in_reply_to: Option<usize>,
}

impl View for MessageContext {
    type V = ContextView;

    closed spec fn view(&self) -> ContextView {
        ContextView {
            node: self.node@,
            outbox: msgs_view(self.outbox@),
            src: self.src@,
            in_reply_to: self.in_reply_to,
        }
    }
}

impl MessageContext {
    /// Bind the node state to one incoming envelope: remember its source
    /// (the reply destination) and its id (the correlation id of replies).
    pub fn new(node: Node, message: &Message) -> (ctx: MessageContext)
        ensures
            ctx@.node == node@,
            ctx@.outbox == Seq::<MessageView>::empty(),
            ctx@.src == message@.src,
            ctx@.in_reply_to == message@.body.id,
    {
        let ctx = MessageContext {
            node,
            outbox: Vec::new(),
            src: message.src.clone(),
            in_reply_to: message.body.id,
        };
        proof {
            assert(ctx@.outbox =~= Seq::<MessageView>::empty());
        }
        ctx
    }

    /// Allocate the next message id: strictly increasing, never reused.
    fn next_id(&mut self) -> (id: usize)
        requires
            old(self)@.node.message_id < usize::MAX,
        ensures
            id == old(self)@.node.message_id,
            final(self)@.node.message_id == old(self)@.node.message_id + 1,
            final(self)@.node.init == old(self)@.node.init,
            final(self)@.outbox == old(self)@.outbox,
            final(self)@.src == old(self)@.src,
            final(self)@.in_reply_to == old(self)@.in_reply_to,
    {
        let id = self.node.message_id;
        self.node.message_id = self.node.message_id + 1;
        id
    }

    /// Answer the message being handled: the envelope goes to its sender,
    /// correlated to its id, under a fresh id.  Fails if, and only if, the
    /// node has no identity yet.
    pub fn reply(&mut self, payload: Payload) -> (r: Result<(), Error>)
        requires
            old(self)@.node.message_id < usize::MAX,
        ensures
            match r {
                Ok(()) => {
                    &&& old(self)@.node.init is Some
                    &&& final(self)@ == ctx_replied(old(self)@, payload@)
                },
                Err(e) => {
                    &&& e == Error::Uninitialized
                    &&& old(self)@.node.init is None
                    &&& final(self)@ == old(self)@
                },
            },
    {
        let src = match &self.node.init {
            Some(init) => init.node_id.clone(),
            None => {
                return Err(Error::Uninitialized);
            },
        };
        let id = self.next_id();
        let dst = self.src.clone();
        let message = Message {
            src,
            dst,
            body: Body { id: Some(id), in_reply_to: self.in_reply_to, payload },
        };
        proof {
            lemma_msgs_view_push(self.outbox@, message);
        }
        self.outbox.push(message);
        Ok(())
    }

    /// Send an unsolicited envelope to `dst` under a fresh id, with no
    /// correlation id.  Fails if, and only if, the node has no identity
    /// yet.
    pub fn send(&mut self, dst: String, payload: Payload) -> (r: Result<(), Error>)
        requires
            old(self)@.node.message_id < usize::MAX,
        ensures
            match r {
                Ok(()) => {
                    &&& old(self)@.node.init is Some
                    &&& final(self)@ == ctx_sent(old(self)@, dst@, payload@)
                },
                Err(e) => {
                    &&& e == Error::Uninitialized
                    &&& old(self)@.node.init is None
                    &&& final(self)@ == old(self)@
                },
            },
    {
        let src = match &self.node.init {
            Some(init) => init.node_id.clone(),
            None => {
                return Err(Error::Uninitialized);
            },
        };
        let id = self.next_id();
        let message = Message {
            src,
            dst,
            body: Body { id: Some(id), in_reply_to: None, payload },
        };
        proof {
            lemma_msgs_view_push(self.outbox@, message);
        }
        self.outbox.push(message);
        Ok(())
    }

    /// Set the node's identity.  The first call is the one-time transition
    /// out of the uninitialized state; a repeat call overwrites (last
    /// write wins), which callers must not rely on.
    pub fn initialize(&mut self, init: Init)
        ensures
            final(self)@ == ctx_initialized(old(self)@, init@),
    {
        self.node.init = Some(init);
    }

    /// The id the next outbound envelope will carry.
    pub fn message_id(&self) -> (id: usize)
        ensures
            id == self@.node.message_id,
    {
        self.node.message_id
    }

    /// The initialization record, or the failure owed before it is set.
    pub fn init(&self) -> (r: Result<&Init, Error>)
        ensures
            match r {
                Ok(init) => self@.node.init == Some(init@),
                Err(e) => e == Error::Uninitialized && self@.node.init is None,
            },
    {
        match &self.node.init {
            Some(init) => Ok(init),
            None => Err(Error::Uninitialized),
        }
    }

    /// Release the node state and the envelopes produced, in the order
    /// they were produced.
    pub fn into_parts(self) -> (r: (Node, Vec<Message>))
        ensures
            r.0@ == self@.node,
            msgs_view(r.1@) == self@.outbox,
    {
        (self.node, self.outbox)
    }
}

} // verus!
