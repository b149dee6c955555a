//! The runtime's decision step and its lifetime guarantees.
//!
//! The runtime proper reads envelopes from the input stream in arrival
//! order and writes the produced envelopes back out; both loops (the
//! single-threaded one and the generator variant that merges a periodic
//! trigger into the same stream) live outside the verified core and call
//! [`dispatch`] once per decoded envelope.  Everything the runtime decides
//! — binding a fresh context, dispatching to the handler, collecting the
//! envelopes to write — is here, together with the law that message ids
//! allocated across a whole run are consecutive, hence strictly
//! increasing with no repeats.

use vstd::prelude::*;
use vstd::string::StringExecFns;
use crate::envelope::{Body, Message, MessageView, Payload, PayloadView};
use crate::handlers::Handle;
use crate::node::{context_step_wf, msgs_view, ContextView, Error, MessageContext, Node, NodeView};

verus! {

/// The context the runtime binds for one incoming message, before the
/// handler has done anything.
pub open spec fn initial_ctx(node: NodeView, m: MessageView) -> ContextView {
    ContextView { node: node, outbox: Seq::empty(), src: m.src, in_reply_to: m.body.id }
}

/// One dispatch, seen at the node level: the counter advanced by exactly
/// the number of envelopes emitted, the emitted envelopes carry the
/// consecutive fresh ids, and an identity, once set, survives.
pub open spec fn node_step(pre: NodeView, post: NodeView, emitted: Seq<MessageView>) -> bool {
    &&& post.message_id - pre.message_id == emitted.len()
    &&& (pre.init is Some ==> post.init is Some)
    &&& forall|j: int|
        0 <= j < emitted.len() ==> (#[trigger] emitted[j]).body.id == Some(
            (pre.message_id + j) as usize,
        )
}

/// Dispatch one decoded envelope: bind a fresh context to it, run the
/// handler, and hand back the node, the envelopes to write in order, and
/// the handler's verdict.  Envelopes produced before a failure are still
/// handed back, as a streaming runtime would already have written them.
pub fn dispatch<H: Handle>(handler: &mut H, node: Node, message: Message) -> (res: (
    Node,
    Vec<Message>,
    Result<(), Error>,
))
    requires
        old(handler).inv(),
        node@.message_id + H::id_budget(*old(handler), message@) <= usize::MAX,
    ensures
        final(handler).inv(),
        ({
            let c0 = initial_ctx(node@, message@);
            let c1 = ContextView {
                node: res.0@,
                outbox: msgs_view(res.1@),
                src: message@.src,
                in_reply_to: message@.body.id,
            };
            &&& H::handle_post(*old(handler), *final(handler), message@, c0, c1, res.2)
            &&& context_step_wf(c0, c1)
        }),
        node_step(node@, res.0@, msgs_view(res.1@)),
{
    let mut context = MessageContext::new(node, &message);
    let ghost c0 = context@;
    let verdict = handler.handle(message, &mut context);
    let ghost c1 = context@;
    let (node_after, outbox) = context.into_parts();
    proof {
        assert(c0 == initial_ctx(node@, message@));
        assert(c1 == ContextView {
            node: node_after@,
            outbox: msgs_view(outbox@),
            src: message@.src,
            in_reply_to: message@.body.id,
        });
    }
    (node_after, outbox, verdict)
}

/// The synthetic self-addressed envelope that the generator variant of
/// the runtime feeds into the message stream on a fixed period: a trigger
/// signal, not application data, so it carries no id and no correlation.
pub fn gossip_trigger() -> (m: Message)
    ensures
        m@.body.payload == PayloadView::InitiateGossip,
        m@.body.id is None,
        m@.body.in_reply_to is None,
        m@.src == m@.dst,
{
    Message {
        src: String::from_str("internal"),
        dst: String::from_str("internal"),
        body: Body { id: None, in_reply_to: None, payload: Payload::InitiateGossip },
    }
}

/// A whole run of the node, seen at the node level: each dispatch chained
/// on the node state the previous one left.
pub open spec fn run_steps(n0: NodeView, steps: Seq<(NodeView, Seq<MessageView>)>) -> bool
    decreases steps.len(),
{
    if steps.len() == 0 {
        true
    } else {
        &&& node_step(n0, steps[0].0, steps[0].1)
        &&& run_steps(steps[0].0, steps.drop_first())
    }
}

/// Everything a run emitted, in order.
pub open spec fn run_emitted(steps: Seq<(NodeView, Seq<MessageView>)>) -> Seq<MessageView>
    decreases steps.len(),
{
    if steps.len() == 0 {
        Seq::empty()
    } else {
        steps[0].1 + run_emitted(steps.drop_first())
    }
}

/// The node state a run ends in.
pub open spec fn run_end(n0: NodeView, steps: Seq<(NodeView, Seq<MessageView>)>) -> NodeView {
    if steps.len() == 0 {
        n0
    } else {
        steps[steps.len() - 1].0
    }
}

/// Across a whole run, every emitted envelope carries an id, and the ids
/// are consecutive from the starting counter: the `j`-th envelope emitted
/// in the node's lifetime has id `n0.message_id + j`.
pub proof fn lemma_run_ids_consecutive(n0: NodeView, steps: Seq<(NodeView, Seq<MessageView>)>)
    requires
        run_steps(n0, steps),
    ensures
        run_emitted(steps).len() == run_end(n0, steps).message_id - n0.message_id,
        forall|j: int|
            0 <= j < run_emitted(steps).len() ==> (#[trigger] run_emitted(steps)[j]).body.id
                == Some((n0.message_id + j) as usize),
    decreases steps.len(),
{
    if steps.len() == 0 {
    } else {
        let rest = steps.drop_first();
        let n1 = steps[0].0;
        lemma_run_ids_consecutive(n1, rest);
        assert(run_end(n0, steps) == run_end(n1, rest));
        let e0 = steps[0].1;
        let e = run_emitted(steps);
        assert(e == e0 + run_emitted(rest));
        assert forall|j: int| 0 <= j < e.len() implies (#[trigger] e[j]).body.id == Some(
            (n0.message_id + j) as usize,
        ) by {
            if j < e0.len() {
                assert(e[j] == e0[j]);
            } else {
                assert(e[j] == run_emitted(rest)[j - e0.len()]);
            }
        }
    }
}

/// Message ids allocated by a single node are strictly increasing, with
/// no repeats, across the node's lifetime, whichever of `reply` and
/// `send` allocated them.
pub proof fn lemma_run_ids_strictly_increasing(
    n0: NodeView,
    steps: Seq<(NodeView, Seq<MessageView>)>,
)
    requires
        run_steps(n0, steps),
    ensures
        forall|j: int, k: int|
            0 <= j < k < run_emitted(steps).len() ==> {
                &&& (#[trigger] run_emitted(steps)[j]).body.id is Some
                &&& (#[trigger] run_emitted(steps)[k]).body.id is Some
                &&& run_emitted(steps)[j].body.id->0 < run_emitted(steps)[k].body.id->0
            },
{
    lemma_run_ids_consecutive(n0, steps);
}

} // verus!
