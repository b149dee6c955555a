//! The protocol's laws, stated over the handlers' own specifications.
//!
//! Each proof function here is a statement about every input; the
//! scenario-sized counterparts live in the crate's tests.

use vstd::prelude::*;
use vstd::seq_lib::*;
use crate::broadcast::{broadcast_post, ctx_flood_sent, BroadcastView};
use crate::envelope::{MessageView, PayloadView};
use crate::node::{ctx_replied, reply_view, sent_view, ContextView, Error};
use crate::value_set::lemma_to_set_push;

verus! {

/// Every reply correlates to the message being handled: the envelope
/// `reply(p)` produces goes back to that message's sender and carries its
/// id as the correlation id, under the next fresh id.
pub proof fn lemma_reply_correlates(c: ContextView, p: PayloadView)
    ensures
        reply_view(c, p).body.in_reply_to == c.in_reply_to,
        reply_view(c, p).dst == c.src,
        reply_view(c, p).body.id == Some(c.node.message_id),
{
}

/// Every send is unsolicited: the envelope `send(dst, p)` produces
/// carries no correlation id, under the next fresh id.
pub proof fn lemma_send_uncorrelated(c: ContextView, dst: Seq<char>, p: PayloadView)
    ensures
        sent_view(c, dst, p).body.in_reply_to is None,
        sent_view(c, dst, p).body.id == Some(c.node.message_id),
{
}

/// What a run of `broadcast` deliveries leaves in the value set, one
/// insert per delivered value, as `broadcast_post` prescribes for each.
pub open spec fn deliver_all(s0: Set<usize>, vs: Seq<usize>) -> Set<usize>
    decreases vs.len(),
{
    if vs.len() == 0 {
        s0
    } else {
        deliver_all(s0, vs.drop_last()).insert(vs.last())
    }
}

/// One successful `broadcast{v}` delivery adds exactly `v` to the value
/// set, whether or not it was already there.
pub proof fn lemma_broadcast_delivery_set(
    pre: BroadcastView,
    post: BroadcastView,
    m: MessageView,
    c0: ContextView,
    c1: ContextView,
    v: usize,
)
    requires
        broadcast_post(pre, post, m, c0, c1, Ok(())),
        m.body.payload == (PayloadView::Broadcast { message: v }),
    ensures
        post.messages == pre.messages.insert(v),
{
}

/// After any sequence of `broadcast` deliveries, the value set is the
/// starting set united with the set of distinct values delivered —
/// duplicates and delivery order make no difference.
pub proof fn lemma_deliver_all_is_union(s0: Set<usize>, vs: Seq<usize>)
    ensures
        deliver_all(s0, vs) == s0 + vs.to_set(),
    decreases vs.len(),
{
    if vs.len() == 0 {
        assert(deliver_all(s0, vs) =~= s0 + vs.to_set());
    } else {
        lemma_deliver_all_is_union(s0, vs.drop_last());
        assert(vs.drop_last().push(vs.last()) =~= vs);
        lemma_to_set_push(vs.drop_last(), vs.last());
        assert(deliver_all(s0, vs) =~= s0 + vs.to_set());
    }
}

/// Two delivery orders of the same multiset of values — any reordering,
/// with any duplicates — leave the value set identical.
pub proof fn lemma_deliver_all_order_insensitive(s0: Set<usize>, vs1: Seq<usize>, vs2: Seq<usize>)
    requires
        vs1.to_multiset() == vs2.to_multiset(),
    ensures
        deliver_all(s0, vs1) == deliver_all(s0, vs2),
{
    lemma_deliver_all_is_union(s0, vs1);
    lemma_deliver_all_is_union(s0, vs2);
    assert(vs1.to_set() =~= vs2.to_set()) by {
        assert forall|x: usize| vs1.contains(x) <==> vs2.contains(x) by {
            to_multiset_contains(vs1, x);
            to_multiset_contains(vs2, x);
        }
    }
}

/// Merging a subset — itself included — changes nothing: gossip is
/// idempotent under duplication and redelivery.
pub proof fn lemma_merge_subset_noop(s: Set<usize>, t: Set<usize>)
    requires
        t.subset_of(s),
    ensures
        s + t == s,
{
    assert(s + t =~= s);
}

/// One successful `gossip` delivery merges exactly the pushed values.
pub proof fn lemma_gossip_delivery_set(
    pre: BroadcastView,
    post: BroadcastView,
    m: MessageView,
    c0: ContextView,
    c1: ContextView,
    r: Result<(), Error>,
    vs: Seq<usize>,
)
    requires
        broadcast_post(pre, post, m, c0, c1, r),
        m.body.payload == (PayloadView::Gossip { messages: vs }) || m.body.payload
            == (PayloadView::GossipOk { messages: vs }),
    ensures
        post.messages == pre.messages + vs.to_set(),
{
}

/// Gossip convergence for one full exchange: A pushes its whole set to B,
/// B merges and answers with its merged set, A merges the answer.  Both
/// value sets then equal the union of what either node ever held, and
/// repeating the exchange — in any order, with any duplication — changes
/// nothing more.
pub proof fn lemma_gossip_round_trip(
    a_pre: Set<usize>,
    a_post: Set<usize>,
    b_pre: Set<usize>,
    b_post: Set<usize>,
    push: Seq<usize>,
    echo: Seq<usize>,
)
    requires
        push.to_set() == a_pre,
        b_post == b_pre + push.to_set(),
        echo.to_set() == b_post,
        a_post == a_pre + echo.to_set(),
    ensures
        a_post == a_pre + b_pre,
        b_post == a_pre + b_pre,
        a_post == b_post,
{
    assert(b_post =~= a_pre + b_pre);
    assert(a_post =~= a_pre + b_pre);
}

/// The state of a node after it inserts a delivered value.
pub open spec fn flood_deliver_state(b: BroadcastView, v: usize) -> BroadcastView {
    BroadcastView { neighbors: b.neighbors, messages: b.messages.insert(v) }
}

/// Whom a node forwards a delivered `broadcast{v}` to: every neighbor in
/// its topology entry except the immediate sender — and nobody at all
/// when it has already seen `v`, so a node forwards a value at most once
/// per neighbor.
pub open spec fn flood_forward_targets(b: BroadcastView, v: usize, sender: Seq<char>) -> Set<
    Seq<char>,
> {
    if b.messages.contains(v) || b.neighbors is None {
        Set::empty()
    } else {
        b.neighbors->0.to_set().remove(sender)
    }
}

/// A node that has already inserted a value never re-forwards it.
pub proof fn lemma_no_reforward(b: BroadcastView, v: usize, sender: Seq<char>)
    requires
        b.messages.contains(v),
    ensures
        flood_forward_targets(b, v, sender) == Set::<Seq<char>>::empty(),
{
}

/// Somewhere above position `lo`, the outbox holds an unsolicited send of
/// `p` to `dst`.
pub open spec fn outbox_has_send(c: ContextView, lo: int, dst: Seq<char>, p: PayloadView) -> bool {
    exists|j: int|
        {
            &&& lo <= j < c.outbox.len()
            &&& (#[trigger] c.outbox[j]).dst == dst
            &&& c.outbox[j].body.payload == p
            &&& c.outbox[j].body.in_reply_to is None
        }
}

/// The flood sweep reaches everybody it should: after sending `p` along
/// `ns` (skipping `except`), the outbox holds a send of `p` to every name
/// of `ns` other than `except`.
pub proof fn lemma_flood_sent_covers(
    c: ContextView,
    ns: Seq<Seq<char>>,
    except: Seq<char>,
    p: PayloadView,
)
    ensures
        ctx_flood_sent(c, ns, except, p).outbox.len() >= c.outbox.len(),
        forall|k: int|
            0 <= k < ns.len() && ns[k] != except ==> outbox_has_send(
                ctx_flood_sent(c, ns, except, p),
                c.outbox.len() as int,
                #[trigger] ns[k],
                p,
            ),
    decreases ns.len(),
{
    let lo = c.outbox.len() as int;
    let post = ctx_flood_sent(c, ns, except, p);
    if ns.len() == 0 {
    } else {
        let prefix = ns.drop_last();
        lemma_flood_sent_covers(c, prefix, except, p);
        let rest = ctx_flood_sent(c, prefix, except, p);
        assert forall|k: int| 0 <= k < ns.len() && ns[k] != except implies outbox_has_send(
            post,
            lo,
            #[trigger] ns[k],
            p,
        ) by {
            if k < prefix.len() {
                assert(prefix[k] == ns[k]);
                let j = choose|j: int|
                    {
                        &&& lo <= j < rest.outbox.len()
                        &&& (#[trigger] rest.outbox[j]).dst == ns[k]
                        &&& rest.outbox[j].body.payload == p
                        &&& rest.outbox[j].body.in_reply_to is None
                    };
                assert(post.outbox[j] == rest.outbox[j]);
            } else {
                assert(ns.last() == ns[k]);
                let j = rest.outbox.len() as int;
                assert(post.outbox[j] == sent_view(rest, ns.last(), p));
            }
        }
    }
}

proof fn lemma_flood_sent_keeps_binding(
    c: ContextView,
    ns: Seq<Seq<char>>,
    except: Seq<char>,
    p: PayloadView,
)
    ensures
        ctx_flood_sent(c, ns, except, p).src == c.src,
        ctx_flood_sent(c, ns, except, p).in_reply_to == c.in_reply_to,
    decreases ns.len(),
{
    if ns.len() == 0 {
    } else {
        lemma_flood_sent_keeps_binding(c, ns.drop_last(), except, p);
    }
}

/// What one successful `broadcast{v}` dispatch puts on the wire: an
/// unsolicited forward of `broadcast{v}` to every target the flood owes
/// one, and, last, the acknowledgement back to the sender, correlated to
/// the handled message.
pub proof fn lemma_flood_emits_forwards(
    pre: BroadcastView,
    post: BroadcastView,
    m: MessageView,
    c0: ContextView,
    c1: ContextView,
    v: usize,
)
    requires
        broadcast_post(pre, post, m, c0, c1, Ok(())),
        m.body.payload == (PayloadView::Broadcast { message: v }),
    ensures
        post.messages == pre.messages.insert(v),
        post.messages.contains(v),
        forall|d: Seq<char>|
            flood_forward_targets(pre, v, m.src).contains(d) ==> outbox_has_send(
                c1,
                c0.outbox.len() as int,
                d,
                PayloadView::Broadcast { message: v },
            ),
        c1.outbox.len() > c0.outbox.len(),
        c1.outbox.last().dst == c0.src,
        c1.outbox.last().body.payload == PayloadView::BroadcastOk,
        c1.outbox.last().body.in_reply_to == c0.in_reply_to,
{
    let lo = c0.outbox.len() as int;
    let p = PayloadView::Broadcast { message: v };
    if pre.messages.contains(v) {
        assert(c1 == ctx_replied(c0, PayloadView::BroadcastOk));
        assert(c1.outbox.last() == reply_view(c0, PayloadView::BroadcastOk));
    } else {
        let ns = pre.neighbors->0;
        let flooded = ctx_flood_sent(c0, ns, m.src, p);
        lemma_flood_sent_covers(c0, ns, m.src, p);
        lemma_flood_sent_keeps_binding(c0, ns, m.src, p);
        assert(c1 == ctx_replied(flooded, PayloadView::BroadcastOk));
        assert(c1.outbox.last() == reply_view(flooded, PayloadView::BroadcastOk));
        assert forall|d: Seq<char>|
            flood_forward_targets(pre, v, m.src).contains(d) implies outbox_has_send(
            c1,
            lo,
            d,
            p,
        ) by {
            assert(ns.to_set().contains(d));
            let k = choose|k: int| 0 <= k < ns.len() && #[trigger] ns[k] == d;
            assert(outbox_has_send(flooded, lo, d, p));
            let j = choose|j: int|
                {
                    &&& lo <= j < flooded.outbox.len()
                    &&& (#[trigger] flooded.outbox[j]).dst == d
                    &&& flooded.outbox[j].body.payload == p
                    &&& flooded.outbox[j].body.in_reply_to is None
                };
            assert(c1.outbox[j] == flooded.outbox[j]);
        }
    }
}

/// The sender a node on a flood path heard the value from: the injection
/// point for the first node, the previous node for every later one.
pub open spec fn flood_sender(path: Seq<Seq<char>>, origin: Seq<char>, i: int) -> Seq<char> {
    if i == 0 {
        origin
    } else {
        path[i - 1]
    }
}

/// A chain of first deliveries along a path: consecutive nodes are
/// topology neighbors, no hop goes straight back to where the value came
/// from, and no node on the path has seen the value yet.
pub open spec fn flood_path_ok(
    states: Seq<BroadcastView>,
    path: Seq<Seq<char>>,
    origin: Seq<char>,
    v: usize,
) -> bool {
    &&& states.len() == path.len()
    &&& forall|i: int|
        0 <= i < states.len() - 1 ==> {
            let b = #[trigger] states[i];
            &&& b.neighbors is Some
            &&& b.neighbors->0.contains(path[i + 1])
            &&& path[i + 1] != flood_sender(path, origin, i)
        }
    &&& forall|i: int| 0 <= i < states.len() ==> !(#[trigger] states[i]).messages.contains(v)
}

/// Flood convergence along a path: inject `v` at the first node of a
/// chain of neighbors and deliver each forwarded copy one hop onward;
/// then every node on the path ends up holding `v`, because each node
/// both keeps the value and owes the next node a forward.
pub proof fn lemma_flood_reaches_along_path(
    states: Seq<BroadcastView>,
    path: Seq<Seq<char>>,
    origin: Seq<char>,
    v: usize,
)
    requires
        flood_path_ok(states, path, origin, v),
    ensures
        forall|i: int|
            0 <= i < states.len() ==> (#[trigger] flood_deliver_state(
                states[i],
                v,
            )).messages.contains(v),
        forall|i: int|
            0 <= i < states.len() - 1 ==> (#[trigger] flood_forward_targets(
                states[i],
                v,
                flood_sender(path, origin, i),
            )).contains(path[i + 1]),
{
    assert forall|i: int| 0 <= i < states.len() - 1 implies (#[trigger] flood_forward_targets(
        states[i],
        v,
        flood_sender(path, origin, i),
    )).contains(path[i + 1]) by {
        let b = states[i];
        assert(b.neighbors->0.contains(path[i + 1]));
        assert(b.neighbors->0.to_set().contains(path[i + 1]));
    }
}

} // verus!
