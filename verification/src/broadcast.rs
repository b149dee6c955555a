//! The value-dissemination protocol: topology flooding and anti-entropy
//! gossip over a set of observed values.
//!
//! On a `broadcast` carrying a value not seen before, the node records the
//! value and forwards it unsolicited to every neighbor in its topology
//! entry except the immediate sender, then acknowledges the sender; a
//! value already seen is acknowledged without re-forwarding, so each node
//! forwards a value at most once per neighbor.  Independently, each
//! `initiate_gossip` trigger pushes the whole current value set to every
//! neighbor; a `gossip` push merges the incoming set and answers with the
//! receiver's merged set, whose arrival merges symmetrically.

use vstd::prelude::*;
use vstd::seq_lib::*;
use crate::envelope::{Body, Message, MessageView, Payload, PayloadView};
use crate::handlers::Handle;
use crate::node::{
    ctx_initialized, ctx_replied, ctx_sent, context_step_wf, lemma_ctx_initialized_wf,
    lemma_ctx_replied_wf, lemma_ctx_sent_wf, lemma_step_wf_refl, lemma_step_wf_trans, ContextView,
    Error, MessageContext,
};
use crate::value_set::ValueSet;

verus! {

/// The neighbor list that a topology assigns to `key`: the list of the
/// first entry for `key`, if any.
pub open spec fn topology_lookup(
    t: Seq<(Seq<char>, Seq<Seq<char>>)>,
    key: Seq<char>,
) -> Option<Seq<Seq<char>>>
    decreases t.len(),
{
    if t.len() == 0 {
        None
    } else if t[0].0 == key {
        Some(t[0].1)
    } else {
        topology_lookup(t.drop_first(), key)
    }
}

/// The context state after sending `p` to every name of `ns` in order,
/// skipping every occurrence of `except`.
pub open spec fn ctx_flood_sent(
    c: ContextView,
    ns: Seq<Seq<char>>,
    except: Seq<char>,
    p: PayloadView,
) -> ContextView
    decreases ns.len(),
{
    if ns.len() == 0 {
        c
    } else {
        let rest = ctx_flood_sent(c, ns.drop_last(), except, p);
        if ns.last() == except {
            rest
        } else {
            ctx_sent(rest, ns.last(), p)
        }
    }
}

/// The context state after sending `p` to every name of `ns` in order.
pub open spec fn ctx_sent_all(c: ContextView, ns: Seq<Seq<char>>, p: PayloadView) -> ContextView
    decreases ns.len(),
{
    if ns.len() == 0 {
        c
    } else {
        ctx_sent(ctx_sent_all(c, ns.drop_last(), p), ns.last(), p)
    }
}

pub proof fn lemma_ctx_flood_sent_facts(
    c: ContextView,
    ns: Seq<Seq<char>>,
    except: Seq<char>,
    p: PayloadView,
)
    requires
        c.node.init is Some,
        c.node.message_id + ns.len() <= usize::MAX,
    ensures
        context_step_wf(c, ctx_flood_sent(c, ns, except, p)),
        ctx_flood_sent(c, ns, except, p).node.init == c.node.init,
        c.node.message_id <= ctx_flood_sent(c, ns, except, p).node.message_id
            <= c.node.message_id + ns.len(),
    decreases ns.len(),
{
    if ns.len() == 0 {
        lemma_step_wf_refl(c);
    } else {
        lemma_ctx_flood_sent_facts(c, ns.drop_last(), except, p);
        let rest = ctx_flood_sent(c, ns.drop_last(), except, p);
        if ns.last() == except {
        } else {
            lemma_ctx_sent_wf(rest, ns.last(), p);
            lemma_step_wf_trans(c, rest, ctx_sent(rest, ns.last(), p));
        }
    }
}

pub proof fn lemma_ctx_sent_all_facts(c: ContextView, ns: Seq<Seq<char>>, p: PayloadView)
    requires
        c.node.init is Some,
        c.node.message_id + ns.len() <= usize::MAX,
    ensures
        context_step_wf(c, ctx_sent_all(c, ns, p)),
        ctx_sent_all(c, ns, p).node.init == c.node.init,
        ctx_sent_all(c, ns, p).node.message_id == c.node.message_id + ns.len(),
    decreases ns.len(),
{
    if ns.len() == 0 {
        lemma_step_wf_refl(c);
    } else {
        lemma_ctx_sent_all_facts(c, ns.drop_last(), p);
        let rest = ctx_sent_all(c, ns.drop_last(), p);
        lemma_ctx_sent_wf(rest, ns.last(), p);
        lemma_step_wf_trans(c, rest, ctx_sent(rest, ns.last(), p));
    }
}

/// The flood-and-gossip handler's state: the neighbor list taken from the
/// most recent topology message, and the values observed so far.
pub struct Broadcast {
    neighbors: Option<Vec<String>>,
    messages: ValueSet,
}

/// Mathematical image of a [`Broadcast`] handler.
pub ghost struct BroadcastView {
    pub neighbors: Option<Seq<Seq<char>>>,
    pub messages: Set<usize>,
}

impl View for Broadcast {
    type V = BroadcastView;

    closed spec fn view(&self) -> BroadcastView {
        BroadcastView {
            neighbors: match &self.neighbors {
                Some(ns) => Some(ns.deep_view()),
                None => None,
            },
            messages: self.messages@,
        }
    }
}

/// The neighbor count of a handler state, as the id budget counts it.
pub open spec fn neighbor_len(b: BroadcastView) -> int {
    match b.neighbors {
        Some(ns) => ns.len() as int,
        None => 0,
    }
}

/// The exact meaning of one dispatch to the flood-and-gossip handler, for
/// every payload: how the value set and the neighbor list change, which
/// envelopes leave, and when the dispatch fails.
pub open spec fn broadcast_post(
    pre: BroadcastView,
    post: BroadcastView,
    m: MessageView,
    c0: ContextView,
    c1: ContextView,
    r: Result<(), Error>,
) -> bool {
    match m.body.payload {
        PayloadView::Init(init) => {
            &&& r is Ok
            &&& post == pre
            &&& c1 == ctx_replied(ctx_initialized(c0, init), PayloadView::InitOk)
        },
        PayloadView::Topology { topology } => match r {
            Ok(()) => {
                &&& c0.node.init is Some
                &&& post == (BroadcastView {
                    neighbors: topology_lookup(topology, c0.node.init->0.node_id),
                    messages: pre.messages,
                })
                &&& c1 == ctx_replied(c0, PayloadView::TopologyOk)
            },
            Err(e) => {
                &&& e == Error::Uninitialized
                &&& c0.node.init is None
                &&& post == pre
                &&& c1 == c0
            },
        },
        PayloadView::Broadcast { message } => match r {
            Ok(()) => {
                &&& c0.node.init is Some
                &&& post.neighbors == pre.neighbors
                &&& post.messages == pre.messages.insert(message)
                &&& if pre.messages.contains(message) {
                    c1 == ctx_replied(c0, PayloadView::BroadcastOk)
                } else {
                    &&& pre.neighbors is Some
                    &&& c1 == ctx_replied(
                        ctx_flood_sent(
                            c0,
                            pre.neighbors->0,
                            m.src,
                            PayloadView::Broadcast { message },
                        ),
                        PayloadView::BroadcastOk,
                    )
                }
            },
            Err(e) => {
                &&& post == pre
                &&& c1 == c0
                &&& ((e == Error::Uninitialized && c0.node.init is None) || (e
                    == Error::TopologyUnset && c0.node.init is Some && pre.neighbors is None
                    && !pre.messages.contains(message)))
            },
        },
        PayloadView::Read => match r {
            Ok(()) => {
                &&& c0.node.init is Some
                &&& post == pre
                &&& exists|ms: Seq<usize>|
                    {
                        &&& #[trigger] ms.to_set() == pre.messages
                        &&& ms.no_duplicates()
                        &&& c1 == ctx_replied(c0, PayloadView::ReadOk { messages: ms })
                    }
            },
            Err(e) => {
                &&& e == Error::Uninitialized
                &&& c0.node.init is None
                &&& post == pre
                &&& c1 == c0
            },
        },
        PayloadView::InitiateGossip => {
            &&& post == pre
            &&& match pre.neighbors {
                None => r is Ok && c1 == c0,
                Some(ns) => {
                    if c0.node.init is Some {
                        &&& r is Ok
                        &&& exists|ms: Seq<usize>|
                            {
                                &&& #[trigger] ms.to_set() == pre.messages
                                &&& ms.no_duplicates()
                                &&& c1 == ctx_sent_all(
                                    c0,
                                    ns,
                                    PayloadView::Gossip { messages: ms },
                                )
                            }
                    } else {
                        &&& r == Err::<(), Error>(Error::Uninitialized)
                        &&& c1 == c0
                    }
                },
            }
        },
        PayloadView::Gossip { messages } => {
            &&& post.neighbors == pre.neighbors
            &&& post.messages == pre.messages + messages.to_set()
            &&& match r {
                Ok(()) => {
                    &&& c0.node.init is Some
                    &&& exists|ms: Seq<usize>|
                        {
                            &&& #[trigger] ms.to_set() == post.messages
                            &&& ms.no_duplicates()
                            &&& c1 == ctx_replied(c0, PayloadView::GossipOk { messages: ms })
                        }
                },
                Err(e) => {
                    &&& e == Error::Uninitialized
                    &&& c0.node.init is None
                    &&& c1 == c0
                },
            }
        },
        PayloadView::GossipOk { messages } => {
            &&& r is Ok
            &&& post.neighbors == pre.neighbors
            &&& post.messages == pre.messages + messages.to_set()
            &&& c1 == c0
        },
        _ => r is Ok && post == pre && c1 == c0,
    }
}

/// A copy of a list of names, name for name.
fn clone_names(v: &Vec<String>) -> (r: Vec<String>)
    ensures
        r@ == v@,
{
    let n = v.len();
    let mut r: Vec<String> = Vec::new();
    let mut i: usize = 0;
    while i < n
        invariant
            n == v.len(),
            i <= n,
            r@ == v@.subrange(0, i as int),
        decreases n - i,
    {
        r.push(v[i].clone());
        proof {
            assert(r@ =~= v@.subrange(0, i + 1 as int));
        }
        i = i + 1;
    }
    proof {
        assert(r@ =~= v@);
    }
    r
}

/// A copy of a list of values, value for value.
fn clone_values(v: &Vec<usize>) -> (r: Vec<usize>)
    ensures
        r@ == v@,
{
    let n = v.len();
    let mut r: Vec<usize> = Vec::new();
    let mut i: usize = 0;
    while i < n
        invariant
            n == v.len(),
            i <= n,
            r@ == v@.subrange(0, i as int),
        decreases n - i,
    {
        r.push(v[i]);
        proof {
            assert(r@ =~= v@.subrange(0, i + 1 as int));
        }
        i = i + 1;
    }
    proof {
        assert(r@ =~= v@);
    }
    r
}

/// Take the neighbor list that `topology` assigns to `key`, if any.
fn topology_take(topology: Vec<(String, Vec<String>)>, key: &String) -> (r: Option<Vec<String>>)
    ensures
        match r {
            Some(ns) => topology_lookup(topology.deep_view(), key@) == Some(ns.deep_view()),
            None => topology_lookup(topology.deep_view(), key@) is None,
        },
{
    let ghost t = topology.deep_view();
    let mut rest = topology;
    let mut i: usize = 0;
    let n = rest.len();
    proof {
        assert(t.skip(0) =~= t);
    }
    while i < n
        invariant
            n == rest.len(),
            i <= n,
            t == topology.deep_view(),
            rest.deep_view() == t,
            topology_lookup(t, key@) == topology_lookup(t.skip(i as int), key@),
        decreases n - i,
    {
        proof {
            assert(t.skip(i as int)[0] == t[i as int]);
        }
        if rest[i].0 == *key {
            proof {
                assert(t[i as int] == rest@[i as int].deep_view());
                assert(t.skip(i as int).len() > 0);
                assert(t.skip(i as int)[0].0 == key@);
                assert(topology_lookup(t.skip(i as int), key@) == Some(t[i as int].1));
            }
            let entry = rest.remove(i);
            proof {
                assert(entry.1.deep_view() == t[i as int].1);
            }
            return Some(entry.1);
        }
        proof {
            assert(t[i as int] == rest@[i as int].deep_view());
            assert(t.skip(i as int)[0].0 != key@);
        }
        proof {
            assert(t.skip(i as int).drop_first() =~= t.skip(i + 1 as int));
        }
        i = i + 1;
    }
    proof {
        assert(t.skip(n as int).len() == 0);
    }
    None
}

impl Broadcast {
    /// A fresh dissemination handler: no topology yet, nothing observed.
    pub fn new() -> (b: Broadcast)
        ensures
            b@.neighbors is None,
            b@.messages == Set::<usize>::empty(),
            b.inv(),
    {
        Broadcast { neighbors: None, messages: ValueSet::new() }
    }

    /// How many neighbors the current topology entry names.
    pub fn neighbor_count(&self) -> (n: usize)
        ensures
            n == neighbor_len(self@),
    {
        match &self.neighbors {
            Some(ns) => ns.len(),
            None => 0,
        }
    }

    /// Whether `v` is in the node's value set.
    pub fn has_message(&self, v: usize) -> (r: bool)
        ensures
            r == self@.messages.contains(v),
    {
        self.messages.contains(v)
    }
}

impl Default for Broadcast {
    /// A fresh dissemination handler, as [`Broadcast::new`] builds it.
    fn default() -> (b: Broadcast)
        ensures
            b@.neighbors is None,
            b@.messages == Set::<usize>::empty(),
            b.inv(),
    {
        Broadcast::new()
    }
}

impl Handle for Broadcast {
    open spec fn id_budget(pre: Broadcast, m: MessageView) -> int {
        match m.body.payload {
            PayloadView::Init(_) => 1,
            PayloadView::Topology { .. } => 1,
            PayloadView::Broadcast { .. } => 1 + neighbor_len(pre@),
            PayloadView::Read => 1,
            PayloadView::InitiateGossip => neighbor_len(pre@),
            PayloadView::Gossip { .. } => 1,
            _ => 0,
        }
    }

    closed spec fn inv(&self) -> bool {
        self.messages.wf()
    }

    open spec fn handle_post(
        pre: Broadcast,
        post: Broadcast,
        m: MessageView,
        pre_ctx: ContextView,
        post_ctx: ContextView,
        r: Result<(), Error>,
    ) -> bool {
        broadcast_post(pre@, post@, m, pre_ctx, post_ctx, r)
    }

    fn handle(&mut self, message: Message, context: &mut MessageContext) -> (r: Result<(), Error>) {
        let ghost c0 = context@;
        let Message { src: m_src, dst: _, body: Body { id: _, in_reply_to: _, payload } } = message;
        match payload {
            Payload::Init(init) => {
                context.initialize(init);
                let r = context.reply(Payload::InitOk);
                proof {
                    lemma_ctx_initialized_wf(c0, init@);
                    lemma_ctx_replied_wf(ctx_initialized(c0, init@), PayloadView::InitOk);
                    lemma_step_wf_trans(c0, ctx_initialized(c0, init@), context@);
                }
                r
            },
            Payload::Topology { topology } => {
                let own_id = match context.init() {
                    Ok(init) => init.node_id.clone(),
                    Err(e) => {
                        proof {
                            lemma_step_wf_refl(c0);
                        }
                        return Err(e);
                    },
                };
                let ns = topology_take(topology, &own_id);
                self.neighbors = ns;
                let r = context.reply(Payload::TopologyOk);
                proof {
                    lemma_ctx_replied_wf(c0, PayloadView::TopologyOk);
                }
                r
            },
            Payload::Broadcast { message: value } => {
                match context.init() {
                    Ok(_) => {},
                    Err(e) => {
                        proof {
                            lemma_step_wf_refl(c0);
                        }
                        return Err(e);
                    },
                };
                if self.messages.contains(value) {
                    self.messages.insert(value);
                    let r = context.reply(Payload::BroadcastOk);
                    proof {
                        lemma_ctx_replied_wf(c0, PayloadView::BroadcastOk);
                    }
                    r
                } else {
                    let ns = match &self.neighbors {
                        Some(ns) => clone_names(ns),
                        None => {
                            proof {
                                lemma_step_wf_refl(c0);
                            }
                            return Err(Error::TopologyUnset);
                        },
                    };
                    self.messages.insert(value);
                    let ghost nsv = ns.deep_view();
                    let ghost sender = m_src@;
                    let ghost pv = PayloadView::Broadcast { message: value };
                    let n = ns.len();
                    let mut i: usize = 0;
                    while i < n
                        invariant
                            n == ns.len(),
                            i <= n,
                            nsv == ns.deep_view(),
                            sender == m_src@,
                            pv == (PayloadView::Broadcast { message: value }),
                            context@ == ctx_flood_sent(c0, nsv.subrange(0, i as int), sender, pv),
                            c0.node.init is Some,
                            c0.node.message_id + 1 + nsv.len() <= usize::MAX,
                        decreases n - i,
                    {
                        proof {
                            lemma_ctx_flood_sent_facts(c0, nsv.subrange(0, i as int), sender, pv);
                            assert(nsv.subrange(0, i + 1 as int).drop_last() =~= nsv.subrange(
                                0,
                                i as int,
                            ));
                            assert(nsv.subrange(0, i + 1 as int).last() == nsv[i as int]);
                            assert(nsv[i as int] == ns@[i as int]@);
                        }
                        if ns[i] == m_src {
                            proof {
                                assert(nsv[i as int] == sender);
                                assert(context@ == ctx_flood_sent(
                                    c0,
                                    nsv.subrange(0, i + 1 as int),
                                    sender,
                                    pv,
                                ));
                            }
                        } else {
                            let dst = ns[i].clone();
                            match context.send(dst, Payload::Broadcast { message: value }) {
                                Ok(()) => {},
                                Err(_) => {
                                    proof {
                                        assert(false);
                                    }
                                    return Err(Error::Uninitialized);
                                },
                            }
                            proof {
                                assert(nsv[i as int] != sender);
                                assert(context@ == ctx_flood_sent(
                                    c0,
                                    nsv.subrange(0, i + 1 as int),
                                    sender,
                                    pv,
                                ));
                            }
                        }
                        i = i + 1;
                    }
                    proof {
                        assert(nsv.subrange(0, n as int) =~= nsv);
                        lemma_ctx_flood_sent_facts(c0, nsv, sender, pv);
                    }
                    let r = context.reply(Payload::BroadcastOk);
                    match r {
                        Ok(()) => {},
                        Err(_) => {
                            proof {
                                assert(false);
                            }
                            return Err(Error::Uninitialized);
                        },
                    }
                    proof {
                        lemma_ctx_replied_wf(ctx_flood_sent(c0, nsv, sender, pv), PayloadView::BroadcastOk);
                        lemma_step_wf_trans(c0, ctx_flood_sent(c0, nsv, sender, pv), context@);
                    }
                    Ok(())
                }
            },
            Payload::Read => {
                let values = self.messages.to_vec();
                let r = context.reply(Payload::ReadOk { messages: values });
                proof {
                    if r is Ok {
                        lemma_ctx_replied_wf(
                            c0,
                            PayloadView::ReadOk { messages: values@ },
                        );
                    } else {
                        lemma_step_wf_refl(c0);
                    }
                }
                r
            },
            Payload::InitiateGossip => {
                let ns = match &self.neighbors {
                    Some(ns) => clone_names(ns),
                    None => {
                        proof {
                            lemma_step_wf_refl(c0);
                        }
                        return Ok(());
                    },
                };
                match context.init() {
                    Ok(_) => {},
                    Err(e) => {
                        proof {
                            lemma_step_wf_refl(c0);
                        }
                        return Err(e);
                    },
                };
                let values = self.messages.to_vec();
                let ghost msv = values@;
                let ghost nsv = ns.deep_view();
                let ghost pv = PayloadView::Gossip { messages: msv };
                let n = ns.len();
                let mut i: usize = 0;
                while i < n
                    invariant
                        n == ns.len(),
                        i <= n,
                        nsv == ns.deep_view(),
                        msv == values@,
                        pv == (PayloadView::Gossip { messages: msv }),
                        context@ == ctx_sent_all(c0, nsv.subrange(0, i as int), pv),
                        c0.node.init is Some,
                        c0.node.message_id + nsv.len() <= usize::MAX,
                    decreases n - i,
                {
                    proof {
                        lemma_ctx_sent_all_facts(c0, nsv.subrange(0, i as int), pv);
                        assert(nsv.subrange(0, i + 1 as int).drop_last() =~= nsv.subrange(
                            0,
                            i as int,
                        ));
                        assert(nsv.subrange(0, i + 1 as int).last() == nsv[i as int]);
                        assert(nsv[i as int] == ns@[i as int]@);
                    }
                    let dst = ns[i].clone();
                    let outgoing = clone_values(&values);
                    match context.send(dst, Payload::Gossip { messages: outgoing }) {
                        Ok(()) => {},
                        Err(_) => {
                            proof {
                                assert(false);
                            }
                            return Err(Error::Uninitialized);
                        },
                    }
                    proof {
                        assert(context@ == ctx_sent_all(c0, nsv.subrange(0, i + 1 as int), pv));
                    }
                    i = i + 1;
                }
                proof {
                    assert(nsv.subrange(0, n as int) =~= nsv);
                    lemma_ctx_sent_all_facts(c0, nsv, pv);
                }
                Ok(())
            },
            Payload::Gossip { messages } => {
                self.messages.merge(&messages);
                let merged = self.messages.to_vec();
                let r = context.reply(Payload::GossipOk { messages: merged });
                proof {
                    if r is Ok {
                        lemma_ctx_replied_wf(
                            c0,
                            PayloadView::GossipOk { messages: merged@ },
                        );
                    } else {
                        lemma_step_wf_refl(c0);
                    }
                }
                r
            },
            Payload::GossipOk { messages } => {
                self.messages.merge(&messages);
                proof {
                    lemma_step_wf_refl(c0);
                }
                Ok(())
            },
            _ => {
                proof {
                    lemma_step_wf_refl(c0);
                }
                Ok(())
            },
        }
    }
}

} // verus!
