use dist_sys::broadcast::Broadcast;
use dist_sys::envelope::{Body, Init, Message, Payload};
use dist_sys::node::{Error, Node};
use dist_sys::runtime::dispatch;
use dist_sys::value_set::ValueSet;

fn envelope(src: &str, dst: &str, id: Option<usize>, payload: Payload) -> Message {
    Message {
        src: src.to_string(),
        dst: dst.to_string(),
        body: Body { id, in_reply_to: None, payload },
    }
}

fn init_record(node_id: &str, peers: &[&str]) -> Init {
    Init {
        node_id: node_id.to_string(),
        node_ids: peers.iter().map(|s| s.to_string()).collect(),
    }
}

fn topology_of(entries: &[(&str, &[&str])]) -> Payload {
    Payload::Topology {
        topology: entries
            .iter()
            .map(|(k, vs)| (k.to_string(), vs.iter().map(|v| v.to_string()).collect()))
            .collect(),
    }
}

/// A node brought up to speed: initialized and, optionally, given a topology.
fn ready_node(own: &str, peers: &[&str], topology: Option<&[(&str, &[&str])]>) -> (Broadcast, Node) {
    let mut handler = Broadcast::new();
    let node = Node::default();
    let init = envelope("c0", own, Some(1), Payload::Init(init_record(own, peers)));
    let (mut node, _out, r) = dispatch(&mut handler, node, init);
    assert!(r.is_ok());
    if let Some(entries) = topology {
        let topo = envelope("c0", own, Some(2), topology_of(entries));
        let (node_after, out, r) = dispatch(&mut handler, node, topo);
        assert!(r.is_ok());
        assert!(matches!(out[0].body.payload, Payload::TopologyOk));
        node = node_after;
    }
    (handler, node)
}

fn read_values(handler: &mut Broadcast, node: Node) -> (Node, Vec<usize>) {
    let read = envelope("c9", "n?", Some(99), Payload::Read);
    let (node, out, r) = dispatch(handler, node, read);
    assert!(r.is_ok());
    match &out[0].body.payload {
        Payload::ReadOk { messages } => {
            let mut values = messages.clone();
            values.sort();
            (node, values)
        },
        other => panic!("expected read_ok, got {:?}", other),
    }
}

#[test]
fn broadcast_flood_forwards_to_neighbors_except_sender() {
    let (mut handler, node) =
        ready_node("n1", &["n1", "n2", "n3"], Some(&[("n1", &["n2"]), ("n2", &["n1"])]));

    let bcast = envelope("n3", "n1", Some(7), Payload::Broadcast { message: 5 });
    let (_node, out, r) = dispatch(&mut handler, node, bcast);
    assert!(r.is_ok());
    assert!(handler.has_message(5));

    assert_eq!(out.len(), 2);
    // the forward: unsolicited, to n2 only, never back to n3
    assert_eq!(out[0].dst, "n2");
    assert_eq!(out[0].body.in_reply_to, None);
    assert!(matches!(out[0].body.payload, Payload::Broadcast { message: 5 }));
    // the acknowledgement: back to the sender, correlated
    assert_eq!(out[1].dst, "n3");
    assert_eq!(out[1].body.in_reply_to, Some(7));
    assert!(matches!(out[1].body.payload, Payload::BroadcastOk));
}

#[test]
fn broadcast_seen_value_is_acknowledged_without_reforwarding() {
    let (mut handler, node) = ready_node("n1", &["n1", "n2"], Some(&[("n1", &["n2"])]));

    let first = envelope("n3", "n1", Some(7), Payload::Broadcast { message: 5 });
    let (node, _out, r) = dispatch(&mut handler, node, first);
    assert!(r.is_ok());

    let again = envelope("n4", "n1", Some(8), Payload::Broadcast { message: 5 });
    let (_node, out, r) = dispatch(&mut handler, node, again);
    assert!(r.is_ok());
    assert_eq!(out.len(), 1);
    assert_eq!(out[0].dst, "n4");
    assert!(matches!(out[0].body.payload, Payload::BroadcastOk));
}

#[test]
fn broadcast_new_value_without_topology_fails() {
    let (mut handler, node) = ready_node("n1", &["n1", "n2"], None);
    let bcast = envelope("n3", "n1", Some(7), Payload::Broadcast { message: 5 });
    let (_node, out, r) = dispatch(&mut handler, node, bcast);
    assert_eq!(r, Err(Error::TopologyUnset));
    assert_eq!(out.len(), 0);
    assert!(!handler.has_message(5));
}

#[test]
fn topology_without_own_entry_leaves_no_neighbors() {
    let (mut handler, node) = ready_node("n1", &["n1", "n2"], Some(&[("n2", &["n1"])]));
    assert_eq!(handler.neighbor_count(), 0);
    // forwarding a fresh value still fails: the topology named no neighbors for n1
    let bcast = envelope("n3", "n1", Some(7), Payload::Broadcast { message: 5 });
    let (_node, _out, r) = dispatch(&mut handler, node, bcast);
    assert_eq!(r, Err(Error::TopologyUnset));
}

#[test]
fn read_returns_distinct_values_regardless_of_delivery_order() {
    // the same multiset of deliveries in two different orders, duplicates included
    let orders: [&[usize]; 2] = [&[5, 7, 5, 3], &[3, 5, 7, 5]];
    let mut results = Vec::new();
    for order in orders.iter() {
        let (mut handler, mut node) = ready_node("n1", &["n1"], Some(&[("n1", &[])]));
        for (k, v) in order.iter().enumerate() {
            let bcast = envelope("c1", "n1", Some(10 + k), Payload::Broadcast { message: *v });
            let (node_after, _out, r) = dispatch(&mut handler, node, bcast);
            assert!(r.is_ok());
            node = node_after;
        }
        let (_node, values) = read_values(&mut handler, node);
        results.push(values);
    }
    assert_eq!(results[0], vec![3, 5, 7]);
    assert_eq!(results[0], results[1]);
}

#[test]
fn flood_reaches_every_node_along_a_chain() {
    // n1 - n2 - n3 in a line; the value enters at n1
    let (mut h1, n1) = ready_node("n1", &["n1", "n2", "n3"], Some(&[("n1", &["n2"])]));
    let (mut h2, n2) = ready_node("n2", &["n1", "n2", "n3"], Some(&[("n2", &["n1", "n3"])]));
    let (mut h3, n3) = ready_node("n3", &["n1", "n2", "n3"], Some(&[("n3", &["n2"])]));

    let inject = envelope("c0", "n1", Some(5), Payload::Broadcast { message: 42 });
    let (_n1, out1, r) = dispatch(&mut h1, n1, inject);
    assert!(r.is_ok());
    let forward_to_n2 = out1.into_iter().find(|m| m.dst == "n2").expect("n1 forwards to n2");

    let (_n2, out2, r) = dispatch(&mut h2, n2, forward_to_n2);
    assert!(r.is_ok());
    // n2 forwards onward to n3 but never back to n1
    assert!(out2.iter().any(
        |m| m.dst == "n3" && matches!(m.body.payload, Payload::Broadcast { message: 42 })
    ));
    assert!(!out2.iter().any(
        |m| m.dst == "n1" && matches!(m.body.payload, Payload::Broadcast { message: 42 })
    ));
    let forward_to_n3 = out2.into_iter().find(|m| m.dst == "n3").expect("n2 forwards to n3");

    let (_n3, out3, r) = dispatch(&mut h3, n3, forward_to_n3);
    assert!(r.is_ok());
    // n3's only neighbor is the sender: nothing is forwarded further
    assert!(!out3.iter().any(|m| matches!(m.body.payload, Payload::Broadcast { .. })));

    assert!(h1.has_message(42));
    assert!(h2.has_message(42));
    assert!(h3.has_message(42));
}

#[test]
fn gossip_round_trip_converges_to_the_union() {
    let (mut ha, mut na) = ready_node("a", &["a", "b"], Some(&[("a", &["b"])]));
    let (mut hb, mut nb) = ready_node("b", &["a", "b"], Some(&[("b", &["a"])]));

    // a holds {1, 2}; b holds {3}
    for v in [1usize, 2] {
        let bcast = envelope("c1", "a", Some(10 + v), Payload::Broadcast { message: v });
        let (after, _out, r) = dispatch(&mut ha, na, bcast);
        assert!(r.is_ok());
        na = after;
    }
    let bcast = envelope("c1", "b", Some(20), Payload::Broadcast { message: 3 });
    let (after, _out, r) = dispatch(&mut hb, nb, bcast);
    assert!(r.is_ok());
    nb = after;

    // one full exchange: a pushes, b merges and answers, a merges the answer
    let trigger = envelope("internal", "internal", None, Payload::InitiateGossip);
    let (na_after, pushed, r) = dispatch(&mut ha, na, trigger);
    assert!(r.is_ok());
    na = na_after;
    assert_eq!(pushed.len(), 1);
    assert_eq!(pushed[0].dst, "b");
    assert_eq!(pushed[0].body.in_reply_to, None);

    let (nb_after, answers, r) = dispatch(&mut hb, nb, pushed.into_iter().next().unwrap());
    assert!(r.is_ok());
    nb = nb_after;
    assert_eq!(answers.len(), 1);
    assert!(matches!(answers[0].body.payload, Payload::GossipOk { .. }));

    let (na_after, silent, r) = dispatch(&mut ha, na, answers.into_iter().next().unwrap());
    assert!(r.is_ok());
    na = na_after;
    assert_eq!(silent.len(), 0);

    let (na_final, a_values) = read_values(&mut ha, na);
    let (nb_final, b_values) = read_values(&mut hb, nb);
    assert_eq!(a_values, vec![1, 2, 3]);
    assert_eq!(b_values, vec![1, 2, 3]);

    // a second identical exchange changes nothing: merge is idempotent
    let trigger = envelope("internal", "internal", None, Payload::InitiateGossip);
    let (na2, pushed, r) = dispatch(&mut ha, na_final, trigger);
    assert!(r.is_ok());
    let (nb2, answers, r) = dispatch(&mut hb, nb_final, pushed.into_iter().next().unwrap());
    assert!(r.is_ok());
    let (na2, _silent, r) = dispatch(&mut ha, na2, answers.into_iter().next().unwrap());
    assert!(r.is_ok());
    let (_na3, a_values) = read_values(&mut ha, na2);
    let (_nb3, b_values) = read_values(&mut hb, nb2);
    assert_eq!(a_values, vec![1, 2, 3]);
    assert_eq!(b_values, vec![1, 2, 3]);
}

#[test]
fn gossip_trigger_without_topology_is_a_quiet_no_op() {
    let (mut handler, node) = ready_node("a", &["a", "b"], None);
    let trigger = envelope("internal", "internal", None, Payload::InitiateGossip);
    let (_node, out, r) = dispatch(&mut handler, node, trigger);
    assert!(r.is_ok());
    assert_eq!(out.len(), 0);
}

#[test]
fn gossip_to_uninitialized_node_merges_then_fails_on_reply() {
    let mut handler = Broadcast::new();
    let node = Node::default();
    let push = envelope("a", "b", Some(3), Payload::Gossip { messages: vec![4, 8] });
    let (_node, out, r) = dispatch(&mut handler, node, push);
    assert_eq!(r, Err(Error::Uninitialized));
    assert_eq!(out.len(), 0);
    assert!(handler.has_message(4));
    assert!(handler.has_message(8));
}

#[test]
fn value_set_insert_is_idempotent_and_merge_unions() {
    let mut set = ValueSet::new();
    assert!(!set.contains(5));
    assert!(set.insert(5));
    assert!(!set.insert(5));
    assert!(set.contains(5));

    set.merge(&vec![5, 9, 9, 2]);
    assert!(set.contains(9));
    assert!(set.contains(2));

    let mut values = set.to_vec();
    values.sort();
    assert_eq!(values, vec![2, 5, 9]);
}

#[test]
fn read_before_any_broadcast_returns_the_empty_set() {
    let (mut handler, node) = ready_node("n1", &["n1"], None);
    let (_node, values) = read_values(&mut handler, node);
    assert_eq!(values, Vec::<usize>::new());
}
