use dist_sys::envelope::{Body, Init, Message, Payload};
use dist_sys::handlers::{Echo, UniqueIds};
use dist_sys::node::{Error, Node};
use dist_sys::runtime::{dispatch, gossip_trigger};

fn mk_msg(src: &str, dst: &str, id: Option<usize>, payload: Payload) -> Message {
    Message {
        src: src.to_string(),
        dst: dst.to_string(),
        body: Body { id, in_reply_to: None, payload },
    }
}

fn mk_init(node_id: &str, peers: &[&str]) -> Init {
    Init {
        node_id: node_id.to_string(),
        node_ids: peers.iter().map(|s| s.to_string()).collect(),
    }
}

#[test]
fn echo_replies_with_same_text_and_correlation() {
    let mut handler = Echo::new();
    let node = Node::default();

    let init = mk_msg("c0", "n1", Some(1), Payload::Init(mk_init("n1", &["n1", "n2"])));
    let (node, out, r) = dispatch(&mut handler, node, init);
    assert!(r.is_ok());
    assert_eq!(out.len(), 1);
    assert_eq!(out[0].src, "n1");
    assert_eq!(out[0].dst, "c0");
    assert_eq!(out[0].body.id, Some(1));
    assert_eq!(out[0].body.in_reply_to, Some(1));
    assert!(matches!(out[0].body.payload, Payload::InitOk));

    let echo = mk_msg("c1", "n1", Some(2), Payload::Echo { echo: "hi".to_string() });
    let (_node, out, r) = dispatch(&mut handler, node, echo);
    assert!(r.is_ok());
    assert_eq!(out.len(), 1);
    assert_eq!(out[0].dst, "c1");
    assert_eq!(out[0].body.in_reply_to, Some(2));
    match &out[0].body.payload {
        Payload::EchoOk { echo } => assert_eq!(echo, "hi"),
        other => panic!("expected echo_ok, got {:?}", other),
    }
}

#[test]
fn echo_before_init_fails_uninitialized() {
    let mut handler = Echo::new();
    let node = Node::default();
    let echo = mk_msg("c1", "n1", Some(1), Payload::Echo { echo: "hi".to_string() });
    let (_node, out, r) = dispatch(&mut handler, node, echo);
    assert_eq!(r, Err(Error::Uninitialized));
    assert_eq!(out.len(), 0);
}

#[test]
fn echo_ignores_unrelated_payloads() {
    let mut handler = Echo::new();
    let node = Node::default();
    let stray = mk_msg("c1", "n1", Some(1), Payload::BroadcastOk);
    let (_node, out, r) = dispatch(&mut handler, node, stray);
    assert!(r.is_ok());
    assert_eq!(out.len(), 0);
}

#[test]
fn generate_twice_yields_distinct_increasing_ids() {
    let mut handler = UniqueIds::new();
    let node = Node::default();

    let init = mk_msg("c0", "n1", Some(1), Payload::Init(mk_init("n1", &["n1", "n2"])));
    let (node, _out, r) = dispatch(&mut handler, node, init);
    assert!(r.is_ok());

    let gen1 = mk_msg("c0", "n1", Some(2), Payload::Generate);
    let (node, out1, r1) = dispatch(&mut handler, node, gen1);
    assert!(r1.is_ok());
    let first = match &out1[0].body.payload {
        Payload::GenerateOk { id } => id.clone(),
        other => panic!("expected generate_ok, got {:?}", other),
    };

    let gen2 = mk_msg("c0", "n1", Some(3), Payload::Generate);
    let (_node, out2, r2) = dispatch(&mut handler, node, gen2);
    assert!(r2.is_ok());
    let second = match &out2[0].body.payload {
        Payload::GenerateOk { id } => id.clone(),
        other => panic!("expected generate_ok, got {:?}", other),
    };

    assert_eq!(first, "n1-2");
    assert_eq!(second, "n1-3");
    assert_ne!(first, second);
}

#[test]
fn generate_before_init_fails_uninitialized() {
    let mut handler = UniqueIds::new();
    let node = Node::default();
    let gen = mk_msg("c0", "n1", Some(1), Payload::Generate);
    let (_node, out, r) = dispatch(&mut handler, node, gen);
    assert_eq!(r, Err(Error::Uninitialized));
    assert_eq!(out.len(), 0);
}

#[test]
fn message_ids_strictly_increase_across_replies() {
    let mut handler = Echo::new();
    let node = Node::default();

    let init = mk_msg("c0", "n1", Some(1), Payload::Init(mk_init("n1", &["n1"])));
    let (mut node, out, _r) = dispatch(&mut handler, node, init);
    let mut all_ids: Vec<usize> = out.iter().map(|m| m.body.id.unwrap()).collect();

    for k in 0..4 {
        let echo = mk_msg("c0", "n1", Some(10 + k), Payload::Echo { echo: format!("m{}", k) });
        let (node_after, out, r) = dispatch(&mut handler, node, echo);
        assert!(r.is_ok());
        node = node_after;
        all_ids.extend(out.iter().map(|m| m.body.id.unwrap()));
    }

    assert_eq!(all_ids, vec![1, 2, 3, 4, 5]);
    for w in all_ids.windows(2) {
        assert!(w[0] < w[1]);
    }
}

#[test]
fn gossip_trigger_is_uncorrelated_self_addressed_signal() {
    let trigger = gossip_trigger();
    assert!(matches!(trigger.body.payload, Payload::InitiateGossip));
    assert_eq!(trigger.body.id, None);
    assert_eq!(trigger.body.in_reply_to, None);
    assert_eq!(trigger.src, trigger.dst);
}
