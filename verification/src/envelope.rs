//! The wire data model: message envelopes and their payloads.
//!
//! An envelope names a source node, a destination node, and a body.  The
//! body carries an optional message id, an optional correlation id
//! (`in_reply_to`), and a protocol payload.  On the wire each envelope is
//! one JSON object per line; decoding and encoding happen outside the
//! verified core, which works on these plain values.

use vstd::prelude::*;

verus! {

/// The initialization record delivered by the orchestrator's handshake:
/// the node's own identifier and the full list of participating nodes.
#[derive(Debug)]
pub struct Init {
    pub node_id: String,
    pub node_ids: Vec<String>,
}

/// Mathematical image of an [`Init`] record.
pub ghost struct InitView {
    pub node_id: Seq<char>,
    pub node_ids: Seq<Seq<char>>,
}

impl View for Init {
    type V = InitView;

    open spec fn view(&self) -> InitView {
        InitView { node_id: self.node_id@, node_ids: self.node_ids.deep_view() }
    }
}

/// The protocol payload families a node understands, discriminated on the
/// wire by a `type` field in snake case (`init_ok`, `broadcast_ok`, ...).
///
/// `InitiateGossip` is never received from the orchestrator: it is the
/// synthetic self-addressed trigger that the generator variant of the
/// runtime feeds into the message stream on a timer.
#[derive(Debug)]
pub enum Payload {
    Init(Init),
    InitOk,
    Echo { echo: String },
    EchoOk { echo: String },
    Generate,
    GenerateOk { id: String },
    Broadcast { message: usize },
    BroadcastOk,
    Read,
    ReadOk { messages: Vec<usize> },
    Topology { topology: Vec<(String, Vec<String>)> },
    TopologyOk,
    InitiateGossip,
    Gossip { messages: Vec<usize> },
    GossipOk { messages: Vec<usize> },
}

/// Mathematical image of a [`Payload`].
pub ghost enum PayloadView {
    Init(InitView),
    InitOk,
    Echo { echo: Seq<char> },
    EchoOk { echo: Seq<char> },
    Generate,
    GenerateOk { id: Seq<char> },
    Broadcast { message: usize },
    BroadcastOk,
    Read,
    ReadOk { messages: Seq<usize> },
    Topology { topology: Seq<(Seq<char>, Seq<Seq<char>>)> },
    TopologyOk,
    InitiateGossip,
    Gossip { messages: Seq<usize> },
    GossipOk { messages: Seq<usize> },
}

impl View for Payload {
    type V = PayloadView;

    open spec fn view(&self) -> PayloadView {
        match self {
            Payload::Init(init) => PayloadView::Init(init@),
            Payload::InitOk => PayloadView::InitOk,
            Payload::Echo { echo } => PayloadView::Echo { echo: echo@ },
            Payload::EchoOk { echo } => PayloadView::EchoOk { echo: echo@ },
            Payload::Generate => PayloadView::Generate,
            Payload::GenerateOk { id } => PayloadView::GenerateOk { id: id@ },
            Payload::Broadcast { message } => PayloadView::Broadcast { message: *message },
            Payload::BroadcastOk => PayloadView::BroadcastOk,
            Payload::Read => PayloadView::Read,
            Payload::ReadOk { messages } => PayloadView::ReadOk { messages: messages@ },
            Payload::Topology { topology } => PayloadView::Topology {
                topology: topology.deep_view(),
            },
            Payload::TopologyOk => PayloadView::TopologyOk,
            Payload::InitiateGossip => PayloadView::InitiateGossip,
            Payload::Gossip { messages } => PayloadView::Gossip { messages: messages@ },
            Payload::GossipOk { messages } => PayloadView::GossipOk { messages: messages@ },
        }
    }
}

/// A message body: optional fresh id, optional correlation id, payload.
#[derive(Debug)]
pub struct Body {
    pub id: Option<usize>,
    pub in_reply_to: Option<usize>,
    pub payload: Payload,
}

/// Mathematical image of a [`Body`].
pub ghost struct BodyView {
    pub id: Option<usize>,
    pub in_reply_to: Option<usize>,
    pub payload: PayloadView,
}

impl View for Body {
    type V = BodyView;

    open spec fn view(&self) -> BodyView {
        BodyView { id: self.id, in_reply_to: self.in_reply_to, payload: self.payload@ }
    }
}

/// One envelope on the wire: source node, destination node, body.
#[derive(Debug)]
pub struct Message {
    pub src: String,
    pub dst: String,
    pub body: Body,
}

/// Mathematical image of a [`Message`].
pub ghost struct MessageView {
    pub src: Seq<char>,
    pub dst: Seq<char>,
    pub body: BodyView,
}

impl View for Message {
    type V = MessageView;

    open spec fn view(&self) -> MessageView {
        MessageView { src: self.src@, dst: self.dst@, body: self.body@ }
    }
}

} // verus!
