//! The handler contract and the two one-line protocols built on it.
//!
//! A handler is the pluggable decision function of a node: it consumes one
//! decoded message together with the per-message context and returns
//! success or a fatal error.  The trait carries, per implementation, the
//! exact meaning of one dispatch (`handle_post`) and a bound on how many
//! fresh ids one dispatch may allocate (`id_budget`); every implementation
//! also obeys the universal envelope discipline [`context_step_wf`].

use vstd::prelude::*;
use crate::envelope::{Message, MessageView, Payload, PayloadView};
use crate::node::{
    ctx_initialized, ctx_replied, context_step_wf, lemma_ctx_initialized_wf, lemma_ctx_replied_wf,
    lemma_step_wf_refl, lemma_step_wf_trans, ContextView, Error, MessageContext,
};

verus! {

/// The protocol-specific decision function dispatched once per message.
pub trait Handle: Sized {
    /// How many fresh message ids handling `m` in state `pre` may
    /// allocate.  The runtime admits a message only while the id counter
    /// has at least this much headroom.
    spec fn id_budget(pre: Self, m: MessageView) -> int;

    /// Validity of the handler's own state; established by its
    /// constructor and preserved by every dispatch.
    spec fn inv(&self) -> bool;

    /// The exact meaning of one dispatch: how the handler state and the
    /// context change, and when the dispatch fails, for every payload.
    spec fn handle_post(
        pre: Self,
        post: Self,
        m: MessageView,
        pre_ctx: ContextView,
        post_ctx: ContextView,
        r: Result<(), Error>,
    ) -> bool;

    /// Handle one message: the single entry point the runtime dispatches
    /// to.  All outbound traffic goes through the context.
    fn handle(&mut self, message: Message, context: &mut MessageContext) -> (r: Result<(), Error>)
        requires
            old(self).inv(),
            old(context)@.node.message_id + Self::id_budget(*old(self), message@) <= usize::MAX,
        ensures
            final(self).inv(),
            Self::handle_post(
                *old(self),
                *final(self),
                message@,
                old(context)@,
                final(context)@,
                r,
            ),
            context_step_wf(old(context)@, final(context)@),
    ;
}

/// The echo protocol: answer `echo` with `echo_ok` carrying the same text.
pub struct Echo;

impl Echo {
    /// A fresh echo handler; it keeps no state of its own.
    pub fn new() -> (e: Echo) {
        Echo
    }
}

impl Handle for Echo {
    open spec fn id_budget(pre: Echo, m: MessageView) -> int {
        match m.body.payload {
            PayloadView::Init(_) => 1,
            PayloadView::Echo { .. } => 1,
            _ => 0,
        }
    }

    open spec fn inv(&self) -> bool {
        true
    }

    open spec fn handle_post(
        pre: Echo,
        post: Echo,
        m: MessageView,
        pre_ctx: ContextView,
        post_ctx: ContextView,
        r: Result<(), Error>,
    ) -> bool {
        match m.body.payload {
            PayloadView::Init(init) => {
                &&& r is Ok
                &&& post_ctx == ctx_replied(ctx_initialized(pre_ctx, init), PayloadView::InitOk)
            },
            PayloadView::Echo { echo } => match r {
                Ok(()) => {
                    &&& pre_ctx.node.init is Some
                    &&& post_ctx == ctx_replied(pre_ctx, PayloadView::EchoOk { echo })
                },
                Err(e) => {
                    &&& e == Error::Uninitialized
                    &&& pre_ctx.node.init is None
                    &&& post_ctx == pre_ctx
                },
            },
            _ => r is Ok && post_ctx == pre_ctx,
        }
    }

    fn handle(&mut self, message: Message, context: &mut MessageContext) -> (r: Result<(), Error>) {
        match message.body.payload {
            Payload::Init(init) => {
                let ghost c0 = context@;
                context.initialize(init);
                let r = context.reply(Payload::InitOk);
                proof {
                    lemma_ctx_initialized_wf(c0, init@);
                    lemma_ctx_replied_wf(ctx_initialized(c0, init@), PayloadView::InitOk);
                    lemma_step_wf_trans(c0, ctx_initialized(c0, init@), context@);
                }
                r
            },
            Payload::Echo { echo } => {
                let ghost c0 = context@;
                let r = context.reply(Payload::EchoOk { echo });
                proof {
                    if r is Ok {
                        lemma_ctx_replied_wf(c0, PayloadView::EchoOk { echo: echo@ });
                    } else {
                        lemma_step_wf_refl(c0);
                    }
                }
                r
            },
            _ => {
                proof {
                    lemma_step_wf_refl(context@);
                }
                Ok(())
            },
        }
    }
}

/// The digit character of `d`.
pub open spec fn decimal_digit(d: int) -> char
    recommends
        0 <= d <= 9,
{
    if d == 0 {
        '0'
    } else if d == 1 {
        '1'
    } else if d == 2 {
        '2'
    } else if d == 3 {
        '3'
    } else if d == 4 {
        '4'
    } else if d == 5 {
        '5'
    } else if d == 6 {
        '6'
    } else if d == 7 {
        '7'
    } else if d == 8 {
        '8'
    } else {
        '9'
    }
}

/// The decimal digits of `n`, most significant first.
pub open spec fn decimal_digits(n: int) -> Seq<char>
    recommends
        n >= 0,
    decreases n,
{
    if n <= 9 {
        seq![decimal_digit(n)]
    } else {
        decimal_digits(n / 10).push(decimal_digit(n % 10))
    }
}

/// The id the unique-id protocol synthesizes from a context in state `c`:
/// the node's own id, a hyphen, and the next message id in decimal.
pub open spec fn generated_id(c: ContextView) -> Seq<char>
    recommends
        c.node.init is Some,
{
    c.node.init->0.node_id + seq!['-'] + decimal_digits(c.node.message_id as int)
}

/// Relies on `format!` with the standard `Display` of `str` and of
/// unsigned integers: the text is the node id, one hyphen, and the number
/// in decimal, most significant digit first, with no leading zeros.
#[verifier::external_body]
fn format_generated_id(node_id: &str, n: usize) -> (r: String)
    ensures
        r@ == node_id@ + seq!['-'] + decimal_digits(n as int),
{
    format!("{}-{}", node_id, n)
}

/// The unique-id protocol: answer each `generate` with a globally unique
/// id of the form `{own_id}-{next_message_id}`.  Uniqueness rests on the
/// node ids being distinct and on the id counter never repeating.
pub struct UniqueIds;

impl UniqueIds {
    /// A fresh unique-id handler; it keeps no state of its own.
    pub fn new() -> (u: UniqueIds) {
        UniqueIds
    }
}

impl Handle for UniqueIds {
    open spec fn id_budget(pre: UniqueIds, m: MessageView) -> int {
        match m.body.payload {
            PayloadView::Init(_) => 1,
            PayloadView::Generate => 1,
            _ => 0,
        }
    }

    open spec fn inv(&self) -> bool {
        true
    }

    open spec fn handle_post(
        pre: UniqueIds,
        post: UniqueIds,
        m: MessageView,
        pre_ctx: ContextView,
        post_ctx: ContextView,
        r: Result<(), Error>,
    ) -> bool {
        match m.body.payload {
            PayloadView::Init(init) => {
                &&& r is Ok
                &&& post_ctx == ctx_replied(ctx_initialized(pre_ctx, init), PayloadView::InitOk)
            },
            PayloadView::Generate => match r {
                Ok(()) => {
                    &&& pre_ctx.node.init is Some
                    &&& post_ctx == ctx_replied(
                        pre_ctx,
                        PayloadView::GenerateOk { id: generated_id(pre_ctx) },
                    )
                },
                Err(e) => {
                    &&& e == Error::Uninitialized
                    &&& pre_ctx.node.init is None
                    &&& post_ctx == pre_ctx
                },
            },
            _ => r is Ok && post_ctx == pre_ctx,
        }
    }

    fn handle(&mut self, message: Message, context: &mut MessageContext) -> (r: Result<(), Error>) {
        match message.body.payload {
            Payload::Init(init) => {
                let ghost c0 = context@;
                context.initialize(init);
                let r = context.reply(Payload::InitOk);
                proof {
                    lemma_ctx_initialized_wf(c0, init@);
                    lemma_ctx_replied_wf(ctx_initialized(c0, init@), PayloadView::InitOk);
                    lemma_step_wf_trans(c0, ctx_initialized(c0, init@), context@);
                }
                r
            },
            Payload::Generate => {
                let ghost c0 = context@;
                let own_id = match context.init() {
                    Ok(init) => init.node_id.clone(),
                    Err(e) => {
                        proof {
                            lemma_step_wf_refl(c0);
                        }
                        return Err(e);
                    },
                };
                let id = format_generated_id(own_id.as_str(), context.message_id());
                let r = context.reply(Payload::GenerateOk { id });
                proof {
                    lemma_ctx_replied_wf(c0, PayloadView::GenerateOk { id: generated_id(c0) });
                }
                r
            },
            _ => {
                proof {
                    lemma_step_wf_refl(context@);
                }
                Ok(())
            },
        }
    }
}

} // verus!
