//! Host-side outbound queue with latest-frame coalescing for touch input.
//!
//! Control messages are kept in order. Touch frames are coalesced so only
//! the latest outstanding frame is retained. Control messages leave before
//! the pending touch frame; selecting a peer drops the pending frame.
use vstd::prelude::*;

use std::collections::VecDeque;

use crate::input::TouchFrame;
use crate::wire::HostMsg;

verus! {

/// Abstract contents of an outbox.
pub struct OutboxView {
    /// Control messages in arrival order.
    pub control: Seq<HostMsg>,
    /// The latest touch frame not yet delivered.
    pub latest_touch: Option<TouchFrame>,
}

/// Contents after queuing a message.
pub open spec fn push_step(v: OutboxView, msg: HostMsg) -> OutboxView {
    match msg {
        HostMsg::TouchFrame(frame) => OutboxView { control: v.control, latest_touch: Some(frame) },
        HostMsg::SelectPeer(slot) => OutboxView {
            control: v.control.push(HostMsg::SelectPeer(slot)),
            latest_touch: None,
        },
        _ => OutboxView { control: v.control.push(msg), latest_touch: v.latest_touch },
    }
}

/// Contents after taking the next message, and that message.
pub open spec fn recv_step(v: OutboxView) -> (OutboxView, Option<HostMsg>) {
    if v.control.len() > 0 {
        (OutboxView { control: v.control.drop_first(), latest_touch: v.latest_touch }, Some(v.control[0]))
    } else {
        match v.latest_touch {
            Some(frame) => (
                OutboxView { control: v.control, latest_touch: None },
                Some(HostMsg::TouchFrame(frame)),
            ),
            None => (v, None),
        }
    }
}

/// Queue of host messages awaiting serial delivery.
#[derive(Debug)]
pub struct Outbox {
    control: VecDeque<HostMsg>,
    latest_touch: Option<TouchFrame>,
}

impl View for Outbox {
    type V = OutboxView;

    closed spec fn view(&self) -> OutboxView {
        OutboxView { control: self.control@, latest_touch: self.latest_touch }
    }
}

impl Outbox {
    /// Create an empty outbox.
    pub fn new() -> (outbox: Outbox)
        ensures
            outbox@.control.len() == 0,
            outbox@.latest_touch is None,
    {
        Outbox { control: VecDeque::new(), latest_touch: None }
    }

    /// Queue one message for serial delivery.
    pub fn push(&mut self, msg: HostMsg)
        ensures
            final(self)@ == push_step(old(self)@, msg),
    {
        match msg {
            HostMsg::TouchFrame(frame) => {
                self.latest_touch = Some(frame);
            },
            HostMsg::SelectPeer(slot) => {
                self.latest_touch = None;
                self.control.push_back(HostMsg::SelectPeer(slot));
            },
            other => {
                self.control.push_back(other);
            },
        }
    }

    /// Take the next outbound message: the oldest control message, else the
    /// pending touch frame; `None` when nothing is queued.
    pub fn recv(&mut self) -> (msg: Option<HostMsg>)
        ensures
            final(self)@ == recv_step(old(self)@).0,
            msg == recv_step(old(self)@).1,
    {
        if let Some(msg) = self.control.pop_front() {
            return Some(msg);
        }
        if let Some(frame) = self.latest_touch.take() {
            return Some(HostMsg::TouchFrame(frame));
        }
        None
    }
}

/// Two touch frames queued back to back leave only the second one pending.
pub proof fn lemma_touch_frames_coalesce(v: OutboxView, first: TouchFrame, second: TouchFrame)
    ensures
        push_step(push_step(v, HostMsg::TouchFrame(first)), HostMsg::TouchFrame(second)) == push_step(
            v,
            HostMsg::TouchFrame(second),
        ),
{
}

/// A queued control message is delivered before any pending touch frame.
pub proof fn lemma_control_before_touch(v: OutboxView, msg: HostMsg)
    requires
        !(msg is TouchFrame),
        v.control.len() == 0,
    ensures
        recv_step(push_step(v, msg)).1 == Some(msg),
{
}

/// Selecting a peer drops the touch frame that was pending.
pub proof fn lemma_select_drops_pending_touch(v: OutboxView, slot: Option<u8>)
    ensures
        push_step(v, HostMsg::SelectPeer(slot)).latest_touch is None,
{
}

/// Control messages leave in the order they were queued.
pub proof fn lemma_control_fifo(v: OutboxView, a: HostMsg, b: HostMsg)
    requires
        !(a is TouchFrame),
        !(b is TouchFrame),
        v.control.len() == 0,
    ensures
        recv_step(push_step(push_step(v, a), b)).1 == Some(a),
        recv_step(recv_step(push_step(push_step(v, a), b)).0).1 == Some(b),
{
    let v2 = push_step(push_step(v, a), b);
    assert(v2.control =~= seq![a, b]);
    assert(recv_step(v2).0.control =~= seq![b]);
}

/// One operation on an outbox: queue a message, or take the next one.
pub enum OutboxOp {
    /// Queue a message for delivery.
    Push(HostMsg),
    /// Take the next message, if any.
    Recv,
}

/// Whether no touch frame sits among the control messages.
pub open spec fn control_only(msgs: Seq<HostMsg>) -> bool {
    forall|i: int| 0 <= i < msgs.len() ==> !(#[trigger] msgs[i] is TouchFrame)
}

/// The contents after running `ops` from `v`, and the messages the
/// receives delivered, in order.
pub open spec fn replay(v: OutboxView, ops: Seq<OutboxOp>) -> (OutboxView, Seq<HostMsg>)
    decreases ops.len(),
{
    if ops.len() == 0 {
        (v, seq![])
    } else {
        let (w, out) = replay(v, ops.drop_last());
        match ops.last() {
            OutboxOp::Push(msg) => (push_step(w, msg), out),
            OutboxOp::Recv => {
                let (w2, got) = recv_step(w);
                (
                    w2,
                    match got {
                        Some(msg) => out.push(msg),
                        None => out,
                    },
                )
            },
        }
    }
}

/// The messages that `ops` queues, in order.
pub open spec fn pushed(ops: Seq<OutboxOp>) -> Seq<HostMsg>
    decreases ops.len(),
{
    if ops.len() == 0 {
        seq![]
    } else {
        match ops.last() {
            OutboxOp::Push(msg) => pushed(ops.drop_last()).push(msg),
            OutboxOp::Recv => pushed(ops.drop_last()),
        }
    }
}

/// The control (non-touch) messages of `msgs`, in order.
pub open spec fn controls(msgs: Seq<HostMsg>) -> Seq<HostMsg>
    decreases msgs.len(),
{
    if msgs.len() == 0 {
        seq![]
    } else if msgs.last() is TouchFrame {
        controls(msgs.drop_last())
    } else {
        controls(msgs.drop_last()).push(msgs.last())
    }
}

/// The touch frame pending after `ops` if no receive or peer selection
/// intervened: the last one queued, else the one pending at the start.
pub open spec fn last_touch(v: OutboxView, ops: Seq<OutboxOp>) -> Option<TouchFrame>
    decreases ops.len(),
{
    if ops.len() == 0 {
        v.latest_touch
    } else {
        match ops.last() {
            OutboxOp::Push(HostMsg::TouchFrame(frame)) => Some(frame),
            _ => last_touch(v, ops.drop_last()),
        }
    }
}

/// Over any history of pushes and receives, every control message is
/// delivered exactly once and in the order it was queued: the control
/// messages delivered, followed by those still queued, are the ones queued
/// at the start followed by those pushed. A frame still pending is the
/// last one queued.
pub proof fn lemma_history(v: OutboxView, ops: Seq<OutboxOp>)
    requires
        control_only(v.control),
    ensures
        control_only(replay(v, ops).0.control),
        controls(replay(v, ops).1) + replay(v, ops).0.control == v.control + controls(pushed(ops)),
        replay(v, ops).0.latest_touch is Some ==> replay(v, ops).0.latest_touch == last_touch(v, ops),
    decreases ops.len(),
{
    if ops.len() == 0 {
        assert(controls(seq![]) + v.control =~= v.control + controls(seq![]));
    } else {
        let rest = ops.drop_last();
        lemma_history(v, rest);
        let (w, out) = replay(v, rest);
        match ops.last() {
            OutboxOp::Push(msg) => {
                let w2 = push_step(w, msg);
                let p = pushed(rest).push(msg);
                assert(p.drop_last() == pushed(rest));
                if msg is TouchFrame {
                    assert(w2.control == w.control);
                } else {
                    assert(w2.control == w.control.push(msg));
                    assert(controls(out) + w2.control =~= (controls(out) + w.control).push(msg));
                    assert(v.control + controls(p) =~= (v.control + controls(pushed(rest))).push(msg));
                }
            },
            OutboxOp::Recv => {
                let (w2, got) = recv_step(w);
                if w.control.len() > 0 {
                    let m = w.control[0];
                    assert(!(m is TouchFrame));
                    let out2 = out.push(m);
                    assert(out2.drop_last() == out);
                    assert(controls(out2) == controls(out).push(m));
                    assert(controls(out2) + w2.control =~= controls(out) + w.control);
                } else {
                    match got {
                        Some(msg) => {
                            let out2 = out.push(msg);
                            assert(out2.drop_last() == out);
                            assert(controls(out2) == controls(out));
                        },
                        None => {},
                    }
                }
            },
        }
    }
}

} // verus!
