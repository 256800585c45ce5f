//! The echo handler of one connection: it stamps each request and sends
//! the response back a fixed number of times before it reads on.

use crate::frame::{ClientFrame, ClientFrameView, Violation};
use crate::message::{response_to, ClientMessage, ClientMessageView, ServerMessage, ServerMessageView};
use std::ops::ControlFlow;
use vstd::prelude::*;

verus! {

/// Number of copies of each response that the server sends.
pub const WRITE_FACTOR: usize = 4;

/// Sorts one received frame: a request is handed on, a close frame stops
/// the handler, anything else is skipped. The frame's payload must have
/// decoded.
pub fn process_ws_message(msg: ClientFrame) -> (flow: ControlFlow<(), Option<ClientMessage>>)
    requires
        !(msg is Malformed),
    ensures
        match msg@ {
            ClientFrameView::Request(m) => flow matches ControlFlow::Continue(Some(request))
                && request@ == m,
            ClientFrameView::Close => flow is Break,
            _ => flow matches ControlFlow::Continue(None),
        },
{
    match msg {
        ClientFrame::Request(request) => ControlFlow::Continue(Some(request)),
        ClientFrame::Close => ControlFlow::Break(()),
        _ => ControlFlow::Continue(None),
    }
}

/// Where a handler stands.
#[derive(Debug, Clone, Copy, PartialEq, Eq, Structural)]
pub enum EchoPhase {
    /// The next frame is awaited.
    Listening,
    /// Copies of the current response are still to be sent.
    Replying,
    /// The client closed the connection, or the connection ended.
    Closed,
    /// A send failed: the client is gone.
    Lost,
    /// A frame broke the protocol.
    Failed(Violation),
}

/// The state of a handler.
pub struct EchoView {
    pub phase: EchoPhase,
    /// Copies of the current response that are still to be sent.
    pub pending: nat,
}

/// What reaches a handler.
pub enum EchoEvent {
    /// A frame, with the server time of its arrival.
    Frame(ClientFrameView, nat),
    /// The end of the connection: it was shut, or reading it failed.
    StreamEnd,
    /// The result of sending one copy: whether it succeeded.
    Sent(bool),
}

impl EchoView {
    /// Copies are pending exactly while the handler replies, and never
    /// more than the fan-out factor.
    pub open spec fn wf(self) -> bool {
        &&& self.pending <= WRITE_FACTOR
        &&& (self.phase is Replying <==> self.pending > 0)
    }

    /// The handler of a fresh connection.
    pub open spec fn start() -> EchoView {
        EchoView { phase: EchoPhase::Listening, pending: 0 }
    }

    /// The state after `frame` arrived at server time `now`, and the
    /// response to send for it. Only a listening handler takes frames. A
    /// request is answered, a close frame ends the handler, a payload that
    /// does not decode fails it, and any other frame is skipped.
    pub open spec fn on_frame(self, frame: ClientFrameView, now: nat) -> (EchoView, Option<
        ServerMessageView,
    >) {
        if !(self.phase is Listening) {
            (self, None)
        } else {
            match frame {
                ClientFrameView::Request(request) => (
                    EchoView { phase: EchoPhase::Replying, pending: WRITE_FACTOR as nat },
                    Some(response_to(request, now)),
                ),
                ClientFrameView::Malformed => (
                    EchoView { phase: EchoPhase::Failed(Violation::Undecodable), pending: 0 },
                    None,
                ),
                ClientFrameView::Close => (EchoView { phase: EchoPhase::Closed, pending: 0 }, None),
                ClientFrameView::Other => (self, None),
            }
        }
    }

    /// The state after the connection ended.
    pub open spec fn on_stream_end(self) -> EchoView {
        if self.phase is Listening {
            EchoView { phase: EchoPhase::Closed, pending: 0 }
        } else {
            self
        }
    }

    /// The state after one copy was sent, successfully or not. A failed
    /// send ends the handler; the last successful one lets it listen again.
    pub open spec fn on_sent(self, ok: bool) -> EchoView {
        if !(self.phase is Replying) {
            self
        } else if !ok {
            EchoView { phase: EchoPhase::Lost, pending: 0 }
        } else if self.pending <= 1 {
            EchoView { phase: EchoPhase::Listening, pending: 0 }
        } else {
            EchoView { phase: EchoPhase::Replying, pending: (self.pending - 1) as nat }
        }
    }

    /// The state after one event.
    pub open spec fn on_event(self, event: EchoEvent) -> EchoView {
        match event {
            EchoEvent::Frame(frame, now) => self.on_frame(frame, now).0,
            EchoEvent::StreamEnd => self.on_stream_end(),
            EchoEvent::Sent(ok) => self.on_sent(ok),
        }
    }

    /// Whether one event makes the handler build a response.
    pub open spec fn answers(self, event: EchoEvent) -> bool {
        event matches EchoEvent::Frame(frame, now) && self.on_frame(frame, now).1 is Some
    }

    /// Whether one event is a copy that went out.
    pub open spec fn delivers(self, event: EchoEvent) -> bool {
        self.phase is Replying && event == EchoEvent::Sent(true)
    }

    /// The state after `events`, taken in order.
    pub open spec fn after(self, events: Seq<EchoEvent>) -> EchoView
        decreases events.len(),
    {
        if events.len() == 0 {
            self
        } else {
            self.after(events.drop_last()).on_event(events.last())
        }
    }

    /// The number of requests answered over `events`.
    pub open spec fn answered(self, events: Seq<EchoEvent>) -> nat
        decreases events.len(),
    {
        if events.len() == 0 {
            0
        } else {
            self.answered(events.drop_last()) + if self.after(events.drop_last()).answers(
                events.last(),
            ) {
                1nat
            } else {
                0nat
            }
        }
    }

    /// The number of copies that went out over `events`.
    pub open spec fn delivered(self, events: Seq<EchoEvent>) -> nat
        decreases events.len(),
    {
        if events.len() == 0 {
            0
        } else {
            self.delivered(events.drop_last()) + if self.after(events.drop_last()).delivers(
                events.last(),
            ) {
                1nat
            } else {
                0nat
            }
        }
    }
}

/// The echo handler of one connection.
pub struct Echo {
    phase: EchoPhase,
    pending: usize,
}

impl View for Echo {
    type V = EchoView;

    closed spec fn view(&self) -> EchoView {
        EchoView { phase: self.phase, pending: self.pending as nat }
    }
}

impl Echo {
    #[verifier::type_invariant]
    spec fn inv(&self) -> bool {
        self@.wf()
    }

    /// The handler of a fresh connection.
    pub fn new() -> (echo: Echo)
        ensures
            echo@ == EchoView::start(),
    {
        Echo { phase: EchoPhase::Listening, pending: 0 }
    }

    /// Where the handler stands.
    pub fn phase(&self) -> (phase: EchoPhase)
        ensures
            phase == self@.phase,
    {
        self.phase
    }

    /// Copies of the current response that are still to be sent.
    pub fn pending(&self) -> (n: usize)
        ensures
            n == self@.pending,
    {
        self.pending
    }

    /// Takes the next frame, which arrived at server time `now`, and hands
    /// back the response to serialize and send, if the frame is a request.
    pub fn on_frame(&mut self, frame: ClientFrame, now: u128) -> (response: Option<ServerMessage>)
        ensures
            final(self)@ == old(self)@.on_frame(frame@, now as nat).0,
            match old(self)@.on_frame(frame@, now as nat).1 {
                Some(r) => response matches Some(built) && built@ == r,
                None => response is None,
            },
    {
        match self.phase {
            EchoPhase::Listening => {},
            _ => {
                return None;
            },
        }
        match &frame {
            ClientFrame::Malformed => {
                *self = Echo { phase: EchoPhase::Failed(Violation::Undecodable), pending: 0 };
                return None;
            },
            _ => {},
        }
        match process_ws_message(frame) {
            ControlFlow::Continue(Some(request)) => {
                *self = Echo { phase: EchoPhase::Replying, pending: WRITE_FACTOR };
                Some(ServerMessage::reply_to(request, now))
            },
            ControlFlow::Continue(None) => None,
            ControlFlow::Break(_) => {
                *self = Echo { phase: EchoPhase::Closed, pending: 0 };
                None
            },
        }
    }

    /// Takes note that the connection ended.
    pub fn on_stream_end(&mut self)
        ensures
            final(self)@ == old(self)@.on_stream_end(),
    {
        match self.phase {
            EchoPhase::Listening => {
                *self = Echo { phase: EchoPhase::Closed, pending: 0 };
            },
            _ => {},
        }
    }

    /// Takes the result of sending one copy of the current response.
    pub fn on_sent(&mut self, ok: bool)
        ensures
            final(self)@ == old(self)@.on_sent(ok),
    {
        proof {
            use_type_invariant(&*self);
        }
        match self.phase {
            EchoPhase::Replying => {
                if !ok {
                    *self = Echo { phase: EchoPhase::Lost, pending: 0 };
                } else if self.pending <= 1 {
                    *self = Echo { phase: EchoPhase::Listening, pending: 0 };
                } else {
                    *self = Echo { phase: EchoPhase::Replying, pending: self.pending - 1 };
                }
            },
            _ => {},
        }
    }
}

/// A response carries the identifiers and the padding of its request
/// unchanged.
pub proof fn lemma_response_preserves_request(request: ClientMessageView, now: nat)
    ensures
        response_to(request, now).client_id == request.client_id,
        response_to(request, now).msg_id == request.msg_id,
        response_to(request, now).msg == request.msg,
        response_to(request, now).client_ts == request.created_at,
{
}

/// Every response that a handler builds is the response to the request in
/// the frame, stamped with the time of the frame's arrival; and a listening
/// handler builds one for every request.
pub proof fn lemma_handler_stamps_request(s: EchoView, frame: ClientFrameView, now: nat)
    ensures
        s.on_frame(frame, now).1 is Some ==> (frame matches ClientFrameView::Request(request)
            && s.on_frame(frame, now).1 == Some(response_to(request, now)) && response_to(
            request,
            now,
        ).created_at == now),
        s.phase is Listening && frame is Request ==> s.on_frame(frame, now).1 is Some,
{
}

/// Taking events keeps a handler well formed. While no send has failed,
/// the copies that went out and those still pending make up the fan-out
/// factor times the number of requests answered; after a failed send,
/// fewer copies went out than that.
pub proof fn lemma_fan_out(s: EchoView, events: Seq<EchoEvent>)
    requires
        s.wf(),
        !(s.phase is Lost),
    ensures
        s.after(events).wf(),
        !(s.after(events).phase is Lost) ==> s.delivered(events) + s.after(events).pending
            == s.pending + WRITE_FACTOR * s.answered(events),
        s.after(events).phase is Lost ==> s.delivered(events) < s.pending + WRITE_FACTOR
            * s.answered(events),
    decreases events.len(),
{
    if events.len() > 0 {
        lemma_fan_out(s, events.drop_last());
        let before = s.after(events.drop_last());
        let d = s.delivered(events.drop_last());
        let a = s.answered(events.drop_last());
        assert(WRITE_FACTOR * (a + 1) == WRITE_FACTOR * a + WRITE_FACTOR) by (nonlinear_arith);
    }
}

/// Whenever a handler of a fresh connection listens or has closed, it has
/// sent exactly the fan-out factor of copies for each request answered.
pub proof fn lemma_each_request_answered_in_full(events: Seq<EchoEvent>)
    requires
        EchoView::start().after(events).phase is Listening || EchoView::start().after(
            events,
        ).phase is Closed,
    ensures
        EchoView::start().delivered(events) == WRITE_FACTOR * EchoView::start().answered(events),
{
    lemma_fan_out(EchoView::start(), events);
}

} // verus!
