//! The receiving half of a client session: it takes the frames of one
//! connection in arrival order and turns each accepted response into one
//! line for the result file.

use crate::csv::{row_text, Row};
use crate::frame::{ServerFrame, ServerFrameView, Violation};
use crate::message::{latency, row_of};
use vstd::prelude::*;

verus! {

/// The breach of the protocol that `frame` makes when it reaches session
/// `client_id`, if it makes one: a payload that does not decode, a response
/// that names another session, or a frame that is neither binary nor a
/// close frame.
pub open spec fn violation_of(client_id: nat, frame: ServerFrameView) -> Option<Violation> {
    match frame {
        ServerFrameView::Message(m) => if m.client_id != client_id {
            Some(Violation::ForeignClient)
        } else {
            None
        },
        ServerFrameView::Malformed => Some(Violation::Undecodable),
        ServerFrameView::Close => None,
        ServerFrameView::Other => Some(Violation::UnexpectedFrame),
    }
}

/// What a received frame amounts to for the session `client_id`.
pub enum Outcome {
    /// A response of this session: it is recorded as this row.
    Record(Row),
    /// The server closed the connection.
    Closed,
    /// The frame breaks the protocol.
    Rejected(Violation),
}

/// The outcome of `frame`, received at `recv_ts` by session `client_id`. A
/// response is recorded if and only if it names this session.
pub open spec fn outcome_of(client_id: nat, frame: ServerFrameView, recv_ts: nat) -> Outcome {
    match violation_of(client_id, frame) {
        Some(v) => Outcome::Rejected(v),
        None => match frame {
            ServerFrameView::Message(m) => Outcome::Record(row_of(m, recv_ts)),
            _ => Outcome::Closed,
        },
    }
}

/// Tells whether `frame` breaks the protocol for session `client_id`, and
/// how.
pub fn violation_in(client_id: usize, frame: &ServerFrame) -> (violation: Option<Violation>)
    ensures
        violation == violation_of(client_id as nat, frame@),
{
    match frame {
        ServerFrame::Message(m) => {
            if m.client_id != client_id {
                Some(Violation::ForeignClient)
            } else {
                None
            }
        },
        ServerFrame::Malformed => Some(Violation::Undecodable),
        ServerFrame::Close => None,
        ServerFrame::Other => Some(Violation::UnexpectedFrame),
    }
}

/// Turns one frame received at `recv_ts` by session `client_id` into the
/// line to record: the row of a response, and `None` for a close frame.
/// The frame must not break the protocol.
pub fn process_message(client_id: usize, msg: ServerFrame, recv_ts: u128) -> (line: Option<String>)
    requires
        violation_of(client_id as nat, msg@) is None,
    ensures
        match msg@ {
            ServerFrameView::Message(m) => line matches Some(text) && text@ == row_text(
                row_of(m, recv_ts as nat),
            ),
            _ => line is None,
        },
{
    match msg {
        ServerFrame::Message(m) => Some(m.format(recv_ts)),
        _ => None,
    }
}

/// The number of frames that a session expects: every one of its
/// `batch_size * n_batch` requests comes back `rcv_factor` times. `None`
/// where that number does not fit the machine word.
pub fn expected_frames(batch_size: usize, n_batch: usize, rcv_factor: usize) -> (count: Option<
    usize,
>)
    ensures
        match count {
            Some(n) => n == batch_size * n_batch * rcv_factor,
            None => batch_size * n_batch * rcv_factor > usize::MAX,
        },
{
    if batch_size == 0 || n_batch == 0 || rcv_factor == 0 {
        assert(batch_size * n_batch * rcv_factor == 0) by (nonlinear_arith)
            requires
                batch_size == 0 || n_batch == 0 || rcv_factor == 0,
        ;
        return Some(0);
    }
    match batch_size.checked_mul(n_batch) {
        None => {
            assert(batch_size * n_batch * rcv_factor >= batch_size * n_batch) by (nonlinear_arith)
                requires
                    rcv_factor >= 1,
                    batch_size * n_batch >= 0,
            ;
            None
        },
        Some(requests) => requests.checked_mul(rcv_factor),
    }
}


/// Where a receiver stands.
#[derive(Debug, Clone, Copy, PartialEq, Eq, Structural)]
pub enum RecvPhase {
    /// Frames are still owed.
    Receiving,
    /// Every expected frame was recorded.
    Complete,
    /// The server closed the connection first.
    Closed,
    /// The connection ended or failed first.
    Lost,
    /// A frame broke the protocol.
    Failed(Violation),
}

/// The state of a receiver.
pub struct ReceiverView {
    pub client_id: nat,
    /// Number of frames that the session expects.
    pub expected: nat,
    /// Number of frames recorded so far.
    pub received: nat,
    pub phase: RecvPhase,
}

/// What reaches a receiver.
pub enum RecvEvent {
    /// A frame, with the time of its arrival.
    Frame(ServerFrameView, nat),
    /// The end of the connection: it was shut, or reading it failed.
    StreamEnd,
}

impl ReceiverView {
    /// The receiver never counts past what it expects, and is complete
    /// exactly when the count is reached.
    pub open spec fn wf(self) -> bool {
        &&& self.received <= self.expected
        &&& (self.phase is Complete <==> self.received == self.expected)
    }

    /// The receiver of session `client_id` before any frame. One that
    /// expects nothing is complete from the start.
    pub open spec fn start(client_id: nat, expected: nat) -> ReceiverView {
        ReceiverView {
            client_id,
            expected,
            received: 0,
            phase: if expected == 0 {
                RecvPhase::Complete
            } else {
                RecvPhase::Receiving
            },
        }
    }

    /// The state after `frame` arrived at `recv_ts`, and the row recorded
    /// for it. A receiver that is no longer receiving ignores the frame.
    pub open spec fn on_frame(self, frame: ServerFrameView, recv_ts: nat) -> (ReceiverView, Option<
        Row,
    >) {
        if !(self.phase is Receiving) {
            (self, None)
        } else {
            match outcome_of(self.client_id, frame, recv_ts) {
                Outcome::Record(row) => (
                    ReceiverView {
                        received: self.received + 1,
                        phase: if self.received + 1 == self.expected {
                            RecvPhase::Complete
                        } else {
                            RecvPhase::Receiving
                        },
                        ..self
                    },
                    Some(row),
                ),
                Outcome::Closed => (ReceiverView { phase: RecvPhase::Closed, ..self }, None),
                Outcome::Rejected(v) => (ReceiverView { phase: RecvPhase::Failed(v), ..self }, None),
            }
        }
    }

    /// The state after the connection ended.
    pub open spec fn on_stream_end(self) -> ReceiverView {
        if self.phase is Receiving {
            ReceiverView { phase: RecvPhase::Lost, ..self }
        } else {
            self
        }
    }

    /// The state after one event, and the row recorded for it.
    pub open spec fn on_event(self, event: RecvEvent) -> (ReceiverView, Option<Row>) {
        match event {
            RecvEvent::Frame(frame, recv_ts) => self.on_frame(frame, recv_ts),
            RecvEvent::StreamEnd => (self.on_stream_end(), None),
        }
    }

    /// The state after `events`, taken in order.
    pub open spec fn after(self, events: Seq<RecvEvent>) -> ReceiverView
        decreases events.len(),
    {
        if events.len() == 0 {
            self
        } else {
            self.after(events.drop_last()).on_event(events.last()).0
        }
    }

    /// The rows recorded over `events`, in the order of their frames.
    pub open spec fn recorded(self, events: Seq<RecvEvent>) -> Seq<Row>
        decreases events.len(),
    {
        if events.len() == 0 {
            Seq::empty()
        } else {
            let earlier = self.recorded(events.drop_last());
            match self.after(events.drop_last()).on_event(events.last()).1 {
                Some(row) => earlier.push(row),
                None => earlier,
            }
        }
    }
}

/// The receiving half of one session.
pub struct Receiver {
    client_id: usize,
    expected: usize,
    received: usize,
    phase: RecvPhase,
}

impl View for Receiver {
    type V = ReceiverView;

    closed spec fn view(&self) -> ReceiverView {
        ReceiverView {
            client_id: self.client_id as nat,
            expected: self.expected as nat,
            received: self.received as nat,
            phase: self.phase,
        }
    }
}

impl Receiver {
    #[verifier::type_invariant]
    spec fn inv(&self) -> bool {
        self@.wf()
    }

    /// The receiver of session `client_id`, which expects `expected` frames.
    pub fn new(client_id: usize, expected: usize) -> (r: Receiver)
        ensures
            r@ == ReceiverView::start(client_id as nat, expected as nat),
    {
        let phase = if expected == 0 {
            RecvPhase::Complete
        } else {
            RecvPhase::Receiving
        };
        Receiver { client_id, expected, received: 0, phase }
    }

    /// The session that this receiver belongs to.
    pub fn client_id(&self) -> (id: usize)
        ensures
            id == self@.client_id,
    {
        self.client_id
    }

    /// The number of frames that the session expects.
    pub fn expected(&self) -> (n: usize)
        ensures
            n == self@.expected,
    {
        self.expected
    }

    /// The number of frames recorded so far.
    pub fn received(&self) -> (n: usize)
        ensures
            n == self@.received,
    {
        self.received
    }

    /// Where the receiver stands.
    pub fn phase(&self) -> (phase: RecvPhase)
        ensures
            phase == self@.phase,
    {
        self.phase
    }

    /// Whether the next frame is to be awaited.
    pub fn is_receiving(&self) -> (yes: bool)
        ensures
            yes == (self@.phase is Receiving),
    {
        match self.phase {
            RecvPhase::Receiving => true,
            _ => false,
        }
    }

    /// Takes the next frame, which arrived at `recv_ts`, and hands back
    /// the line to pass on to the sink, if the frame is recorded.
    pub fn on_frame(&mut self, frame: ServerFrame, recv_ts: u128) -> (line: Option<String>)
        ensures
            final(self)@ == old(self)@.on_frame(frame@, recv_ts as nat).0,
            match old(self)@.on_frame(frame@, recv_ts as nat).1 {
                Some(row) => line matches Some(text) && text@ == row_text(row),
                None => line is None,
            },
    {
        proof {
            use_type_invariant(&*self);
        }
        if !self.is_receiving() {
            return None;
        }
        match violation_in(self.client_id, &frame) {
            Some(v) => {
                *self = Receiver { phase: RecvPhase::Failed(v), ..*self };
                return None;
            },
            None => {},
        }
        match process_message(self.client_id, frame, recv_ts) {
            Some(text) => {
                let received = self.received + 1;
                let phase = if received == self.expected {
                    RecvPhase::Complete
                } else {
                    RecvPhase::Receiving
                };
                *self = Receiver { received, phase, ..*self };
                Some(text)
            },
            None => {
                *self = Receiver { phase: RecvPhase::Closed, ..*self };
                None
            },
        }
    }

    /// Takes note that the connection ended.
    pub fn on_stream_end(&mut self)
        ensures
            final(self)@ == old(self)@.on_stream_end(),
    {
        proof {
            use_type_invariant(&*self);
        }
        if self.is_receiving() {
            *self = Receiver { phase: RecvPhase::Lost, ..*self };
        }
    }
}


/// Taking events keeps a receiver well formed, leaves its session and its
/// expectation as they were, and counts exactly the rows that it records.
pub proof fn lemma_run_counts_rows(s: ReceiverView, events: Seq<RecvEvent>)
    requires
        s.wf(),
    ensures
        s.after(events).wf(),
        s.after(events).client_id == s.client_id,
        s.after(events).expected == s.expected,
        s.after(events).received == s.received + s.recorded(events).len(),
    decreases events.len(),
{
    if events.len() > 0 {
        lemma_run_counts_rows(s, events.drop_last());
    }
}

/// A session that completes has recorded one row for each frame that it
/// expected, whatever else reached it.
pub proof fn lemma_complete_session_records_all(
    client_id: nat,
    expected: nat,
    events: Seq<RecvEvent>,
)
    requires
        ReceiverView::start(client_id, expected).after(events).phase is Complete,
    ensures
        ReceiverView::start(client_id, expected).recorded(events).len() == expected,
{
    lemma_run_counts_rows(ReceiverView::start(client_id, expected), events);
}

/// A session that ends in any other way has recorded fewer rows than it
/// expected.
pub proof fn lemma_incomplete_session_records_fewer(
    client_id: nat,
    expected: nat,
    events: Seq<RecvEvent>,
)
    requires
        !(ReceiverView::start(client_id, expected).after(events).phase is Complete),
    ensures
        ReceiverView::start(client_id, expected).recorded(events).len() < expected,
{
    lemma_run_counts_rows(ReceiverView::start(client_id, expected), events);
}

/// Every row that a receiver records names the receiver's own session and
/// gives the time from the server's stamp to its arrival as its client
/// latency.
pub proof fn lemma_recorded_rows_belong_to_session(s: ReceiverView, events: Seq<RecvEvent>, i: int)
    requires
        0 <= i < s.recorded(events).len(),
    ensures
        s.recorded(events)[i].client_id == s.client_id,
        s.recorded(events)[i].client_latency == latency(
            s.recorded(events)[i].server_created_at,
            s.recorded(events)[i].recv_ts,
        ),
    decreases events.len(),
{
    if events.len() > 0 {
        let earlier = s.recorded(events.drop_last());
        lemma_run_keeps_session(s, events.drop_last());
        if i < earlier.len() {
            lemma_recorded_rows_belong_to_session(s, events.drop_last(), i);
        }
    }
}

/// Taking events never changes the session that a receiver belongs to.
pub proof fn lemma_run_keeps_session(s: ReceiverView, events: Seq<RecvEvent>)
    ensures
        s.after(events).client_id == s.client_id,
        s.after(events).expected == s.expected,
    decreases events.len(),
{
    if events.len() > 0 {
        lemma_run_keeps_session(s, events.drop_last());
    }
}

/// A receiver that is no longer receiving stays as it is and records
/// nothing more.
pub proof fn lemma_finished_receiver_is_inert(s: ReceiverView, events: Seq<RecvEvent>)
    requires
        !(s.phase is Receiving),
    ensures
        s.after(events) == s,
        s.recorded(events).len() == 0,
    decreases events.len(),
{
    if events.len() > 0 {
        lemma_finished_receiver_is_inert(s, events.drop_last());
    }
}


/// Whether an event is a frame that session `client_id` records.
pub open spec fn is_recorded(client_id: nat, event: RecvEvent) -> bool {
    event matches RecvEvent::Frame(frame, recv_ts) && outcome_of(client_id, frame, recv_ts)
        is Record
}

/// A session that is handed nothing but responses of its own records each
/// of them until it has as many as it expects, and then is complete.
pub proof fn lemma_own_responses_complete_session(
    client_id: nat,
    expected: nat,
    events: Seq<RecvEvent>,
)
    requires
        forall|i: int| 0 <= i < events.len() ==> is_recorded(client_id, #[trigger] events[i]),
    ensures
        ({
            let start = ReceiverView::start(client_id, expected);
            &&& start.after(events).received == if events.len() <= expected {
                events.len()
            } else {
                expected
            }
            &&& start.recorded(events).len() == start.after(events).received
            &&& (start.after(events).phase is Complete <==> events.len() >= expected)
            &&& (start.after(events).phase is Receiving <==> events.len() < expected)
        }),
    decreases events.len(),
{
    let start = ReceiverView::start(client_id, expected);
    if events.len() > 0 {
        let earlier = events.drop_last();
        assert(forall|i: int| 0 <= i < earlier.len() ==> earlier[i] == events[i]);
        lemma_own_responses_complete_session(client_id, expected, earlier);
        lemma_run_keeps_session(start, earlier);
        assert(is_recorded(client_id, events[events.len() - 1]));
    }
}

} // verus!
