//! The sending half of a client session: a phase offset, then one batch of
//! requests per tick, then a close frame. A request that cannot be sent,
//! or a batch that cannot be flushed, ends the sender there and then.

use crate::message::{is_padding, ClientMessage, PADDING_LEN};
use vstd::prelude::*;

verus! {

/// Sessions start their first batch spread over this many milliseconds.
pub const PHASE_SPREAD_MS: usize = 100;

/// Status code of the close frame that ends a session: normal closure.
pub const CLOSE_CODE: u16 = 1000;

/// Reason given in the close frame that ends a session.
pub const CLOSE_REASON: &'static str = "Finished msgs";

/// What a sender asks its driver to do next.
#[derive(Debug, Clone, PartialEq, Eq)]
pub enum SendAction {
    /// Wait this many milliseconds.
    Sleep(u64),
    /// Wait for the next tick of the pacing timer.
    Tick,
    /// Serialize this request and queue it on the connection.
    Send(ClientMessage),
    /// Flush what the batch has queued.
    Flush,
    /// Send a close frame with status `CLOSE_CODE` and reason
    /// `CLOSE_REASON`.
    Close,
    /// Nothing is left to do.
    Done,
}

/// The kind of an action, with what the sender itself decides of it.
pub enum Planned {
    Sleep(nat),
    Tick,
    /// A request with this identifier.
    Send(nat),
    Flush,
    Close,
    Done,
}

/// Where a sender stands: the action that it asked for last.
#[derive(Debug, Clone, Copy, PartialEq, Eq, Structural)]
pub enum SendPhase {
    Start,
    Sleeping,
    Ticking,
    Sending,
    Flushing,
    Closing,
    Done,
}

/// The state of a sender.
pub struct SenderView {
    pub client_id: nat,
    pub batch_size: nat,
    pub n_batch: nat,
    pub wait_ms: nat,
    pub phase: SendPhase,
    /// The batch that is under way, or the number of batches when none is.
    pub batch_idx: nat,
    /// The place in its batch of the request sent last.
    pub msg_idx: nat,
}

/// The identifier of the request at place `msg_idx` of batch `batch_idx`.
pub open spec fn msg_id_of(batch_idx: nat, msg_idx: nat) -> nat {
    msg_idx + batch_idx
}

/// Whether every identifier of a run with these settings fits the machine
/// word.
pub open spec fn ids_fit(batch_size: nat, n_batch: nat) -> bool {
    batch_size == 0 || n_batch == 0 || batch_size + n_batch - 2 <= usize::MAX
}

impl SenderView {
    /// The indices stay within the run's settings.
    pub open spec fn wf(self) -> bool {
        match self.phase {
            SendPhase::Start | SendPhase::Sleeping => self.batch_idx == 0,
            SendPhase::Ticking | SendPhase::Flushing => self.batch_idx < self.n_batch,
            SendPhase::Sending => self.batch_idx < self.n_batch && self.msg_idx < self.batch_size,
            SendPhase::Closing | SendPhase::Done => self.batch_idx == self.n_batch,
        }
    }

    /// The sender of session `client_id` before its first action.
    pub open spec fn start(client_id: nat, batch_size: nat, n_batch: nat, wait_ms: nat) -> SenderView {
        SenderView {
            client_id,
            batch_size,
            n_batch,
            wait_ms,
            phase: SendPhase::Start,
            batch_idx: 0,
            msg_idx: 0,
        }
    }

    /// Turns to batch `batch_idx`: a tick opens it, and past the last batch
    /// the close frame follows.
    pub open spec fn begin_batch(self, batch_idx: nat) -> (SenderView, Planned) {
        if batch_idx < self.n_batch {
            (SenderView { phase: SendPhase::Ticking, batch_idx, ..self }, Planned::Tick)
        } else {
            (SenderView { phase: SendPhase::Closing, batch_idx, ..self }, Planned::Close)
        }
    }

    /// The end that a failed send or flush brings: nothing follows, neither
    /// a later batch nor the close frame.
    pub open spec fn give_up(self) -> (SenderView, Planned) {
        (SenderView { phase: SendPhase::Done, batch_idx: self.n_batch, ..self }, Planned::Done)
    }

    /// The next state and action, where `prev_ok` tells whether the action
    /// asked for last succeeded. A request that could not be sent and a
    /// batch that could not be flushed end the sender at once. Waiting
    /// cannot fail, and a close frame that could not be sent ends the sender
    /// as one that could.
    pub open spec fn next(self, prev_ok: bool) -> (SenderView, Planned) {
        match self.phase {
            SendPhase::Start => (
                SenderView { phase: SendPhase::Sleeping, ..self },
                Planned::Sleep(self.client_id % (PHASE_SPREAD_MS as nat)),
            ),
            SendPhase::Sleeping => self.begin_batch(0),
            SendPhase::Ticking => if self.batch_size == 0 {
                (SenderView { phase: SendPhase::Flushing, ..self }, Planned::Flush)
            } else {
                (
                    SenderView { phase: SendPhase::Sending, msg_idx: 0, ..self },
                    Planned::Send(msg_id_of(self.batch_idx, 0)),
                )
            },
            SendPhase::Sending => if !prev_ok {
                self.give_up()
            } else if self.msg_idx + 1 < self.batch_size {
                (
                    SenderView { msg_idx: self.msg_idx + 1, ..self },
                    Planned::Send(msg_id_of(self.batch_idx, self.msg_idx + 1)),
                )
            } else {
                (SenderView { phase: SendPhase::Flushing, ..self }, Planned::Flush)
            },
            SendPhase::Flushing => if !prev_ok {
                self.give_up()
            } else {
                self.begin_batch(self.batch_idx + 1)
            },
            SendPhase::Closing | SendPhase::Done => (
                SenderView { phase: SendPhase::Done, ..self },
                Planned::Done,
            ),
        }
    }

    /// The state after as many actions as `results` has entries, where
    /// `results[i]` tells whether the action before the `i`-th one succeeded.
    pub open spec fn after(self, results: Seq<bool>) -> SenderView
        decreases results.len(),
    {
        if results.len() == 0 {
            self
        } else {
            self.after(results.drop_last()).next(results.last()).0
        }
    }

    /// The identifiers of the requests sent over those actions, in order.
    pub open spec fn sent(self, results: Seq<bool>) -> Seq<nat>
        decreases results.len(),
    {
        if results.len() == 0 {
            Seq::empty()
        } else {
            let earlier = self.sent(results.drop_last());
            match self.after(results.drop_last()).next(results.last()).1 {
                Planned::Send(msg_id) => earlier.push(msg_id),
                _ => earlier,
            }
        }
    }

    /// The number of requests that a sender in this state has sent if none
    /// of its sends failed.
    pub open spec fn position(self) -> nat {
        self.batch_idx * self.batch_size + match self.phase {
            SendPhase::Sending => self.msg_idx + 1,
            SendPhase::Flushing => self.batch_size,
            _ => 0,
        }
    }

    /// The largest number of actions that a sender in this state may still
    /// ask for: a tick, the requests and a flush for each batch to come,
    /// then the close frame and the end.
    pub open spec fn actions_left(self) -> nat {
        let size = self.batch_size as int;
        let batches = self.n_batch as int;
        let per_batch = size + 2;
        let later = (batches - self.batch_idx - 1) * per_batch + 2;
        let left = match self.phase {
            SendPhase::Start => batches * per_batch + 3,
            SendPhase::Sleeping => batches * per_batch + 2,
            SendPhase::Ticking => size + 1 + later,
            SendPhase::Sending => size - self.msg_idx + later,
            SendPhase::Flushing => later,
            SendPhase::Closing => 1,
            SendPhase::Done => 0,
        };
        left as nat
    }
}

/// Whether `action` carries out `plan` for session `client_id` at time
/// `now`: a request has the planned identifier, the session's own, the
/// stamp `now` and padding of the fixed length.
pub open spec fn fulfils(action: SendAction, plan: Planned, client_id: nat, now: nat) -> bool {
    match plan {
        Planned::Sleep(ms) => action == SendAction::Sleep(ms as u64),
        Planned::Tick => action == SendAction::Tick,
        Planned::Send(msg_id) => action matches SendAction::Send(m) && m.client_id == client_id
            && m.msg_id == msg_id && m.created_at == now && is_padding(m.msg@, PADDING_LEN as nat),
        Planned::Flush => action == SendAction::Flush,
        Planned::Close => action == SendAction::Close,
        Planned::Done => action == SendAction::Done,
    }
}

/// The sending half of one session.
pub struct Sender {
    client_id: usize,
    batch_size: usize,
    n_batch: usize,
    wait_ms: usize,
    phase: SendPhase,
    batch_idx: usize,
    msg_idx: usize,
}

impl View for Sender {
    type V = SenderView;

    closed spec fn view(&self) -> SenderView {
        SenderView {
            client_id: self.client_id as nat,
            batch_size: self.batch_size as nat,
            n_batch: self.n_batch as nat,
            wait_ms: self.wait_ms as nat,
            phase: self.phase,
            batch_idx: self.batch_idx as nat,
            msg_idx: self.msg_idx as nat,
        }
    }
}

impl Sender {
    #[verifier::type_invariant]
    spec fn inv(&self) -> bool {
        self@.wf() && ids_fit(self.batch_size as nat, self.n_batch as nat)
    }

    /// The sender of session `client_id`, which is to send `n_batch`
    /// batches of `batch_size` requests, one batch every `wait_ms`
    /// milliseconds. `None` where an identifier would not fit the machine
    /// word.
    pub fn new(client_id: usize, batch_size: usize, n_batch: usize, wait_ms: usize) -> (sender:
        Option<Sender>)
        ensures
            match sender {
                Some(s) => ids_fit(batch_size as nat, n_batch as nat) && s@ == SenderView::start(
                    client_id as nat,
                    batch_size as nat,
                    n_batch as nat,
                    wait_ms as nat,
                ),
                None => !ids_fit(batch_size as nat, n_batch as nat),
            },
    {
        if batch_size > 0 && n_batch > 0 && batch_size - 1 > usize::MAX - (n_batch - 1) {
            return None;
        }
        Some(
            Sender {
                client_id,
                batch_size,
                n_batch,
                wait_ms,
                phase: SendPhase::Start,
                batch_idx: 0,
                msg_idx: 0,
            },
        )
    }

    /// Where the sender stands.
    pub fn phase(&self) -> (phase: SendPhase)
        ensures
            phase == self@.phase,
    {
        self.phase
    }

    /// Whether nothing is left to do.
    pub fn is_done(&self) -> (yes: bool)
        ensures
            yes == (self@.phase is Done),
    {
        match self.phase {
            SendPhase::Done => true,
            _ => false,
        }
    }

    /// The period of the pacing timer in milliseconds, or `None` where
    /// batches follow one another without a wait.
    pub fn tick_period_ms(&self) -> (period: Option<u64>)
        ensures
            period == if self@.wait_ms == 0 {
                None
            } else {
                Some(self@.wait_ms as u64)
            },
    {
        if self.wait_ms == 0 {
            None
        } else {
            Some(self.wait_ms as u64)
        }
    }

    fn begin_batch(&mut self, batch_idx: usize) -> (action: SendAction)
        requires
            batch_idx <= old(self).n_batch,
        ensures
            final(self)@ == old(self)@.begin_batch(batch_idx as nat).0,
            fulfils(action, old(self)@.begin_batch(batch_idx as nat).1, old(self)@.client_id, 0),
    {
        proof {
            use_type_invariant(&*self);
        }
        if batch_idx < self.n_batch {
            *self = Sender { phase: SendPhase::Ticking, batch_idx, ..*self };
            SendAction::Tick
        } else {
            *self = Sender { phase: SendPhase::Closing, batch_idx, ..*self };
            SendAction::Close
        }
    }

    fn give_up(&mut self) -> (action: SendAction)
        ensures
            final(self)@ == old(self)@.give_up().0,
            action == SendAction::Done,
    {
        proof {
            use_type_invariant(&*self);
        }
        *self = Sender { phase: SendPhase::Done, batch_idx: self.n_batch, ..*self };
        SendAction::Done
    }

    /// The next action, where `prev_ok` tells whether the action asked for
    /// last succeeded and `now` is the time in milliseconds since the epoch,
    /// with which a request is stamped. After a failed send or flush the
    /// answer is `Done`, then and ever after.
    pub fn next(&mut self, prev_ok: bool, now: u128) -> (action: SendAction)
        ensures
            final(self)@ == old(self)@.next(prev_ok).0,
            fulfils(action, old(self)@.next(prev_ok).1, old(self)@.client_id, now as nat),
    {
        proof {
            use_type_invariant(&*self);
        }
        match self.phase {
            SendPhase::Start => {
                *self = Sender { phase: SendPhase::Sleeping, ..*self };
                SendAction::Sleep((self.client_id % PHASE_SPREAD_MS) as u64)
            },
            SendPhase::Sleeping => self.begin_batch(0),
            SendPhase::Ticking => {
                if self.batch_size == 0 {
                    *self = Sender { phase: SendPhase::Flushing, ..*self };
                    SendAction::Flush
                } else {
                    *self = Sender { phase: SendPhase::Sending, msg_idx: 0, ..*self };
                    SendAction::Send(ClientMessage::new(now, self.client_id, self.batch_idx))
                }
            },
            SendPhase::Sending => {
                if !prev_ok {
                    self.give_up()
                } else if self.msg_idx + 1 < self.batch_size {
                    let msg_idx = self.msg_idx + 1;
                    *self = Sender { msg_idx, ..*self };
                    SendAction::Send(
                        ClientMessage::new(now, self.client_id, msg_idx + self.batch_idx),
                    )
                } else {
                    *self = Sender { phase: SendPhase::Flushing, ..*self };
                    SendAction::Flush
                }
            },
            SendPhase::Flushing => {
                if !prev_ok {
                    self.give_up()
                } else {
                    self.begin_batch(self.batch_idx + 1)
                }
            },
            SendPhase::Closing => {
                *self = Sender { phase: SendPhase::Done, ..*self };
                SendAction::Done
            },
            SendPhase::Done => SendAction::Done,
        }
    }
}


/// A well-formed sender has sent no more requests than the run holds, and
/// all of them once it turns to the close frame.
pub proof fn lemma_position_bounded(s: SenderView)
    requires
        s.wf(),
    ensures
        s.position() <= s.n_batch * s.batch_size,
        s.phase is Closing || s.phase is Done ==> s.position() == s.n_batch * s.batch_size,
{
    let b = s.batch_idx as int;
    let n = s.n_batch as int;
    let size = s.batch_size as int;
    if b < n {
        assert(b * size + size <= n * size) by (nonlinear_arith)
            requires
                0 <= b < n,
                0 <= size,
        ;
    }
}

/// One action keeps a sender well formed and its settings as they were.
/// It never moves the position back: a request sent moves it forward by
/// exactly one, and nothing else moves it unless a send or a flush failed.
pub proof fn lemma_next_advances(s: SenderView, prev_ok: bool)
    requires
        s.wf(),
    ensures
        s.next(prev_ok).0.wf(),
        s.next(prev_ok).0.client_id == s.client_id,
        s.next(prev_ok).0.batch_size == s.batch_size,
        s.next(prev_ok).0.n_batch == s.n_batch,
        s.next(prev_ok).0.wait_ms == s.wait_ms,
        s.position() + (if s.next(prev_ok).1 is Send {
            1nat
        } else {
            0nat
        }) <= s.next(prev_ok).0.position(),
        prev_ok ==> s.position() + (if s.next(prev_ok).1 is Send {
            1nat
        } else {
            0nat
        }) == s.next(prev_ok).0.position(),
        s.next(prev_ok).1 matches Planned::Send(id) ==> id == msg_id_of(
            s.next(prev_ok).0.batch_idx,
            s.next(prev_ok).0.msg_idx,
        ) && s.next(prev_ok).0.phase is Sending,
{
    let b = s.batch_idx as int;
    let size = s.batch_size as int;
    assert((b + 1) * size == b * size + size) by (nonlinear_arith);
    assert(0 * size == 0) by (nonlinear_arith);
    lemma_position_bounded(s);
}

/// Over any run a sender stays well formed and keeps its settings, and the
/// requests that it sends are counted by its position: no more than the
/// position moved, and exactly as many where no action failed.
pub proof fn lemma_run_counts_requests(s: SenderView, results: Seq<bool>)
    requires
        s.wf(),
    ensures
        s.after(results).wf(),
        s.after(results).client_id == s.client_id,
        s.after(results).batch_size == s.batch_size,
        s.after(results).n_batch == s.n_batch,
        s.after(results).wait_ms == s.wait_ms,
        s.position() + s.sent(results).len() <= s.after(results).position(),
        (forall|i: int| 0 <= i < results.len() ==> results[i]) ==> s.position() + s.sent(
            results,
        ).len() == s.after(results).position(),
    decreases results.len(),
{
    if results.len() > 0 {
        let earlier = results.drop_last();
        lemma_run_counts_requests(s, earlier);
        lemma_next_advances(s.after(earlier), results.last());
        if forall|i: int| 0 <= i < results.len() ==> results[i] {
            assert(forall|i: int| 0 <= i < earlier.len() ==> earlier[i] == results[i]);
            assert(results.last() == results[results.len() - 1]);
        }
    }
}

/// A session never sends more requests than its batches hold, and where
/// nothing failed it has sent all of them, `batch_size * n_batch`, by the
/// time it turns to the close frame.
pub proof fn lemma_session_sends_every_request(
    client_id: nat,
    batch_size: nat,
    n_batch: nat,
    wait_ms: nat,
    results: Seq<bool>,
)
    ensures
        ({
            let start = SenderView::start(client_id, batch_size, n_batch, wait_ms);
            &&& start.sent(results).len() <= n_batch * batch_size
            &&& (forall|i: int| 0 <= i < results.len() ==> results[i]) && (start.after(
                results,
            ).phase is Closing || start.after(results).phase is Done) ==> start.sent(
                results,
            ).len() == n_batch * batch_size
        }),
{
    let start = SenderView::start(client_id, batch_size, n_batch, wait_ms);
    assert(start.position() == 0) by (nonlinear_arith)
        requires
            start.batch_idx == 0,
            start.phase is Start,
            start.position() == start.batch_idx * start.batch_size,
    ;
    lemma_run_counts_requests(start, results);
    lemma_position_bounded(start.after(results));
}

/// Every request that a sender sends is identified by its place in its
/// batch plus the number of its batch, both within the run's settings.
pub proof fn lemma_sent_ids(s: SenderView, results: Seq<bool>, i: int)
    requires
        s.wf(),
        0 <= i < s.sent(results).len(),
    ensures
        exists|batch_idx: nat, msg_idx: nat|
            batch_idx < s.n_batch && msg_idx < s.batch_size && s.sent(results)[i] == #[trigger] msg_id_of(
                batch_idx,
                msg_idx,
            ),
    decreases results.len(),
{
    if results.len() > 0 {
        let earlier = results.drop_last();
        if i < s.sent(earlier).len() {
            lemma_sent_ids(s, earlier, i);
        } else {
            lemma_run_counts_requests(s, earlier);
            let before = s.after(earlier);
            lemma_next_advances(before, results.last());
            let now = before.next(results.last()).0;
            assert(s.sent(results)[i] == msg_id_of(now.batch_idx, now.msg_idx));
        }
    }
}


/// Where no action fails, the requests go out batch by batch and place by
/// place: counted from the sender's position, the `i`-th of them has the
/// identifier of its place in its batch.
pub proof fn lemma_requests_in_order(s: SenderView, results: Seq<bool>, i: int)
    requires
        s.wf(),
        forall|k: int| 0 <= k < results.len() ==> results[k],
        0 <= i < s.sent(results).len(),
    ensures
        s.batch_size > 0,
        s.sent(results)[i] == msg_id_of(
            ((s.position() + i) / (s.batch_size as int)) as nat,
            ((s.position() + i) % (s.batch_size as int)) as nat,
        ),
    decreases results.len(),
{
    if results.len() > 0 {
        let earlier = results.drop_last();
        assert(forall|k: int| 0 <= k < earlier.len() ==> earlier[k] == results[k]);
        if i < s.sent(earlier).len() {
            lemma_requests_in_order(s, earlier, i);
        } else {
            lemma_run_counts_requests(s, earlier);
            lemma_run_counts_requests(s, results);
            let before = s.after(earlier);
            lemma_next_advances(before, results.last());
            let now = before.next(results.last()).0;
            assert(now == s.after(results));
            assert(s.sent(results)[i] == msg_id_of(now.batch_idx, now.msg_idx));
            assert(s.position() + i == now.batch_idx * now.batch_size + now.msg_idx);
            vstd::arithmetic::div_mod::lemma_fundamental_div_mod_converse(
                s.position() + i,
                s.batch_size as int,
                now.batch_idx as int,
                now.msg_idx as int,
            );
        }
    }
}

/// Every action but the last brings a sender closer to its end.
pub proof fn lemma_next_comes_closer(s: SenderView, prev_ok: bool)
    requires
        s.wf(),
    ensures
        s.actions_left() == 0 <==> s.phase is Done,
        !(s.phase is Done) ==> s.next(prev_ok).0.actions_left() < s.actions_left(),
        s.phase is Done ==> s.next(prev_ok).0 == s,
{
    let n = s.n_batch as int;
    let b = s.batch_idx as int;
    let per_batch = s.batch_size as int + 2;
    assert(n * per_batch >= 0) by (nonlinear_arith)
        requires
            n >= 0,
            per_batch >= 0,
    ;
    if b < n {
        assert((n - b - 1) * per_batch >= 0) by (nonlinear_arith)
            requires
                n - b - 1 >= 0,
                per_batch >= 0,
        ;
        assert((n - b - 1) * per_batch == (n - (b + 1) - 1) * per_batch + per_batch)
            by (nonlinear_arith);
        assert((n - 0 - 1) * per_batch + per_batch == n * per_batch) by (nonlinear_arith);
        if b + 1 < n {
            assert((n - (b + 1) - 1) * per_batch >= 0) by (nonlinear_arith)
                requires
                    n - (b + 1) - 1 >= 0,
                    per_batch >= 0,
            ;
        }
    }
}

/// A sender ends, whatever fails on its way: once it was asked as often as
/// it had actions left, it is done.
pub proof fn lemma_sender_finishes(s: SenderView, results: Seq<bool>)
    requires
        s.wf(),
    ensures
        s.after(results).actions_left() + results.len() <= s.actions_left() || s.after(
            results,
        ).phase is Done,
        results.len() >= s.actions_left() ==> s.after(results).phase is Done,
    decreases results.len(),
{
    if results.len() > 0 {
        let earlier = results.drop_last();
        lemma_sender_finishes(s, earlier);
        lemma_run_counts_requests(s, earlier);
        lemma_next_comes_closer(s.after(earlier), results.last());
        lemma_run_counts_requests(s, results);
        lemma_next_comes_closer(s.after(results), true);
    } else {
        lemma_next_comes_closer(s, true);
    }
}


/// A sender that is done stays done and sends nothing more, whatever it is
/// told.
pub proof fn lemma_done_sender_is_inert(s: SenderView, results: Seq<bool>)
    requires
        s.phase is Done,
    ensures
        s.after(results) == s,
        s.sent(results).len() == 0,
    decreases results.len(),
{
    if results.len() > 0 {
        lemma_done_sender_is_inert(s, results.drop_last());
    }
}

/// A request that could not be sent, or a batch that could not be
/// flushed, ends the sender: it asks for nothing more, and over whatever
/// follows it sends no request and no close frame.
pub proof fn lemma_failed_send_ends_sender(s: SenderView, results: Seq<bool>)
    requires
        s.phase is Sending || s.phase is Flushing,
    ensures
        s.next(false).1 is Done,
        s.next(false).0.phase is Done,
        s.next(false).0.after(results) == s.next(false).0,
        s.next(false).0.sent(results).len() == 0,
        forall|ok: bool| !(#[trigger] s.next(false).0.next(ok).1 is Close),
{
    lemma_done_sender_is_inert(s.next(false).0, results);
}

} // verus!
