//! What holds of a run as a whole, across its sender, the echo handler,
//! its receiver and the sink.

use crate::csv::{header_text, is_data_row, row_text, Row};
use crate::message::{response_to, row_of, ClientMessageView, ServerMessageView};
use crate::receiver::{is_recorded, ReceiverView, RecvEvent};
use crate::sender::SenderView;
use crate::server::WRITE_FACTOR;
use crate::sink::{concat, file_text};
use vstd::prelude::*;

verus! {

/// Along the path of one request the three timestamps of its row are in
/// order and the two latencies are their differences, provided that each
/// clock reading is no earlier than the one before it: the request was
/// stamped at `request.created_at`, answered at `now` and the answer
/// received at `recv_ts`.
pub proof fn lemma_row_timestamps_in_order(request: ClientMessageView, now: nat, recv_ts: nat)
    requires
        request.created_at <= now,
        now <= recv_ts,
    ensures
        ({
            let row = row_of(response_to(request, now), recv_ts);
            &&& row.recv_ts >= row.server_created_at >= row.client_created_at
            &&& row.client_latency == row.recv_ts - row.server_created_at
            &&& row.server_latency == row.server_created_at - row.client_created_at
            &&& row.client_id == request.client_id
            &&& row.msg_id == request.msg_id
        }),
{
}

/// The line of every response is a data row.
pub proof fn lemma_recorded_line_is_row(m: ServerMessageView, recv_ts: nat)
    ensures
        is_data_row(row_text(row_of(m, recv_ts))),
{
}

/// With the receive factor equal to the server's fan-out factor, the
/// copies that the server sends for the requests of a session are as many
/// as the session expects.
pub proof fn lemma_fan_out_meets_expectation(batch_size: nat, n_batch: nat, rcv_factor: nat)
    requires
        rcv_factor == WRITE_FACTOR,
    ensures
        WRITE_FACTOR * (n_batch * batch_size) == batch_size * n_batch * rcv_factor,
{
    assert(WRITE_FACTOR * (n_batch * batch_size) == batch_size * n_batch * rcv_factor)
        by (nonlinear_arith)
        requires
            rcv_factor == WRITE_FACTOR,
    ;
}

/// A run without batches, or with empty ones, sends no request, expects
/// and records no row, and leaves a file that holds the header alone.
pub proof fn lemma_empty_run_leaves_header_only(
    client_id: nat,
    batch_size: nat,
    n_batch: nat,
    wait_ms: nat,
    rcv_factor: nat,
    results: Seq<bool>,
    events: Seq<RecvEvent>,
)
    requires
        batch_size == 0 || n_batch == 0,
    ensures
        SenderView::start(client_id, batch_size, n_batch, wait_ms).sent(results).len() == 0,
        batch_size * n_batch * rcv_factor == 0,
        ReceiverView::start(client_id, batch_size * n_batch * rcv_factor).recorded(events).len()
            == 0,
        file_text(Seq::empty()) == header_text(),
{
    assert(n_batch * batch_size == 0 && batch_size * n_batch * rcv_factor == 0)
        by (nonlinear_arith)
        requires
            batch_size == 0 || n_batch == 0,
    ;
    crate::sender::lemma_session_sends_every_request(
        client_id,
        batch_size,
        n_batch,
        wait_ms,
        results,
    );
    crate::receiver::lemma_finished_receiver_is_inert(ReceiverView::start(client_id, 0), events);
    assert(concat(Seq::<Seq<char>>::empty()) =~= Seq::<char>::empty());
    assert(file_text(Seq::empty()) =~= header_text());
}

/// The lines of the rows, in order.
pub open spec fn lines_of(rows: Seq<Row>) -> Seq<Seq<char>> {
    Seq::new(rows.len(), |i: int| row_text(rows[i]))
}

/// The file of a session that completes, alone in its run: the header,
/// then one data row for each frame that it expected, each naming the
/// session.
pub proof fn lemma_complete_session_file(client_id: nat, expected: nat, events: Seq<RecvEvent>)
    requires
        ReceiverView::start(client_id, expected).after(events).phase is Complete,
    ensures
        ({
            let rows = ReceiverView::start(client_id, expected).recorded(events);
            &&& rows.len() == expected
            &&& lines_of(rows).len() == expected
            &&& forall|i: int| 0 <= i < rows.len() ==> (#[trigger] rows[i]).client_id == client_id
            &&& forall|i: int|
                0 <= i < rows.len() ==> is_data_row(#[trigger] lines_of(rows)[i])
        }),
{
    let start = ReceiverView::start(client_id, expected);
    let rows = start.recorded(events);
    crate::receiver::lemma_complete_session_records_all(client_id, expected, events);
    assert forall|i: int| 0 <= i < rows.len() implies (#[trigger] rows[i]).client_id
        == client_id by {
        crate::receiver::lemma_recorded_rows_belong_to_session(start, events, i);
    }
}


/// With the receive factor equal to the server's fan-out factor, a session
/// whose every request is answered in full, and which is handed all the
/// copies and nothing else, completes with a row for each copy.
pub proof fn lemma_echoed_session_completes(
    client_id: nat,
    batch_size: nat,
    n_batch: nat,
    rcv_factor: nat,
    events: Seq<RecvEvent>,
)
    requires
        rcv_factor == WRITE_FACTOR,
        events.len() == WRITE_FACTOR * (n_batch * batch_size),
        forall|i: int| 0 <= i < events.len() ==> is_recorded(client_id, #[trigger] events[i]),
    ensures
        ({
            let start = ReceiverView::start(client_id, batch_size * n_batch * rcv_factor);
            &&& start.after(events).phase is Complete
            &&& start.recorded(events).len() == batch_size * n_batch * rcv_factor
        }),
{
    lemma_fan_out_meets_expectation(batch_size, n_batch, rcv_factor);
    crate::receiver::lemma_own_responses_complete_session(
        client_id,
        batch_size * n_batch * rcv_factor,
        events,
    );
}

/// A session that expects more copies of each response than the server
/// sends never completes: with all the copies in hand it still waits.
pub proof fn lemma_short_fan_out_stalls(
    client_id: nat,
    batch_size: nat,
    n_batch: nat,
    rcv_factor: nat,
    events: Seq<RecvEvent>,
)
    requires
        rcv_factor > WRITE_FACTOR,
        batch_size > 0,
        n_batch > 0,
        events.len() == WRITE_FACTOR * (n_batch * batch_size),
        forall|i: int| 0 <= i < events.len() ==> is_recorded(client_id, #[trigger] events[i]),
    ensures
        ReceiverView::start(client_id, batch_size * n_batch * rcv_factor).after(events).phase
            is Receiving,
{
    assert(WRITE_FACTOR * (n_batch * batch_size) < batch_size * n_batch * rcv_factor)
        by (nonlinear_arith)
        requires
            rcv_factor > WRITE_FACTOR,
            batch_size > 0,
            n_batch > 0,
    ;
    crate::receiver::lemma_own_responses_complete_session(
        client_id,
        batch_size * n_batch * rcv_factor,
        events,
    );
}


/// The number of rows that name session `client_id`.
pub open spec fn rows_naming(rows: Seq<Row>, client_id: nat) -> nat
    decreases rows.len(),
{
    if rows.len() == 0 {
        0
    } else {
        rows_naming(rows.drop_last(), client_id) + if rows.last().client_id == client_id {
            1nat
        } else {
            0nat
        }
    }
}

/// Of the rows of a file, those that came from session `session`, in
/// their order, where `origin[i]` is the session that row `i` came from.
pub open spec fn rows_from(rows: Seq<Row>, origin: Seq<nat>, session: nat) -> Seq<Row>
    recommends
        rows.len() == origin.len(),
    decreases rows.len(),
{
    if rows.len() == 0 || origin.len() == 0 {
        Seq::empty()
    } else if origin.last() == session {
        rows_from(rows.drop_last(), origin.drop_last(), session).push(rows.last())
    } else {
        rows_from(rows.drop_last(), origin.drop_last(), session)
    }
}

/// Every row of a file is among the rows that came from its session.
pub proof fn lemma_row_is_among_its_session(rows: Seq<Row>, origin: Seq<nat>, i: int)
    requires
        rows.len() == origin.len(),
        0 <= i < rows.len(),
    ensures
        exists|j: int|
            0 <= j < rows_from(rows, origin, origin[i]).len() && #[trigger] rows_from(
                rows,
                origin,
                origin[i],
            )[j] == rows[i],
    decreases rows.len(),
{
    let session = origin[i];
    let earlier = rows_from(rows.drop_last(), origin.drop_last(), session);
    if i == rows.len() - 1 {
        assert(rows_from(rows, origin, session)[earlier.len() as int] == rows[i]);
    } else {
        lemma_row_is_among_its_session(rows.drop_last(), origin.drop_last(), i);
        let j = choose|j: int| 0 <= j < earlier.len() && #[trigger] earlier[j] == rows[i];
        assert(rows_from(rows, origin, session)[j] == rows[i]);
    }
}

/// Where each row names the session that it came from and no two sessions
/// share an identifier, the rows that name a session are as many as came
/// from it.
pub proof fn lemma_rows_counted_by_name(
    rows: Seq<Row>,
    origin: Seq<nat>,
    ids: Seq<nat>,
    session: nat,
)
    requires
        rows.len() == origin.len(),
        session < ids.len(),
        forall|i: int| 0 <= i < rows.len() ==> #[trigger] origin[i] < ids.len(),
        forall|i: int| 0 <= i < rows.len() ==> (#[trigger] rows[i]).client_id == ids[origin[i] as int],
        forall|a: int, b: int| 0 <= a < b < ids.len() ==> ids[a] != ids[b],
    ensures
        rows_naming(rows, ids[session as int]) == rows_from(rows, origin, session).len(),
    decreases rows.len(),
{
    if rows.len() > 0 {
        let last = rows.len() - 1;
        assert(forall|i: int| 0 <= i < last ==> rows.drop_last()[i] == rows[i]);
        assert(forall|i: int| 0 <= i < last ==> origin.drop_last()[i] == origin[i]);
        lemma_rows_counted_by_name(rows.drop_last(), origin.drop_last(), ids, session);
        assert(rows.last() == rows[last] && origin.last() == origin[last]);
        assert(origin[last] < ids.len());
    }
}

/// The file of a whole run. Sessions `0` to `sessions - 1` each expect
/// `expected` frames and take the events `events[s]`; their rows reach the
/// file in any order whatever, each session's own rows in the order in
/// which it recorded them. Then the rows that name a session are exactly
/// those that it recorded, and for a session that completes they are
/// `expected` many.
pub proof fn lemma_file_rows_per_session(
    sessions: nat,
    expected: nat,
    events: Seq<Seq<RecvEvent>>,
    rows: Seq<Row>,
    origin: Seq<nat>,
    session: nat,
)
    requires
        events.len() == sessions,
        rows.len() == origin.len(),
        forall|i: int| 0 <= i < rows.len() ==> #[trigger] origin[i] < sessions,
        forall|s: nat|
            s < sessions ==> #[trigger] rows_from(rows, origin, s) == ReceiverView::start(
                s,
                expected,
            ).recorded(events[s as int]),
        session < sessions,
    ensures
        rows_naming(rows, session) == ReceiverView::start(session, expected).recorded(
            events[session as int],
        ).len(),
        ReceiverView::start(session, expected).after(events[session as int]).phase is Complete
            ==> rows_naming(rows, session) == expected,
{
    let ids = Seq::new(sessions, |s: int| s as nat);
    assert forall|i: int| 0 <= i < rows.len() implies (#[trigger] rows[i]).client_id
        == ids[origin[i] as int] by {
        let s = origin[i];
        assert(s < sessions);
        lemma_row_is_among_its_session(rows, origin, i);
        let j = choose|j: int|
            0 <= j < rows_from(rows, origin, s).len() && #[trigger] rows_from(rows, origin, s)[j]
                == rows[i];
        crate::receiver::lemma_recorded_rows_belong_to_session(
            ReceiverView::start(s, expected),
            events[s as int],
            j,
        );
    }
    lemma_rows_counted_by_name(rows, origin, ids, session);
    crate::receiver::lemma_run_counts_rows(
        ReceiverView::start(session, expected),
        events[session as int],
    );
}

} // verus!
