//! The two envelopes of the wire protocol: the request that a client sends
//! and the response that the server fans out.

use crate::csv::{push_row, row_text, Row};
use rand::Rng;
use vstd::prelude::*;

verus! {

/// Target size of a request, in bytes.
pub const MSG_SIZE: usize = 1024;

/// Bytes taken by the fixed-width fields of a request: two 8-byte
/// identifiers and a 16-byte timestamp.
pub const FIXED_FIELD_BYTES: usize = 32;

/// Number of padding characters in every request.
pub const PADDING_LEN: usize = MSG_SIZE - FIXED_FIELD_BYTES;

/// Whether `c` is an ASCII letter or digit.
pub open spec fn is_alphanumeric(c: char) -> bool {
    ('0' <= c <= '9') || ('A' <= c <= 'Z') || ('a' <= c <= 'z')
}

/// Whether `s` is padding of `len` characters: ASCII letters and digits only.
pub open spec fn is_padding(s: Seq<char>, len: nat) -> bool {
    &&& s.len() == len
    &&& forall|i: int| 0 <= i < s.len() ==> is_alphanumeric(#[trigger] s[i])
}

/// One draw from `rand::distributions::Alphanumeric` on the thread-local
/// generator: the call `rand::thread_rng().sample(Alphanumeric)`. Taken on
/// trust from that crate: the distribution hands out a byte of `A-Z`,
/// `a-z` or `0-9`. Which one is left open, and two draws need not agree.
#[verifier::external_body]
fn random_alphanumeric() -> (b: u8)
    ensures
        is_alphanumeric(b as char),
{
    rand::thread_rng().sample(rand::distributions::Alphanumeric)
}

/// Fresh random padding of `len` characters.
pub fn random_padding(len: usize) -> (padding: String)
    ensures
        is_padding(padding@, len as nat),
{
    let mut padding = String::new();
    let mut i: usize = 0;
    while i < len
        invariant
            i <= len,
            is_padding(padding@, i as nat),
        decreases len - i,
    {
        let b = random_alphanumeric();
        padding.push(b as char);
        i += 1;
    }
    padding
}

/// The request envelope.
#[derive(Debug, Clone, PartialEq, Eq)]
pub struct ClientMessage {
    pub client_id: usize,
    pub msg_id: usize,
    pub msg: String,
    pub created_at: u128,
}

/// What a request says.
pub struct ClientMessageView {
    pub client_id: nat,
    pub msg_id: nat,
    pub msg: Seq<char>,
    pub created_at: nat,
}

impl View for ClientMessage {
    type V = ClientMessageView;

    open spec fn view(&self) -> ClientMessageView {
        ClientMessageView {
            client_id: self.client_id as nat,
            msg_id: self.msg_id as nat,
            msg: self.msg@,
            created_at: self.created_at as nat,
        }
    }
}

impl ClientMessage {
    /// A request of session `client_id` with identifier `msg_id`, stamped
    /// `ts` (milliseconds since the epoch) and filled with fresh padding.
    pub fn new(ts: u128, client_id: usize, msg_id: usize) -> (m: ClientMessage)
        ensures
            m.client_id == client_id,
            m.msg_id == msg_id,
            m.created_at == ts,
            is_padding(m.msg@, PADDING_LEN as nat),
    {
        ClientMessage { client_id, msg_id, msg: random_padding(PADDING_LEN), created_at: ts }
    }
}

/// The response envelope.
#[derive(Debug, Clone, PartialEq, Eq)]
pub struct ServerMessage {
    pub client_id: usize,
    pub msg_id: usize,
    pub msg: String,
    /// Server time at which the response was built, in milliseconds.
    pub created_at: u128,
    /// `created_at` of the request.
    pub client_ts: u128,
    pub server_latency: u128,
}

/// What a response says.
pub struct ServerMessageView {
    pub client_id: nat,
    pub msg_id: nat,
    pub msg: Seq<char>,
    pub created_at: nat,
    pub client_ts: nat,
    pub server_latency: nat,
}

impl View for ServerMessage {
    type V = ServerMessageView;

    open spec fn view(&self) -> ServerMessageView {
        ServerMessageView {
            client_id: self.client_id as nat,
            msg_id: self.msg_id as nat,
            msg: self.msg@,
            created_at: self.created_at as nat,
            client_ts: self.client_ts as nat,
            server_latency: self.server_latency as nat,
        }
    }
}

/// The time from `since` to `now`, both in milliseconds. Where the clock
/// reads `now` earlier than `since`, the latency counts as zero.
pub open spec fn latency(since: nat, now: nat) -> nat {
    if since <= now {
        (now - since) as nat
    } else {
        0
    }
}

/// The time from `since` to `now`, both in milliseconds, and zero where
/// `now` is the earlier of the two.
pub fn latency_ms(since: u128, now: u128) -> (ms: u128)
    ensures
        ms == latency(since as nat, now as nat),
{
    if since <= now {
        now - since
    } else {
        0
    }
}

/// The response to `request` that a server builds at time `now`.
pub open spec fn response_to(request: ClientMessageView, now: nat) -> ServerMessageView {
    ServerMessageView {
        client_id: request.client_id,
        msg_id: request.msg_id,
        msg: request.msg,
        created_at: now,
        client_ts: request.created_at,
        server_latency: latency(request.created_at, now),
    }
}

/// The row that records `m`, received at `recv_ts`.
pub open spec fn row_of(m: ServerMessageView, recv_ts: nat) -> Row {
    Row {
        recv_ts,
        client_id: m.client_id,
        msg_id: m.msg_id,
        server_created_at: m.created_at,
        client_created_at: m.client_ts,
        client_latency: latency(m.created_at, recv_ts),
        server_latency: m.server_latency,
    }
}

impl ServerMessage {
    /// The response to `request`, built at server time `now`: identifiers
    /// and padding are those of the request, the latency is the time since
    /// the request was stamped, and zero where the request is stamped later
    /// than `now`.
    pub fn reply_to(request: ClientMessage, now: u128) -> (response: ServerMessage)
        ensures
            response@ == response_to(request@, now as nat),
    {
        ServerMessage {
            client_id: request.client_id,
            msg_id: request.msg_id,
            msg: request.msg,
            created_at: now,
            client_ts: request.created_at,
            server_latency: latency_ms(request.created_at, now),
        }
    }

    /// The line of the result file for this response, received at
    /// `recv_ts`. The client latency is the time since the response was
    /// built, and zero where the response is stamped later than `recv_ts`.
    pub fn format(&self, recv_ts: u128) -> (line: String)
        ensures
            line@ == row_text(row_of(self@, recv_ts as nat)),
    {
        let mut line = String::new();
        push_row(
            &mut line,
            recv_ts,
            self.client_id as u128,
            self.msg_id as u128,
            self.created_at,
            self.client_ts,
            latency_ms(self.created_at, recv_ts),
            self.server_latency,
        );
        line
    }
}


/// Padding takes one byte for each of its characters, so that the padding
/// of every request has the same size on the wire.
pub proof fn lemma_padding_takes_fixed_bytes(padding: Seq<char>, len: nat)
    requires
        is_padding(padding, len),
    ensures
        vstd::utf8::is_ascii_chars(padding),
        vstd::utf8::encode_utf8(padding).len() == len,
{
    assert(vstd::utf8::is_ascii_chars(padding)) by {
        assert forall|i: int| 0 <= i < padding.len() implies '\0' <= #[trigger] padding[i]
            <= '\u{7f}' by {
            assert(is_alphanumeric(padding[i]));
        }
    }
    vstd::utf8::is_ascii_chars_encode_utf8(padding);
}

} // verus!
