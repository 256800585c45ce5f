//! What a run settles before any session works: who the sessions are, how
//! their sockets are set up, and what a failed handshake leads to.

use vstd::prelude::*;

verus! {

/// Upper bound of the socket's write buffer, in bytes.
pub const MAX_WRITE_BUFFER_BYTES: usize = 1000000;

/// The settings of a session's socket.
#[derive(Debug, Clone, Copy, PartialEq, Eq, Structural)]
pub struct SocketConfig {
    /// Bytes to gather before a write reaches the stream.
    pub write_buffer_size: usize,
    /// Bytes that the write buffer may hold at most.
    pub max_write_buffer_size: usize,
    /// Largest message accepted, if limited.
    pub max_message_size: Option<usize>,
    /// Largest frame accepted, if limited.
    pub max_frame_size: Option<usize>,
    /// Whether frames that come unmasked are accepted.
    pub accept_unmasked_frames: bool,
}

/// The settings with which every session connects: each message is
/// written to the stream at once, the write buffer is bounded, messages
/// and frames of any size are taken, and so are unmasked frames.
pub open spec fn session_socket_config() -> SocketConfig {
    SocketConfig {
        write_buffer_size: 0,
        max_write_buffer_size: MAX_WRITE_BUFFER_BYTES,
        max_message_size: None,
        max_frame_size: None,
        accept_unmasked_frames: true,
    }
}

/// The settings with which every session connects.
pub fn socket_config() -> (config: SocketConfig)
    ensures
        config == session_socket_config(),
        config.write_buffer_size < config.max_write_buffer_size,
{
    SocketConfig {
        write_buffer_size: 0,
        max_write_buffer_size: MAX_WRITE_BUFFER_BYTES,
        max_message_size: None,
        max_frame_size: None,
        accept_unmasked_frames: true,
    }
}

/// The identifiers of the sessions of a run with `n_clients` clients: the
/// numbers below `n_clients`, each once, in rising order.
pub fn client_ids(n_clients: usize) -> (ids: Vec<usize>)
    ensures
        ids@.len() == n_clients,
        forall|i: int| 0 <= i < n_clients ==> ids@[i] == i,
{
    let mut ids: Vec<usize> = Vec::new();
    let mut next: usize = 0;
    while next < n_clients
        invariant
            next <= n_clients,
            ids@.len() == next,
            forall|i: int| 0 <= i < next ==> ids@[i] == i,
        decreases n_clients - next,
    {
        ids.push(next);
        next += 1;
    }
    ids
}

/// What follows a handshake attempt.
#[derive(Debug, Clone, Copy, PartialEq, Eq, Structural)]
pub enum ConnectStep {
    /// The session is connected.
    Ready,
    /// Try again after this many milliseconds.
    Retry(u64),
}

/// What follows a handshake attempt that ended as `connected` says: a
/// failed one is tried again at once, however many failed before it.
pub fn after_attempt(connected: bool) -> (step: ConnectStep)
    ensures
        step == if connected {
            ConnectStep::Ready
        } else {
            ConnectStep::Retry(0)
        },
{
    if connected {
        ConnectStep::Ready
    } else {
        ConnectStep::Retry(0)
    }
}

/// No two sessions of a run share an identifier.
pub proof fn lemma_client_ids_distinct(ids: Seq<usize>, i: int, j: int)
    requires
        forall|k: int| 0 <= k < ids.len() ==> ids[k] == k,
        0 <= i < ids.len(),
        0 <= j < ids.len(),
        i != j,
    ensures
        ids[i] != ids[j],
{
}

} // verus!
