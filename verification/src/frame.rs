//! Frames as the two ends of a connection see them, once the transport has
//! told their kinds apart and decoded their payloads.

use crate::message::{ClientMessage, ClientMessageView, ServerMessage, ServerMessageView};
use vstd::prelude::*;

verus! {

/// A breach of the protocol. The task that meets one ends at once.
#[derive(Debug, Clone, Copy, PartialEq, Eq, Structural)]
pub enum Violation {
    /// A binary payload that does not decode as the expected envelope.
    Undecodable,
    /// A response that names another session.
    ForeignClient,
    /// A frame of a kind that has no place on the data path.
    UnexpectedFrame,
}

/// A frame that a client receives.
#[derive(Debug, Clone, PartialEq, Eq)]
pub enum ServerFrame {
    /// A binary frame whose payload decodes as a response.
    Message(ServerMessage),
    /// A binary frame whose payload does not decode.
    Malformed,
    /// A close frame.
    Close,
    /// A frame of any other kind.
    Other,
}

/// What a frame received by a client says.
pub enum ServerFrameView {
    Message(ServerMessageView),
    Malformed,
    Close,
    Other,
}

impl View for ServerFrame {
    type V = ServerFrameView;

    open spec fn view(&self) -> ServerFrameView {
        match self {
            ServerFrame::Message(m) => ServerFrameView::Message(m@),
            ServerFrame::Malformed => ServerFrameView::Malformed,
            ServerFrame::Close => ServerFrameView::Close,
            ServerFrame::Other => ServerFrameView::Other,
        }
    }
}

/// A frame that the server receives.
#[derive(Debug, Clone, PartialEq, Eq)]
pub enum ClientFrame {
    /// A binary frame whose payload decodes as a request.
    Request(ClientMessage),
    /// A binary frame whose payload does not decode.
    Malformed,
    /// A close frame.
    Close,
    /// A frame of any other kind.
    Other,
}

/// What a frame received by the server says.
pub enum ClientFrameView {
    Request(ClientMessageView),
    Malformed,
    Close,
    Other,
}

impl View for ClientFrame {
    type V = ClientFrameView;

    open spec fn view(&self) -> ClientFrameView {
        match self {
            ClientFrame::Request(m) => ClientFrameView::Request(m@),
            ClientFrame::Malformed => ClientFrameView::Malformed,
            ClientFrame::Close => ClientFrameView::Close,
            ClientFrame::Other => ClientFrameView::Other,
        }
    }
}

} // verus!
