//! What the broker decides about a client connection: whether its first
//! line signs it in, and what to do when a line cannot be sent.

use crate::channel::{channel_id_text, ChannelId, ChannelIds, ChannelStatus};
use crate::protocol::{
    header_of, packet_of, Packet, PacketError, PacketErrorView, PacketView, SIGN_IN,
};
use crate::session::{Channel, ChannelView};
use vstd::prelude::*;
use vstd::string::StringExecFns;

verus! {

/// Why the serving side gave up on a connection.
#[derive(Debug, PartialEq)]
pub enum ServerSideError {
    /// The connection could not be accepted.
    ServerAcceptError(String),
    /// A line could not be framed.
    ServerCodecError(String),
    /// No channel could be made for the connection.
    ChannelCreateError,
    /// A line is no packet.
    PacketError(PacketError),
    /// The first line of a connection is not a sign-in.
    FirstPacketError(String),
}

/// What a serving-side error holds.
pub enum ServerSideErrorView {
    ServerAcceptError(Seq<char>),
    ServerCodecError(Seq<char>),
    ChannelCreateError,
    PacketError(PacketErrorView),
    FirstPacketError(Seq<char>),
}

impl View for ServerSideError {
    type V = ServerSideErrorView;

    open spec fn view(&self) -> ServerSideErrorView {
        match self {
            ServerSideError::ServerAcceptError(s) => ServerSideErrorView::ServerAcceptError(s@),
            ServerSideError::ServerCodecError(s) => ServerSideErrorView::ServerCodecError(s@),
            ServerSideError::ChannelCreateError => ServerSideErrorView::ChannelCreateError,
            ServerSideError::PacketError(e) => ServerSideErrorView::PacketError(e@),
            ServerSideError::FirstPacketError(s) => ServerSideErrorView::FirstPacketError(s@),
        }
    }
}

/// An error of the server as a whole.
#[derive(Debug, PartialEq)]
pub enum ServerError {
    /// A packet could not be handed to a channel: the reason of the I/O
    /// failure.
    ChannelSendError(String),
}

/// An error that the client caused.
#[derive(Debug, PartialEq)]
pub enum ClientSideError {
    /// A line is no packet.
    PacketError(PacketError),
}

/// Makes the channel of a connection that signed in: the channel is
/// established, and its id is one that the node has not handed out before.
/// Where the node has no id left, no channel is made.
pub fn create_channel<H>(ids: &mut ChannelIds, remote_address: String, client_sender: H) -> (r:
    Result<Channel<H>, ServerSideError>)
    ensures
        final(ids).node() == old(ids).node(),
        match r {
            Ok(channel) => {
                &&& old(ids).count() < u64::MAX
                &&& final(ids).count() == old(ids).count() + 1
                &&& !old(ids).handed_out().contains(channel@.channel_id)
                &&& final(ids).handed_out() == old(ids).handed_out().insert(channel@.channel_id)
                &&& channel@ == (ChannelView {
                    channel_id: channel_id_text(old(ids).node(), old(ids).count()),
                    remote_address: remote_address@,
                    rx: client_sender,
                    channel_status: ChannelStatus::Established,
                })
            },
            Err(e) => e@ == ServerSideErrorView::ChannelCreateError && old(ids).count()
                == u64::MAX && final(ids).count() == old(ids).count(),
        },
{
    match ChannelId::generate(ids) {
        Some(channel_id) => Ok(Channel::new(channel_id, remote_address, client_sender)),
        None => Err(ServerSideError::ChannelCreateError),
    }
}

/// What arrived first on a connection: nothing, a line, or a framing error.
pub enum FirstFrame {
    /// The connection ended before a line arrived.
    Nothing,
    /// A line.
    Line(Seq<char>),
    /// The line could not be framed.
    Broken(Seq<char>),
}

/// The sign-in that opens a connection, or why the connection is refused:
/// the first line must be a sign-in, judged by its header, and must then
/// read as one.
pub open spec fn first_packet_of(frame: FirstFrame) -> Result<PacketView, ServerSideErrorView> {
    match frame {
        FirstFrame::Nothing => Err(
            ServerSideErrorView::FirstPacketError(seq!['N', 'o', 'n', 'e']),
        ),
        FirstFrame::Broken(reason) => Err(ServerSideErrorView::ServerCodecError(reason)),
        FirstFrame::Line(raw) => match header_of(raw) {
            None => Err(
                ServerSideErrorView::PacketError(
                    PacketErrorView::ParsePacketHeaderError { raw },
                ),
            ),
            Some(header) => {
                if header.0 == SIGN_IN {
                    match packet_of(raw) {
                        Ok(packet) => Ok(packet),
                        Err(e) => Err(ServerSideErrorView::PacketError(e)),
                    }
                } else {
                    Err(ServerSideErrorView::FirstPacketError(raw))
                }
            },
        },
    }
}

/// What a frame holds.
pub open spec fn frame_view(frame: Option<Result<String, String>>) -> FirstFrame {
    match frame {
        None => FirstFrame::Nothing,
        Some(Ok(raw)) => FirstFrame::Line(raw@),
        Some(Err(reason)) => FirstFrame::Broken(reason@),
    }
}

/// Reads the sign-in that opens a connection from the first frame that
/// arrived on it.
pub fn first_packet(frame: Option<Result<String, String>>) -> (r: Result<Packet, ServerSideError>)
    ensures
        match first_packet_of(frame_view(frame)) {
            Ok(packet) => r is Ok && r->Ok_0@ == packet,
            Err(e) => r is Err && r->Err_0@ == e,
        },
{
    let raw = match frame {
        None => {
            proof {
                reveal_strlit("None");
                assert("None"@ =~= seq!['N', 'o', 'n', 'e']);
            }
            return Err(ServerSideError::FirstPacketError(String::from_str("None")));
        },
        Some(Err(reason)) => {
            return Err(ServerSideError::ServerCodecError(reason));
        },
        Some(Ok(raw)) => raw,
    };
    let is_first_packet = match Packet::check_sign_in_packet(raw.as_str()) {
        Ok(b) => b,
        Err(e) => {
            return Err(ServerSideError::PacketError(e));
        },
    };
    if is_first_packet {
        match Packet::read(raw) {
            Ok(packet) => Ok(packet),
            Err(e) => Err(ServerSideError::PacketError(e)),
        }
    } else {
        Err(ServerSideError::FirstPacketError(raw))
    }
}

/// Why a line could not be sent to a client.
#[derive(Debug, Clone, Copy, PartialEq, Eq, Structural)]
pub enum SendFailure {
    /// The line is longer than the framing allows.
    MaxLineLengthExceeded,
    /// The connection failed.
    Io,
}

/// What the writer of a connection does after a line could not be sent.
#[derive(Debug, Clone, Copy, PartialEq, Eq, Structural)]
pub enum WriterStep {
    /// Drop the line and go on with the next.
    Continue,
    /// Close the connection.
    Close,
}

/// What the writer of a connection does after a line could not be sent: a
/// line that is too long is dropped, a failed connection is closed.
pub fn after_send_failure(failure: SendFailure) -> (r: WriterStep)
    ensures
        r == match failure {
            SendFailure::MaxLineLengthExceeded => WriterStep::Continue,
            SendFailure::Io => WriterStep::Close,
        },
{
    match failure {
        SendFailure::MaxLineLengthExceeded => WriterStep::Continue,
        SendFailure::Io => WriterStep::Close,
    }
}

} // verus!
