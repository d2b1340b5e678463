use vstd::prelude::*;

use crate::address::{parse_socket_addr, reads_as, SocketAddress};
use crate::relay::{Action, Relay};
use crate::status::Status;

verus! {

/// A control message from the streamer.
#[derive(PartialEq, Eq, Clone, Debug)]
pub enum MessageToRelay {
    Hello { salt: String, challenge: String },
    Identified { ok: bool },
    Request(MessageRequest),
}

#[derive(PartialEq, Eq, Clone, Debug)]
pub struct MessageRequest {
    pub id: u32,
    pub data: RequestData,
}

#[derive(PartialEq, Eq, Clone, Debug)]
pub enum RequestData {
    StartTunnel { address: String, port: u16 },
    Status,
}

/// A control message to the streamer.
#[derive(PartialEq, Eq, Clone, Debug)]
pub enum MessageToStreamer {
    Identify { id: u128, name: String, authentication: String },
    Response { id: u32, data: ResponseData },
    /// The request with this id could not be carried out.
    ErrorResponse { id: u32 },
}

/// The data of a successful response.
#[derive(PartialEq, Eq, Clone, Copy, Debug)]
pub enum ResponseData {
    StartTunnel { port: u16 },
    Status { battery_percentage: Option<i32> },
}

#[derive(PartialEq, Eq, Clone, Copy, Debug)]
pub enum RelayError {
    /// No WebSocket send half is live.
    NoWriter,
    /// The configured bind address is no `IP` or `IP:port`.
    BadBindAddress,
}

/// A frame received on the control WebSocket, as the receive loop sees it.
#[derive(PartialEq, Eq, Clone, Copy, Debug)]
pub enum FrameKind {
    /// A text frame; `parsed` tells whether it read as a `MessageToRelay`.
    Text { parsed: bool },
    Binary,
    Ping,
    Pong,
    Close,
    /// The transport failed; `reset` where the peer reset the connection
    /// without a closing handshake.
    TransportError { reset: bool },
}

/// What the receive loop does with a frame.
#[derive(PartialEq, Eq, Clone, Copy, Debug)]
pub enum FrameStep {
    /// Hand the parsed message to its handler.
    Dispatch,
    /// Ignore the frame and read the next.
    Skip,
    /// Answer with a pong carrying the ping's data, then read the next.
    ReplyPong,
    /// Leave the loop (after performing the returned actions).
    Exit,
}

/// The two endpoints a tunnel binds: the streamer-facing one on every IPv4
/// interface with a system-picked port, the destination-facing one on the
/// relay's bind address.
#[derive(PartialEq, Eq, Clone, Copy, Debug)]
pub struct TunnelPlan {
    pub streamer_bind: SocketAddress,
    pub destination_bind: SocketAddress,
}

pub open spec fn frame_step(f: FrameKind) -> FrameStep {
    match f {
        FrameKind::Text { parsed } => if parsed {
            FrameStep::Dispatch
        } else {
            FrameStep::Skip
        },
        FrameKind::Binary => FrameStep::Skip,
        FrameKind::Ping => FrameStep::ReplyPong,
        FrameKind::Pong => FrameStep::Skip,
        FrameKind::Close => FrameStep::Exit,
        FrameKind::TransportError { .. } => FrameStep::Exit,
    }
}

/// A close frame, and a reset without closing handshake, call for a reconnect.
pub open spec fn frame_reconnects(f: FrameKind) -> bool {
    f is Close || f == (FrameKind::TransportError { reset: true })
}

impl Relay {
    /// One frame of the receive loop.
    pub fn on_frame(&mut self, frame: FrameKind) -> (r: (FrameStep, Vec<Action>))
        requires
            old(self).wf(),
        ensures
            final(self).wf(),
            r.0 == frame_step(frame),
            frame_reconnects(frame) ==> (final(self)@, crate::relay::actions_view(r.1@))
                == crate::relay::after_reconnect(old(self)@),
            !frame_reconnects(frame) ==> final(self)@ == old(self)@ && r.1@.len() == 0,
    {
        let step = match frame {
            FrameKind::Text { parsed } => if parsed {
                FrameStep::Dispatch
            } else {
                FrameStep::Skip
            },
            FrameKind::Binary => FrameStep::Skip,
            FrameKind::Ping => FrameStep::ReplyPong,
            FrameKind::Pong => FrameStep::Skip,
            FrameKind::Close => FrameStep::Exit,
            FrameKind::TransportError { .. } => FrameStep::Exit,
        };
        let reconnect = match frame {
            FrameKind::Close => true,
            FrameKind::TransportError { reset } => reset,
            _ => false,
        };
        if reconnect {
            (step, self.reconnect_soon())
        } else {
            (step, Vec::new())
        }
    }

    /// A message handler failed: reconnect, and the receive loop exits.
    pub fn on_handler_error(&mut self) -> (r: Vec<Action>)
        requires
            old(self).wf(),
        ensures
            final(self).wf(),
            (final(self)@, crate::relay::actions_view(r@)) == crate::relay::after_reconnect(
                old(self)@,
            ),
    {
        self.reconnect_soon()
    }

    /// Sending needs a live WebSocket send half.
    pub fn check_writer(&self) -> (r: Result<(), RelayError>)
        ensures
            r is Ok <==> self@.writer,
            r is Err ==> r == Err::<(), RelayError>(RelayError::NoWriter),
    {
        if self.has_writer() {
            Ok(())
        } else {
            Err(RelayError::NoWriter)
        }
    }

    /// The answer to `Hello`: this relay's id and name, with the authentication
    /// computed from the password and the hello's salt and challenge.
    pub fn identify(&self, authentication: String) -> (r: MessageToStreamer)
        ensures
            r matches MessageToStreamer::Identify { id, name, authentication: a } && id
                == self@.relay_id && name@ == self@.name && a@ == authentication@,
    {
        MessageToStreamer::Identify {
            id: self.relay_id(),
            name: self.name().clone(),
            authentication,
        }
    }

    /// Where a StartTunnel request binds its two endpoints.
    pub fn tunnel_plan(&self) -> (r: Result<TunnelPlan, RelayError>)
        ensures
            r is Ok ==> reads_as("0.0.0.0"@, r->Ok_0.streamer_bind) && reads_as(
                self@.bind_address,
                r->Ok_0.destination_bind,
            ),
            r is Err <==> forall|a: SocketAddress| !reads_as(self@.bind_address, a),
            r is Err ==> r == Err::<TunnelPlan, RelayError>(RelayError::BadBindAddress),
    {
        let streamer_bind = match parse_socket_addr("0.0.0.0") {
            Ok(a) => a,
            Err(_) => {
                proof {
                    reveal_strlit("0.0.0.0");
                    let a = crate::address::SocketAddress {
                        ip: crate::address::IpAddress::V4([0u8, 0u8, 0u8, 0u8]),
                        port: 0,
                    };
                    assert(a.ip->V4_0@ =~= seq![0u8, 0u8, 0u8, 0u8]);
                    assert("0.0.0.0"@ =~= crate::address::ipv4_text(a.ip->V4_0@));
                    assert(reads_as("0.0.0.0"@, a));
                }
                return Err(RelayError::BadBindAddress);
            },
        };
        match parse_socket_addr(self.bind_address().as_str()) {
            Ok(destination_bind) => Ok(TunnelPlan { streamer_bind, destination_bind }),
            Err(_) => Err(RelayError::BadBindAddress),
        }
    }
}

/// The reply to a StartTunnel request, naming the streamer-facing port.
pub fn start_tunnel_response(request_id: u32, port: u16) -> (r: MessageToStreamer)
    ensures
        r == (MessageToStreamer::Response {
            id: request_id,
            data: ResponseData::StartTunnel { port },
        }),
{
    MessageToStreamer::Response { id: request_id, data: ResponseData::StartTunnel { port } }
}

/// The reply to a Status request: the producer's battery level where a producer
/// is configured, none otherwise.
pub fn status_response(request_id: u32, status: Option<Status>) -> (r: MessageToStreamer)
    ensures
        r == (MessageToStreamer::Response {
            id: request_id,
            data: ResponseData::Status {
                battery_percentage: match status {
                    Some(s) => s.battery_percentage,
                    None => None,
                },
            },
        }),
{
    let battery_percentage = match status {
        Some(s) => s.battery_percentage,
        None => None,
    };
    MessageToStreamer::Response {
        id: request_id,
        data: ResponseData::Status { battery_percentage },
    }
}

/// The reply to a request that failed, so that every request gets one reply.
pub fn error_response(request_id: u32) -> (r: MessageToStreamer)
    ensures
        r == (MessageToStreamer::ErrorResponse { id: request_id }),
{
    MessageToStreamer::ErrorResponse { id: request_id }
}

} // verus!
