use moblink_relay::protocol::{
    error_response, start_tunnel_response, status_response, FrameKind, FrameStep, MessageToStreamer, RelayError,
    ResponseData, TunnelPlan,
};
use moblink_relay::address::{IpAddress, SocketAddress};
use moblink_relay::relay::{Action, Relay, CONNECT_TIMEOUT_SECS, RECONNECT_DELAY_SECS};
use moblink_relay::status::{link_status, status_source, LinkStatus, Status, StatusSource};
use moblink_relay::tunnel::{datagram, learn_peer, reverse_target, starts_reverse, TunnelError, BUFFER_SIZE};

const URL: &str = "ws://127.0.0.1:7777";
const NORMALIZED: &str = "ws://127.0.0.1:7777/";

fn configured() -> Relay {
    let mut relay = Relay::new("192.168.0.7".to_string());
    relay.setup(URL.to_string(), "pw".to_string(), 42, "relay".to_string(), false);
    relay
}

fn connect() -> Action {
    Action::Connect { url: NORMALIZED.to_string(), timeout_secs: 10 }
}

#[test]
fn status_strings() {
    assert_eq!(LinkStatus::Connected.text(), "Connected to streamer");
    assert_eq!(LinkStatus::WrongPassword.text(), "Wrong password");
    assert_eq!(LinkStatus::Connecting.text(), "Connecting to streamer");
    assert_eq!(LinkStatus::Disconnected.text(), "Disconnected from streamer");
    assert_eq!(link_status(false, true, true), LinkStatus::Connected);
    assert_eq!(link_status(true, false, true), LinkStatus::WrongPassword);
    assert_eq!(link_status(true, false, false), LinkStatus::Connecting);
    assert_eq!(link_status(false, false, false), LinkStatus::Disconnected);
}

#[test]
fn status_source_prefers_executable() {
    let exe = Some("/bin/status".to_string());
    let file = Some("/tmp/status.json".to_string());
    assert_eq!(status_source(&exe, &file), StatusSource::Executable("/bin/status".to_string()));
    assert_eq!(status_source(&None, &file), StatusSource::File("/tmp/status.json".to_string()));
    assert_eq!(status_source(&None, &None), StatusSource::Unset);
}

#[test]
fn new_relay_is_stopped_with_v4_id() {
    let relay = Relay::new("0.0.0.0:0".to_string());
    assert!(!relay.is_started());
    assert!(!relay.has_writer());
    assert_eq!((relay.relay_id() >> 76) & 0xf, 4);
    assert_eq!(relay.bind_address(), "0.0.0.0:0");
    assert_eq!(Relay::new(String::new()).relay_id() == relay.relay_id(), false);
}

#[test]
fn setup_and_bind_address() {
    let mut relay = configured();
    assert_eq!(relay.relay_id(), 42);
    assert_eq!(relay.name(), "relay");
    assert_eq!(relay.password(), "pw");
    assert!(!relay.has_status_producer());
    relay.set_bind_address("10.0.0.1:5000".to_string());
    assert_eq!(relay.bind_address(), "10.0.0.1:5000");
}

#[test]
fn start_connects_to_normalized_url() {
    let mut relay = configured();
    assert_eq!(relay.start(), vec![Action::Publish(LinkStatus::Connecting), connect()]);
    assert!(relay.is_started());
}

#[test]
fn start_when_started_does_nothing() {
    let mut relay = configured();
    relay.start();
    relay.on_connected();
    assert_eq!(relay.start(), vec![]);
    assert!(relay.is_started());
    assert!(relay.has_writer());
}

#[test]
fn invalid_url_is_not_retried() {
    let mut relay = Relay::new("0.0.0.0".to_string());
    relay.setup("not a url".to_string(), String::new(), 1, String::new(), false);
    assert_eq!(relay.start(), vec![Action::Publish(LinkStatus::Connecting)]);
    assert!(relay.is_started());
}

#[test]
fn stop_tears_down_and_publishes() {
    let mut relay = configured();
    relay.start();
    relay.on_connected();
    relay.on_identified(true);
    relay.on_tunnel_installed();
    assert_eq!(
        relay.stop(),
        vec![Action::CloseWriter, Action::AbortTunnel, Action::Publish(LinkStatus::Disconnected)]
    );
    assert!(!relay.is_started());
    assert!(!relay.has_writer());
    assert_eq!(relay.stop(), vec![]);
}

#[test]
fn stopped_relay_is_silent() {
    let mut relay = configured();
    relay.start();
    relay.stop();
    assert_eq!(relay.on_identified(true), vec![]);
    assert_eq!(relay.on_connect_failed(), vec![]);
    assert_eq!(relay.reconnect_soon(), vec![]);
    assert_eq!(relay.on_reconnect_timer(0), vec![]);
    assert_eq!(relay.on_tunnel_ended(0), vec![]);
    assert_eq!(relay.on_connected(), vec![Action::CloseWriter]);
    assert_eq!(relay.on_tunnel_installed(), (None, vec![]));
    assert_eq!(relay.on_frame(FrameKind::Close), (FrameStep::Exit, vec![]));
    assert!(!relay.is_started());
}

#[test]
fn start_stop_twice_returns_to_setup_state() {
    let mut relay = configured();
    relay.start();
    relay.stop();
    relay.start();
    relay.stop();
    assert!(!relay.is_started());
    assert!(!relay.has_writer());
    assert_eq!(relay.check_writer(), Err(RelayError::NoWriter));
    assert_eq!(relay.start(), vec![Action::Publish(LinkStatus::Connecting), connect()]);
}

#[test]
fn identified_ok_then_wrong_password() {
    let mut relay = configured();
    relay.start();
    relay.on_connected();
    assert_eq!(relay.on_identified(true), vec![Action::Publish(LinkStatus::Connected)]);
    assert_eq!(relay.on_identified(false), vec![Action::Publish(LinkStatus::WrongPassword)]);
    assert_eq!(relay.on_identified(true), vec![Action::Publish(LinkStatus::Connected)]);
    assert!(relay.is_started());
}

#[test]
fn wrong_password_keeps_started() {
    let mut relay = configured();
    relay.start();
    relay.on_connected();
    assert_eq!(relay.on_identified(false), vec![Action::Publish(LinkStatus::WrongPassword)]);
    assert!(relay.is_started());
    assert!(relay.has_writer());
}

#[test]
fn connect_failure_schedules_restart_after_delay() {
    let mut relay = configured();
    relay.start();
    let actions = relay.on_connect_failed();
    assert_eq!(
        actions,
        vec![
            Action::Publish(LinkStatus::Connecting),
            Action::ScheduleStart { token: 0, delay_secs: 5 },
        ]
    );
    assert_eq!(RECONNECT_DELAY_SECS, 5);
    assert_eq!(relay.on_reconnect_timer(7), vec![]);
    assert_eq!(relay.on_reconnect_timer(0), vec![connect()]);
}

#[test]
fn superseded_timer_does_nothing() {
    let mut relay = configured();
    relay.start();
    relay.on_connect_failed();
    relay.stop();
    assert_eq!(relay.on_reconnect_timer(0), vec![]);
    relay.start();
    assert_eq!(relay.on_reconnect_timer(0), vec![]);
    let second = relay.on_connect_failed();
    assert_eq!(second.last(), Some(&Action::ScheduleStart { token: 1, delay_secs: 5 }));
    assert_eq!(relay.on_reconnect_timer(0), vec![]);
    assert_eq!(relay.on_reconnect_timer(1), vec![connect()]);
}

#[test]
fn close_frame_reconnects_while_started() {
    let mut relay = configured();
    relay.start();
    relay.on_connected();
    relay.on_identified(true);
    let (step, actions) = relay.on_frame(FrameKind::Close);
    assert_eq!(step, FrameStep::Exit);
    assert_eq!(
        actions,
        vec![
            Action::CloseWriter,
            Action::Publish(LinkStatus::Connecting),
            Action::ScheduleStart { token: 0, delay_secs: 5 },
        ]
    );
    assert!(!actions.contains(&Action::Publish(LinkStatus::Disconnected)));
}

#[test]
fn frames_dispatch() {
    let mut relay = configured();
    relay.start();
    relay.on_connected();
    assert_eq!(relay.on_frame(FrameKind::Text { parsed: true }), (FrameStep::Dispatch, vec![]));
    assert_eq!(relay.on_frame(FrameKind::Text { parsed: false }), (FrameStep::Skip, vec![]));
    assert_eq!(relay.on_frame(FrameKind::Binary), (FrameStep::Skip, vec![]));
    assert_eq!(relay.on_frame(FrameKind::Ping), (FrameStep::ReplyPong, vec![]));
    assert_eq!(relay.on_frame(FrameKind::Pong), (FrameStep::Skip, vec![]));
    assert_eq!(
        relay.on_frame(FrameKind::TransportError { reset: false }),
        (FrameStep::Exit, vec![])
    );
    assert!(relay.has_writer());
    let (step, actions) = relay.on_frame(FrameKind::TransportError { reset: true });
    assert_eq!(step, FrameStep::Exit);
    assert_eq!(actions.len(), 3);
    assert!(!relay.has_writer());
}

#[test]
fn handler_error_reconnects() {
    let mut relay = configured();
    relay.start();
    relay.on_connected();
    assert_eq!(relay.check_writer(), Ok(()));
    let actions = relay.on_handler_error();
    assert_eq!(actions.first(), Some(&Action::CloseWriter));
    assert_eq!(relay.check_writer(), Err(RelayError::NoWriter));
}

#[test]
fn new_tunnel_supersedes_prior() {
    let mut relay = configured();
    relay.start();
    relay.on_connected();
    let (first, a1) = relay.on_tunnel_installed();
    assert_eq!((first, a1), (Some(0), vec![]));
    let (second, a2) = relay.on_tunnel_installed();
    assert_eq!((second, a2), (Some(1), vec![Action::AbortTunnel]));
    assert_eq!(relay.on_tunnel_ended(0), vec![]);
    assert_eq!(
        relay.on_tunnel_ended(1),
        vec![
            Action::CloseWriter,
            Action::AbortTunnel,
            Action::Publish(LinkStatus::Connecting),
            Action::ScheduleStart { token: 2, delay_secs: 5 },
        ]
    );
    assert_eq!(relay.on_tunnel_ended(1), vec![]);
}

#[test]
fn identify_message() {
    let relay = configured();
    assert_eq!(
        relay.identify("auth".to_string()),
        MessageToStreamer::Identify { id: 42, name: "relay".to_string(), authentication: "auth".to_string() }
    );
}

#[test]
fn tunnel_plan_uses_bind_address() {
    let mut relay = configured();
    let any = SocketAddress { ip: IpAddress::V4([0, 0, 0, 0]), port: 0 };
    assert_eq!(
        relay.tunnel_plan(),
        Ok(TunnelPlan { streamer_bind: any, destination_bind: SocketAddress { ip: IpAddress::V4([192, 168, 0, 7]), port: 0 } })
    );
    relay.set_bind_address("bad".to_string());
    assert_eq!(relay.tunnel_plan(), Err(RelayError::BadBindAddress));
}

#[test]
fn failed_request_gets_error_reply() {
    assert_eq!(error_response(9), MessageToStreamer::ErrorResponse { id: 9 });
    assert_eq!(CONNECT_TIMEOUT_SECS, 10);
}

#[test]
fn start_without_sink_only_connects() {
    let mut relay = Relay::new("0.0.0.0".to_string());
    assert_eq!(relay.start(), vec![]);
}

#[test]
fn responses() {
    assert_eq!(
        start_tunnel_response(3, 5000),
        MessageToStreamer::Response { id: 3, data: ResponseData::StartTunnel { port: 5000 } }
    );
    assert_eq!(
        status_response(4, Some(Status { battery_percentage: Some(42) })),
        MessageToStreamer::Response { id: 4, data: ResponseData::Status { battery_percentage: Some(42) } }
    );
    assert_eq!(
        status_response(5, Some(Status::default())),
        MessageToStreamer::Response { id: 5, data: ResponseData::Status { battery_percentage: None } }
    );
    assert_eq!(
        status_response(6, None),
        MessageToStreamer::Response { id: 6, data: ResponseData::Status { battery_percentage: None } }
    );
}

#[test]
fn full_buffer_forwards_intact() {
    let buf: Vec<u8> = (0..BUFFER_SIZE).map(|i| (i % 251) as u8).collect();
    let out = datagram(&buf, BUFFER_SIZE);
    assert_eq!(out.len(), 2048);
    assert_eq!(out, buf);
    assert_eq!(out[2047], buf[2047]);
    assert_eq!(datagram(&buf, 5), buf[..5].to_vec());
    assert_eq!(datagram(&buf, 0), Vec::<u8>::new());
}

#[test]
fn learned_peer_and_reverse_target() {
    let mut peer = None;
    assert_eq!(reverse_target(peer), Err(TunnelError::NoStreamerAddress));
    let a = SocketAddress { ip: IpAddress::V4([127, 0, 0, 1]), port: 55555 };
    let b = SocketAddress { ip: IpAddress::V4([127, 0, 0, 1]), port: 55556 };
    learn_peer(&mut peer, a);
    assert_eq!(reverse_target(peer), Ok(a));
    learn_peer(&mut peer, b);
    assert_eq!(reverse_target(peer), Ok(b));
    assert!(starts_reverse(false));
    assert!(!starts_reverse(true));
}
