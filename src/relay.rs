use vstd::prelude::*;
use vstd::assert_seqs_equal;

use crate::status::{link_status, link_status_of, LinkStatus};

verus! {

/// Seconds between a reconnect being scheduled and the next connection attempt.
pub const RECONNECT_DELAY_SECS: u64 = 5;

/// Seconds a connection attempt may take before it counts as failed.
pub const CONNECT_TIMEOUT_SECS: u64 = 10;

/// What the host must do after a state transition of the relay.
#[derive(PartialEq, Eq, Clone, Debug)]
pub enum Action {
    /// Open the control WebSocket to this (normalised) URL; an attempt that has
    /// not completed TCP connect, TLS handshake and upgrade within
    /// `timeout_secs` has failed.
    Connect { url: String, timeout_secs: u64 },
    /// Close the live WebSocket send half.
    CloseWriter,
    /// Cancel and join the streamer-to-destination forwarding task.
    AbortTunnel,
    /// Hand the status text to the host's callback.
    Publish(LinkStatus),
    /// After the delay, deliver `on_reconnect_timer(token)`.
    ScheduleStart { token: u64, delay_secs: u64 },
}

pub ghost enum ActionView {
    Connect { url: Seq<char>, timeout_secs: u64 },
    CloseWriter,
    AbortTunnel,
    Publish(LinkStatus),
    ScheduleStart { token: u64, delay_secs: u64 },
}

impl View for Action {
    type V = ActionView;

    open spec fn view(&self) -> ActionView {
        match self {
            Action::Connect { url, timeout_secs } => ActionView::Connect {
                url: url@,
                timeout_secs: *timeout_secs,
            },
            Action::CloseWriter => ActionView::CloseWriter,
            Action::AbortTunnel => ActionView::AbortTunnel,
            Action::Publish(s) => ActionView::Publish(*s),
            Action::ScheduleStart { token, delay_secs } => ActionView::ScheduleStart {
                token: *token,
                delay_secs: *delay_secs,
            },
        }
    }
}

pub open spec fn text_option(o: Option<String>) -> Option<Seq<char>> {
    match o {
        Some(t) => Some(t@),
        None => None,
    }
}

pub open spec fn actions_view(v: Seq<Action>) -> Seq<ActionView> {
    v.map_values(|a: Action| a@)
}

/// The relay's state as plain values.
pub ghost struct RelayModel {
    pub bind_address: Seq<char>,
    pub relay_id: u128,
    pub streamer_url: Seq<char>,
    pub password: Seq<char>,
    pub name: Seq<char>,
    pub has_status_sink: bool,
    pub has_status_producer: bool,
    /// A WebSocket send half is live.
    pub writer: bool,
    /// The user's intent.
    pub started: bool,
    pub connected: bool,
    pub wrong_password: bool,
    /// The live epoch token of the scheduled restart, if any.
    pub reconnect_token: Option<u64>,
    /// The live epoch token of the running tunnel, if any.
    pub tunnel_token: Option<u64>,
    /// A forwarding task handle is held.
    pub tunnel: bool,
    pub next_token: u64,
}

/// The supervisor of one relay: configuration, flags and epoch tokens.
pub struct Relay {
    bind_address: String,
    relay_id: u128,
    streamer_url: String,
    password: String,
    name: String,
    has_status_sink: bool,
    has_status_producer: bool,
    writer: bool,
    started: bool,
    connected: bool,
    wrong_password: bool,
    reconnect_token: Option<u64>,
    tunnel_token: Option<u64>,
    tunnel: bool,
    next_token: u64,
}

impl View for Relay {
    type V = RelayModel;

    closed spec fn view(&self) -> RelayModel {
        RelayModel {
            bind_address: self.bind_address@,
            relay_id: self.relay_id,
            streamer_url: self.streamer_url@,
            password: self.password@,
            name: self.name@,
            has_status_sink: self.has_status_sink,
            has_status_producer: self.has_status_producer,
            writer: self.writer,
            started: self.started,
            connected: self.connected,
            wrong_password: self.wrong_password,
            reconnect_token: self.reconnect_token,
            tunnel_token: self.tunnel_token,
            tunnel: self.tunnel,
            next_token: self.next_token,
        }
    }
}

/// The relay's invariant: identification succeeded or failed, not both, and only
/// while started; a stopped relay holds no writer, no tunnel and no live token.
pub open spec fn relay_wf(s: RelayModel) -> bool {
    &&& !(s.connected && s.wrong_password)
    &&& (s.connected || s.wrong_password) ==> s.started
    &&& !s.started ==> {
        &&& !s.writer
        &&& !s.tunnel
        &&& s.reconnect_token is None
        &&& s.tunnel_token is None
    }
}

pub open spec fn bump(n: u64) -> u64 {
    if n == u64::MAX {
        0
    } else {
        (n + 1) as u64
    }
}

pub open spec fn status_of(s: RelayModel) -> LinkStatus {
    link_status_of(s.started, s.connected, s.wrong_password)
}

/// What is published for state `s`: its status, when a sink is installed.
pub open spec fn publish(s: RelayModel) -> Seq<ActionView> {
    if s.has_status_sink {
        seq![ActionView::Publish(status_of(s))]
    } else {
        seq![]
    }
}

/// A fresh relay: stopped, unconfigured, with the given bind address and id.
pub open spec fn initial(bind_address: Seq<char>, relay_id: u128) -> RelayModel {
    RelayModel {
        bind_address,
        relay_id,
        streamer_url: seq![],
        password: seq![],
        name: seq![],
        has_status_sink: false,
        has_status_producer: false,
        writer: false,
        started: false,
        connected: false,
        wrong_password: false,
        reconnect_token: None,
        tunnel_token: None,
        tunnel: false,
        next_token: 0,
    }
}

pub open spec fn configured(
    s: RelayModel,
    streamer_url: Seq<char>,
    password: Seq<char>,
    relay_id: u128,
    name: Seq<char>,
    has_status_producer: bool,
) -> RelayModel {
    RelayModel {
        streamer_url,
        password,
        relay_id,
        name,
        has_status_sink: true,
        has_status_producer,
        ..s
    }
}

/// The state after tearing down the control link and the tunnel.
pub open spec fn torn_down(s: RelayModel) -> RelayModel {
    RelayModel {
        writer: false,
        connected: false,
        wrong_password: false,
        reconnect_token: None,
        tunnel_token: None,
        tunnel: false,
        ..s
    }
}

pub open spec fn teardown_actions(s: RelayModel) -> Seq<ActionView> {
    (if s.writer {
        seq![ActionView::CloseWriter]
    } else {
        seq![]
    }) + (if s.tunnel {
        seq![ActionView::AbortTunnel]
    } else {
        seq![]
    }) + publish(torn_down(s))
}

/// `stop`: a stopped relay is left as it is; a started one is torn down.
pub open spec fn after_stop(s: RelayModel) -> (RelayModel, Seq<ActionView>) {
    if s.started {
        let t = RelayModel { started: false, ..s };
        (torn_down(t), teardown_actions(t))
    } else {
        (s, seq![])
    }
}

/// One connection attempt, given what the URL parser made of the configured URL.
pub open spec fn after_start_internal(s: RelayModel, url: Option<Seq<char>>) -> (
    RelayModel,
    Seq<ActionView>,
) {
    if s.started && url is Some {
        (s, seq![ActionView::Connect { url: url->Some_0, timeout_secs: CONNECT_TIMEOUT_SECS }])
    } else {
        (s, seq![])
    }
}

/// `start`: a started relay is left as it is; a stopped one is marked started and
/// makes its first attempt.
pub open spec fn after_start(s: RelayModel, url: Option<Seq<char>>) -> (RelayModel, Seq<ActionView>) {
    if s.started {
        (s, seq![])
    } else {
        let t = RelayModel { started: true, ..s };
        (after_start_internal(t, url).0, publish(t) + after_start_internal(t, url).1)
    }
}

/// A reconnect: tear down, retire every token, and schedule one restart after
/// the fixed delay under a fresh token. A stopped relay has nothing to reconnect.
pub open spec fn after_reconnect(s: RelayModel) -> (RelayModel, Seq<ActionView>) {
    if s.started {
        let t = torn_down(s);
        (
            RelayModel { reconnect_token: Some(s.next_token), next_token: bump(s.next_token), ..t },
            teardown_actions(s) + seq![
                ActionView::ScheduleStart {
                    token: s.next_token,
                    delay_secs: RECONNECT_DELAY_SECS,
                },
            ],
        )
    } else {
        (s, seq![])
    }
}

/// A restart timer fires: only the one holding the live token acts.
pub open spec fn after_timer(s: RelayModel, token: u64, url: Option<Seq<char>>) -> (
    RelayModel,
    Seq<ActionView>,
) {
    if s.started && s.reconnect_token == Some(token) {
        after_start_internal(s, url)
    } else {
        (s, seq![])
    }
}

/// The WebSocket connection was established: its send half becomes live. Should
/// the relay have been stopped meanwhile, the new link is closed at once.
pub open spec fn after_connected(s: RelayModel) -> (RelayModel, Seq<ActionView>) {
    if s.started {
        (RelayModel { writer: true, ..s }, seq![])
    } else {
        (s, seq![ActionView::CloseWriter])
    }
}

/// The streamer's verdict on the identification.
pub open spec fn after_identified(s: RelayModel, ok: bool) -> (RelayModel, Seq<ActionView>) {
    if s.started {
        let t = RelayModel { connected: ok, wrong_password: !ok, ..s };
        (t, publish(t))
    } else {
        (s, seq![])
    }
}

/// A new tunnel supersedes the prior one: its handle is cancelled and a fresh
/// tunnel token becomes live.
pub open spec fn after_tunnel_installed(s: RelayModel) -> (RelayModel, Seq<ActionView>) {
    if s.started {
        (
            RelayModel {
                tunnel: true,
                tunnel_token: Some(s.next_token),
                next_token: bump(s.next_token),
                ..s
            },
            if s.tunnel {
                seq![ActionView::AbortTunnel]
            } else {
                seq![]
            },
        )
    } else {
        (s, seq![])
    }
}

/// A forwarding task ended: only the tunnel holding the live token reconnects.
pub open spec fn after_tunnel_ended(s: RelayModel, token: u64) -> (RelayModel, Seq<ActionView>) {
    if s.started && s.tunnel_token == Some(token) {
        after_reconnect(s)
    } else {
        (s, seq![])
    }
}

impl Relay {
    pub open spec fn wf(&self) -> bool {
        relay_wf(self@)
    }

    /// A stopped, unconfigured relay with a fresh random id.
    pub fn new(bind_address: String) -> (r: Relay)
        ensures
            r.wf(),
            r@ == initial(bind_address@, r@.relay_id),
            (r@.relay_id >> 76u128) & 0xfu128 == 4,
    {
        let relay_id = fresh_relay_id();
        Relay {
            bind_address,
            relay_id,
            streamer_url: String::new(),
            password: String::new(),
            name: String::new(),
            has_status_sink: false,
            has_status_producer: false,
            writer: false,
            started: false,
            connected: false,
            wrong_password: false,
            reconnect_token: None,
            tunnel_token: None,
            tunnel: false,
            next_token: 0,
        }
    }

    pub fn set_bind_address(&mut self, address: String)
        requires
            old(self).wf(),
        ensures
            final(self).wf(),
            final(self)@ == (RelayModel { bind_address: address@, ..old(self)@ }),
    {
        self.bind_address = address;
    }

    /// Install the configuration and the host's status sink; whether a status
    /// producer was given is recorded.
    pub fn setup(
        &mut self,
        streamer_url: String,
        password: String,
        relay_id: u128,
        name: String,
        has_status_producer: bool,
    )
        requires
            old(self).wf(),
        ensures
            final(self).wf(),
            final(self)@ == configured(
                old(self)@,
                streamer_url@,
                password@,
                relay_id,
                name@,
                has_status_producer,
            ),
    {
        self.streamer_url = streamer_url;
        self.password = password;
        self.relay_id = relay_id;
        self.name = name;
        self.has_status_sink = true;
        self.has_status_producer = has_status_producer;
    }

    pub fn is_started(&self) -> (r: bool)
        ensures
            r == self@.started,
    {
        self.started
    }

    pub fn bind_address(&self) -> (r: &String)
        ensures
            r@ == self@.bind_address,
    {
        &self.bind_address
    }

    pub fn relay_id(&self) -> (r: u128)
        ensures
            r == self@.relay_id,
    {
        self.relay_id
    }

    pub fn name(&self) -> (r: &String)
        ensures
            r@ == self@.name,
    {
        &self.name
    }

    pub fn password(&self) -> (r: &String)
        ensures
            r@ == self@.password,
    {
        &self.password
    }

    pub fn has_status_producer(&self) -> (r: bool)
        ensures
            r == self@.has_status_producer,
    {
        self.has_status_producer
    }

    /// Whether a WebSocket send half is live; sending without one fails.
    pub fn has_writer(&self) -> (r: bool)
        ensures
            r == self@.writer,
    {
        self.writer
    }

    fn push_publish(&self, actions: &mut Vec<Action>)
        ensures
            actions_view(final(actions)@) == actions_view(old(actions)@) + publish(self@),
    {
        if self.has_status_sink {
            let s = link_status(self.started, self.connected, self.wrong_password);
            actions.push(Action::Publish(s));
        }
        proof {
            assert_seqs_equal!(actions_view(actions@), actions_view(old(actions)@) + publish(self@));
        }
    }

    /// Close the writer, clear the flags, retire the tokens, cancel the tunnel and
    /// publish the resulting status.
    fn stop_internal(&mut self, actions: &mut Vec<Action>)
        ensures
            final(self)@ == torn_down(old(self)@),
            actions_view(final(actions)@) == actions_view(old(actions)@) + teardown_actions(
                old(self)@,
            ),
    {
        let ghost s0 = self@;
        let ghost a0 = actions_view(actions@);
        if self.writer {
            self.writer = false;
            actions.push(Action::CloseWriter);
        }
        self.connected = false;
        self.wrong_password = false;
        self.reconnect_token = None;
        self.tunnel_token = None;
        let ghost a1 = actions_view(actions@);
        if self.tunnel {
            self.tunnel = false;
            actions.push(Action::AbortTunnel);
        }
        let ghost a2 = actions_view(actions@);
        proof {
            let w: Seq<ActionView> = if s0.writer { seq![ActionView::CloseWriter] } else { seq![] };
            let t: Seq<ActionView> = if s0.tunnel { seq![ActionView::AbortTunnel] } else { seq![] };
            assert_seqs_equal!(a1, a0 + w);
            assert_seqs_equal!(a2, a0 + w + t);
        }
        self.push_publish(actions);
        proof {
            assert(self@ == torn_down(s0));
            assert_seqs_equal!(
                actions_view(actions@),
                a0 + teardown_actions(s0)
            );
        }
    }

    /// `start` when stopped; a no-op when already started.
    pub fn start(&mut self) -> (r: Vec<Action>)
        requires
            old(self).wf(),
        ensures
            final(self).wf(),
            (final(self)@, actions_view(r@)) == after_start(
                old(self)@,
                parsed_url(old(self)@.streamer_url),
            ),
    {
        if self.started {
            let r = Vec::new();
            proof {
                assert_seqs_equal!(actions_view(r@), seq![]);
            }
            return r;
        }
        self.started = true;
        let mut r = Vec::new();
        self.push_publish(&mut r);
        let ghost published = actions_view(r@);
        let mut attempt = self.start_internal();
        let ghost attempt_view = actions_view(attempt@);
        r.append(&mut attempt);
        proof {
            assert_seqs_equal!(actions_view(r@), published + attempt_view);
        }
        r
    }

    /// `stop` when started; a no-op when already stopped.
    pub fn stop(&mut self) -> (r: Vec<Action>)
        requires
            old(self).wf(),
        ensures
            final(self).wf(),
            (final(self)@, actions_view(r@)) == after_stop(old(self)@),
    {
        let mut r = Vec::new();
        if self.started {
            self.started = false;
            self.stop_internal(&mut r);
        }
        proof {
            assert_seqs_equal!(actions_view(r@), after_stop(old(self)@).1);
        }
        r
    }

    /// One connection attempt, with the configured URL passed through the URL
    /// parser.
    pub fn start_internal(&mut self) -> (r: Vec<Action>)
        requires
            old(self).wf(),
        ensures
            final(self).wf(),
            (final(self)@, actions_view(r@)) == after_start_internal(
                old(self)@,
                parsed_url(old(self)@.streamer_url),
            ),
    {
        let url = normalize_url(self.streamer_url.as_str());
        self.start_internal_with(url)
    }

    /// One connection attempt, given the parser's normalised URL, or `None` where
    /// it refused the configured one (a configuration error: nothing is retried).
    pub fn start_internal_with(&mut self, url: Option<String>) -> (r: Vec<Action>)
        requires
            old(self).wf(),
        ensures
            final(self).wf(),
            (final(self)@, actions_view(r@)) == after_start_internal(old(self)@, text_option(url)),
    {
        let ghost u0 = text_option(url);
        let mut r = Vec::new();
        if self.started {
            match url {
                Some(u) => {
                    r.push(Action::Connect { url: u, timeout_secs: CONNECT_TIMEOUT_SECS });
                },
                None => {},
            }
        }
        proof {
            assert_seqs_equal!(actions_view(r@), after_start_internal(old(self)@, u0).1);
        }
        r
    }

    /// Tear down and schedule a restart after the fixed delay.
    pub fn reconnect_soon(&mut self) -> (r: Vec<Action>)
        requires
            old(self).wf(),
        ensures
            final(self).wf(),
            (final(self)@, actions_view(r@)) == after_reconnect(old(self)@),
    {
        let mut r = Vec::new();
        if self.started {
            self.stop_internal(&mut r);
            let token = self.next_token;
            self.next_token = if self.next_token == u64::MAX {
                0
            } else {
                self.next_token + 1
            };
            self.reconnect_token = Some(token);
            let ghost before = actions_view(r@);
            r.push(Action::ScheduleStart { token, delay_secs: RECONNECT_DELAY_SECS });
            proof {
                assert_seqs_equal!(actions_view(r@), before + seq![
                    ActionView::ScheduleStart { token, delay_secs: RECONNECT_DELAY_SECS },
                ]);
            }
        }
        proof {
            assert_seqs_equal!(actions_view(r@), after_reconnect(old(self)@).1);
        }
        r
    }

    /// The connection attempt failed or timed out.
    pub fn on_connect_failed(&mut self) -> (r: Vec<Action>)
        requires
            old(self).wf(),
        ensures
            final(self).wf(),
            (final(self)@, actions_view(r@)) == after_reconnect(old(self)@),
    {
        self.reconnect_soon()
    }

    /// The connection attempt succeeded and its send half is now held.
    pub fn on_connected(&mut self) -> (r: Vec<Action>)
        requires
            old(self).wf(),
        ensures
            final(self).wf(),
            (final(self)@, actions_view(r@)) == after_connected(old(self)@),
    {
        let mut r = Vec::new();
        if self.started {
            self.writer = true;
        } else {
            r.push(Action::CloseWriter);
        }
        proof {
            assert_seqs_equal!(actions_view(r@), after_connected(old(self)@).1);
        }
        r
    }

    /// A restart timer fired; `token` is the one it was scheduled under.
    pub fn on_reconnect_timer(&mut self, token: u64) -> (r: Vec<Action>)
        requires
            old(self).wf(),
        ensures
            final(self).wf(),
            (final(self)@, actions_view(r@)) == after_timer(
                old(self)@,
                token,
                parsed_url(old(self)@.streamer_url),
            ),
    {
        if self.started && self.reconnect_token == Some(token) {
            self.start_internal()
        } else {
            let r = Vec::new();
            proof {
                assert_seqs_equal!(actions_view(r@), seq![]);
            }
            r
        }
    }

    /// The streamer accepted (`ok`) or rejected the identification.
    pub fn on_identified(&mut self, ok: bool) -> (r: Vec<Action>)
        requires
            old(self).wf(),
        ensures
            final(self).wf(),
            (final(self)@, actions_view(r@)) == after_identified(old(self)@, ok),
    {
        let mut r = Vec::new();
        if self.started {
            self.connected = ok;
            self.wrong_password = !ok;
            self.push_publish(&mut r);
        }
        proof {
            assert_seqs_equal!(actions_view(r@), after_identified(old(self)@, ok).1);
        }
        r
    }

    /// A new tunnel's forwarding task was spawned. Returns its token, which the
    /// tunnel hands back through `on_tunnel_ended`, or `None` when the relay is
    /// stopped and the task must be cancelled at once.
    pub fn on_tunnel_installed(&mut self) -> (r: (Option<u64>, Vec<Action>))
        requires
            old(self).wf(),
        ensures
            final(self).wf(),
            (final(self)@, actions_view(r.1@)) == after_tunnel_installed(old(self)@),
            r.0 == final(self)@.tunnel_token,
    {
        let mut r = Vec::new();
        if self.started {
            if self.tunnel {
                r.push(Action::AbortTunnel);
            }
            let token = self.next_token;
            self.next_token = if self.next_token == u64::MAX {
                0
            } else {
                self.next_token + 1
            };
            self.tunnel = true;
            self.tunnel_token = Some(token);
        }
        proof {
            assert_seqs_equal!(actions_view(r@), after_tunnel_installed(old(self)@).1);
        }
        (self.tunnel_token, r)
    }

    /// A forwarding task of the tunnel with `token` ended.
    pub fn on_tunnel_ended(&mut self, token: u64) -> (r: Vec<Action>)
        requires
            old(self).wf(),
        ensures
            final(self).wf(),
            (final(self)@, actions_view(r@)) == after_tunnel_ended(old(self)@, token),
    {
        if self.started && self.tunnel_token == Some(token) {
            self.reconnect_soon()
        } else {
            let r = Vec::new();
            proof {
                assert_seqs_equal!(actions_view(r@), seq![]);
            }
            r
        }
    }
}

/// What the URL parser makes of a text: its serialisation, or `None` where the
/// text is no absolute URL.
pub uninterp spec fn parsed_url(s: Seq<char>) -> Option<Seq<char>>;

/// Relies on `url::Url::parse` and the URL's `Display`, which writes its
/// serialisation; the outcome depends on the text alone.
#[verifier::external_body]
fn normalize_url(s: &str) -> (r: Option<String>)
    ensures
        r is Some <==> parsed_url(s@) is Some,
        r is Some ==> r->Some_0@ == parsed_url(s@)->Some_0,
{
    match url::Url::parse(s) {
        Ok(u) => Some(u.to_string()),
        Err(_) => None,
    }
}

/// Relies on `uuid::Uuid::new_v4` and `Uuid::as_u128`: a random id whose version
/// field reads 4.
#[verifier::external_body]
fn fresh_relay_id() -> (r: u128)
    ensures
        (r >> 76u128) & 0xfu128 == 4,
{
    uuid::Uuid::new_v4().as_u128()
}

} // verus!
