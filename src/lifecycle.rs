use vstd::prelude::*;

use crate::relay::{
    after_connected, after_identified, after_reconnect, after_start, after_start_internal,
    after_stop, after_timer, after_tunnel_ended, after_tunnel_installed, configured, initial,
    relay_wf, ActionView, RelayModel, CONNECT_TIMEOUT_SECS, RECONNECT_DELAY_SECS,
};

verus! {

pub open spec fn publishes(a: Seq<ActionView>) -> bool {
    exists|i: int| 0 <= i < a.len() && a[i] is Publish
}

pub open spec fn connects(a: Seq<ActionView>) -> bool {
    exists|i: int| 0 <= i < a.len() && a[i] is Connect
}

/// A new relay, configured or not, satisfies the invariant and is stopped.
pub proof fn lemma_initial_wf(
    bind_address: Seq<char>,
    relay_id: u128,
    streamer_url: Seq<char>,
    password: Seq<char>,
    id: u128,
    name: Seq<char>,
    has_status_producer: bool,
)
    ensures
        relay_wf(initial(bind_address, relay_id)),
        relay_wf(
            configured(
                initial(bind_address, relay_id),
                streamer_url,
                password,
                id,
                name,
                has_status_producer,
            ),
        ),
        !configured(
            initial(bind_address, relay_id),
            streamer_url,
            password,
            id,
            name,
            has_status_producer,
        ).started,
{
}

/// Every transition keeps the invariant: in every reachable state `connected`
/// and `wrong_password` exclude each other and imply `started`, and a stopped
/// relay holds no writer, no tunnel and no live epoch token.
pub proof fn lemma_transitions_keep_wf(s: RelayModel, url: Option<Seq<char>>, token: u64, ok: bool)
    requires
        relay_wf(s),
    ensures
        relay_wf(after_start(s, url).0),
        relay_wf(after_stop(s).0),
        relay_wf(after_start_internal(s, url).0),
        relay_wf(after_reconnect(s).0),
        relay_wf(after_timer(s, token, url).0),
        relay_wf(after_connected(s).0),
        relay_wf(after_identified(s, ok).0),
        relay_wf(after_tunnel_installed(s).0),
        relay_wf(after_tunnel_ended(s, token).0),
        !(after_identified(s, ok).0.connected && after_identified(s, ok).0.wrong_password),
{
}

/// Starting a started relay changes nothing and does nothing.
pub proof fn lemma_start_when_started(s: RelayModel, url: Option<Seq<char>>)
    requires
        s.started,
    ensures
        after_start(s, url) == (s, Seq::<ActionView>::empty()),
{
    assert(after_start(s, url).1 =~= Seq::<ActionView>::empty());
}

/// A reconnect never connects at once: it schedules exactly one restart, last,
/// after the fixed delay, under the token that becomes live; only a timer that
/// holds the live token connects again.
pub proof fn lemma_reconnect_waits(s: RelayModel, token: u64, url: Option<Seq<char>>)
    requires
        relay_wf(s),
        s.started,
    ensures
        !connects(after_reconnect(s).1),
        after_reconnect(s).1.last() == (ActionView::ScheduleStart {
            token: s.next_token,
            delay_secs: RECONNECT_DELAY_SECS,
        }),
        forall|i: int|
            0 <= i < after_reconnect(s).1.len() - 1 ==> !(after_reconnect(s).1[i] is ScheduleStart),
        after_reconnect(s).0.reconnect_token == Some(s.next_token),
        RECONNECT_DELAY_SECS == 5,
        after_timer(after_reconnect(s).0, token, url).1.len() > 0 ==> token == s.next_token,
        !connects(after_tunnel_ended(s, token).1),
        !connects(after_identified(s, true).1),
        !connects(after_connected(s).1),
        !connects(after_stop(s).1),
{
    let a = after_reconnect(s).1;
    if connects(a) {
        let i = choose|i: int| 0 <= i < a.len() && a[i] is Connect;
        assert(a[i] is Connect);
    }
    let b = after_tunnel_ended(s, token).1;
    if connects(b) {
        let i = choose|i: int| 0 <= i < b.len() && b[i] is Connect;
        assert(b[i] is Connect);
    }
    let c = after_identified(s, true).1;
    if connects(c) {
        let i = choose|i: int| 0 <= i < c.len() && c[i] is Connect;
        assert(c[i] is Connect);
    }
    let d = after_stop(s).1;
    if connects(d) {
        let i = choose|i: int| 0 <= i < d.len() && d[i] is Connect;
        assert(d[i] is Connect);
    }
}

/// A stopped relay stays stopped and silent: nothing but `start` publishes a
/// status or changes its state.
pub proof fn lemma_stopped_is_silent(s: RelayModel, url: Option<Seq<char>>, token: u64, ok: bool)
    requires
        relay_wf(s),
        !s.started,
    ensures
        after_stop(s).0 == s && !publishes(after_stop(s).1),
        after_start_internal(s, url).0 == s && !publishes(after_start_internal(s, url).1),
        after_reconnect(s).0 == s && !publishes(after_reconnect(s).1),
        after_timer(s, token, url).0 == s && !publishes(after_timer(s, token, url).1),
        after_connected(s).0 == s && !publishes(after_connected(s).1),
        after_identified(s, ok).0 == s && !publishes(after_identified(s, ok).1),
        after_tunnel_installed(s).0 == s && !publishes(after_tunnel_installed(s).1),
        after_tunnel_ended(s, token).0 == s && !publishes(after_tunnel_ended(s, token).1),
{
    let c = after_connected(s).1;
    if publishes(c) {
        let i = choose|i: int| 0 <= i < c.len() && c[i] is Publish;
        assert(c[i] is Publish);
    }
}

/// `start; stop; start; stop` on a stopped relay leaves its state as it was.
pub proof fn lemma_start_stop_twice(s: RelayModel, url: Option<Seq<char>>)
    requires
        relay_wf(s),
        !s.started,
    ensures
        after_stop(after_start(after_stop(after_start(s, url).0).0, url).0).0 == s,
{
    let s1 = after_start(s, url).0;
    assert(s1 == RelayModel { started: true, ..s });
    assert(after_stop(s1).0 == s);
}

/// Stopping and reconnecting clear both `connected` and `wrong_password`,
/// whatever they were, and drop the writer and the tunnel.
pub proof fn lemma_teardown_clears_flags(s: RelayModel)
    requires
        relay_wf(s),
    ensures
        !after_stop(s).0.connected && !after_stop(s).0.wrong_password,
        s.started ==> !after_stop(s).0.writer && !after_stop(s).0.tunnel,
        s.started ==> !after_reconnect(s).0.connected && !after_reconnect(s).0.wrong_password
            && !after_reconnect(s).0.writer && !after_reconnect(s).0.tunnel,
{
}

/// Every connection attempt, first or after a reconnect, is bounded by the
/// connect timeout of ten seconds.
pub proof fn lemma_connect_timeout(s: RelayModel, url: Option<Seq<char>>, token: u64)
    ensures
        CONNECT_TIMEOUT_SECS == 10,
        forall|i: int|
            0 <= i < after_start(s, url).1.len() && (#[trigger] after_start(s, url).1[i]) is Connect
                ==> after_start(s, url).1[i]->Connect_timeout_secs == CONNECT_TIMEOUT_SECS,
        forall|i: int|
            0 <= i < after_timer(s, token, url).1.len() && (#[trigger] after_timer(
                s,
                token,
                url,
            ).1[i]) is Connect ==> after_timer(s, token, url).1[i]->Connect_timeout_secs
                == CONNECT_TIMEOUT_SECS,
{
}

} // verus!
