//! The per-connection state machine and the per-channel decisions: who a
//! connection is, whether it is authenticated, what a channel-open does in
//! each server mode, and what each engine callback (exec, pty, data,
//! tcpip-forward) answers. Every decision is returned as plain data — the
//! surrounding transport code performs the sends it prescribes.

use vstd::prelude::*;
use vstd::string::StringExecFns;

use crate::messages;
use crate::registry::{Entry, Registry, seq_has_key, spec_targets};

verus! {

/// Which of the two reference behaviours inbound channel data gets:
/// echo-and-broadcast chat, or bridging to a spawned subprocess.
#[derive(Clone, Copy)]
pub enum ServerMode {
    EchoBroadcast,
    ProcessProxy,
}

/// The pluggable authentication policy. The reference policy accepts any
/// password unconditionally — a template, explicitly not production policy.
#[derive(Clone, Copy)]
pub enum AuthPolicy {
    AcceptAll,
}

/// The answer handed back to the transport engine for an auth attempt.
#[derive(Clone, Copy)]
pub enum AuthDecision {
    Accept,
    Reject,
}

/// What a policy decides, independent of the offered credential.
pub open spec fn spec_decide(policy: AuthPolicy) -> AuthDecision {
    match policy {
        AuthPolicy::AcceptAll => AuthDecision::Accept,
    }
}

/// Where a connection stands in its lifecycle.
#[derive(Clone, Copy)]
pub enum Phase {
    Connected,
    Authenticated,
}

/// The state owned by one connection: its process-unique id and its phase.
/// Nothing here is shared; the registry is the only cross-connection state.
pub struct ConnectionState {
    pub id: u64,
    pub phase: Phase,
}

/// Hands a fresh, connection-scoped state object to every accepted
/// connection; ids increase monotonically and are never reused.
pub struct ConnectionFactory {
    pub next_id: u64,
}

impl ConnectionFactory {
    /// A factory that starts counting at zero.
    pub fn new() -> (r: Self)
        ensures
            r.next_id == 0,
    {
        ConnectionFactory { next_id: 0 }
    }

    /// A fresh connection state: it takes the next id, and the id after it
    /// is strictly larger, so no two connections ever share one.
    pub fn new_client(&mut self) -> (c: ConnectionState)
        requires
            old(self).next_id < u64::MAX,
        ensures
            c.id == old(self).next_id,
            c.phase is Connected,
            final(self).next_id == old(self).next_id + 1,
    {
        let c = ConnectionState { id: self.next_id, phase: Phase::Connected };
        self.next_id = self.next_id + 1;
        c
    }
}

impl ConnectionState {
    /// Answers a password authentication attempt as the policy says; on
    /// acceptance the connection moves to the authenticated phase. The
    /// offered credential itself never changes the reference decision.
    pub fn auth_password(&mut self, policy: &AuthPolicy, _user: &str, _password: &str) -> (d:
        AuthDecision)
        ensures
            d == spec_decide(*policy),
            final(self).id == old(self).id,
            d is Accept ==> final(self).phase is Authenticated,
            d is Reject ==> final(self).phase == old(self).phase,
    {
        match policy {
            AuthPolicy::AcceptAll => {
                self.phase = Phase::Authenticated;
                AuthDecision::Accept
            },
        }
    }
}

/// What a channel-open decided beyond accepting and registering it.
pub enum OpenOutcome {
    /// Echo-and-broadcast mode: nothing further; the channel chats.
    Registered,
    /// Process-proxy mode: additionally bridge the channel to the fixed
    /// subprocess.
    SpawnGreeter,
}

/// Accepts a session channel and registers the (connection, channel) pair
/// at once — in either mode — so that from the moment the open returns a
/// registry entry exists and later messages on the channel find it. The
/// outcome says whether the channel is then also bridged to the fixed
/// subprocess (process-proxy mode). Session channels are always accepted.
pub fn channel_open_session<H>(
    conn: &ConnectionState,
    registry: &mut Registry<H>,
    chan: u64,
    handle: H,
    mode: &ServerMode,
) -> (r: (bool, OpenOutcome))
    requires
        old(registry).wf(),
        !seq_has_key(old(registry).rows(), (conn.id, chan)),
    ensures
        r.0 == true,
        final(registry).wf(),
        final(registry).rows() == old(registry).rows().push(
            Entry { conn: conn.id, chan, handle },
        ),
        seq_has_key(final(registry).rows(), (conn.id, chan)),
        *mode is EchoBroadcast ==> r.1 is Registered,
        *mode is ProcessProxy ==> r.1 is SpawnGreeter,
{
    registry.register(conn.id, chan, handle);
    match mode {
        ServerMode::EchoBroadcast => (true, OpenOutcome::Registered),
        ServerMode::ProcessProxy => (true, OpenOutcome::SpawnGreeter),
    }
}

/// The fixed program the process-proxy mode bridges every channel to; the
/// command offered by the client is never consulted.
pub fn greeter_program() -> (s: String)
    ensures
        s@ == "/root/greeter.pl"@,
{
    String::from_str("/root/greeter.pl")
}

/// One send or lifecycle notification the server issues on a channel.
pub enum Action {
    Send { chan: u64, payload: Vec<u8> },
    ExitStatus { chan: u64, code: u32 },
    Eof { chan: u64 },
    Close { chan: u64 },
}

/// An exec request is informational only: the requested command is logged
/// by the caller and never executed, so no action comes back.
pub fn exec_request(_chan: u64, _command: &[u8]) -> (actions: Vec<Action>)
    ensures
        actions@ == Seq::<Action>::empty(),
{
    let actions: Vec<Action> = Vec::new();
    assert(actions@ =~= Seq::<Action>::empty());
    actions
}

/// A pty request terminates the channel rather than being ignored: whatever
/// terminal and dimensions were asked for, the channel receives the two
/// refusal lines, an exit status of zero, end-of-file, and close — in that
/// order and nothing else.
pub fn pty_request(
    chan: u64,
    _term: &str,
    _col_width: u32,
    _row_height: u32,
    _pix_width: u32,
    _pix_height: u32,
) -> (actions: Vec<Action>)
    ensures
        actions@.len() == 5,
        (actions@[0] matches Action::Send { chan: c, payload } && c == chan && payload@
            == messages::pty_refusal_first()),
        (actions@[1] matches Action::Send { chan: c, payload } && c == chan && payload@
            == messages::pty_refusal_second()),
        (actions@[2] matches Action::ExitStatus { chan: c, code } && c == chan && code == 0),
        (actions@[3] matches Action::Eof { chan: c } && c == chan),
        (actions@[4] matches Action::Close { chan: c } && c == chan),
{
    let mut actions: Vec<Action> = Vec::new();
    actions.push(Action::Send { chan, payload: messages::pty_refusal_first_line() });
    actions.push(Action::Send { chan, payload: messages::pty_refusal_second_line() });
    actions.push(Action::ExitStatus { chan, code: 0 });
    actions.push(Action::Eof { chan });
    actions.push(Action::Close { chan });
    actions
}

/// What inbound channel data leads to in echo-and-broadcast mode.
pub enum DataVerdict {
    /// The payload was the single interrupt byte: tear the connection down,
    /// delivering nothing.
    Disconnect,
    /// Relay: send `message` to every target entry of the registry, and
    /// echo it on the sender's own channel.
    Relay { message: Vec<u8>, targets: Vec<usize>, echo_chan: u64 },
}

/// The single-byte payload that requests connection teardown.
pub open spec fn interrupt_payload() -> Seq<u8> {
    seq![3u8]
}

/// The per-payload dispatch of echo-and-broadcast mode. Exactly the
/// single interrupt byte (3) disconnects; any other payload is wrapped
/// once and aimed at every registered channel of every other connection
/// — each exactly once, never the sender's own — plus the sender's echo.
pub fn data<H>(conn: &ConnectionState, registry: &Registry<H>, chan: u64, payload: &[u8]) -> (r:
    DataVerdict)
    ensures
        r is Disconnect <==> payload@ == interrupt_payload(),
        (r matches DataVerdict::Relay { message, targets, echo_chan } ==> message@
            == messages::wrapped_message(payload@) && targets@.map_values(|u: usize| u as int)
            == spec_targets(registry.rows(), conn.id) && echo_chan == chan),
{
    if payload.len() == 1 && payload[0] == 3 {
        assert(payload@ =~= interrupt_payload());
        DataVerdict::Disconnect
    } else {
        proof {
            if payload@ == interrupt_payload() {
                assert(payload@.len() == 1);
                assert(payload@[0] == 3);
            }
        }
        DataVerdict::Relay {
            message: messages::wrap_payload(payload),
            targets: registry.broadcast_targets(conn.id),
            echo_chan: chan,
        }
    }
}

/// The plan answered to a tcpip-forward request. Every request is accepted
/// (reference policy: no allow-list); a forwarded channel is then opened
/// for the requested address and port with the fixed originator tuple, one
/// fixed payload is written into it, and end-of-file is signalled.
pub struct ForwardPlan {
    pub accept: bool,
    pub connected_address: String,
    pub connected_port: u32,
    pub originator_address: String,
    pub originator_port: u32,
    pub payload: Vec<u8>,
    pub send_eof: bool,
}

/// Decides a tcpip-forward request; see `ForwardPlan`.
pub fn tcpip_forward(address: &str, port: u32) -> (r: ForwardPlan)
    ensures
        r.accept,
        r.connected_address@ == address@,
        r.connected_port == port,
        r.originator_address@ == "1.2.3.4"@,
        r.originator_port == 1234,
        r.payload@ == messages::forward_payload(),
        r.send_eof,
{
    ForwardPlan {
        accept: true,
        connected_address: String::from_str(address),
        connected_port: port,
        originator_address: String::from_str("1.2.3.4"),
        originator_port: 1234,
        payload: messages::forward_payload_bytes(),
        send_eof: true,
    }
}

} // verus!
