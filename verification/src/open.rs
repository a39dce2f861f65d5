//! Opening a channel: what to bind, dial, accept and exchange, and when to give
//! up.
//!
//! An [`Opening`] says what to do next ([`Opening::action`]); the code around the
//! library does it and reports what happened ([`Opening::on_event`]), until the
//! opening is ready or has failed.

use crate::addr::{ip_of, parse_ip, IpAddr};
use crate::config::{Config, ConfigView};
use crate::text::{chars_of, trim, trimmed};
use crate::wire::CONNECT_V1;
use vstd::prelude::*;

verus! {

/// How long to sleep between two looks for a client, milliseconds.
pub const ACCEPT_POLL_MS: u64 = 50;

/// An address and a port.
#[derive(Clone, Copy, PartialEq, Eq, Structural, Debug)]
pub struct Endpoint {
    pub ip: IpAddr,
    pub port: u16,
}

/// The kinds of failure.
#[derive(Clone, Copy, PartialEq, Eq, Structural, Debug)]
pub enum ErrorKind {
    InvalidInput,
    InvalidData,
    TimedOut,
    NotConnected,
    /// An operation outside the library failed; its own error says how.
    Outside,
}

/// Why a channel did not open.
#[derive(Clone, Copy, PartialEq, Eq, Structural, Debug)]
pub enum OpenError {
    /// The configured host is no IP literal.
    BadHost,
    /// No client came in time.
    NoClient,
    /// Clients came, but none that is allowed in.
    NoAllowedClient,
    /// The peer did not answer with the cannelloni banner.
    BadHandshake,
    /// A socket operation failed.
    Io,
}

impl OpenError {
    /// The kind of an error.
    pub open spec fn kind_of(self) -> ErrorKind {
        match self {
            OpenError::BadHost => ErrorKind::InvalidInput,
            OpenError::NoClient | OpenError::NoAllowedClient => ErrorKind::TimedOut,
            OpenError::BadHandshake => ErrorKind::InvalidData,
            OpenError::Io => ErrorKind::Outside,
        }
    }

    /// The kind of this error.
    pub fn kind(&self) -> (r: ErrorKind)
        ensures
            r == self.kind_of(),
    {
        match self {
            OpenError::BadHost => ErrorKind::InvalidInput,
            OpenError::NoClient | OpenError::NoAllowedClient => ErrorKind::TimedOut,
            OpenError::BadHandshake => ErrorKind::InvalidData,
            OpenError::Io => ErrorKind::Outside,
        }
    }
}

// ============================== who may talk ============================

/// The unspecified address of the family of `peer`.
pub open spec fn wildcard(peer: IpAddr) -> IpAddr {
    match peer {
        IpAddr::V4(_) => IpAddr::V4(0),
        IpAddr::V6(_) => IpAddr::V6(0),
    }
}

/// The unspecified ("any") address of the family of `peer`, so that the shim binds
/// the family of the configured host.
pub fn wildcard_for(peer: IpAddr) -> (r: IpAddr)
    ensures
        r == wildcard(peer),
{
    match peer {
        IpAddr::V4(_) => IpAddr::V4(0),
        IpAddr::V6(_) => IpAddr::V6(0),
    }
}

/// The peers allowed in: the configured list, or just the configured host.
pub open spec fn allowed_peers(allow: Seq<IpAddr>, peer: IpAddr) -> Seq<IpAddr> {
    if allow.len() == 0 {
        seq![peer]
    } else {
        allow
    }
}

/// The peers allowed to send to us: an explicit list if one is given, otherwise
/// just the configured peer.
pub fn effective_allow(cfg: &Config, peer: IpAddr) -> (r: Vec<IpAddr>)
    ensures
        r@ == allowed_peers(cfg.allow@, peer),
{
    let mut v: Vec<IpAddr> = Vec::new();
    if cfg.allow.len() == 0 {
        v.push(peer);
        assert(v@ =~= seq![peer]);
        return v;
    }
    let mut i: usize = 0;
    while i < cfg.allow.len()
        invariant
            i <= cfg.allow.len(),
            v@ == cfg.allow@.take(i as int),
        decreases cfg.allow.len() - i,
    {
        v.push(cfg.allow[i]);
        i += 1;
    }
    assert(cfg.allow@.take(i as int) =~= cfg.allow@);
    v
}

/// Whether traffic from `from` is let in.
pub open spec fn let_in(from: IpAddr, allow: Seq<IpAddr>, check: bool) -> bool {
    !check || allow.contains(from)
}

/// Whether a datagram or connection from `from` is allowed in; with the check off,
/// all are.
pub fn peer_allowed(from: IpAddr, allow: &[IpAddr], check: bool) -> (r: bool)
    ensures
        r == let_in(from, allow@, check),
{
    if !check {
        return true;
    }
    let mut i: usize = 0;
    while i < allow.len()
        invariant
            i <= allow.len(),
            forall|j: int| 0 <= j < i ==> #[trigger] allow@[j] != from,
        decreases allow.len() - i,
    {
        if allow[i] == from {
            assert(allow@[i as int] == from);
            return true;
        }
        i += 1;
    }
    false
}

// ============================ single decisions ==========================

/// The port to try after a failed UDP bind, if any: one that the system assigns,
/// when the fallback is on, a port was asked for, and it was busy.
pub open spec fn fallback_port(port: u16, allow_fallback: bool, in_use: bool) -> Option<u16> {
    if allow_fallback && port != 0 && in_use {
        Some(0)
    } else {
        None
    }
}

/// Where to bind after a UDP bind failed, if anywhere.
pub fn bind_udp(bind: Endpoint, allow_fallback: bool, in_use: bool) -> (r: Option<Endpoint>)
    ensures
        r == match fallback_port(bind.port, allow_fallback, in_use) {
            Some(port) => Some(Endpoint { ip: bind.ip, port }),
            None => None,
        },
{
    if allow_fallback && bind.port != 0 && in_use {
        Some(Endpoint { ip: bind.ip, port: 0 })
    } else {
        None
    }
}

/// Judges the peer's answer to the banner: it has to be the banner.
pub fn handshake(reply: &[u8; 12]) -> (r: Result<(), OpenError>)
    ensures
        r == (if reply@ == CONNECT_V1@ {
            Ok(())
        } else {
            Err::<(), OpenError>(OpenError::BadHandshake)
        }),
{
    let mut i: usize = 0;
    while i < 12
        invariant
            i <= 12,
            reply@.len() == 12,
            CONNECT_V1@.len() == 12,
            forall|j: int| 0 <= j < i ==> #[trigger] reply@[j] == CONNECT_V1@[j],
        decreases 12 - i,
    {
        let want: u8 = CONNECT_V1[i];
        if reply[i] != want {
            return Err(OpenError::BadHandshake);
        }
        i += 1;
    }
    assert(reply@ =~= CONNECT_V1@);
    Ok(())
}

/// What a look for a client found.
#[derive(Clone, Copy, PartialEq, Eq, Structural, Debug)]
pub enum Look {
    /// A client from this address.
    Client(IpAddr),
    /// Nobody yet.
    Nobody,
}

/// What to do after a look for a client.
#[derive(Clone, Copy, PartialEq, Eq, Structural, Debug)]
pub enum Waiting {
    /// Take the client.
    Take,
    /// Shut the client down, then look again at once or give up.
    Refuse(bool),
    /// Sleep, then look again.
    Sleep,
    /// Give up.
    GiveUp,
}

/// What to do after a look for a client, `elapsed` nanoseconds into a wait of
/// `total`.
pub open spec fn waiting(
    look: Look,
    elapsed: u128,
    total: u128,
    allow: Seq<IpAddr>,
    check: bool,
) -> Waiting {
    match look {
        Look::Client(from) => if let_in(from, allow, check) {
            Waiting::Take
        } else {
            Waiting::Refuse(elapsed <= total)
        },
        Look::Nobody => if elapsed > total {
            Waiting::GiveUp
        } else {
            Waiting::Sleep
        },
    }
}

/// Judges a look for a client: one that is allowed in is taken at any time, one that
/// is not is shut down, and the wait goes on until the time is up.
pub fn accept_with_timeout(
    look: Look,
    elapsed: u128,
    total: u128,
    allow: &[IpAddr],
    peer_check: bool,
) -> (r: Waiting)
    ensures
        r == waiting(look, elapsed, total, allow@, peer_check),
{
    match look {
        Look::Client(from) => if peer_allowed(from, allow, peer_check) {
            Waiting::Take
        } else {
            Waiting::Refuse(elapsed <= total)
        },
        Look::Nobody => if elapsed > total {
            Waiting::GiveUp
        } else {
            Waiting::Sleep
        },
    }
}

// ============================== the opening =============================

/// What a configuration asks for.
pub struct Plan {
    pub remote: Endpoint,
    pub bind: Endpoint,
    pub tcp: bool,
    pub server: bool,
    pub fallback: bool,
    pub allow: Vec<IpAddr>,
    pub peer_check: bool,
    pub connect_timeout_ms: u32,
    pub accept_timeout_ms: u32,
}

/// The value of a [`Plan`].
#[verifier::ext_equal]
pub struct PlanView {
    pub remote: Endpoint,
    pub bind: Endpoint,
    pub tcp: bool,
    pub server: bool,
    pub fallback: bool,
    pub allow: Seq<IpAddr>,
    pub peer_check: bool,
    pub connect_timeout_ms: u32,
    pub accept_timeout_ms: u32,
}

impl View for Plan {
    type V = PlanView;

    open spec fn view(&self) -> PlanView {
        PlanView {
            remote: self.remote,
            bind: self.bind,
            tcp: self.tcp,
            server: self.server,
            fallback: self.fallback,
            allow: self.allow@,
            peer_check: self.peer_check,
            connect_timeout_ms: self.connect_timeout_ms,
            accept_timeout_ms: self.accept_timeout_ms,
        }
    }
}

/// What a configuration whose host is `peer` asks for.
pub open spec fn plan_of(c: ConfigView, peer: IpAddr) -> PlanView {
    PlanView {
        remote: Endpoint { ip: peer, port: c.remote_port },
        bind: Endpoint { ip: wildcard(peer), port: c.local_port },
        tcp: c.tcp,
        server: c.tcp_server,
        fallback: c.udp_port_fallback,
        allow: allowed_peers(c.allow, peer),
        peer_check: c.peer_check,
        connect_timeout_ms: c.connect_timeout_ms,
        accept_timeout_ms: c.accept_timeout_ms,
    }
}

/// How far an opening has come.
#[derive(Clone, Copy, PartialEq, Eq, Structural, Debug)]
pub enum Stage {
    /// UDP: the socket is to be bound to this port.
    BindUdp(u16),
    /// TCP server: the listener is to be bound.
    Listen,
    /// TCP server: a look for a client is due.
    Look,
    /// TCP server: the client found is to be shut down; then the wait goes on, or
    /// not.
    Refuse(bool),
    /// TCP server: a pause is due.
    Pause,
    /// TCP client: the peer is to be dialled.
    Dial,
    /// TCP: the banners are to be exchanged.
    Handshake,
    /// The channel is open.
    Ready,
    /// The channel does not open.
    Failed(OpenError),
}

/// What to do next.
#[derive(Clone, Copy, PartialEq, Eq, Structural, Debug)]
pub enum Action {
    /// Bind a UDP socket here.
    BindUdp(Endpoint),
    /// Bind a TCP listener here.
    Listen(Endpoint),
    /// Look for a client, without waiting for one.
    Look,
    /// Shut down the client just found.
    Refuse,
    /// Sleep this many milliseconds.
    Sleep(u64),
    /// Dial this peer, for at most this many milliseconds.
    Dial(Endpoint, u32),
    /// Send the banner and read as many bytes, for at most this many milliseconds.
    Handshake(u32),
    /// Take the connection.
    Ready,
    /// Give up.
    Fail(OpenError),
}

/// What happened.
#[derive(Clone, Copy)]
pub enum Event {
    /// The socket or listener is bound.
    Bound,
    /// The bind failed, because the port is in use or for another reason.
    BindFailed(bool),
    /// The look found this, so many nanoseconds after the wait began.
    Looked(Look, u128),
    /// What was asked for is done: the client is shut down, or the pause is over.
    Done,
    /// The peer is connected.
    Connected,
    /// The peer answered the banner with these bytes.
    Reply([u8; 12]),
    /// The operation failed.
    Failed,
}

/// Where an opening begins.
pub open spec fn first_stage(p: PlanView) -> Stage {
    if !p.tcp {
        Stage::BindUdp(p.bind.port)
    } else if p.server {
        Stage::Listen
    } else {
        Stage::Dial
    }
}

/// What a stage asks for.
pub open spec fn action_of(p: PlanView, stage: Stage) -> Action {
    match stage {
        Stage::BindUdp(port) => Action::BindUdp(Endpoint { ip: p.bind.ip, port }),
        Stage::Listen => Action::Listen(p.bind),
        Stage::Look => Action::Look,
        Stage::Refuse(_) => Action::Refuse,
        Stage::Pause => Action::Sleep(ACCEPT_POLL_MS),
        Stage::Dial => Action::Dial(p.remote, p.connect_timeout_ms),
        Stage::Handshake => Action::Handshake(p.connect_timeout_ms),
        Stage::Ready => Action::Ready,
        Stage::Failed(e) => Action::Fail(e),
    }
}

/// Milliseconds as nanoseconds.
pub open spec fn ns(ms: u32) -> u128 {
    (ms * 1_000_000) as u128
}

/// The stage after an event. An opening that is over stays as it is; an event that
/// does not answer the stage's action fails it.
pub open spec fn next_stage(p: PlanView, stage: Stage, ev: Event) -> Stage {
    match (stage, ev) {
        (Stage::Ready, _) | (Stage::Failed(_), _) => stage,
        (Stage::BindUdp(_), Event::Bound) => Stage::Ready,
        (Stage::BindUdp(port), Event::BindFailed(in_use)) => match fallback_port(
            port,
            p.fallback,
            in_use,
        ) {
            Some(other) => Stage::BindUdp(other),
            None => Stage::Failed(OpenError::Io),
        },
        (Stage::Listen, Event::Bound) => Stage::Look,
        (Stage::Look, Event::Looked(look, elapsed)) => match waiting(
            look,
            elapsed,
            ns(p.accept_timeout_ms),
            p.allow,
            p.peer_check,
        ) {
            Waiting::Take => Stage::Handshake,
            Waiting::Refuse(go_on) => Stage::Refuse(go_on),
            Waiting::Sleep => Stage::Pause,
            Waiting::GiveUp => Stage::Failed(OpenError::NoClient),
        },
        (Stage::Refuse(go_on), Event::Done) => if go_on {
            Stage::Look
        } else {
            Stage::Failed(OpenError::NoAllowedClient)
        },
        (Stage::Pause, Event::Done) => Stage::Look,
        (Stage::Dial, Event::Connected) => Stage::Handshake,
        (Stage::Handshake, Event::Reply(reply)) => if reply@ == CONNECT_V1@ {
            Stage::Ready
        } else {
            Stage::Failed(OpenError::BadHandshake)
        },
        _ => Stage::Failed(OpenError::Io),
    }
}

/// An opening under way.
pub struct Opening {
    pub plan: Plan,
    pub stage: Stage,
}

impl Opening {
    /// Starts to open a channel. Fails when the host, without the white space around
    /// it, is no IP literal.
    pub fn start(cfg: &Config) -> (r: Result<Opening, OpenError>)
        ensures
            match ip_of(trimmed(cfg.host@)) {
                Some(peer) => r matches Ok(o) && o.plan@ == plan_of(cfg@, peer) && o.stage
                    == first_stage(o.plan@),
                None => r matches Err(e) && e == OpenError::BadHost,
            },
    {
        let chars: Vec<char> = chars_of(cfg.host.as_str());
        let peer: IpAddr = match parse_ip(trim(chars.as_slice())) {
            Some(peer) => peer,
            None => {
                return Err(OpenError::BadHost);
            },
        };
        let plan: Plan = Plan {
            remote: Endpoint { ip: peer, port: cfg.remote_port },
            bind: Endpoint { ip: wildcard_for(peer), port: cfg.local_port },
            tcp: cfg.tcp,
            server: cfg.tcp_server,
            fallback: cfg.udp_port_fallback,
            allow: effective_allow(cfg, peer),
            peer_check: cfg.peer_check,
            connect_timeout_ms: cfg.connect_timeout_ms,
            accept_timeout_ms: cfg.accept_timeout_ms,
        };
        let stage: Stage = if !plan.tcp {
            Stage::BindUdp(plan.bind.port)
        } else if plan.server {
            Stage::Listen
        } else {
            Stage::Dial
        };
        Ok(Opening { plan, stage })
    }

    /// What to do next.
    pub fn action(&self) -> (r: Action)
        ensures
            r == action_of(self.plan@, self.stage),
    {
        match self.stage {
            Stage::BindUdp(port) => Action::BindUdp(Endpoint { ip: self.plan.bind.ip, port }),
            Stage::Listen => Action::Listen(self.plan.bind),
            Stage::Look => Action::Look,
            Stage::Refuse(_) => Action::Refuse,
            Stage::Pause => Action::Sleep(ACCEPT_POLL_MS),
            Stage::Dial => Action::Dial(self.plan.remote, self.plan.connect_timeout_ms),
            Stage::Handshake => Action::Handshake(self.plan.connect_timeout_ms),
            Stage::Ready => Action::Ready,
            Stage::Failed(e) => Action::Fail(e),
        }
    }

    /// Takes in what happened.
    pub fn on_event(&mut self, ev: Event)
        ensures
            final(self).plan == old(self).plan,
            final(self).stage == next_stage(old(self).plan@, old(self).stage, ev),
    {
        self.stage = match (self.stage, ev) {
            (Stage::Ready, _) => Stage::Ready,
            (Stage::Failed(e), _) => Stage::Failed(e),
            (Stage::BindUdp(_), Event::Bound) => Stage::Ready,
            (Stage::BindUdp(port), Event::BindFailed(in_use)) => {
                let tried: Endpoint = Endpoint { ip: self.plan.bind.ip, port };
                match bind_udp(tried, self.plan.fallback, in_use) {
                    Some(other) => Stage::BindUdp(other.port),
                    None => Stage::Failed(OpenError::Io),
                }
            },
            (Stage::Listen, Event::Bound) => Stage::Look,
            (Stage::Look, Event::Looked(look, elapsed)) => {
                let total: u128 = self.plan.accept_timeout_ms as u128 * 1_000_000;
                match accept_with_timeout(
                    look,
                    elapsed,
                    total,
                    self.plan.allow.as_slice(),
                    self.plan.peer_check,
                ) {
                    Waiting::Take => Stage::Handshake,
                    Waiting::Refuse(go_on) => Stage::Refuse(go_on),
                    Waiting::Sleep => Stage::Pause,
                    Waiting::GiveUp => Stage::Failed(OpenError::NoClient),
                }
            },
            (Stage::Refuse(go_on), Event::Done) => if go_on {
                Stage::Look
            } else {
                Stage::Failed(OpenError::NoAllowedClient)
            },
            (Stage::Pause, Event::Done) => Stage::Look,
            (Stage::Dial, Event::Connected) => Stage::Handshake,
            (Stage::Handshake, Event::Reply(reply)) => match handshake(&reply) {
                Ok(()) => Stage::Ready,
                Err(e) => Stage::Failed(e),
            },
            _ => Stage::Failed(OpenError::Io),
        };
    }
}

// ================================= laws =================================

/// The stage after a sequence of events.
pub open spec fn stage_after(p: PlanView, evs: Seq<Event>) -> Stage
    decreases evs.len(),
{
    if evs.len() == 0 {
        first_stage(p)
    } else {
        next_stage(p, stage_after(p, evs.drop_last()), evs.last())
    }
}

/// Whether a stage belongs to a transport and role.
pub open spec fn fits(p: PlanView, stage: Stage) -> bool {
    match stage {
        Stage::BindUdp(port) => !p.tcp && (port == p.bind.port || (p.fallback && port == 0)),
        Stage::Listen | Stage::Look | Stage::Refuse(_) | Stage::Pause => p.tcp && p.server,
        Stage::Dial => p.tcp && !p.server,
        Stage::Handshake => p.tcp,
        Stage::Ready | Stage::Failed(_) => true,
    }
}

/// An opening does only what its transport and role call for. A UDP socket is bound
/// to the configured port, or to one that the system assigns if the fallback is on.
pub proof fn law_opening_keeps_to_its_role(p: PlanView, evs: Seq<Event>)
    ensures
        fits(p, stage_after(p, evs)),
    decreases evs.len(),
{
    if evs.len() > 0 {
        law_opening_keeps_to_its_role(p, evs.drop_last());
    }
}

/// A TCP channel never opens without the banner: if it is ready, the peer answered
/// with it.
pub proof fn law_tcp_opens_by_banner(p: PlanView, evs: Seq<Event>)
    requires
        p.tcp,
        stage_after(p, evs) is Ready,
    ensures
        exists|i: int|
            0 <= i < evs.len() && (#[trigger] evs[i] matches Event::Reply(b) && b@ == CONNECT_V1@),
    decreases evs.len(),
{
    let head = evs.drop_last();
    let last = evs[evs.len() - 1];
    law_opening_keeps_to_its_role(p, head);
    if stage_after(p, head) is Ready {
        law_tcp_opens_by_banner(p, head);
        let i = choose|i: int|
            0 <= i < head.len() && (#[trigger] head[i] matches Event::Reply(b) && b@
                == CONNECT_V1@);
        assert(evs[i] == head[i]);
    } else {
        assert(last matches Event::Reply(b) && b@ == CONNECT_V1@);
    }
}

/// A TCP server speaks to nobody but an allowed client: it gets to the handshake
/// only when such a client was found.
pub proof fn law_server_takes_allowed_only(p: PlanView, evs: Seq<Event>)
    requires
        p.tcp,
        p.server,
        stage_after(p, evs) is Handshake || stage_after(p, evs) is Ready,
    ensures
        exists|i: int|
            0 <= i < evs.len() && (#[trigger] evs[i] matches Event::Looked(Look::Client(from), _)
                && let_in(from, p.allow, p.peer_check)),
    decreases evs.len(),
{
    let head = evs.drop_last();
    let last = evs[evs.len() - 1];
    law_opening_keeps_to_its_role(p, head);
    if stage_after(p, head) is Handshake || stage_after(p, head) is Ready {
        law_server_takes_allowed_only(p, head);
        let i = choose|i: int|
            0 <= i < head.len() && (#[trigger] head[i] matches Event::Looked(
                Look::Client(from),
                _,
            ) && let_in(from, p.allow, p.peer_check));
        assert(evs[i] == head[i]);
    } else {
        assert(last matches Event::Looked(Look::Client(from), _) && let_in(
            from,
            p.allow,
            p.peer_check,
        ));
    }
}

/// A TCP server takes one client: once it has one, it never listens or looks again.
pub proof fn law_server_takes_one_client(p: PlanView, evs: Seq<Event>, more: Seq<Event>)
    requires
        stage_after(p, evs) is Handshake,
    ensures
        ({
            let s = stage_after(p, evs + more);
            s is Handshake || s is Ready || s is Failed
        }),
    decreases more.len(),
{
    if more.len() == 0 {
        assert(evs + more =~= evs);
    } else {
        law_server_takes_one_client(p, evs, more.drop_last());
        assert((evs + more).drop_last() =~= evs + more.drop_last());
        assert((evs + more).last() == more.last());
    }
}

/// An opening that is over stays as it is.
pub proof fn law_opening_ends_once(p: PlanView, stage: Stage, ev: Event)
    requires
        stage is Ready || stage is Failed,
    ensures
        next_stage(p, stage, ev) == stage,
{
}

/// With the fallback off, a busy UDP port fails the open.
pub proof fn law_busy_port_fails_without_fallback(p: PlanView, in_use: bool)
    requires
        !p.tcp,
        !p.fallback,
    ensures
        next_stage(p, first_stage(p), Event::BindFailed(in_use)) == Stage::Failed(OpenError::Io),
{
}

/// A wait for a client ends: a look after the time is up takes an allowed client
/// or gives up, and never waits on.
pub proof fn law_wait_ends(p: PlanView, look: Look, elapsed: u128)
    requires
        elapsed > ns(p.accept_timeout_ms),
    ensures
        ({
            let s = next_stage(p, Stage::Look, Event::Looked(look, elapsed));
            &&& s is Handshake || s == Stage::Refuse(false) || s == Stage::Failed(
                OpenError::NoClient,
            )
            &&& s is Refuse ==> next_stage(p, s, Event::Done) == Stage::Failed(
                OpenError::NoAllowedClient,
            )
        }),
{
}

/// By default only the configured host gets in: with the check on and no list, an
/// address is let in exactly when it is the peer's.
pub proof fn law_default_lets_in_host_only(c: ConfigView, peer: IpAddr, from: IpAddr)
    requires
        c.peer_check,
        c.allow.len() == 0,
    ensures
        let_in(from, plan_of(c, peer).allow, plan_of(c, peer).peer_check) <==> from == peer,
{
    assert(seq![peer][0] == peer);
}

/// What an opening of a configuration asks for after a sequence of events.
pub open spec fn asked(c: ConfigView, peer: IpAddr, evs: Seq<Event>) -> Action {
    action_of(plan_of(c, peer), stage_after(plan_of(c, peer), evs))
}

/// The address that binds every interface of the peer's family: all octets zero.
pub open spec fn any_of_family(peer: IpAddr) -> IpAddr {
    if peer is V4 {
        IpAddr::V4(0)
    } else {
        IpAddr::V6(0)
    }
}

/// Who is let in: everyone with the check off; else those on the list, or with an empty
/// list the configured peer alone.
pub open spec fn welcome(c: ConfigView, peer: IpAddr, from: IpAddr) -> bool {
    ||| !c.peer_check
    ||| c.allow.len() == 0 && from == peer
    ||| exists|i: int| 0 <= i < c.allow.len() && #[trigger] c.allow[i] == from
}

proof fn lemma_one_more(p: PlanView, evs: Seq<Event>, ev: Event)
    ensures
        stage_after(p, evs.push(ev)) == next_stage(p, stage_after(p, evs), ev),
{
    assert(evs.push(ev).drop_last() =~= evs);
}

proof fn lemma_welcome(c: ConfigView, peer: IpAddr, from: IpAddr)
    ensures
        let_in(from, plan_of(c, peer).allow, plan_of(c, peer).peer_check) == welcome(c, peer, from),
{
    assert(seq![peer][0] == peer);
}

/// The first thing that an opening asks for: over UDP to bind the configured local port
/// on every interface of the peer's family, as a TCP server to listen there, and as a TCP
/// client to dial the configured host at the configured remote port.
pub proof fn law_first_action(c: ConfigView, peer: IpAddr)
    ensures
        !c.tcp ==> asked(c, peer, seq![]) == Action::BindUdp(
            Endpoint { ip: any_of_family(peer), port: c.local_port },
        ),
        c.tcp && c.tcp_server ==> asked(c, peer, seq![]) == Action::Listen(
            Endpoint { ip: any_of_family(peer), port: c.local_port },
        ),
        c.tcp && !c.tcp_server ==> asked(c, peer, seq![]) == Action::Dial(
            Endpoint { ip: peer, port: c.remote_port },
            c.connect_timeout_ms,
        ),
{
}

/// A UDP channel opens once a socket is bound. A failed bind fails the open, unless the
/// configured port was busy and the fallback is on: then a port that the system
/// assigns is tried on the same address, once.
pub proof fn law_udp_opens(c: ConfigView, peer: IpAddr, in_use: bool, again: bool)
    requires
        !c.tcp,
    ensures
        ({
            let busy = Event::BindFailed(in_use);
            let fall_back = c.udp_port_fallback && c.local_port != 0 && in_use;
            &&& asked(c, peer, seq![Event::Bound]) == Action::Ready
            &&& !fall_back ==> asked(c, peer, seq![busy]) == Action::Fail(OpenError::Io)
            &&& fall_back ==> asked(c, peer, seq![busy]) == Action::BindUdp(
                Endpoint { ip: any_of_family(peer), port: 0 },
            )
            &&& fall_back ==> asked(c, peer, seq![busy, Event::Bound]) == Action::Ready
            &&& fall_back ==> asked(c, peer, seq![busy, Event::BindFailed(again)]) == Action::Fail(
                OpenError::Io,
            )
        }),
{
    let p = plan_of(c, peer);
    let busy = Event::BindFailed(in_use);
    let none = Seq::<Event>::empty();
    lemma_one_more(p, none, Event::Bound);
    lemma_one_more(p, none, busy);
    assert(none.push(Event::Bound) =~= seq![Event::Bound]);
    assert(none.push(busy) =~= seq![busy]);
    lemma_one_more(p, seq![busy], Event::Bound);
    lemma_one_more(p, seq![busy], Event::BindFailed(again));
    assert(seq![busy].push(Event::Bound) =~= seq![busy, Event::Bound]);
    assert(seq![busy].push(Event::BindFailed(again)) =~= seq![busy, Event::BindFailed(again)]);
}

/// A TCP client that is connected exchanges banners, for as long as the connect timeout
/// allows; a dial that fails fails the open.
pub proof fn law_client_connects(c: ConfigView, peer: IpAddr)
    requires
        c.tcp,
        !c.tcp_server,
    ensures
        asked(c, peer, seq![Event::Connected]) == Action::Handshake(c.connect_timeout_ms),
        asked(c, peer, seq![Event::Failed]) == Action::Fail(OpenError::Io),
{
    let p = plan_of(c, peer);
    let none = Seq::<Event>::empty();
    lemma_one_more(p, none, Event::Connected);
    lemma_one_more(p, none, Event::Failed);
    assert(none.push(Event::Connected) =~= seq![Event::Connected]);
    assert(none.push(Event::Failed) =~= seq![Event::Failed]);
}

/// Whenever banners are exchanged, the channel opens exactly when the peer answers with the
/// ASCII text `CANNELLONIv1`.
pub proof fn law_banner_opens(c: ConfigView, peer: IpAddr, evs: Seq<Event>, reply: [u8; 12])
    requires
        asked(c, peer, evs) is Handshake,
    ensures
        asked(c, peer, evs.push(Event::Reply(reply))) == (if reply@ == seq![
            67u8,
            65,
            78,
            78,
            69,
            76,
            76,
            79,
            78,
            73,
            118,
            49,
        ] {
            Action::Ready
        } else {
            Action::Fail(OpenError::BadHandshake)
        }),
        asked(c, peer, evs.push(Event::Failed)) == Action::Fail(OpenError::Io),
{
    let p = plan_of(c, peer);
    lemma_one_more(p, evs, Event::Reply(reply));
    lemma_one_more(p, evs, Event::Failed);
    assert(CONNECT_V1@ =~= seq![67u8, 65, 78, 78, 69, 76, 76, 79, 78, 73, 118, 49]);
}

/// A TCP server that listens looks for a client. Whenever it looks, a client that is
/// welcome is taken, at any time. One that is not is shut down, and nobody is waited for
/// 50 milliseconds at a time; both only until the accept timeout has passed.
pub proof fn law_server_waits(
    c: ConfigView,
    peer: IpAddr,
    evs: Seq<Event>,
    from: IpAddr,
    elapsed: u128,
)
    ensures
        c.tcp && c.tcp_server ==> asked(c, peer, seq![Event::Bound]) == Action::Look,
        asked(c, peer, evs) is Look ==> {
            let client = evs.push(Event::Looked(Look::Client(from), elapsed));
            let nobody = evs.push(Event::Looked(Look::Nobody, elapsed));
            let in_time = elapsed <= c.accept_timeout_ms * 1_000_000;
            &&& welcome(c, peer, from) ==> asked(c, peer, client) == Action::Handshake(
                c.connect_timeout_ms,
            )
            &&& !welcome(c, peer, from) ==> asked(c, peer, client) == Action::Refuse
            &&& !welcome(c, peer, from) ==> asked(c, peer, client.push(Event::Done)) == (
            if in_time {
                Action::Look
            } else {
                Action::Fail(OpenError::NoAllowedClient)
            })
            &&& asked(c, peer, nobody) == (if in_time {
                Action::Sleep(50)
            } else {
                Action::Fail(OpenError::NoClient)
            })
            &&& in_time ==> asked(c, peer, nobody.push(Event::Done)) == Action::Look
            &&& asked(c, peer, evs.push(Event::Failed)) == Action::Fail(OpenError::Io)
        },
{
    let p = plan_of(c, peer);
    let none = Seq::<Event>::empty();
    let found = Event::Looked(Look::Client(from), elapsed);
    let empty = Event::Looked(Look::Nobody, elapsed);
    lemma_one_more(p, none, Event::Bound);
    assert(none.push(Event::Bound) =~= seq![Event::Bound]);
    lemma_one_more(p, evs, found);
    lemma_one_more(p, evs, empty);
    lemma_one_more(p, evs, Event::Failed);
    lemma_one_more(p, evs.push(found), Event::Done);
    lemma_one_more(p, evs.push(empty), Event::Done);
    lemma_welcome(c, peer, from);
}

/// Who is let in: everyone with the check off; else those on the configured list, or with
/// an empty list the configured host alone.
pub proof fn law_who_is_let_in(c: ConfigView, peer: IpAddr, from: IpAddr)
    ensures
        let_in(from, plan_of(c, peer).allow, plan_of(c, peer).peer_check) == welcome(c, peer, from),
{
    lemma_welcome(c, peer, from);
}

/// The kind of each error: a bad host is invalid input, a client that did not come or was
/// not allowed in is a timeout, a wrong banner is invalid data, and a failed socket
/// operation is told by what it failed with.
pub proof fn law_error_kinds(e: OpenError)
    ensures
        e.kind_of() is InvalidInput <==> e is BadHost,
        e.kind_of() is TimedOut <==> e is NoClient || e is NoAllowedClient,
        e.kind_of() is InvalidData <==> e is BadHandshake,
        e.kind_of() is Outside <==> e is Io,
{
}

} // verus!
