//! Layered configuration: built-in defaults, then the INI file, then the
//! environment.
//!
//! A later layer overrides an earlier one key by key. A value that is present
//! and cannot be used keeps what the layer below gave, and leaves a warning.

use crate::addr::{ip_of, parse_ip, IpAddr};
use crate::settings::{ini_of, lookup, parse_ini, Settings};
use crate::text::{
    chars_of, cut, find, lower, lowercase, lowered, number, parse_number, same_text, string_of,
    to_lower, trim, trimmed, Stop,
};
use vstd::prelude::*;
use vstd::slice::slice_subrange;

verus! {

/// How the shim reaches its peer.
#[derive(Clone)]
pub struct Config {
    /// The peer, as an IP literal.
    pub host: String,
    pub remote_port: u16,
    pub local_port: u16,
    pub tcp: bool,
    pub tcp_server: bool,
    pub log: Option<String>,
    /// Number of channels advertised by `canGetNumberOfChannels`.
    pub channels: u32,
    /// TCP client connect timeout, milliseconds (also bounds the handshake read).
    pub connect_timeout_ms: u32,
    /// TCP server accept timeout, milliseconds (how long to wait for a client).
    pub accept_timeout_ms: u32,
    /// UDP only: whether a busy `local_port` is replaced by one that the system
    /// assigns, in place of a failed open. A stock cannelloni replies to its fixed
    /// port only, so such a bind transmits and receives nothing.
    pub udp_port_fallback: bool,
    /// Whether inbound traffic is restricted to the configured peer.
    pub peer_check: bool,
    /// The peers allowed in; empty for just the configured `host`. Only consulted
    /// when `peer_check` is on.
    pub allow: Vec<IpAddr>,
    /// Problems met while loading that did not stop it. Not a key itself.
    pub warnings: Vec<String>,
}

/// What a configuration says.
#[verifier::ext_equal]
pub struct ConfigView {
    pub host: Seq<char>,
    pub remote_port: u16,
    pub local_port: u16,
    pub tcp: bool,
    pub tcp_server: bool,
    pub log: Option<Seq<char>>,
    pub channels: u32,
    pub connect_timeout_ms: u32,
    pub accept_timeout_ms: u32,
    pub udp_port_fallback: bool,
    pub peer_check: bool,
    pub allow: Seq<IpAddr>,
    pub warnings: Seq<Seq<char>>,
}

/// The texts of some strings.
pub open spec fn texts(v: Seq<String>) -> Seq<Seq<char>> {
    v.map_values(|s: String| s@)
}

impl View for Config {
    type V = ConfigView;

    open spec fn view(&self) -> ConfigView {
        ConfigView {
            host: self.host@,
            remote_port: self.remote_port,
            local_port: self.local_port,
            tcp: self.tcp,
            tcp_server: self.tcp_server,
            log: match self.log {
                Some(s) => Some(s@),
                None => None,
            },
            channels: self.channels,
            connect_timeout_ms: self.connect_timeout_ms,
            accept_timeout_ms: self.accept_timeout_ms,
            udp_port_fallback: self.udp_port_fallback,
            peer_check: self.peer_check,
            allow: self.allow@,
            warnings: texts(self.warnings@),
        }
    }
}

/// What holds where no layer says otherwise.
pub open spec fn defaults() -> ConfigView {
    ConfigView {
        host: "127.0.0.1"@,
        remote_port: 20000,
        local_port: 20000,
        tcp: false,
        tcp_server: false,
        log: None,
        channels: 1,
        connect_timeout_ms: 5000,
        accept_timeout_ms: 30000,
        udp_port_fallback: false,
        peer_check: true,
        allow: seq![],
        warnings: seq![],
    }
}

impl Default for Config {
    fn default() -> (r: Config)
        ensures
            r@ == defaults(),
    {
        let c = Config {
            host: "127.0.0.1".to_owned(),
            remote_port: 20000,
            local_port: 20000,
            tcp: false,
            tcp_server: false,
            log: None,
            channels: 1,
            connect_timeout_ms: 5000,
            accept_timeout_ms: 30000,
            udp_port_fallback: false,
            peer_check: true,
            allow: Vec::new(),
            warnings: Vec::new(),
        };
        assert(c@ =~= defaults());
        c
    }
}

// ============================== the layers ==============================

/// A layer of settings over the defaults.
#[derive(Clone, Copy)]
pub enum Layer {
    /// The INI file.
    Ini,
    /// The environment.
    Env,
}

/// What can be configured.
#[derive(Clone, Copy)]
pub enum Key {
    Host,
    Port,
    LocalPort,
    Proto,
    TcpRole,
    Log,
    Channels,
    ConnectTimeout,
    AcceptTimeout,
    UdpPortFallback,
    PeerCheck,
    Allow,
}

/// What a layer calls a key.
pub open spec fn name_of(layer: Layer, key: Key) -> Seq<char> {
    match layer {
        Layer::Ini => match key {
            Key::Host => "host"@,
            Key::Port => "port"@,
            Key::LocalPort => "localport"@,
            Key::Proto => "proto"@,
            Key::TcpRole => "tcprole"@,
            Key::Log => "log"@,
            Key::Channels => "channels"@,
            Key::ConnectTimeout => "connecttimeout"@,
            Key::AcceptTimeout => "accepttimeout"@,
            Key::UdpPortFallback => "udpportfallback"@,
            Key::PeerCheck => "peercheck"@,
            Key::Allow => "allow"@,
        },
        Layer::Env => match key {
            Key::Host => "KVASILLONI_HOST"@,
            Key::Port => "KVASILLONI_PORT"@,
            Key::LocalPort => "KVASILLONI_LOCALPORT"@,
            Key::Proto => "KVASILLONI_PROTO"@,
            Key::TcpRole => "KVASILLONI_TCPROLE"@,
            Key::Log => "KVASILLONI_LOG"@,
            Key::Channels => "KVASILLONI_CHANNELS"@,
            Key::ConnectTimeout => "KVASILLONI_CONNECT_TIMEOUT"@,
            Key::AcceptTimeout => "KVASILLONI_ACCEPT_TIMEOUT"@,
            Key::UdpPortFallback => "KVASILLONI_UDP_PORT_FALLBACK"@,
            Key::PeerCheck => "KVASILLONI_PEER_CHECK"@,
            Key::Allow => "KVASILLONI_ALLOW"@,
        },
    }
}

/// What a layer calls a key.
pub fn key_name(layer: Layer, key: Key) -> (r: &'static str)
    ensures
        r@ == name_of(layer, key),
{
    match layer {
        Layer::Ini => match key {
            Key::Host => "host",
            Key::Port => "port",
            Key::LocalPort => "localport",
            Key::Proto => "proto",
            Key::TcpRole => "tcprole",
            Key::Log => "log",
            Key::Channels => "channels",
            Key::ConnectTimeout => "connecttimeout",
            Key::AcceptTimeout => "accepttimeout",
            Key::UdpPortFallback => "udpportfallback",
            Key::PeerCheck => "peercheck",
            Key::Allow => "allow",
        },
        Layer::Env => match key {
            Key::Host => "KVASILLONI_HOST",
            Key::Port => "KVASILLONI_PORT",
            Key::LocalPort => "KVASILLONI_LOCALPORT",
            Key::Proto => "KVASILLONI_PROTO",
            Key::TcpRole => "KVASILLONI_TCPROLE",
            Key::Log => "KVASILLONI_LOG",
            Key::Channels => "KVASILLONI_CHANNELS",
            Key::ConnectTimeout => "KVASILLONI_CONNECT_TIMEOUT",
            Key::AcceptTimeout => "KVASILLONI_ACCEPT_TIMEOUT",
            Key::UdpPortFallback => "KVASILLONI_UDP_PORT_FALLBACK",
            Key::PeerCheck => "KVASILLONI_PEER_CHECK",
            Key::Allow => "KVASILLONI_ALLOW",
        },
    }
}

/// The value of a key in a layer, if the layer has one.
pub open spec fn setting(m: Map<Seq<char>, Seq<char>>, layer: Layer, key: Key) -> Option<
    Seq<char>,
> {
    lookup(m, name_of(layer, key))
}

/// Looks up a key in a layer.
fn fetch(m: &Settings, layer: Layer, key: Key) -> (r: Option<&String>)
    ensures
        match r {
            Some(v) => setting(m@, layer, key) == Some(v@),
            None => setting(m@, layer, key) is None,
        },
{
    m.get(key_name(layer, key))
}

// =============================== values =================================

/// Whether a text starts with a letter, in either case.
pub open spec fn starts_ci(s: Seq<char>, c: char) -> bool {
    s.len() > 0 && lower(s[0]) == c
}

/// Whether a string starts with the small letter `c`, in either case.
pub fn starts_with_ci(s: &str, c: char) -> (r: bool)
    ensures
        r == starts_ci(s@, c),
{
    let chars: Vec<char> = chars_of(s);
    chars.len() > 0 && to_lower(chars[0]) == c
}

/// Whether a text means yes.
pub open spec fn truth(s: Seq<char>) -> bool {
    let t = lowered(trimmed(s));
    t == "1"@ || t == "true"@ || t == "yes"@ || t == "on"@ || t == "enable"@ || t == "enabled"@
}

/// Reads a boolean-ish value: `1`, `true`, `yes`, `on` and `enable[d]` in any case
/// mean yes, everything else means no.
pub fn parse_bool(s: &str) -> (r: bool)
    ensures
        r == truth(s@),
{
    let chars: Vec<char> = chars_of(s);
    let small: Vec<char> = lowercase(trim(chars.as_slice()));
    let text: String = string_of(small.as_slice());
    let t: &str = text.as_str();
    same_text(t, "1") || same_text(t, "true") || same_text(t, "yes") || same_text(t, "on")
        || same_text(t, "enable") || same_text(t, "enabled")
}

/// The addresses in a list, in order; what is no address is passed over.
pub open spec fn ips_of(s: Seq<char>) -> Seq<IpAddr>
    decreases s.len(),
{
    let k = cut(s, Stop::Separator) as int;
    let first = match ip_of(s.take(k)) {
        Some(a) => seq![a],
        None => seq![],
    };
    if k >= s.len() {
        first
    } else {
        first + ips_of(s.skip(k + 1))
    }
}

/// Reads a list of IP literals with commas or white space between them.
pub fn parse_ip_list(s: &str) -> (r: Vec<IpAddr>)
    ensures
        r@ == ips_of(s@),
{
    let chars: Vec<char> = chars_of(s);
    let all: &[char] = chars.as_slice();
    let mut v: Vec<IpAddr> = Vec::new();
    let mut p: usize = 0;
    assert(all@.skip(0) =~= all@);
    loop
        invariant_except_break
            p <= all@.len(),
            ips_of(all@) == v@ + ips_of(all@.skip(p as int)),
        ensures
            v@ == ips_of(all@),
        decreases all@.len() - p,
    {
        let rest: &[char] = slice_subrange(all, p, all.len());
        assert(rest@ =~= all@.skip(p as int));
        let k: usize = find(rest, Stop::Separator);
        let t: &[char] = slice_subrange(rest, 0, k);
        assert(t@ =~= rest@.take(k as int));
        let ghost before = v@;
        match parse_ip(t) {
            Some(a) => {
                v.push(a);
                assert(v@ =~= before + seq![a]);
                assert(forall|more: Seq<IpAddr>|
                    before + (seq![a] + more) =~= #[trigger] (v@ + more));
            },
            None => {
                assert(forall|more: Seq<IpAddr>| before + (seq![] + more) =~= #[trigger] (v@ + more));
            },
        }
        if k == rest.len() {
            assert(v@ =~= before + ips_of(rest@));
            break;
        }
        assert(all@.skip(p as int).skip(k + 1) =~= all@.skip(p + k + 1));
        p = p + k + 1;
    }
    v
}

/// A text as `str`'s `Debug` shows it: in double quotes, with escapes.
pub uninterp spec fn debug_text(s: Seq<char>) -> Seq<char>;

/// The `Debug` form of a string, from `<str as std::fmt::Debug>::fmt`.
///
/// Claimed is only that the form depends on the string's characters alone. Which
/// characters it escapes, and how, is not said.
#[verifier::external_body]
fn debug_form(s: &str) -> (r: String)
    ensures
        r@ == debug_text(s@),
{
    format!("{:?}", s)
}

/// What is said of a value that is no number, given the form that shows it.
pub open spec fn invalid_text(name: Seq<char>, shown: Seq<char>) -> Seq<char> {
    "invalid "@ + name + "="@ + shown + "; using default"@
}

/// The warning about a value that is no number, given the form that shows it.
pub fn invalid_warning(name: &str, shown: &str) -> (r: String)
    ensures
        r@ == invalid_text(name@, shown@),
{
    let mut w: String = "invalid ".to_owned();
    w.append(name);
    w.append("=");
    w.append(shown);
    w.append("; using default");
    w
}

/// Whether a value is there and is no number of at most `max`.
pub open spec fn bad_number(v: Seq<char>, max: nat) -> bool {
    trimmed(v).len() > 0 && number(trimmed(v), max) is None
}

/// Reads a number of at most `max`. A value that is blank is no number and leaves
/// no warning; any other value that is no number leaves one.
pub fn parse_num(val: &str, name: &str, max: u32, warnings: &mut Vec<String>) -> (r: Option<u32>)
    ensures
        match r {
            Some(n) => number(trimmed(val@), max as nat) == Some(n as nat) && n <= max,
            None => number(trimmed(val@), max as nat) is None,
        },
        texts(final(warnings)@) == (if bad_number(val@, max as nat) {
            texts(old(warnings)@).push(invalid_text(name@, debug_text(val@)))
        } else {
            texts(old(warnings)@)
        }),
{
    let chars: Vec<char> = chars_of(val);
    let t: &[char] = trim(chars.as_slice());
    match parse_number(t, max) {
        Some(n) => Some(n),
        None => {
            if t.len() > 0 {
                let shown: String = debug_form(val);
                let ghost before = texts(warnings@);
                warnings.push(invalid_warning(name, shown.as_str()));
                assert(texts(warnings@) =~= before.push(
                    invalid_text(name@, debug_text(val@)),
                ));
            }
            None
        },
    }
}

// ============================ putting together ==========================

/// The host after a layer: a value that is not blank replaces the one below.
pub open spec fn host_after(below: Seq<char>, v: Option<Seq<char>>) -> Seq<char> {
    match v {
        Some(t) => if trimmed(t).len() > 0 {
            t
        } else {
            below
        },
        None => below,
    }
}

/// What is said of a host that is there and blank.
pub open spec fn empty_text(layer: Layer) -> Seq<char> {
    match layer {
        Layer::Ini => "empty 'host'; using default"@,
        Layer::Env => "empty KVASILLONI_HOST; using default"@,
    }
}

/// The warnings that a host leaves.
pub open spec fn host_warnings(v: Option<Seq<char>>, layer: Layer) -> Seq<Seq<char>> {
    match v {
        Some(t) => if trimmed(t).len() == 0 {
            seq![empty_text(layer)]
        } else {
            seq![]
        },
        None => seq![],
    }
}

/// A number after a layer: a value that is one replaces the one below.
pub open spec fn number_after(below: nat, v: Option<Seq<char>>, max: nat) -> nat {
    match v {
        Some(t) => match number(trimmed(t), max) {
            Some(n) => n,
            None => below,
        },
        None => below,
    }
}

/// The warnings that a number leaves.
pub open spec fn number_warnings(
    m: Map<Seq<char>, Seq<char>>,
    layer: Layer,
    key: Key,
    max: nat,
) -> Seq<Seq<char>> {
    match setting(m, layer, key) {
        Some(t) => if bad_number(t, max) {
            seq![invalid_text(name_of(layer, key), debug_text(t))]
        } else {
            seq![]
        },
        None => seq![],
    }
}

/// The log path after a layer: a value that is not empty replaces the one below.
pub open spec fn log_after(below: Option<Seq<char>>, v: Option<Seq<char>>) -> Option<Seq<char>> {
    match v {
        Some(t) => if t.len() > 0 {
            Some(t)
        } else {
            below
        },
        None => below,
    }
}

/// A switch after a layer: any value decides it.
pub open spec fn switch_after(below: bool, v: Option<Seq<char>>) -> bool {
    match v {
        Some(t) => truth(t),
        None => below,
    }
}

/// A choice between two words after a layer: any value decides it by its first
/// letter.
pub open spec fn choice_after(below: bool, v: Option<Seq<char>>, letter: char) -> bool {
    match v {
        Some(t) => starts_ci(t, letter),
        None => below,
    }
}

/// The allow-list after a layer: any value replaces the whole list.
pub open spec fn allow_after(below: Seq<IpAddr>, v: Option<Seq<char>>) -> Seq<IpAddr> {
    match v {
        Some(t) => ips_of(t),
        None => below,
    }
}

/// The warnings that a layer leaves, in the order in which its keys are read.
pub open spec fn layer_warnings(m: Map<Seq<char>, Seq<char>>, layer: Layer) -> Seq<Seq<char>> {
    host_warnings(setting(m, layer, Key::Host), layer)
        + number_warnings(m, layer, Key::Port, u16::MAX as nat)
        + number_warnings(m, layer, Key::LocalPort, u16::MAX as nat)
        + number_warnings(m, layer, Key::Channels, u32::MAX as nat)
        + number_warnings(m, layer, Key::ConnectTimeout, u32::MAX as nat)
        + number_warnings(m, layer, Key::AcceptTimeout, u32::MAX as nat)
}

/// A configuration with a layer of settings laid over it.
pub open spec fn overlaid(
    c: ConfigView,
    m: Map<Seq<char>, Seq<char>>,
    layer: Layer,
) -> ConfigView {
    ConfigView {
        host: host_after(c.host, setting(m, layer, Key::Host)),
        remote_port: number_after(
            c.remote_port as nat,
            setting(m, layer, Key::Port),
            u16::MAX as nat,
        ) as u16,
        local_port: number_after(
            c.local_port as nat,
            setting(m, layer, Key::LocalPort),
            u16::MAX as nat,
        ) as u16,
        tcp: choice_after(c.tcp, setting(m, layer, Key::Proto), 't'),
        tcp_server: choice_after(c.tcp_server, setting(m, layer, Key::TcpRole), 's'),
        log: log_after(c.log, setting(m, layer, Key::Log)),
        channels: number_after(
            c.channels as nat,
            setting(m, layer, Key::Channels),
            u32::MAX as nat,
        ) as u32,
        connect_timeout_ms: number_after(
            c.connect_timeout_ms as nat,
            setting(m, layer, Key::ConnectTimeout),
            u32::MAX as nat,
        ) as u32,
        accept_timeout_ms: number_after(
            c.accept_timeout_ms as nat,
            setting(m, layer, Key::AcceptTimeout),
            u32::MAX as nat,
        ) as u32,
        udp_port_fallback: switch_after(
            c.udp_port_fallback,
            setting(m, layer, Key::UdpPortFallback),
        ),
        peer_check: switch_after(c.peer_check, setting(m, layer, Key::PeerCheck)),
        allow: allow_after(c.allow, setting(m, layer, Key::Allow)),
        warnings: c.warnings + layer_warnings(m, layer),
    }
}

/// What is loaded from an INI text, if one was found, and an environment.
pub open spec fn loaded(ini: Option<Seq<char>>, env: Map<Seq<char>, Seq<char>>) -> ConfigView {
    let base = match ini {
        Some(text) => overlaid(defaults(), ini_of(text), Layer::Ini),
        None => defaults(),
    };
    overlaid(base, env, Layer::Env)
}

/// Reads a number out of a layer.
fn overlay_num(
    m: &Settings,
    layer: Layer,
    key: Key,
    max: u32,
    below: u32,
    warnings: &mut Vec<String>,
) -> (r: u32)
    requires
        below <= max,
    ensures
        r == number_after(below as nat, setting(m@, layer, key), max as nat),
        r <= max,
        texts(final(warnings)@) == texts(old(warnings)@) + number_warnings(
            m@,
            layer,
            key,
            max as nat,
        ),
{
    let ghost before = texts(warnings@);
    match fetch(m, layer, key) {
        Some(v) => {
            let n: Option<u32> = parse_num(v.as_str(), key_name(layer, key), max, warnings);
            assert(texts(warnings@) =~= before + number_warnings(m@, layer, key, max as nat));
            match n {
                Some(n) => n,
                None => below,
            }
        },
        None => below,
    }
}

/// Reads the host out of a layer.
fn overlay_host(m: &Settings, layer: Layer, host: &mut String, warnings: &mut Vec<String>)
    ensures
        final(host)@ == host_after(old(host)@, setting(m@, layer, Key::Host)),
        texts(final(warnings)@) == texts(old(warnings)@) + host_warnings(
            setting(m@, layer, Key::Host),
            layer,
        ),
{
    let ghost before = texts(warnings@);
    match fetch(m, layer, Key::Host) {
        Some(v) => {
            let chars: Vec<char> = chars_of(v.as_str());
            if trim(chars.as_slice()).len() == 0 {
                let w: String = match layer {
                    Layer::Ini => "empty 'host'; using default".to_owned(),
                    Layer::Env => "empty KVASILLONI_HOST; using default".to_owned(),
                };
                warnings.push(w);
            } else {
                *host = v.clone();
            }
        },
        None => {},
    }
    assert(texts(warnings@) =~= before + host_warnings(setting(m@, layer, Key::Host), layer));
}

/// Reads the log path out of a layer.
fn overlay_log(m: &Settings, layer: Layer, log: &mut Option<String>)
    ensures
        (match *final(log) {
            Some(s) => Some(s@),
            None => None,
        }) == log_after(
            match *old(log) {
                Some(s) => Some(s@),
                None => None,
            },
            setting(m@, layer, Key::Log),
        ),
{
    match fetch(m, layer, Key::Log) {
        Some(v) => {
            if chars_of(v.as_str()).len() > 0 {
                *log = Some(v.clone());
            }
        },
        None => {},
    }
}

/// Reads a switch out of a layer.
fn overlay_switch(m: &Settings, layer: Layer, key: Key, below: bool) -> (r: bool)
    ensures
        r == switch_after(below, setting(m@, layer, key)),
{
    match fetch(m, layer, key) {
        Some(v) => parse_bool(v.as_str()),
        None => below,
    }
}

/// Reads a choice between two words out of a layer.
fn overlay_choice(m: &Settings, layer: Layer, key: Key, letter: char, below: bool) -> (r: bool)
    ensures
        r == choice_after(below, setting(m@, layer, key), letter),
{
    match fetch(m, layer, key) {
        Some(v) => starts_with_ci(v.as_str(), letter),
        None => below,
    }
}

/// Reads the allow-list out of a layer.
fn overlay_allow(m: &Settings, layer: Layer, allow: &mut Vec<IpAddr>)
    ensures
        final(allow)@ == allow_after(old(allow)@, setting(m@, layer, Key::Allow)),
{
    match fetch(m, layer, Key::Allow) {
        Some(v) => {
            *allow = parse_ip_list(v.as_str());
        },
        None => {},
    }
}

/// Appending six lists one by one appends their concatenation.
proof fn lemma_regroup(
    w: Seq<Seq<char>>,
    a: Seq<Seq<char>>,
    b: Seq<Seq<char>>,
    c: Seq<Seq<char>>,
    d: Seq<Seq<char>>,
    e: Seq<Seq<char>>,
    f: Seq<Seq<char>>,
)
    ensures
        w + a + b + c + d + e + f == w + (a + b + c + d + e + f),
{
    assert(w + a + b + c + d + e + f =~= w + (a + b + c + d + e + f));
}

impl Config {
    /// Lays a layer of settings over this configuration.
    fn overlay(&mut self, m: &Settings, layer: Layer)
        ensures
            final(self)@ == overlaid(old(self)@, m@, layer),
    {
        let port_max: u32 = u16::MAX as u32;
        overlay_host(m, layer, &mut self.host, &mut self.warnings);
        let port: u32 = self.remote_port as u32;
        self.remote_port =
        overlay_num(m, layer, Key::Port, port_max, port, &mut self.warnings) as u16;
        let port: u32 = self.local_port as u32;
        self.local_port =
        overlay_num(m, layer, Key::LocalPort, port_max, port, &mut self.warnings) as u16;
        self.tcp = overlay_choice(m, layer, Key::Proto, 't', self.tcp);
        self.tcp_server = overlay_choice(m, layer, Key::TcpRole, 's', self.tcp_server);
        overlay_log(m, layer, &mut self.log);
        let n: u32 = self.channels;
        self.channels = overlay_num(m, layer, Key::Channels, u32::MAX, n, &mut self.warnings);
        let n: u32 = self.connect_timeout_ms;
        self.connect_timeout_ms =
        overlay_num(m, layer, Key::ConnectTimeout, u32::MAX, n, &mut self.warnings);
        let n: u32 = self.accept_timeout_ms;
        self.accept_timeout_ms =
        overlay_num(m, layer, Key::AcceptTimeout, u32::MAX, n, &mut self.warnings);
        self.udp_port_fallback =
        overlay_switch(m, layer, Key::UdpPortFallback, self.udp_port_fallback);
        self.peer_check = overlay_switch(m, layer, Key::PeerCheck, self.peer_check);
        overlay_allow(m, layer, &mut self.allow);
        proof {
            lemma_regroup(
                old(self)@.warnings,
                host_warnings(setting(m@, layer, Key::Host), layer),
                number_warnings(m@, layer, Key::Port, u16::MAX as nat),
                number_warnings(m@, layer, Key::LocalPort, u16::MAX as nat),
                number_warnings(m@, layer, Key::Channels, u32::MAX as nat),
                number_warnings(m@, layer, Key::ConnectTimeout, u32::MAX as nat),
                number_warnings(m@, layer, Key::AcceptTimeout, u32::MAX as nat),
            );
        }
    }

    /// Lays the settings of an INI file over this configuration.
    pub fn apply_map(&mut self, m: &Settings)
        ensures
            final(self)@ == overlaid(old(self)@, m@, Layer::Ini),
    {
        self.overlay(m, Layer::Ini);
    }

    /// Lays the settings of an environment over this configuration.
    pub fn apply_env(&mut self, env: &Settings)
        ensures
            final(self)@ == overlaid(old(self)@, env@, Layer::Env),
    {
        self.overlay(env, Layer::Env);
    }

    /// The defaults, with the INI text laid over them if one was found, and the
    /// environment over both.
    pub fn load(ini: Option<&str>, env: &Settings) -> (r: Config)
        ensures
            r@ == loaded(
                match ini {
                    Some(text) => Some(text@),
                    None => None,
                },
                env@,
            ),
    {
        let mut cfg: Config = Config::default();
        match ini {
            Some(text) => {
                let map: Settings = parse_ini(text);
                cfg.apply_map(&map);
            },
            None => {},
        }
        cfg.apply_env(env);
        cfg
    }
}

/// A place where `kvasilloni.ini` is looked for.
#[derive(Clone, Copy, PartialEq, Eq, Structural, Debug)]
pub enum IniPlace {
    /// The path that `KVASILLONI_INI` gives.
    Explicit,
    /// Next to this library.
    NextToDll,
    /// Next to the host application's executable.
    NextToExe,
}

/// The places to look, first choice first.
pub open spec fn ini_places(explicit: Option<Seq<char>>, dll: bool, exe: bool) -> Seq<IniPlace> {
    let first = match explicit {
        Some(p) => if p.len() > 0 {
            seq![IniPlace::Explicit]
        } else {
            seq![]
        },
        None => seq![],
    };
    let second = if dll {
        seq![IniPlace::NextToDll]
    } else {
        seq![]
    };
    let third = if exe {
        seq![IniPlace::NextToExe]
    } else {
        seq![]
    };
    first + second + third
}

/// The places to look for the INI file: an explicit path that is not empty, then
/// the directories of this library and of the executable, as far as they are known.
pub fn ini_candidates(explicit: Option<&str>, dll: bool, exe: bool) -> (r: Vec<IniPlace>)
    ensures
        r@ == ini_places(
            match explicit {
                Some(p) => Some(p@),
                None => None,
            },
            dll,
            exe,
        ),
{
    let mut v: Vec<IniPlace> = Vec::new();
    match explicit {
        Some(p) => {
            if chars_of(p).len() > 0 {
                v.push(IniPlace::Explicit);
            }
        },
        None => {},
    }
    if dll {
        v.push(IniPlace::NextToDll);
    }
    if exe {
        v.push(IniPlace::NextToExe);
    }
    assert(v@ =~= ini_places(
        match explicit {
            Some(p) => Some(p@),
            None => None,
        },
        dll,
        exe,
    ));
    v
}

// ================================= laws =================================

/// A layer overrides what lies below it: where it names a usable host or path, or a
/// number of its range, or any switch, choice or list at all, that is what holds.
pub proof fn law_layer_overrides(c: ConfigView, m: Map<Seq<char>, Seq<char>>, layer: Layer)
    ensures
        ({
            let r = overlaid(c, m, layer);
            let port = u16::MAX as nat;
            let word = u32::MAX as nat;
            &&& setting(m, layer, Key::Host) matches Some(v) ==> (trimmed(v).len() > 0 ==> r.host
                == v)
            &&& setting(m, layer, Key::Port) matches Some(v) ==> (number(
                trimmed(v),
                port,
            ) matches Some(n) ==> r.remote_port == n)
            &&& setting(m, layer, Key::LocalPort) matches Some(v) ==> (number(
                trimmed(v),
                port,
            ) matches Some(n) ==> r.local_port == n)
            &&& setting(m, layer, Key::Proto) matches Some(v) ==> r.tcp == starts_ci(v, 't')
            &&& setting(m, layer, Key::TcpRole) matches Some(v) ==> r.tcp_server == starts_ci(
                v,
                's',
            )
            &&& setting(m, layer, Key::Log) matches Some(v) ==> (v.len() > 0 ==> r.log == Some(v))
            &&& setting(m, layer, Key::Channels) matches Some(v) ==> (number(
                trimmed(v),
                word,
            ) matches Some(n) ==> r.channels == n)
            &&& setting(m, layer, Key::ConnectTimeout) matches Some(v) ==> (number(
                trimmed(v),
                word,
            ) matches Some(n) ==> r.connect_timeout_ms == n)
            &&& setting(m, layer, Key::AcceptTimeout) matches Some(v) ==> (number(
                trimmed(v),
                word,
            ) matches Some(n) ==> r.accept_timeout_ms == n)
            &&& setting(m, layer, Key::UdpPortFallback) matches Some(v) ==> r.udp_port_fallback
                == truth(v)
            &&& setting(m, layer, Key::PeerCheck) matches Some(v) ==> r.peer_check == truth(v)
            &&& setting(m, layer, Key::Allow) matches Some(v) ==> r.allow == ips_of(v)
        }),
{
}

/// What a layer does not name shows through from below.
pub proof fn law_layer_shows_through(c: ConfigView, m: Map<Seq<char>, Seq<char>>, layer: Layer)
    ensures
        ({
            let r = overlaid(c, m, layer);
            &&& setting(m, layer, Key::Host) is None ==> r.host == c.host
            &&& setting(m, layer, Key::Port) is None ==> r.remote_port == c.remote_port
            &&& setting(m, layer, Key::LocalPort) is None ==> r.local_port == c.local_port
            &&& setting(m, layer, Key::Proto) is None ==> r.tcp == c.tcp
            &&& setting(m, layer, Key::TcpRole) is None ==> r.tcp_server == c.tcp_server
            &&& setting(m, layer, Key::Log) is None ==> r.log == c.log
            &&& setting(m, layer, Key::Channels) is None ==> r.channels == c.channels
            &&& setting(m, layer, Key::ConnectTimeout) is None ==> r.connect_timeout_ms
                == c.connect_timeout_ms
            &&& setting(m, layer, Key::AcceptTimeout) is None ==> r.accept_timeout_ms
                == c.accept_timeout_ms
            &&& setting(m, layer, Key::UdpPortFallback) is None ==> r.udp_port_fallback
                == c.udp_port_fallback
            &&& setting(m, layer, Key::PeerCheck) is None ==> r.peer_check == c.peer_check
            &&& setting(m, layer, Key::Allow) is None ==> r.allow == c.allow
        }),
{
}

/// The layers lie in this order: defaults, INI file, environment. What is loaded is the
/// environment laid over the INI file laid over the defaults, so that the environment
/// wins over the INI file, and that over the defaults.
pub proof fn law_order_of_layers(text: Seq<char>, env: Map<Seq<char>, Seq<char>>)
    ensures
        loaded(Some(text), env) == overlaid(
            overlaid(defaults(), ini_of(text), Layer::Ini),
            env,
            Layer::Env,
        ),
        loaded(None, env) == overlaid(defaults(), env, Layer::Env),
        loaded(None, Map::empty()) == defaults(),
{
    law_empty_layer(defaults(), Layer::Env);
}

/// A layer that says nothing changes nothing.
pub proof fn law_empty_layer(c: ConfigView, layer: Layer)
    ensures
        overlaid(c, Map::empty(), layer) == c,
{
    assert(overlaid(c, Map::empty(), layer) =~= c);
}

/// A numeric value that is there and is no number of its range keeps what the layer
/// below gave, and leaves a warning that names the key and shows the value.
pub proof fn law_bad_number_keeps_and_warns(
    c: ConfigView,
    m: Map<Seq<char>, Seq<char>>,
    layer: Layer,
    key: Key,
    v: Seq<char>,
)
    requires
        setting(m, layer, key) == Some(v),
        key is Port || key is LocalPort || key is Channels || key is ConnectTimeout
            || key is AcceptTimeout,
        bad_number(
            v,
            if key is Port || key is LocalPort {
                u16::MAX as nat
            } else {
                u32::MAX as nat
            },
        ),
    ensures
        overlaid(c, m, layer).warnings.contains(invalid_text(name_of(layer, key), debug_text(v))),
        key is Port ==> overlaid(c, m, layer).remote_port == c.remote_port,
        key is LocalPort ==> overlaid(c, m, layer).local_port == c.local_port,
        key is Channels ==> overlaid(c, m, layer).channels == c.channels,
        key is ConnectTimeout ==> overlaid(c, m, layer).connect_timeout_ms == c.connect_timeout_ms,
        key is AcceptTimeout ==> overlaid(c, m, layer).accept_timeout_ms == c.accept_timeout_ms,
{
    let w = invalid_text(name_of(layer, key), debug_text(v));
    let all = overlaid(c, m, layer).warnings;
    let n0 = c.warnings.len() + host_warnings(setting(m, layer, Key::Host), layer).len();
    let n1 = n0 + number_warnings(m, layer, Key::Port, u16::MAX as nat).len();
    let n2 = n1 + number_warnings(m, layer, Key::LocalPort, u16::MAX as nat).len();
    let n3 = n2 + number_warnings(m, layer, Key::Channels, u32::MAX as nat).len();
    let n4 = n3 + number_warnings(m, layer, Key::ConnectTimeout, u32::MAX as nat).len();
    let at = match key {
        Key::Port => n0,
        Key::LocalPort => n1,
        Key::Channels => n2,
        Key::ConnectTimeout => n3,
        _ => n4,
    };
    assert(all[at as int] == w);
}

/// A blank host keeps the host below and leaves a warning.
pub proof fn law_blank_host_keeps_and_warns(
    c: ConfigView,
    m: Map<Seq<char>, Seq<char>>,
    layer: Layer,
    v: Seq<char>,
)
    requires
        setting(m, layer, Key::Host) == Some(v),
        trimmed(v).len() == 0,
    ensures
        overlaid(c, m, layer).host == c.host,
        overlaid(c, m, layer).warnings.contains(empty_text(layer)),
{
    assert(overlaid(c, m, layer).warnings[c.warnings.len() as int] == empty_text(layer));
}

/// Where every value can be used, no warning is added.
pub proof fn law_valid_layer_is_silent(
    c: ConfigView,
    m: Map<Seq<char>, Seq<char>>,
    layer: Layer,
)
    requires
        setting(m, layer, Key::Host) matches Some(v) ==> trimmed(v).len() > 0,
        setting(m, layer, Key::Port) matches Some(v) ==> !bad_number(v, u16::MAX as nat),
        setting(m, layer, Key::LocalPort) matches Some(v) ==> !bad_number(v, u16::MAX as nat),
        setting(m, layer, Key::Channels) matches Some(v) ==> !bad_number(v, u32::MAX as nat),
        setting(m, layer, Key::ConnectTimeout) matches Some(v) ==> !bad_number(v, u32::MAX as nat),
        setting(m, layer, Key::AcceptTimeout) matches Some(v) ==> !bad_number(v, u32::MAX as nat),
    ensures
        overlaid(c, m, layer).warnings == c.warnings,
{
    assert(overlaid(c, m, layer).warnings =~= c.warnings);
}

} // verus!
