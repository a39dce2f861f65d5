//! Opening, sending, receiving and closing one connection.

use kvasilloni::addr::IpAddr;
use kvasilloni::config::Config;
use kvasilloni::open::{
    accept_with_timeout, bind_udp, effective_allow, handshake, peer_allowed, wildcard_for, Action,
    Endpoint, ErrorKind, Event, Look, OpenError, Opening, Waiting,
};
use kvasilloni::shared::{CbScope, PopWait};
use kvasilloni::transport::{
    udp_ingest, udp_rx_loop, Closing, Conn, Fed, Recv, RxEnd, Sent, StreamRx, UdpRx, WriteError,
};
use kvasilloni::wire::{build_udp, encode_frame, Frame, CONNECT_V1};

const MS: u128 = 1_000_000;

fn ip(s: &str) -> IpAddr {
    IpAddr::parse(s).unwrap()
}

fn frame(can_id: u32) -> Frame {
    Frame { can_id, len: 1, fd: false, fd_flags: 0, data: [0u8; 64], rx_time_ms: 0 }
}

fn tcp_cfg(server: bool, remote: u16, local: u16) -> Config {
    Config {
        host: "127.0.0.1".into(),
        remote_port: remote,
        local_port: local,
        tcp: true,
        tcp_server: server,
        peer_check: false,
        connect_timeout_ms: 1000,
        accept_timeout_ms: 5000,
        ..Config::default()
    }
}

fn udp_cfg(remote: u16, local: u16) -> Config {
    Config {
        host: "127.0.0.1".into(),
        remote_port: remote,
        local_port: local,
        tcp: false,
        peer_check: false,
        ..Config::default()
    }
}

fn start(cfg: &Config) -> Opening {
    match Conn::connect(cfg) {
        Ok(o) => o,
        Err(e) => panic!("{:?}", e),
    }
}

/// A TCP client connection whose handshake succeeded.
fn tcp_conn() -> Conn {
    let mut o = start(&tcp_cfg(false, 20000, 0));
    o.on_event(Event::Connected);
    o.on_event(Event::Reply(CONNECT_V1));
    Conn::open(&o, Some(4242)).unwrap()
}

fn udp_conn() -> Conn {
    let mut o = start(&udp_cfg(20000, 20001));
    o.on_event(Event::Bound);
    Conn::open(&o, Some(20001)).unwrap()
}

#[test]
fn peer_allowed_matches_only_listed_ips_unless_disabled() {
    let a = ip("127.0.0.1");
    let b = ip("10.0.0.9");
    let allow = [a];
    assert!(peer_allowed(a, &allow, true));
    assert!(!peer_allowed(b, &allow, true));
    assert!(peer_allowed(b, &allow, false));
}

#[test]
fn wildcard_matches_peer_family() {
    assert_eq!(wildcard_for(ip("127.0.0.1")), ip("0.0.0.0"));
    assert_eq!(wildcard_for(ip("::1")), ip("::"));
}

#[test]
fn the_configured_host_is_the_default_allow_list() {
    let mut cfg = Config::default();
    assert_eq!(effective_allow(&cfg, ip("10.0.0.1")), vec![ip("10.0.0.1")]);
    cfg.allow = vec![ip("10.0.0.2"), ip("::1")];
    assert_eq!(effective_allow(&cfg, ip("10.0.0.1")), vec![ip("10.0.0.2"), ip("::1")]);
}

#[test]
fn udp_rx_loop_filters_peer_and_enqueues_allowed() {
    let allow = [ip("127.0.0.1")];
    let mut c = udp_conn();
    for (from, id) in [("127.0.0.2", 0x222), ("127.0.0.1", 0x123)] {
        let pkt = build_udp(&frame(id), 0);
        match udp_rx_loop(Recv::Datagram(ip(from)), &allow, true) {
            UdpRx::Ingest => {
                for f in udp_ingest(&pkt) {
                    c.rx_shared().push(f, 0);
                }
            }
            UdpRx::Again => assert_eq!(from, "127.0.0.2"),
            UdpRx::Stop => panic!("a datagram must not stop the loop"),
        }
    }
    assert_eq!(c.read().map(|f| f.can_id), Some(0x123));
    assert!(c.read().is_none());
    assert_eq!(udp_rx_loop(Recv::Datagram(ip("127.0.0.2")), &allow, false), UdpRx::Ingest);
    assert_eq!(udp_rx_loop(Recv::Nothing, &allow, true), UdpRx::Again);
    assert_eq!(udp_rx_loop(Recv::Failed, &allow, true), UdpRx::Stop);
    assert!(udp_ingest(&[1, 2, 3]).is_empty());
}

#[test]
fn tcp_rx_loop_reassembles_dribbled_frame_then_exits_on_error() {
    let mut enc = Vec::new();
    encode_frame(&mut enc, &frame(0x456));
    enc.extend_from_slice(&[0x00, 0x00, 0x01, 0x00, 9]);
    let mut rx = StreamRx::new();
    let mut got = Vec::new();
    let mut pending = Vec::new();
    let mut stopped = false;
    for b in enc {
        assert!(!stopped);
        pending.push(b);
        if pending.len() == rx.need() {
            match rx.feed(&pending) {
                Fed::More => {}
                Fed::Frame(f) => got.push(f.can_id),
                Fed::Stop => stopped = true,
            }
            pending.clear();
        }
    }
    assert_eq!(got, vec![0x456]);
    assert!(stopped && rx.need() == 0);
    assert!(matches!(rx.feed(&[0, 0, 0, 1]), Fed::Stop));

    let mut c = tcp_conn();
    c.rx_ended();
    assert!(c.is_running(), "the loop ended by itself, not because it was told to");
    assert!(c.is_down());
}

#[test]
fn stream_reads_have_the_sizes_of_the_format() {
    let mut rx = StreamRx::new();
    assert_eq!(rx.need(), 4);
    assert!(matches!(rx.feed(&[0, 0, 2, 0]), Fed::More));
    assert_eq!(rx.need(), 1);
    assert!(matches!(rx.feed(&[0x80 | 12]), Fed::More));
    assert_eq!(rx.need(), 1);
    assert!(matches!(rx.feed(&[1]), Fed::More));
    assert_eq!(rx.need(), 12);
    match rx.feed(&[7; 12]) {
        Fed::Frame(f) => assert!(f.fd && f.len == 12 && f.data[11] == 7 && f.data[12] == 0),
        _ => panic!("no frame"),
    }
    assert_eq!(rx.need(), 4);
}

#[test]
fn conn_tcp_exchanges_frame_both_directions() {
    let mut server = {
        let mut o = start(&tcp_cfg(true, 20000, 20000));
        assert_eq!(o.action(), Action::Listen(Endpoint { ip: ip("0.0.0.0"), port: 20000 }));
        o.on_event(Event::Bound);
        assert_eq!(o.action(), Action::Look);
        o.on_event(Event::Looked(Look::Nobody, 0));
        assert_eq!(o.action(), Action::Sleep(50));
        o.on_event(Event::Done);
        o.on_event(Event::Looked(Look::Client(ip("127.0.0.1")), 60 * MS));
        assert_eq!(o.action(), Action::Handshake(1000));
        o.on_event(Event::Reply(CONNECT_V1));
        assert_eq!(o.action(), Action::Ready);
        Conn::open(&o, None).unwrap()
    };
    assert_eq!(server.local_port(), 20000);
    let mut client = tcp_conn();
    assert_eq!(client.local_port(), 4242);

    for (id, from_client) in [(0x321, true), (0x654, false)] {
        let (tx, rx) = if from_client { (&mut client, &mut server) } else { (&mut server, &mut client) };
        let bytes = tx.write(&frame(id)).unwrap();
        assert_eq!(tx.finish_write(bytes.len(), Sent::Bytes(bytes.len())), Ok(()));
        let mut stream = StreamRx::new();
        let mut off = 0;
        while off + stream.need() <= bytes.len() {
            let n = stream.need();
            if let Fed::Frame(f) = stream.feed(&bytes[off..off + n]) {
                rx.rx_shared().push(f, 1);
            }
            off += n;
        }
        match rx.rx_shared().pop_wait(2000 * MS, 0) {
            PopWait::Done(Some(f)) => assert_eq!(f.can_id, id),
            _ => panic!("nothing received"),
        }
    }
    client.close(false);
    server.close(false);
}

#[test]
fn conn_connect_rejects_non_ip_host() {
    let mut cfg = tcp_cfg(false, 20000, 0);
    cfg.host = "not-an-ip".into();
    let err = Conn::connect(&cfg).err().expect("a non-IP host must error");
    assert_eq!(err.kind(), ErrorKind::InvalidInput);
    cfg.host = " ::1 ".into();
    assert!(Conn::connect(&cfg).is_ok());
}

#[test]
fn conn_tcp_write_error_tears_down_connection() {
    let mut client = tcp_conn();
    assert!(client.is_ready(), "client should be negotiated after handshake");
    let bytes = client.write(&frame(0x111)).unwrap();
    assert_eq!(client.finish_write(bytes.len(), Sent::Failed), Err(WriteError::TornDown));
    assert!(!client.is_ready(), "a failed TCP write must clear negotiated/is_ready");
    assert!(!client.is_running() && client.is_down());
    assert_eq!(client.write(&frame(0x111)), Err(WriteError::NotConnected));
    assert_eq!(WriteError::NotConnected.kind(), ErrorKind::NotConnected);
    assert_eq!(WriteError::TornDown.kind(), ErrorKind::Outside);
}

#[test]
fn udp_send_errors_leave_the_connection_alone() {
    let mut c = udp_conn();
    let bytes = c.write(&frame(0x111)).unwrap();
    assert_eq!(bytes[2], 0);
    assert_eq!(c.finish_write(bytes.len(), Sent::Bytes(3)), Err(WriteError::ShortSend));
    assert_eq!(c.finish_write(bytes.len(), Sent::Failed), Err(WriteError::SendFailed));
    assert!(c.is_ready() && !c.is_down());
    for want in 1..=256u32 {
        assert_eq!(c.write(&frame(0x111)).unwrap()[2], want as u8);
    }
}

#[test]
fn handshake_rejects_wrong_banner() {
    let err = handshake(b"NOTCANNELLON").unwrap_err();
    assert_eq!(err.kind(), ErrorKind::InvalidData);
    assert!(handshake(b"CANNELLONIv1").is_ok());
    assert!(handshake(b"CANNELLONIv2").is_err());

    let mut o = start(&tcp_cfg(false, 1, 0));
    assert_eq!(o.action(), Action::Dial(Endpoint { ip: ip("127.0.0.1"), port: 1 }, 1000));
    o.on_event(Event::Connected);
    o.on_event(Event::Reply(*b"NOTCANNELLON"));
    assert_eq!(o.action(), Action::Fail(OpenError::BadHandshake));
    assert!(Conn::open(&o, None).is_none());
    o.on_event(Event::Reply(CONNECT_V1));
    assert_eq!(o.action(), Action::Fail(OpenError::BadHandshake), "a failure is final");
}

#[test]
fn accept_with_timeout_returns_allowed_peer() {
    let allow = [ip("127.0.0.1")];
    let look = Look::Client(ip("127.0.0.1"));
    assert_eq!(accept_with_timeout(look, 0, 2000 * MS, &allow, true), Waiting::Take);
    assert_eq!(accept_with_timeout(look, 2001 * MS, 2000 * MS, &allow, true), Waiting::Take);
}

#[test]
fn accept_with_timeout_rejects_disallowed_then_times_out() {
    let mut cfg = tcp_cfg(true, 1, 2);
    cfg.peer_check = true;
    cfg.allow = vec![ip("10.255.255.254")];
    cfg.accept_timeout_ms = 700;
    let mut o = start(&cfg);
    o.on_event(Event::Bound);
    o.on_event(Event::Looked(Look::Client(ip("127.0.0.1")), 10 * MS));
    assert_eq!(o.action(), Action::Refuse);
    o.on_event(Event::Done);
    assert_eq!(o.action(), Action::Look);
    o.on_event(Event::Looked(Look::Client(ip("127.0.0.1")), 701 * MS));
    assert_eq!(o.action(), Action::Refuse, "a disallowed client is always shut down");
    o.on_event(Event::Done);
    assert_eq!(o.action(), Action::Fail(OpenError::NoAllowedClient));
    assert_eq!(OpenError::NoAllowedClient.kind(), ErrorKind::TimedOut);
}

#[test]
fn accept_with_timeout_times_out_without_client() {
    let allow = [ip("127.0.0.1")];
    assert_eq!(accept_with_timeout(Look::Nobody, 300 * MS, 300 * MS, &allow, true), Waiting::Sleep);
    assert_eq!(
        accept_with_timeout(Look::Nobody, 300 * MS + 1, 300 * MS, &allow, true),
        Waiting::GiveUp
    );
    let mut o = start(&tcp_cfg(true, 1, 2));
    o.on_event(Event::Bound);
    o.on_event(Event::Looked(Look::Nobody, 5001 * MS));
    assert_eq!(o.action(), Action::Fail(OpenError::NoClient));
    assert_eq!(OpenError::NoClient.kind(), ErrorKind::TimedOut);
}

#[test]
fn bind_udp_falls_back_to_ephemeral_when_busy() {
    let addr = Endpoint { ip: ip("127.0.0.1"), port: 20000 };
    assert_eq!(bind_udp(addr, true, true), Some(Endpoint { ip: ip("127.0.0.1"), port: 0 }));
    assert_eq!(bind_udp(addr, false, true), None);
    assert_eq!(bind_udp(addr, true, false), None);
    assert_eq!(bind_udp(Endpoint { ip: ip("127.0.0.1"), port: 0 }, true, true), None);

    let mut cfg = udp_cfg(1, 20000);
    cfg.udp_port_fallback = true;
    let mut o = start(&cfg);
    assert_eq!(o.action(), Action::BindUdp(Endpoint { ip: ip("0.0.0.0"), port: 20000 }));
    o.on_event(Event::BindFailed(true));
    assert_eq!(o.action(), Action::BindUdp(Endpoint { ip: ip("0.0.0.0"), port: 0 }));
    o.on_event(Event::Bound);
    assert_eq!(Conn::open(&o, Some(51000)).unwrap().local_port(), 51000);
}

#[test]
fn a_failed_bind_opens_nothing() {
    for cfg in [tcp_cfg(true, 20000, 20000), udp_cfg(20000, 20000)] {
        let mut o = start(&cfg);
        o.on_event(Event::BindFailed(true));
        assert_eq!(o.action(), Action::Fail(OpenError::Io));
        assert_eq!(OpenError::Io.kind(), ErrorKind::Outside);
        assert!(Conn::open(&o, None).is_none(), "nothing is opened after a failed bind");
    }
}

#[test]
fn close_from_notify_callback_detaches_not_self_joins() {
    let mut c = udp_conn();
    assert_eq!(c.close(true), Closing { shutdown: false, rx: RxEnd::Detach });
    assert_eq!(c.close(false), Closing { shutdown: false, rx: RxEnd::Nothing });
    assert!(!c.is_ready() && !c.is_running());

    let mut t = tcp_conn();
    assert_eq!(t.close(false), Closing { shutdown: true, rx: RxEnd::Join });
    assert!(matches!(t.rx_shared().pop_wait(1000 * MS, 0), PopWait::Done(None)));
    t.rx_ended();
    assert!(!t.is_down(), "an asked-for end is no lost link");
}

#[test]
fn the_connection_passes_its_settings_on() {
    let mut c = udp_conn();
    assert!(!c.fd_capable());
    c.set_fd_capable(true);
    assert!(c.fd_capable());
    c.set_accept(3, 5);
    c.set_accept(4, 0x7FF);
    c.rx_shared().push(frame(4), 0);
    c.rx_shared().push(frame(5), 0);
    assert_eq!(c.rx_level(), 1);
    assert!(!c.rx_overflowed());
    c.clear_rx();
    assert_eq!(c.rx_level(), 0);
    assert!(!c.set_notify(9, 1, 2, &CbScope::new()));
    assert_eq!(c.rx().notify().cb, 9);
}

#[test]
fn a_server_takes_one_client() {
    let mut o = start(&tcp_cfg(true, 1, 2));
    o.on_event(Event::Bound);
    o.on_event(Event::Looked(Look::Client(ip("127.0.0.1")), 0));
    assert_eq!(o.action(), Action::Handshake(1000));
    o.on_event(Event::Looked(Look::Client(ip("127.0.0.1")), 1));
    assert_eq!(o.action(), Action::Fail(OpenError::Io), "it never looks again");
}

#[test]
fn a_failed_operation_fails_the_opening() {
    for server in [false, true] {
        let mut o = start(&tcp_cfg(server, 1, 2));
        o.on_event(Event::Failed);
        assert_eq!(o.action(), Action::Fail(OpenError::Io));
    }
}
