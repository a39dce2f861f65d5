//! Settings, configuration layers, and the texts they are read from.

use kvasilloni::addr::IpAddr;
use kvasilloni::config::{
    ini_candidates, invalid_warning, key_name, parse_bool, parse_ip_list, parse_num,
    starts_with_ci, Config, IniPlace, Key, Layer,
};
use kvasilloni::settings::{parse_ini, Settings};
use kvasilloni::text::{parse_digits, push_int};

fn ip(s: &str) -> IpAddr {
    IpAddr::parse(s).unwrap()
}

#[test]
fn ini_parsing_with_sections_and_comments() {
    let txt = "\
        ; a comment\n\
        [cannelloni]\n\
        host = 192.168.1.50   ; the linux box\n\
        Port=20000\n\
        proto = tcp\n\
        tcprole= server\n\
        # log disabled\n\
        log=\n";
    let m = parse_ini(txt);
    assert_eq!(m.get("host").unwrap(), "192.168.1.50");
    assert_eq!(m.get("port").unwrap(), "20000");
    assert_eq!(m.get("proto").unwrap(), "tcp");
    assert_eq!(m.get("tcprole").unwrap(), "server");
    assert_eq!(m.get("log").unwrap(), "");
}

#[test]
fn map_applies_to_config() {
    let mut cfg = Config::default();
    let mut m = Settings::new();
    m.insert("host".into(), "10.0.0.1".into());
    m.insert("port".into(), "21000".into());
    m.insert("proto".into(), "tcp".into());
    m.insert("tcprole".into(), "server".into());
    cfg.apply_map(&m);
    assert_eq!(cfg.host, "10.0.0.1");
    assert_eq!(cfg.remote_port, 21000);
    assert!(cfg.tcp);
    assert!(cfg.tcp_server);
}

#[test]
fn timeouts_default_and_parse() {
    let cfg = Config::default();
    assert_eq!(cfg.connect_timeout_ms, 5000);
    assert_eq!(cfg.accept_timeout_ms, 30000);

    let mut cfg = Config::default();
    let mut m = Settings::new();
    m.insert("connecttimeout".into(), "1500".into());
    m.insert("accepttimeout".into(), "8000".into());
    cfg.apply_map(&m);
    assert_eq!(cfg.connect_timeout_ms, 1500);
    assert_eq!(cfg.accept_timeout_ms, 8000);
}

#[test]
fn peer_and_fallback_defaults_and_parse() {
    let cfg = Config::default();
    assert!(cfg.peer_check);
    assert!(!cfg.udp_port_fallback);
    assert!(cfg.allow.is_empty());

    let mut cfg = Config::default();
    let mut m = Settings::new();
    m.insert("peercheck".into(), "off".into());
    m.insert("udpportfallback".into(), "1".into());
    m.insert("allow".into(), "127.0.0.1, ::1 10.0.0.5".into());
    cfg.apply_map(&m);
    assert!(!cfg.peer_check);
    assert!(cfg.udp_port_fallback);
    assert_eq!(cfg.allow, vec![ip("127.0.0.1"), ip("::1"), ip("10.0.0.5")]);
}

#[test]
fn invalid_values_warn_and_keep_defaults() {
    let mut cfg = Config::default();
    let mut m = Settings::new();
    m.insert("host".into(), "   ".into());
    m.insert("port".into(), "70000".into());
    m.insert("connecttimeout".into(), "soon".into());
    cfg.apply_map(&m);
    assert_eq!(cfg.host, "127.0.0.1", "blank host kept default");
    assert_eq!(cfg.remote_port, 20000, "out-of-range port kept default");
    assert_eq!(cfg.connect_timeout_ms, 5000, "bad timeout kept default");
    assert_eq!(cfg.warnings.len(), 3, "each bad value should warn once");

    let mut ok = Config::default();
    let mut m2 = Settings::new();
    m2.insert("port".into(), "21000".into());
    m2.insert("host".into(), "10.0.0.1".into());
    ok.apply_map(&m2);
    assert!(ok.warnings.is_empty(), "valid config must not warn");
}

#[test]
fn parse_bool_and_ip_list_are_lenient() {
    assert!(parse_bool("YES") && parse_bool("On") && parse_bool("1"));
    assert!(!parse_bool("0") && !parse_bool("") && !parse_bool("nope"));
    let ips = parse_ip_list("not-an-ip, 192.168.0.1,,fe80::1");
    assert_eq!(ips, vec![ip("192.168.0.1"), ip("fe80::1")]);
}

#[test]
fn warnings_say_what_was_wrong_in_order() {
    let mut cfg = Config::default();
    let mut m = Settings::new();
    m.insert("accepttimeout".into(), "-1".into());
    m.insert("localport".into(), " 65536 ".into());
    m.insert("host".into(), "".into());
    m.insert("channels".into(), "a\"b\n".into());
    cfg.apply_map(&m);
    assert_eq!(
        cfg.warnings,
        vec![
            "empty 'host'; using default".to_string(),
            "invalid localport=\" 65536 \"; using default".to_string(),
            "invalid channels=\"a\\\"b\\n\"; using default".to_string(),
            "invalid accepttimeout=\"-1\"; using default".to_string(),
        ]
    );

    let mut env = Settings::new();
    env.insert("KVASILLONI_HOST".into(), " ".into());
    env.insert("KVASILLONI_PORT".into(), "x".into());
    let mut cfg = Config::default();
    cfg.apply_env(&env);
    assert_eq!(
        cfg.warnings,
        vec![
            "empty KVASILLONI_HOST; using default".to_string(),
            "invalid KVASILLONI_PORT=\"x\"; using default".to_string(),
        ]
    );
    assert_eq!(invalid_warning("port", "<x>"), "invalid port=<x>; using default");
}

#[test]
fn environment_wins_over_ini_wins_over_default() {
    let ini = "host=10.0.0.1\nport=1000\nlocalport=1001\nproto=tcp\ntcprole=server\n\
               log=/tmp/a\nchannels=3\nconnecttimeout=7\naccepttimeout=8\n\
               udpportfallback=on\npeercheck=off\nallow=10.0.0.2\n";
    let none = Settings::new();
    let c = Config::load(Some(ini), &none);
    assert_eq!(c.host, "10.0.0.1");
    assert_eq!((c.remote_port, c.local_port), (1000, 1001));
    assert!(c.tcp && c.tcp_server && c.udp_port_fallback && !c.peer_check);
    assert_eq!(c.log, Some("/tmp/a".to_string()));
    assert_eq!((c.channels, c.connect_timeout_ms, c.accept_timeout_ms), (3, 7, 8));
    assert_eq!(c.allow, vec![ip("10.0.0.2")]);

    let mut env = Settings::new();
    env.insert("KVASILLONI_HOST".into(), "::1".into());
    env.insert("KVASILLONI_PORT".into(), "2000".into());
    env.insert("KVASILLONI_LOCALPORT".into(), "2001".into());
    env.insert("KVASILLONI_PROTO".into(), "UDP".into());
    env.insert("KVASILLONI_TCPROLE".into(), "Client".into());
    env.insert("KVASILLONI_LOG".into(), "/tmp/b".into());
    env.insert("KVASILLONI_CHANNELS".into(), "4".into());
    env.insert("KVASILLONI_CONNECT_TIMEOUT".into(), "9".into());
    env.insert("KVASILLONI_ACCEPT_TIMEOUT".into(), "10".into());
    env.insert("KVASILLONI_UDP_PORT_FALLBACK".into(), "no".into());
    env.insert("KVASILLONI_PEER_CHECK".into(), "yes".into());
    env.insert("KVASILLONI_ALLOW".into(), "".into());
    let c = Config::load(Some(ini), &env);
    assert_eq!(c.host, "::1");
    assert_eq!((c.remote_port, c.local_port), (2000, 2001));
    assert!(!c.tcp && !c.tcp_server && !c.udp_port_fallback && c.peer_check);
    assert_eq!(c.log, Some("/tmp/b".to_string()));
    assert_eq!((c.channels, c.connect_timeout_ms, c.accept_timeout_ms), (4, 9, 10));
    assert!(c.allow.is_empty());
    assert!(c.warnings.is_empty());

    let d = Config::load(None, &none);
    assert_eq!(d.host, "127.0.0.1");
    assert_eq!((d.remote_port, d.local_port, d.channels), (20000, 20000, 1));
    assert!(d.log.is_none());
}

#[test]
fn a_bad_value_keeps_the_layer_below() {
    let mut env = Settings::new();
    env.insert("KVASILLONI_PORT".into(), "70000".into());
    env.insert("KVASILLONI_LOG".into(), "".into());
    let c = Config::load(Some("port=1234\nlog=x"), &env);
    assert_eq!(c.remote_port, 1234);
    assert_eq!(c.log, Some("x".to_string()));
    assert_eq!(c.warnings.len(), 1);
}

#[test]
fn ini_corner_cases() {
    let m = parse_ini("A=1\r\na = 2\r\n = x\nnovalue\nk=a=b;c\nz=#\n[s]=1\n;q=1\n#r=1");
    assert_eq!(m.get("a").unwrap(), "2", "the later line wins, whatever the case");
    assert!(m.get("A").is_none());
    assert_eq!(m.get("").unwrap(), "x");
    assert!(m.get("novalue").is_none());
    assert_eq!(m.get("k").unwrap(), "a=b");
    assert_eq!(m.get("z").unwrap(), "");
    assert!(m.get("[s]").is_none());
    assert!(m.get("q").is_none() && m.get("r").is_none());
    assert!(parse_ini("").get("a").is_none());
}

#[test]
fn settings_replace_values() {
    let mut m = Settings::new();
    m.insert("a".into(), "1".into());
    m.insert("b".into(), "2".into());
    m.insert("a".into(), "3".into());
    assert_eq!(m.get("a").unwrap(), "3");
    assert_eq!(m.get("b").unwrap(), "2");
    assert!(m.get("c").is_none());
}

#[test]
fn numbers_read_like_unsigned_integers() {
    let mut w = Vec::new();
    assert_eq!(parse_num(" +042 ", "n", 65535, &mut w), Some(42));
    assert_eq!(parse_num("65535", "n", 65535, &mut w), Some(65535));
    assert_eq!(parse_num("4294967295", "n", u32::MAX, &mut w), Some(u32::MAX));
    assert_eq!(parse_num("", "n", 9, &mut w), None);
    assert_eq!(parse_num(" \t", "n", 9, &mut w), None);
    assert!(w.is_empty());
    assert_eq!(parse_num("+", "n", 9, &mut w), None);
    assert_eq!(parse_num("1_0", "n", 9, &mut w), None);
    assert_eq!(parse_num("99999999999999999999", "n", u32::MAX, &mut w), None);
    assert_eq!(w.len(), 3);
    assert_eq!(parse_digits(&['0', '7'], 9), Some(7));
}

#[test]
fn a_written_number_reads_back() {
    for n in [0, 7, 10, 65535, i32::MAX] {
        let mut s = String::new();
        push_int(&mut s, n);
        assert_eq!(s, n.to_string());
        let mut w = Vec::new();
        assert_eq!(parse_num(&s, "n", u32::MAX, &mut w), Some(n as u32));
    }
    let mut s = "x".to_string();
    push_int(&mut s, i32::MIN);
    assert_eq!(s, "x-2147483648");
}

#[test]
fn first_letters_decide_in_either_case() {
    assert!(starts_with_ci("tcp", 't') && starts_with_ci("TCP", 't'));
    assert!(!starts_with_ci("udp", 't') && !starts_with_ci("", 't') && !starts_with_ci(" tcp", 't'));
}

#[test]
fn ini_places_in_order_of_precedence() {
    assert_eq!(
        ini_candidates(Some("x.ini"), true, true),
        vec![IniPlace::Explicit, IniPlace::NextToDll, IniPlace::NextToExe]
    );
    assert_eq!(ini_candidates(Some(""), true, false), vec![IniPlace::NextToDll]);
    assert!(ini_candidates(None, false, false).is_empty());
}

#[test]
fn keys_have_a_name_in_each_layer() {
    assert_eq!(key_name(Layer::Ini, Key::UdpPortFallback), "udpportfallback");
    assert_eq!(key_name(Layer::Env, Key::UdpPortFallback), "KVASILLONI_UDP_PORT_FALLBACK");
    assert_eq!(key_name(Layer::Ini, Key::ConnectTimeout), "connecttimeout");
    assert_eq!(key_name(Layer::Env, Key::AcceptTimeout), "KVASILLONI_ACCEPT_TIMEOUT");
}

#[test]
fn ipv4_literals() {
    assert_eq!(ip("127.0.0.1"), IpAddr::V4(0x7F00_0001));
    assert_eq!(ip("255.255.255.255"), IpAddr::V4(u32::MAX));
    assert_eq!(ip("0.0.0.0"), IpAddr::V4(0));
    for bad in ["", "1.2.3", "1.2.3.4.5", "256.0.0.1", "01.2.3.4", "1..2.3", "1.2.3.4 ", "a.b.c.d"] {
        assert!(IpAddr::parse(bad).is_none(), "{}", bad);
    }
}

#[test]
fn ipv6_literals() {
    assert_eq!(ip("::"), IpAddr::V6(0));
    assert_eq!(ip("::1"), IpAddr::V6(1));
    assert_eq!(ip("1::"), IpAddr::V6(1 << 112));
    assert_eq!(ip("fe80::1"), IpAddr::V6((0xfe80 << 112) | 1));
    assert_eq!(ip("FE80::ABCD"), IpAddr::V6((0xfe80 << 112) | 0xabcd));
    assert_eq!(ip("1:2:3:4:5:6:7:8"), IpAddr::V6(0x0001_0002_0003_0004_0005_0006_0007_0008));
    assert_eq!(ip("1:2:3:4:5:6:7::"), IpAddr::V6(0x0001_0002_0003_0004_0005_0006_0007_0000));
    assert_eq!(ip("::ffff:1.2.3.4"), IpAddr::V6(0xffff_0102_0304));
    assert_eq!(ip("1:2:3:4:5:6:1.2.3.4"), IpAddr::V6(0x0001_0002_0003_0004_0005_0006_0102_0304));
    for bad in [
        ":", ":::", "1:2:3:4:5:6:7", "1:2:3:4:5:6:7:8:9", "1:2:3:4:5:6:7:8::", "1::2::3", "12345::",
        "::g", "1.2.3.4::", "::1.2.3", "::1.2.3.4:5", "1:2:3:4:5:6:7:1.2.3.4", "[::1]", "fe80::1%1",
    ] {
        assert!(IpAddr::parse(bad).is_none(), "{}", bad);
    }
}
