//! The CANlib functions, the handle table and the log cache.

use kvasilloni::canlib::{
    canAccept, canBusOff, canBusOn, canClose, canFlushReceiveQueue, canFlushTransmitQueue,
    canGetBusOutputControl, canGetBusStatistics, canGetChannelData, canGetErrorText,
    canGetNumberOfChannels, canGetVersion, canIoCtl, canObjBufSetFilter, canOpenChannel, canRead,
    canReadErrorCounters, canReadStatus, canReadSync, canReadWait, canSetBusOutputControl,
    canSetBusParams, canSetNotify, canWrite, canWriteSync, canWriteWait, channels_memo,
    compose_frame, open_conn, out_cstr, out_u32, out_u64, payload_bytes, timeout_to_duration,
    write_done, write_read_outputs, BusOutput, ReadOutput, ReadWait, SyncWait, CAN_DRIVER_NORMAL,
    CAN_ERR_INVHANDLE, CAN_ERR_NOMSG, CAN_ERR_NOTFOUND, CAN_ERR_NOT_IMPLEMENTED, CAN_ERR_PARAM,
    CAN_OK, CAN_OPEN_CAN_FD, CAN_STAT_BUS_OFF, CAN_STAT_RX_PENDING, CAN_STAT_SW_OVERRUN,
};
use kvasilloni::config::Config;
use kvasilloni::handles::HandleTable;
use kvasilloni::log::{log_path, LogCache, LogFile};
use kvasilloni::open::Event;
use kvasilloni::settings::Settings;
use kvasilloni::shared::{CbScope, RxEvent, Start, NOTIFY_RX, RING_CAP};
use kvasilloni::transport::{udp_ingest, Conn, Fed, RxEnd, Sent, StreamRx};
use kvasilloni::wire::{
    Frame, CANFD_BRS, CAN_MSG_BRS, CAN_MSG_ESI, CAN_MSG_EXT, CAN_MSG_FDF, CAN_MSG_RTR, CAN_MSG_STD,
    CAN_RTR_FLAG, CONNECT_V1,
};

const MS: u128 = 1_000_000;

fn conn(tcp: bool, flags: i32) -> Conn {
    let mut cfg = Config::default();
    cfg.tcp = tcp;
    let mut o = match Conn::connect(&cfg) {
        Ok(o) => o,
        Err(e) => panic!("{:?}", e),
    };
    if tcp {
        o.on_event(Event::Connected);
        o.on_event(Event::Reply(CONNECT_V1));
    } else {
        o.on_event(Event::Bound);
    }
    open_conn(&o, None, flags).unwrap()
}

fn read_ok(c: &mut Conn) -> ReadOutput {
    match canRead(Some(c)) {
        Ok(out) => out,
        Err(e) => panic!("read failed: {}", e),
    }
}

fn read_err(r: Result<ReadOutput, i32>) -> i32 {
    match r {
        Ok(_) => panic!("a read succeeded"),
        Err(e) => e,
    }
}

fn fd_frame() -> Frame {
    let mut f = Frame::default();
    f.can_id = 0x321;
    f.fd = true;
    f.fd_flags = CANFD_BRS;
    f.len = 64;
    for i in 0..64 {
        f.data[i] = i as u8;
    }
    f
}

#[test]
fn bus_output_control_roundtrips() {
    let mut out = BusOutput::new();
    assert_eq!(canGetBusOutputControl(&out), CAN_DRIVER_NORMAL);
    assert_eq!(CAN_DRIVER_NORMAL, 4);
    assert_eq!(canSetBusOutputControl(&mut out, 1), CAN_OK);
    assert_eq!(canGetBusOutputControl(&out), 1);
}

#[test]
fn ioctl_unknown_func_is_not_implemented() {
    assert_eq!(canIoCtl(None, 9999, None), Err(CAN_ERR_NOT_IMPLEMENTED));
    assert_eq!(canIoCtl(None, 5, Some(4)), Err(CAN_ERR_NOT_IMPLEMENTED));
    assert_eq!(canIoCtl(None, 14, Some(4)), Err(CAN_ERR_NOT_IMPLEMENTED));
}

#[test]
fn ioctl_get_timer_scale_writes_value() {
    let v = canIoCtl(None, 12, Some(4)).unwrap();
    assert_eq!(u32::from_le_bytes([v[0], v[1], v[2], v[3]]), 1000);
    assert_eq!(canIoCtl(None, 12, Some(3)), Err(CAN_ERR_PARAM));
    assert_eq!(canIoCtl(None, 12, None), Err(CAN_ERR_PARAM));
}

#[test]
fn ioctl_queues() {
    let mut c = conn(false, 0);
    c.rx_shared().push(Frame::default(), 0);
    c.rx_shared().push(Frame::default(), 0);
    assert_eq!(canIoCtl(Some(&mut c), 8, Some(4)), Ok(vec![2, 0, 0, 0]));
    assert_eq!(canIoCtl(Some(&mut c), 9, Some(8)), Ok(vec![0, 0, 0, 0]));
    assert_eq!(canIoCtl(Some(&mut c), 11, None), Ok(vec![]));
    assert_eq!(c.rx_level(), 2, "flushing the transmit queue leaves the ring");
    for f in [6, 7, 13] {
        assert_eq!(canIoCtl(None, f, None), Ok(vec![]));
    }
    assert_eq!(canIoCtl(Some(&mut c), 10, None), Ok(vec![]));
    assert_eq!(c.rx_level(), 0);
    assert_eq!(canIoCtl(None, 8, Some(4)), Err(CAN_ERR_INVHANDLE));
}

#[test]
fn number_of_channels_defaults_to_one() {
    let mut cell = None;
    let none = Settings::new();
    let n = canGetNumberOfChannels(&mut cell, || Config::load(None, &none).channels);
    assert!(n >= 1);
    assert_eq!(n, 1);
    let mut big = Some(u32::MAX);
    assert_eq!(canGetNumberOfChannels(&mut big, || 5), i32::MAX);
}

#[test]
fn channel_data_name_and_serial() {
    let buf = canGetChannelData(2, 13, Some(64)).unwrap();
    assert_eq!(buf, b"kvasilloni vcan2\0".to_vec());
    assert_eq!(canGetChannelData(-7, 13, Some(64)).unwrap(), b"kvasilloni vcan-7\0".to_vec());
    assert_eq!(canGetChannelData(2, 13, Some(11)).unwrap(), b"kvasilloni\0".to_vec());

    let s = canGetChannelData(2, 7, Some(8)).unwrap();
    assert_eq!(s, 3u64.to_le_bytes().to_vec());

    assert_eq!(canGetChannelData(2, 9999, Some(64)), Err(CAN_ERR_PARAM));
}

#[test]
fn channel_data_other_items() {
    assert_eq!(canGetChannelData(0, 26, Some(64)).unwrap(), b"kvasilloni virtual CAN\0".to_vec());
    assert_eq!(canGetChannelData(0, 24, Some(64)).unwrap(), b"kvasilloni\0".to_vec());
    assert_eq!(canGetChannelData(0, 1, Some(4)).unwrap(), 0x0009_0001u32.to_le_bytes().to_vec());
    for item in [3, 4, 5] {
        assert_eq!(canGetChannelData(9, item, Some(4)).unwrap(), vec![0, 0, 0, 0]);
    }
    assert_eq!(canGetChannelData(0x01020304, 6, Some(4)).unwrap(), vec![4, 3, 2, 1]);
    assert_eq!(canGetChannelData(-2, 7, Some(8)).unwrap(), u64::MAX.to_le_bytes().to_vec());
    assert_eq!(canGetChannelData(-1, 7, Some(8)), Err(CAN_ERR_PARAM));
    assert_eq!(canGetChannelData(1, 7, Some(7)), Err(CAN_ERR_PARAM));
    assert_eq!(canGetChannelData(1, 13, None), Err(CAN_ERR_PARAM));
}

#[test]
fn ops_on_unknown_handle_report_invhandle() {
    let table: HandleTable<u8> = HandleTable::new();
    let bad = -999;
    assert!(table.get(bad).is_none());
    let here = CbScope::new();
    assert_eq!(read_err(canRead(None)), CAN_ERR_INVHANDLE);
    assert_eq!(canWrite(None, 0x123, None, 0, 0), Err(CAN_ERR_INVHANDLE));
    assert_eq!(canWriteWait(None, 0x123, None, 0, 0, 5), Err(CAN_ERR_INVHANDLE));
    assert!(matches!(
        canReadWait(None, 0, 0, &here),
        ReadWait::Done(Err(e)) if e == CAN_ERR_INVHANDLE
    ));
    assert_eq!(canReadSync(None, 0, 0, &here), SyncWait::Done(CAN_ERR_INVHANDLE));
    assert_eq!(canFlushReceiveQueue(None), CAN_ERR_INVHANDLE);
    assert_eq!(canAccept(None, 0, 0), CAN_ERR_INVHANDLE);
    assert_eq!(canSetNotify(None, 0, 0, 0, &here), Err(CAN_ERR_INVHANDLE));
    assert_eq!(canIoCtl(None, 10, None), Err(CAN_ERR_INVHANDLE));
    assert_eq!(canClose(None, false), (CAN_OK, None));
    assert_eq!(canReadStatus(None), 0);
    assert_eq!(CAN_ERR_INVHANDLE, -10);
}

#[test]
fn log_cache_reopens_on_path_change() {
    let mut cache = LogCache::new();
    assert_eq!(cache.log_to("a"), LogFile::Open);
    cache.opened("a", true);
    assert_eq!(cache.log_to("a"), LogFile::Reuse);
    assert_eq!(cache.log_to("b"), LogFile::Open);
    cache.opened("b", true);
    assert_eq!(cache.path().as_deref(), Some("b"));
    assert_eq!(cache.log_to("a"), LogFile::Open);
}

#[test]
fn log_cache_reuses_handle_for_same_path() {
    let mut cache = LogCache::new();
    cache.opened("a", true);
    for _ in 0..3 {
        assert_eq!(cache.log_to("a"), LogFile::Reuse);
    }
}

#[test]
fn log_cache_falls_back_on_open_failure() {
    let mut cache = LogCache::new();
    cache.opened("a", true);
    cache.opened("nope", false);
    assert!(cache.path().is_none(), "open failure leaves the cache empty");
    assert_eq!(cache.log_to("nope"), LogFile::Open);
    cache.opened("recover", true);
    assert_eq!(cache.log_to("recover"), LogFile::Reuse);
}

#[test]
fn the_environment_names_the_log() {
    let cfg = Some("c".to_string());
    assert_eq!(log_path(Some("e".into()), &cfg), Some("e".to_string()));
    assert_eq!(log_path(None, &cfg), Some("c".to_string()));
    assert_eq!(log_path(None, &None), None);
}

#[test]
fn channels_memo_reads_once() {
    let mut cell = None;
    assert_eq!(channels_memo(&mut cell, || 3), 3);
    let mut ran_again = false;
    let n = channels_memo(&mut cell, || {
        ran_again = true;
        7
    });
    assert_eq!(n, 3, "memoized value returned, not re-read");
    assert!(!ran_again, "loader ran twice: count was not memoized");
}

#[test]
fn handles_are_distinct_and_never_reused() {
    let mut t = HandleTable::new();
    let a = canOpenChannel(&mut t, Some("a"));
    let b = canOpenChannel(&mut t, Some("b"));
    assert_eq!((a, b), (1, 2));
    assert_eq!(t.get(a), Some(&"a"));
    assert_eq!(t.remove(a), Some("a"));
    assert_eq!(t.remove(a), None);
    let c = canOpenChannel(&mut t, Some("c"));
    assert_eq!(c, 3);
    assert!(t.get(a).is_none(), "a stale handle is found nowhere");
    assert_eq!(t.get(b), Some(&"b"));
    assert_eq!(canOpenChannel(&mut t, None), CAN_ERR_NOTFOUND);
    assert!(!t.is_empty());
    t.remove(b);
    t.remove(c);
    assert!(t.is_empty());
}

#[test]
fn repeated_open_write_read_close_leaves_no_handle() {
    let mut table: HandleTable<Conn> = HandleTable::new();
    for o in 0..48 {
        let h = canOpenChannel(&mut table, Some(conn(false, 0)));
        assert!(h > 0, "open failed: {}", h);
        let mut c = table.remove(h).unwrap();
        for i in 0..40 {
            let bytes = canWrite(Some(&mut c), 0x100 + i, Some(&[1, o, 0xAA, 0xBB]), 4, 0).unwrap();
            assert_eq!(write_done(&mut c, bytes.len(), Sent::Bytes(bytes.len())), CAN_OK);
            assert_eq!(read_err(canRead(Some(&mut c))), CAN_ERR_NOMSG);
        }
        let (st, closing) = canClose(Some(&mut c), false);
        assert_eq!(st, CAN_OK);
        assert_eq!(closing.unwrap().rx, RxEnd::Join);
    }
    assert!(table.is_empty(), "handle table leaked channels after the stress run");
}

#[test]
fn classic_channel_caps_rx_to_eight_bytes() {
    let f = fd_frame();
    let out = write_read_outputs(&f, false);
    assert_eq!(out.dlc, 8, "classic channel must report at most 8 bytes");
    assert_eq!(out.flag & CAN_MSG_FDF, 0, "FD flag must not be set on a classic channel");
    assert_eq!(&out.data[..], &f.data[..8], "first 8 bytes delivered and no more");
}

#[test]
fn fd_channel_delivers_full_payload() {
    let f = fd_frame();
    let out = write_read_outputs(&f, true);
    assert_eq!(out.dlc, 64);
    assert_ne!(out.flag & CAN_MSG_FDF, 0, "FD flag must be reported");
    assert_ne!(out.flag & CAN_MSG_BRS, 0, "BRS must be reported");
    assert_eq!(&out.data[..], &f.data[..]);
}

#[test]
fn a_remote_frame_delivers_a_length_and_no_data() {
    let mut f = Frame::default();
    f.can_id = 0x12 | CAN_RTR_FLAG;
    f.len = 5;
    f.rx_time_ms = 99;
    let out = write_read_outputs(&f, false);
    assert_eq!((out.id, out.dlc, out.time), (0x12, 5, 99));
    assert_eq!(out.flag, CAN_MSG_STD | CAN_MSG_RTR);
    assert!(out.data.is_empty());
}

#[test]
fn out_helpers_bounds_check() {
    assert_eq!(out_u32(Some(2), 0xAABBCCDD), Err(CAN_ERR_PARAM));
    assert_eq!(out_u32(None, 0), Err(CAN_ERR_PARAM));
    assert_eq!(out_cstr(Some(0), "x"), Err(CAN_ERR_PARAM));
    assert_eq!(out_u32(Some(4), 0xAABBCCDD), Ok(vec![0xDD, 0xCC, 0xBB, 0xAA]));
    assert_eq!(out_u64(Some(8), 0x0102030405060708), Ok(vec![8, 7, 6, 5, 4, 3, 2, 1]));
    assert_eq!(out_u64(Some(7), 0), Err(CAN_ERR_PARAM));
    assert_eq!(out_cstr(Some(1), "x"), Ok(vec![0]));
    assert_eq!(out_cstr(Some(2), "x"), Ok(vec![b'x', 0]));
    assert_eq!(out_cstr(Some(3), "xyz"), Ok(vec![b'x', b'y', 0]));
    assert_eq!(out_cstr(None, "x"), Err(CAN_ERR_PARAM));
}

#[test]
fn error_texts() {
    assert_eq!(canGetErrorText(0, Some(64)), b"OK\0".to_vec());
    assert_eq!(canGetErrorText(-1, Some(64)), b"Error in parameter\0".to_vec());
    assert_eq!(canGetErrorText(-2, Some(64)), b"No messages available\0".to_vec());
    assert_eq!(canGetErrorText(-3, Some(64)), b"Specified device not found\0".to_vec());
    assert_eq!(canGetErrorText(-10, Some(64)), b"Unknown error\0".to_vec());
    assert_eq!(canGetErrorText(-1, Some(6)), b"Error\0".to_vec());
    assert!(canGetErrorText(-1, Some(0)).is_empty());
    assert!(canGetErrorText(-1, None).is_empty());
}

#[test]
fn functions_without_effect_succeed() {
    assert_eq!(canBusOn(), CAN_OK);
    assert_eq!(canBusOff(), CAN_OK);
    assert_eq!(canSetBusParams(), CAN_OK);
    assert_eq!(canFlushTransmitQueue(), CAN_OK);
    assert_eq!(canWriteSync(), CAN_OK);
    assert_eq!(canObjBufSetFilter(), CAN_OK);
    assert_eq!(canReadErrorCounters(), (0, 0, 0));
    assert_eq!(canGetVersion(), 0x0900);
    assert_eq!(canGetBusStatistics(Some(28)), 28);
    assert_eq!(canGetBusStatistics(None), 0);
}

#[test]
fn composed_frames() {
    let f = compose_frame(0x123, Some(&[1, 2, 3, 4]), 3, CAN_MSG_STD);
    assert_eq!((f.can_id, f.len, f.fd), (0x123, 3, false));
    assert_eq!(&f.data[..5], &[1, 2, 3, 0, 0]);
    let f = compose_frame(0x123, Some(&[7; 64]), 9, CAN_MSG_FDF | CAN_MSG_BRS);
    assert!(f.fd && f.len == 12 && f.fd_flags == CANFD_BRS);
    assert_eq!(&f.data[..12], &[7, 7, 7, 7, 7, 7, 7, 7, 7, 0, 0, 0]);
    let f = compose_frame(0x123, Some(&[7; 8]), 200, 0);
    assert_eq!(f.len, 8);
    let f = compose_frame(0x123, None, 8, 0);
    assert!(f.len == 8 && f.data.iter().all(|b| *b == 0));
    let f = compose_frame(0x123, Some(&[7; 8]), 8, CAN_MSG_RTR);
    assert!(f.is_rtr() && f.len == 8 && f.data.iter().all(|b| *b == 0));
    assert_eq!(payload_bytes(100, CAN_MSG_FDF), 64);
    assert_eq!(payload_bytes(100, 0), 8);
    assert_eq!(payload_bytes(3, 0), 3);
}

#[test]
fn what_is_written_is_read_over_both_transports() {
    let data: Vec<u8> = (0..64).collect();
    let cases = [
        (0x123, 8u32, CAN_MSG_STD),
        (0x1ABCDEF8, 3, CAN_MSG_EXT),
        (0x7FF, 5, CAN_MSG_STD | CAN_MSG_RTR),
        (0x200, 33, CAN_MSG_STD | CAN_MSG_FDF | CAN_MSG_BRS),
        (0x1FFFFFFF, 64, CAN_MSG_EXT | CAN_MSG_FDF | CAN_MSG_ESI),
    ];
    for tcp in [false, true] {
        let mut a = conn(tcp, 0);
        let mut b = conn(tcp, CAN_OPEN_CAN_FD);
        for (id, dlc, flag) in cases {
            let bytes = canWrite(Some(&mut a), id, Some(&data), dlc, flag).unwrap();
            assert_eq!(write_done(&mut a, bytes.len(), Sent::Bytes(bytes.len())), CAN_OK);
            if tcp {
                let mut rx = StreamRx::new();
                let mut off = 0;
                while off + rx.need() <= bytes.len() {
                    let n = rx.need();
                    if let Fed::Frame(f) = rx.feed(&bytes[off..off + n]) {
                        b.rx_shared().push(f, 11);
                    }
                    off += n;
                }
                assert_eq!(off, bytes.len());
            } else {
                for f in udp_ingest(&bytes) {
                    b.rx_shared().push(f, 11);
                }
            }
            let out = read_ok(&mut b);
            assert_eq!((out.id, out.flag, out.time), (id, flag, 11));
            let n = payload_bytes(dlc, flag);
            assert!(out.dlc as usize >= n);
            if flag & CAN_MSG_RTR == 0 {
                assert_eq!(out.data.len(), out.dlc as usize);
                assert_eq!(&out.data[..n], &data[..n]);
                assert!(out.data[n..].iter().all(|x| *x == 0));
            } else {
                assert!(out.data.is_empty());
            }
        }
    }
}

#[test]
fn a_failed_tcp_write_is_an_error_and_bus_off() {
    let mut c = conn(true, 0);
    assert_eq!(canReadStatus(Some(&c)), 0);
    let bytes = canWrite(Some(&mut c), 1, None, 0, 0).unwrap();
    assert_eq!(write_done(&mut c, bytes.len(), Sent::Failed), CAN_ERR_PARAM);
    assert_eq!(canReadStatus(Some(&c)), CAN_STAT_BUS_OFF);
    assert_eq!(canWrite(Some(&mut c), 1, None, 0, 0), Err(CAN_ERR_PARAM));
    assert_eq!(canWriteWait(Some(&mut c), 1, None, 0, 0, 9), Err(CAN_ERR_PARAM));
}

#[test]
fn a_dropped_link_is_bus_off() {
    let mut c = conn(true, 0);
    c.rx_ended();
    assert_eq!(canReadStatus(Some(&c)), CAN_STAT_BUS_OFF);
    let mut u = conn(false, 0);
    u.rx_ended();
    assert_eq!(canReadStatus(Some(&u)), 0);
}

#[test]
fn status_bits() {
    let mut c = conn(false, 0);
    c.rx_shared().push(Frame::default(), 0);
    assert_eq!(canReadStatus(Some(&c)), CAN_STAT_RX_PENDING);
    for _ in 0..RING_CAP {
        c.rx_shared().push(Frame::default(), 0);
    }
    assert_eq!(canReadStatus(Some(&c)), CAN_STAT_RX_PENDING | CAN_STAT_SW_OVERRUN);
    assert_eq!(canFlushReceiveQueue(Some(&mut c)), CAN_OK);
    assert_eq!(canReadStatus(Some(&c)), 0);
    assert_eq!((CAN_STAT_RX_PENDING, CAN_STAT_SW_OVERRUN, CAN_STAT_BUS_OFF), (0x20, 0x400, 0x2));
}

#[test]
fn blocking_reads() {
    let mut c = conn(false, 0);
    let here = CbScope::new();
    assert!(matches!(canReadWait(Some(&mut c), 20, 5 * MS, &here), ReadWait::Park(15_000_000)));
    assert_eq!(canReadSync(Some(&c), 20, 0, &here), SyncWait::Park(20 * MS));
    assert!(matches!(
        canReadWait(Some(&mut c), 20, 20 * MS, &here),
        ReadWait::Done(Err(e)) if e == CAN_ERR_NOMSG
    ));
    assert_eq!(canReadSync(Some(&c), 20, 20 * MS, &here), SyncWait::Done(CAN_ERR_NOMSG));
    c.rx_shared().push(Frame::default(), 3);
    assert_eq!(canReadSync(Some(&c), 20, 0, &here), SyncWait::Done(CAN_OK));
    assert!(matches!(canReadWait(Some(&mut c), 20, 0, &here), ReadWait::Done(Ok(_))));
    assert_eq!(c.rx_level(), 0);
    assert_eq!(timeout_to_duration(0xFFFF_FFFF), 0xFFFF_FFFF * MS);
    assert_eq!(timeout_to_duration(7), 7 * MS);
}

#[test]
fn blocking_reads_inside_a_callback_are_polls() {
    let mut c = conn(false, 0);
    let mut here = CbScope::new();
    here.enter();
    assert!(matches!(
        canReadWait(Some(&mut c), 0xFFFF_FFFF, 0, &here),
        ReadWait::Done(Err(e)) if e == CAN_ERR_NOMSG
    ));
    assert_eq!(canReadSync(Some(&c), 1000, 0, &here), SyncWait::Done(CAN_ERR_NOMSG));
    c.rx_shared().push(Frame::default(), 0);
    assert!(matches!(canReadWait(Some(&mut c), 1000, 0, &here), ReadWait::Done(Ok(_))));
}

#[test]
fn filters_and_notifications_reach_the_connection() {
    let mut c = conn(false, 0);
    let here = CbScope::new();
    assert_eq!(canAccept(Some(&mut c), 0x7, 3), CAN_OK);
    assert_eq!(canAccept(Some(&mut c), -1, 4), CAN_OK);
    c.rx_shared().push(Frame::default(), 0);
    assert_eq!(c.rx_level(), 0);
    assert_eq!(canSetNotify(Some(&mut c), 0x10, NOTIFY_RX, 2, &here), Ok(false));
    let ev = RxEvent { id: 7, time: 1 };
    assert!(matches!(c.rx_shared().begin_notify(ev), Start::Call(0x10, _)));
    assert_eq!(canSetNotify(Some(&mut c), 0, 0, 0, &here), Ok(true));
    c.rx_shared().end_notify();
    assert_eq!(canSetNotify(Some(&mut c), 0, 0, 0, &here), Ok(false));
}

#[test]
fn open_flags_decide_on_fd() {
    assert!(conn(false, CAN_OPEN_CAN_FD).fd_capable());
    assert!(conn(false, -1).fd_capable());
    assert!(!conn(false, 0x0BFF).fd_capable());
}

#[test]
fn a_classic_frame_reads_the_same_on_any_channel() {
    let f = compose_frame(0x1ABCDEF8, Some(&[9, 8, 7]), 3, CAN_MSG_EXT);
    let a = write_read_outputs(&f, false);
    let b = write_read_outputs(&f, true);
    assert_eq!((a.id, a.flag, a.dlc, a.time), (b.id, b.flag, b.dlc, b.time));
    assert_eq!(a.data, b.data);
    assert_eq!(a.data, vec![9, 8, 7]);
}

#[test]
fn a_write_without_a_message_is_read_as_zeros() {
    let mut a = conn(false, 0);
    let mut b = conn(false, CAN_OPEN_CAN_FD);
    for (dlc, flag, len) in [(5u32, CAN_MSG_STD, 5usize), (9, CAN_MSG_STD | CAN_MSG_FDF, 12)] {
        let bytes = canWrite(Some(&mut a), 0x77, None, dlc, flag).unwrap();
        for f in udp_ingest(&bytes) {
            b.rx_shared().push(f, 1);
        }
        let out = read_ok(&mut b);
        assert_eq!((out.id, out.flag, out.dlc as usize), (0x77, flag, len));
        assert_eq!(out.data, vec![0u8; len]);
    }
}

#[test]
fn closing_does_not_use_up_handles() {
    let mut t = HandleTable::new();
    let first = canOpenChannel(&mut t, Some(1));
    t.remove(first);
    for _ in 0..1000 {
        t.remove(first);
        t.remove(-5);
    }
    assert_eq!(canOpenChannel(&mut t, Some(2)), first + 1);
    assert!(t.get(first).is_none());
}
