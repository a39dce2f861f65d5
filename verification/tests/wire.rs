//! The wire format: golden packets, round trips, malformed input, id translation.

use kvasilloni::wire::{
    build_udp, canid_to_kvaser, decode_stream, encode_frame, fd_flags_to_kvaser, fd_round_len,
    kvaser_to_canid, kvaser_to_fd_flags, parse_udp, udp_prealloc_cap, DecodeState, Decoded, Frame,
    CANFD_BRS, CANFD_ESI, CANFD_FRAME, CAN_EFF_FLAG, CAN_MSG_BRS, CAN_MSG_ESI, CAN_MSG_EXT,
    CAN_MSG_FDF, CAN_MSG_RTR, CAN_MSG_STD, CAN_RTR_FLAG, CLASSIC_FRAME_MAX_LEN, CONNECT_V1,
    DATA_PACKET_BASE_SIZE, FRAME_BASE_SIZE, FRAME_VERSION, MAX_FRAME_LEN, OP_DATA,
};

fn mk(can_id: u32, data: &[u8]) -> Frame {
    let mut f = Frame::default();
    f.can_id = can_id;
    f.len = data.len() as u8;
    f.data[..data.len()].copy_from_slice(data);
    f
}

fn build_udp_batch(frames: &[Frame], seq_no: u8, count: u16) -> Vec<u8> {
    let mut out = vec![FRAME_VERSION, OP_DATA, seq_no];
    out.extend_from_slice(&count.to_be_bytes());
    for f in frames {
        encode_frame(&mut out, f);
    }
    out
}

#[test]
fn golden_udp_std() {
    let f = mk(0x123, &[0xAA, 0xBB]);
    let pkt = build_udp(&f, 7);
    assert_eq!(pkt, vec![0x02, 0x00, 0x07, 0x00, 0x01, 0x00, 0x00, 0x01, 0x23, 0x02, 0xAA, 0xBB]);
}

#[test]
fn golden_udp_ext() {
    let f = mk(0x1ABCDEF8 | CAN_EFF_FLAG, &[0xFF]);
    let pkt = build_udp(&f, 0);
    assert_eq!(
        pkt,
        vec![0x02, 0x00, 0x00, 0x00, 0x01, 0x9A, 0xBC, 0xDE, 0xF8, 0x01, 0xFF]
    );
}

#[test]
fn udp_roundtrip_all() {
    let cases = [
        mk(0x123, &[1, 2, 3, 4, 5, 6, 7, 8]),
        mk(0x000, &[]),
        mk(0x7FF, &[0xAA, 0xBB, 0xCC]),
        mk(0x1ABCDEF8 | CAN_EFF_FLAG, &[9, 9, 9, 9, 9, 9, 9, 9]),
    ];
    for c in cases {
        let pkt = build_udp(&c, 1);
        let got = parse_udp(&pkt).expect("parse");
        assert_eq!(got.len(), 1);
        assert_eq!(got[0].can_id, c.can_id);
        assert_eq!(got[0].len, c.len);
        assert_eq!(&got[0].data[..c.len as usize], &c.data[..c.len as usize]);
    }
}

#[test]
fn parse_udp_decodes_multi_frame_batch() {
    let classic = mk(0x123, &[0x11, 0x22, 0x33]);
    let mut fd = Frame::default();
    fd.can_id = 0x200;
    fd.fd = true;
    fd.fd_flags = CANFD_BRS;
    fd.len = 16;
    for i in 0..16 {
        fd.data[i] = (0xA0 + i) as u8;
    }
    let mut rtr = Frame::default();
    rtr.can_id = 0x321 | CAN_RTR_FLAG;
    rtr.len = 8;

    let pkt = build_udp_batch(&[classic, fd, rtr], 9, 3);
    let got = parse_udp(&pkt).expect("batched datagram must parse");
    assert_eq!(got.len(), 3, "all three batched frames must decode");

    assert_eq!(got[0].can_id, 0x123);
    assert!(!got[0].fd);
    assert_eq!(got[0].len, 3);
    assert_eq!(&got[0].data[..3], &[0x11, 0x22, 0x33]);
    assert_eq!(got[1].can_id, 0x200);
    assert!(got[1].fd);
    assert_eq!(got[1].fd_flags, CANFD_BRS);
    assert_eq!(got[1].len, 16);
    assert_eq!(&got[1].data[..16], &fd.data[..16]);
    assert_eq!(got[2].can_id, 0x321 | CAN_RTR_FLAG);
    assert!(got[2].is_rtr());
    assert_eq!(got[2].len, 8);
}

#[test]
fn parse_udp_truncated_batch_returns_none() {
    let a = mk(0x100, &[1, 2]);
    let b = mk(0x101, &[3, 4]);
    let pkt = build_udp_batch(&[a, b], 0, 3);
    assert!(parse_udp(&pkt).is_none(), "an over-claimed count must yield None");

    let ok = build_udp_batch(&[a, b], 0, 2);
    assert_eq!(parse_udp(&ok).unwrap().len(), 2);
}

fn stream_roundtrip(c: &Frame) -> Frame {
    let mut enc = Vec::new();
    encode_frame(&mut enc, c);
    let mut out = Frame::default();
    let mut st = DecodeState::Init;
    let mut off = 0usize;
    let mut need = match decode_stream(&[], &mut out, &mut st) {
        Decoded::Need(n) => n,
        _ => panic!("init"),
    };
    loop {
        let chunk = &enc[off..off + need];
        match decode_stream(chunk, &mut out, &mut st) {
            Decoded::Need(n) => {
                off += need;
                need = n;
            }
            Decoded::Complete => break,
            Decoded::Error => panic!("decode error"),
        }
    }
    out
}

#[test]
fn tcp_stream_roundtrip() {
    for c in [
        mk(0x123, &[1, 2, 3, 4, 5, 6, 7, 8]),
        mk(0x000, &[]),
        mk(0x1ABCDEF8 | CAN_EFF_FLAG, &[0xDE, 0xAD]),
    ] {
        let got = stream_roundtrip(&c);
        assert_eq!(got.can_id, c.can_id);
        assert_eq!(got.len, c.len);
        assert_eq!(&got.data[..c.len as usize], &c.data[..c.len as usize]);
    }
}

#[test]
fn fd_round_len_valid_dlcs() {
    assert_eq!(fd_round_len(0), 0);
    assert_eq!(fd_round_len(8), 8);
    assert_eq!(fd_round_len(9), 12);
    assert_eq!(fd_round_len(13), 16);
    assert_eq!(fd_round_len(33), 48);
    assert_eq!(fd_round_len(64), 64);
    assert_eq!(fd_round_len(200), 64);
}

#[test]
fn golden_udp_fd() {
    let mut f = Frame::default();
    f.can_id = 0x200;
    f.fd = true;
    f.fd_flags = CANFD_BRS;
    f.len = 12;
    for i in 0..12 {
        f.data[i] = i as u8;
    }
    let pkt = build_udp(&f, 0);
    let mut expect = vec![0x02, 0x00, 0x00, 0x00, 0x01, 0x00, 0x00, 0x02, 0x00, 0x8C, 0x01];
    expect.extend_from_slice(&(0u8..12).collect::<Vec<u8>>());
    assert_eq!(pkt, expect);

    let got = parse_udp(&pkt).expect("parse")[0];
    assert!(got.fd && got.fd_flags == CANFD_BRS && got.len == 12);
    assert_eq!(&got.data[..12], &expect[11..23]);
}

#[test]
fn fd_stream_roundtrip_with_flags() {
    let mut f = Frame::default();
    f.can_id = 0x1ABCDEF8 | CAN_EFF_FLAG;
    f.fd = true;
    f.fd_flags = CANFD_BRS | CANFD_ESI;
    f.len = 16;
    for i in 0..16 {
        f.data[i] = (0xA0 + i) as u8;
    }
    let got = stream_roundtrip(&f);
    assert!(got.fd);
    assert_eq!(got.fd_flags, CANFD_BRS | CANFD_ESI);
    assert_eq!(got.len, 16);
    assert_eq!(&got.data[..16], &f.data[..16]);
}

#[test]
fn fd_flag_translation() {
    assert_eq!(kvaser_to_fd_flags(CAN_MSG_BRS | CAN_MSG_ESI), CANFD_BRS | CANFD_ESI);
    assert_eq!(fd_flags_to_kvaser(CANFD_BRS), CAN_MSG_BRS);
    assert_eq!(fd_flags_to_kvaser(CANFD_ESI), CAN_MSG_ESI);
}

#[test]
fn parse_udp_rejects_overlong_len_without_panic() {
    let mut pkt = vec![0x02, 0x00, 0x00, 0x00, 0x01];
    pkt.extend_from_slice(&[0x00, 0x00, 0x01, 0x23]);
    pkt.push(100);
    pkt.extend(std::iter::repeat(0xAB).take(100));
    assert!(parse_udp(&pkt).is_none());

    let mut fd = vec![0x02, 0x00, 0x00, 0x00, 0x01, 0x00, 0x00, 0x02, 0x00];
    fd.push(CANFD_FRAME | 100);
    fd.push(0x00);
    fd.extend(std::iter::repeat(0xCD).take(100));
    assert!(parse_udp(&fd).is_none());

    let ok = build_udp(&mk(0x123, &[1, 2, 3, 4, 5, 6, 7, 8]), 0);
    assert_eq!(parse_udp(&ok).unwrap()[0].len, 8);
}

#[test]
fn decode_stream_rejects_overlong_len_without_panic() {
    let mut f = Frame::default();
    let mut st = DecodeState::Init;
    let _ = decode_stream(&[], &mut f, &mut st);
    let _ = decode_stream(&[0, 0, 1, 0x23], &mut f, &mut st);
    assert!(matches!(decode_stream(&[70], &mut f, &mut st), Decoded::Error));

    let mut f2 = Frame::default();
    let mut st2 = DecodeState::Init;
    let _ = decode_stream(&[], &mut f2, &mut st2);
    let _ = decode_stream(&[0, 0, 1, 0x23], &mut f2, &mut st2);
    assert!(matches!(decode_stream(&[CANFD_FRAME | 70], &mut f2, &mut st2), Decoded::Error));
}

#[test]
fn parse_udp_rejects_overlong_classic_keeps_valid_fd() {
    let mut pkt = vec![0x02, 0x00, 0x00, 0x00, 0x01];
    pkt.extend_from_slice(&[0x00, 0x00, 0x01, 0x23]);
    pkt.push(9);
    pkt.extend(std::iter::repeat(0xAB).take(9));
    assert!(parse_udp(&pkt).is_none(), "over-length classic frame must be rejected");

    let ok8 = build_udp(&mk(0x123, &[1, 2, 3, 4, 5, 6, 7, 8]), 0);
    assert_eq!(parse_udp(&ok8).unwrap()[0].len, 8);

    let mut fd = Frame::default();
    fd.can_id = 0x200;
    fd.fd = true;
    fd.len = 16;
    for i in 0..16 {
        fd.data[i] = i as u8;
    }
    let pktfd = build_udp(&fd, 0);
    let got = parse_udp(&pktfd).expect("valid FD frame must parse");
    assert!(got[0].fd && got[0].len == 16);
}

#[test]
fn classic_rtr_dlc_consistent_across_transports() {
    let mut f = Frame::default();
    f.can_id = 0x123 | CAN_RTR_FLAG;
    f.len = 8;
    let udp = parse_udp(&build_udp(&f, 0)).expect("parse")[0];
    let tcp = stream_roundtrip(&f);
    assert!(udp.is_rtr() && tcp.is_rtr(), "RTR flag lost");
    assert_eq!(udp.len, 8, "UDP dropped the RTR DLC");
    assert_eq!(tcp.len, 8, "TCP dropped the RTR DLC");
}

#[test]
fn decode_stream_rejects_overlong_classic() {
    let mut f = Frame::default();
    let mut st = DecodeState::Init;
    let _ = decode_stream(&[], &mut f, &mut st);
    let _ = decode_stream(&[0, 0, 1, 0x23], &mut f, &mut st);
    assert!(matches!(decode_stream(&[9], &mut f, &mut st), Decoded::Error));

    let mut f2 = Frame::default();
    let mut st2 = DecodeState::Init;
    let _ = decode_stream(&[], &mut f2, &mut st2);
    let _ = decode_stream(&[0, 0, 1, 0x23], &mut f2, &mut st2);
    assert!(matches!(decode_stream(&[8], &mut f2, &mut st2), Decoded::Need(8)));

    let mut f3 = Frame::default();
    let mut st3 = DecodeState::Init;
    let _ = decode_stream(&[], &mut f3, &mut st3);
    let _ = decode_stream(&[0, 0, 1, 0x23], &mut f3, &mut st3);
    assert!(matches!(decode_stream(&[CANFD_FRAME | 16], &mut f3, &mut st3), Decoded::Need(1)));
}

#[test]
fn parse_udp_huge_count_no_bodies_is_graceful_none() {
    let pkt = vec![0x02, 0x00, 0x00, 0xFF, 0xFF];
    assert!(parse_udp(&pkt).is_none());
    let ok = build_udp(&mk(0x123, &[1, 2, 3]), 0);
    assert_eq!(parse_udp(&ok).unwrap().len(), 1);
}

#[test]
fn udp_prealloc_cap_clamps_attacker_count() {
    assert_eq!(udp_prealloc_cap(65535, 7), 7 / FRAME_BASE_SIZE + 1);
    assert_eq!(udp_prealloc_cap(3, DATA_PACKET_BASE_SIZE + 3 * FRAME_BASE_SIZE), 3);
    assert!(udp_prealloc_cap(u16::MAX, 100) <= 100 / FRAME_BASE_SIZE + 1);
}

#[test]
fn kvaser_translation_roundtrip() {
    let cid = kvaser_to_canid(0x1ABCDEF8, CAN_MSG_EXT);
    assert_eq!(cid, 0x1ABCDEF8 | CAN_EFF_FLAG);
    let (id, fl) = canid_to_kvaser(cid, false);
    assert_eq!(id, 0x1ABCDEF8);
    assert!(fl & CAN_MSG_EXT != 0);

    let cid = kvaser_to_canid(0x123, CAN_MSG_STD);
    assert_eq!(cid, 0x123);
    let (id, fl) = canid_to_kvaser(cid, false);
    assert_eq!(id, 0x123);
    assert!(fl & CAN_MSG_STD != 0);
}

/// A small deterministic source of bytes.
struct Bytes(u64);

impl Bytes {
    fn next(&mut self) -> u8 {
        self.0 = self.0.wrapping_mul(6364136223846793005).wrapping_add(1442695040888963407);
        (self.0 >> 56) as u8
    }

    fn word(&mut self) -> u32 {
        u32::from_be_bytes([self.next(), self.next(), self.next(), self.next()])
    }

    fn run(&mut self, n: usize) -> Vec<u8> {
        (0..n).map(|_| self.next()).collect()
    }

    fn frame(&mut self) -> Frame {
        let mut f = Frame::default();
        f.fd = self.next() & 1 == 1;
        let max = if f.fd { MAX_FRAME_LEN } else { CLASSIC_FRAME_MAX_LEN };
        let n = self.next() as usize % (max + 1);
        f.can_id = self.word();
        f.fd_flags = if f.fd { self.next() & (CANFD_BRS | CANFD_ESI) } else { 0 };
        f.len = n as u8;
        for i in 0..n {
            f.data[i] = self.next();
        }
        f
    }
}

fn frame_eq(a: &Frame, b: &Frame) -> bool {
    a.can_id == b.can_id
        && a.fd == b.fd
        && a.len == b.len
        && a.fd_flags == b.fd_flags
        && (a.is_rtr() || a.data[..a.len as usize] == b.data[..b.len as usize])
}

fn in_class(f: &Frame) -> bool {
    f.len as usize <= if f.fd { MAX_FRAME_LEN } else { CLASSIC_FRAME_MAX_LEN }
}

fn drive_decode_stream(buf: &[u8]) -> Vec<Frame> {
    let mut out = Vec::new();
    let mut f = Frame::default();
    let mut st = DecodeState::Init;
    let mut off = 0usize;
    loop {
        let mut need = match decode_stream(&[], &mut f, &mut st) {
            Decoded::Need(n) => n,
            _ => break,
        };
        loop {
            if off + need > buf.len() {
                return out;
            }
            let chunk = &buf[off..off + need];
            off += need;
            match decode_stream(chunk, &mut f, &mut st) {
                Decoded::Need(n) => need = n,
                Decoded::Complete => {
                    out.push(f);
                    break;
                }
                Decoded::Error => return out,
            }
        }
    }
    out
}

#[test]
fn prop_tcp_roundtrip() {
    let mut b = Bytes(1);
    for _ in 0..500 {
        let f = b.frame();
        let got = stream_roundtrip(&f);
        assert!(frame_eq(&f, &got), "{:?} != {:?}", f, got);
        assert!(in_class(&got));
    }
}

#[test]
fn prop_udp_roundtrip() {
    let mut b = Bytes(2);
    for _ in 0..500 {
        let f = b.frame();
        let seq = b.next();
        let got = parse_udp(&build_udp(&f, seq)).expect("a valid frame must parse");
        assert_eq!(got.len(), 1);
        assert!(frame_eq(&f, &got[0]), "{:?} != {:?}", f, got[0]);
        assert!(in_class(&got[0]));
    }
}

#[test]
fn prop_parse_udp_never_panics() {
    let mut b = Bytes(3);
    for i in 0..2000usize {
        let n = b.word() as usize % 600;
        let mut pkt = vec![FRAME_VERSION, OP_DATA, b.next()];
        let count: u16 = if i % 3 == 0 { b.word() as u16 } else { 1 + (b.next() % 6) as u16 };
        pkt.extend_from_slice(&count.to_be_bytes());
        pkt.extend(b.run(n));
        if i % 7 == 0 {
            pkt = b.run(n);
        }
        if let Some(frames) = parse_udp(&pkt) {
            assert!(frames.iter().all(in_class));
        }
    }
}

#[test]
fn prop_decode_stream_never_panics() {
    let mut b = Bytes(4);
    for _ in 0..500 {
        let n = b.word() as usize % 2049;
        let buf = b.run(n);
        assert!(drive_decode_stream(&buf).iter().all(in_class));
    }
}

#[test]
fn prop_udp_prealloc_cap_bounded() {
    let mut b = Bytes(5);
    for _ in 0..2000 {
        let count = b.word() as u16;
        let buf_len = b.word() as usize % 1_000_001;
        let cap = udp_prealloc_cap(count, buf_len);
        assert!(cap <= buf_len / FRAME_BASE_SIZE + 1);
        assert!(cap <= count as usize);
    }
}

#[test]
fn both_transports_see_the_same_frames() {
    let mut b = Bytes(6);
    let frames: Vec<Frame> = (0..5).map(|_| b.frame()).collect();
    let pkt = build_udp_batch(&frames, 3, 5);
    let udp = parse_udp(&pkt).unwrap();
    let tcp = drive_decode_stream(&pkt[DATA_PACKET_BASE_SIZE..]);
    assert_eq!(udp.len(), 5);
    assert_eq!(tcp.len(), 5);
    for i in 0..5 {
        assert!(frame_eq(&frames[i], &udp[i]));
        assert!(frame_eq(&udp[i], &tcp[i]));
    }
}

#[test]
fn bytes_behind_the_counted_frames_are_ignored() {
    let mut pkt = build_udp(&mk(0x123, &[1, 2]), 0);
    pkt.extend_from_slice(&[0xFF; 9]);
    let got = parse_udp(&pkt).unwrap();
    assert_eq!(got.len(), 1);
    assert_eq!(got[0].can_id, 0x123);
}

#[test]
fn foreign_headers_are_rejected() {
    let good = build_udp(&mk(0x123, &[1]), 0);
    let mut wrong_version = good.clone();
    wrong_version[0] = 1;
    assert!(parse_udp(&wrong_version).is_none());
    let mut wrong_op = good.clone();
    wrong_op[1] = 1;
    assert!(parse_udp(&wrong_op).is_none());
    assert!(parse_udp(&good[..4]).is_none());
    assert!(parse_udp(&[]).is_none());
    let empty = [FRAME_VERSION, OP_DATA, 0, 0, 0];
    assert_eq!(parse_udp(&empty).unwrap().len(), 0);
}

#[test]
fn truncated_frames_are_rejected_at_every_length() {
    let mut f = mk(0x1ABCDEF8 | CAN_EFF_FLAG, &[1, 2, 3]);
    f.fd = true;
    let pkt = build_udp(&f, 0);
    for n in 0..pkt.len() {
        assert!(parse_udp(&pkt[..n]).is_none(), "{} bytes", n);
    }
    assert!(parse_udp(&pkt).is_some());
}

#[test]
fn stream_chunks_of_the_wrong_size_are_errors() {
    let mut f = Frame::default();
    let mut st = DecodeState::Init;
    assert!(matches!(decode_stream(&[], &mut f, &mut st), Decoded::Need(4)));
    assert!(matches!(decode_stream(&[0, 0, 1], &mut f, &mut st), Decoded::Error));
    assert!(st == DecodeState::CanId);
    assert!(matches!(decode_stream(&[0, 0, 1, 0], &mut f, &mut st), Decoded::Need(1)));
    assert!(matches!(decode_stream(&[], &mut f, &mut st), Decoded::Error));
}

#[test]
fn kvaser_ids_are_masked_to_their_class() {
    assert_eq!(kvaser_to_canid(-1, CAN_MSG_STD), 0x7FF);
    assert_eq!(kvaser_to_canid(-1, CAN_MSG_EXT), 0x9FFF_FFFF);
    assert_eq!(kvaser_to_canid(0x1FFF, CAN_MSG_RTR), 0x7FF | CAN_RTR_FLAG);
    assert_eq!(
        canid_to_kvaser(0x9ABC_DEF8 | CAN_RTR_FLAG, true),
        (0x1ABC_DEF8, CAN_MSG_EXT | CAN_MSG_RTR | CAN_MSG_FDF)
    );
}

#[test]
fn fd_flags_survive_both_ways() {
    for k in 0..4u32 {
        let kv = (if k & 1 != 0 { CAN_MSG_BRS } else { 0 }) | (if k & 2 != 0 { CAN_MSG_ESI } else { 0 });
        assert_eq!(fd_flags_to_kvaser(kvaser_to_fd_flags(kv)), kv);
    }
    assert_eq!(fd_flags_to_kvaser(0xFC), 0);
    assert_eq!(kvaser_to_fd_flags(0xFFFF), 0);
}

#[test]
fn fd_lengths_are_idempotent_and_ordered() {
    let mut last = 0;
    for n in 0..=255u8 {
        let r = fd_round_len(n);
        assert_eq!(fd_round_len(r), r);
        assert!(r >= last && (r >= n || n > 64));
        last = r;
    }
    assert_eq!(fd_round_len(17), 20);
    assert_eq!(fd_round_len(21), 24);
    assert_eq!(fd_round_len(25), 32);
    assert_eq!(fd_round_len(49), 64);
}

#[test]
fn banner_is_the_ascii_text() {
    assert_eq!(&CONNECT_V1, b"CANNELLONIv1");
}

#[test]
fn ids_survive_the_trip_to_kvaser_and_back() {
    for can_id in [0x123, 0x7FF | CAN_RTR_FLAG, 0x9ABC_DEF8, 0x1 | CAN_EFF_FLAG | CAN_RTR_FLAG] {
        let (id, flag) = canid_to_kvaser(can_id, false);
        assert_eq!(kvaser_to_canid(id, flag), can_id);
    }
}

#[test]
fn a_decoded_frame_encodes_to_the_bytes_it_came_from() {
    let bytes = [0x80, 0x00, 0x01, 0x23, 0x84, 0x02, 1, 2, 3, 4];
    let frames = drive_decode_stream(&bytes);
    assert_eq!(frames.len(), 1);
    let mut out = Vec::new();
    encode_frame(&mut out, &frames[0]);
    assert_eq!(out, bytes.to_vec());
}
