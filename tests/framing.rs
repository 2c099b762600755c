use faderpunk::codec::{decode_message, encode_message, FpError};
use faderpunk::frame::{
    decode_frame, decode_message_frame, encode_frame, encode_message_frame, stuff, unstuff,
    Receiver,
};
use faderpunk::protocol::{ConfigMsgIn, ConfigMsgOut, Layout, MidiCc, Value};
use faderpunk::session::{
    request_packets, split_chunks, BatchCollector, BatchStep, USB_PACKET_SIZE,
};

fn sample_payloads() -> Vec<Vec<u8>> {
    let mut v = vec![
        vec![],
        vec![0],
        vec![0, 0, 0],
        vec![1, 2, 3],
        vec![1, 0, 2, 0],
        (0..=255u8).collect(),
    ];
    for n in [253usize, 254, 255, 508, 600] {
        v.push((0..n).map(|i| (i % 255) as u8 + 1).collect());
        v.push((0..n).map(|i| (i % 7) as u8).collect());
    }
    v
}

#[test]
fn stuffing_round_trips() {
    for p in sample_payloads() {
        let s = stuff(&p);
        assert!(!s.contains(&0), "zero left in {:?}", p);
        assert_eq!(unstuff(&s), Ok(p));
    }
}

#[test]
fn stuffing_known_value() {
    assert_eq!(stuff(&[0x11, 0x22, 0x00, 0x33]), vec![0x03, 0x11, 0x22, 0x02, 0x33]);
    assert_eq!(stuff(&[0x00]), vec![0x01, 0x01]);
}

#[test]
fn unstuff_rejects_overrun() {
    assert_eq!(unstuff(&[0x05, 0x01]), Err(FpError::FramingError));
}

#[test]
fn frame_round_trips() {
    for p in sample_payloads() {
        let f = encode_frame(&p);
        assert_eq!(*f.last().unwrap(), 0);
        assert!(!f[..f.len() - 1].contains(&0));
        assert_eq!(decode_frame(&f), Ok(p));
    }
}

#[test]
fn frame_layout_is_length_then_payload() {
    let f = encode_frame(&[0xaa]);
    assert_eq!(unstuff(&f[..f.len() - 1]), Ok(vec![0x00, 0x01, 0xaa]));
}

#[test]
fn frame_with_wrong_length_is_rejected() {
    let bad = stuff(&[0x00, 0x05, 1, 2]);
    let mut f = bad.clone();
    f.push(0);
    assert_eq!(decode_frame(&f), Err(FpError::FramingError));
    let short = stuff(&[0x07]);
    let mut f = short.clone();
    f.push(0);
    assert_eq!(decode_frame(&f), Err(FpError::FramingError));
}

fn fragment_message() -> ConfigMsgOut {
    let mut values = vec![Value::Enum(300)];
    for _ in 0..60 {
        values.push(Value::MidiCc(MidiCc(1)));
    }
    ConfigMsgOut::AppState(0, values)
}

#[test]
fn fragmented_delivery_in_three_reads() {
    let msg = fragment_message();
    let frame = encode_message_frame(&msg);
    assert_eq!(frame.len(), 130);

    let mut whole = Receiver::new();
    whole.push(&frame);
    let at_once = whole.next_message();

    let mut parts = Receiver::new();
    parts.push(&frame[..50]);
    assert_eq!(parts.next_message(), None);
    parts.push(&frame[50..100]);
    assert_eq!(parts.next_message(), None);
    parts.push(&frame[100..]);
    let in_parts = parts.next_message();

    assert_eq!(in_parts, Some(Ok(msg)));
    assert_eq!(in_parts, at_once);
    assert_eq!(parts.next_message(), None);
}

#[test]
fn split_at_every_boundary() {
    let msg = fragment_message();
    let frame = encode_message_frame(&msg);
    for k in 0..=frame.len() {
        let mut r = Receiver::new();
        r.push(&frame[..k]);
        let early = r.next_message();
        if k < frame.len() {
            assert_eq!(early, None);
            r.push(&frame[k..]);
            assert_eq!(r.next_message(), Some(Ok(msg.clone())));
        } else {
            assert_eq!(early, Some(Ok(msg.clone())));
        }
        assert_eq!(r.next_message(), None);
    }
}

#[test]
fn several_frames_in_one_read() {
    let mut bytes = encode_message_frame(&ConfigMsgOut::Pong);
    bytes.extend(encode_message_frame(&ConfigMsgOut::BatchMsgStart(2)));
    bytes.extend(&encode_message_frame(&ConfigMsgOut::BatchMsgEnd)[..2]);
    let mut r = Receiver::new();
    r.push(&bytes);
    assert_eq!(r.next_message(), Some(Ok(ConfigMsgOut::Pong)));
    assert_eq!(r.next_message(), Some(Ok(ConfigMsgOut::BatchMsgStart(2))));
    assert_eq!(r.next_message(), None);
    let tail = encode_message_frame(&ConfigMsgOut::BatchMsgEnd);
    r.push(&tail[2..]);
    assert_eq!(r.next_message(), Some(Ok(ConfigMsgOut::BatchMsgEnd)));
}

#[test]
fn empty_frame_is_a_framing_error() {
    let mut r = Receiver::new();
    r.push(&[0]);
    r.push(&encode_message_frame(&ConfigMsgOut::Pong));
    assert_eq!(r.next_message(), Some(Err(FpError::FramingError)));
    assert_eq!(r.next_message(), Some(Ok(ConfigMsgOut::Pong)));
    assert_eq!(r.next_message(), None);
    assert_eq!(decode_frame(&[0]), Err(FpError::FramingError));
}

#[test]
fn length_prefix_must_match() {
    let mut r = Receiver::new();
    r.push(&[0x01, 0x02, 0x05, 0x01, 0x00]);
    assert_eq!(r.next_message(), Some(Err(FpError::FramingError)));
}

#[test]
fn delivery_in_many_chunks() {
    let msg = fragment_message();
    let frame = encode_message_frame(&msg);
    for size in 1..=frame.len() {
        let mut r = Receiver::new();
        let mut got = Vec::new();
        for chunk in frame.chunks(size) {
            r.push(&[]);
            r.push(chunk);
            while let Some(m) = r.next_message() {
                got.push(m);
            }
        }
        assert_eq!(got, vec![Ok(msg.clone())]);
    }
}

#[test]
fn corrupt_frames_report_their_error() {
    let mut r = Receiver::new();
    r.push(&[0x05, 0x01, 0x00]);
    assert_eq!(r.next_message(), Some(Err(FpError::FramingError)));
    let mut r = Receiver::new();
    r.push(&encode_frame(&[42]));
    assert_eq!(r.next_message(), Some(Err(FpError::DecodeError)));
}

#[test]
fn next_frame_keeps_the_rest() {
    let mut r = Receiver::new();
    r.push(&[1, 2, 0, 3]);
    assert_eq!(r.next_frame(), Some(vec![1, 2, 0]));
    assert_eq!(r.next_frame(), None);
    r.push(&[0]);
    assert_eq!(r.next_frame(), Some(vec![3, 0]));
}

/// What the device does with a request: reads it and answers.
fn device_answer(packets: &[Vec<u8>], mut answer: impl FnMut(ConfigMsgIn) -> Vec<ConfigMsgOut>) -> Vec<u8> {
    let bytes: Vec<u8> = packets.concat();
    let req = decode_message_frame::<ConfigMsgIn>(&bytes).unwrap();
    let mut out = Vec::new();
    for m in answer(req) {
        out.extend(encode_message_frame(&m));
    }
    out
}

fn receive_all(bytes: &[u8], read: usize) -> Vec<ConfigMsgOut> {
    let mut r = Receiver::new();
    let mut out = Vec::new();
    for chunk in bytes.chunks(read) {
        r.push(chunk);
        while let Some(m) = r.next_message() {
            out.push(m.unwrap());
        }
    }
    out
}

#[test]
fn ping_yields_one_pong() {
    let packets = request_packets(&ConfigMsgIn::Ping);
    let answer = device_answer(&packets, |req| {
        assert_eq!(req, ConfigMsgIn::Ping);
        vec![ConfigMsgOut::Pong]
    });
    assert_eq!(receive_all(&answer, 512), vec![ConfigMsgOut::Pong]);
}

#[test]
fn layout_set_then_get_keeps_single_entry() {
    let mut slots = [None; 16];
    slots[0] = Some((5u8, 2usize, 0u8));
    let set = ConfigMsgIn::SetLayout(Layout(slots));
    let mut stored = None;
    let packets = request_packets(&set);
    let _ = device_answer(&packets, |req| {
        if let ConfigMsgIn::SetLayout(l) = req {
            stored = Some(l);
        }
        vec![]
    });
    let stored = stored.unwrap();
    let packets = request_packets(&ConfigMsgIn::GetLayout);
    let answer = device_answer(&packets, |req| {
        assert_eq!(req, ConfigMsgIn::GetLayout);
        vec![ConfigMsgOut::Layout(stored)]
    });
    let got = receive_all(&answer, 7);
    assert_eq!(got.len(), 1);
    match &got[0] {
        ConfigMsgOut::Layout(l) => {
            assert_eq!(l.0[0], Some((5, 2, 0)));
            for i in 1..16 {
                assert_eq!(l.0[i], None);
            }
        }
        other => panic!("unexpected {:?}", other),
    }
}

fn run_collector(msgs: Vec<ConfigMsgOut>) -> (Result<Vec<ConfigMsgOut>, FpError>, usize) {
    let mut c = BatchCollector::new();
    for (i, m) in msgs.into_iter().enumerate() {
        match c.accept(m) {
            Ok(BatchStep::More(next)) => c = next,
            Ok(BatchStep::Done(items)) => return (Ok(items), i + 1),
            Err(e) => return (Err(e), i + 1),
        }
    }
    (Err(FpError::IoError), usize::MAX)
}

#[test]
fn batch_of_three() {
    let items = vec![
        ConfigMsgOut::AppState(0, vec![]),
        ConfigMsgOut::Pong,
        ConfigMsgOut::AppState(2, vec![Value::Bool(true)]),
    ];
    let mut msgs = vec![ConfigMsgOut::BatchMsgStart(3)];
    msgs.extend(items.clone());
    msgs.push(ConfigMsgOut::BatchMsgEnd);
    assert_eq!(run_collector(msgs), (Ok(items), 5));
}

#[test]
fn batch_overrun_is_a_violation() {
    let mut msgs = vec![ConfigMsgOut::BatchMsgStart(2)];
    for i in 0..3 {
        msgs.push(ConfigMsgOut::AppState(i, vec![]));
    }
    msgs.push(ConfigMsgOut::BatchMsgEnd);
    assert_eq!(run_collector(msgs), (Err(FpError::ProtocolViolation), 4));
}

#[test]
fn batch_must_start_with_start_marker() {
    assert_eq!(
        run_collector(vec![ConfigMsgOut::Pong, ConfigMsgOut::BatchMsgEnd]),
        (Err(FpError::ProtocolViolation), 1)
    );
}

#[test]
fn empty_batch() {
    assert_eq!(
        run_collector(vec![ConfigMsgOut::BatchMsgStart(0), ConfigMsgOut::BatchMsgEnd]),
        (Ok(vec![]), 2)
    );
}

#[test]
fn packets_are_64_bytes_but_the_last() {
    let frame: Vec<u8> = (0..150u8).collect();
    let chunks = split_chunks(&frame, USB_PACKET_SIZE);
    assert_eq!(chunks.len(), 3);
    assert_eq!(chunks[0].len(), 64);
    assert_eq!(chunks[1].len(), 64);
    assert_eq!(chunks[2].len(), 22);
    assert_eq!(chunks.concat(), frame);
    assert_eq!(split_chunks(&frame[..128], 64).len(), 2);
    assert!(split_chunks(&[], 64).is_empty());
}

#[test]
fn request_packets_carry_the_frame() {
    let msg = ConfigMsgIn::GetAppParams { layout_id: 0 };
    let packets = request_packets(&msg);
    assert_eq!(packets.concat(), encode_message_frame(&msg));
    let payload = decode_frame(&packets.concat()).unwrap();
    assert_eq!(payload, encode_message(&msg));
    assert_eq!(decode_message::<ConfigMsgIn>(&payload), Ok(msg));
}
