use asteria::protocol::{InputEvent, InputEventType, Message, Packet};
use asteria::wire::{
    decode_packet, drain_packets, encode_frame, encode_packet, take_packet, WireError,
    MAX_PAYLOAD_LEN,
};

fn typed(t: InputEventType) -> Packet {
    Packet { id: "abc".to_string(), message: Message::InputEventTyped(t), timestamp: 7 }
}

fn round_trip(p: &Packet) -> Packet {
    let mut buf = encode_frame(p).expect("frame");
    let got = take_packet(&mut buf).expect("no error").expect("complete");
    assert!(buf.is_empty());
    got
}

#[test]
fn round_trip_every_variant() {
    let events = vec![
        InputEventType::KeyPress { key_code: 30 },
        InputEventType::KeyRelease { key_code: 65535 },
        InputEventType::MouseMove { x: 5, y: -3 },
        InputEventType::MouseMove { x: i32::MIN, y: i32::MAX },
        InputEventType::MouseButton { button: 1, pressed: true },
        InputEventType::MouseButton { button: 3, pressed: false },
        InputEventType::MouseScroll { dx: 0, dy: -2 },
    ];
    for t in events {
        let p = typed(t);
        let q = round_trip(&p);
        assert_eq!(q, p);
        assert_eq!(q.message, Message::InputEventTyped(t));
    }
}

#[test]
fn round_trip_raw_event_and_fresh_packet() {
    let p = Packet::input_event("EV_KEY".to_string(), 30, -1);
    let q = round_trip(&p);
    assert_eq!(q, p);
    assert_eq!(q.id, p.id);
    assert_eq!(q.timestamp, p.timestamp);
    match q.message {
        Message::InputEvent(e) => {
            assert_eq!(e.event_type, "EV_KEY");
            assert_eq!(e.code, 30);
            assert_eq!(e.value, -1);
        }
        _ => panic!("wrong variant"),
    }
}

#[test]
fn round_trip_non_ascii_text() {
    let p = Packet {
        id: "ümlaut-€-𝄞".to_string(),
        message: Message::InputEvent(InputEvent { event_type: "EV_RÉL".to_string(), code: 1, value: 9 }),
        timestamp: u64::MAX,
    };
    assert_eq!(round_trip(&p), p);
}

#[test]
fn exact_bytes_of_a_key_press() {
    let p = typed(InputEventType::KeyPress { key_code: 0x0102 });
    let payload = encode_packet(&p);
    let expected: Vec<u8> = vec![
        3, 0, 0, 0, b'a', b'b', b'c', // id
        1, 0, 0x02, 0x01, // typed key press
        7, 0, 0, 0, 0, 0, 0, 0, // timestamp
    ];
    assert_eq!(payload, expected);
    let frame = encode_frame(&p).unwrap();
    assert_eq!(&frame[..4], &[19, 0, 0, 0]);
    assert_eq!(&frame[4..], &expected[..]);
    assert_eq!(decode_packet(&expected), Some(p));
}

#[test]
fn exact_bytes_of_a_button_and_a_scroll() {
    let b = encode_packet(&typed(InputEventType::MouseButton { button: 2, pressed: true }));
    assert_eq!(&b[7..11], &[1, 3, 2, 1]);
    let s = encode_packet(&typed(InputEventType::MouseScroll { dx: 1, dy: -1 }));
    assert_eq!(&s[7..17], &[1, 4, 1, 0, 0, 0, 0xff, 0xff, 0xff, 0xff]);
}

#[test]
fn two_packets_over_three_partial_reads() {
    let a = typed(InputEventType::KeyPress { key_code: 30 });
    let b = Packet::input_event("EV_REL".to_string(), 0, 4);
    let mut stream = encode_frame(&a).unwrap();
    stream.extend(encode_frame(&b).unwrap());
    let cut1 = 5;
    let cut2 = stream.len() - 3;
    let reads = [&stream[..cut1], &stream[cut1..cut2], &stream[cut2..]];
    let mut buf: Vec<u8> = Vec::new();
    let mut dispatched: Vec<Packet> = Vec::new();
    for chunk in reads.iter() {
        buf.extend_from_slice(chunk);
        while let Some(p) = take_packet(&mut buf).expect("well-formed") {
            dispatched.push(p);
        }
    }
    assert_eq!(dispatched, vec![a, b]);
    assert!(buf.is_empty());
}

#[test]
fn draining_partial_reads_dispatches_each_packet_once() {
    let a = typed(InputEventType::MouseScroll { dx: 0, dy: -2 });
    let b = typed(InputEventType::MouseButton { button: 1, pressed: true });
    let mut stream = encode_frame(&a).unwrap();
    stream.extend(encode_frame(&b).unwrap());
    for cut1 in 0..stream.len() {
        for cut2 in [cut1, (cut1 + stream.len()) / 2, stream.len()] {
            let mut buf: Vec<u8> = Vec::new();
            let mut dispatched: Vec<Packet> = Vec::new();
            for chunk in [&stream[..cut1], &stream[cut1..cut2], &stream[cut2..]] {
                buf.extend_from_slice(chunk);
                let (packets, error) = drain_packets(&mut buf);
                assert_eq!(error, None);
                dispatched.extend(packets);
            }
            assert_eq!(dispatched, vec![a.clone(), b.clone()]);
            assert!(buf.is_empty());
        }
    }
}

#[test]
fn draining_stops_at_a_malformed_frame() {
    let a = typed(InputEventType::KeyPress { key_code: 2 });
    let mut buf = encode_frame(&a).unwrap();
    buf.extend_from_slice(&[1, 0, 0, 0, 7]);
    let (packets, error) = drain_packets(&mut buf);
    assert_eq!(packets, vec![a]);
    assert_eq!(error, Some(WireError::Malformed));
    assert_eq!(buf, vec![1, 0, 0, 0, 7]);
}

#[test]
fn incomplete_frame_leaves_buffer_untouched() {
    let frame = encode_frame(&typed(InputEventType::MouseMove { x: 1, y: 2 })).unwrap();
    for k in 0..frame.len() {
        let mut buf = frame[..k].to_vec();
        assert_eq!(take_packet(&mut buf), Ok(None));
        assert_eq!(buf, frame[..k].to_vec());
    }
}

#[test]
fn trailing_bytes_stay_for_the_next_frame() {
    let frame = encode_frame(&typed(InputEventType::KeyRelease { key_code: 1 })).unwrap();
    let mut buf = frame.clone();
    buf.extend_from_slice(&[9, 9]);
    assert!(take_packet(&mut buf).unwrap().is_some());
    assert_eq!(buf, vec![9, 9]);
}

#[test]
fn malformed_payload_is_an_error() {
    // a frame of 3 bytes that cannot hold a packet
    let mut buf: Vec<u8> = vec![3, 0, 0, 0, 1, 2, 3];
    assert_eq!(take_packet(&mut buf), Err(WireError::Malformed));
    assert_eq!(buf.len(), 7);
    // a bad message tag
    let mut payload = encode_packet(&typed(InputEventType::KeyPress { key_code: 1 }));
    payload[7] = 9;
    assert_eq!(decode_packet(&payload), None);
    // a pressed flag other than 0 or 1
    let mut payload = encode_packet(&typed(InputEventType::MouseButton { button: 1, pressed: true }));
    payload[10] = 2;
    assert_eq!(decode_packet(&payload), None);
    // an identifier that is not UTF-8
    let mut payload = encode_packet(&typed(InputEventType::KeyPress { key_code: 1 }));
    payload[4] = 0xff;
    assert_eq!(decode_packet(&payload), None);
    // a trailing byte
    let mut payload = encode_packet(&typed(InputEventType::KeyPress { key_code: 1 }));
    payload.push(0);
    assert_eq!(decode_packet(&payload), None);
}

#[test]
fn oversized_frames_are_refused() {
    let n = (MAX_PAYLOAD_LEN + 1) as u32;
    let mut buf = n.to_le_bytes().to_vec();
    assert_eq!(take_packet(&mut buf), Err(WireError::Oversized));
    let big = Packet { id: "x".repeat(MAX_PAYLOAD_LEN), message: Message::InputEventTyped(InputEventType::KeyPress { key_code: 1 }), timestamp: 0 };
    assert_eq!(encode_frame(&big), Err(WireError::Oversized));
    let fits = Packet { id: "x".repeat(MAX_PAYLOAD_LEN - 4 - 4 - 8), message: Message::InputEventTyped(InputEventType::KeyPress { key_code: 1 }), timestamp: 0 };
    assert_eq!(encode_packet(&fits).len(), MAX_PAYLOAD_LEN);
    assert_eq!(round_trip(&fits), fits);
}

#[test]
fn fresh_packets_get_distinct_ids_and_a_clock_time() {
    let a = Packet::new(Message::InputEventTyped(InputEventType::KeyPress { key_code: 1 }));
    let b = Packet::new(Message::InputEventTyped(InputEventType::KeyPress { key_code: 1 }));
    assert_eq!(a.id.len(), 36);
    assert_eq!(a.id.matches('-').count(), 4);
    assert_ne!(a.id, b.id);
    assert!(a.timestamp > 1_600_000_000);
}
