//! The wire format and its framing.
//!
//! All integers are little-endian. A frame is a `u32` payload length followed
//! by the payload, which is one packet:
//!
//! - `id`: text;
//! - `message`: a tag byte, then
//!   - tag 0, a raw event: `event_type` as text, `code` as `u16`, `value` as `i32`;
//!   - tag 1, a structured event: a tag byte, then
//!     - 0, key press: `key_code` as `u16`;
//!     - 1, key release: `key_code` as `u16`;
//!     - 2, pointer motion: `x`, `y` as `i32`;
//!     - 3, pointer button: `button` as one byte, `pressed` as one byte (0 or 1);
//!     - 4, scroll: `dx`, `dy` as `i32`;
//! - `timestamp` as `u64`.
//!
//! Text is a `u32` byte count followed by that many bytes of UTF-8. An `i32`
//! travels as the `u32` with the same bits. A payload longer than
//! [`MAX_PAYLOAD_LEN`] is refused on both sides.
use crate::protocol::{
    InputEvent, InputEventModel, InputEventType, Message, MessageModel, Packet, PacketModel,
};
use crate::text::utf8_text;
use vstd::bytes::*;
use vstd::prelude::*;
use vstd::slice::*;
use vstd::string::*;
use vstd::utf8::*;

verus! {

broadcast use vstd::utf8::encode_utf8_decode_utf8, vstd::utf8::encode_utf8_valid_utf8;

/// The largest payload, in bytes, that a frame may announce.
pub const MAX_PAYLOAD_LEN: usize = 65536;

/// Why bytes could not be turned into a packet, or a packet into a frame.
#[derive(Debug, Clone, Copy, PartialEq, Eq, Structural)]
pub enum WireError {
    /// The payload is, or would be, longer than [`MAX_PAYLOAD_LEN`].
    Oversized,
    /// A complete payload does not hold exactly one well-formed packet.
    Malformed,
}

// ---- encoding ----

pub open spec fn i32_bytes(v: i32) -> Seq<u8> {
    spec_u32_to_le_bytes(v as u32)
}

pub open spec fn bool_byte(v: bool) -> u8 {
    if v {
        1u8
    } else {
        0u8
    }
}

pub open spec fn text_bytes(s: Seq<char>) -> Seq<u8> {
    spec_u32_to_le_bytes(encode_utf8(s).len() as u32) + encode_utf8(s)
}

pub open spec fn event_bytes(e: InputEventType) -> Seq<u8> {
    match e {
        InputEventType::KeyPress { key_code } => seq![0u8] + spec_u16_to_le_bytes(key_code),
        InputEventType::KeyRelease { key_code } => seq![1u8] + spec_u16_to_le_bytes(key_code),
        InputEventType::MouseMove { x, y } => seq![2u8] + (i32_bytes(x) + i32_bytes(y)),
        InputEventType::MouseButton { button, pressed } => seq![3u8, button, bool_byte(pressed)],
        InputEventType::MouseScroll { dx, dy } => seq![4u8] + (i32_bytes(dx) + i32_bytes(dy)),
    }
}

pub open spec fn message_bytes(m: MessageModel) -> Seq<u8> {
    match m {
        MessageModel::Raw(e) => seq![0u8] + (text_bytes(e.event_type) + (spec_u16_to_le_bytes(
            e.code,
        ) + i32_bytes(e.value))),
        MessageModel::Typed(t) => seq![1u8] + event_bytes(t),
    }
}

/// The payload that carries packet `p`.
pub open spec fn packet_bytes(p: PacketModel) -> Seq<u8> {
    text_bytes(p.id) + (message_bytes(p.message) + spec_u64_to_le_bytes(p.timestamp))
}

/// The frame that carries packet `p`.
pub open spec fn frame_bytes(p: PacketModel) -> Seq<u8> {
    spec_u32_to_le_bytes(packet_bytes(p).len() as u32) + packet_bytes(p)
}

/// Every text in `p` has a byte count that its `u32` prefix can hold.
pub open spec fn encodable(p: PacketModel) -> bool {
    &&& encode_utf8(p.id).len() <= u32::MAX
    &&& p.message matches MessageModel::Raw(e) ==> encode_utf8(e.event_type).len() <= u32::MAX
}

// ---- decoding ----

pub open spec fn parse_u8(b: Seq<u8>) -> Option<(u8, Seq<u8>)> {
    if b.len() >= 1 {
        Some((b[0], b.subrange(1, b.len() as int)))
    } else {
        None
    }
}

pub open spec fn parse_u16(b: Seq<u8>) -> Option<(u16, Seq<u8>)> {
    if b.len() >= 2 {
        Some((spec_u16_from_le_bytes(b.subrange(0, 2)), b.subrange(2, b.len() as int)))
    } else {
        None
    }
}

pub open spec fn parse_u32(b: Seq<u8>) -> Option<(u32, Seq<u8>)> {
    if b.len() >= 4 {
        Some((spec_u32_from_le_bytes(b.subrange(0, 4)), b.subrange(4, b.len() as int)))
    } else {
        None
    }
}

pub open spec fn parse_u64(b: Seq<u8>) -> Option<(u64, Seq<u8>)> {
    if b.len() >= 8 {
        Some((spec_u64_from_le_bytes(b.subrange(0, 8)), b.subrange(8, b.len() as int)))
    } else {
        None
    }
}

pub open spec fn parse_i32(b: Seq<u8>) -> Option<(i32, Seq<u8>)> {
    match parse_u32(b) {
        Some((v, r)) => Some((v as i32, r)),
        None => None,
    }
}

pub open spec fn parse_bool(b: Seq<u8>) -> Option<(bool, Seq<u8>)> {
    match parse_u8(b) {
        Some((v, r)) => if v == 0 {
            Some((false, r))
        } else if v == 1 {
            Some((true, r))
        } else {
            None
        },
        None => None,
    }
}

pub open spec fn parse_text(b: Seq<u8>) -> Option<(Seq<char>, Seq<u8>)> {
    match parse_u32(b) {
        Some((n, r)) => if n <= r.len() && valid_utf8(r.subrange(0, n as int)) {
            Some((decode_utf8(r.subrange(0, n as int)), r.subrange(n as int, r.len() as int)))
        } else {
            None
        },
        None => None,
    }
}

pub open spec fn parse_pair(b: Seq<u8>) -> Option<(i32, i32, Seq<u8>)> {
    match parse_i32(b) {
        Some((x, r)) => match parse_i32(r) {
            Some((y, r2)) => Some((x, y, r2)),
            None => None,
        },
        None => None,
    }
}

pub open spec fn parse_event(b: Seq<u8>) -> Option<(InputEventType, Seq<u8>)> {
    match parse_u8(b) {
        Some((tag, r)) => if tag == 0 {
            match parse_u16(r) {
                Some((k, r2)) => Some((InputEventType::KeyPress { key_code: k }, r2)),
                None => None,
            }
        } else if tag == 1 {
            match parse_u16(r) {
                Some((k, r2)) => Some((InputEventType::KeyRelease { key_code: k }, r2)),
                None => None,
            }
        } else if tag == 2 {
            match parse_pair(r) {
                Some((x, y, r2)) => Some((InputEventType::MouseMove { x, y }, r2)),
                None => None,
            }
        } else if tag == 3 {
            match parse_u8(r) {
                Some((button, r2)) => match parse_bool(r2) {
                    Some((pressed, r3)) => Some(
                        (InputEventType::MouseButton { button, pressed }, r3),
                    ),
                    None => None,
                },
                None => None,
            }
        } else if tag == 4 {
            match parse_pair(r) {
                Some((dx, dy, r2)) => Some((InputEventType::MouseScroll { dx, dy }, r2)),
                None => None,
            }
        } else {
            None
        },
        None => None,
    }
}

pub open spec fn parse_raw_event(b: Seq<u8>) -> Option<(InputEventModel, Seq<u8>)> {
    match parse_text(b) {
        Some((t, r)) => match parse_u16(r) {
            Some((code, r2)) => match parse_i32(r2) {
                Some((value, r3)) => Some((InputEventModel { event_type: t, code, value }, r3)),
                None => None,
            },
            None => None,
        },
        None => None,
    }
}

pub open spec fn parse_message(b: Seq<u8>) -> Option<(MessageModel, Seq<u8>)> {
    match parse_u8(b) {
        Some((tag, r)) => if tag == 0 {
            match parse_raw_event(r) {
                Some((e, r2)) => Some((MessageModel::Raw(e), r2)),
                None => None,
            }
        } else if tag == 1 {
            match parse_event(r) {
                Some((t, r2)) => Some((MessageModel::Typed(t), r2)),
                None => None,
            }
        } else {
            None
        },
        None => None,
    }
}

/// The packet that payload `b` holds, if it holds exactly one.
pub open spec fn parse_packet(b: Seq<u8>) -> Option<PacketModel> {
    match parse_text(b) {
        Some((id, r)) => match parse_message(r) {
            Some((message, r2)) => match parse_u64(r2) {
                Some((timestamp, r3)) => if r3.len() == 0 {
                    Some(PacketModel { id, message, timestamp })
                } else {
                    None
                },
                None => None,
            },
            None => None,
        },
        None => None,
    }
}

/// What the front of a receive buffer holds.
pub enum FrameStatus {
    /// Not yet a whole frame: more bytes are needed.
    Incomplete,
    /// The announced payload length is over the limit.
    Oversized,
    /// A whole frame whose payload is not a packet.
    Malformed,
    /// A whole frame of the given length, carrying the packet.
    Complete(PacketModel, nat),
}

pub open spec fn frame_status(b: Seq<u8>) -> FrameStatus {
    if b.len() < 4 {
        FrameStatus::Incomplete
    } else {
        let n = spec_u32_from_le_bytes(b.subrange(0, 4));
        if n > MAX_PAYLOAD_LEN {
            FrameStatus::Oversized
        } else if b.len() < 4 + n {
            FrameStatus::Incomplete
        } else {
            match parse_packet(b.subrange(4, 4 + n)) {
                Some(p) => FrameStatus::Complete(p, (4 + n) as nat),
                None => FrameStatus::Malformed,
            }
        }
    }
}

// ---- decoding what was encoded ----

proof fn lemma_parse_u8(v: u8, rest: Seq<u8>)
    ensures
        parse_u8(seq![v] + rest) == Some((v, rest)),
{
    let b = seq![v] + rest;
    assert(b.subrange(1, b.len() as int) =~= rest);
}

proof fn lemma_parse_u16(v: u16, rest: Seq<u8>)
    ensures
        spec_u16_to_le_bytes(v).len() == 2,
        parse_u16(spec_u16_to_le_bytes(v) + rest) == Some((v, rest)),
{
    lemma_auto_spec_u16_to_from_le_bytes();
    let e = spec_u16_to_le_bytes(v);
    let b = e + rest;
    assert(b.subrange(0, 2) =~= e);
    assert(b.subrange(2, b.len() as int) =~= rest);
}

proof fn lemma_parse_u32(v: u32, rest: Seq<u8>)
    ensures
        spec_u32_to_le_bytes(v).len() == 4,
        parse_u32(spec_u32_to_le_bytes(v) + rest) == Some((v, rest)),
{
    lemma_auto_spec_u32_to_from_le_bytes();
    let e = spec_u32_to_le_bytes(v);
    let b = e + rest;
    assert(b.subrange(0, 4) =~= e);
    assert(b.subrange(4, b.len() as int) =~= rest);
}

proof fn lemma_parse_u64(v: u64, rest: Seq<u8>)
    ensures
        spec_u64_to_le_bytes(v).len() == 8,
        parse_u64(spec_u64_to_le_bytes(v) + rest) == Some((v, rest)),
{
    lemma_auto_spec_u64_to_from_le_bytes();
    let e = spec_u64_to_le_bytes(v);
    let b = e + rest;
    assert(b.subrange(0, 8) =~= e);
    assert(b.subrange(8, b.len() as int) =~= rest);
}

proof fn lemma_parse_i32(v: i32, rest: Seq<u8>)
    ensures
        i32_bytes(v).len() == 4,
        parse_i32(i32_bytes(v) + rest) == Some((v, rest)),
{
    lemma_parse_u32(v as u32, rest);
    assert(((v as u32) as i32) == v) by (bit_vector);
}

proof fn lemma_parse_pair(x: i32, y: i32, rest: Seq<u8>)
    ensures
        parse_pair((i32_bytes(x) + i32_bytes(y)) + rest) == Some((x, y, rest)),
{
    lemma_parse_i32(x, i32_bytes(y) + rest);
    lemma_parse_i32(y, rest);
    assert((i32_bytes(x) + i32_bytes(y)) + rest =~= i32_bytes(x) + (i32_bytes(y) + rest));
}

proof fn lemma_parse_text(s: Seq<char>, rest: Seq<u8>)
    requires
        encode_utf8(s).len() <= u32::MAX,
    ensures
        text_bytes(s).len() == 4 + encode_utf8(s).len(),
        parse_text(text_bytes(s) + rest) == Some((s, rest)),
{
    let e = encode_utf8(s);
    let n = e.len() as u32;
    let r = e + rest;
    lemma_parse_u32(n, r);
    assert(text_bytes(s) + rest =~= spec_u32_to_le_bytes(n) + r);
    assert(r.subrange(0, n as int) =~= e);
    assert(r.subrange(n as int, r.len() as int) =~= rest);
}

proof fn lemma_parse_event(t: InputEventType, rest: Seq<u8>)
    ensures
        parse_event(event_bytes(t) + rest) == Some((t, rest)),
{
    match t {
        InputEventType::KeyPress { key_code } => {
            let e = spec_u16_to_le_bytes(key_code);
            lemma_parse_u8(0u8, e + rest);
            lemma_parse_u16(key_code, rest);
            assert(event_bytes(t) + rest =~= seq![0u8] + (e + rest));
        },
        InputEventType::KeyRelease { key_code } => {
            let e = spec_u16_to_le_bytes(key_code);
            lemma_parse_u8(1u8, e + rest);
            lemma_parse_u16(key_code, rest);
            assert(event_bytes(t) + rest =~= seq![1u8] + (e + rest));
        },
        InputEventType::MouseMove { x, y } => {
            let e = i32_bytes(x) + i32_bytes(y);
            lemma_parse_u8(2u8, e + rest);
            lemma_parse_pair(x, y, rest);
            assert(event_bytes(t) + rest =~= seq![2u8] + (e + rest));
        },
        InputEventType::MouseButton { button, pressed } => {
            let bb = bool_byte(pressed);
            lemma_parse_u8(3u8, seq![button] + (seq![bb] + rest));
            lemma_parse_u8(button, seq![bb] + rest);
            lemma_parse_u8(bb, rest);
            assert(event_bytes(t) + rest =~= seq![3u8] + (seq![button] + (seq![bb] + rest)));
        },
        InputEventType::MouseScroll { dx, dy } => {
            let e = i32_bytes(dx) + i32_bytes(dy);
            lemma_parse_u8(4u8, e + rest);
            lemma_parse_pair(dx, dy, rest);
            assert(event_bytes(t) + rest =~= seq![4u8] + (e + rest));
        },
    }
}

proof fn lemma_parse_message(m: MessageModel, rest: Seq<u8>)
    requires
        m matches MessageModel::Raw(e) ==> encode_utf8(e.event_type).len() <= u32::MAX,
    ensures
        parse_message(message_bytes(m) + rest) == Some((m, rest)),
{
    match m {
        MessageModel::Raw(e) => {
            let t = text_bytes(e.event_type);
            let c = spec_u16_to_le_bytes(e.code);
            let v = i32_bytes(e.value);
            lemma_parse_u8(0u8, t + (c + (v + rest)));
            lemma_parse_text(e.event_type, c + (v + rest));
            lemma_parse_u16(e.code, v + rest);
            lemma_parse_i32(e.value, rest);
            assert(message_bytes(m) + rest =~= seq![0u8] + (t + (c + (v + rest))));
        },
        MessageModel::Typed(t) => {
            lemma_parse_u8(1u8, event_bytes(t) + rest);
            lemma_parse_event(t, rest);
            assert(message_bytes(m) + rest =~= seq![1u8] + (event_bytes(t) + rest));
        },
    }
}

/// Decoding the payload of a packet gives back that packet: its identifier,
/// its message's variant and fields, and its timestamp.
pub proof fn lemma_packet_round_trip(p: PacketModel)
    requires
        encodable(p),
    ensures
        parse_packet(packet_bytes(p)) == Some(p),
{
    let t = text_bytes(p.id);
    let m = message_bytes(p.message);
    let ts = spec_u64_to_le_bytes(p.timestamp);
    let empty = Seq::<u8>::empty();
    lemma_parse_text(p.id, m + ts);
    lemma_parse_message(p.message, ts);
    lemma_parse_u64(p.timestamp, empty);
    assert(packet_bytes(p) =~= t + (m + ts));
    assert(ts =~= ts + empty);
}

/// A buffer that starts with the frame of `p` yields `p` and that frame's
/// length, whatever bytes follow it.
pub proof fn lemma_frame_round_trip(p: PacketModel, rest: Seq<u8>)
    requires
        encodable(p),
        packet_bytes(p).len() <= MAX_PAYLOAD_LEN,
    ensures
        frame_status(frame_bytes(p) + rest) == FrameStatus::Complete(p, frame_bytes(p).len()),
{
    let body = packet_bytes(p);
    let n = body.len() as u32;
    let b = frame_bytes(p) + rest;
    lemma_parse_u32(n, body + rest);
    assert(b =~= spec_u32_to_le_bytes(n) + (body + rest));
    assert(b.subrange(0, 4) =~= spec_u32_to_le_bytes(n));
    lemma_auto_spec_u32_to_from_le_bytes();
    assert(b.subrange(4, 4 + n) =~= body);
    lemma_packet_round_trip(p);
}

/// Any proper prefix of a frame is incomplete: it asks for more bytes and
/// is never taken for an error.
pub proof fn lemma_frame_prefix_incomplete(p: PacketModel, k: int)
    requires
        packet_bytes(p).len() <= MAX_PAYLOAD_LEN,
        0 <= k < frame_bytes(p).len(),
    ensures
        frame_status(frame_bytes(p).subrange(0, k)) == FrameStatus::Incomplete,
{
    let body = packet_bytes(p);
    let n = body.len() as u32;
    let b = frame_bytes(p).subrange(0, k);
    lemma_auto_spec_u32_to_from_le_bytes();
    if k >= 4 {
        assert(b.subrange(0, 4) =~= spec_u32_to_le_bytes(n));
    }
}

// ---- executable encoding ----

fn put_u8(out: &mut Vec<u8>, v: u8)
    ensures
        final(out)@ == old(out)@ + seq![v],
{
    out.push(v);
    assert(out@ =~= old(out)@ + seq![v]);
}

fn put_u16(out: &mut Vec<u8>, v: u16)
    ensures
        final(out)@ == old(out)@ + spec_u16_to_le_bytes(v),
{
    let mut b = u16_to_le_bytes(v);
    out.append(&mut b);
}

fn put_u32(out: &mut Vec<u8>, v: u32)
    ensures
        final(out)@ == old(out)@ + spec_u32_to_le_bytes(v),
{
    let mut b = u32_to_le_bytes(v);
    out.append(&mut b);
}

fn put_u64(out: &mut Vec<u8>, v: u64)
    ensures
        final(out)@ == old(out)@ + spec_u64_to_le_bytes(v),
{
    let mut b = u64_to_le_bytes(v);
    out.append(&mut b);
}

fn put_text(out: &mut Vec<u8>, s: &str)
    requires
        encode_utf8(s@).len() <= u32::MAX,
    ensures
        final(out)@ == old(out)@ + text_bytes(s@),
{
    let bytes = s.as_bytes();
    put_u32(out, bytes.len() as u32);
    let mut v = slice_to_vec(bytes);
    out.append(&mut v);
    assert(out@ =~= old(out)@ + text_bytes(s@));
}

fn put_event(out: &mut Vec<u8>, t: InputEventType)
    ensures
        final(out)@ == old(out)@ + event_bytes(t),
{
    match t {
        InputEventType::KeyPress { key_code } => {
            put_u8(out, 0);
            put_u16(out, key_code);
        },
        InputEventType::KeyRelease { key_code } => {
            put_u8(out, 1);
            put_u16(out, key_code);
        },
        InputEventType::MouseMove { x, y } => {
            put_u8(out, 2);
            put_u32(out, x as u32);
            put_u32(out, y as u32);
        },
        InputEventType::MouseButton { button, pressed } => {
            put_u8(out, 3);
            put_u8(out, button);
            put_u8(out, if pressed { 1 } else { 0 });
        },
        InputEventType::MouseScroll { dx, dy } => {
            put_u8(out, 4);
            put_u32(out, dx as u32);
            put_u32(out, dy as u32);
        },
    }
    assert(out@ =~= old(out)@ + event_bytes(t));
}

fn put_message(out: &mut Vec<u8>, m: &Message)
    requires
        m@ matches MessageModel::Raw(e) ==> encode_utf8(e.event_type).len() <= u32::MAX,
    ensures
        final(out)@ == old(out)@ + message_bytes(m@),
{
    match m {
        Message::InputEvent(e) => {
            put_u8(out, 0);
            put_text(out, e.event_type.as_str());
            put_u16(out, e.code);
            put_u32(out, e.value as u32);
        },
        Message::InputEventTyped(t) => {
            put_u8(out, 1);
            put_event(out, *t);
        },
    }
    assert(out@ =~= old(out)@ + message_bytes(m@));
}

/// The payload that carries `p`.
pub fn encode_packet(p: &Packet) -> (r: Vec<u8>)
    requires
        encodable(p@),
    ensures
        r@ == packet_bytes(p@),
{
    let mut out: Vec<u8> = Vec::new();
    put_text(&mut out, p.id.as_str());
    put_message(&mut out, &p.message);
    put_u64(&mut out, p.timestamp);
    assert(out@ =~= packet_bytes(p@));
    out
}

proof fn lemma_packet_len(p: PacketModel)
    ensures
        packet_bytes(p).len() >= 4 + encode_utf8(p.id).len(),
        p.message matches MessageModel::Raw(e) ==> packet_bytes(p).len() >= 5 + encode_utf8(
            e.event_type,
        ).len(),
{
    lemma_auto_spec_u32_to_from_le_bytes();
    let t = spec_u32_to_le_bytes(encode_utf8(p.id).len() as u32);
    assert(t.len() == 4);
    if let MessageModel::Raw(e) = p.message {
        let u = spec_u32_to_le_bytes(encode_utf8(e.event_type).len() as u32);
        assert(u.len() == 4);
    }
}

/// The frame that carries `p`, or [`WireError::Oversized`] exactly when its
/// payload would be longer than [`MAX_PAYLOAD_LEN`].
pub fn encode_frame(p: &Packet) -> (r: Result<Vec<u8>, WireError>)
    ensures
        match r {
            Ok(bytes) => encodable(p@) && packet_bytes(p@).len() <= MAX_PAYLOAD_LEN && bytes@
                == frame_bytes(p@),
            Err(e) => e == WireError::Oversized && packet_bytes(p@).len() > MAX_PAYLOAD_LEN,
        },
{
    proof {
        lemma_packet_len(p@);
    }
    if p.id.as_str().as_bytes().len() > MAX_PAYLOAD_LEN {
        return Err(WireError::Oversized);
    }
    if let Message::InputEvent(e) = &p.message {
        if e.event_type.as_str().as_bytes().len() > MAX_PAYLOAD_LEN {
            return Err(WireError::Oversized);
        }
    }
    let mut payload = encode_packet(p);
    if payload.len() > MAX_PAYLOAD_LEN {
        return Err(WireError::Oversized);
    }
    let mut frame = u32_to_le_bytes(payload.len() as u32);
    frame.append(&mut payload);
    Ok(frame)
}

// ---- executable decoding ----

/// The bytes of `b` from `pos` on.
pub open spec fn rest(b: Seq<u8>, pos: int) -> Seq<u8> {
    b.subrange(pos, b.len() as int)
}

proof fn lemma_rest_split(b: Seq<u8>, pos: int, k: int)
    requires
        0 <= pos,
        0 <= k,
        pos + k <= b.len(),
    ensures
        rest(b, pos).subrange(0, k) == b.subrange(pos, pos + k),
        rest(b, pos).subrange(k, rest(b, pos).len() as int) == rest(b, pos + k),
{
    assert(rest(b, pos).subrange(0, k) =~= b.subrange(pos, pos + k));
    assert(rest(b, pos).subrange(k, rest(b, pos).len() as int) =~= rest(b, pos + k));
}

fn read_u8(b: &[u8], pos: usize) -> (r: Option<(u8, usize)>)
    requires
        pos <= b@.len(),
    ensures
        match r {
            Some((v, next)) => next <= b@.len() && parse_u8(rest(b@, pos as int)) == Some(
                (v, rest(b@, next as int)),
            ),
            None => parse_u8(rest(b@, pos as int)) is None,
        },
{
    if b.len() - pos < 1 {
        return None;
    }
    proof {
        lemma_rest_split(b@, pos as int, 1);
    }
    Some((b[pos], pos + 1))
}

fn read_u16(b: &[u8], pos: usize) -> (r: Option<(u16, usize)>)
    requires
        pos <= b@.len(),
    ensures
        match r {
            Some((v, next)) => next <= b@.len() && parse_u16(rest(b@, pos as int)) == Some(
                (v, rest(b@, next as int)),
            ),
            None => parse_u16(rest(b@, pos as int)) is None,
        },
{
    if b.len() - pos < 2 {
        return None;
    }
    proof {
        lemma_rest_split(b@, pos as int, 2);
    }
    Some((u16_from_le_bytes(slice_subrange(b, pos, pos + 2)), pos + 2))
}

fn read_u32(b: &[u8], pos: usize) -> (r: Option<(u32, usize)>)
    requires
        pos <= b@.len(),
    ensures
        match r {
            Some((v, next)) => next <= b@.len() && parse_u32(rest(b@, pos as int)) == Some(
                (v, rest(b@, next as int)),
            ),
            None => parse_u32(rest(b@, pos as int)) is None,
        },
{
    if b.len() - pos < 4 {
        return None;
    }
    proof {
        lemma_rest_split(b@, pos as int, 4);
    }
    Some((u32_from_le_bytes(slice_subrange(b, pos, pos + 4)), pos + 4))
}

fn read_u64(b: &[u8], pos: usize) -> (r: Option<(u64, usize)>)
    requires
        pos <= b@.len(),
    ensures
        match r {
            Some((v, next)) => next <= b@.len() && parse_u64(rest(b@, pos as int)) == Some(
                (v, rest(b@, next as int)),
            ),
            None => parse_u64(rest(b@, pos as int)) is None,
        },
{
    if b.len() - pos < 8 {
        return None;
    }
    proof {
        lemma_rest_split(b@, pos as int, 8);
    }
    Some((u64_from_le_bytes(slice_subrange(b, pos, pos + 8)), pos + 8))
}

fn read_i32(b: &[u8], pos: usize) -> (r: Option<(i32, usize)>)
    requires
        pos <= b@.len(),
    ensures
        match r {
            Some((v, next)) => next <= b@.len() && parse_i32(rest(b@, pos as int)) == Some(
                (v, rest(b@, next as int)),
            ),
            None => parse_i32(rest(b@, pos as int)) is None,
        },
{
    match read_u32(b, pos) {
        Some((v, next)) => Some((v as i32, next)),
        None => None,
    }
}

fn read_text(b: &[u8], pos: usize) -> (r: Option<(String, usize)>)
    requires
        pos <= b@.len(),
    ensures
        match r {
            Some((v, next)) => next <= b@.len() && parse_text(rest(b@, pos as int)) == Some(
                (v@, rest(b@, next as int)),
            ),
            None => parse_text(rest(b@, pos as int)) is None,
        },
{
    let (n, start) = match read_u32(b, pos) {
        Some(x) => x,
        None => {
            return None;
        },
    };
    let n = n as usize;
    if b.len() - start < n {
        return None;
    }
    proof {
        lemma_rest_split(b@, start as int, n as int);
    }
    let bytes = slice_subrange(b, start, start + n);
    match utf8_text(bytes) {
        Some(s) => {
            let t = s.to_owned();
            Some((t, start + n))
        },
        None => None,
    }
}

fn read_pair(b: &[u8], pos: usize) -> (r: Option<(i32, i32, usize)>)
    requires
        pos <= b@.len(),
    ensures
        match r {
            Some((x, y, next)) => next <= b@.len() && parse_pair(rest(b@, pos as int)) == Some(
                (x, y, rest(b@, next as int)),
            ),
            None => parse_pair(rest(b@, pos as int)) is None,
        },
{
    let (x, pos1) = match read_i32(b, pos) {
        Some(v) => v,
        None => {
            return None;
        },
    };
    let (y, pos2) = match read_i32(b, pos1) {
        Some(v) => v,
        None => {
            return None;
        },
    };
    Some((x, y, pos2))
}

fn read_event(b: &[u8], pos: usize) -> (r: Option<(InputEventType, usize)>)
    requires
        pos <= b@.len(),
    ensures
        match r {
            Some((v, next)) => next <= b@.len() && parse_event(rest(b@, pos as int)) == Some(
                (v, rest(b@, next as int)),
            ),
            None => parse_event(rest(b@, pos as int)) is None,
        },
{
    let (tag, pos1) = match read_u8(b, pos) {
        Some(v) => v,
        None => {
            return None;
        },
    };
    if tag == 0 || tag == 1 {
        match read_u16(b, pos1) {
            Some((k, pos2)) => if tag == 0 {
                Some((InputEventType::KeyPress { key_code: k }, pos2))
            } else {
                Some((InputEventType::KeyRelease { key_code: k }, pos2))
            },
            None => None,
        }
    } else if tag == 2 || tag == 4 {
        match read_pair(b, pos1) {
            Some((x, y, pos2)) => if tag == 2 {
                Some((InputEventType::MouseMove { x, y }, pos2))
            } else {
                Some((InputEventType::MouseScroll { dx: x, dy: y }, pos2))
            },
            None => None,
        }
    } else if tag == 3 {
        let (button, pos2) = match read_u8(b, pos1) {
            Some(v) => v,
            None => {
                return None;
            },
        };
        let (flag, pos3) = match read_u8(b, pos2) {
            Some(v) => v,
            None => {
                return None;
            },
        };
        if flag == 0 {
            Some((InputEventType::MouseButton { button, pressed: false }, pos3))
        } else if flag == 1 {
            Some((InputEventType::MouseButton { button, pressed: true }, pos3))
        } else {
            None
        }
    } else {
        None
    }
}

fn read_message(b: &[u8], pos: usize) -> (r: Option<(Message, usize)>)
    requires
        pos <= b@.len(),
    ensures
        match r {
            Some((v, next)) => next <= b@.len() && parse_message(rest(b@, pos as int)) == Some(
                (v@, rest(b@, next as int)),
            ),
            None => parse_message(rest(b@, pos as int)) is None,
        },
{
    let (tag, pos1) = match read_u8(b, pos) {
        Some(v) => v,
        None => {
            return None;
        },
    };
    if tag == 0 {
        let (event_type, pos2) = match read_text(b, pos1) {
            Some(v) => v,
            None => {
                return None;
            },
        };
        let (code, pos3) = match read_u16(b, pos2) {
            Some(v) => v,
            None => {
                return None;
            },
        };
        let (value, pos4) = match read_i32(b, pos3) {
            Some(v) => v,
            None => {
                return None;
            },
        };
        Some((Message::InputEvent(InputEvent { event_type, code, value }), pos4))
    } else if tag == 1 {
        match read_event(b, pos1) {
            Some((t, pos2)) => Some((Message::InputEventTyped(t), pos2)),
            None => None,
        }
    } else {
        None
    }
}

/// The packet that payload `b` holds, if it holds exactly one.
pub fn decode_packet(b: &[u8]) -> (r: Option<Packet>)
    ensures
        match r {
            Some(p) => parse_packet(b@) == Some(p@),
            None => parse_packet(b@) is None,
        },
{
    assert(rest(b@, 0) =~= b@);
    let (id, pos1) = match read_text(b, 0) {
        Some(v) => v,
        None => {
            return None;
        },
    };
    let (message, pos2) = match read_message(b, pos1) {
        Some(v) => v,
        None => {
            return None;
        },
    };
    let (timestamp, pos3) = match read_u64(b, pos2) {
        Some(v) => v,
        None => {
            return None;
        },
    };
    if pos3 == b.len() {
        Some(Packet { id, message, timestamp })
    } else {
        None
    }
}

/// Takes the first frame off the front of a receive buffer.
///
/// While the buffer holds less than a whole frame the result is `Ok(None)`
/// and the buffer is left as it was. A whole frame that carries a packet is
/// removed, and the packet returned. A frame that announces more than
/// [`MAX_PAYLOAD_LEN`] bytes, or whose payload is not exactly one packet, is
/// an error, and the buffer is left as it was.
pub fn take_packet(buf: &mut Vec<u8>) -> (r: Result<Option<Packet>, WireError>)
    ensures
        match frame_status(old(buf)@) {
            FrameStatus::Incomplete => r == Ok::<Option<Packet>, WireError>(None) && final(buf)@
                == old(buf)@,
            FrameStatus::Oversized => r == Err::<Option<Packet>, WireError>(WireError::Oversized)
                && final(buf)@ == old(buf)@,
            FrameStatus::Malformed => r == Err::<Option<Packet>, WireError>(WireError::Malformed)
                && final(buf)@ == old(buf)@,
            FrameStatus::Complete(p, n) => r matches Ok(Some(q)) && q@ == p && final(buf)@
                == old(buf)@.subrange(n as int, old(buf)@.len() as int),
        },
{
    if buf.len() < 4 {
        return Ok(None);
    }
    let n = u32_from_le_bytes(slice_subrange(buf.as_slice(), 0, 4)) as usize;
    if n > MAX_PAYLOAD_LEN {
        return Err(WireError::Oversized);
    }
    let total = 4 + n;
    if buf.len() < total {
        return Ok(None);
    }
    match decode_packet(slice_subrange(buf.as_slice(), 4, total)) {
        Some(p) => {
            let remaining = buf.split_off(total);
            *buf = remaining;
            Ok(Some(p))
        },
        None => Err(WireError::Malformed),
    }
}

// ---- draining a receive buffer ----

/// What draining a receive buffer yields: the packets of its leading whole
/// frames, in order, the bytes left over, and the error that stopped it.
pub struct Drained {
    pub packets: Seq<PacketModel>,
    pub rest: Seq<u8>,
    pub error: Option<WireError>,
}

#[verifier::opaque]
pub open spec fn drained(b: Seq<u8>) -> Drained
    decreases b.len(),
{
    match frame_status(b) {
        FrameStatus::Complete(p, n) => if 0 < n <= b.len() {
            let d = drained(b.subrange(n as int, b.len() as int));
            Drained { packets: seq![p] + d.packets, rest: d.rest, error: d.error }
        } else {
            Drained { packets: Seq::empty(), rest: b, error: None }
        },
        FrameStatus::Incomplete => Drained { packets: Seq::empty(), rest: b, error: None },
        FrameStatus::Oversized => Drained {
            packets: Seq::empty(),
            rest: b,
            error: Some(WireError::Oversized),
        },
        FrameStatus::Malformed => Drained {
            packets: Seq::empty(),
            rest: b,
            error: Some(WireError::Malformed),
        },
    }
}

pub open spec fn packets_view(v: Seq<Packet>) -> Seq<PacketModel> {
    v.map_values(|p: Packet| p@)
}

proof fn lemma_complete_len(b: Seq<u8>)
    ensures
        frame_status(b) matches FrameStatus::Complete(_, n) ==> 4 <= n <= b.len(),
{
}

proof fn lemma_status_extend(b: Seq<u8>, c: Seq<u8>)
    requires
        frame_status(b) is Complete,
    ensures
        frame_status(b + c) == frame_status(b),
{
    let n = spec_u32_from_le_bytes(b.subrange(0, 4));
    assert((b + c).subrange(0, 4) =~= b.subrange(0, 4));
    assert((b + c).subrange(4, 4 + n) =~= b.subrange(4, 4 + n));
}

/// Draining bytes as they arrive gives the same packets, in the same order,
/// as draining them all at once: whatever the reads, each whole frame is
/// taken exactly once, when its last byte has arrived, and the bytes of an
/// unfinished frame wait for the next read.
pub proof fn lemma_drain_incremental(b: Seq<u8>, c: Seq<u8>)
    requires
        drained(b).error is None,
    ensures
        drained(b + c).packets == drained(b).packets + drained(drained(b).rest + c).packets,
        drained(b + c).rest == drained(drained(b).rest + c).rest,
        drained(b + c).error == drained(drained(b).rest + c).error,
    decreases b.len(),
{
    reveal(drained);
    lemma_complete_len(b);
    match frame_status(b) {
        FrameStatus::Complete(p, n) => {
            lemma_status_extend(b, c);
            let b2 = b.subrange(n as int, b.len() as int);
            let bc = b + c;
            assert(bc.subrange(n as int, bc.len() as int) =~= b2 + c);
            lemma_drain_incremental(b2, c);
            let d = drained(b2);
            assert(drained(b).packets == seq![p] + d.packets);
            assert(drained(b + c).packets == seq![p] + drained(b2 + c).packets);
            assert(seq![p] + (d.packets + drained(d.rest + c).packets) =~= (seq![p] + d.packets)
                + drained(d.rest + c).packets);
        },
        _ => {
            assert(drained(b).packets =~= Seq::<PacketModel>::empty());
            assert(Seq::<PacketModel>::empty() + drained(b + c).packets =~= drained(b + c).packets);
        },
    }
}

/// Takes every whole frame off the front of a receive buffer, stopping at
/// an unfinished frame or at the first error. The packets come back in
/// order; the buffer keeps what was not taken.
pub fn drain_packets(buf: &mut Vec<u8>) -> (r: (Vec<Packet>, Option<WireError>))
    ensures
        packets_view(r.0@) == drained(old(buf)@).packets,
        final(buf)@ == drained(old(buf)@).rest,
        r.1 == drained(old(buf)@).error,
{
    let mut out: Vec<Packet> = Vec::new();
    assert(packets_view(out@) =~= Seq::<PacketModel>::empty());
    loop
        invariant
            drained(old(buf)@).packets == packets_view(out@) + drained(buf@).packets,
            drained(old(buf)@).rest == drained(buf@).rest,
            drained(old(buf)@).error == drained(buf@).error,
        decreases buf@.len(),
    {
        proof {
            lemma_complete_len(buf@);
            reveal(drained);
        }
        let ghost before = buf@;
        match take_packet(buf) {
            Ok(Some(p)) => {
                let ghost seen = packets_view(out@);
                out.push(p);
                proof {
                    assert(packets_view(out@) =~= seen.push(p@));
                    assert(drained(before).packets == seq![p@] + drained(buf@).packets);
                    assert(seen + (seq![p@] + drained(buf@).packets) =~= seen.push(p@) + drained(
                        buf@,
                    ).packets);
                }
            },
            Ok(None) => {
                assert(drained(buf@).packets =~= Seq::<PacketModel>::empty());
                assert(packets_view(out@) + Seq::<PacketModel>::empty() =~= packets_view(out@));
                return (out, None);
            },
            Err(e) => {
                assert(drained(buf@).packets =~= Seq::<PacketModel>::empty());
                assert(packets_view(out@) + Seq::<PacketModel>::empty() =~= packets_view(out@));
                return (out, Some(e));
            },
        }
    }
}

proof fn lemma_drained_incomplete(b: Seq<u8>)
    requires
        frame_status(b) is Incomplete,
    ensures
        drained(b).packets == Seq::<PacketModel>::empty(),
        drained(b).rest == b,
        drained(b).error is None,
{
    reveal(drained);
}

proof fn lemma_drained_empty()
    ensures
        drained(Seq::<u8>::empty()).packets == Seq::<PacketModel>::empty(),
        drained(Seq::<u8>::empty()).error is None,
{
    reveal(drained);
}

/// The drain of the frame of `p` followed by `rest`.
proof fn lemma_drain_frame(p: PacketModel, rest: Seq<u8>)
    requires
        encodable(p),
        packet_bytes(p).len() <= MAX_PAYLOAD_LEN,
    ensures
        drained(frame_bytes(p) + rest).packets == seq![p] + drained(rest).packets,
        drained(frame_bytes(p) + rest).rest == drained(rest).rest,
        drained(frame_bytes(p) + rest).error == drained(rest).error,
{
    reveal(drained);
    let b = frame_bytes(p) + rest;
    lemma_frame_round_trip(p, rest);
    assert(b.subrange(frame_bytes(p).len() as int, b.len() as int) =~= rest);
}

proof fn lemma_drain_two(pa: PacketModel, pb: PacketModel)
    requires
        encodable(pa),
        encodable(pb),
        packet_bytes(pa).len() <= MAX_PAYLOAD_LEN,
        packet_bytes(pb).len() <= MAX_PAYLOAD_LEN,
    ensures
        drained(frame_bytes(pa) + frame_bytes(pb)).packets == seq![pa, pb],
{
    let e = Seq::<u8>::empty();
    lemma_drain_frame(pb, e);
    assert(frame_bytes(pb) + e =~= frame_bytes(pb));
    lemma_drain_frame(pa, frame_bytes(pb));
    lemma_drained_empty();
    assert(seq![pa] + (seq![pb] + Seq::<PacketModel>::empty()) =~= seq![pa, pb]);
}

proof fn lemma_prefix_clean(pa: PacketModel, pb: PacketModel, k: int)
    requires
        encodable(pa),
        encodable(pb),
        packet_bytes(pa).len() <= MAX_PAYLOAD_LEN,
        packet_bytes(pb).len() <= MAX_PAYLOAD_LEN,
        0 <= k <= frame_bytes(pa).len() + frame_bytes(pb).len(),
    ensures
        drained((frame_bytes(pa) + frame_bytes(pb)).subrange(0, k)).error is None,
{
    let f1 = frame_bytes(pa);
    let f2 = frame_bytes(pb);
    let a = (f1 + f2).subrange(0, k);
    if k < f1.len() {
        assert(a =~= f1.subrange(0, k));
        lemma_frame_prefix_incomplete(pa, k);
        lemma_drained_incomplete(a);
    } else {
        let tail = f2.subrange(0, k - f1.len());
        assert(a =~= f1 + tail);
        lemma_drain_frame(pa, tail);
        if k - f1.len() < f2.len() {
            lemma_frame_prefix_incomplete(pb, k - f1.len());
            lemma_drained_incomplete(tail);
        } else {
            let e = Seq::<u8>::empty();
            assert(tail =~= f2 + e);
            lemma_drain_frame(pb, e);
            lemma_drained_empty();
        }
    }
}

/// Two packets sent back to back are dispatched exactly once each, in
/// order, however their bytes are split between two reads.
pub proof fn lemma_two_frames_any_split(pa: PacketModel, pb: PacketModel, k: int)
    requires
        encodable(pa),
        encodable(pb),
        packet_bytes(pa).len() <= MAX_PAYLOAD_LEN,
        packet_bytes(pb).len() <= MAX_PAYLOAD_LEN,
        0 <= k <= frame_bytes(pa).len() + frame_bytes(pb).len(),
    ensures
        ({
            let s = frame_bytes(pa) + frame_bytes(pb);
            let first = drained(s.subrange(0, k));
            &&& first.error is None
            &&& first.packets + drained(first.rest + s.subrange(k, s.len() as int)).packets
                == seq![pa, pb]
        }),
{
    let s = frame_bytes(pa) + frame_bytes(pb);
    let a = s.subrange(0, k);
    let c = s.subrange(k, s.len() as int);
    lemma_drain_two(pa, pb);
    lemma_prefix_clean(pa, pb, k);
    assert(a + c =~= s);
    lemma_drain_incremental(a, c);
}

} // verus!
