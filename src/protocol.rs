//! Packet and event types exchanged between the capturing client and the
//! replaying server, with their mathematical models.
use crate::text::same_text;
use vstd::prelude::*;

verus! {

/// An event in its legacy, raw form: an evdev-style `(type, code, value)` triple.
#[derive(Debug, Clone)]
pub struct InputEvent {
    pub event_type: String,
    pub code: u16,
    pub value: i32,
}

/// A structured input event. Key codes and buttons use the Linux
/// input-event-code numbering whatever the platform.
#[derive(Debug, Clone, Copy, PartialEq, Eq, Structural)]
pub enum InputEventType {
    KeyPress { key_code: u16 },
    KeyRelease { key_code: u16 },
    MouseMove { x: i32, y: i32 },
    MouseButton { button: u8, pressed: bool },
    MouseScroll { dx: i32, dy: i32 },
}

/// What a packet carries: a raw event or a structured one.
#[derive(Debug, Clone)]
pub enum Message {
    InputEvent(InputEvent),
    InputEventTyped(InputEventType),
}

/// The unit of transmission.
#[derive(Debug, Clone)]
pub struct Packet {
    pub id: String,
    pub message: Message,
    pub timestamp: u64,
}

/// Model of an [`InputEvent`]: its text as characters.
pub struct InputEventModel {
    pub event_type: Seq<char>,
    pub code: u16,
    pub value: i32,
}

/// Model of a [`Message`].
pub enum MessageModel {
    Raw(InputEventModel),
    Typed(InputEventType),
}

/// Model of a [`Packet`].
pub struct PacketModel {
    pub id: Seq<char>,
    pub message: MessageModel,
    pub timestamp: u64,
}

impl View for InputEvent {
    type V = InputEventModel;

    open spec fn view(&self) -> InputEventModel {
        InputEventModel { event_type: self.event_type@, code: self.code, value: self.value }
    }
}

impl View for Message {
    type V = MessageModel;

    open spec fn view(&self) -> MessageModel {
        match self {
            Message::InputEvent(e) => MessageModel::Raw(e@),
            Message::InputEventTyped(t) => MessageModel::Typed(*t),
        }
    }
}

impl View for Packet {
    type V = PacketModel;

    open spec fn view(&self) -> PacketModel {
        PacketModel { id: self.id@, message: self.message@, timestamp: self.timestamp }
    }
}

impl PartialEq for InputEvent {
    fn eq(&self, other: &InputEvent) -> (r: bool) {
        self.code == other.code && self.value == other.value && same_text(
            self.event_type.as_str(),
            other.event_type.as_str(),
        )
    }
}

impl vstd::std_specs::cmp::PartialEqSpecImpl for InputEvent {
    open spec fn obeys_eq_spec() -> bool {
        true
    }

    open spec fn eq_spec(&self, other: &InputEvent) -> bool {
        self@ == other@
    }
}

impl PartialEq for Message {
    fn eq(&self, other: &Message) -> (r: bool) {
        match (self, other) {
            (Message::InputEvent(a), Message::InputEvent(b)) => a == b,
            (Message::InputEventTyped(a), Message::InputEventTyped(b)) => a == b,
            _ => false,
        }
    }
}

impl vstd::std_specs::cmp::PartialEqSpecImpl for Message {
    open spec fn obeys_eq_spec() -> bool {
        true
    }

    open spec fn eq_spec(&self, other: &Message) -> bool {
        self@ == other@
    }
}

impl PartialEq for Packet {
    fn eq(&self, other: &Packet) -> (r: bool) {
        self.timestamp == other.timestamp && same_text(self.id.as_str(), other.id.as_str())
            && self.message == other.message
    }
}

impl vstd::std_specs::cmp::PartialEqSpecImpl for Packet {
    open spec fn obeys_eq_spec() -> bool {
        true
    }

    open spec fn eq_spec(&self, other: &Packet) -> bool {
        self@ == other@
    }
}

/// Relies on uuid's `Uuid::new_v4` and its `Display`: a random identifier,
/// written in the 36-character hyphenated form.
#[verifier::external_body]
fn fresh_packet_id() -> (r: String)
    ensures
        r@.len() == 36,
{
    uuid::Uuid::new_v4().to_string()
}

/// Relies on std's `SystemTime::now`: the whole seconds since the Unix epoch,
/// or `None` when the clock reads earlier than the epoch.
#[verifier::external_body]
fn seconds_since_epoch() -> (r: Option<u64>) {
    std::time::SystemTime::now().duration_since(std::time::UNIX_EPOCH).ok().map(|d| d.as_secs())
}

impl Packet {
    /// A packet carrying `message`, with a fresh identifier and the current
    /// time (zero when the clock reads earlier than the epoch).
    pub fn new(message: Message) -> (r: Packet)
        ensures
            r.message == message,
            r.id@.len() == 36,
    {
        let timestamp = match seconds_since_epoch() {
            Some(secs) => secs,
            None => 0,
        };
        Packet { id: fresh_packet_id(), message, timestamp }
    }

    /// A packet carrying the raw event `(event_type, code, value)`.
    pub fn input_event(event_type: String, code: u16, value: i32) -> (r: Packet)
        ensures
            r.message == (Message::InputEvent(InputEvent { event_type, code, value })),
            r@.message == (MessageModel::Raw(
                InputEventModel { event_type: event_type@, code, value },
            )),
            r.id@.len() == 36,
    {
        Packet::new(Message::InputEvent(InputEvent { event_type, code, value }))
    }
}

} // verus!
