use asteria::config::{ClientConfig, HasNetworkConfig, NetworkConfig, ServerConfig, DEFAULT_PORT};
use asteria::key_codes::{key_name, parse_key_code, KEY_ESC, KEY_F12, KEY_LEFTCTRL, KEY_RIGHTMETA};
use asteria::protocol::{InputEventType, Message, Packet};
use asteria::replay::{
    linux_key, replay_packet, replay_typed, ReplayAction, ReplayButton, ReplayKey, ScrollAxis,
};
use asteria::transport::{LinkCommand, LinkEvent, LinkPhase, LinkPolicy, RECONNECT_DELAY_MS};
use std::collections::VecDeque;

/// Runs the link policy over a queue; `send_ok` and `connect_ok` script the outcomes.
fn run_link(
    packets: Vec<u32>,
    mut send_ok: impl FnMut(u32) -> bool,
    mut connect_ok: impl FnMut(usize) -> bool,
) -> (Vec<u32>, Vec<u32>, Vec<LinkCommand>) {
    let mut queue: VecDeque<u32> = packets.into_iter().collect();
    let mut policy = LinkPolicy::new();
    let mut cmd = policy.command();
    let mut delivered = Vec::new();
    let mut lost = Vec::new();
    let mut commands = vec![cmd];
    let mut connects = 0;
    for _ in 0..100 {
        cmd = match cmd {
            LinkCommand::Connect => {
                connects += 1;
                if connect_ok(connects) {
                    policy.step(LinkEvent::Connected)
                } else {
                    policy.step(LinkEvent::ConnectFailed)
                }
            }
            LinkCommand::SendNext => match queue.pop_front() {
                None => policy.step(LinkEvent::QueueClosed),
                Some(p) => {
                    if send_ok(p) {
                        delivered.push(p);
                        policy.step(LinkEvent::Sent)
                    } else {
                        lost.push(p);
                        policy.step(LinkEvent::SendFailed)
                    }
                }
            },
            LinkCommand::Wait { .. } => policy.step(LinkEvent::WaitElapsed),
            LinkCommand::Stop => break,
        };
        commands.push(cmd);
    }
    (delivered, lost, commands)
}

#[test]
fn failed_send_is_not_retried_and_the_rest_follow_in_order() {
    let mut failed_once = false;
    let (delivered, lost, commands) = run_link(
        vec![1, 2, 3, 4, 5],
        |p| {
            if p == 2 && !failed_once {
                failed_once = true;
                false
            } else {
                true
            }
        },
        |_| true,
    );
    assert_eq!(delivered, vec![1, 3, 4, 5]);
    assert_eq!(lost, vec![2]);
    assert_eq!(commands.iter().filter(|c| **c == LinkCommand::Connect).count(), 2);
    assert_eq!(*commands.last().unwrap(), LinkCommand::Stop);
}

#[test]
fn failed_reconnect_waits_and_keeps_packets_queued() {
    let (delivered, lost, commands) = run_link(vec![1, 2, 3], |p| p != 1, |n| n != 2 && n != 3);
    assert_eq!(lost, vec![1]);
    assert_eq!(delivered, vec![2, 3]);
    let waits = commands
        .iter()
        .filter(|c| **c == LinkCommand::Wait { millis: RECONNECT_DELAY_MS })
        .count();
    assert_eq!(waits, 2);
    assert_eq!(RECONNECT_DELAY_MS, 1000);
}

#[test]
fn first_connect_failure_stops_the_link() {
    let mut policy = LinkPolicy::new();
    assert_eq!(policy.phase(), LinkPhase::Connecting);
    assert_eq!(policy.command(), LinkCommand::Connect);
    assert_eq!(policy.step(LinkEvent::ConnectFailed), LinkCommand::Stop);
    assert_eq!(policy.step(LinkEvent::Connected), LinkCommand::Stop);
    assert_eq!(policy.phase(), LinkPhase::Stopped);
}

#[test]
fn key_table_maps_linux_codes() {
    assert_eq!(linux_key(30), Some(ReplayKey::Char('a')));
    assert_eq!(linux_key(11), Some(ReplayKey::Char('0')));
    assert_eq!(linux_key(97), Some(ReplayKey::Control));
    assert_eq!(linux_key(88), Some(ReplayKey::F12));
    assert_eq!(linux_key(272), None);
    assert_eq!(linux_key(999), None);
}

#[test]
fn typed_events_become_actions() {
    assert_eq!(
        replay_typed(&InputEventType::KeyPress { key_code: 28 }),
        vec![ReplayAction::Key { key: ReplayKey::Return, press: true }]
    );
    assert_eq!(replay_typed(&InputEventType::KeyRelease { key_code: 500 }), vec![]);
    assert_eq!(
        replay_typed(&InputEventType::MouseMove { x: -4, y: 7 }),
        vec![ReplayAction::MoveBy { dx: -4, dy: 7 }]
    );
    assert_eq!(
        replay_typed(&InputEventType::MouseButton { button: 1, pressed: true }),
        vec![ReplayAction::Button { button: ReplayButton::Left, press: true }]
    );
    assert_eq!(
        replay_typed(&InputEventType::MouseButton { button: 3, pressed: false }),
        vec![ReplayAction::Button { button: ReplayButton::Middle, press: false }]
    );
    assert_eq!(replay_typed(&InputEventType::MouseButton { button: 0, pressed: true }), vec![]);
    assert_eq!(
        replay_typed(&InputEventType::MouseScroll { dx: 2, dy: -1 }),
        vec![
            ReplayAction::Scroll { amount: 2, axis: ScrollAxis::Horizontal },
            ReplayAction::Scroll { amount: -1, axis: ScrollAxis::Vertical },
        ]
    );
    assert_eq!(replay_typed(&InputEventType::MouseScroll { dx: 0, dy: 0 }), vec![]);
}

#[test]
fn raw_events_become_actions() {
    let p = Packet::input_event("EV_KEY".to_string(), 1, 1);
    assert_eq!(replay_packet(&p), vec![ReplayAction::Key { key: ReplayKey::Escape, press: true }]);
    let p = Packet::input_event("EV_KEY".to_string(), 1, 2);
    assert_eq!(replay_packet(&p), vec![]);
    let p = Packet::input_event("EV_REL".to_string(), 1, -5);
    assert_eq!(replay_packet(&p), vec![ReplayAction::MoveBy { dx: 0, dy: -5 }]);
    let p = Packet::input_event("EV_REL".to_string(), 8, 1);
    assert_eq!(replay_packet(&p), vec![ReplayAction::Scroll { amount: 1, axis: ScrollAxis::Vertical }]);
    let p = Packet::input_event("EV_REL".to_string(), 6, 3);
    assert_eq!(replay_packet(&p), vec![ReplayAction::Scroll { amount: 3, axis: ScrollAxis::Horizontal }]);
    let p = Packet::input_event("EV_ABS".to_string(), 0, 100);
    assert_eq!(replay_packet(&p), vec![]);
    let p = Packet::input_event("PING".to_string(), 0, 0);
    assert_eq!(replay_packet(&p), vec![]);
    let p = Packet::new(Message::InputEventTyped(InputEventType::KeyPress { key_code: 57 }));
    assert_eq!(replay_packet(&p), vec![ReplayAction::Key { key: ReplayKey::Space, press: true }]);
}

#[test]
fn key_names() {
    assert_eq!(key_name(KEY_ESC), "Escape");
    assert_eq!(key_name(KEY_LEFTCTRL), "Left Ctrl");
    assert_eq!(key_name(KEY_RIGHTMETA), "Right Meta/Super");
    assert_eq!(key_name(KEY_F12), "F12");
    assert_eq!(key_name(0x1D), "Left Ctrl");
    assert_eq!(key_name(30), "Unknown");
}

#[test]
fn default_configuration() {
    let n = NetworkConfig::default();
    assert_eq!(n.host, "0.0.0.0");
    assert_eq!(n.port, 3100);
    assert_eq!(DEFAULT_PORT, 3100);
    let s = ServerConfig::default();
    assert_eq!(s.network().port, 3100);
    let c = ClientConfig::default();
    assert_eq!(c.network().host, "0.0.0.0");
    assert_eq!(ServerConfig::file_name(), "server.toml");
    assert_eq!(ClientConfig::file_name(), "client.toml");
}

#[test]
fn key_codes_from_the_command_line() {
    assert_eq!(parse_key_code("0x1D"), Some(29));
    assert_eq!(parse_key_code("0x1d"), Some(29));
    assert_eq!(parse_key_code("29"), Some(29));
    assert_eq!(parse_key_code("+7"), Some(7));
    assert_eq!(parse_key_code("0x"), None);
    assert_eq!(parse_key_code(""), None);
    assert_eq!(parse_key_code("1D"), None);
    assert_eq!(parse_key_code("0xG"), None);
    assert_eq!(parse_key_code("-1"), None);
    assert_eq!(parse_key_code("4294967295"), Some(u32::MAX));
    assert_eq!(parse_key_code("4294967296"), None);
    assert_eq!(parse_key_code("0xffffffff"), Some(u32::MAX));
    assert_eq!(parse_key_code("0x100000000"), None);
    assert_eq!(parse_key_code("0x1D"), u32::from_str_radix("1D", 16).ok());
}
