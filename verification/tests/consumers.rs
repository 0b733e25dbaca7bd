use ffxiv_reader::alert::{alert_due, is_defeat_notice, starts_with};
use ffxiv_reader::filter::{is_party_talk, sender_names, strip_party_bytes};
use ffxiv_reader::messages::entries::Entry;
use ffxiv_reader::messages::parts::Part;
use ffxiv_reader::messages::{Message, MessageType};

fn text(s: &str) -> Part {
    Part::PlainText(s.to_string())
}

fn entry(message_type: MessageType, parts: Vec<Part>) -> Entry {
    Entry { message_type, timestamp: 0, sender: None, message: Message::new(parts) }
}

#[test]
fn defeat_notices() {
    assert!(is_defeat_notice(&entry(
        MessageType::BattleDeath,
        vec![text("You are defeated by the striking dummy.")]
    )));
    assert!(is_defeat_notice(&entry(
        MessageType::BattleSystemMessages,
        vec![Part::Icon(1), text(" is defeated by the striking dummy."), text("x")]
    )));
    assert!(!is_defeat_notice(&entry(
        MessageType::Say,
        vec![text("You are defeated by the striking dummy.")]
    )));
    assert!(!is_defeat_notice(&entry(
        MessageType::BattleDeath,
        vec![text("Alice"), text(" is defeated by the striking dummy.")]
    )));
    assert!(!is_defeat_notice(&entry(MessageType::BattleDeath, vec![text("You are defeated")])));
    assert!(!is_defeat_notice(&entry(MessageType::BattleDeath, vec![Part::Icon(3)])));
    assert!(!is_defeat_notice(&entry(MessageType::BattleDeath, Vec::new())));
}

#[test]
fn prefixes() {
    assert!(starts_with(b"abc", b"ab"));
    assert!(starts_with(b"abc", b""));
    assert!(starts_with(b"abc", b"abc"));
    assert!(!starts_with(b"abc", b"abcd"));
    assert!(!starts_with(b"abc", b"b"));
}

#[test]
fn alerts_keep_a_pause() {
    assert!(alert_due(100, 50, None));
    assert!(!alert_due(50, 50, None));
    assert!(!alert_due(49, 50, None));
    assert!(alert_due(131, 50, Some(100)));
    assert!(!alert_due(130, 50, Some(100)));
    assert!(!alert_due(90, 50, Some(100)));
    assert!(alert_due(i64::MAX, 0, Some(i64::MIN)));
}

#[test]
fn categories_of_party_talk() {
    assert!(is_party_talk(MessageType::Party));
    assert!(is_party_talk(MessageType::StandardEmotes));
    assert!(is_party_talk(MessageType::CustomEmotes));
    assert!(!is_party_talk(MessageType::Say));
    assert!(!is_party_talk(MessageType::Party2));
    assert!(!is_party_talk(MessageType::Unknown(14)));
}

#[test]
fn party_glyph_is_taken_off() {
    assert_eq!(strip_party_bytes("\u{e090}Some Name".as_bytes()), b"Some Name");
    assert_eq!(strip_party_bytes("\u{e097}X".as_bytes()), b"X");
    assert_eq!(strip_party_bytes("\u{e098}X".as_bytes()), "\u{e098}X".as_bytes());
    assert_eq!(strip_party_bytes(b"Some Name"), b"Some Name");
    assert_eq!(strip_party_bytes(&[0xEE, 0x82]), &[0xEE, 0x82]);
    assert_eq!(strip_party_bytes(&[0xEE]), &[0xEE]);
    assert_eq!(strip_party_bytes(&[]), &[] as &[u8]);
    assert_eq!(strip_party_bytes(&[0xEE, 0x82, 0x90]), &[] as &[u8]);
}

#[test]
fn names_of_a_sender() {
    let name = Part::Name {
        real_name: Box::new(text("Real")),
        display_name: Box::new(Part::Multi(vec![Box::new(Part::Icon(1)), Box::new(text("Shown"))])),
    };
    assert_eq!(
        sender_names(&name, &[]),
        Some(("Real".to_string(), "<Icon: 1>Shown".to_string()))
    );
    assert_eq!(sender_names(&text("Bob"), &[]), Some(("Bob".to_string(), "Bob".to_string())));
    assert_eq!(sender_names(&Part::Icon(1), &[]), None);
}

#[test]
fn kept_codes_are_looked_up_again() {
    assert_eq!(MessageType::Unknown(10).reclassify(), MessageType::Say);
    assert_eq!(MessageType::Unknown(200).reclassify(), MessageType::Unknown(200));
    assert_eq!(MessageType::Tell.reclassify(), MessageType::Tell);
}
