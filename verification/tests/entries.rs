use ffxiv_reader::messages::entries::{decode_entry, Entry, RawEntry, RawEntryParts};
use ffxiv_reader::messages::parts::Part;
use ffxiv_reader::messages::{Message, MessageType};

fn text(s: &str) -> Part {
    Part::PlainText(s.to_string())
}

fn blob(header: [u8; 8], rest: &[u8]) -> Vec<u8> {
    let mut b = header.to_vec();
    b.extend_from_slice(rest);
    b
}

#[test]
fn split_fails_below_eight_bytes() {
    for len in 0..8usize {
        for fill in [0x00u8, 0x3A, 0xFF] {
            let raw = RawEntry::new(vec![fill; len]);
            assert_eq!(raw.as_parts(), None);
            assert_eq!(raw.get_header(), None);
        }
    }
}

#[test]
fn split_fails_without_delimiter() {
    assert_eq!(RawEntry::new(vec![0x3A; 8]).as_parts(), None);
    assert_eq!(RawEntry::new(blob([0x3A; 8], b"Alice hello")).as_parts(), None);
}

#[test]
fn split_at_first_delimiter_after_header() {
    let raw = RawEntry::new(blob([1, 2, 3, 4, 0x3A, 6, 7, 8], b"Alice:hello:world"));
    assert_eq!(
        raw.as_parts(),
        Some(RawEntryParts {
            header: vec![1, 2, 3, 4, 0x3A, 6, 7, 8],
            sender: b"Alice".to_vec(),
            message: b"hello:world".to_vec(),
        })
    );
    assert_eq!(raw.get_header(), Some(vec![1, 2, 3, 4, 0x3A, 6, 7, 8]));
}

#[test]
fn split_with_empty_sender_and_message() {
    let raw = RawEntry::new(blob([0; 8], b":"));
    assert_eq!(
        raw.as_parts(),
        Some(RawEntryParts { header: vec![0; 8], sender: Vec::new(), message: Vec::new() })
    );
}

#[test]
fn entry_reads_header_little_endian() {
    let parts = RawEntryParts {
        header: vec![0x78, 0x56, 0x34, 0x12, 10, 0, 0, 0],
        sender: Vec::new(),
        message: b"hi".to_vec(),
    };
    let entry = parts.as_entry();
    assert_eq!(
        entry,
        Entry {
            message_type: MessageType::Say,
            timestamp: 0x12345678,
            sender: None,
            message: Message::new(vec![text("hi")]),
        }
    );
}

#[test]
fn entry_sender_from_text_is_a_name() {
    let parts = RawEntryParts {
        header: vec![1, 0, 0, 0, 14, 0, 0, 0],
        sender: b"Alice".to_vec(),
        message: Vec::new(),
    };
    let entry = parts.as_entry();
    assert_eq!(entry.message_type, MessageType::Party);
    assert_eq!(entry.timestamp, 1);
    assert_eq!(
        entry.sender,
        Some(Part::Name {
            real_name: Box::new(text("Alice")),
            display_name: Box::new(text("Alice")),
        })
    );
    assert_eq!(entry.message.parts, Vec::<Part>::new());
}

#[test]
fn entry_sender_that_is_no_text_stays_bytes() {
    assert_eq!(RawEntryParts::decode_sender(&[0xFF, 0x00]), Some(Part::Bytes(vec![0xFF, 0x00])));
    assert_eq!(RawEntryParts::decode_sender(&[]), None);
}

#[test]
fn entry_sender_from_name_structure() {
    let mut b: Vec<u8> = vec![0x02, 0x27, 12, 1, 1, 1, 1, 1, 1];
    b.extend_from_slice(b"Alice");
    b.push(1);
    b.extend_from_slice(b"Ally!");
    b.extend_from_slice(&[0x02, 0x27, 1, 0x03]);
    assert_eq!(
        RawEntryParts::decode_sender(&b),
        Some(Part::Name {
            real_name: Box::new(text("Alice")),
            display_name: Box::new(text("Ally!")),
        })
    );
}

#[test]
fn decode_entry_goes_from_blob_to_entry() {
    let entry = decode_entry(blob([0, 1, 0, 0, 200, 0, 0, 0], b"Bob:see you")).unwrap();
    assert_eq!(entry.timestamp, 256);
    assert_eq!(entry.message_type, MessageType::Unknown(200));
    assert_eq!(
        entry.sender,
        Some(Part::Name { real_name: Box::new(text("Bob")), display_name: Box::new(text("Bob")) })
    );
    assert_eq!(entry.message, Message::new(vec![text("see you")]));
    assert_eq!(decode_entry(b"short".to_vec()), None);
}
