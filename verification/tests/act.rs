use ffxiv_reader::act::{split_fields, ActReader};
use ffxiv_reader::numbers::{read_decimal, read_hex};
use ffxiv_reader::messages::parts::Part;
use ffxiv_reader::messages::MessageType;

fn text(s: &str) -> Part {
    Part::PlainText(s.to_string())
}

#[test]
fn reader_keeps_its_settings() {
    let r = ActReader::new("logs/chat.log", true);
    assert_eq!(r.path, "logs/chat.log");
    assert!(r.stop);
}

#[test]
fn line_decodes_to_entry() {
    let line = b"00|2018-01-01T00:00:00+00:00|000A|Alice|Hello|world|0123abcd\n";
    let entry = ActReader::decode_line(line).unwrap();
    assert_eq!(entry.timestamp, 1514764800);
    assert_eq!(entry.message_type, MessageType::Say);
    assert_eq!(entry.sender, None);
    assert_eq!(entry.message.parts, vec![text("Hello|world")]);
}

#[test]
fn line_time_zone_is_respected() {
    let line = b"00|2018-01-01T01:00:00+01:00|e|x|m|h";
    let entry = ActReader::decode_line(line).unwrap();
    assert_eq!(entry.timestamp, 1514764800);
    assert_eq!(entry.message_type, MessageType::Party);
}

#[test]
fn category_is_the_low_byte() {
    let line = b"00|1970-01-01T00:00:10Z|20BA||dead|h";
    let entry = ActReader::decode_line(line).unwrap();
    assert_eq!(entry.timestamp, 10);
    assert_eq!(entry.message_type, MessageType::BattleDeath);
    assert_eq!(entry.message.parts, vec![text("dead")]);
}

#[test]
fn line_with_name_structure_as_sender() {
    let mut line = b"00|1970-01-01T00:00:00Z|0A|".to_vec();
    line.extend_from_slice(&[0x02, 0x27, 12, 1, 1, 1, 1, 1, 1]);
    line.extend_from_slice(b"Alice");
    line.push(1);
    line.extend_from_slice(b"Alice");
    line.extend_from_slice(&[0x02, 0x27, 1, 0x03]);
    line.extend_from_slice(b"|hi|h");
    let entry = ActReader::decode_line(&line).unwrap();
    assert_eq!(
        entry.sender,
        Some(Part::Name {
            real_name: Box::new(text("Alice")),
            display_name: Box::new(text("Alice")),
        })
    );
}

#[test]
fn lines_that_hold_no_chat() {
    assert_eq!(ActReader::decode_line(b"01|2018-01-01T00:00:00+00:00|000A|a|m|h"), None);
    assert_eq!(ActReader::decode_line(b"00|yesterday|000A|a|m|h"), None);
    assert_eq!(ActReader::decode_line(b"00|2018-01-01T00:00:00+00:00|xyz|a|m|h"), None);
    assert_eq!(ActReader::decode_line(b"00|2018-01-01T00:00:00+00:00|000A|a"), None);
    assert_eq!(ActReader::decode_line(b"00|2018-01-01T00:00:00+00:00|000A"), None);
    assert_eq!(ActReader::decode_line(b""), None);
    assert_eq!(ActReader::decode_line(b"000|2018-01-01T00:00:00+00:00|000A|a|m|h"), None);
}

#[test]
fn message_without_closing_field_is_empty() {
    let entry = ActReader::decode_line(b"00|1970-01-01T00:00:00Z|0A|a|only").unwrap();
    assert_eq!(entry.message.parts, Vec::<Part>::new());
}

#[test]
fn fields_of_a_line() {
    let f = split_fields(b"a|bb||d|e|f|g").unwrap();
    assert_eq!(f.flag, b"a".to_vec());
    assert_eq!(f.time, b"bb".to_vec());
    assert_eq!(f.kind, Vec::<u8>::new());
    assert_eq!(f.sender, b"d".to_vec());
    assert_eq!(f.message, b"e|f".to_vec());
    assert!(split_fields(b"a|b|c").is_none());
    let f = split_fields(b"||||").unwrap();
    assert_eq!(f.message, Vec::<u8>::new());
}

#[test]
fn entry_from_read_fields() {
    let entry = ActReader::entry_from_fields(0x1_0000_0005, 0x10C, b"nobody", b"text");
    assert_eq!(entry.timestamp, 5);
    assert_eq!(entry.message_type, MessageType::Tell);
    assert_eq!(entry.sender, None);
    assert_eq!(entry.message.parts, vec![text("text")]);
    let entry = ActReader::entry_from_fields(-1, 0, b"", b"");
    assert_eq!(entry.timestamp, u32::MAX);
    assert_eq!(entry.message_type, MessageType::NoCategory);
}

#[test]
fn hexadecimal_numbers() {
    assert_eq!(read_hex(b"0"), Some(0));
    assert_eq!(read_hex(b"ff"), Some(255));
    assert_eq!(read_hex(b"FF"), Some(255));
    assert_eq!(read_hex(b"+1a"), Some(26));
    assert_eq!(read_hex(b"000000000000000000000A"), Some(10));
    assert_eq!(read_hex(b"ffffffffffffffff"), Some(u64::MAX));
    assert_eq!(read_hex(b"10000000000000000"), None);
    assert_eq!(read_hex(b""), None);
    assert_eq!(read_hex(b"+"), None);
    assert_eq!(read_hex(b"-1"), None);
    assert_eq!(read_hex(b"1g"), None);
    assert_eq!(read_hex(b" 1"), None);
    assert_eq!(read_hex(b"++1"), None);
}

#[test]
fn decimal_numbers() {
    assert_eq!(read_decimal(b"0"), Some(0));
    assert_eq!(read_decimal(b"007"), Some(7));
    assert_eq!(read_decimal(b"+42"), Some(42));
    assert_eq!(read_decimal(b"18446744073709551615"), Some(u64::MAX));
    assert_eq!(read_decimal(b"18446744073709551616"), None);
    assert_eq!(read_decimal(b"99999999999999999999"), None);
    assert_eq!(read_decimal(b"1a"), None);
    assert_eq!(read_decimal(b""), None);
    assert_eq!(read_decimal(b"1 "), None);
}
