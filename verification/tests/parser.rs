use ffxiv_reader::messages::parser::MessageParser;
use ffxiv_reader::messages::parts::{
    AutoTranslatePart, FormattedPart, IconPart, MultiPart, NamePart, Part, PercentagePart,
    PlainTextPart, SelectablePart,
};
use ffxiv_reader::messages::text::{read_var_be, read_var_le};
use ffxiv_reader::messages::{DeterminesLength, HasMarkerBytes, Parses, VerifiesData};

fn text(s: &str) -> Part {
    Part::PlainText(s.to_string())
}

fn alice_name() -> Vec<u8> {
    let mut b: Vec<u8> = vec![0x02, 0x27, 12, 1, 1, 1, 1, 1, 1];
    b.extend_from_slice(b"Alice");
    b.push(1);
    b.extend_from_slice(b"Alice");
    b.extend_from_slice(&[0x02, 0x27, 1, 0x03]);
    b
}

fn wrap(id: u8, display: &[u8]) -> Vec<u8> {
    let mut b: Vec<u8> = vec![0x02, id, 2, 0xAA, 0xBB];
    b.extend_from_slice(display);
    b.extend_from_slice(&[0x02, id, 1, 0x03]);
    b
}

#[test]
fn plain_text_is_one_fragment() {
    assert_eq!(MessageParser::parse(b"Hello"), vec![text("Hello")]);
}

#[test]
fn empty_message_has_no_fragments() {
    assert_eq!(MessageParser::parse(b""), Vec::<Part>::new());
}

#[test]
fn bytes_that_are_no_text_stay_bytes() {
    assert_eq!(MessageParser::parse(&[0xFF, 0xFE]), vec![Part::Bytes(vec![0xFF, 0xFE])]);
}

#[test]
fn auto_translate_decodes_big_endian_id() {
    let bytes = [0x02, 0x2E, 0x05, 0x01, 0x00, 0x01, 0x02, 0x03];
    assert_eq!(
        AutoTranslatePart::parse(&bytes),
        Some(Part::AutoTranslate { category: 1, id: 0x0102 })
    );
    assert_eq!(MessageParser::parse(&bytes), vec![Part::AutoTranslate { category: 1, id: 0x0102 }]);
}

#[test]
fn auto_translate_with_two_id_bytes() {
    let bytes = [0x02, 0x2E, 0x04, 0x07, 0x12, 0x34, 0x03];
    assert_eq!(
        AutoTranslatePart::parse(&bytes),
        Some(Part::AutoTranslate { category: 7, id: 0x1234 })
    );
}

#[test]
fn auto_translate_with_one_id_byte() {
    let bytes = [0x02, 0x2E, 0x03, 0x02, 0x09, 0x03];
    assert_eq!(
        AutoTranslatePart::parse(&bytes),
        Some(Part::AutoTranslate { category: 2, id: 9 })
    );
    assert_eq!(AutoTranslatePart::determine_length(&bytes), 6);
}

#[test]
fn auto_translate_rejects_short_or_overlong() {
    assert_eq!(AutoTranslatePart::parse(&[0x02, 0x2E, 0x03, 0x02, 0x09]), None);
    assert_eq!(AutoTranslatePart::parse(&[0x02, 0x2E, 0x09, 0x02, 0x09, 0x03]), None);
    assert_eq!(AutoTranslatePart::parse(&[0x02, 0x2E, 0x01, 0x02, 0x09, 0x03]), None);
    let mut long: Vec<u8> = vec![0x02, 0x2E, 11, 1];
    long.extend_from_slice(&[1, 2, 3, 4, 5, 6, 7, 8, 9]);
    long.push(0x03);
    assert_eq!(AutoTranslatePart::parse(&long), None);
}

#[test]
fn auto_translate_inside_text() {
    let mut bytes = b"ab".to_vec();
    bytes.extend_from_slice(&[0x02, 0x2E, 0x03, 0x02, 0x09, 0x03]);
    bytes.extend_from_slice(b"cd");
    assert_eq!(
        MessageParser::parse(&bytes),
        vec![text("ab"), Part::AutoTranslate { category: 2, id: 9 }, text("cd")]
    );
}

#[test]
fn name_with_plain_renderings() {
    let bytes = alice_name();
    assert_eq!(bytes.len(), 24);
    let expected = Part::Name {
        real_name: Box::new(text("Alice")),
        display_name: Box::new(text("Alice")),
    };
    assert_eq!(NamePart::parse(&bytes).as_ref(), Some(&expected));
    assert_eq!(NamePart::determine_length(&bytes), 24);
    assert_eq!(MessageParser::parse(&bytes).first(), Some(&expected));
    assert_eq!(MessageParser::parse(&bytes).len(), 1);
    assert_eq!(expected, NamePart::from_names("Alice", "Alice"));
}

#[test]
fn name_with_short_skip() {
    let mut b: Vec<u8> = vec![0x02, 0x27, 6, 0x03];
    b.extend_from_slice(b"Bob!");
    b.push(1);
    b.extend_from_slice(b"Bobby Tables");
    b.extend_from_slice(&[0x02, 0x27, 1, 0x03]);
    assert!(b.len() >= 22);
    let expected = Part::Name {
        real_name: Box::new(text("\u{3}Bob!")),
        display_name: Box::new(text("Bobby Tables")),
    };
    assert_eq!(NamePart::parse(&b), Some(expected));
}

#[test]
fn name_without_closing_marker_is_plain() {
    let mut b: Vec<u8> = vec![0x02, 0x27, 12, 1, 1, 1, 1, 1, 1];
    b.extend_from_slice(b"AliceXAliceYYYYY");
    assert_eq!(NamePart::parse(&b), None);
    let parts = MessageParser::parse(&b);
    assert_eq!(parts.len(), 1);
    assert!(matches!(parts[0], Part::PlainText(_)));
}

#[test]
fn name_display_may_hold_structures() {
    let mut b: Vec<u8> = vec![0x02, 0x27, 12, 1, 1, 1, 1, 1, 1];
    b.extend_from_slice(b"Alice");
    b.push(1);
    b.extend_from_slice(&[0x02, 0x12, 0x02, 0x05, 0x03]);
    b.extend_from_slice(b"Alice");
    b.extend_from_slice(&[0x02, 0x27, 1, 0x03]);
    let expected = Part::Name {
        real_name: Box::new(text("Alice")),
        display_name: Box::new(Part::Multi(vec![Box::new(Part::Icon(5)), Box::new(text("Alice"))])),
    };
    assert_eq!(NamePart::parse(&b), Some(expected));
}

#[test]
fn selectable_holds_info_and_display() {
    let bytes = wrap(0x13, b"item");
    assert_eq!(
        SelectablePart::parse(&bytes),
        Some(Part::Selectable { info: vec![0xAA], display: Box::new(text("item")) })
    );
    assert_eq!(SelectablePart::determine_length(&bytes), bytes.len());
}

#[test]
fn formatted_holds_info_and_display() {
    let bytes = wrap(0x1A, b"slanted");
    assert_eq!(
        FormattedPart::parse(&bytes),
        Some(Part::Formatted { info: vec![0xAA], display: Box::new(text("slanted")) })
    );
    assert_eq!(MessageParser::parse(&bytes).len(), 1);
}

#[test]
fn selectable_nested_in_selectable() {
    let inner = wrap(0x13, b"in");
    let mut display = b"a".to_vec();
    display.extend_from_slice(&inner);
    display.extend_from_slice(b"b");
    let outer = wrap(0x13, &display);
    let expected = Part::Selectable {
        info: vec![0xAA],
        display: Box::new(Part::Multi(vec![
            Box::new(text("a")),
            Box::new(Part::Selectable { info: vec![0xAA], display: Box::new(text("in")) }),
            Box::new(text("b")),
        ])),
    };
    assert_eq!(MessageParser::parse(&outer), vec![expected]);
}

#[test]
fn selectable_nested_four_deep() {
    let mut bytes = b"x".to_vec();
    let mut expected = text("x");
    for _ in 0..4 {
        bytes = wrap(0x13, &bytes);
        expected = Part::Selectable { info: vec![0xAA], display: Box::new(expected) };
    }
    assert_eq!(MessageParser::parse(&bytes), vec![expected]);
}

#[test]
fn selectable_takes_last_marker_and_name_takes_first() {
    let mut two = wrap(0x13, b"a");
    two.extend_from_slice(&wrap(0x13, b"b"));
    assert_eq!(SelectablePart::determine_length(&two), two.len());
    let mut names = alice_name();
    names.extend_from_slice(&alice_name());
    assert_eq!(NamePart::determine_length(&names), 24);
    assert_eq!(MessageParser::parse(&names).len(), 2);
}

#[test]
fn percentage_is_four_bytes() {
    assert_eq!(PercentagePart::parse(&[0x02, 0x1D, 67, 0x03]), Some(Part::Percentage(67)));
    assert_eq!(PercentagePart::parse(&[0x02, 0x1D, 67, 0x03, 0x00]), None);
    assert_eq!(PercentagePart::determine_length(&[]), 4);
    let mut bytes = b"(+".to_vec();
    bytes.extend_from_slice(&[0x02, 0x1D, 67, 0x03]);
    bytes.extend_from_slice(b"%)");
    assert_eq!(
        MessageParser::parse(&bytes),
        vec![text("(+"), Part::Percentage(67), text("%)")]
    );
}

#[test]
fn percentage_cut_short_is_plain() {
    assert_eq!(MessageParser::parse(&[0x02, 0x1D, 67]), vec![text("\u{2}\u{1d}C")]);
}

#[test]
fn icon_decodes_little_endian_id() {
    assert_eq!(IconPart::parse(&[0x02, 0x12, 0x02, 0x05, 0x03]), Some(Part::Icon(5)));
    assert_eq!(IconPart::determine_length(&[0x02, 0x12, 0x02, 0x05, 0x03]), 5);
    assert_eq!(
        IconPart::parse(&[0x02, 0x12, 0x03, 0x34, 0x12, 0x03]),
        Some(Part::Icon(0x1234))
    );
    assert_eq!(IconPart::parse(&[0x02, 0x12, 0x02, 0x05, 0x04]), None);
}

#[test]
fn unknown_structure_is_plain() {
    assert_eq!(MessageParser::parse(&[0x02, 0x01, b'a']), vec![text("\u{2}\u{1}a")]);
    assert_eq!(MessageParser::parse(&[0x02]), vec![text("\u{2}")]);
    assert_eq!(MessageParser::parse(&[0x02, 0x2E]), vec![text("\u{2}.")]);
    assert_eq!(MessageParser::parse(&[0x02, 0x12]), vec![text("\u{2}\u{12}")]);
    assert_eq!(MessageParser::parse(&[0x02, 0x27]), vec![text("\u{2}'")]);
    assert_eq!(MessageParser::parse(&[0x02, 0x13]), vec![text("\u{2}\u{13}")]);
}

#[test]
fn parse_structure_gives_length_and_fragment() {
    let mut bytes = vec![0x02, 0x1D, 67, 0x03];
    bytes.extend_from_slice(b"tail");
    assert_eq!(MessageParser::parse_structure(&bytes), Some((4, Part::Percentage(67))));
    assert_eq!(MessageParser::parse_structure(b"plain"), None);
    assert_eq!(MessageParser::parse_structure(&[0x02]), None);
}

#[test]
fn every_short_input_is_decoded() {
    for a in 0..=255u8 {
        for b in [0x00u8, 0x02, 0x03, 0x12, 0x13, 0x1A, 0x1D, 0x27, 0x2E, 0xFF] {
            let input = [0x02, a, b, 0x02, a, 0x03];
            let parts = MessageParser::parse(&input);
            assert!(!parts.is_empty());
        }
    }
}

#[test]
fn markers_of_the_kinds() {
    assert_eq!(NamePart::marker_bytes(), (0x02, 0x27));
    assert_eq!(AutoTranslatePart::marker_bytes(), (0x02, 0x2E));
    assert_eq!(SelectablePart::marker_bytes(), (0x02, 0x13));
    assert_eq!(FormattedPart::marker_bytes(), (0x02, 0x1A));
    assert_eq!(PercentagePart::marker_bytes(), (0x02, 0x1D));
    assert_eq!(IconPart::marker_bytes(), (0x02, 0x12));
}

#[test]
fn verify_checks_length_and_marker() {
    assert!(NamePart::verify_data(&alice_name()));
    assert!(!NamePart::verify_data(&alice_name()[..21]));
    assert!(AutoTranslatePart::verify_data(&[0x02, 0x2E, 0, 0, 0, 0]));
    assert!(!AutoTranslatePart::verify_data(&[0x02, 0x2E, 0, 0, 0]));
    assert!(!AutoTranslatePart::verify_data(&[0x02, 0x2F, 0, 0, 0, 0]));
    assert!(SelectablePart::verify_data(&[0x02, 0x13, 0, 0, 0, 0, 0]));
    assert!(!SelectablePart::verify_data(&[0x02, 0x13, 0, 0, 0, 0]));
    assert!(FormattedPart::verify_data(&[0x02, 0x1A, 0, 0, 0, 0, 0]));
    assert!(!FormattedPart::verify_data(&[0x01, 0x1A, 0, 0, 0, 0, 0]));
    assert!(PercentagePart::verify_data(&[0x02, 0x1D, 0, 0]));
    assert!(!PercentagePart::verify_data(&[0x02, 0x1D, 0, 0, 0]));
    assert!(IconPart::verify_data(&[0x02, 0x12, 0]));
    assert!(!IconPart::verify_data(&[0x02, 0x12]));
}

#[test]
fn lengths_of_malformed_structures() {
    assert_eq!(NamePart::determine_length(&[]), 3);
    assert_eq!(NamePart::determine_length(&[0x02, 0x27, 0x03]), 3);
    assert_eq!(NamePart::determine_length(&[0x02, 0x27, 0x00, 0x03]), 4);
    assert_eq!(AutoTranslatePart::determine_length(&[0x02, 0x2E]), 3);
    assert_eq!(AutoTranslatePart::determine_length(&[0x02, 0x2E, 0xFF]), 258);
    assert_eq!(IconPart::determine_length(&[0x02, 0x12, 0x09]), 12);
    assert_eq!(SelectablePart::determine_length(&[0x02]), 3);
    assert_eq!(FormattedPart::determine_length(&[0x02, 0x1A, 9, 9, 9]), 3);
}

#[test]
fn builders_make_the_variants() {
    assert_eq!(PlainTextPart::from_text("Hello"), text("Hello"));
    assert_eq!(PercentagePart::from_parts(9), Part::Percentage(9));
    assert_eq!(IconPart::from_parts(77), Part::Icon(77));
    assert_eq!(
        AutoTranslatePart::from_parts(3, 400),
        Part::AutoTranslate { category: 3, id: 400 }
    );
    assert_eq!(
        SelectablePart::from_parts(vec![1, 2], text("d")),
        Part::Selectable { info: vec![1, 2], display: Box::new(text("d")) }
    );
    assert_eq!(
        FormattedPart::from_parts(vec![1], text("d")),
        Part::Formatted { info: vec![1], display: Box::new(text("d")) }
    );
    assert_eq!(
        NamePart::from_parts(text("r"), Part::Icon(1)),
        Part::Name { real_name: Box::new(text("r")), display_name: Box::new(Part::Icon(1)) }
    );
    assert_eq!(
        MultiPart::from_parts(vec![text("a"), Part::Icon(2), text("c")]),
        Part::Multi(vec![Box::new(text("a")), Box::new(Part::Icon(2)), Box::new(text("c"))])
    );
    assert_eq!(MultiPart::from_parts(Vec::new()), Part::Multi(Vec::new()));
}

#[test]
fn variable_length_integers() {
    assert_eq!(read_var_be(&[0x12]), Some(0x12));
    assert_eq!(read_var_be(&[0x12, 0x34]), Some(0x1234));
    assert_eq!(read_var_be(&[1, 2, 3, 4]), Some(0x01020304));
    assert_eq!(read_var_be(&[0xFF; 8]), Some(u64::MAX));
    assert_eq!(read_var_be(&[]), None);
    assert_eq!(read_var_be(&[1, 2, 3]), None);
    assert_eq!(read_var_be(&[0; 9]), None);
    assert_eq!(read_var_be(&[0; 10]), None);
    assert_eq!(AutoTranslatePart::read_var_be(&[0x12, 0x34]), Some(0x1234));
    assert_eq!(read_var_le(&[0x12]), Some(0x12));
    assert_eq!(read_var_le(&[0x12, 0x34]), Some(0x3412));
    assert_eq!(read_var_le(&[1, 2, 3, 4]), Some(0x04030201));
    assert_eq!(read_var_le(&[0xFF; 8]), Some(u64::MAX));
    assert_eq!(read_var_le(&[]), None);
    assert_eq!(read_var_le(&[1, 2, 3]), None);
    assert_eq!(read_var_le(&[0; 10]), None);
}
