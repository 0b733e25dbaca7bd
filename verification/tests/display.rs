use ffxiv_reader::messages::display::{decimal_text, to_hex_string};
use ffxiv_reader::messages::parts::{AutoTranslatePart, Completion, Part};
use ffxiv_reader::messages::{HasDisplayText, Message};

fn text(s: &str) -> Part {
    Part::PlainText(s.to_string())
}

fn table() -> Vec<Completion> {
    vec![
        Completion { category: 1, id: 258, value: "Hello!".to_string() },
        Completion { category: 2, id: 9, value: "Thanks.".to_string() },
        Completion { category: 1, id: 258, value: "shadowed".to_string() },
    ]
}

#[test]
fn plain_text_shows_itself() {
    assert_eq!(text("Hello").display_text(&[]), "Hello");
}

#[test]
fn name_shows_its_display_name() {
    let name = Part::Name { real_name: Box::new(text("real")), display_name: Box::new(text("shown")) };
    assert_eq!(name.display_text(&[]), "shown");
}

#[test]
fn phrase_is_looked_up() {
    let part = Part::AutoTranslate { category: 1, id: 258 };
    assert_eq!(part.display_text(&table()), "{Hello!}");
    assert_eq!(part.display_text(&[]), "<AT: 1, 258>");
    assert_eq!(Part::AutoTranslate { category: 0, id: 0 }.display_text(&table()), "<AT: 0, 0>");
    assert_eq!(
        Part::AutoTranslate { category: 255, id: 1234567890 }.display_text(&table()),
        "<AT: 255, 1234567890>"
    );
}

#[test]
fn bytes_show_as_hex() {
    assert_eq!(Part::Bytes(vec![0xDE, 0xAD, 0x0B, 0xEF]).display_text(&[]), "DE AD 0B EF");
    assert_eq!(Part::Bytes(vec![0x00]).display_text(&[]), "00");
    assert_eq!(Part::Bytes(Vec::new()).display_text(&[]), "");
    assert_eq!(to_hex_string(&[0x01, 0xFF]), "01 FF");
}

#[test]
fn spans_show_their_display() {
    let s = Part::Selectable { info: vec![1], display: Box::new(text("item")) };
    assert_eq!(s.display_text(&[]), "item");
    let f = Part::Formatted { info: vec![1], display: Box::new(s) };
    assert_eq!(f.display_text(&[]), "item");
}

#[test]
fn multi_joins_and_small_kinds() {
    let m = Part::Multi(vec![
        Box::new(text("a")),
        Box::new(Part::Percentage(50)),
        Box::new(Part::Icon(42)),
        Box::new(Part::Multi(vec![Box::new(text("b")), Box::new(text("c"))])),
    ]);
    assert_eq!(m.display_text(&[]), "a <Icon: 42>bc");
    assert_eq!(Part::Multi(Vec::new()).display_text(&[]), "");
    assert_eq!(Part::Icon(u64::MAX).display_text(&[]), "<Icon: 18446744073709551615>");
    assert_eq!(Part::Percentage(0).display_text(&[]), " ");
}

#[test]
fn message_joins_its_fragments() {
    let m = Message::new(vec![text("I say "), Part::AutoTranslate { category: 2, id: 9 }, text("!")]);
    assert_eq!(m.display_text(&table()), "I say {Thanks.}!");
    assert_eq!(Message::new(Vec::new()).display_text(&table()), "");
}

#[test]
fn decimal_digits() {
    assert_eq!(decimal_text(0), "0");
    assert_eq!(decimal_text(9), "9");
    assert_eq!(decimal_text(10), "10");
    assert_eq!(decimal_text(1005), "1005");
}

#[test]
fn completion_is_first_match() {
    let t = table();
    assert_eq!(AutoTranslatePart::get_completion(&t, 1, 258), Some(&t[0]));
    assert_eq!(AutoTranslatePart::get_completion(&t, 2, 9), Some(&t[1]));
    assert_eq!(AutoTranslatePart::get_completion(&t, 2, 258), None);
    let part = Part::AutoTranslate { category: 2, id: 9 };
    assert_eq!(AutoTranslatePart::get_completion_for_part(&t, &part), Some(&t[1]));
    assert_eq!(AutoTranslatePart::get_completion_for_part(&t, &text("x")), None);
}
