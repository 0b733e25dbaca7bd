use ffxiv_reader::database::{
    copy_without, CompletionValues, Database, Lang, Location, RowKind, SingleLangCompletion,
    SingleLangDatabase, Which,
};

fn phrase(category: u64, id: u64, value: &str) -> SingleLangCompletion {
    SingleLangCompletion { category, id, value: value.to_string() }
}

fn language(language: Lang, completions: Vec<SingleLangCompletion>) -> SingleLangDatabase {
    SingleLangDatabase { directory_path: "sheets".to_string(), completions, language }
}

fn row(fields: &[&str]) -> Vec<String> {
    fields.iter().map(|f| f.to_string()).collect()
}

#[test]
fn language_codes() {
    assert_eq!(Lang::English.code(), "en");
    assert_eq!(Lang::German.code(), "de");
    assert_eq!(Lang::French.code(), "fr");
    assert_eq!(Lang::Japanese.code(), "ja");
}

#[test]
fn list_with_column_and_ranges() {
    let w = Which::from_descriptor(b"col-2,3-5,9-9").unwrap();
    assert_eq!(w.column, 2);
    assert_eq!(w.ranges, vec![3..6, 9..10]);
    assert!(!w.contains(2));
    assert!(w.contains(3));
    assert!(w.contains(5));
    assert!(!w.contains(6));
    assert!(w.contains(9));
    assert!(!w.contains(10));
}

#[test]
fn list_items_without_dash_add_nothing() {
    let w = Which::from_descriptor(b"7,x,,1-1").unwrap();
    assert_eq!(w.column, 0);
    assert_eq!(w.ranges, vec![1..2]);
    let w = Which::from_descriptor(b"").unwrap();
    assert_eq!(w.column, 0);
    assert!(w.ranges.is_empty());
    assert!(!w.contains(0));
}

#[test]
fn list_reads_only_two_numbers_of_an_item() {
    let w = Which::from_descriptor(b"1-2-zzz,col-4-5").unwrap();
    assert_eq!(w.column, 4);
    assert_eq!(w.ranges, vec![1..3]);
}

#[test]
fn list_that_cannot_be_read() {
    assert!(Which::from_descriptor(b"a-b").is_none());
    assert!(Which::from_descriptor(b"1-").is_none());
    assert!(Which::from_descriptor(b"-1").is_none());
    assert!(Which::from_descriptor(b"col-x").is_none());
    assert!(Which::from_descriptor(b"1-2,3-4,5-").is_none());
    assert!(Which::from_descriptor(b"1-18446744073709551615").is_none());
    assert!(Which::from_descriptor(b"1-99999999999999999999").is_none());
}

#[test]
fn backward_range_holds_nothing() {
    let w = Which::from_descriptor(b"5-3").unwrap();
    assert_eq!(w.ranges, vec![5..4]);
    assert!(!w.contains(4));
    assert!(!w.contains(5));
}

#[test]
fn location_without_list() {
    let l = Location::from_descriptor(b"Mount", &Lang::English).unwrap();
    assert_eq!(l.file_name, "mount.exh_en.csv");
    assert!(l.indices.is_none());
}

#[test]
fn location_with_list() {
    let l = Location::from_descriptor(b"ClassJob[col-3,1-38]", &Lang::Japanese).unwrap();
    assert_eq!(l.file_name, "classjob.exh_ja.csv");
    let w = l.indices.unwrap();
    assert_eq!(w.column, 3);
    assert_eq!(w.ranges, vec![1..39]);
}

#[test]
fn location_drops_closing_brackets_and_later_lists() {
    let l = Location::from_descriptor(b"A[1-]2][9-9]", &Lang::German).unwrap();
    assert_eq!(l.file_name, "a.exh_de.csv");
    assert_eq!(l.indices.unwrap().ranges, vec![1..3]);
}

#[test]
fn location_that_cannot_be_read() {
    assert!(Location::from_descriptor(b"A[1-x]", &Lang::French).is_none());
    assert!(Location::from_descriptor(&[0xFF, b'['], &Lang::French).is_none());
}

#[test]
fn sheet_file_names() {
    assert_eq!(Location::sheet_file_name("completion", &Lang::French), "completion.exh_fr.csv");
    assert_eq!(Location::sheet_file_name("", &Lang::English), ".exh_en.csv");
}

#[test]
fn bytes_without_one_byte() {
    assert_eq!(copy_without(b"a]b]]c", b']'), b"abc".to_vec());
    assert_eq!(copy_without(b"]]", b']'), Vec::<u8>::new());
    assert_eq!(copy_without(b"abc", b']'), b"abc".to_vec());
}

#[test]
fn kinds_of_rows() {
    assert!(matches!(RowKind::of_location(b"", &Lang::English), RowKind::Direct));
    assert!(matches!(RowKind::of_location(b"@", &Lang::English), RowKind::Skip));
    assert!(matches!(RowKind::of_location(b"1-x[1-x]", &Lang::English), RowKind::Malformed));
    match RowKind::of_location(b"Mount[col-1]", &Lang::English) {
        RowKind::Sheet(l) => assert_eq!(l.file_name, "mount.exh_en.csv"),
        other => panic!("unexpected {:?}", other),
    }
    match RowKind::of_location(b"@@", &Lang::English) {
        RowKind::Sheet(l) => assert_eq!(l.file_name, "@@.exh_en.csv"),
        other => panic!("unexpected {:?}", other),
    }
}

#[test]
fn rows_of_a_sheet_without_list() {
    let l = Location::from_descriptor(b"Mount", &Lang::English).unwrap();
    let rows = vec![row(&["1", "Chocobo", "x"]), row(&["2", ""]), row(&["3", "Ahriman"])];
    let got = l.select_rows(7, &rows).unwrap();
    assert_eq!(got.len(), 2);
    assert_eq!((got[0].category, got[0].id, got[0].value.as_str()), (7, 1, "Chocobo"));
    assert_eq!((got[1].category, got[1].id, got[1].value.as_str()), (7, 3, "Ahriman"));
}

#[test]
fn rows_of_a_sheet_with_list() {
    let l = Location::from_descriptor(b"Job[col-1,2-3]", &Lang::English).unwrap();
    let rows = vec![
        row(&["1", "a", "one"]),
        row(&["2", "b", "two"]),
        row(&["3", "c", ""]),
        row(&["4"]),
        row(&["3", "c", "three"]),
    ];
    let got = l.select_rows(9, &rows).unwrap();
    assert_eq!(got.len(), 2);
    assert_eq!((got[0].id, got[0].value.as_str()), (2, "two"));
    assert_eq!((got[1].id, got[1].value.as_str()), (3, "three"));
}

#[test]
fn rows_that_cannot_be_read() {
    let l = Location::from_descriptor(b"Job[col-1,2-3]", &Lang::English).unwrap();
    assert!(l.select_rows(9, &vec![row(&["2", "b"])]).is_none());
    assert!(l.select_rows(9, &vec![row(&["x", "b", "c"])]).is_none());
    assert!(l.select_rows(9, &vec![row(&[])]).is_none());
    assert!(l.select_rows(9, &vec![row(&["2", "b", "c"]), row(&["", "", ""])]).is_none());
    assert!(l.pick_row(9, &row(&["2", "b"])).is_none());
    assert!(matches!(l.pick_row(9, &row(&["7"])), Some(None)));
    assert_eq!(l.select_rows(9, &Vec::new()).unwrap().len(), 0);
}

#[test]
fn values_in_one_language() {
    let v = CompletionValues {
        en: "a".to_string(),
        de: "b".to_string(),
        fr: "c".to_string(),
        ja: "d".to_string(),
    };
    let w = v.with_value(Lang::French, &"x".to_string());
    assert_eq!((w.en.as_str(), w.de.as_str(), w.fr.as_str(), w.ja.as_str()), ("a", "b", "x", "d"));
}

#[test]
fn dictionary_of_all_languages() {
    let db = Database::from_single_lang(vec![
        language(Lang::German, vec![phrase(1, 1, "Hallo"), phrase(1, 2, "Danke"), phrase(1, 1, "x")]),
        language(Lang::English, vec![phrase(1, 2, "Thanks"), phrase(1, 1, "Hello")]),
        language(Lang::Japanese, vec![phrase(1, 2, "arigatou")]),
    ])
    .unwrap();
    let c = &db.completions;
    assert_eq!(c.len(), 3);
    assert_eq!((c[0].category, c[0].id), (1, 1));
    assert_eq!((c[0].values.en.as_str(), c[0].values.de.as_str()), ("Hello", "Hallo"));
    assert_eq!((c[0].values.fr.as_str(), c[0].values.ja.as_str()), ("", ""));
    assert_eq!((c[1].values.en.as_str(), c[1].values.de.as_str()), ("Thanks", "Danke"));
    assert_eq!(c[1].values.ja, "arigatou");
    assert_eq!((c[2].values.en.as_str(), c[2].values.de.as_str()), ("", "x"));
}

#[test]
fn dictionary_needs_a_language_and_known_keys() {
    assert!(Database::from_single_lang(Vec::new()).is_none());
    assert!(Database::from_single_lang(vec![
        language(Lang::German, vec![phrase(1, 1, "Hallo")]),
        language(Lang::English, vec![phrase(2, 1, "Hello")]),
    ])
    .is_none());
    let one = Database::from_single_lang(vec![language(Lang::English, Vec::new())]).unwrap();
    assert!(one.completions.is_empty());
}
