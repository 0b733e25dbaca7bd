//! The text that a fragment shows, as functions on models.

use vstd::prelude::*;
use vstd::string::StringExecFns;
use crate::messages::parts::PartModel;

verus! {

/// One entry of the phrase dictionary.
#[derive(Debug, Clone, PartialEq, Eq)]
pub struct Completion {
    pub category: u64,
    pub id: u64,
    pub value: String,
}

/// The entry stands for the phrase `id` of `category`.
pub open spec fn has_key(c: Completion, category: u8, id: int) -> bool {
    c.category == category as u64 && c.id as int == id
}

/// The entry at `i` is the first for the key.
pub open spec fn is_first_entry(table: Seq<Completion>, i: int, category: u8, id: int) -> bool {
    &&& 0 <= i < table.len()
    &&& has_key(table[i], category, id)
    &&& forall|j: int| 0 <= j < i ==> !has_key(#[trigger] table[j], category, id)
}

/// The place of the first entry for the key, if the table has one.
pub open spec fn lookup(table: Seq<Completion>, category: u8, id: int) -> Option<int> {
    if exists|i: int| 0 <= i < table.len() && has_key(#[trigger] table[i], category, id) {
        Some(choose|i: int| is_first_entry(table, i, category, id))
    } else {
        None
    }
}

/// An entry that is first for the key is the one that `lookup` names.
pub proof fn lemma_lookup(table: Seq<Completion>, i: int, category: u8, id: int)
    requires
        is_first_entry(table, i, category, id),
    ensures
        lookup(table, category, id) == Some(i),
{
    let c = choose|k: int| is_first_entry(table, k, category, id);
    assert(has_key(table[i], category, id));
    assert(is_first_entry(table, c, category, id));
    if c < i {
        assert(!has_key(table[c], category, id));
    }
    if i < c {
        assert(!has_key(table[i], category, id));
    }
}

/// The digit for a value below sixteen, in upper case.
pub open spec fn hex_char(d: int) -> char {
    if d == 0 {
        '0'
    } else if d == 1 {
        '1'
    } else if d == 2 {
        '2'
    } else if d == 3 {
        '3'
    } else if d == 4 {
        '4'
    } else if d == 5 {
        '5'
    } else if d == 6 {
        '6'
    } else if d == 7 {
        '7'
    } else if d == 8 {
        '8'
    } else if d == 9 {
        '9'
    } else if d == 10 {
        'A'
    } else if d == 11 {
        'B'
    } else if d == 12 {
        'C'
    } else if d == 13 {
        'D'
    } else if d == 14 {
        'E'
    } else {
        'F'
    }
}

/// A number in decimal digits, without leading zeros.
pub open spec fn decimal(n: nat) -> Seq<char>
    decreases n,
{
    if n < 10 {
        seq![hex_char(n as int)]
    } else {
        decimal(n / 10).push(hex_char((n % 10) as int))
    }
}

/// A byte as two hexadecimal digits.
pub open spec fn hex_byte(b: u8) -> Seq<char> {
    seq![hex_char(b as int / 16), hex_char(b as int % 16)]
}

/// Bytes as pairs of hexadecimal digits with one space between the pairs.
pub open spec fn hex_dump(b: Seq<u8>) -> Seq<char>
    decreases b.len(),
{
    if b.len() == 0 {
        Seq::empty()
    } else if b.len() == 1 {
        hex_byte(b[0])
    } else {
        hex_dump(b.drop_last()) + seq![' '] + hex_byte(b.last())
    }
}

/// A phrase of the dictionary, in braces.
pub open spec fn phrase_text(value: Seq<char>) -> Seq<char> {
    seq!['{'] + value + seq!['}']
}

/// What stands for a phrase that the dictionary lacks: `<AT: c, i>`.
pub open spec fn phrase_placeholder(category: u8, id: int) -> Seq<char> {
    seq!['<', 'A', 'T', ':', ' '] + decimal(category as nat) + seq![',', ' '] + decimal(id as nat)
        + seq!['>']
}

/// What stands for a glyph: `<Icon: i>`.
pub open spec fn icon_placeholder(id: u64) -> Seq<char> {
    seq!['<', 'I', 'c', 'o', 'n', ':', ' '] + decimal(id as nat) + seq!['>']
}

/// The text that a fragment shows, with `table` as the phrase dictionary.
pub open spec fn display_model(part: PartModel, table: Seq<Completion>) -> Seq<char>
    decreases part,
{
    match part {
        PartModel::PlainText(text) => text,
        PartModel::Name { real_name, display_name } => display_model(*display_name, table),
        PartModel::AutoTranslate { category, id } => match lookup(table, category, id) {
            Some(i) => phrase_text(table[i].value@),
            None => phrase_placeholder(category, id),
        },
        PartModel::Bytes(bytes) => hex_dump(bytes),
        PartModel::Selectable { info, display } => display_model(*display, table),
        PartModel::Formatted { info, display } => display_model(*display, table),
        PartModel::Multi(parts) => display_all(parts, table),
        PartModel::Percentage(value) => seq![' '],
        PartModel::Icon(id) => icon_placeholder(id),
    }
}

/// The text that a row of fragments shows: their texts, joined with nothing
/// between them.
pub open spec fn display_all(parts: Seq<PartModel>, table: Seq<Completion>) -> Seq<char>
    decreases parts,
{
    if parts.len() == 0 {
        Seq::empty()
    } else {
        display_all(parts.drop_last(), table) + display_model(parts.last(), table)
    }
}

/// The digit for a value below sixteen, as a string.
pub fn hex_digit(d: u8) -> (s: &'static str)
    requires
        d < 16,
    ensures
        s@ == seq![hex_char(d as int)],
{
    proof {
        reveal_strlit("0");
        reveal_strlit("1");
        reveal_strlit("2");
        reveal_strlit("3");
        reveal_strlit("4");
        reveal_strlit("5");
        reveal_strlit("6");
        reveal_strlit("7");
        reveal_strlit("8");
        reveal_strlit("9");
        reveal_strlit("A");
        reveal_strlit("B");
        reveal_strlit("C");
        reveal_strlit("D");
        reveal_strlit("E");
        reveal_strlit("F");
    }
    let s = if d == 0 {
        "0"
    } else if d == 1 {
        "1"
    } else if d == 2 {
        "2"
    } else if d == 3 {
        "3"
    } else if d == 4 {
        "4"
    } else if d == 5 {
        "5"
    } else if d == 6 {
        "6"
    } else if d == 7 {
        "7"
    } else if d == 8 {
        "8"
    } else if d == 9 {
        "9"
    } else if d == 10 {
        "A"
    } else if d == 11 {
        "B"
    } else if d == 12 {
        "C"
    } else if d == 13 {
        "D"
    } else if d == 14 {
        "E"
    } else {
        "F"
    };
    assert(s@ =~= seq![hex_char(d as int)]);
    s
}

/// A number in decimal digits.
pub fn decimal_text(n: u64) -> (s: String)
    ensures
        s@ == decimal(n as nat),
    decreases n,
{
    if n < 10 {
        String::from_str(hex_digit(n as u8))
    } else {
        let mut s = decimal_text(n / 10);
        s.append(hex_digit((n % 10) as u8));
        assert(s@ =~= decimal(n as nat));
        s
    }
}

/// Bytes as pairs of hexadecimal digits with one space between the pairs.
pub fn to_hex_string(bytes: &[u8]) -> (s: String)
    ensures
        s@ == hex_dump(bytes@),
{
    let mut s = String::new();
    let mut i: usize = 0;
    while i < bytes.len()
        invariant
            i <= bytes@.len(),
            s@ == hex_dump(bytes@.subrange(0, i as int)),
        decreases bytes@.len() - i,
    {
        let ghost before = s@;
        let b = bytes[i];
        if i > 0 {
            proof {
                reveal_strlit(" ");
            }
            s.append(" ");
        }
        s.append(hex_digit(b / 16));
        s.append(hex_digit(b % 16));
        proof {
            let next = bytes@.subrange(0, i + 1);
            assert(next.drop_last() =~= bytes@.subrange(0, i as int));
            assert(next.last() == b);
            if i > 0 {
                assert(s@ =~= before + seq![' '] + hex_byte(b));
            } else {
                assert(s@ =~= hex_byte(b));
                assert(next[0] == b);
            }
        }
        i += 1;
    }
    assert(bytes@.subrange(0, bytes@.len() as int) =~= bytes@);
    s
}

/// What stands for a phrase that the dictionary lacks.
pub fn placeholder_text(category: u8, id: usize) -> (s: String)
    ensures
        s@ == phrase_placeholder(category, id as int),
{
    proof {
        reveal_strlit("<AT: ");
        reveal_strlit(", ");
        reveal_strlit(">");
    }
    let mut s = String::from_str("<AT: ");
    let c = decimal_text(category as u64);
    s.append(c.as_str());
    s.append(", ");
    let i = decimal_text(id as u64);
    s.append(i.as_str());
    s.append(">");
    assert(s@ =~= phrase_placeholder(category, id as int));
    s
}

/// What stands for a glyph.
pub fn icon_text(id: u64) -> (s: String)
    ensures
        s@ == icon_placeholder(id),
{
    proof {
        reveal_strlit("<Icon: ");
        reveal_strlit(">");
    }
    let mut s = String::from_str("<Icon: ");
    let i = decimal_text(id);
    s.append(i.as_str());
    s.append(">");
    assert(s@ =~= icon_placeholder(id));
    s
}

/// A phrase of the dictionary, in braces.
pub fn braced_text(value: &str) -> (s: String)
    ensures
        s@ == phrase_text(value@),
{
    proof {
        reveal_strlit("{");
        reveal_strlit("}");
    }
    let mut s = String::from_str("{");
    s.append(value);
    s.append("}");
    assert(s@ =~= phrase_text(value@));
    s
}

/// Finds the first entry of the dictionary for a key.
pub fn find_completion(table: &[Completion], category: u8, id: usize) -> (r: Option<usize>)
    ensures
        match r {
            Some(i) => lookup(table@, category, id as int) == Some(i as int) && i < table@.len(),
            None => lookup(table@, category, id as int) is None,
        },
{
    let mut i: usize = 0;
    while i < table.len()
        invariant
            i <= table@.len(),
            forall|j: int| 0 <= j < i ==> !has_key(#[trigger] table@[j], category, id as int),
        decreases table@.len() - i,
    {
        if table[i].category == category as u64 && table[i].id == id as u64 {
            proof {
                assert(is_first_entry(table@, i as int, category, id as int));
                lemma_lookup(table@, i as int, category, id as int);
            }
            return Some(i);
        }
        i += 1;
    }
    None
}

} // verus!
