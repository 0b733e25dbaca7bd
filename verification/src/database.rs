//! Building the phrase dictionary out of the client's data sheets.
//!
//! The sheet of phrases names, for some categories, another sheet that holds
//! the phrases, with a descriptor such as `Mount[col-1,3-5,9-9]`: the sheet,
//! the column that holds the text, and the ranges of rows that count.

use core::ops::Range;
use vstd::prelude::*;
use vstd::slice::slice_subrange;
use vstd::string::StringExecFns;
use vstd::utf8::{decode_utf8, encode_utf8, valid_utf8};
use crate::messages::search::{find_byte_from, first_byte, tail};
use crate::messages::text::decode_text;
use crate::numbers::{parse_u64, read_decimal};

verus! {

/// The byte that parts the items of a descriptor.
pub const COMMA: u8 = 0x2c;

/// The byte that parts the two ends of a range.
pub const DASH: u8 = 0x2d;

/// The byte that opens the list of a descriptor.
pub const OPEN: u8 = 0x5b;

/// The byte that closes the list of a descriptor.
pub const CLOSE: u8 = 0x5d;

/// A language of the client.
#[derive(Debug, Clone, Copy, PartialEq, Eq, Structural)]
pub enum Lang {
    English,
    German,
    French,
    Japanese,
}

/// The two letters that name a language in the names of the sheets.
pub open spec fn lang_code(lang: Lang) -> Seq<char> {
    match lang {
        Lang::English => seq!['e', 'n'],
        Lang::German => seq!['d', 'e'],
        Lang::French => seq!['f', 'r'],
        Lang::Japanese => seq!['j', 'a'],
    }
}

impl Lang {
    /// The two letters that name the language.
    pub fn code(&self) -> (code: &'static str)
        ensures
            code@ == lang_code(*self),
    {
        proof {
            reveal_strlit("en");
            reveal_strlit("de");
            reveal_strlit("fr");
            reveal_strlit("ja");
        }
        let code = match self {
            Lang::English => "en",
            Lang::German => "de",
            Lang::French => "fr",
            Lang::Japanese => "ja",
        };
        assert(code@ =~= lang_code(*self));
        code
    }
}

/// The rows of a sheet that count, and the column that holds their text.
#[derive(Debug)]
pub struct Which {
    pub column: u64,
    pub ranges: Vec<Range<usize>>,
}

/// The mathematical value of [`Which`]: the column, and each range as its
/// first row and the row after its last.
pub struct WhichModel {
    pub column: int,
    pub ranges: Seq<(int, int)>,
}

impl View for Which {
    type V = WhichModel;

    open spec fn view(&self) -> WhichModel {
        WhichModel {
            column: self.column as int,
            ranges: Seq::new(
                self.ranges@.len(),
                |i: int| (self.ranges@[i].start as int, self.ranges@[i].end as int),
            ),
        }
    }
}

/// The bytes of `col`.
pub open spec fn col_word() -> Seq<u8> {
    seq![0x63, 0x6f, 0x6c]
}

/// What stands before the first `sep` of `s`, or all of `s`.
pub open spec fn before_first(s: Seq<u8>, sep: u8) -> Seq<u8> {
    match first_byte(s, sep) {
        Some(p) => s.subrange(0, p),
        None => s,
    }
}

/// What one item of a descriptor adds. An item without a dash adds nothing.
/// Of the others, `col-N` sets the column, and `A-B` adds the rows from `A`
/// to `B`, both included; what follows a second dash is not read. An item
/// whose numbers cannot be read makes the descriptor malformed.
pub open spec fn apply_item(w: WhichModel, item: Seq<u8>) -> Option<WhichModel> {
    match first_byte(item, DASH) {
        None => Some(w),
        Some(p) => {
            let left = item.subrange(0, p);
            let right = before_first(item.subrange(p + 1, item.len() as int), DASH);
            if left == col_word() {
                match parse_u64(right, 10) {
                    Some(c) => Some(WhichModel { column: c, ..w }),
                    None => None,
                }
            } else {
                match (parse_u64(left, 10), parse_u64(right, 10)) {
                    (Some(a), Some(b)) => if a <= usize::MAX && b < usize::MAX {
                        Some(WhichModel { ranges: w.ranges.push((a, b + 1)), ..w })
                    } else {
                        None
                    },
                    _ => None,
                }
            }
        },
    }
}

/// What the items of `s`, parted by commas, add to `w` in their order.
pub open spec fn apply_items(w: WhichModel, s: Seq<u8>) -> Option<WhichModel>
    decreases s.len(),
{
    match first_byte(s, COMMA) {
        None => apply_item(w, s),
        Some(p) => if 0 <= p < s.len() {
            match apply_item(w, s.subrange(0, p)) {
                Some(next) => apply_items(next, s.subrange(p + 1, s.len() as int)),
                None => None,
            }
        } else {
            None
        },
    }
}

/// What a descriptor's list stands for: column zero and no rows, and what
/// its items add.
pub open spec fn which_spec(descriptor: Seq<u8>) -> Option<WhichModel> {
    apply_items(WhichModel { column: 0, ranges: Seq::empty() }, descriptor)
}

/// The row `n` lies in one of the ranges.
pub open spec fn contains_spec(w: WhichModel, n: int) -> bool {
    exists|i: int| 0 <= i < w.ranges.len() && (#[trigger] w.ranges[i]).0 <= n < w.ranges[i].1
}

/// What a reader of descriptors returned, as a model.
pub open spec fn which_model_of(r: Option<Which>) -> Option<WhichModel> {
    match r {
        Some(w) => Some(w@),
        None => None,
    }
}

/// Tells whether `s` is `col`.
fn is_col(s: &[u8]) -> (r: bool)
    ensures
        r == (s@ == col_word()),
{
    if s.len() == 3 && s[0] == 0x63 && s[1] == 0x6f && s[2] == 0x6c {
        assert(s@ =~= col_word());
        true
    } else {
        proof {
            if s@.len() == 3 {
                assert(col_word()[0] == 0x63 && col_word()[1] == 0x6f && col_word()[2] == 0x6c);
            }
        }
        false
    }
}

/// What stands before the first `sep` at or after `from`: the place where it
/// ends.
fn end_of_item(s: &[u8], from: usize, sep: u8) -> (end: usize)
    requires
        from <= s@.len(),
    ensures
        from <= end <= s@.len(),
        s@.subrange(from as int, end as int) == before_first(tail(s@, from as int), sep),
        first_byte(tail(s@, from as int), sep) is Some <==> end < s@.len(),
        first_byte(tail(s@, from as int), sep) matches Some(p) ==> p == end - from,
{
    let ghost t = tail(s@, from as int);
    match find_byte_from(s, from, sep) {
        Some(p) => {
            assert(t.subrange(0, p as int) =~= s@.subrange(from as int, from + p));
            from + p
        },
        None => {
            let n = s.len();
            assert(t =~= s@.subrange(from as int, n as int));
            n
        },
    }
}

impl Which {
    /// Adds what one item of a descriptor stands for; tells whether the item
    /// could be read.
    fn apply_item(&mut self, item: &[u8]) -> (ok: bool)
        ensures
            match apply_item(old(self)@, item@) {
                Some(w) => ok && final(self)@ == w,
                None => !ok,
            },
    {
        assert(tail(item@, 0) =~= item@);
        let dash = end_of_item(item, 0, DASH);
        if dash == item.len() {
            return true;
        }
        let left = slice_subrange(item, 0, dash);
        let right_end = end_of_item(item, dash + 1, DASH);
        let right = slice_subrange(item, dash + 1, right_end);
        assert(tail(item@, dash + 1) =~= item@.subrange(dash + 1, item@.len() as int));
        if is_col(left) {
            match read_decimal(right) {
                Some(c) => {
                    self.column = c;
                    assert(self@.ranges =~= old(self)@.ranges);
                    true
                },
                None => false,
            }
        } else {
            let a = match read_decimal(left) {
                Some(a) => a,
                None => {
                    return false;
                },
            };
            let b = match read_decimal(right) {
                Some(b) => b,
                None => {
                    return false;
                },
            };
            if a > usize::MAX as u64 || b >= usize::MAX as u64 {
                return false;
            }
            self.ranges.push(a as usize..b as usize + 1);
            assert(self@.ranges =~= old(self)@.ranges.push((a as int, b + 1)));
            true
        }
    }

    /// Reads the list of a descriptor, such as `col-1,3-5,9-9`.
    pub fn from_descriptor(descriptor: &[u8]) -> (r: Option<Which>)
        ensures
            which_model_of(r) == which_spec(descriptor@),
    {
        let n = descriptor.len();
        let mut which = Which { column: 0, ranges: Vec::new() };
        assert(which@.ranges =~= Seq::empty());
        assert(tail(descriptor@, 0) =~= descriptor@);
        let mut from: usize = 0;
        loop
            invariant
                from <= n,
                n == descriptor@.len(),
                which_spec(descriptor@) == apply_items(which@, tail(descriptor@, from as int)),
            decreases n - from,
        {
            let ghost t = tail(descriptor@, from as int);
            let end = end_of_item(descriptor, from, COMMA);
            let item = slice_subrange(descriptor, from, end);
            if !which.apply_item(item) {
                return None;
            }
            if end == n {
                return Some(which);
            }
            proof {
                assert(t.subrange(end - from + 1, t.len() as int) =~= tail(descriptor@, end + 1));
            }
            from = end + 1;
        }
    }

    /// Tells whether the row `n` lies in one of the ranges.
    pub fn contains(&self, n: u64) -> (r: bool)
        ensures
            r == contains_spec(self@, (n as usize) as int),
    {
        let row = n as usize;
        let mut i: usize = 0;
        while i < self.ranges.len()
            invariant
                i <= self.ranges@.len(),
                row == n as usize,
                forall|j: int|
                    0 <= j < i ==> !((#[trigger] self@.ranges[j]).0 <= row < self@.ranges[j].1),
            decreases self.ranges@.len() - i,
        {
            if self.ranges[i].start <= row && row < self.ranges[i].end {
                assert(self@.ranges[i as int].0 <= row < self@.ranges[i as int].1);
                return true;
            }
            i += 1;
        }
        false
    }
}

/// The text in lower case, as the standard library gives it.
pub uninterp spec fn lowercase(text: Seq<char>) -> Seq<char>;

/// Calls `str::to_lowercase`, which gives the text in lower case.
#[verifier::external_body]
fn to_lowercase(text: &str) -> (lowered: String)
    ensures
        lowered@ == lowercase(text@),
{
    text.to_lowercase()
}

/// Where the phrases of a category are kept.
#[derive(Debug)]
pub struct Location {
    pub file_name: String,
    pub indices: Option<Which>,
}

/// The mathematical value of a [`Location`].
pub struct LocationModel {
    pub file_name: Seq<char>,
    pub indices: Option<WhichModel>,
}

impl View for Location {
    type V = LocationModel;

    open spec fn view(&self) -> LocationModel {
        LocationModel { file_name: self.file_name@, indices: which_model_of(self.indices) }
    }
}

/// The bytes of `s` that are not `b`, in their order.
pub open spec fn without(s: Seq<u8>, b: u8) -> Seq<u8>
    decreases s.len(),
{
    if s.len() == 0 {
        Seq::empty()
    } else if s.last() == b {
        without(s.drop_last(), b)
    } else {
        without(s.drop_last(), b).push(s.last())
    }
}

/// The name of the file that holds a sheet in a language: the sheet's name
/// as given, then `.exh_`, the language and `.csv`.
pub open spec fn sheet_file(name: Seq<char>, lang: Lang) -> Seq<char> {
    name + seq!['.', 'e', 'x', 'h', '_'] + lang_code(lang) + seq!['.', 'c', 's', 'v']
}

/// What a descriptor stands for: the file of the sheet that it names, in
/// lower case, and the list between its brackets, if it has one. A
/// descriptor whose name is no text or whose list cannot be read is
/// malformed.
pub open spec fn location_spec(descriptor: Seq<u8>, lang: Lang) -> Option<LocationModel> {
    let name = before_first(descriptor, OPEN);
    if !valid_utf8(name) {
        None
    } else {
        let file_name = sheet_file(lowercase(decode_utf8(name)), lang);
        match first_byte(descriptor, OPEN) {
            None => Some(LocationModel { file_name: file_name, indices: None }),
            Some(p) => {
                let list = before_first(
                    descriptor.subrange(p + 1, descriptor.len() as int),
                    OPEN,
                );
                match which_spec(without(list, CLOSE)) {
                    Some(w) => Some(LocationModel { file_name: file_name, indices: Some(w) }),
                    None => None,
                }
            },
        }
    }
}

/// What a reader of descriptors returned, as a model.
pub open spec fn location_model_of(r: Option<Location>) -> Option<LocationModel> {
    match r {
        Some(l) => Some(l@),
        None => None,
    }
}

/// Copies the bytes of `s` that are not `b`.
pub fn copy_without(s: &[u8], b: u8) -> (v: Vec<u8>)
    ensures
        v@ == without(s@, b),
{
    let mut v: Vec<u8> = Vec::new();
    let mut i: usize = 0;
    while i < s.len()
        invariant
            i <= s@.len(),
            v@ == without(s@.subrange(0, i as int), b),
        decreases s@.len() - i,
    {
        proof {
            let next = s@.subrange(0, i + 1);
            assert(next.drop_last() =~= s@.subrange(0, i as int));
            assert(next.last() == s@[i as int]);
        }
        if s[i] != b {
            v.push(s[i]);
        }
        i += 1;
    }
    assert(s@.subrange(0, s@.len() as int) =~= s@);
    v
}

impl Location {
    /// The name of the file that holds the sheet `name` in a language.
    pub fn sheet_file_name(name: &str, lang: &Lang) -> (file_name: String)
        ensures
            file_name@ == sheet_file(name@, *lang),
    {
        proof {
            reveal_strlit(".exh_");
            reveal_strlit(".csv");
        }
        let mut file_name = String::from_str(name);
        file_name.append(".exh_");
        file_name.append(lang.code());
        file_name.append(".csv");
        assert(file_name@ =~= sheet_file(name@, *lang));
        file_name
    }

    /// Reads a descriptor, such as `Mount[col-1,3-5]`.
    pub fn from_descriptor(descriptor: &[u8], lang: &Lang) -> (r: Option<Location>)
        ensures
            location_model_of(r) == location_spec(descriptor@, *lang),
    {
        assert(tail(descriptor@, 0) =~= descriptor@);
        let name_end = end_of_item(descriptor, 0, OPEN);
        let name = match decode_text(slice_subrange(descriptor, 0, name_end)) {
            Some(n) => n,
            None => {
                return None;
            },
        };
        let lowered = to_lowercase(name.as_str());
        let file_name = Location::sheet_file_name(lowered.as_str(), lang);
        if name_end == descriptor.len() {
            return Some(Location { file_name, indices: None });
        }
        let list_end = end_of_item(descriptor, name_end + 1, OPEN);
        assert(tail(descriptor@, name_end + 1) =~= descriptor@.subrange(
            name_end + 1,
            descriptor@.len() as int,
        ));
        let list = copy_without(slice_subrange(descriptor, name_end + 1, list_end), CLOSE);
        match Which::from_descriptor(list.as_slice()) {
            Some(w) => Some(Location { file_name, indices: Some(w) }),
            None => None,
        }
    }
}

/// A phrase in one language.
#[derive(Debug)]
pub struct SingleLangCompletion {
    pub category: u64,
    pub id: u64,
    pub value: String,
}

/// The phrases of one language.
#[derive(Debug)]
pub struct SingleLangDatabase {
    /// The directory that holds the sheets.
    pub directory_path: String,
    pub completions: Vec<SingleLangCompletion>,
    pub language: Lang,
}

/// A phrase in each language.
#[derive(Debug)]
pub struct CompletionValues {
    pub en: String,
    pub de: String,
    pub fr: String,
    pub ja: String,
}

/// A phrase with its key.
#[derive(Debug)]
pub struct Completion {
    pub category: u64,
    pub id: u64,
    pub values: CompletionValues,
}

/// The phrases of all languages.
#[derive(Debug)]
pub struct Database {
    pub completions: Vec<Completion>,
}

/// The mathematical value of [`CompletionValues`].
pub struct ValuesModel {
    pub en: Seq<char>,
    pub de: Seq<char>,
    pub fr: Seq<char>,
    pub ja: Seq<char>,
}

/// The mathematical value of a [`Completion`].
pub struct CompletionModel {
    pub category: u64,
    pub id: u64,
    pub values: ValuesModel,
}

impl View for CompletionValues {
    type V = ValuesModel;

    open spec fn view(&self) -> ValuesModel {
        ValuesModel { en: self.en@, de: self.de@, fr: self.fr@, ja: self.ja@ }
    }
}

impl View for Completion {
    type V = CompletionModel;

    open spec fn view(&self) -> CompletionModel {
        CompletionModel { category: self.category, id: self.id, values: self.values@ }
    }
}

impl View for Database {
    type V = Seq<CompletionModel>;

    open spec fn view(&self) -> Seq<CompletionModel> {
        Seq::new(self.completions@.len(), |i: int| self.completions@[i]@)
    }
}

/// A phrase in no language.
pub open spec fn no_values() -> ValuesModel {
    ValuesModel { en: Seq::empty(), de: Seq::empty(), fr: Seq::empty(), ja: Seq::empty() }
}

/// The phrase with its text in one language replaced.
pub open spec fn with_value(v: ValuesModel, lang: Lang, text: Seq<char>) -> ValuesModel {
    match lang {
        Lang::English => ValuesModel { en: text, ..v },
        Lang::German => ValuesModel { de: text, ..v },
        Lang::French => ValuesModel { fr: text, ..v },
        Lang::Japanese => ValuesModel { ja: text, ..v },
    }
}

/// The phrases of the first language, each with its text in that language
/// alone.
pub open spec fn seed(cs: Seq<SingleLangCompletion>, lang: Lang) -> Seq<CompletionModel> {
    Seq::new(
        cs.len(),
        |i: int|
            CompletionModel {
                category: cs[i].category,
                id: cs[i].id,
                values: with_value(no_values(), lang, cs[i].value@),
            },
    )
}

/// The phrase has the key of `c`.
pub open spec fn same_key(m: CompletionModel, c: SingleLangCompletion) -> bool {
    m.id == c.id && m.category == c.category
}

/// The place of the first phrase at or after `k` that has the key of `c`.
pub open spec fn key_place(ms: Seq<CompletionModel>, c: SingleLangCompletion, k: int) -> Option<
    int,
>
    decreases ms.len() - k,
{
    if k < 0 || k >= ms.len() {
        None
    } else if same_key(ms[k], c) {
        Some(k)
    } else {
        key_place(ms, c, k + 1)
    }
}

/// The phrases with the text of `c` put in, in the language `lang`, at the
/// first phrase that has its key; none where no phrase has it.
pub open spec fn merge_one(ms: Seq<CompletionModel>, lang: Lang, c: SingleLangCompletion)
    -> Option<Seq<CompletionModel>> {
    match key_place(ms, c, 0) {
        Some(i) => Some(
            ms.update(
                i,
                CompletionModel { values: with_value(ms[i].values, lang, c.value@), ..ms[i] },
            ),
        ),
        None => None,
    }
}

/// The phrases with the texts of `cs` from the place `k` on put in, one
/// after the other.
pub open spec fn merge_from(
    ms: Seq<CompletionModel>,
    lang: Lang,
    cs: Seq<SingleLangCompletion>,
    k: int,
) -> Option<Seq<CompletionModel>>
    decreases cs.len() - k,
{
    if k < 0 || k >= cs.len() {
        Some(ms)
    } else {
        match merge_one(ms, lang, cs[k]) {
            Some(next) => merge_from(next, lang, cs, k + 1),
            None => None,
        }
    }
}

/// The phrases with the languages from the place `j` on put in, one after
/// the other.
pub open spec fn merge_languages(
    ms: Seq<CompletionModel>,
    single: Seq<SingleLangDatabase>,
    j: int,
) -> Option<Seq<CompletionModel>>
    decreases single.len() - j,
{
    if j < 0 || j >= single.len() {
        Some(ms)
    } else {
        match merge_from(ms, single[j].language, single[j].completions@, 0) {
            Some(next) => merge_languages(next, single, j + 1),
            None => None,
        }
    }
}

/// The phrases with what is left of the language `j`, from its place `k`
/// on, and then the languages after it put in.
pub open spec fn merge_rest(
    ms: Seq<CompletionModel>,
    single: Seq<SingleLangDatabase>,
    j: int,
    k: int,
) -> Option<Seq<CompletionModel>> {
    match merge_from(ms, single[j].language, single[j].completions@, k) {
        Some(next) => merge_languages(next, single, j + 1),
        None => None,
    }
}

/// The dictionary of all languages: the phrases of the first, with the texts
/// of the others put in by key. There is none without a language, nor where
/// a later language has a phrase whose key the first lacks.
pub open spec fn from_single_lang_spec(single: Seq<SingleLangDatabase>) -> Option<
    Seq<CompletionModel>,
> {
    if single.len() == 0 {
        None
    } else {
        merge_languages(seed(single[0].completions@, single[0].language), single, 1)
    }
}

/// What a builder of dictionaries returned, as a model.
pub open spec fn database_model_of(r: Option<Database>) -> Option<Seq<CompletionModel>> {
    match r {
        Some(db) => Some(db@),
        None => None,
    }
}

impl CompletionValues {
    /// A copy with the text in one language replaced.
    pub fn with_value(&self, lang: Lang, text: &String) -> (values: CompletionValues)
        ensures
            values@ == with_value(self@, lang, text@),
    {
        match lang {
            Lang::English => CompletionValues {
                en: text.clone(),
                de: self.de.clone(),
                fr: self.fr.clone(),
                ja: self.ja.clone(),
            },
            Lang::German => CompletionValues {
                en: self.en.clone(),
                de: text.clone(),
                fr: self.fr.clone(),
                ja: self.ja.clone(),
            },
            Lang::French => CompletionValues {
                en: self.en.clone(),
                de: self.de.clone(),
                fr: text.clone(),
                ja: self.ja.clone(),
            },
            Lang::Japanese => CompletionValues {
                en: self.en.clone(),
                de: self.de.clone(),
                fr: self.fr.clone(),
                ja: text.clone(),
            },
        }
    }
}

impl Database {
    /// Finds the first phrase that has the key of `c`.
    fn find_key(&self, c: &SingleLangCompletion) -> (r: Option<usize>)
        ensures
            match r {
                Some(i) => key_place(self@, *c, 0) == Some(i as int) && i < self.completions@.len(),
                None => key_place(self@, *c, 0) is None,
            },
    {
        let mut i: usize = 0;
        while i < self.completions.len()
            invariant
                i <= self.completions@.len(),
                key_place(self@, *c, 0) == key_place(self@, *c, i as int),
            decreases self.completions@.len() - i,
        {
            if self.completions[i].id == c.id && self.completions[i].category == c.category {
                return Some(i);
            }
            i += 1;
        }
        None
    }

    /// Puts the text of `c` in, in the language `lang`; tells whether a
    /// phrase has its key.
    fn merge_one(&mut self, lang: Lang, c: &SingleLangCompletion) -> (ok: bool)
        ensures
            match merge_one(old(self)@, lang, *c) {
                Some(ms) => ok && final(self)@ == ms,
                None => !ok,
            },
    {
        match self.find_key(c) {
            Some(i) => {
                let found = &self.completions[i];
                let updated = Completion {
                    category: found.category,
                    id: found.id,
                    values: found.values.with_value(lang, &c.value),
                };
                self.completions.set(i, updated);
                assert(self@ =~= merge_one(old(self)@, lang, *c)->0);
                true
            },
            None => false,
        }
    }

    /// Joins the dictionaries of single languages into one.
    pub fn from_single_lang(single: Vec<SingleLangDatabase>) -> (r: Option<Database>)
        ensures
            database_model_of(r) == from_single_lang_spec(single@),
    {
        if single.len() == 0 {
            return None;
        }
        let first = &single[0];
        let mut db = Database { completions: Vec::new() };
        let mut i: usize = 0;
        while i < first.completions.len()
            invariant
                i <= first.completions@.len(),
                db@ =~= seed(first.completions@, first.language).subrange(0, i as int),
            decreases first.completions@.len() - i,
        {
            let c = &first.completions[i];
            let empty = CompletionValues {
                en: String::new(),
                de: String::new(),
                fr: String::new(),
                ja: String::new(),
            };
            assert(empty@ == no_values());
            let ghost before = db@;
            let added = Completion {
                category: c.category,
                id: c.id,
                values: empty.with_value(first.language, &c.value),
            };
            assert(added@ == seed(first.completions@, first.language)[i as int]);
            db.completions.push(added);
            assert(db@ =~= before.push(added@));
            i += 1;
        }
        assert(db@ =~= seed(first.completions@, first.language));
        let mut j: usize = 1;
        while j < single.len()
            invariant
                1 <= j <= single@.len(),
                from_single_lang_spec(single@) == merge_languages(db@, single@, j as int),
            decreases single@.len() - j,
        {
            let language = single[j].language;
            let mut k: usize = 0;
            while k < single[j].completions.len()
                invariant
                    1 <= j < single@.len(),
                    language == single@[j as int].language,
                    k <= single@[j as int].completions@.len(),
                    from_single_lang_spec(single@) == merge_rest(db@, single@, j as int, k as int),
                decreases single@[j as int].completions@.len() - k,
            {
                if !db.merge_one(language, &single[j].completions[k]) {
                    return None;
                }
                k += 1;
            }
            j += 1;
        }
        Some(db)
    }
}

/// The mathematical value of a [`SingleLangCompletion`].
pub struct PhraseModel {
    pub category: u64,
    pub id: u64,
    pub value: Seq<char>,
}

impl View for SingleLangCompletion {
    type V = PhraseModel;

    open spec fn view(&self) -> PhraseModel {
        PhraseModel { category: self.category, id: self.id, value: self.value@ }
    }
}

/// The models of a row of phrases, in order.
pub open spec fn phrase_models(phrases: Seq<SingleLangCompletion>) -> Seq<PhraseModel> {
    Seq::new(phrases.len(), |i: int| phrases[i]@)
}

/// What a row of the sheet of phrases asks for.
#[derive(Debug)]
pub enum RowKind {
    /// The row holds its phrase itself.
    Direct,
    /// The row holds no phrase.
    Skip,
    /// The phrases of the row's category stand in another sheet.
    Sheet(Location),
    /// The row names another sheet in a way that cannot be read.
    Malformed,
}

/// The bytes of `@`, which marks a row without a phrase.
pub open spec fn no_phrase_mark() -> Seq<u8> {
    seq![0x40]
}

impl RowKind {
    /// Tells what a row asks for, by the field that may name another sheet:
    /// empty for a phrase in the row itself, `@` for none, else a
    /// descriptor.
    pub fn of_location(location: &[u8], lang: &Lang) -> (kind: RowKind)
        ensures
            location@.len() == 0 ==> kind is Direct,
            location@ == no_phrase_mark() ==> kind is Skip,
            location@.len() != 0 && location@ != no_phrase_mark() ==> match location_spec(
                location@,
                *lang,
            ) {
                Some(m) => kind matches RowKind::Sheet(l) && l@ == m,
                None => kind is Malformed,
            },
    {
        if location.len() == 0 {
            return RowKind::Direct;
        }
        if location.len() == 1 && location[0] == 0x40 {
            assert(location@ =~= no_phrase_mark());
            return RowKind::Skip;
        }
        proof {
            if location@.len() == 1 {
                assert(no_phrase_mark()[0] == 0x40);
            }
        }
        match Location::from_descriptor(location, lang) {
            Some(l) => RowKind::Sheet(l),
            None => RowKind::Malformed,
        }
    }
}

/// What a row of another sheet gives.
pub enum Picked {
    /// The row cannot be read.
    Malformed,
    /// The row does not count, or its text is empty.
    Skipped,
    /// The row's phrase.
    Taken { id: u64, value: Seq<char> },
}

/// The column that holds the text: the one after the column that the list
/// names, or the second where there is no list.
pub open spec fn text_column(indices: Option<WhichModel>) -> int {
    match indices {
        Some(w) => ((w.column as u64) as usize) as int + 1,
        None => 1,
    }
}

/// What a row of another sheet gives: its first field is the number of the
/// row; a row that the list leaves out does not count; else the text stands
/// in the column that the list names. A row without a number or without
/// that column cannot be read.
pub open spec fn pick_row(indices: Option<WhichModel>, row: Seq<String>) -> Picked {
    if row.len() == 0 {
        Picked::Malformed
    } else {
        match parse_u64(encode_utf8(row[0]@), 10) {
            None => Picked::Malformed,
            Some(id) => if indices is Some && !contains_spec(
                indices->0,
                ((id as u64) as usize) as int,
            ) {
                Picked::Skipped
            } else if text_column(indices) >= row.len() {
                Picked::Malformed
            } else if row[text_column(indices)]@.len() == 0 {
                Picked::Skipped
            } else {
                Picked::Taken { id: id as u64, value: row[text_column(indices)]@ }
            },
        }
    }
}

/// The phrases that the rows of another sheet give for a category, in the
/// order of the rows; none where a row cannot be read.
pub open spec fn select_spec(category: u64, indices: Option<WhichModel>, rows: Seq<Vec<String>>)
    -> Option<Seq<PhraseModel>>
    decreases rows.len(),
{
    if rows.len() == 0 {
        Some(Seq::empty())
    } else {
        match select_spec(category, indices, rows.drop_last()) {
            None => None,
            Some(taken) => match pick_row(indices, rows.last()@) {
                Picked::Malformed => None,
                Picked::Skipped => Some(taken),
                Picked::Taken { id, value } => Some(
                    taken.push(PhraseModel { category: category, id: id, value: value }),
                ),
            },
        }
    }
}

/// What a reader of rows returned, as a model.
pub open spec fn phrases_model_of(r: Option<Vec<SingleLangCompletion>>) -> Option<
    Seq<PhraseModel>,
> {
    match r {
        Some(v) => Some(phrase_models(v@)),
        None => None,
    }
}

impl Location {
    /// What one row of the sheet at this location gives for a category: the
    /// phrase, or nothing where the row does not count, or, outside, nothing
    /// where the row cannot be read.
    pub fn pick_row(&self, category: u64, row: &Vec<String>) -> (r: Option<
        Option<SingleLangCompletion>,
    >)
        ensures
            match pick_row(self@.indices, row@) {
                Picked::Malformed => r is None,
                Picked::Skipped => r == Some(None::<SingleLangCompletion>),
                Picked::Taken { id, value } => r matches Some(Some(c)) && c@ == (PhraseModel {
                    category: category,
                    id: id,
                    value: value,
                }),
            },
    {
        if row.len() == 0 {
            return None;
        }
        let id = match read_decimal(row[0].as_str().as_bytes()) {
            Some(id) => id,
            None => {
                return None;
            },
        };
        let column: usize = match &self.indices {
            Some(w) => {
                if !w.contains(id) {
                    return Some(None);
                }
                let c = w.column as usize;
                if c >= row.len() {
                    return None;
                }
                c + 1
            },
            None => 1,
        };
        if column >= row.len() {
            return None;
        }
        if row[column].as_str().is_empty() {
            return Some(None);
        }
        let value = row[column].clone();
        Some(Some(SingleLangCompletion { category, id, value }))
    }

    /// The phrases that the rows of the sheet at this location give for a
    /// category.
    pub fn select_rows(&self, category: u64, rows: &Vec<Vec<String>>) -> (r: Option<
        Vec<SingleLangCompletion>,
    >)
        ensures
            phrases_model_of(r) == select_spec(category, self@.indices, rows@),
    {
        let mut completions: Vec<SingleLangCompletion> = Vec::new();
        let mut i: usize = 0;
        assert(rows@.subrange(0, 0) =~= Seq::<Vec<String>>::empty());
        assert(phrase_models(completions@) =~= Seq::<PhraseModel>::empty());
        while i < rows.len()
            invariant
                i <= rows@.len(),
                select_spec(category, self@.indices, rows@.subrange(0, i as int)) == Some(
                    phrase_models(completions@),
                ),
            decreases rows@.len() - i,
        {
            let ghost upto = rows@.subrange(0, i + 1);
            let ghost taken = phrase_models(completions@);
            proof {
                assert(upto.drop_last() =~= rows@.subrange(0, i as int));
                assert(upto.last() == rows@[i as int]);
            }
            match self.pick_row(category, &rows[i]) {
                None => {
                    proof {
                        lemma_select_grows(category, self@.indices, rows@, i + 1);
                    }
                    return None;
                },
                Some(None) => {},
                Some(Some(c)) => {
                    completions.push(c);
                    assert(phrase_models(completions@) =~= taken.push(c@));
                },
            }
            i += 1;
        }
        assert(rows@.subrange(0, rows@.len() as int) =~= rows@);
        Some(completions)
    }
}

/// Once some of the rows cannot be read, the whole sheet cannot.
pub proof fn lemma_select_grows(
    category: u64,
    indices: Option<WhichModel>,
    rows: Seq<Vec<String>>,
    k: int,
)
    requires
        0 <= k <= rows.len(),
        select_spec(category, indices, rows.subrange(0, k)) is None,
    ensures
        select_spec(category, indices, rows) is None,
    decreases rows.len(),
{
    if k == rows.len() {
        assert(rows.subrange(0, k) =~= rows);
    } else {
        assert(rows.drop_last().subrange(0, k) =~= rows.subrange(0, k));
        lemma_select_grows(category, indices, rows.drop_last(), k);
    }
}

} // verus!
