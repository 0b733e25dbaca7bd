//! What holds of the grammar for every input.

use vstd::prelude::*;
use crate::messages::grammar::{
    auto_translate_length, closed_length, flush, icon_length, kind_length, known_id, name_length,
    or_zero, parse_spec, scan, span_length, structure_at, text_or_bytes, END, START,
};
use crate::messages::parts::PartModel;
use crate::messages::search::{
    first_byte, first_pair, last_pair, lemma_first_byte_found, lemma_first_pair_found,
    lemma_last_pair_found, tail,
};

verus! {

/// The fragment of the structure at the start of `m`, where one stands
/// there.
pub open spec fn structure_part(m: Seq<u8>) -> PartModel {
    match structure_at(m) {
        Some((_, part)) => part,
        None => PartModel::Bytes(Seq::empty()),
    }
}

/// The number of bytes by which the scan moves on at the place `i` of `s`:
/// the length of the structure that stands there, or one for a plain byte.
pub open spec fn advance(s: Seq<u8>, i: int) -> int {
    if 0 <= i < s.len() && s[i] == START {
        match structure_at(s.subrange(i, s.len() as int)) {
            Some((len, _)) => len,
            None => 1,
        }
    } else {
        1
    }
}

/// A search that found nothing counts as zero, and one that found a place
/// counts as that place, which is not negative.
pub proof fn lemma_first_byte_or_zero(s: Seq<u8>, b: u8)
    ensures
        0 <= or_zero(first_byte(s, b)),
        first_byte(s, b) is Some ==> or_zero(first_byte(s, b)) < s.len(),
{
    lemma_first_byte_found(s, b);
}

/// The length of a structure that a second marker closes is at least three.
pub proof fn lemma_closed_length(b: Seq<u8>, close: Option<int>)
    requires
        close matches Some(e) ==> 0 <= e,
    ensures
        closed_length(b, close) >= 3,
{
    lemma_first_byte_or_zero(tail(b, or_zero(close) + 2), END);
}

/// Every kind gives every input a length of at least three bytes, so a
/// structure that is accepted always moves the scan on.
pub proof fn lemma_kind_length_at_least_three(id: u8, b: Seq<u8>)
    ensures
        kind_length(id, b) >= 3,
{
    lemma_first_pair_found(tail(b, 2), START, crate::messages::grammar::NAME_ID);
    lemma_closed_length(b, first_pair(tail(b, 2), START, crate::messages::grammar::NAME_ID));
    lemma_last_pair_found(tail(b, 2), START, crate::messages::grammar::SELECTABLE_ID);
    lemma_closed_length(b, last_pair(tail(b, 2), START, crate::messages::grammar::SELECTABLE_ID));
    lemma_last_pair_found(tail(b, 2), START, crate::messages::grammar::FORMATTED_ID);
    lemma_closed_length(b, last_pair(tail(b, 2), START, crate::messages::grammar::FORMATTED_ID));
    lemma_first_byte_or_zero(
        tail(b, 2 + crate::messages::grammar::byte_or_zero(b, 2)),
        END,
    );
    assert(name_length(b) >= 3);
    assert(span_length(b, crate::messages::grammar::SELECTABLE_ID) >= 3);
    assert(span_length(b, crate::messages::grammar::FORMATTED_ID) >= 3);
    assert(auto_translate_length(b) >= 3);
    assert(icon_length(b) >= 3);
}

/// A structure takes at least three bytes and no more than there are.
pub proof fn lemma_structure_bounds(m: Seq<u8>)
    ensures
        structure_at(m) matches Some((len, _)) ==> 3 <= len <= m.len(),
{
    if m.len() >= 2 && known_id(m[1]) {
        lemma_kind_length_at_least_three(m[1], m);
    }
}

/// Progress: at every place of the input the scan moves on by at least one
/// byte and never past the end.
pub proof fn lemma_scan_advances(s: Seq<u8>, i: int)
    requires
        0 <= i < s.len(),
    ensures
        1 <= advance(s, i) <= s.len() - i,
{
    lemma_structure_bounds(s.subrange(i, s.len() as int));
}

/// One step of the scan: a structure closes the pending run and is followed
/// by the scan of what comes after it; any other byte joins the run.
pub proof fn lemma_scan_step(s: Seq<u8>, i: int, run: Seq<u8>)
    requires
        0 <= i < s.len(),
    ensures
        scan(s, i, run) == if s[i] == START && structure_at(s.subrange(i, s.len() as int))
            is Some {
            flush(run) + seq![structure_part(s.subrange(i, s.len() as int))] + scan(
                s,
                i + advance(s, i),
                Seq::empty(),
            )
        } else {
            scan(s, i + 1, run.push(s[i]))
        },
{
    lemma_structure_bounds(s.subrange(i, s.len() as int));
}

/// Every byte reaches the output: input that is not empty gives at least
/// one fragment, and so does a pending run that is not empty.
pub proof fn lemma_scan_nonempty(s: Seq<u8>, i: int, run: Seq<u8>)
    requires
        0 <= i <= s.len(),
        i < s.len() || run.len() > 0,
    ensures
        scan(s, i, run).len() > 0,
    decreases s.len() - i,
{
    if i < s.len() {
        lemma_scan_step(s, i, run);
        if !(s[i] == START && structure_at(s.subrange(i, s.len() as int)) is Some) {
            lemma_scan_nonempty(s, i + 1, run.push(s[i]));
        }
    }
}

/// A message that is not empty decodes to at least one fragment, and the
/// empty message to none.
pub proof fn lemma_parse_nonempty(s: Seq<u8>)
    ensures
        parse_spec(s).len() == 0 <==> s.len() == 0,
{
    if s.len() > 0 {
        lemma_scan_nonempty(s, 0, Seq::empty());
    }
}

/// From a place after which no byte opens a structure, the scan gives the
/// pending run and the rest of the input as one fragment.
pub proof fn lemma_scan_plain(s: Seq<u8>, i: int, run: Seq<u8>)
    requires
        0 <= i <= s.len(),
        forall|j: int| i <= j < s.len() ==> s[j] != START,
    ensures
        scan(s, i, run) == flush(run + s.subrange(i, s.len() as int)),
    decreases s.len() - i,
{
    if i < s.len() {
        lemma_scan_plain(s, i + 1, run.push(s[i]));
        assert(run.push(s[i]) + s.subrange(i + 1, s.len() as int) =~= run + s.subrange(
            i,
            s.len() as int,
        ));
    } else {
        assert(run + s.subrange(i, s.len() as int) =~= run);
    }
}

/// A message without the byte that opens structures is one fragment: all of
/// it, as text or as bytes.
pub proof fn lemma_plain_message(s: Seq<u8>)
    requires
        forall|j: int| 0 <= j < s.len() ==> s[j] != START,
    ensures
        parse_spec(s) == flush(s),
{
    lemma_scan_plain(s, 0, Seq::empty());
    assert(Seq::<u8>::empty() + s.subrange(0, s.len() as int) =~= s);
}

/// The stretch of input that one fragment stands for.
pub struct Cut {
    /// The place of its first byte.
    pub start: int,
    /// The place after its last byte.
    pub end: int,
    /// It is a structure, not a run of plain bytes.
    pub structure: bool,
}

/// The stretch of plain bytes from `from` up to `to`, if it holds any.
pub open spec fn run_cut(from: int, to: int) -> Seq<Cut> {
    if from < to {
        seq![Cut { start: from, end: to, structure: false }]
    } else {
        Seq::empty()
    }
}

/// The stretches into which the scan parts the input from the place `i` on,
/// where the pending run of plain bytes began at `from`.
pub open spec fn cuts(s: Seq<u8>, i: int, from: int) -> Seq<Cut>
    decreases s.len() - i,
{
    if i < 0 || i >= s.len() {
        run_cut(from, s.len() as int)
    } else if s[i] == START && structure_at(s.subrange(i, s.len() as int)) is Some && 1
        <= advance(s, i) <= s.len() - i {
        run_cut(from, i) + seq![Cut { start: i, end: i + advance(s, i), structure: true }] + cuts(
            s,
            i + advance(s, i),
            i + advance(s, i),
        )
    } else {
        cuts(s, i + 1, from)
    }
}

/// The stretches lie end to end from `a` to `b`, and none is empty.
pub open spec fn tiles(c: Seq<Cut>, a: int, b: int) -> bool
    decreases c.len(),
{
    if c.len() == 0 {
        a == b
    } else {
        c[0].start == a && a < c[0].end && tiles(c.drop_first(), c[0].end, b)
    }
}

/// The fragment that stands for a stretch: the structure that starts there,
/// or its bytes as text or as bytes.
pub open spec fn fragment_of(s: Seq<u8>, c: Cut) -> PartModel {
    if c.structure {
        structure_part(s.subrange(c.start, s.len() as int))
    } else {
        text_or_bytes(s.subrange(c.start, c.end))
    }
}

/// The fragments that stand for stretches, in their order.
pub open spec fn fragments_of(s: Seq<u8>, c: Seq<Cut>) -> Seq<PartModel> {
    Seq::new(c.len(), |k: int| fragment_of(s, c[k]))
}

/// One stretch that is not empty lies end to end from its start to its end.
pub proof fn lemma_tiles_single(c: Cut)
    requires
        c.start < c.end,
    ensures
        tiles(seq![c], c.start, c.end),
{
    reveal_with_fuel(tiles, 2);
    assert(seq![c].drop_first() =~= Seq::<Cut>::empty());
}

/// Stretches that lie end to end, followed by more that do, lie end to end.
pub proof fn lemma_tiles_join(x: Seq<Cut>, y: Seq<Cut>, a: int, m: int, b: int)
    requires
        tiles(x, a, m),
        tiles(y, m, b),
    ensures
        tiles(x + y, a, b),
    decreases x.len(),
{
    if x.len() == 0 {
        assert(x + y =~= y);
    } else {
        lemma_tiles_join(x.drop_first(), y, x[0].end, m, b);
        assert((x + y).drop_first() =~= x.drop_first() + y);
    }
}

/// The stretches of the scan lie end to end from the start of the pending
/// run to the end of the input.
pub proof fn lemma_cuts_tile(s: Seq<u8>, i: int, from: int)
    requires
        0 <= from <= i <= s.len(),
    ensures
        tiles(cuts(s, i, from), from, s.len() as int),
    decreases s.len() - i,
{
    if i >= s.len() {
        if from < s.len() {
            lemma_tiles_single(Cut { start: from, end: s.len() as int, structure: false });
        }
    } else if s[i] == START && structure_at(s.subrange(i, s.len() as int)) is Some && 1
        <= advance(s, i) <= s.len() - i {
        let next = i + advance(s, i);
        let r = run_cut(from, i);
        let one = seq![Cut { start: i, end: next, structure: true }];
        lemma_cuts_tile(s, next, next);
        if from < i {
            lemma_tiles_single(Cut { start: from, end: i, structure: false });
        }
        lemma_tiles_single(Cut { start: i, end: next, structure: true });
        lemma_tiles_join(r, one, from, i, next);
        lemma_tiles_join(r + one, cuts(s, next, next), from, next, s.len() as int);
    } else {
        lemma_cuts_tile(s, i + 1, from);
    }
}

/// The fragments of the scan are those of its stretches, one for each.
pub proof fn lemma_scan_follows_cuts(s: Seq<u8>, i: int, from: int)
    requires
        0 <= from <= i <= s.len(),
    ensures
        scan(s, i, s.subrange(from, i)) == fragments_of(s, cuts(s, i, from)),
    decreases s.len() - i,
{
    let run = s.subrange(from, i);
    if i >= s.len() {
        assert(scan(s, i, run) =~= fragments_of(s, cuts(s, i, from)));
    } else if s[i] == START && structure_at(s.subrange(i, s.len() as int)) is Some {
        lemma_scan_advances(s, i);
        lemma_scan_step(s, i, run);
        let next = i + advance(s, i);
        lemma_scan_follows_cuts(s, next, next);
        assert(s.subrange(next, next) =~= Seq::<u8>::empty());
        let r = run_cut(from, i);
        let one = seq![Cut { start: i, end: next, structure: true }];
        let rest = cuts(s, next, next);
        assert(fragments_of(s, r) =~= flush(run));
        assert(fragments_of(s, one) =~= seq![structure_part(s.subrange(i, s.len() as int))]);
        assert(fragments_of(s, r + one + rest) =~= fragments_of(s, r) + fragments_of(s, one)
            + fragments_of(s, rest));
    } else {
        lemma_scan_step(s, i, run);
        lemma_scan_follows_cuts(s, i + 1, from);
        assert(run.push(s[i]) =~= s.subrange(from, i + 1));
    }
}

/// Every byte of a message belongs to exactly one fragment: the stretches
/// that the fragments stand for lie end to end from the first byte to the
/// last, and the message decodes to one fragment for each of them.
pub proof fn lemma_every_byte_in_one_fragment(s: Seq<u8>)
    ensures
        tiles(cuts(s, 0, 0), 0, s.len() as int),
        parse_spec(s) == fragments_of(s, cuts(s, 0, 0)),
{
    lemma_cuts_tile(s, 0, 0);
    lemma_scan_follows_cuts(s, 0, 0);
    assert(s.subrange(0, 0) =~= Seq::<u8>::empty());
}

} // verus!
