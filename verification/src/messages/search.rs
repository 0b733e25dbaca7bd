//! Searches for delimiters in a run of bytes.

use vstd::prelude::*;

verus! {

/// The bytes of `s` from `from` on; none where `from` lies past the end.
pub open spec fn tail(s: Seq<u8>, from: int) -> Seq<u8> {
    if 0 <= from <= s.len() {
        s.subrange(from, s.len() as int)
    } else {
        Seq::empty()
    }
}

/// The byte `b` stands at `i`.
pub open spec fn byte_at(s: Seq<u8>, i: int, b: u8) -> bool {
    0 <= i < s.len() && s[i] == b
}

/// `i` is the first place where `b` stands.
pub open spec fn is_first_byte(s: Seq<u8>, i: int, b: u8) -> bool {
    byte_at(s, i, b) && forall|j: int| 0 <= j < i ==> !byte_at(s, j, b)
}

/// The first place where `b` stands, if it occurs.
pub open spec fn first_byte(s: Seq<u8>, b: u8) -> Option<int> {
    if exists|i: int| byte_at(s, i, b) {
        Some(choose|i: int| is_first_byte(s, i, b))
    } else {
        None
    }
}

/// `i` is the last place where `b` stands.
pub open spec fn is_last_byte(s: Seq<u8>, i: int, b: u8) -> bool {
    byte_at(s, i, b) && forall|j: int| i < j ==> !byte_at(s, j, b)
}

/// The last place where `b` stands, if it occurs.
pub open spec fn last_byte(s: Seq<u8>, b: u8) -> Option<int> {
    if exists|i: int| byte_at(s, i, b) {
        Some(choose|i: int| is_last_byte(s, i, b))
    } else {
        None
    }
}

/// A place that is last for `b` is the one that `last_byte` names.
pub proof fn lemma_last_byte(s: Seq<u8>, i: int, b: u8)
    requires
        is_last_byte(s, i, b),
    ensures
        last_byte(s, b) == Some(i),
{
    let c = choose|k: int| is_last_byte(s, k, b);
    assert(byte_at(s, i, b));
    assert(is_last_byte(s, c, b));
    if c < i {
        assert(!byte_at(s, i, b));
    }
    if i < c {
        assert(!byte_at(s, c, b));
    }
}

/// The bytes `a`, `b` stand at `i` and `i + 1`.
pub open spec fn pair_at(s: Seq<u8>, i: int, a: u8, b: u8) -> bool {
    0 <= i && i + 1 < s.len() && s[i] == a && s[i + 1] == b
}

/// `i` is the first place where the pair `a`, `b` stands.
pub open spec fn is_first_pair(s: Seq<u8>, i: int, a: u8, b: u8) -> bool {
    pair_at(s, i, a, b) && forall|j: int| 0 <= j < i ==> !pair_at(s, j, a, b)
}

/// `i` is the last place where the pair `a`, `b` stands.
pub open spec fn is_last_pair(s: Seq<u8>, i: int, a: u8, b: u8) -> bool {
    pair_at(s, i, a, b) && forall|j: int| i < j ==> !pair_at(s, j, a, b)
}

/// The first place where the pair `a`, `b` stands, if it occurs.
pub open spec fn first_pair(s: Seq<u8>, a: u8, b: u8) -> Option<int> {
    if exists|i: int| pair_at(s, i, a, b) {
        Some(choose|i: int| is_first_pair(s, i, a, b))
    } else {
        None
    }
}

/// The last place where the pair `a`, `b` stands, if it occurs.
pub open spec fn last_pair(s: Seq<u8>, a: u8, b: u8) -> Option<int> {
    if exists|i: int| pair_at(s, i, a, b) {
        Some(choose|i: int| is_last_pair(s, i, a, b))
    } else {
        None
    }
}

/// A place that is first for `b` is the one that `first_byte` names.
pub proof fn lemma_first_byte(s: Seq<u8>, i: int, b: u8)
    requires
        is_first_byte(s, i, b),
    ensures
        first_byte(s, b) == Some(i),
{
    let c = choose|k: int| is_first_byte(s, k, b);
    assert(byte_at(s, i, b));
    assert(is_first_byte(s, c, b));
    if c < i {
        assert(!byte_at(s, c, b));
    }
    if i < c {
        assert(!byte_at(s, i, b));
    }
}

/// A place that is first for the pair is the one that `first_pair` names.
pub proof fn lemma_first_pair(s: Seq<u8>, i: int, a: u8, b: u8)
    requires
        is_first_pair(s, i, a, b),
    ensures
        first_pair(s, a, b) == Some(i),
{
    let c = choose|k: int| is_first_pair(s, k, a, b);
    assert(pair_at(s, i, a, b));
    assert(is_first_pair(s, c, a, b));
    if c < i {
        assert(!pair_at(s, c, a, b));
    }
    if i < c {
        assert(!pair_at(s, i, a, b));
    }
}

/// A place that is last for the pair is the one that `last_pair` names.
pub proof fn lemma_last_pair(s: Seq<u8>, i: int, a: u8, b: u8)
    requires
        is_last_pair(s, i, a, b),
    ensures
        last_pair(s, a, b) == Some(i),
{
    let c = choose|k: int| is_last_pair(s, k, a, b);
    assert(pair_at(s, i, a, b));
    assert(is_last_pair(s, c, a, b));
    if c < i {
        assert(!pair_at(s, i, a, b));
    }
    if i < c {
        assert(!pair_at(s, c, a, b));
    }
}

/// Where `b` occurs, it occurs at a first place.
proof fn lemma_least_byte(s: Seq<u8>, w: int, b: u8)
    requires
        byte_at(s, w, b),
    ensures
        exists|i: int| is_first_byte(s, i, b),
    decreases w,
{
    if exists|j: int| 0 <= j < w && byte_at(s, j, b) {
        let j = choose|j: int| 0 <= j < w && byte_at(s, j, b);
        lemma_least_byte(s, j, b);
    } else {
        assert(is_first_byte(s, w, b));
    }
}

/// Where the pair occurs, it occurs at a first place.
proof fn lemma_least_pair(s: Seq<u8>, w: int, a: u8, b: u8)
    requires
        pair_at(s, w, a, b),
    ensures
        exists|i: int| is_first_pair(s, i, a, b),
    decreases w,
{
    if exists|j: int| 0 <= j < w && pair_at(s, j, a, b) {
        let j = choose|j: int| 0 <= j < w && pair_at(s, j, a, b);
        lemma_least_pair(s, j, a, b);
    } else {
        assert(is_first_pair(s, w, a, b));
    }
}

/// Where the pair occurs, it occurs at a last place.
proof fn lemma_greatest_pair(s: Seq<u8>, w: int, a: u8, b: u8)
    requires
        pair_at(s, w, a, b),
    ensures
        exists|i: int| is_last_pair(s, i, a, b),
    decreases s.len() - w,
{
    if exists|j: int| w < j && pair_at(s, j, a, b) {
        let j = choose|j: int| w < j && pair_at(s, j, a, b);
        lemma_greatest_pair(s, j, a, b);
    } else {
        assert(is_last_pair(s, w, a, b));
    }
}

/// What `first_byte` names is a first place of `b`, and it names one
/// wherever `b` occurs.
pub proof fn lemma_first_byte_found(s: Seq<u8>, b: u8)
    ensures
        match first_byte(s, b) {
            Some(i) => is_first_byte(s, i, b),
            None => forall|j: int| !byte_at(s, j, b),
        },
{
    if exists|i: int| byte_at(s, i, b) {
        let w = choose|i: int| byte_at(s, i, b);
        lemma_least_byte(s, w, b);
    }
}

/// What `first_pair` names is a first place of the pair, and it names one
/// wherever the pair occurs.
pub proof fn lemma_first_pair_found(s: Seq<u8>, a: u8, b: u8)
    ensures
        match first_pair(s, a, b) {
            Some(i) => is_first_pair(s, i, a, b),
            None => forall|j: int| !pair_at(s, j, a, b),
        },
{
    if exists|i: int| pair_at(s, i, a, b) {
        let w = choose|i: int| pair_at(s, i, a, b);
        lemma_least_pair(s, w, a, b);
    }
}

/// What `last_pair` names is a last place of the pair, and it names one
/// wherever the pair occurs.
pub proof fn lemma_last_pair_found(s: Seq<u8>, a: u8, b: u8)
    ensures
        match last_pair(s, a, b) {
            Some(i) => is_last_pair(s, i, a, b),
            None => forall|j: int| !pair_at(s, j, a, b),
        },
{
    if exists|i: int| pair_at(s, i, a, b) {
        let w = choose|i: int| pair_at(s, i, a, b);
        lemma_greatest_pair(s, w, a, b);
    }
}

/// What a search returned, as an optional mathematical index.
pub open spec fn found(r: Option<usize>) -> Option<int> {
    match r {
        Some(i) => Some(i as int),
        None => None,
    }
}

/// Finds the first `b` in `s` at or after `from`, counted from `from`.
pub fn find_byte_from(s: &[u8], from: usize, b: u8) -> (r: Option<usize>)
    ensures
        found(r) == first_byte(tail(s@, from as int), b),
        r matches Some(i) ==> from + i < s@.len() <= usize::MAX,
{
    let n = s.len();
    if from > n {
        assert(tail(s@, from as int).len() == 0);
        return None;
    }
    let ghost t = tail(s@, from as int);
    let mut k: usize = from;
    while k < n
        invariant
            from <= k <= n,
            n == s@.len(),
            t == tail(s@, from as int),
            forall|j: int| 0 <= j < k - from ==> !byte_at(t, j, b),
        decreases n - k,
    {
        if s[k] == b {
            proof {
                assert(t[k - from] == s@[k as int]);
                assert(is_first_byte(t, k - from, b));
                lemma_first_byte(t, k - from, b);
            }
            return Some(k - from);
        }
        assert(t[k - from] == s@[k as int]);
        k += 1;
    }
    assert(forall|j: int| !byte_at(t, j, b));
    None
}

/// Finds the last `b` in `s` at or after `from`, counted from `from`.
pub fn rfind_byte_from(s: &[u8], from: usize, b: u8) -> (r: Option<usize>)
    ensures
        found(r) == last_byte(tail(s@, from as int), b),
        r matches Some(i) ==> from + i < s@.len() <= usize::MAX,
{
    let n = s.len();
    if from > n {
        assert(tail(s@, from as int).len() == 0);
        return None;
    }
    let ghost t = tail(s@, from as int);
    let mut k: usize = n;
    while k > from
        invariant
            from <= k <= n,
            n == s@.len(),
            t == tail(s@, from as int),
            forall|j: int| k - from <= j ==> !byte_at(t, j, b),
        decreases k,
    {
        k -= 1;
        assert(t[k - from] == s@[k as int]);
        if s[k] == b {
            proof {
                assert(is_last_byte(t, k - from, b));
                lemma_last_byte(t, k - from, b);
            }
            return Some(k - from);
        }
    }
    assert(forall|j: int| !byte_at(t, j, b));
    None
}

/// Finds the first place of the pair `a`, `b` in `s` at or after `from`,
/// counted from `from`.
pub fn find_pair_from(s: &[u8], from: usize, a: u8, b: u8) -> (r: Option<usize>)
    ensures
        found(r) == first_pair(tail(s@, from as int), a, b),
        r matches Some(i) ==> from + i + 1 < s@.len() <= usize::MAX,
{
    let n = s.len();
    if from > n || n - from < 2 {
        assert(forall|j: int| !pair_at(tail(s@, from as int), j, a, b));
        return None;
    }
    let ghost t = tail(s@, from as int);
    let mut k: usize = from;
    while k + 1 < n
        invariant
            from <= k < n,
            n == s@.len(),
            t == tail(s@, from as int),
            forall|j: int| 0 <= j < k - from ==> !pair_at(t, j, a, b),
        decreases n - k,
    {
        assert(t[k - from] == s@[k as int]);
        assert(t[k - from + 1] == s@[k + 1]);
        if s[k] == a && s[k + 1] == b {
            proof {
                assert(is_first_pair(t, k - from, a, b));
                lemma_first_pair(t, k - from, a, b);
            }
            return Some(k - from);
        }
        k += 1;
    }
    assert(forall|j: int| !pair_at(t, j, a, b));
    None
}

/// Finds the last place of the pair `a`, `b` in `s` at or after `from`,
/// counted from `from`.
pub fn rfind_pair_from(s: &[u8], from: usize, a: u8, b: u8) -> (r: Option<usize>)
    ensures
        found(r) == last_pair(tail(s@, from as int), a, b),
        r matches Some(i) ==> from + i + 1 < s@.len() <= usize::MAX,
{
    let n = s.len();
    if from > n || n - from < 2 {
        assert(forall|j: int| !pair_at(tail(s@, from as int), j, a, b));
        return None;
    }
    let ghost t = tail(s@, from as int);
    let mut k: usize = n - 1;
    while k > from
        invariant
            from <= k < n,
            n == s@.len(),
            t == tail(s@, from as int),
            forall|j: int| k - from <= j ==> !pair_at(t, j, a, b),
        decreases k,
    {
        k -= 1;
        assert(t[k - from] == s@[k as int]);
        assert(t[k - from + 1] == s@[k + 1]);
        if s[k] == a && s[k + 1] == b {
            proof {
                assert(is_last_pair(t, k - from, a, b));
                lemma_last_pair(t, k - from, a, b);
            }
            return Some(k - from);
        }
    }
    assert(forall|j: int| !pair_at(t, j, a, b));
    None
}

} // verus!
