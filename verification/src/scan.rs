//! Byte-level text scanning primitives.
//!
//! The markdown and WDL surface syntax that this crate recognises is ASCII;
//! scanning works on raw bytes so that multi-byte characters in surrounding
//! prose never disturb positions. Patterns are ASCII string literals; matching
//! against them is either exact or ASCII-case-insensitive.

use vstd::prelude::*;

verus! {

/// Whitespace bytes: space, tab, line feed, vertical tab, form feed,
/// carriage return.
pub open spec fn is_ws(b: u8) -> bool {
    b == 32 || b == 9 || b == 10 || b == 11 || b == 12 || b == 13
}

/// Word bytes: ASCII letters, digits and underscore.
pub open spec fn is_word_byte(b: u8) -> bool {
    (48 <= b && b <= 57) || (65 <= b && b <= 90) || (97 <= b && b <= 122) || b == 95
}

/// ASCII lower-casing of a single byte.
pub open spec fn lower8(b: u8) -> u8 {
    if 65 <= b && b <= 90 {
        (b + 32) as u8
    } else {
        b
    }
}

/// The pattern `p` matches the bytes of `s` at position `i`, exactly.
pub open spec fn matches_at(s: Seq<u8>, p: Seq<char>, i: int) -> bool {
    &&& 0 <= i
    &&& i + p.len() <= s.len()
    &&& forall|j: int| 0 <= j < p.len() ==> s[i + j] == p[j] as u8
}

/// The pattern `p` matches the bytes of `s` at position `i`, ignoring ASCII
/// case.
pub open spec fn matches_ci_at(s: Seq<u8>, p: Seq<char>, i: int) -> bool {
    &&& 0 <= i
    &&& i + p.len() <= s.len()
    &&& forall|j: int| 0 <= j < p.len() ==> lower8(s[i + j]) == lower8(p[j] as u8)
}

/// The first position at or after `i` where `p` matches `s` ignoring case.
pub open spec fn find_ci_from(s: Seq<u8>, p: Seq<char>, i: int) -> Option<int>
    decreases s.len() - i,
{
    if i < 0 || i + p.len() > s.len() {
        None
    } else if matches_ci_at(s, p, i) {
        Some(i)
    } else {
        find_ci_from(s, p, i + 1)
    }
}

/// The first position at or after `i` holding a byte that is not whitespace
/// (or the end of `s`).
pub open spec fn skip_ws_from(s: Seq<u8>, i: int) -> int
    decreases s.len() - i,
{
    if i < 0 {
        i
    } else if i >= s.len() {
        s.len() as int
    } else if is_ws(s[i]) {
        skip_ws_from(s, i + 1)
    } else {
        i
    }
}

/// The first position at or after `i` holding a byte that is not a word byte
/// (or the end of `s`).
pub open spec fn word_end_from(s: Seq<u8>, i: int) -> int
    decreases s.len() - i,
{
    if i < 0 {
        i
    } else if i >= s.len() {
        s.len() as int
    } else if is_word_byte(s[i]) {
        word_end_from(s, i + 1)
    } else {
        i
    }
}

/// What a found position means: a match there, and none earlier.
pub proof fn lemma_find_ci_from(s: Seq<u8>, p: Seq<char>, i: int)
    requires
        i >= 0,
    ensures
        match find_ci_from(s, p, i) {
            Some(j) => i <= j && matches_ci_at(s, p, j) && forall|k: int|
                i <= k < j ==> !matches_ci_at(s, p, k),
            None => forall|k: int| i <= k ==> !matches_ci_at(s, p, k),
        },
    decreases s.len() - i,
{
    if i + p.len() > s.len() {
        assert forall|k: int| i <= k implies !matches_ci_at(s, p, k) by {}
    } else if matches_ci_at(s, p, i) {
    } else {
        lemma_find_ci_from(s, p, i + 1);
    }
}

/// Bounds of the whitespace skip: everything before the result is whitespace.
pub proof fn lemma_skip_ws_from(s: Seq<u8>, i: int)
    requires
        0 <= i <= s.len(),
    ensures
        i <= skip_ws_from(s, i) <= s.len(),
        forall|k: int| i <= k < skip_ws_from(s, i) ==> is_ws(s[k]),
        skip_ws_from(s, i) < s.len() ==> !is_ws(s[skip_ws_from(s, i)]),
    decreases s.len() - i,
{
    if i < s.len() && is_ws(s[i]) {
        lemma_skip_ws_from(s, i + 1);
    }
}

/// Bounds of the word run: everything before the result is a word byte.
pub proof fn lemma_word_end_from(s: Seq<u8>, i: int)
    requires
        0 <= i <= s.len(),
    ensures
        i <= word_end_from(s, i) <= s.len(),
        forall|k: int| i <= k < word_end_from(s, i) ==> is_word_byte(s[k]),
        word_end_from(s, i) < s.len() ==> !is_word_byte(s[word_end_from(s, i)]),
    decreases s.len() - i,
{
    if i < s.len() && is_word_byte(s[i]) {
        lemma_word_end_from(s, i + 1);
    }
}

fn lower_byte(b: u8) -> (r: u8)
    ensures
        r == lower8(b),
{
    if 65 <= b && b <= 90 {
        b + 32
    } else {
        b
    }
}

pub fn ws_byte(b: u8) -> (r: bool)
    ensures
        r == is_ws(b),
{
    b == 32 || b == 9 || b == 10 || b == 11 || b == 12 || b == 13
}

pub fn word_byte(b: u8) -> (r: bool)
    ensures
        r == is_word_byte(b),
{
    (48 <= b && b <= 57) || (65 <= b && b <= 90) || (97 <= b && b <= 122) || b == 95
}

/// Does `p` match `s` at `i`, ignoring ASCII case?
pub fn matches_ci(s: &Vec<u8>, p: &str, i: usize) -> (r: bool)
    requires
        p.is_ascii(),
    ensures
        r == matches_ci_at(s@, p@, i as int),
{
    broadcast use vstd::string::is_ascii_spec_bytes;

    let pb = p.as_bytes();
    if i > s.len() || s.len() - i < pb.len() {
        return false;
    }
    let mut j: usize = 0;
    while j < pb.len()
        invariant
            pb@ == Seq::new(p@.len(), |k: int| p@[k] as u8),
            0 <= j <= pb@.len() == p@.len(),
            i + pb@.len() <= s@.len() <= usize::MAX,
            forall|k: int| 0 <= k < j ==> lower8(s@[i + k]) == lower8(p@[k] as u8),
        decreases pb@.len() - j,
    {
        if lower_byte(s[i + j]) != lower_byte(pb[j]) {
            return false;
        }
        j += 1;
    }
    true
}

/// Does `p` match `s` at `i`, exactly?
pub fn matches_cs(s: &Vec<u8>, p: &str, i: usize) -> (r: bool)
    requires
        p.is_ascii(),
    ensures
        r == matches_at(s@, p@, i as int),
{
    broadcast use vstd::string::is_ascii_spec_bytes;

    let pb = p.as_bytes();
    if i > s.len() || s.len() - i < pb.len() {
        return false;
    }
    let mut j: usize = 0;
    while j < pb.len()
        invariant
            pb@ == Seq::new(p@.len(), |k: int| p@[k] as u8),
            0 <= j <= pb@.len() == p@.len(),
            i + pb@.len() <= s@.len() <= usize::MAX,
            forall|k: int| 0 <= k < j ==> s@[i + k] == p@[k] as u8,
        decreases pb@.len() - j,
    {
        if s[i + j] != pb[j] {
            return false;
        }
        j += 1;
    }
    true
}

/// The first match of `p` in `s` at or after `from`, ignoring ASCII case.
pub fn find_ci(s: &Vec<u8>, p: &str, from: usize) -> (r: Option<usize>)
    requires
        p.is_ascii(),
    ensures
        match r {
            Some(j) => Some(j as int) == find_ci_from(s@, p@, from as int),
            None => find_ci_from(s@, p@, from as int) is None,
        },
{
    let mut i: usize = from;
    loop
        invariant
            from <= i,
            p.is_ascii(),
            find_ci_from(s@, p@, from as int) == find_ci_from(s@, p@, i as int),
        decreases s@.len() + 1 - i,
    {
        if i > s.len() || s.len() - i < p.as_bytes().len() {
            broadcast use vstd::string::is_ascii_spec_bytes;

            assert(find_ci_from(s@, p@, i as int) is None);
            return None;
        }
        if matches_ci(s, p, i) {
            return Some(i);
        }
        assert(find_ci_from(s@, p@, i as int) == find_ci_from(s@, p@, i + 1));
        i += 1;
    }
}

/// The first non-whitespace position at or after `from`.
pub fn skip_ws(s: &Vec<u8>, from: usize) -> (r: usize)
    requires
        from <= s@.len(),
    ensures
        r as int == skip_ws_from(s@, from as int),
        from <= r <= s@.len(),
{
    proof {
        lemma_skip_ws_from(s@, from as int);
    }
    let mut i: usize = from;
    while i < s.len() && ws_byte(s[i])
        invariant
            from <= i <= s@.len(),
            skip_ws_from(s@, from as int) == skip_ws_from(s@, i as int),
        decreases s@.len() - i,
    {
        i += 1;
    }
    i
}

/// The end of the word-byte run beginning at `from`.
pub fn word_end(s: &Vec<u8>, from: usize) -> (r: usize)
    requires
        from <= s@.len(),
    ensures
        r as int == word_end_from(s@, from as int),
        from <= r <= s@.len(),
{
    proof {
        lemma_word_end_from(s@, from as int);
    }
    let mut i: usize = from;
    while i < s.len() && word_byte(s[i])
        invariant
            from <= i <= s@.len(),
            word_end_from(s@, from as int) == word_end_from(s@, i as int),
        decreases s@.len() - i,
    {
        i += 1;
    }
    i
}

/// A copy of the byte range `[a, b)` of `s`.
pub fn subvec(s: &Vec<u8>, a: usize, b: usize) -> (r: Vec<u8>)
    requires
        a <= b <= s@.len(),
    ensures
        r@ == s@.subrange(a as int, b as int),
{
    let mut r: Vec<u8> = Vec::new();
    let mut i: usize = a;
    while i < b
        invariant
            a <= i <= b <= s@.len(),
            r@ == s@.subrange(a as int, i as int),
        decreases b - i,
    {
        r.push(s[i]);
        i += 1;
        proof {
            assert(r@ =~= s@.subrange(a as int, i as int));
        }
    }
    r
}

/// Byte-for-byte equality of two slices.
pub fn slices_eq(a: &[u8], b: &[u8]) -> (r: bool)
    ensures
        r == (a@ == b@),
{
    if a.len() != b.len() {
        proof {
            assert(a@.len() != b@.len());
        }
        return false;
    }
    let mut i: usize = 0;
    while i < a.len()
        invariant
            0 <= i <= a@.len() == b@.len(),
            forall|k: int| 0 <= k < i ==> a@[k] == b@[k],
        decreases a@.len() - i,
    {
        if a[i] != b[i] {
            return false;
        }
        i += 1;
    }
    proof {
        assert(a@ =~= b@);
    }
    true
}

/// Character-for-character equality of two string slices.
pub fn str_eq_str(a: &str, b: &str) -> (r: bool)
    ensures
        r == (a@ == b@),
{
    let r = slices_eq(a.as_bytes(), b.as_bytes());
    proof {
        vstd::utf8::encode_utf8_decode_utf8(a@);
        vstd::utf8::encode_utf8_decode_utf8(b@);
    }
    r
}

/// The bytes of an ASCII pattern.
pub open spec fn lit_bytes(p: Seq<char>) -> Seq<u8> {
    Seq::new(p.len(), |i: int| p[i] as u8)
}

/// Appends the bytes of an ASCII literal to `v`.
pub fn append_lit(v: &mut Vec<u8>, p: &str)
    requires
        p.is_ascii(),
    ensures
        final(v)@ == old(v)@ + lit_bytes(p@),
{
    broadcast use vstd::string::is_ascii_spec_bytes;

    let pb = p.as_bytes();
    let mut i: usize = 0;
    proof {
        assert(v@ =~= old(v)@ + pb@.subrange(0, 0));
    }
    while i < pb.len()
        invariant
            pb@ == Seq::new(p@.len(), |k: int| p@[k] as u8),
            0 <= i <= pb@.len() == p@.len(),
            v@ == old(v)@ + pb@.subrange(0, i as int),
        decreases pb@.len() - i,
    {
        v.push(pb[i]);
        proof {
            assert(v@ =~= old(v)@ + pb@.subrange(0, i + 1));
        }
        i += 1;
    }
    proof {
        assert(pb@.subrange(0, pb@.len() as int) =~= pb@);
        assert(pb@ =~= lit_bytes(p@));
        assert(v@ =~= old(v)@ + lit_bytes(p@));
    }
}

/// Appends a copy of `b` to `v`.
pub fn append_bytes(v: &mut Vec<u8>, b: &Vec<u8>)
    ensures
        final(v)@ == old(v)@ + b@,
{
    let mut c = subvec(b, 0, b.len());
    v.append(&mut c);
    proof {
        assert(v@ =~= old(v)@ + b@);
    }
}

/// The end of a range after stripping trailing whitespace, but never below
/// the floor `f`.
pub open spec fn trim_back(s: Seq<u8>, f: int, t: int) -> int
    decreases t - f,
{
    if t <= f {
        f
    } else if is_ws(s[t - 1]) {
        trim_back(s, f, t - 1)
    } else {
        t
    }
}

/// Bounds of the backward trim: what is stripped is whitespace.
pub proof fn lemma_trim_back(s: Seq<u8>, f: int, t: int)
    requires
        0 <= f <= t <= s.len(),
    ensures
        f <= trim_back(s, f, t) <= t,
        forall|k: int| trim_back(s, f, t) <= k < t ==> is_ws(s[k]),
    decreases t - f,
{
    if t > f && is_ws(s[t - 1]) {
        lemma_trim_back(s, f, t - 1);
    }
}

/// Strips trailing whitespace from the range end `t`, never going below `f`.
pub fn trim_back_at(s: &Vec<u8>, f: usize, t: usize) -> (r: usize)
    requires
        f <= t <= s@.len(),
    ensures
        r as int == trim_back(s@, f as int, t as int),
        f <= r <= t,
{
    proof {
        lemma_trim_back(s@, f as int, t as int);
    }
    let mut i: usize = t;
    while i > f && ws_byte(s[i - 1])
        invariant
            f <= i <= t <= s@.len(),
            trim_back(s@, f as int, t as int) == trim_back(s@, f as int, i as int),
        decreases i,
    {
        i -= 1;
    }
    i
}

/// The deep view of a vector of byte vectors is its element views.
pub proof fn lemma_names_deep_view(v: &Vec<Vec<u8>>)
    ensures
        v.deep_view().len() == v@.len(),
        forall|i: int| 0 <= i < v@.len() ==> v.deep_view()[i] == v@[i]@,
{
    assert forall|i: int| 0 <= i < v@.len() implies v.deep_view()[i] == v@[i]@ by {
        assert(v.deep_view()[i] == v@[i].deep_view());
        assert(v@[i].deep_view() =~= v@[i]@);
    }
}

/// Byte-for-byte equality of two vectors.
pub fn bytes_eq(a: &Vec<u8>, b: &Vec<u8>) -> (r: bool)
    ensures
        r == (a@ == b@),
{
    if a.len() != b.len() {
        proof {
            assert(a@.len() != b@.len());
        }
        return false;
    }
    let mut i: usize = 0;
    while i < a.len()
        invariant
            0 <= i <= a@.len() == b@.len(),
            forall|k: int| 0 <= k < i ==> a@[k] == b@[k],
        decreases a@.len() - i,
    {
        if a[i] != b[i] {
            return false;
        }
        i += 1;
    }
    proof {
        assert(a@ =~= b@);
    }
    true
}

} // verus!
