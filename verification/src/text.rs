//! Byte-level text utilities: whitespace classification, word counting,
//! substring search, ASCII case folding and trimming, and decimal rendering.
//!
//! Texts are measured and searched through their UTF-8 byte encoding
//! (`str::as_bytes`), so every length here is a length in bytes.

use vstd::prelude::*;

verus! {

use vstd::string::*;
use vstd::utf8::*;

/// An ASCII whitespace byte: space, or one of the control characters
/// tab, line feed, vertical tab, form feed, carriage return.
pub open spec fn is_space_byte(b: u8) -> bool {
    b == 32 || (9 <= b && b <= 13)
}

fn byte_is_space(b: u8) -> (r: bool)
    ensures
        r == is_space_byte(b),
{
    b == 32 || (9 <= b && b <= 13)
}

/// Every byte of `s` is whitespace; true of the empty sequence.
pub open spec fn all_space(s: Seq<u8>) -> bool {
    forall|i: int| 0 <= i < s.len() ==> is_space_byte(#[trigger] s[i])
}

/// True exactly when the text consists of whitespace alone.
pub fn bytes_all_space(s: &[u8]) -> (r: bool)
    ensures
        r == all_space(s@),
{
    let n: usize = s.len();
    let mut i: usize = 0;
    while i < n
        invariant
            0 <= i <= n,
            n == s@.len(),
            forall|k: int| 0 <= k < i ==> is_space_byte(#[trigger] s@[k]),
        decreases n - i,
    {
        if !byte_is_space(s[i]) {
            return false;
        }
        i = i + 1;
    }
    true
}

/// A word starts at position `i` when `s[i]` is not whitespace and either
/// `i` is the first position or the byte before it is whitespace.
pub open spec fn word_starts_at(s: Seq<u8>, i: int) -> bool {
    !is_space_byte(s[i]) && (i == 0 || is_space_byte(s[i - 1]))
}

/// The number of word starts among the first `n` positions of `s`.
pub open spec fn words_upto(s: Seq<u8>, n: int) -> nat
    decreases n,
{
    if n <= 0 {
        0
    } else {
        words_upto(s, n - 1) + if word_starts_at(s, n - 1) {
            1nat
        } else {
            0nat
        }
    }
}

/// The number of maximal whitespace-delimited runs of non-whitespace bytes.
pub open spec fn word_count_of(s: Seq<u8>) -> nat {
    words_upto(s, s.len() as int)
}

proof fn lemma_words_upto_le(s: Seq<u8>, n: int)
    requires
        n >= 0,
    ensures
        words_upto(s, n) <= n,
    decreases n,
{
    if n > 0 {
        lemma_words_upto_le(s, n - 1);
    }
}

/// Counts the whitespace-delimited words of a byte string.
pub fn count_words_bytes(s: &[u8]) -> (r: usize)
    ensures
        r == word_count_of(s@),
{
    let n: usize = s.len();
    let mut count: usize = 0;
    let mut i: usize = 0;
    while i < n
        invariant
            0 <= i <= n,
            n == s@.len(),
            count == words_upto(s@, i as int),
        decreases n - i,
    {
        let here_space = byte_is_space(s[i]);
        let starts = !here_space && (i == 0 || byte_is_space(s[i - 1]));
        if starts {
            proof {
                lemma_words_upto_le(s@, i as int);
            }
            count = count + 1;
        }
        i = i + 1;
    }
    count
}

/// `pat` occurs in `s` at position `i`.
pub open spec fn has_at(s: Seq<u8>, pat: Seq<u8>, i: int) -> bool {
    0 <= i && i + pat.len() <= s.len() && s.subrange(i, i + pat.len() as int) == pat
}

/// `pat` occurs somewhere in `s` as a contiguous run of bytes.
pub open spec fn contains_seq(s: Seq<u8>, pat: Seq<u8>) -> bool {
    exists|i: int| has_at(s, pat, i)
}

/// Naive substring search over bytes; the empty pattern occurs everywhere.
pub fn contains_bytes(s: &[u8], pat: &[u8]) -> (r: bool)
    ensures
        r == contains_seq(s@, pat@),
{
    let n: usize = s.len();
    let m: usize = pat.len();
    if m == 0 {
        proof {
            assert(s@.subrange(0, 0) =~= pat@);
            assert(has_at(s@, pat@, 0));
        }
        return true;
    }
    if m > n {
        return false;
    }
    let mut i: usize = 0;
    while i <= n - m
        invariant
            0 <= i <= n - m + 1,
            m >= 1,
            m <= n,
            n == s@.len(),
            m == pat@.len(),
            forall|k: int| 0 <= k < i ==> !has_at(s@, pat@, k),
        decreases n - i,
    {
        let mut j: usize = 0;
        let mut matched = true;
        while j < m
            invariant
                0 <= j <= m,
                i + m <= n,
                n == s@.len(),
                m == pat@.len(),
                matched ==> forall|l: int| 0 <= l < j ==> s@[i + l] == pat@[l],
                !matched ==> exists|l: int| 0 <= l < m && s@[i + l] != #[trigger] pat@[l],
            decreases m - j,
        {
            if s[i + j] != pat[j] {
                matched = false;
                j = m;
            } else {
                j = j + 1;
            }
        }
        if matched {
            proof {
                assert(s@.subrange(i as int, i as int + m as int) =~= pat@);
                assert(has_at(s@, pat@, i as int));
            }
            return true;
        }
        proof {
            assert(!has_at(s@, pat@, i as int)) by {
                if has_at(s@, pat@, i as int) {
                    let l = choose|l: int| 0 <= l < m && s@[i + l] != #[trigger] pat@[l];
                    assert(s@.subrange(i as int, i as int + m as int)[l] == s@[i + l]);
                }
            }
        }
        i = i + 1;
    }
    proof {
        assert(forall|k: int| has_at(s@, pat@, k) ==> 0 <= k <= n - m);
    }
    false
}

/// Byte-for-byte equality of two byte strings.
pub fn bytes_eq(a: &[u8], b: &[u8]) -> (r: bool)
    ensures
        r == (a@ == b@),
{
    let n: usize = a.len();
    if n != b.len() {
        return false;
    }
    let mut i: usize = 0;
    while i < n
        invariant
            0 <= i <= n,
            n == a@.len() == b@.len(),
            forall|k: int| 0 <= k < i ==> a@[k] == b@[k],
        decreases n - i,
    {
        if a[i] != b[i] {
            return false;
        }
        i = i + 1;
    }
    proof {
        assert(a@ =~= b@);
    }
    true
}

/// ASCII case folding of one byte: the upper-case letters fold to lower case,
/// every other byte is unchanged.
pub open spec fn lower_byte(b: u8) -> u8 {
    if 65 <= b && b <= 90 {
        (b + 32) as u8
    } else {
        b
    }
}

/// ASCII case folding of a byte string.
pub open spec fn lower_seq(s: Seq<u8>) -> Seq<u8> {
    s.map_values(|b: u8| lower_byte(b))
}

/// Folds the ASCII letters of `s` to lower case, leaving other bytes alone.
pub fn to_lower_bytes(s: &[u8]) -> (r: Vec<u8>)
    ensures
        r@ == lower_seq(s@),
{
    let n: usize = s.len();
    let mut out: Vec<u8> = Vec::new();
    let mut i: usize = 0;
    while i < n
        invariant
            0 <= i <= n,
            n == s@.len(),
            out@ == lower_seq(s@.subrange(0, i as int)),
        decreases n - i,
    {
        let b = s[i];
        let lb: u8 = if 65 <= b && b <= 90 {
            b + 32
        } else {
            b
        };
        out.push(lb);
        proof {
            assert(out@ =~= lower_seq(s@.subrange(0, i + 1)));
        }
        i = i + 1;
    }
    proof {
        assert(s@.subrange(0, n as int) =~= s@);
    }
    out
}

/// `s` with leading whitespace removed.
pub open spec fn trim_front(s: Seq<u8>) -> Seq<u8>
    decreases s.len(),
{
    if s.len() > 0 && is_space_byte(s[0]) {
        trim_front(s.drop_first())
    } else {
        s
    }
}

/// `s` with trailing whitespace removed.
pub open spec fn trim_back(s: Seq<u8>) -> Seq<u8>
    decreases s.len(),
{
    if s.len() > 0 && is_space_byte(s.last()) {
        trim_back(s.drop_last())
    } else {
        s
    }
}

/// `s` with leading and trailing whitespace removed.
pub open spec fn trim_seq(s: Seq<u8>) -> Seq<u8> {
    trim_back(trim_front(s))
}

proof fn lemma_trim_front_skip(s: Seq<u8>, k: int)
    requires
        0 <= k <= s.len(),
        forall|i: int| 0 <= i < k ==> is_space_byte(#[trigger] s[i]),
        k < s.len() ==> !is_space_byte(s[k]),
    ensures
        trim_front(s) == s.skip(k),
    decreases k,
{
    if k == 0 {
        assert(s.skip(0) =~= s);
    } else {
        lemma_trim_front_skip(s.drop_first(), k - 1);
        assert(s.drop_first().skip(k - 1) =~= s.skip(k));
    }
}

proof fn lemma_trim_back_take(s: Seq<u8>, k: int)
    requires
        0 <= k <= s.len(),
        forall|i: int| k <= i < s.len() ==> is_space_byte(#[trigger] s[i]),
        k > 0 ==> !is_space_byte(s[k - 1]),
    ensures
        trim_back(s) == s.take(k),
    decreases s.len() - k,
{
    if k == s.len() {
        assert(s.take(k) =~= s);
    } else {
        lemma_trim_back_take(s.drop_last(), k);
        assert(s.drop_last().take(k) =~= s.take(k));
    }
}

/// Copies `s` without its leading and trailing whitespace.
pub fn trim_bytes(s: &[u8]) -> (r: Vec<u8>)
    ensures
        r@ == trim_seq(s@),
{
    let n: usize = s.len();
    let mut lo: usize = 0;
    while lo < n && byte_is_space(s[lo])
        invariant
            0 <= lo <= n,
            n == s@.len(),
            forall|i: int| 0 <= i < lo ==> is_space_byte(#[trigger] s@[i]),
        decreases n - lo,
    {
        lo = lo + 1;
    }
    proof {
        lemma_trim_front_skip(s@, lo as int);
    }
    let mut hi: usize = n;
    while hi > lo && byte_is_space(s[hi - 1])
        invariant
            lo <= hi <= n,
            n == s@.len(),
            forall|i: int| 0 <= i < lo ==> is_space_byte(#[trigger] s@[i]),
            lo < n ==> !is_space_byte(s@[lo as int]),
            forall|i: int| hi <= i < n ==> is_space_byte(#[trigger] s@[i]),
        decreases hi,
    {
        hi = hi - 1;
    }
    proof {
        lemma_trim_back_take(s@.skip(lo as int), hi - lo as int);
    }
    let mut out: Vec<u8> = Vec::new();
    let mut i: usize = lo;
    while i < hi
        invariant
            lo <= i <= hi <= n,
            n == s@.len(),
            out@ =~= s@.subrange(lo as int, i as int),
        decreases hi - i,
    {
        out.push(s[i]);
        i = i + 1;
    }
    proof {
        assert(s@.subrange(lo as int, hi as int) =~= s@.skip(lo as int).take(hi - lo as int));
    }
    out
}

proof fn lemma_valid_utf8_drop_ascii_front(s: Seq<u8>)
    requires
        valid_utf8(s),
        s.len() > 0,
        s[0] < 128,
    ensures
        valid_utf8(s.drop_first()),
{
    assert(is_leading_byte_width_1(s[0]));
    assert(length_of_first_scalar(s) == 1);
    assert(pop_first_scalar(s) =~= s.drop_first());
}

proof fn lemma_valid_utf8_drop_ascii_back(s: Seq<u8>)
    requires
        valid_utf8(s),
        s.len() > 0,
        s.last() < 128,
    ensures
        valid_utf8(s.drop_last()),
    decreases s.len(),
{
    let w = length_of_first_scalar(s);
    if w == s.len() {
        // The whole sequence is one scalar; a multi-byte scalar ends in a
        // continuation byte, which is never ASCII, so the scalar is one
        // ASCII byte and dropping it leaves the empty sequence.
        assert(w == 1) by {
            if w > 1 {
                assert(is_continuation_byte(s[w - 1]));
            }
        }
        assert(s.drop_last() =~= Seq::<u8>::empty());
    } else {
        let rest = pop_first_scalar(s);
        assert(rest =~= s.subrange(w, s.len() as int));
        assert(rest.len() > 0);
        assert(rest.last() == s.last());
        lemma_valid_utf8_drop_ascii_back(rest);
        // The first scalar sits strictly before the dropped byte, so the
        // shortened sequence starts with the same scalar.
        assert(forall|i: int| 0 <= i < s.len() - 1 ==> s.drop_last()[i] == s[i]);
        assert(valid_first_scalar(s.drop_last()));
        assert(length_of_first_scalar(s.drop_last()) == w);
        assert(pop_first_scalar(s.drop_last()) =~= rest.drop_last());
    }
}

proof fn lemma_valid_utf8_trim_front(s: Seq<u8>)
    requires
        valid_utf8(s),
    ensures
        valid_utf8(trim_front(s)),
    decreases s.len(),
{
    if s.len() > 0 && is_space_byte(s[0]) {
        lemma_valid_utf8_drop_ascii_front(s);
        lemma_valid_utf8_trim_front(s.drop_first());
    }
}

proof fn lemma_valid_utf8_trim_back(s: Seq<u8>)
    requires
        valid_utf8(s),
    ensures
        valid_utf8(trim_back(s)),
    decreases s.len(),
{
    if s.len() > 0 && is_space_byte(s.last()) {
        lemma_valid_utf8_drop_ascii_back(s);
        lemma_valid_utf8_trim_back(s.drop_last());
    }
}

/// Whitespace is ASCII, and one ASCII byte is one whole character, so a
/// trimmed encoding is still the encoding of some character sequence.
pub proof fn lemma_valid_utf8_trim(s: Seq<u8>)
    requires
        valid_utf8(s),
    ensures
        valid_utf8(trim_seq(s)),
{
    lemma_valid_utf8_trim_front(s);
    lemma_valid_utf8_trim_back(trim_front(s));
}

/// Relies on String::from_utf8: the string whose UTF-8 encoding is `v`,
/// answering exactly when `v` is a valid encoding.
#[verifier::external_body]
pub(crate) fn bytes_to_string(v: Vec<u8>) -> (r: Option<String>)
    ensures
        r matches Some(s) ==> encode_utf8(s@) == v@,
        r is Some <==> valid_utf8(v@),
{
    String::from_utf8(v).ok()
}

/// Byte-for-byte equality of two strings decides view equality, because a
/// character sequence and its UTF-8 encoding determine one another.
pub fn str_eq(a: &str, b: &str) -> (r: bool)
    ensures
        r == (a@ == b@),
{
    let ab = a.as_bytes();
    let bb = b.as_bytes();
    proof {
        encode_utf8_decode_utf8(a@);
        encode_utf8_decode_utf8(b@);
    }
    let n: usize = ab.len();
    if n != bb.len() {
        return false;
    }
    let mut i: usize = 0;
    while i < n
        invariant
            0 <= i <= n,
            n == ab@.len() == bb@.len(),
            ab@ == a.spec_bytes(),
            bb@ == b.spec_bytes(),
            forall|k: int| 0 <= k < i ==> ab@[k] == bb@[k],
        decreases n - i,
    {
        if ab[i] != bb[i] {
            proof {
                assert(a.spec_bytes() != b.spec_bytes());
            }
            return false;
        }
        i = i + 1;
    }
    proof {
        assert(a.spec_bytes() =~= b.spec_bytes());
        assert(decode_utf8(a.spec_bytes()) == decode_utf8(b.spec_bytes()));
    }
    true
}

/// The character for a decimal digit.
pub open spec fn digit_char(d: nat) -> char {
    if d == 0 {
        '0'
    } else if d == 1 {
        '1'
    } else if d == 2 {
        '2'
    } else if d == 3 {
        '3'
    } else if d == 4 {
        '4'
    } else if d == 5 {
        '5'
    } else if d == 6 {
        '6'
    } else if d == 7 {
        '7'
    } else if d == 8 {
        '8'
    } else {
        '9'
    }
}

/// The decimal rendering of `n`, most significant digit first, no sign,
/// no leading zeroes except for `n == 0` itself.
pub open spec fn dec_str(n: nat) -> Seq<char>
    decreases n,
{
    if n < 10 {
        seq![digit_char(n)]
    } else {
        dec_str(n / 10) + seq![digit_char(n % 10)]
    }
}

fn digit_str(d: u64) -> (r: &'static str)
    requires
        d < 10,
    ensures
        r@ =~= seq![digit_char(d as nat)],
{
    proof {
        reveal_strlit("0");
        reveal_strlit("1");
        reveal_strlit("2");
        reveal_strlit("3");
        reveal_strlit("4");
        reveal_strlit("5");
        reveal_strlit("6");
        reveal_strlit("7");
        reveal_strlit("8");
        reveal_strlit("9");
    }
    if d == 0 {
        "0"
    } else if d == 1 {
        "1"
    } else if d == 2 {
        "2"
    } else if d == 3 {
        "3"
    } else if d == 4 {
        "4"
    } else if d == 5 {
        "5"
    } else if d == 6 {
        "6"
    } else if d == 7 {
        "7"
    } else if d == 8 {
        "8"
    } else {
        "9"
    }
}

/// Renders `n` in decimal.
pub fn u64_to_dec(n: u64) -> (r: String)
    ensures
        r@ == dec_str(n as nat),
    decreases n,
{
    if n < 10 {
        String::from_str(digit_str(n))
    } else {
        let mut s = u64_to_dec(n / 10);
        s.append(digit_str(n % 10));
        s
    }
}

} // verus!
