//! The validation gate over finished text, and the confidence score.
//!
//! `validate_enhanced_prompt` runs an ordered sequence of checks and fails
//! fast on the first violated one; `compute_confidence` scores a text from
//! its byte length and word count. The auxiliary `check_*` functions report
//! stylistic findings without failing anything.

use vstd::prelude::*;

verus! {

use vstd::string::*;
use vstd::utf8::encode_utf8;
use crate::models::EnhancedPrompt;
use crate::text::{
    all_space,
    bytes_all_space,
    bytes_eq,
    contains_bytes,
    contains_seq,
    count_words_bytes,
    lower_seq,
    to_lower_bytes,
    trim_bytes,
    trim_seq,
    word_count_of,
};

/// The smallest accepted byte length of an enhanced text.
pub const MIN_LENGTH: usize = 10;

/// The largest accepted byte length of an enhanced text.
pub const MAX_LENGTH: usize = 5000;

/// The smallest accepted whitespace-delimited word count.
pub const MIN_WORDS: usize = 10;

/// Why an enhanced text was rejected by the validation gate.
#[derive(Debug, Clone)]
pub enum ValidationError {
    EmptyPrompt,
    TooShort,
    TooLong,
    InappropriateContent(String),
    TooSimple,
}

/// The text [`ValidationError::message`] renders.
pub open spec fn validation_error_text(e: ValidationError) -> Seq<char> {
    match e {
        ValidationError::EmptyPrompt => ("Enhanced prompt is empty")@,
        ValidationError::TooShort => ("Enhanced prompt is too short")@,
        ValidationError::TooLong => ("Enhanced prompt is too long")@,
        ValidationError::TooSimple => ("Enhanced prompt is too simple")@,
        ValidationError::InappropriateContent(w) => ("Inappropriate content detected: ")@ + w@,
    }
}

impl ValidationError {
    /// A human-readable description of the rejection.
    pub fn message(&self) -> (r: String)
        ensures
            r@ == validation_error_text(*self),
    {
        match self {
            ValidationError::EmptyPrompt => String::from_str("Enhanced prompt is empty"),
            ValidationError::TooShort => String::from_str("Enhanced prompt is too short"),
            ValidationError::TooLong => String::from_str("Enhanced prompt is too long"),
            ValidationError::TooSimple => String::from_str("Enhanced prompt is too simple"),
            ValidationError::InappropriateContent(w) => {
                let mut s = String::from_str("Inappropriate content detected: ");
                s.append(w.as_str());
                s
            },
        }
    }
}

/// The length, emptiness and word-count checks all pass on these bytes.
pub open spec fn passes_basic_checks(b: Seq<u8>) -> bool {
    &&& !all_space(b)
    &&& 10 <= b.len() <= 5000
    &&& word_count_of(b) >= 10
}

/// The case-folded text contains the case-folded denied word `w`.
pub open spec fn denied_word_found(b: Seq<u8>, w: &str) -> bool {
    contains_seq(lower_seq(b), w.spec_bytes())
}

/// The ordered checks of the validation gate, first failure wins:
/// whitespace-only text, byte length under 10, byte length over 5000, word
/// count under 10, then a case-insensitive search for each denied word.
pub fn validate_enhanced_prompt(prompt: &EnhancedPrompt) -> (r: Result<(), ValidationError>)
    ensures
        ({
            let b = encode_utf8(prompt.text@);
            &&& (all_space(b) ==> r matches Err(ValidationError::EmptyPrompt))
            &&& (!all_space(b) && b.len() < 10 ==> r matches Err(ValidationError::TooShort))
            &&& (!all_space(b) && b.len() > 5000 ==> r matches Err(ValidationError::TooLong))
            &&& (!all_space(b) && 10 <= b.len() <= 5000 && word_count_of(b) < 10 ==> r matches Err(
                ValidationError::TooSimple,
            ))
            &&& (passes_basic_checks(b) && denied_word_found(b, "inappropriate") ==> (r matches Err(
                ValidationError::InappropriateContent(w),
            ) && w@ == ("inappropriate")@))
            &&& (passes_basic_checks(b) && !denied_word_found(b, "inappropriate")
                && denied_word_found(b, "offensive") ==> (r matches Err(
                ValidationError::InappropriateContent(w),
            ) && w@ == ("offensive")@))
            &&& (r is Ok <==> passes_basic_checks(b) && !denied_word_found(b, "inappropriate")
                && !denied_word_found(b, "offensive"))
        }),
{
    let bytes = prompt.text.as_str().as_bytes();
    if bytes_all_space(bytes) {
        return Err(ValidationError::EmptyPrompt);
    }
    let len = bytes.len();
    if len < MIN_LENGTH {
        return Err(ValidationError::TooShort);
    }
    if len > MAX_LENGTH {
        return Err(ValidationError::TooLong);
    }
    let words = count_words_bytes(bytes);
    if words < MIN_WORDS {
        return Err(ValidationError::TooSimple);
    }
    let lowered = to_lower_bytes(bytes);
    if contains_bytes(lowered.as_slice(), "inappropriate".as_bytes()) {
        return Err(ValidationError::InappropriateContent(String::from_str("inappropriate")));
    }
    if contains_bytes(lowered.as_slice(), "offensive".as_bytes()) {
        return Err(ValidationError::InappropriateContent(String::from_str("offensive")));
    }
    Ok(())
}

/// The confidence score of a text, scaled by [`crate::models::CONFIDENCE_SCALE`]:
/// the byte length capped at 1000 plus twenty times the word count capped at
/// 1000. This is the average of the two capped ratios `len/1000` and
/// `words/50`, expressed in units of 1/2000.
pub open spec fn confidence_value(len: nat, words: nat) -> nat {
    (if len < 1000 {
        len
    } else {
        1000
    }) + (if words < 50 {
        words * 20
    } else {
        1000
    })
}

/// Scores a finished text from its byte length and word count; the result
/// is scaled by [`crate::models::CONFIDENCE_SCALE`].
pub fn compute_confidence(prompt: &EnhancedPrompt) -> (r: u32)
    ensures
        r == confidence_value(
            encode_utf8(prompt.text@).len(),
            word_count_of(encode_utf8(prompt.text@)),
        ),
        r <= 2000,
{
    let bytes = prompt.text.as_str().as_bytes();
    let len = bytes.len();
    let len_score: u32 = if len < 1000 {
        len as u32
    } else {
        1000
    };
    let words = count_words_bytes(bytes);
    let word_score: u32 = if words < 50 {
        (words as u32) * 20
    } else {
        1000
    };
    len_score + word_score
}

/// The confidence score never moves down when the text grows in bytes or
/// in words, and never exceeds the scale.
pub proof fn lemma_confidence_monotonic(len1: nat, words1: nat, len2: nat, words2: nat)
    requires
        len1 <= len2,
        words1 <= words2,
    ensures
        confidence_value(len1, words1) <= confidence_value(len2, words2),
{
}

/// The confidence score stays within the scale, and reaches the full score
/// of 2000 exactly when the text has at least 1000 bytes and 50 words.
pub proof fn lemma_confidence_bounds(len: nat, words: nat)
    ensures
        confidence_value(len, words) <= 2000,
        confidence_value(len, words) == 2000 <==> len >= 1000 && words >= 50,
{
}

/// The number of whitespace-delimited words of a text.
pub fn word_count(text: &str) -> (r: usize)
    ensures
        r == word_count_of(encode_utf8(text@)),
{
    count_words_bytes(text.as_bytes())
}

/// A byte that ends a sentence: `.`, `!` or `?`.
pub open spec fn is_sentence_sep(b: u8) -> bool {
    b == 46 || b == 33 || b == 63
}

fn byte_is_sep(b: u8) -> (r: bool)
    ensures
        r == is_sentence_sep(b),
{
    b == 46 || b == 33 || b == 63
}

/// The number of sentence separators among the first `n` bytes.
pub open spec fn seps_upto(s: Seq<u8>, n: int) -> nat
    decreases n,
{
    if n <= 0 {
        0
    } else {
        seps_upto(s, n - 1) + if is_sentence_sep(s[n - 1]) {
            1nat
        } else {
            0nat
        }
    }
}

/// The number of sentence separators in `s`.
pub open spec fn sep_count(s: Seq<u8>) -> nat {
    seps_upto(s, s.len() as int)
}

proof fn lemma_seps_upto_le(s: Seq<u8>, n: int)
    requires
        n >= 0,
    ensures
        seps_upto(s, n) <= n,
    decreases n,
{
    if n > 0 {
        lemma_seps_upto_le(s, n - 1);
    }
}

fn count_seps(s: &[u8]) -> (r: usize)
    ensures
        r == sep_count(s@),
        r <= s@.len(),
{
    let n: usize = s.len();
    let mut count: usize = 0;
    let mut i: usize = 0;
    while i < n
        invariant
            0 <= i <= n,
            n == s@.len(),
            count == seps_upto(s@, i as int),
            count <= i,
        decreases n - i,
    {
        if byte_is_sep(s[i]) {
            count = count + 1;
        }
        i = i + 1;
    }
    count
}

/// The average byte length of the sentences of `s`: splitting at every
/// separator yields `sep_count + 1` parts whose lengths sum to the length
/// of `s` less its separators.
pub open spec fn avg_sentence_len(s: Seq<u8>) -> int {
    (s.len() - sep_count(s)) / (sep_count(s) + 1) as int
}

/// The text contains two adjacent spaces.
pub open spec fn has_double_space(b: Seq<u8>) -> bool {
    contains_seq(b, ("  ").spec_bytes())
}

/// Reports stylistic findings: double spaces, and an average sentence
/// length that reads as too long or too choppy.
pub fn check_grammar_and_clarity(text: &str) -> (r: Vec<String>)
    ensures
        ({
            let b = encode_utf8(text@);
            r.deep_view() == (if has_double_space(b) {
                seq![("Contains double spaces")@]
            } else {
                Seq::<Seq<char>>::empty()
            }) + (if avg_sentence_len(b) > 100 {
                seq![("Average sentence length is too long (>100 chars), may affect clarity")@]
            } else {
                Seq::<Seq<char>>::empty()
            }) + (if avg_sentence_len(b) < 10 {
                seq![("Average sentence length is too short (<10 chars), may be too choppy")@]
            } else {
                Seq::<Seq<char>>::empty()
            })
        }),
{
    let bytes = text.as_bytes();
    let mut issues: Vec<String> = Vec::new();
    if contains_bytes(bytes, "  ".as_bytes()) {
        issues.push(String::from_str("Contains double spaces"));
    }
    let len = bytes.len();
    let nsep = count_seps(bytes);
    proof {
        lemma_seps_upto_le(bytes@, bytes@.len() as int);
    }
    let avg: usize = if nsep == usize::MAX {
        0
    } else {
        (len - nsep) / (nsep + 1)
    };
    if avg > 100 {
        issues.push(
            String::from_str("Average sentence length is too long (>100 chars), may affect clarity"),
        );
    }
    if avg < 10 {
        issues.push(
            String::from_str("Average sentence length is too short (<10 chars), may be too choppy"),
        );
    }
    proof {
        let b = encode_utf8(text@);
        assert(issues.deep_view() =~~= (if has_double_space(b) {
            seq![("Contains double spaces")@]
        } else {
            Seq::<Seq<char>>::empty()
        }) + (if avg_sentence_len(b) > 100 {
            seq![("Average sentence length is too long (>100 chars), may affect clarity")@]
        } else {
            Seq::<Seq<char>>::empty()
        }) + (if avg_sentence_len(b) < 10 {
            seq![("Average sentence length is too short (<10 chars), may be too choppy")@]
        } else {
            Seq::<Seq<char>>::empty()
        }));
    }
    issues
}

/// The parts of `s` split at every sentence separator; the separators are
/// dropped, and a split always yields at least one (possibly empty) part.
pub open spec fn split_sentences_spec(b: Seq<u8>) -> Seq<Seq<u8>>
    decreases b.len(),
{
    if b.len() == 0 {
        seq![Seq::<u8>::empty()]
    } else {
        let rest = split_sentences_spec(b.drop_last());
        if is_sentence_sep(b.last()) {
            rest.push(Seq::<u8>::empty())
        } else {
            rest.drop_last().push(rest.last().push(b.last()))
        }
    }
}

proof fn lemma_split_sentences_len(b: Seq<u8>)
    ensures
        split_sentences_spec(b).len() >= 1,
    decreases b.len(),
{
    if b.len() > 0 {
        lemma_split_sentences_len(b.drop_last());
    }
}

fn split_sentence_bytes(s: &[u8]) -> (r: Vec<Vec<u8>>)
    ensures
        r.deep_view() == split_sentences_spec(s@),
{
    let n: usize = s.len();
    let mut parts: Vec<Vec<u8>> = Vec::new();
    let mut cur: Vec<u8> = Vec::new();
    proof {
        assert(s@.take(0) =~= Seq::<u8>::empty());
        assert(parts.deep_view().push(cur@) =~~= split_sentences_spec(s@.take(0)));
    }
    let mut i: usize = 0;
    while i < n
        invariant
            0 <= i <= n,
            n == s@.len(),
            parts.deep_view().push(cur@) == split_sentences_spec(s@.take(i as int)),
        decreases n - i,
    {
        let ghost pre = split_sentences_spec(s@.take(i as int));
        proof {
            lemma_split_sentences_len(s@.take(i as int));
            assert(s@.take(i + 1).drop_last() =~= s@.take(i as int));
            assert(s@.take(i + 1).last() == s@[i as int]);
        }
        if byte_is_sep(s[i]) {
            parts.push(cur);
            cur = Vec::new();
            proof {
                assert(parts.deep_view().push(cur@) =~~= pre.push(Seq::<u8>::empty()));
            }
        } else {
            let ghost old_cur = cur@;
            cur.push(s[i]);
            proof {
                assert(pre.drop_last() =~~= parts.deep_view());
                assert(pre.last() == old_cur);
                assert(parts.deep_view().push(cur@) =~~= pre.drop_last().push(
                    pre.last().push(s@[i as int]),
                ));
            }
        }
        i = i + 1;
    }
    parts.push(cur);
    proof {
        assert(s@.take(n as int) =~= s@);
        assert(parts.deep_view() =~~= split_sentences_spec(s@));
    }
    parts
}

/// The normal form under which sentences are compared: whitespace trimmed
/// from both ends, then ASCII letters folded to lower case.
pub open spec fn norm_sentence(s: Seq<u8>) -> Seq<u8> {
    lower_seq(trim_seq(s))
}

/// Parts `i` and `j` normalize to the same non-empty sentence.
pub open spec fn dup_pair(parts: Seq<Seq<u8>>, i: int, j: int) -> bool {
    norm_sentence(parts[i]) == norm_sentence(parts[j]) && norm_sentence(parts[j]).len() > 0
}

/// Two parts in order normalize to the same non-empty sentence.
pub open spec fn has_duplicate_sentence(parts: Seq<Seq<u8>>) -> bool {
    exists|i: int, j: int| 0 <= i < j < parts.len() && #[trigger] dup_pair(parts, i, j)
}

fn find_duplicate(parts: &Vec<Vec<u8>>) -> (r: bool)
    ensures
        r == has_duplicate_sentence(parts.deep_view()),
{
    let n: usize = parts.len();
    let mut normed: Vec<Vec<u8>> = Vec::new();
    let mut k: usize = 0;
    while k < n
        invariant
            0 <= k <= n,
            n == parts@.len(),
            normed@.len() == k,
            forall|t: int|
                0 <= t < k ==> normed.deep_view()[t] == norm_sentence(
                    #[trigger] parts.deep_view()[t],
                ),
        decreases n - k,
    {
        let trimmed = trim_bytes(parts[k].as_slice());
        let lowered = to_lower_bytes(trimmed.as_slice());
        let ghost prev = normed.deep_view();
        normed.push(lowered);
        proof {
            assert(forall|t: int| 0 <= t < k ==> normed.deep_view()[t] == prev[t]);
            assert(parts.deep_view()[k as int] == parts@[k as int]@);
            assert(normed.deep_view()[k as int] == norm_sentence(parts.deep_view()[k as int]));
        }
        k = k + 1;
    }
    let mut j: usize = 0;
    while j < n
        invariant
            0 <= j <= n,
            n == parts@.len(),
            normed@.len() == n,
            forall|t: int|
                0 <= t < n ==> normed.deep_view()[t] == norm_sentence(
                    #[trigger] parts.deep_view()[t],
                ),
            forall|a: int, b: int| 0 <= a < b < j ==> !(#[trigger] dup_pair(parts.deep_view(), a, b)),
        decreases n - j,
    {
        let mut i: usize = 0;
        while i < j
            invariant
                0 <= i <= j < n,
                n == parts@.len(),
                normed@.len() == n,
                forall|t: int|
                    0 <= t < n ==> normed.deep_view()[t] == norm_sentence(
                        #[trigger] parts.deep_view()[t],
                    ),
                forall|a: int| 0 <= a < i ==> !(#[trigger] dup_pair(parts.deep_view(), a, j as int)),
            decreases j - i,
        {
            let hit = normed[j].len() > 0 && bytes_eq(normed[i].as_slice(), normed[j].as_slice());
            proof {
                assert(normed.deep_view()[i as int] == normed@[i as int]@);
                assert(normed.deep_view()[j as int] == normed@[j as int]@);
            }
            if hit {
                proof {
                    assert(dup_pair(parts.deep_view(), i as int, j as int));
                }
                return true;
            }
            proof {
                assert(!dup_pair(parts.deep_view(), i as int, j as int));
            }
            i = i + 1;
        }
        j = j + 1;
    }
    false
}

/// Reports a consistency finding: two sentences that read the same after
/// trimming and case folding.
pub fn check_consistency(text: &str) -> (r: Vec<String>)
    ensures
        ({
            let parts = split_sentences_spec(encode_utf8(text@));
            r.deep_view() == (if has_duplicate_sentence(parts) {
                seq![("Duplicate sentence found")@]
            } else {
                Seq::<Seq<char>>::empty()
            })
        }),
{
    let parts = split_sentence_bytes(text.as_bytes());
    let mut issues: Vec<String> = Vec::new();
    if find_duplicate(&parts) {
        issues.push(String::from_str("Duplicate sentence found"));
    }
    proof {
        let expected = (if has_duplicate_sentence(split_sentences_spec(encode_utf8(text@))) {
            seq![("Duplicate sentence found")@]
        } else {
            Seq::<Seq<char>>::empty()
        });
        assert(issues.deep_view() =~~= expected);
    }
    issues
}

/// A space stands directly before a punctuation mark.
pub open spec fn bad_punct_spacing(b: Seq<u8>) -> bool {
    ||| contains_seq(b, (" ,").spec_bytes())
    ||| contains_seq(b, (" .").spec_bytes())
    ||| contains_seq(b, (" !").spec_bytes())
    ||| contains_seq(b, (" ?").spec_bytes())
}

/// Two sentence-ending marks stand directly together.
pub open spec fn doubled_punct(b: Seq<u8>) -> bool {
    ||| contains_seq(b, ("..").spec_bytes())
    ||| contains_seq(b, ("!!").spec_bytes())
    ||| contains_seq(b, ("??").spec_bytes())
}

/// Reports formatting findings: a space before punctuation, and doubled
/// punctuation marks.
pub fn check_formatting(text: &str) -> (r: Vec<String>)
    ensures
        ({
            let b = encode_utf8(text@);
            r.deep_view() == (if bad_punct_spacing(b) {
                seq![("Inconsistent spacing around punctuation")@]
            } else {
                Seq::<Seq<char>>::empty()
            }) + (if doubled_punct(b) {
                seq![("Missing spaces after punctuation")@]
            } else {
                Seq::<Seq<char>>::empty()
            })
        }),
{
    let bytes = text.as_bytes();
    let mut issues: Vec<String> = Vec::new();
    let spacing = contains_bytes(bytes, " ,".as_bytes()) || contains_bytes(bytes, " .".as_bytes())
        || contains_bytes(bytes, " !".as_bytes()) || contains_bytes(bytes, " ?".as_bytes());
    if spacing {
        issues.push(String::from_str("Inconsistent spacing around punctuation"));
    }
    let doubled = contains_bytes(bytes, "..".as_bytes()) || contains_bytes(bytes, "!!".as_bytes())
        || contains_bytes(bytes, "??".as_bytes());
    if doubled {
        issues.push(String::from_str("Missing spaces after punctuation"));
    }
    proof {
        let b = encode_utf8(text@);
        assert(issues.deep_view() =~~= (if bad_punct_spacing(b) {
            seq![("Inconsistent spacing around punctuation")@]
        } else {
            Seq::<Seq<char>>::empty()
        }) + (if doubled_punct(b) {
            seq![("Missing spaces after punctuation")@]
        } else {
            Seq::<Seq<char>>::empty()
        }));
    }
    issues
}

} // verus!
