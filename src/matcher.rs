use fuzzy_matcher::skim::SkimMatcherV2;
use fuzzy_matcher::FuzzyMatcher;
use vstd::prelude::*;

verus! {

/// Whether `c` is an ASCII capital letter.
pub open spec fn is_ascii_upper(c: char) -> bool {
    65 <= (c as u32) && (c as u32) <= 90
}

/// The code of `c` with ASCII capitals taken to lower case.
pub open spec fn ascii_folded(c: char) -> int {
    if is_ascii_upper(c) {
        (c as u32) + 32
    } else {
        c as u32 as int
    }
}

/// Smart case: a pattern is matched case-sensitively exactly when it holds an
/// ASCII capital.
pub open spec fn case_sensitive_for(pattern: Seq<char>) -> bool {
    exists|i: int| 0 <= i < pattern.len() && is_ascii_upper(#[trigger] pattern[i])
}

/// Whether a character of the candidate matches one of the pattern.
pub open spec fn chars_match(c: char, p: char, case_sensitive: bool) -> bool {
    if case_sensitive {
        c == p
    } else {
        ascii_folded(c) == ascii_folded(p)
    }
}

/// Whether the pattern's characters occur in the candidate in order, not
/// necessarily next to each other.
pub open spec fn fuzzy_subseq(choice: Seq<char>, pattern: Seq<char>, case_sensitive: bool) -> bool
    decreases choice.len(),
{
    if pattern.len() == 0 {
        true
    } else if choice.len() == 0 {
        false
    } else if chars_match(choice[0], pattern[0], case_sensitive) {
        fuzzy_subseq(choice.drop_first(), pattern.drop_first(), case_sensitive)
    } else {
        fuzzy_subseq(choice.drop_first(), pattern, case_sensitive)
    }
}

/// The score that the skim matcher (version 2, default settings) gives to a
/// candidate for a pattern; `None` when it does not match at all.
pub uninterp spec fn skim_score(choice: Seq<char>, pattern: Seq<char>) -> Option<i64>;

/// Relies on `SkimMatcherV2::fuzzy_match` of fuzzy-matcher with the default
/// settings: its result depends on the two strings alone, an empty pattern
/// scores `Some(0)`, and a match needs the pattern's characters in order in
/// the candidate (smart case, ASCII folding only).
#[verifier::external_body]
fn skim_fuzzy_match(choice: &str, pattern: &str) -> (r: Option<i64>)
    ensures
        r == skim_score(choice@, pattern@),
        pattern@.len() == 0 ==> r == Some(0i64),
        r is Some ==> fuzzy_subseq(choice@, pattern@, case_sensitive_for(pattern@)),
{
    SkimMatcherV2::default().fuzzy_match(choice, pattern)
}

/// The part of a field's score that counts for selection: the skim score,
/// with no match and negative scores counted as zero.
pub open spec fn field_score(field: Seq<char>, query: Seq<char>) -> int {
    match skim_score(field, query) {
        Some(s) => if s > 0 { s as int } else { 0 },
        None => 0,
    }
}

/// Whether the query matches the field at all.
pub open spec fn field_matches(field: Seq<char>, query: Seq<char>) -> bool {
    fuzzy_subseq(field, query, case_sensitive_for(query))
}

/// Scores `query` against one candidate field.
pub fn score_field(field: &str, query: &str) -> (r: i64)
    ensures
        r as int == field_score(field@, query@),
        r > 0 ==> field_matches(field@, query@),
        query@.len() == 0 ==> r == 0,
{
    match skim_fuzzy_match(field, query) {
        Some(s) => if s > 0 { s } else { 0 },
        None => 0,
    }
}

/// A pattern character that no candidate character matches rules the match out.
pub proof fn lemma_absent_char_no_match(choice: Seq<char>, pattern: Seq<char>, case_sensitive: bool, k: int)
    requires
        0 <= k < pattern.len(),
        forall|j: int| 0 <= j < choice.len() ==> !chars_match(#[trigger] choice[j], pattern[k], case_sensitive),
    ensures
        !fuzzy_subseq(choice, pattern, case_sensitive),
    decreases choice.len(),
{
    if choice.len() > 0 {
        assert(forall|j: int| 0 <= j < choice.drop_first().len() ==> #[trigger] choice.drop_first()[j] == choice[j + 1]);
        if chars_match(choice[0], pattern[0], case_sensitive) {
            assert(k != 0);
            lemma_absent_char_no_match(choice.drop_first(), pattern.drop_first(), case_sensitive, k - 1);
        } else {
            lemma_absent_char_no_match(choice.drop_first(), pattern, case_sensitive, k);
        }
    }
}

} // verus!
