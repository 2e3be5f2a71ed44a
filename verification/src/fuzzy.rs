use vstd::prelude::*;
use fuzzy_matcher::skim::SkimMatcherV2;
use fuzzy_matcher::FuzzyMatcher;
use crate::text::ascii_lower;

verus! {

/// Whether `s` holds an upper-case ASCII letter.
pub open spec fn has_ascii_upper(s: Seq<char>) -> bool {
    exists|i: int| 0 <= i < s.len() && 'A' <= #[trigger] s[i] <= 'Z'
}

/// Whether a character of the text answers one of the query: the same
/// character where the match is exact, else the same up to ASCII case.
pub open spec fn same_char(c: char, p: char, exact: bool) -> bool {
    if exact {
        c == p
    } else {
        ascii_lower(c) == ascii_lower(p)
    }
}

/// Whether the characters of `pattern` occur in `choice` in their order,
/// not necessarily side by side.
pub open spec fn is_subsequence(choice: Seq<char>, pattern: Seq<char>, exact: bool) -> bool
    decreases choice.len(),
{
    if pattern.len() == 0 {
        true
    } else if choice.len() == 0 {
        false
    } else if same_char(choice[0], pattern[0], exact) {
        is_subsequence(choice.drop_first(), pattern.drop_first(), exact)
    } else {
        is_subsequence(choice.drop_first(), pattern, exact)
    }
}

/// Whether the query `pattern` matches the text `choice` fuzzily: as a
/// subsequence, exactly where the query holds an upper-case ASCII letter,
/// and up to ASCII case where it holds none.
pub open spec fn fuzzy_matches(choice: Seq<char>, pattern: Seq<char>) -> bool {
    is_subsequence(choice, pattern, has_ascii_upper(pattern))
}

/// Calls `SkimMatcherV2::default` and `FuzzyMatcher::fuzzy_match` on it.
/// The matcher gives a score exactly where the query occurs in the text as
/// a subsequence, in the sense of `fuzzy_matches`; nothing is claimed of
/// the score.
#[verifier::external_body]
pub(crate) fn fuzzy_score(choice: &str, pattern: &str) -> (r: Option<i64>)
    ensures
        r is Some <==> fuzzy_matches(choice@, pattern@),
{
    SkimMatcherV2::default().fuzzy_match(choice, pattern)
}

/// Whether the query `pattern` matches the text `choice` fuzzily.
pub fn is_match(choice: &str, pattern: &str) -> (r: bool)
    ensures
        r == fuzzy_matches(choice@, pattern@),
{
    fuzzy_score(choice, pattern).is_some()
}

/// Whether the positions `at` show `pattern` inside `choice`: one position
/// of the text for each character of the query, in rising order, each
/// holding a character that answers the query's.
pub open spec fn shows(choice: Seq<char>, pattern: Seq<char>, exact: bool, at: Seq<int>) -> bool {
    &&& at.len() == pattern.len()
    &&& forall|i: int|
        0 <= i < at.len() ==> 0 <= #[trigger] at[i] < choice.len() && same_char(
            choice[at[i]],
            pattern[i],
            exact,
        )
    &&& forall|i: int, j: int| 0 <= i < j < at.len() ==> at[i] < at[j]
}

/// A query that occurs in a text has positions that show it there.
pub proof fn lemma_subsequence_has_positions(
    choice: Seq<char>,
    pattern: Seq<char>,
    exact: bool,
) -> (at: Seq<int>)
    requires
        is_subsequence(choice, pattern, exact),
    ensures
        shows(choice, pattern, exact, at),
    decreases choice.len(),
{
    if pattern.len() == 0 {
        Seq::empty()
    } else if same_char(choice[0], pattern[0], exact) {
        let rest = lemma_subsequence_has_positions(
            choice.drop_first(),
            pattern.drop_first(),
            exact,
        );
        let at = Seq::new(pattern.len(), |i: int| if i == 0 { 0 } else { rest[i - 1] + 1 });
        assert forall|i: int| 0 <= i < at.len() implies 0 <= #[trigger] at[i] < choice.len()
            && same_char(choice[at[i]], pattern[i], exact) by {
            if i > 0 {
                assert(choice.drop_first()[rest[i - 1]] == choice[at[i]]);
                assert(pattern.drop_first()[i - 1] == pattern[i]);
            }
        }
        assert forall|i: int, j: int| 0 <= i < j < at.len() implies at[i] < at[j] by {
            if i > 0 {
                assert(rest[i - 1] < rest[j - 1]);
            } else {
                assert(0 <= rest[j - 1]);
            }
        }
        at
    } else {
        let rest = lemma_subsequence_has_positions(choice.drop_first(), pattern, exact);
        let at = Seq::new(pattern.len(), |i: int| rest[i] + 1);
        assert forall|i: int| 0 <= i < at.len() implies 0 <= #[trigger] at[i] < choice.len()
            && same_char(choice[at[i]], pattern[i], exact) by {
            assert(choice.drop_first()[rest[i]] == choice[at[i]]);
        }
        assert forall|i: int, j: int| 0 <= i < j < at.len() implies at[i] < at[j] by {
            assert(rest[i] < rest[j]);
        }
        at
    }
}

/// A query that positions show inside a text occurs in it.
pub proof fn lemma_positions_give_subsequence(
    choice: Seq<char>,
    pattern: Seq<char>,
    exact: bool,
    at: Seq<int>,
)
    requires
        shows(choice, pattern, exact, at),
    ensures
        is_subsequence(choice, pattern, exact),
    decreases choice.len(),
{
    if pattern.len() > 0 {
        assert(0 <= at[0] < choice.len());
        let tail = choice.drop_first();
        if same_char(choice[0], pattern[0], exact) {
            let rest = Seq::new((pattern.len() - 1) as nat, |i: int| at[i + 1] - 1);
            assert forall|i: int| 0 <= i < rest.len() implies 0 <= #[trigger] rest[i] < tail.len()
                && same_char(tail[rest[i]], pattern.drop_first()[i], exact) by {
                assert(at[0] < at[i + 1]);
                assert(tail[rest[i]] == choice[at[i + 1]]);
                assert(pattern.drop_first()[i] == pattern[i + 1]);
            }
            assert forall|i: int, j: int| 0 <= i < j < rest.len() implies rest[i] < rest[j] by {
                assert(at[i + 1] < at[j + 1]);
            }
            lemma_positions_give_subsequence(tail, pattern.drop_first(), exact, rest);
        } else {
            let rest = Seq::new(pattern.len(), |i: int| at[i] - 1);
            assert forall|i: int| 0 <= i < rest.len() implies 0 <= #[trigger] rest[i] < tail.len()
                && same_char(tail[rest[i]], pattern[i], exact) by {
                if i > 0 {
                    assert(at[0] < at[i]);
                } else {
                    assert(at[0] != 0);
                }
                assert(tail[rest[i]] == choice[at[i]]);
            }
            assert forall|i: int, j: int| 0 <= i < j < rest.len() implies rest[i] < rest[j] by {
                assert(at[i] < at[j]);
            }
            lemma_positions_give_subsequence(tail, pattern, exact, rest);
        }
    }
}

/// The empty query matches every text.
pub proof fn lemma_empty_query_matches(choice: Seq<char>)
    ensures
        fuzzy_matches(choice, Seq::empty()),
{
}

/// A query that is matched is no longer than the text.
pub proof fn lemma_match_is_no_longer(choice: Seq<char>, pattern: Seq<char>, exact: bool)
    requires
        is_subsequence(choice, pattern, exact),
    ensures
        pattern.len() <= choice.len(),
    decreases choice.len(),
{
    if pattern.len() == 0 {
    } else if same_char(choice[0], pattern[0], exact) {
        lemma_match_is_no_longer(choice.drop_first(), pattern.drop_first(), exact);
    } else {
        lemma_match_is_no_longer(choice.drop_first(), pattern, exact);
    }
}

} // verus!
