//! Per-letter feedback for a guess against a target word.
//!
//! `score` classifies each position of a guess as `Exact`, `Present` or
//! `Absent`, reproducing the game's left-to-right duplicate-letter rule:
//! an exact match is never downgraded, and a letter guessed more often than
//! the target holds it keeps only its earliest over-used occurrences.

use vstd::prelude::*;

verus! {

/// Feedback for one letter of a scored guess.
#[derive(Clone, Copy, Debug, PartialEq, Eq, Structural)]
pub enum LetterClassification {
    /// The guessed letter matches the target letter at the same position.
    Exact,
    /// The guessed letter occurs elsewhere in the target, within the
    /// duplicate-count limit.
    Present,
    /// The guessed letter does not count toward the target at this position.
    Absent,
}

/// How many times `c` occurs in `s`.
pub open spec fn count_in(s: Seq<char>, c: char) -> nat
    decreases s.len(),
{
    if s.len() == 0 {
        0
    } else {
        count_in(s.drop_last(), c) + (if s.last() == c {
            1nat
        } else {
            0nat
        })
    }
}

/// A letter cannot occur more often than the sequence is long.
pub proof fn lemma_count_le_len(s: Seq<char>, c: char)
    ensures
        count_in(s, c) <= s.len(),
    decreases s.len(),
{
    if s.len() > 0 {
        lemma_count_le_len(s.drop_last(), c);
    }
}

/// `c` occurs in `s` exactly when its occurrence count is positive.
pub proof fn lemma_count_zero_iff_absent(s: Seq<char>, c: char)
    ensures
        (count_in(s, c) == 0) <==> !s.contains(c),
    decreases s.len(),
{
    if s.len() > 0 {
        lemma_count_zero_iff_absent(s.drop_last(), c);
        if s.contains(c) {
            let i = choose|i: int| 0 <= i < s.len() && s[i] == c;
            if i < s.len() - 1 {
                assert(s.drop_last()[i] == c);
                assert(s.drop_last().contains(c));
            }
        } else {
            assert(forall|i: int| 0 <= i < s.len() - 1 ==> s.drop_last()[i] != c);
            assert(!s.drop_last().contains(c));
        }
    }
}

/// Counting distributes over concatenation.
pub proof fn lemma_count_concat(a: Seq<char>, b: Seq<char>, c: char)
    ensures
        count_in(a + b, c) == count_in(a, c) + count_in(b, c),
    decreases b.len(),
{
    if b.len() == 0 {
        assert(a + b =~= a);
    } else {
        lemma_count_concat(a, b.drop_last(), c);
        assert((a + b).drop_last() =~= a + b.drop_last());
        assert((a + b).last() == b.last());
    }
}

/// Counting over one more element of a prefix.
pub proof fn lemma_count_take_step(s: Seq<char>, c: char, n: int)
    requires
        0 < n <= s.len(),
    ensures
        count_in(s.take(n), c) == count_in(s.take(n - 1), c) + (if s[n - 1] == c {
            1nat
        } else {
            0nat
        }),
{
    assert(s.take(n).drop_last() =~= s.take(n - 1));
    assert(s.take(n).last() == s[n - 1]);
}

/// The classification the scorer owes position `i` of `guess` against
/// `target`: an exact match is `Exact`; a letter the target lacks is
/// `Absent`; a letter the target holds elsewhere is `Present`, unless the
/// guess over-uses it, in which case only the occurrences before the excess
/// runs out stay `Present`.
pub open spec fn classify_at(target: Seq<char>, guess: Seq<char>, i: int) -> LetterClassification
    recommends
        guess.len() == target.len(),
        0 <= i < guess.len(),
{
    let c = guess[i];
    if target[i] == c {
        LetterClassification::Exact
    } else if count_in(target, c) == 0 {
        LetterClassification::Absent
    } else if count_in(guess, c) <= count_in(target, c) {
        LetterClassification::Present
    } else if count_in(guess.take(i), c) < count_in(guess, c) - count_in(target, c) {
        LetterClassification::Present
    } else {
        LetterClassification::Absent
    }
}

/// Scores `guess` against `target`, one classification per position.
///
/// This is the game's whole feedback rule: position `i` of the result is
/// `classify_at(target@, guess@, i)`.
pub fn score(target: &String, guess: &String) -> (r: Vec<LetterClassification>)
    requires
        guess@.len() == target@.len(),
    ensures
        r@.len() == guess@.len(),
        forall|i: int| 0 <= i < r@.len() ==> r@[i] == classify_at(target@, guess@, i),
{
    let len = guess.as_str().unicode_len();
    let mut r: Vec<LetterClassification> = Vec::new();
    let mut i: usize = 0;
    while i < len
        invariant
            i <= len == guess@.len() == target@.len(),
            r@.len() == i,
            forall|k: int| 0 <= k < i ==> r@[k] == classify_at(target@, guess@, k),
        decreases len - i,
    {
        let c = guess.as_str().get_char(i);
        let classification = if target.as_str().get_char(i) == c {
            LetterClassification::Exact
        } else {
            let count_in_target = count(target, c);
            if count_in_target == 0 {
                LetterClassification::Absent
            } else {
                let count_in_guess = count(guess, c);
                if count_in_guess <= count_in_target {
                    LetterClassification::Present
                } else {
                    let prior = count_upto(guess, c, i);
                    if prior < count_in_guess - count_in_target {
                        LetterClassification::Present
                    } else {
                        LetterClassification::Absent
                    }
                }
            }
        };
        r.push(classification);
        i = i + 1;
    }
    r
}

/// How many of the first `n` positions of `guess` hold the letter `c` and
/// are classified `Exact` or `Present` against `target`.
pub open spec fn credited_count(target: Seq<char>, guess: Seq<char>, c: char, n: int) -> nat
    recommends
        guess.len() == target.len(),
        n <= guess.len(),
    decreases n,
{
    if n <= 0 {
        0
    } else {
        credited_count(target, guess, c, n - 1) + (if guess[n - 1] == c && classify_at(
            target,
            guess,
            n - 1,
        ) != LetterClassification::Absent {
            1nat
        } else {
            0nat
        })
    }
}

/// A guess equal to the target is classified `Exact` at every position.
pub proof fn lemma_all_exact_when_guess_is_target(target: Seq<char>, guess: Seq<char>)
    requires
        guess == target,
    ensures
        forall|i: int|
            0 <= i < guess.len() ==> classify_at(target, guess, i)
                == LetterClassification::Exact,
{
}

/// A guess sharing no letter with the target is classified `Absent` at every
/// position.
pub proof fn lemma_all_absent_when_disjoint(target: Seq<char>, guess: Seq<char>)
    requires
        guess.len() == target.len(),
        forall|i: int| 0 <= i < guess.len() ==> !target.contains(#[trigger] guess[i]),
    ensures
        forall|i: int|
            0 <= i < guess.len() ==> classify_at(target, guess, i)
                == LetterClassification::Absent,
{
    assert forall|i: int| 0 <= i < guess.len() implies classify_at(target, guess, i)
        == LetterClassification::Absent by {
        lemma_count_zero_iff_absent(target, guess[i]);
        assert(target[i] != guess[i]);
    }
}

/// A position is classified `Exact` exactly when the guessed letter matches
/// the target letter there: direct matches are never downgraded by the
/// duplicate-letter rule.
pub proof fn lemma_exact_iff_match(target: Seq<char>, guess: Seq<char>, i: int)
    requires
        guess.len() == target.len(),
        0 <= i < guess.len(),
    ensures
        (classify_at(target, guess, i) == LetterClassification::Exact) <==> guess[i] == target[i],
{
}

/// Letter-count conservation for a letter the guess does not over-use: the
/// positions holding `c` that are classified `Exact` or `Present` never
/// outnumber the occurrences of `c` in the target.
pub proof fn lemma_letter_count_conservation(target: Seq<char>, guess: Seq<char>, c: char)
    requires
        guess.len() == target.len(),
        count_in(guess, c) <= count_in(target, c) || count_in(target, c) == 0,
    ensures
        credited_count(target, guess, c, guess.len() as int) <= count_in(target, c),
{
    if count_in(target, c) == 0 {
        lemma_credited_none_when_target_lacks(target, guess, c, guess.len() as int);
    } else {
        lemma_credited_le_prefix_count(target, guess, c, guess.len() as int);
        assert(guess.take(guess.len() as int) =~= guess);
    }
}

/// When the target holds no `c` at all, no position on `c` is credited.
proof fn lemma_credited_none_when_target_lacks(target: Seq<char>, guess: Seq<char>, c: char, n: int)
    requires
        guess.len() == target.len(),
        0 <= n <= guess.len(),
        count_in(target, c) == 0,
    ensures
        credited_count(target, guess, c, n) == 0,
    decreases n,
{
    if n > 0 {
        lemma_credited_none_when_target_lacks(target, guess, c, n - 1);
        if guess[n - 1] == c {
            lemma_count_zero_iff_absent(target, c);
            assert(target[n - 1] != c);
        }
    }
}

/// Credited positions on `c` are a subset of the occurrences of `c`.
proof fn lemma_credited_le_prefix_count(target: Seq<char>, guess: Seq<char>, c: char, n: int)
    requires
        guess.len() == target.len(),
        0 <= n <= guess.len(),
    ensures
        credited_count(target, guess, c, n) <= count_in(guess.take(n), c),
    decreases n,
{
    if n > 0 {
        lemma_credited_le_prefix_count(target, guess, c, n - 1);
        lemma_count_take_step(guess, c, n);
    }
}

/// Counts how many of the first `upto` characters of `s` equal `character`.
pub fn count_upto(s: &String, character: char, upto: usize) -> (n: usize)
    requires
        upto <= s@.len(),
    ensures
        n == count_in(s@.take(upto as int), character),
{
    let mut n: usize = 0;
    let mut i: usize = 0;
    while i < upto
        invariant
            i <= upto <= s@.len(),
            n == count_in(s@.take(i as int), character),
        decreases upto - i,
    {
        proof {
            lemma_count_take_step(s@, character, i + 1);
            lemma_count_le_len(s@.take(i as int), character);
        }
        if s.as_str().get_char(i) == character {
            n = n + 1;
        }
        i = i + 1;
    }
    n
}

/// Counts how many times `character` occurs in `string`.
pub fn count(string: &String, character: char) -> (n: usize)
    ensures
        n == count_in(string@, character),
{
    let len = string.as_str().unicode_len();
    let n = count_upto(string, character, len);
    proof {
        assert(string@.take(len as int) =~= string@);
    }
    n
}

} // verus!
