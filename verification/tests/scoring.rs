use console_wordle_rust::scorer::count;
use console_wordle_rust::scorer::score;
use console_wordle_rust::scorer::LetterClassification;

fn classes(target: &str, guess: &str) -> Vec<LetterClassification> {
    score(&String::from(target), &String::from(guess))
}

#[test]
fn guess_equal_to_target_is_all_exact() {
    let r = classes("abcde", "abcde");
    assert_eq!(r.len(), 5);
    for c in r {
        assert_eq!(c, LetterClassification::Exact);
    }
}

#[test]
fn another_equal_guess_is_all_exact() {
    for c in classes("speed", "speed") {
        assert_eq!(c, LetterClassification::Exact);
    }
}

#[test]
fn disjoint_guess_is_all_absent() {
    let r = classes("hello", "xxxxx");
    assert_eq!(r.len(), 5);
    for c in r {
        assert_eq!(c, LetterClassification::Absent);
    }
}

#[test]
fn speed_against_erase() {
    // "speed" holds two e's, so both guessed e's stay within the target's
    // count; the s is present elsewhere; r and a are absent.
    let r = classes("speed", "erase");
    assert_eq!(
        r,
        vec![
            LetterClassification::Present,
            LetterClassification::Absent,
            LetterClassification::Absent,
            LetterClassification::Present,
            LetterClassification::Present,
        ]
    );
}

#[test]
fn over_used_letter_is_downgraded() {
    // "asked" holds a single e, already claimed by the earlier guessed e,
    // so the second e of the guess is downgraded to absent.
    let r = classes("asked", "erase");
    assert_eq!(
        r,
        vec![
            LetterClassification::Present,
            LetterClassification::Absent,
            LetterClassification::Present,
            LetterClassification::Present,
            LetterClassification::Absent,
        ]
    );
}

#[test]
fn exact_positions_match_and_only_they() {
    let target = "crane";
    let guess = "crown";
    let r = classes(target, guess);
    for (i, (tc, gc)) in target.chars().zip(guess.chars()).enumerate() {
        assert_eq!(r[i] == LetterClassification::Exact, tc == gc);
    }
}

#[test]
fn letter_count_is_conserved_without_over_use() {
    // 'e' occurs twice in the target and twice in the guess: the credited
    // (exact or present) classifications on 'e' never outnumber the
    // target's two e's.
    let target = "speed";
    let guess = "erase";
    let r = classes(target, guess);
    let credited = guess
        .chars()
        .enumerate()
        .filter(|&(i, c)| c == 'e' && r[i] != LetterClassification::Absent)
        .count();
    assert!(credited <= target.chars().filter(|&c| c == 'e').count());
    assert_eq!(credited, 2);
}

#[test]
fn single_pass_rule_keeps_the_earliest_over_used_occurrences() {
    // The left-to-right single-pass rule: with one a in the target and five
    // in the guess, the excess is four, so the occurrences with fewer than
    // four earlier a's stay — the exact first a, then two present ones —
    // and only the last a is absent.
    let r = classes("abcde", "aaaaa");
    assert_eq!(
        r,
        vec![
            LetterClassification::Exact,
            LetterClassification::Present,
            LetterClassification::Present,
            LetterClassification::Present,
            LetterClassification::Absent,
        ]
    );
}

#[test]
fn count_counts_occurrences() {
    assert_eq!(count(&String::from("speed"), 'e'), 2);
    assert_eq!(count(&String::from("speed"), 's'), 1);
    assert_eq!(count(&String::from("speed"), 'z'), 0);
    assert_eq!(count(&String::from(""), 'a'), 0);
}
