use console_wordle_rust::round::GameState;
use console_wordle_rust::round::RoundState;
use console_wordle_rust::stats::GameWorldState;
use console_wordle_rust::words::get_random_target_word;
use console_wordle_rust::words::is_valid;

#[test]
fn three_misses_lose_a_three_guess_round() {
    let mut round = GameState::new(String::from("crane"), 3);
    assert!(!round.guess(&String::from("slate")));
    assert!(!round.is_over());
    assert!(!round.guess(&String::from("pound")));
    assert!(!round.is_over());
    assert!(round.guess(&String::from("light")));
    assert!(round.is_over());
    assert!(round.state == RoundState::Lost);
    assert_eq!(round.current_guesses, 3);
}

#[test]
fn correct_second_guess_wins_a_six_guess_round() {
    let mut round = GameState::new(String::from("crane"), 6);
    assert!(!round.guess(&String::from("slate")));
    assert!(!round.is_over());
    assert!(round.guess(&String::from("crane")));
    assert!(round.is_over());
    assert!(round.state == RoundState::Won);
    assert_eq!(round.current_guesses, 2);
}

#[test]
fn winning_on_the_last_guess_is_a_win() {
    let mut round = GameState::new(String::from("ab"), 2);
    assert!(!round.guess(&String::from("ba")));
    assert!(round.guess(&String::from("ab")));
    assert!(round.state == RoundState::Won);
}

#[test]
fn history_keeps_submission_order() {
    let mut round = GameState::new(String::from("crane"), 6);
    round.guess(&String::from("slate"));
    round.guess(&String::from("pound"));
    assert_eq!(round.guessed_words, vec![String::from("slate"), String::from("pound")]);
}

#[test]
fn empty_board_is_all_filler_rows() {
    let round = GameState::new(String::from("crane"), 3);
    let board = round.get_board();
    assert_eq!(
        board,
        "\u{2581}\u{2581}\u{2581}\u{2581}\u{2581}\n@@@@@\n@@@@@\n@@@@@\n\u{2594}\u{2594}\u{2594}\u{2594}\u{2594}"
    );
}

#[test]
fn board_always_has_one_interior_row_per_slot() {
    let mut round = GameState::new(String::from("crane"), 4);
    round.guess(&String::from("slate"));
    round.guess(&String::from("pound"));
    let board = round.get_board();
    let newlines = board.chars().filter(|&c| c == '\n').count();
    assert_eq!(newlines, 4 + 1);
    assert!(board.starts_with("\u{2581}\u{2581}\u{2581}\u{2581}\u{2581}\n"));
    assert!(board.ends_with("\u{2594}\u{2594}\u{2594}\u{2594}\u{2594}"));
}

#[test]
fn board_rows_show_the_guessed_letters() {
    let mut round = GameState::new(String::from("crane"), 2);
    round.guess(&String::from("slimy"));
    let board = round.get_board();
    for c in "slimy".chars() {
        assert!(board.contains(c));
    }
}

#[test]
fn random_target_word_comes_from_the_bank() {
    let bank = vec![String::from("crane")];
    assert_eq!(get_random_target_word(&bank), "crane");
    let bank = vec![String::from("crane"), String::from("slate"), String::from("pound")];
    for _ in 0..20 {
        let word = get_random_target_word(&bank);
        assert!(bank.contains(&word));
    }
}

#[test]
fn word_list_membership_decides_validity() {
    let list = vec![String::from("crane"), String::from("slate")];
    assert!(is_valid(&String::from("crane"), &list));
    assert!(is_valid(&String::from("slate"), &list));
    assert!(!is_valid(&String::from("pound"), &list));
    assert!(!is_valid(&String::from(""), &list));
}

#[test]
fn stats_record_wins_and_losses() {
    let mut stats = GameWorldState::new(true);
    stats.record_win();
    stats.record_win();
    assert_eq!(stats.current_attempts, 2);
    assert_eq!(stats.current_wins, 2);
    assert_eq!(stats.current_losses, 0);
    assert_eq!(stats.current_winstreak, 2);
    stats.record_loss();
    assert_eq!(stats.current_attempts, 3);
    assert_eq!(stats.current_wins, 2);
    assert_eq!(stats.current_losses, 1);
    assert_eq!(stats.current_winstreak, 0);
    stats.record_win();
    assert_eq!(stats.current_winstreak, 1);
    assert!(stats.is_saveable);
}
