//! One round of the game: the target word, the guess budget, the history of
//! submitted guesses, and the board rendered from them.
//!
//! A round starts in progress, becomes `Won` as soon as a submitted guess
//! equals the target, and becomes `Lost` when the last allowed guess misses;
//! both outcomes are terminal.  The board has one interior row per allowed
//! guess slot: submitted guesses are rendered letter by letter in the style
//! of their classification, empty slots as a filler row.

use vstd::prelude::*;

use crate::scorer::classify_at;
use crate::scorer::count_in;
use crate::scorer::lemma_count_concat;
use crate::scorer::lemma_count_zero_iff_absent;
use crate::scorer::score;
use crate::scorer::LetterClassification;

verus! {

/// Where a round stands: still accepting guesses, or finished one way.
#[derive(Clone, Copy, Debug, PartialEq, Eq, Structural)]
pub enum RoundState {
    /// Guesses are still accepted.
    InProgress,
    /// A submitted guess equalled the target word.
    Won,
    /// The guess budget ran out without the target being guessed.
    Lost,
}

#[verifier::external_type_specification]
#[verifier::external_body]
pub struct ExStyle(console::Style);

/// Relies on console::Style::new: builds the empty style, which leaves text
/// unstyled.
#[verifier::external_body]
fn style_plain() -> console::Style {
    console::Style::new()
}

/// Relies on console::Style::green: sets the style's foreground colour.
#[verifier::external_body]
fn style_green(style: console::Style) -> console::Style {
    style.green()
}

/// Relies on console::Style::yellow: sets the style's foreground colour.
#[verifier::external_body]
fn style_yellow(style: console::Style) -> console::Style {
    style.yellow()
}

/// Relies on console's StyledObject Display impl: it always writes the value
/// itself, and wraps it in ANSI colour codes — which hold no line break —
/// only when the terminal is taken to support colours.
#[verifier::external_body]
fn styled_char(style: &console::Style, c: char) -> (r: String)
    ensures
        r@.contains(c),
        c != '\n' ==> !r@.contains('\n'),
{
    style.apply_to(c).to_string()
}

/// A word the round can hold: as long as the target, with no line break.
pub open spec fn word_ok(word: Seq<char>, target: Seq<char>) -> bool {
    &&& word.len() == target.len()
    &&& forall|j: int| 0 <= j < word.len() ==> word[j] != '\n'
}

/// One round of play against a fixed target word.
#[derive(Debug)]
pub struct GameState {
    /// The secret word guesses are compared against.
    pub target_word: String,
    /// How many guesses the round allows; at least one.
    pub max_guesses: usize,
    /// How many guesses have been submitted so far.
    pub current_guesses: usize,
    /// The submitted guesses, in submission order.
    pub guessed_words: Vec<String>,
    /// Where the round stands.
    pub state: RoundState,
}

impl GameState {
    /// The state the history dictates: won as soon as the latest guess is
    /// the target, lost when the budget is spent without a win.
    pub open spec fn expected_state(self) -> RoundState {
        if self.guessed_words@.len() > 0 && self.guessed_words@.last()@ == self.target_word@ {
            RoundState::Won
        } else if self.guessed_words@.len() >= self.max_guesses {
            RoundState::Lost
        } else {
            RoundState::InProgress
        }
    }

    /// Well-formedness of a round: the guess count mirrors the history, the
    /// history fits the budget, every recorded word could be a guess, and
    /// the state matches the history.
    pub open spec fn wf(self) -> bool {
        &&& self.max_guesses >= 1
        &&& self.current_guesses == self.guessed_words@.len()
        &&& self.guessed_words@.len() <= self.max_guesses
        &&& forall|i: int|
            0 <= i < self.guessed_words@.len() ==> word_ok(
                (#[trigger] self.guessed_words@[i])@,
                self.target_word@,
            )
        &&& self.state == self.expected_state()
    }

    /// Starts a round on `target_word` with a budget of `max_guesses`.
    pub fn new(target_word: String, max_guesses: usize) -> (round: GameState)
        requires
            max_guesses >= 1,
        ensures
            round.wf(),
            round.target_word == target_word,
            round.max_guesses == max_guesses,
            round.current_guesses == 0,
            round.guessed_words@ == Seq::<String>::empty(),
            round.state == RoundState::InProgress,
    {
        GameState {
            target_word,
            max_guesses,
            current_guesses: 0,
            guessed_words: Vec::new(),
            state: RoundState::InProgress,
        }
    }

    /// Submits a guess (assumed already validated by the caller) and says
    /// whether the round just ended: the round is won the moment the guess
    /// equals the target, lost when this was the last allowed guess, and
    /// otherwise stays in progress.
    pub fn guess(&mut self, word: &String) -> (over: bool)
        requires
            old(self).wf(),
            old(self).state == RoundState::InProgress,
            word_ok(word@, old(self).target_word@),
        ensures
            final(self).wf(),
            final(self).target_word == old(self).target_word,
            final(self).max_guesses == old(self).max_guesses,
            final(self).guessed_words@ == old(self).guessed_words@.push(*word),
            final(self).current_guesses == old(self).current_guesses + 1,
            final(self).state == (if word@ == old(self).target_word@ {
                RoundState::Won
            } else if old(self).current_guesses + 1 >= old(self).max_guesses {
                RoundState::Lost
            } else {
                RoundState::InProgress
            }),
            over == (final(self).state != RoundState::InProgress),
    {
        self.guessed_words.push(word.clone());
        self.current_guesses = self.current_guesses + 1;
        if *word == self.target_word {
            self.state = RoundState::Won;
        } else if self.current_guesses >= self.max_guesses {
            self.state = RoundState::Lost;
        }
        self.is_over()
    }

    /// True exactly when the round is finished, won or lost.
    pub fn is_over(&self) -> (over: bool)
        ensures
            over == (self.state == RoundState::Won || self.state == RoundState::Lost),
    {
        match self.state {
            RoundState::InProgress => false,
            RoundState::Won => true,
            RoundState::Lost => true,
        }
    }

    /// Renders the board: a top border, one interior row per allowed guess
    /// slot — submitted guesses scored and styled, empty slots as a filler
    /// row — and a bottom border, each interior row ended by a line break.
    /// The board always has exactly `max_guesses` interior rows, however
    /// many guesses were submitted.
    pub fn get_board(&self) -> (board: String)
        requires
            self.wf(),
        ensures
            exists|rows: Seq<Seq<char>>| board_matches(*self, board@, rows),
            count_in(board@, '\n') == self.max_guesses + 1,
    {
        let mut board = String::from_str("\u{2581}\u{2581}\u{2581}\u{2581}\u{2581}\n");
        let ghost top: Seq<char> = "\u{2581}\u{2581}\u{2581}\u{2581}\u{2581}\n"@;
        proof {
            lemma_border_literals();
        }
        let ghost mut rows: Seq<Seq<char>> = Seq::<Seq<char>>::empty();
        let mut i: usize = 0;
        while i < self.max_guesses
            invariant
                self.wf(),
                i <= self.max_guesses,
                rows.len() == i,
                board@ == top + board_body(rows),
                top == "\u{2581}\u{2581}\u{2581}\u{2581}\u{2581}\n"@,
                count_in(board@, '\n') == i + 1,
                forall|k: int| 0 <= k < i ==> !(#[trigger] rows[k]).contains('\n'),
                forall|k: int| self.guessed_words@.len() <= k < i ==> rows[k] == "@@@@@"@,
            decreases self.max_guesses - i,
        {
            let ghost board_before = board@;
            let row: String = if i < self.guessed_words.len() {
                assert(word_ok(self.guessed_words@[i as int]@, self.target_word@));
                self.get_compatibility(self.guessed_words[i].clone())
            } else {
                String::from_str("@@@@@")
            };
            proof {
                lemma_border_literals();
                assert(!row@.contains('\n'));
            }
            board.append(row.as_str());
            board.append("\n");
            proof {
                lemma_board_body_push(rows, row@);
                rows = rows.push(row@);
                assert(board@ =~= top + board_body(rows));
                lemma_count_concat(board_before, row@, '\n');
                lemma_count_concat(board_before + row@, "\n"@, '\n');
                lemma_count_zero_iff_absent(row@, '\n');
                assert(board@ =~= (board_before + row@) + "\n"@);
            }
            i = i + 1;
        }
        let ghost interior = board@;
        board.append("\u{2594}\u{2594}\u{2594}\u{2594}\u{2594}");
        proof {
            lemma_border_literals();
            lemma_count_concat(interior, "\u{2594}\u{2594}\u{2594}\u{2594}\u{2594}"@, '\n');
            assert(board_matches(*self, board@, rows));
        }
        board
    }

    /// Renders one board row for `other` scored against the target word:
    /// each letter styled after its classification.  The row always shows
    /// every guessed letter, and holds no line break unless the guess did.
    pub fn get_compatibility(&self, other: String) -> (r: String)
        requires
            other@.len() == self.target_word@.len(),
        ensures
            (forall|j: int| 0 <= j < other@.len() ==> other@[j] != '\n') ==> !r@.contains('\n'),
            forall|j: int| 0 <= j < other@.len() ==> r@.contains(#[trigger] other@[j]),
    {
        let classes = score(&self.target_word, &other);
        let plain = style_plain();
        let green = style_green(style_plain());
        let yellow = style_yellow(style_plain());
        let len = other.as_str().unicode_len();
        let mut r = String::new();
        let mut i: usize = 0;
        while i < len
            invariant
                i <= len == other@.len(),
                classes@.len() == other@.len(),
                forall|k: int| 0 <= k < classes@.len() ==> classes@[k] == classify_at(
                    self.target_word@,
                    other@,
                    k,
                ),
                (forall|j: int| 0 <= j < other@.len() ==> other@[j] != '\n') ==> !r@.contains(
                    '\n',
                ),
                forall|j: int| 0 <= j < i ==> r@.contains(#[trigger] other@[j]),
            decreases len - i,
        {
            let c = other.as_str().get_char(i);
            let fragment = match classes[i] {
                LetterClassification::Exact => styled_char(&green, c),
                LetterClassification::Present => styled_char(&yellow, c),
                LetterClassification::Absent => styled_char(&plain, c),
            };
            let ghost r_before = r@;
            r.append(fragment.as_str());
            proof {
                lemma_concat_contains(r_before, fragment@);
            }
            i = i + 1;
        }
        r
    }
}

/// The interior of a board: every row followed by a line break.
pub open spec fn board_body(rows: Seq<Seq<char>>) -> Seq<char>
    decreases rows.len(),
{
    if rows.len() == 0 {
        Seq::<char>::empty()
    } else {
        board_body(rows.drop_last()) + rows.last() + seq!['\n']
    }
}

/// What `get_board` promises of its result: a top border, one row per
/// allowed guess slot with no stray line break in any row, a filler row for
/// every slot past the recorded guesses, and a bottom border.
pub open spec fn board_matches(round: GameState, board: Seq<char>, rows: Seq<Seq<char>>) -> bool {
    &&& rows.len() == round.max_guesses
    &&& board == "\u{2581}\u{2581}\u{2581}\u{2581}\u{2581}\n"@ + board_body(rows)
        + "\u{2594}\u{2594}\u{2594}\u{2594}\u{2594}"@
    &&& forall|k: int| 0 <= k < rows.len() ==> !(#[trigger] rows[k]).contains('\n')
    &&& forall|k: int| round.guessed_words@.len() <= k < rows.len() ==> rows[k] == "@@@@@"@
}

/// Appending a row extends the board interior by that row and a line break.
proof fn lemma_board_body_push(rows: Seq<Seq<char>>, row: Seq<char>)
    ensures
        board_body(rows.push(row)) == board_body(rows) + row + seq!['\n'],
{
    assert(rows.push(row).drop_last() =~= rows);
    assert(rows.push(row).last() == row);
}

/// The concrete shape of the border and filler literals: the top border ends
/// in the board's only border line break, and neither the filler row nor the
/// bottom border holds one.
proof fn lemma_border_literals()
    ensures
        "\n"@ == seq!['\n'],
        count_in("\n"@, '\n') == 1,
        count_in("\u{2581}\u{2581}\u{2581}\u{2581}\u{2581}\n"@, '\n') == 1,
        !"@@@@@"@.contains('\n'),
        count_in("\u{2594}\u{2594}\u{2594}\u{2594}\u{2594}"@, '\n') == 0,
{
    reveal_strlit("\n");
    reveal_strlit("\u{2581}\u{2581}\u{2581}\u{2581}\u{2581}\n");
    reveal_strlit("@@@@@");
    reveal_strlit("\u{2594}\u{2594}\u{2594}\u{2594}\u{2594}");
    assert("\n"@ =~= seq!['\n']);
    assert("\n"@.drop_last() =~= Seq::<char>::empty());
    assert("\n"@.drop_last() == Seq::<char>::empty());
    assert(count_in(Seq::<char>::empty(), '\n') == 0);
    assert("\n"@.last() == '\n');
    assert(count_in("\n"@, '\n') == count_in("\n"@.drop_last(), '\n') + 1);
    let top = "\u{2581}\u{2581}\u{2581}\u{2581}\u{2581}\n"@;
    assert(top.drop_last() =~= top.take(5));
    assert(forall|k: int| 0 <= k < 5 ==> top.take(5)[k] != '\n');
    assert(!top.take(5).contains('\n'));
    lemma_count_zero_iff_absent(top.take(5), '\n');
    assert(count_in(top, '\n') == 1);
    assert(forall|k: int| 0 <= k < "@@@@@"@.len() ==> "@@@@@"@[k] != '\n');
    let bottom = "\u{2594}\u{2594}\u{2594}\u{2594}\u{2594}"@;
    assert(forall|k: int| 0 <= k < bottom.len() ==> bottom[k] != '\n');
    assert(!bottom.contains('\n'));
    lemma_count_zero_iff_absent(bottom, '\n');
}

/// Characters of either part are characters of the concatenation, and a
/// character absent from both parts is absent from the concatenation.
proof fn lemma_concat_contains(a: Seq<char>, b: Seq<char>)
    ensures
        forall|c: char| a.contains(c) ==> (a + b).contains(c),
        forall|c: char| b.contains(c) ==> (a + b).contains(c),
        forall|c: char| !a.contains(c) && !b.contains(c) ==> !(a + b).contains(c),
{
    assert forall|c: char| a.contains(c) implies (a + b).contains(c) by {
        let i = choose|i: int| 0 <= i < a.len() && a[i] == c;
        assert((a + b)[i] == c);
    }
    assert forall|c: char| b.contains(c) implies (a + b).contains(c) by {
        let i = choose|i: int| 0 <= i < b.len() && b[i] == c;
        assert((a + b)[a.len() + i] == c);
    }
    assert forall|c: char| !a.contains(c) && !b.contains(c) implies !(a + b).contains(c) by {
        assert forall|i: int| 0 <= i < a.len() + b.len() implies (a + b)[i] != c by {
            if i < a.len() {
                assert((a + b)[i] == a[i]);
            } else {
                assert((a + b)[i] == b[i - a.len()]);
            }
        }
    }
}

} // verus!
