//! The game: two players and the text that shows both their boards.

use crate::board::BoardView;
use crate::layout::repeated;
use crate::player::{Player, PlayerView};
use vstd::prelude::*;
use vstd::string::*;

verus! {

/// The two lines that open the display, and the blank line after them: a
/// rule of 34 equals signs and the number of the turn, which is always 1.
pub open spec fn banner() -> Seq<char> {
    repeated('=', 34) + seq!['\n'] + seq!['T', 'U', 'R', 'N', ':', ' ', '1', '\n'] + seq!['\n']
}

/// The mathematical model of a game.
pub struct GameView {
    pub player1: PlayerView,
    pub player2: PlayerView,
}

impl GameView {
    /// The game as text: the banner, then the two players' sections with one
    /// blank line between them.
    pub open spec fn display(self) -> Seq<char> {
        banner() + self.player1.section() + seq!['\n'] + self.player2.section()
    }
}

pub struct Game {
    pub player1: Player,
    pub player2: Player,
}

impl View for Game {
    type V = GameView;

    open spec fn view(&self) -> GameView {
        GameView { player1: self.player1@, player2: self.player2@ }
    }
}

impl Game {
    /// A game between two players of the given names, each with an empty
    /// board of ten by ten cells.
    pub fn new(p1: &str, p2: &str) -> (game: Game)
        ensures
            game@ == (GameView {
                player1: PlayerView { name: p1@, board: BoardView::empty(10, 10) },
                player2: PlayerView { name: p2@, board: BoardView::empty(10, 10) },
            }),
            game.player1.board.ships@.len() == 0,
            game.player2.board.ships@.len() == 0,
    {
        Game { player1: Player::new(p1), player2: Player::new(p2) }
    }

    /// The game as text; see [`GameView::display`].
    pub fn display(&self) -> (text: String)
        ensures
            text@ == self@.display(),
    {
        proof {
            reveal_strlit("==================================\n");
            reveal_strlit("TURN: 1\n\n");
            reveal_strlit(":\n");
            reveal_strlit("\n");
        }
        let mut display = String::new();
        display.append("==================================\n");
        display.append("TURN: 1\n\n");
        assert(display@ =~= banner());

        display.append(self.player1.name.as_str());
        display.append(":\n");
        display.append(self.player1.board.to_string().as_str());
        assert(display@ =~= banner() + self@.player1.section());
        display.append("\n");
        display.append(self.player2.name.as_str());
        display.append(":\n");
        display.append(self.player2.board.to_string().as_str());
        assert(display@ =~= self@.display());

        display
    }
}

} // verus!
