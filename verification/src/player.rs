//! A participant of the game: a name and a board.

use crate::board::{Board, BoardView};
use vstd::prelude::*;
use vstd::string::*;

verus! {

/// The mathematical model of a player.
pub struct PlayerView {
    pub name: Seq<char>,
    pub board: BoardView,
}

impl PlayerView {
    /// The player's part of the game's display: the name with a colon on a
    /// line of its own, then the board.
    pub open spec fn section(self) -> Seq<char> {
        self.name + seq![':', '\n'] + self.board.rendering()
    }
}

pub struct Player {
    pub name: String,
    pub board: Board,
}

impl View for Player {
    type V = PlayerView;

    open spec fn view(&self) -> PlayerView {
        PlayerView { name: self.name@, board: self.board@ }
    }
}

impl Player {
    /// A player of the given name with an empty board of ten by ten cells.
    pub fn new(name: &str) -> (player: Player)
        ensures
            player@ == (PlayerView { name: name@, board: BoardView::empty(10, 10) }),
            player.board.ships@.len() == 0,
    {
        Player { name: name.to_owned(), board: Board::new() }
    }
}

} // verus!
