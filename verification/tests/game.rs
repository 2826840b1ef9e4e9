use game::board::BoardState;
use game::game::Game;
use game::player::Player;
use game::ship::{Ship, ShipOrientation};

#[test]
fn game_creation() {
    let game = Game::new("greyson", "julia");

    let expected = "\
==================================
TURN: 1

greyson:
       A  B  C  D  E  F  G  H  I  J
     _______________________________
 1  |  .  .  .  .  .  .  .  .  .  . 
 2  |  .  .  .  .  .  .  .  .  .  . 
 3  |  .  .  .  .  .  .  .  .  .  . 
 4  |  .  .  .  .  .  .  .  .  .  . 
 5  |  .  .  .  .  .  .  .  .  .  . 
 6  |  .  .  .  .  .  .  .  .  .  . 
 7  |  .  .  .  .  .  .  .  .  .  . 
 8  |  .  .  .  .  .  .  .  .  .  . 
 9  |  .  .  .  .  .  .  .  .  .  . 
10  |  .  .  .  .  .  .  .  .  .  . 

julia:
       A  B  C  D  E  F  G  H  I  J
     _______________________________
 1  |  .  .  .  .  .  .  .  .  .  . 
 2  |  .  .  .  .  .  .  .  .  .  . 
 3  |  .  .  .  .  .  .  .  .  .  . 
 4  |  .  .  .  .  .  .  .  .  .  . 
 5  |  .  .  .  .  .  .  .  .  .  . 
 6  |  .  .  .  .  .  .  .  .  .  . 
 7  |  .  .  .  .  .  .  .  .  .  . 
 8  |  .  .  .  .  .  .  .  .  .  . 
 9  |  .  .  .  .  .  .  .  .  .  . 
10  |  .  .  .  .  .  .  .  .  .  . 
";

    assert_eq!(game.display(), expected);
}

#[test]
fn player_starts_with_an_empty_board() {
    let player = Player::new("matt");
    assert_eq!(player.name, "matt");
    assert_eq!(player.board.width, 10);
    assert_eq!(player.board.height, 10);
    assert_eq!(player.board.state, BoardState::INCOMPLETE);
    assert_eq!(player.board.ships.len(), 0);
}

#[test]
fn game_holds_the_two_names_in_order() {
    let game = Game::new("greyson", "julia");
    assert_eq!(game.player1.name, "greyson");
    assert_eq!(game.player2.name, "julia");
    assert_eq!(game.player1.board.ships.len(), 0);
    assert_eq!(game.player2.board.ships.len(), 0);
}

#[test]
fn display_is_banner_then_two_sections_one_blank_line_apart() {
    let mut game = Game::new("a", "");
    game.player2.board.with_ship(Ship::new(0, 0, 1, ShipOrientation::Vertical)).unwrap();
    let first = game.player1.board.to_string();
    let second = game.player2.board.to_string();
    assert!(second.contains("[ ]"));
    let expected = format!(
        "==================================\nTURN: 1\n\na:\n{}\n:\n{}",
        first, second
    );
    assert_eq!(game.display(), expected);
}
