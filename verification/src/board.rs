//! The board: a grid that holds ships, tells what each cell shows, and
//! renders itself as text.

use crate::layout::{
    append_header_line, append_row_label, append_separator_line, header_line,
    lemma_heading_lens, lemma_row_label_len, row_label, separator_line,
};
use crate::ship::{lemma_overlaps_symmetric, Ship, ShipState, ShipView};
use vstd::prelude::*;
use vstd::string::*;

verus! {

/// Whether the placement phase of a board is finished. No operation of the
/// board changes it: a board stays as it was created until its owner sets
/// the field.
#[allow(non_camel_case_types)]
#[derive(Clone, Copy, Debug, PartialEq, Eq, Structural)]
pub enum BoardState {
    INCOMPLETE,
    COMPLETE,
}

/// What a cell of the board shows.
#[derive(Clone, Copy, Debug, PartialEq, Eq, Structural)]
pub enum CoordinateState {
    OpenWater,
    UndamagedShip,
    DamagedShip,
    /// Reserved for a shot that hit no ship; no operation produces it.
    Miss,
}

/// Returned by [`Board::with_ship`] when the ship would share a cell with a
/// ship that is already on the board.
#[derive(Clone, Copy, Debug, PartialEq, Eq, Structural)]
pub struct OverlapError {
    /// Position in the board's `ships` of the first ship that is in the way.
    pub index: usize,
}

impl CoordinateState {
    /// The three characters that stand for a cell in this state.
    pub open spec fn glyph(self) -> Seq<char> {
        match self {
            CoordinateState::OpenWater => seq![' ', '.', ' '],
            CoordinateState::UndamagedShip => seq!['[', ' ', ']'],
            CoordinateState::DamagedShip => seq!['[', 'X', ']'],
            CoordinateState::Miss => seq![' ', 'x', ' '],
        }
    }

    /// The glyph of this state as a string.
    pub fn to_string(&self) -> (text: String)
        ensures
            text@ == self.glyph(),
    {
        proof {
            reveal_strlit(" . ");
            reveal_strlit("[ ]");
            reveal_strlit("[X]");
            reveal_strlit(" x ");
        }
        let glyph = match self {
            CoordinateState::OpenWater => " . ",
            CoordinateState::UndamagedShip => "[ ]",
            CoordinateState::DamagedShip => "[X]",
            CoordinateState::Miss => " x ",
        };
        assert(glyph@ =~= self.glyph());
        glyph.to_owned()
    }
}

/// What a cell shows, given what a ship reports for it.
pub open spec fn shown(report: Option<ShipState>) -> CoordinateState {
    match report {
        Some(ShipState::Undamaged) => CoordinateState::UndamagedShip,
        Some(ShipState::Damaged) => CoordinateState::DamagedShip,
        None => CoordinateState::OpenWater,
    }
}

/// What the cell `(x, y)` shows among `ships`: the report of the first ship
/// in the sequence that occupies the cell, open water if none does.
pub open spec fn status_among(ships: Seq<ShipView>, x: int, y: int) -> CoordinateState
    decreases ships.len(),
{
    if ships.len() == 0 {
        CoordinateState::OpenWater
    } else if ships[0].occupies(x, y) {
        shown(ships[0].state_at(x, y))
    } else {
        status_among(ships.drop_first(), x, y)
    }
}

/// The mathematical model of a board.
pub struct BoardView {
    /// Number of columns.
    pub width: nat,
    /// Number of rows.
    pub height: nat,
    pub state: BoardState,
    /// The ships in the order in which they were placed.
    pub ships: Seq<ShipView>,
}

impl BoardView {
    /// A board of the given size with no ships, in the placement phase.
    pub open spec fn empty(width: nat, height: nat) -> BoardView {
        BoardView { width, height, state: BoardState::INCOMPLETE, ships: Seq::empty() }
    }

    /// No two ships of the board share a cell.
    pub open spec fn disjoint(self) -> bool {
        forall|i: int, j: int|
            0 <= i < j < self.ships.len() ==> !(#[trigger] self.ships[i]).overlaps(
                #[trigger] self.ships[j],
            )
    }

    /// `ship` shares no cell with any ship of the board.
    pub open spec fn clear_of(self, ship: ShipView) -> bool {
        forall|i: int| 0 <= i < self.ships.len() ==> !ship.overlaps(#[trigger] self.ships[i])
    }

    /// `i` is the position of the first ship of the board that shares a
    /// cell with `ship`.
    pub open spec fn first_in_the_way(self, ship: ShipView, i: int) -> bool {
        &&& 0 <= i < self.ships.len()
        &&& ship.overlaps(self.ships[i])
        &&& forall|j: int| 0 <= j < i ==> !ship.overlaps(#[trigger] self.ships[j])
    }

    /// The board with `ship` placed after the ships it already holds.
    pub open spec fn with_ship(self, ship: ShipView) -> BoardView {
        BoardView { ships: self.ships.push(ship), ..self }
    }

    /// What the cell `(x, y)` shows.
    pub open spec fn status_at(self, x: int, y: int) -> CoordinateState {
        status_among(self.ships, x, y)
    }

    /// The glyphs of the first `upto` cells of row `y`.
    pub open spec fn cells_text(self, y: nat, upto: nat) -> Seq<char>
        decreases upto,
    {
        if upto == 0 {
            Seq::empty()
        } else {
            self.cells_text(y, (upto - 1) as nat) + self.status_at(upto - 1, y as int).glyph()
        }
    }

    /// The line for row `y`, counting from 0: the row's number, which counts
    /// from 1, a bar, one glyph per column, and a newline.
    pub open spec fn row_line(self, y: nat) -> Seq<char> {
        row_label(y + 1) + seq![' ', ' ', '|', ' '] + self.cells_text(y, self.width)
            + seq!['\n']
    }

    /// The lines of the first `upto` rows.
    pub open spec fn rows_text(self, upto: nat) -> Seq<char>
        decreases upto,
    {
        if upto == 0 {
            Seq::empty()
        } else {
            self.rows_text((upto - 1) as nat) + self.row_line((upto - 1) as nat)
        }
    }

    /// The board as text: the column names, a rule, and one line per row.
    pub open spec fn rendering(self) -> Seq<char> {
        header_line(self.width) + separator_line(self.width) + self.rows_text(self.height)
    }
}

/// Where the ships before position `i` leave a cell free and the ship at
/// `i` occupies it, the cell shows what that ship reports.
pub proof fn lemma_first_occupant_shows(ships: Seq<ShipView>, i: int, x: int, y: int)
    requires
        0 <= i < ships.len(),
        ships[i].occupies(x, y),
        forall|j: int| 0 <= j < i ==> !(#[trigger] ships[j]).occupies(x, y),
    ensures
        status_among(ships, x, y) == shown(ships[i].state_at(x, y)),
    decreases i,
{
    if i > 0 {
        let rest = ships.drop_first();
        assert(!ships[0].occupies(x, y));
        assert forall|j: int| 0 <= j < i - 1 implies !(#[trigger] rest[j]).occupies(x, y) by {
            assert(rest[j] == ships[j + 1]);
        }
        assert(rest[i - 1] == ships[i]);
        lemma_first_occupant_shows(rest, i - 1, x, y);
    }
}

/// A cell shows open water exactly when no ship occupies it, and never a
/// miss.
pub proof fn lemma_open_water_iff_free(ships: Seq<ShipView>, x: int, y: int)
    ensures
        status_among(ships, x, y) == CoordinateState::OpenWater <==> forall|j: int|
            0 <= j < ships.len() ==> !(#[trigger] ships[j]).occupies(x, y),
        status_among(ships, x, y) != CoordinateState::Miss,
    decreases ships.len(),
{
    if ships.len() > 0 {
        let rest = ships.drop_first();
        lemma_open_water_iff_free(rest, x, y);
        if !ships[0].occupies(x, y) {
            if status_among(rest, x, y) == CoordinateState::OpenWater {
                assert forall|j: int| 0 <= j < ships.len() implies !(#[trigger] ships[j]).occupies(
                    x,
                    y,
                ) by {
                    if j > 0 {
                        assert(rest[j - 1] == ships[j]);
                    }
                }
            } else {
                let j = choose|j: int| 0 <= j < rest.len() && (#[trigger] rest[j]).occupies(x, y);
                assert(ships[j + 1] == rest[j]);
            }
        }
    }
}

/// On a board whose ships are disjoint, every cell of every ship shows that
/// ship's own report: damage shows at the damaged segments of a ship and
/// nowhere else along it.
pub proof fn lemma_ship_cells_show_ship(board: BoardView, i: int, x: int, y: int)
    requires
        board.disjoint(),
        0 <= i < board.ships.len(),
        board.ships[i].occupies(x, y),
    ensures
        board.status_at(x, y) == shown(board.ships[i].state_at(x, y)),
        board.status_at(x, y) == if board.ships[i].damage[board.ships[i].segment_at(x, y)] {
            CoordinateState::DamagedShip
        } else {
            CoordinateState::UndamagedShip
        },
{
    assert forall|j: int| 0 <= j < i implies !(#[trigger] board.ships[j]).occupies(x, y) by {
        if board.ships[j].occupies(x, y) {
            assert(board.ships[j].overlaps(board.ships[i]));
        }
    }
    lemma_first_occupant_shows(board.ships, i, x, y);
}

/// Placing a ship that is clear of a disjoint board leaves the board
/// disjoint.
pub proof fn lemma_placing_keeps_disjoint(board: BoardView, ship: ShipView)
    requires
        board.disjoint(),
        board.clear_of(ship),
    ensures
        board.with_ship(ship).disjoint(),
{
    let after = board.with_ship(ship);
    assert forall|i: int, j: int| 0 <= i < j < after.ships.len() implies !(
    #[trigger] after.ships[i]).overlaps(#[trigger] after.ships[j]) by {
        if j == board.ships.len() {
            assert(after.ships[i] == board.ships[i]);
            lemma_overlaps_symmetric(ship, board.ships[i]);
        } else {
            assert(after.ships[i] == board.ships[i]);
            assert(after.ships[j] == board.ships[j]);
        }
    }
}

/// Every glyph is three characters long, so the first `upto` cells of a row
/// take `3 * upto` characters.
pub proof fn lemma_cells_text_len(board: BoardView, y: nat, upto: nat)
    ensures
        board.cells_text(y, upto).len() == 3 * upto,
    decreases upto,
{
    if upto > 0 {
        lemma_cells_text_len(board, y, (upto - 1) as nat);
    }
}

/// Every line of a row whose number has at most two digits is `7 + 3 * width`
/// characters long, its newline counted; from row number 100 on, the number
/// takes a third character.
pub proof fn lemma_row_line_len(board: BoardView, y: nat)
    ensures
        y < 99 ==> board.row_line(y).len() == 7 + 3 * board.width,
        99 <= y < 999 ==> board.row_line(y).len() == 8 + 3 * board.width,
{
    lemma_row_label_len(y + 1);
    lemma_cells_text_len(board, y, board.width);
}

/// The first `upto` rows, none numbered above 99, take `upto` lines of
/// `7 + 3 * width` characters.
pub proof fn lemma_rows_text_len(board: BoardView, upto: nat)
    requires
        upto <= 99,
    ensures
        board.rows_text(upto).len() == upto * (7 + 3 * board.width),
    decreases upto,
{
    let line = 7 + 3 * board.width;
    if upto > 0 {
        lemma_rows_text_len(board, (upto - 1) as nat);
        lemma_row_line_len(board, (upto - 1) as nat);
        assert(upto * line == (upto - 1) * line + line) by (nonlinear_arith);
    } else {
        assert(upto * line == 0) by (nonlinear_arith)
            requires
                upto == 0,
        ;
    }
}

/// The text of a board of at most 99 rows and 702 columns: a line of column
/// names of `6 + 3 * width` characters, then the rule and one line per row,
/// each of `7 + 3 * width` characters, newlines counted.
pub proof fn lemma_rendering_len(board: BoardView)
    requires
        board.height <= 99,
        board.width <= 702,
    ensures
        board.rendering().len() == (6 + 3 * board.width) + (1 + board.height) * (7 + 3
            * board.width),
{
    let line = 7 + 3 * board.width;
    lemma_heading_lens(board.width);
    lemma_rows_text_len(board, board.height);
    assert((1 + board.height) * line == line + board.height * line) by (nonlinear_arith);
}

pub struct Board {
    pub width: u8,
    pub height: u8,
    pub state: BoardState,
    pub ships: Vec<Ship>,
}

impl View for Board {
    type V = BoardView;

    open spec fn view(&self) -> BoardView {
        BoardView {
            width: self.width as nat,
            height: self.height as nat,
            state: self.state,
            ships: self.ships@.map_values(|s: Ship| s@),
        }
    }
}

impl Board {
    /// An empty board of ten by ten cells, in the placement phase.
    pub fn new() -> (board: Board)
        ensures
            board@ == BoardView::empty(10, 10),
            board.ships@.len() == 0,
    {
        let board = Board {
            width: 10,
            height: 10,
            state: BoardState::INCOMPLETE,
            ships: Vec::new(),
        };
        assert(board@.ships =~= Seq::empty());
        board
    }

    /// The board as text; see [`BoardView::rendering`].
    pub fn to_string(&self) -> (text: String)
        ensures
            text@ == self@.rendering(),
    {
        let mut display = String::new();
        append_header_line(&mut display, self.width);
        append_separator_line(&mut display, self.width);
        let ghost headings = display@;
        assert(headings =~= header_line(self@.width) + separator_line(self@.width));
        let mut h: u8 = 0;
        while h < self.height
            invariant
                h <= self.height,
                display@ == headings + self@.rows_text(h as nat),
            decreases self.height - h,
        {
            let ghost before = display@;
            append_row_label(&mut display, h + 1);
            display.append("  | ");
            let ghost label = display@;
            let mut w: u8 = 0;
            while w < self.width
                invariant
                    w <= self.width,
                    display@ == label + self@.cells_text(h as nat, w as nat),
                decreases self.width - w,
            {
                display.append(self.coord_status(w, h).to_string().as_str());
                w = w + 1;
            }
            display.append("\n");
            h = h + 1;
            proof {
                reveal_strlit("  | ");
                reveal_strlit("\n");
                assert(display@ =~= before + self@.row_line((h - 1) as nat));
            }
        }
        display
    }

    /// Places `new_ship` after the ships that the board holds, unless it
    /// shares a cell with one of them: then the board stays as it was, and
    /// the error tells which ship was in the way first.
    ///
    /// On success the board itself is handed back, so that placements can be
    /// chained.
    pub fn with_ship(&mut self, new_ship: Ship) -> (res: Result<&mut Board, OverlapError>)
        ensures
            res is Ok <==> old(self)@.clear_of(new_ship@),
            match res {
                Ok(board) => {
                    &&& board.ships@ == old(self).ships@.push(new_ship)
                    &&& board.width == old(self).width
                    &&& board.height == old(self).height
                    &&& board.state == old(self).state
                    &&& board@ == old(self)@.with_ship(new_ship@)
                    &&& old(self)@.disjoint() ==> board@.disjoint()
                    &&& *final(self) == *final(board)
                },
                Err(e) => {
                    &&& old(self)@.first_in_the_way(new_ship@, e.index as int)
                    &&& *final(self) == *old(self)
                },
            },
    {
        let mut i: usize = 0;
        while i < self.ships.len()
            invariant
                *self == *old(self),
                i <= self.ships.len(),
                forall|j: int| 0 <= j < i ==> !new_ship@.overlaps(#[trigger] self@.ships[j]),
            decreases self.ships.len() - i,
        {
            if new_ship.overlaps(&self.ships[i]) {
                assert(new_ship@.overlaps(self@.ships[i as int]));
                return Err(OverlapError { index: i });
            }
            i = i + 1;
        }
        proof {
            if self@.disjoint() {
                lemma_placing_keeps_disjoint(self@, new_ship@);
            }
        }
        self.ships.push(new_ship);
        assert(self@.ships =~= old(self)@.ships.push(new_ship@));
        Ok(self)
    }

    /// What the cell `(x, y)` shows: the report of the first ship placed
    /// that occupies it, open water if no ship does.
    pub fn coord_status(&self, x: u8, y: u8) -> (status: CoordinateState)
        ensures
            status == self@.status_at(x as int, y as int),
    {
        let mut i: usize = 0;
        while i < self.ships.len()
            invariant
                i <= self.ships.len(),
                forall|j: int| 0 <= j < i ==> !(#[trigger] self@.ships[j]).occupies(x as int, y as int),
            decreases self.ships.len() - i,
        {
            match self.ships[i].get_state(x, y) {
                Some(ShipState::Undamaged) => {
                    proof {
                        lemma_first_occupant_shows(self@.ships, i as int, x as int, y as int);
                    }
                    return CoordinateState::UndamagedShip;
                },
                Some(ShipState::Damaged) => {
                    proof {
                        lemma_first_occupant_shows(self@.ships, i as int, x as int, y as int);
                    }
                    return CoordinateState::DamagedShip;
                },
                None => {},
            }
            i = i + 1;
        }
        proof {
            lemma_open_water_iff_free(self@.ships, x as int, y as int);
        }
        CoordinateState::OpenWater
    }
}

} // verus!
