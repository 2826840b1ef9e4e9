//! Ship geometry: a straight run of cells on the grid, with damage per segment.

use vstd::prelude::*;

verus! {

/// The axis along which a ship extends from its origin.
#[derive(Clone, Copy, Debug, PartialEq, Eq, Structural)]
pub enum ShipOrientation {
    Horizontal,
    Vertical,
}

/// What a ship reports for one of its own cells.
#[derive(Clone, Copy, Debug, PartialEq, Eq, Structural)]
pub enum ShipState {
    Undamaged,
    Damaged,
}

/// Returned by [`Ship::damage`] when the segment index is not below the
/// ship's length.
#[derive(Clone, Copy, Debug, PartialEq, Eq, Structural)]
pub struct InvalidIndex {
    /// The index that was asked for.
    pub index: usize,
    /// The length of the ship: valid indices are `0..length`.
    pub length: u8,
}

/// The mathematical model of a ship.
pub struct ShipView {
    /// Column of the origin cell.
    pub x: nat,
    /// Row of the origin cell.
    pub y: nat,
    /// Number of cells the ship occupies.
    pub length: nat,
    pub orientation: ShipOrientation,
    /// One flag per segment; segment 0 is the origin cell.
    pub damage: Seq<bool>,
}

/// Whether the half-open intervals `[a, a + a_len)` and `[b, b + b_len)`
/// have an integer in common.
pub open spec fn intervals_meet(a: nat, a_len: nat, b: nat, b_len: nat) -> bool {
    a_len > 0 && b_len > 0 && a < b + b_len && b < a + a_len
}

impl ShipView {
    /// Whether the cell `(x, y)` is one of the ship's cells.
    pub open spec fn occupies(self, x: int, y: int) -> bool {
        match self.orientation {
            ShipOrientation::Horizontal => y == self.y && self.x <= x < self.x + self.length,
            ShipOrientation::Vertical => x == self.x && self.y <= y < self.y + self.length,
        }
    }

    /// The index of the segment that lies on `(x, y)`: the distance from the
    /// origin along the ship's axis. Meaningful for occupied cells.
    pub open spec fn segment_at(self, x: int, y: int) -> int {
        match self.orientation {
            ShipOrientation::Horizontal => x - self.x,
            ShipOrientation::Vertical => y - self.y,
        }
    }

    /// What the ship reports for `(x, y)`: nothing for a cell it does not
    /// occupy, otherwise whether the segment there is damaged.
    pub open spec fn state_at(self, x: int, y: int) -> Option<ShipState> {
        if !self.occupies(x, y) {
            None
        } else if self.damage[self.segment_at(x, y)] {
            Some(ShipState::Damaged)
        } else {
            Some(ShipState::Undamaged)
        }
    }

    /// Two ships overlap when some cell belongs to both.
    pub open spec fn overlaps(self, other: ShipView) -> bool {
        exists|x: int, y: int| #[trigger] self.occupies(x, y) && other.occupies(x, y)
    }

    /// The overlap test in closed form, by orientation pair: parallel ships
    /// overlap when they lie on one line and their intervals meet, crossing
    /// ships when each one's line passes through the other's interval.
    pub open spec fn spans_meet(self, other: ShipView) -> bool {
        match (self.orientation, other.orientation) {
            (ShipOrientation::Horizontal, ShipOrientation::Horizontal) => {
                self.y == other.y && intervals_meet(self.x, self.length, other.x, other.length)
            },
            (ShipOrientation::Vertical, ShipOrientation::Vertical) => {
                self.x == other.x && intervals_meet(self.y, self.length, other.y, other.length)
            },
            (ShipOrientation::Horizontal, ShipOrientation::Vertical) => {
                other.y <= self.y < other.y + other.length && self.x <= other.x < self.x
                    + self.length
            },
            (ShipOrientation::Vertical, ShipOrientation::Horizontal) => {
                self.y <= other.y < self.y + self.length && other.x <= self.x < other.x
                    + other.length
            },
        }
    }

    /// The ship with segment `i` marked as damaged.
    pub open spec fn damaged_at(self, i: int) -> ShipView {
        ShipView { damage: self.damage.update(i, true), ..self }
    }
}

/// Two ships share a cell exactly when their spans meet in the closed form.
pub proof fn lemma_overlaps_iff_spans_meet(a: ShipView, b: ShipView)
    ensures
        a.overlaps(b) <==> a.spans_meet(b),
{
    if a.spans_meet(b) {
        let (x, y) = match (a.orientation, b.orientation) {
            (ShipOrientation::Horizontal, ShipOrientation::Horizontal) => (
                if a.x >= b.x { a.x as int } else { b.x as int },
                a.y as int,
            ),
            (ShipOrientation::Vertical, ShipOrientation::Vertical) => (
                a.x as int,
                if a.y >= b.y { a.y as int } else { b.y as int },
            ),
            (ShipOrientation::Horizontal, ShipOrientation::Vertical) => (b.x as int, a.y as int),
            (ShipOrientation::Vertical, ShipOrientation::Horizontal) => (a.x as int, b.y as int),
        };
        assert(a.occupies(x, y) && b.occupies(x, y));
    }
    if a.overlaps(b) {
        let (x, y) = choose|x: int, y: int| #[trigger] a.occupies(x, y) && b.occupies(x, y);
        assert(a.occupies(x, y) && b.occupies(x, y));
    }
}

/// Overlap does not depend on which ship is asked: `a` overlaps `b` exactly
/// when `b` overlaps `a`.
pub proof fn lemma_overlaps_symmetric(a: ShipView, b: ShipView)
    ensures
        a.overlaps(b) == b.overlaps(a),
{
    if a.overlaps(b) {
        let (x, y) = choose|x: int, y: int| #[trigger] a.occupies(x, y) && b.occupies(x, y);
        assert(b.occupies(x, y) && a.occupies(x, y));
    }
    if b.overlaps(a) {
        let (x, y) = choose|x: int, y: int| #[trigger] b.occupies(x, y) && a.occupies(x, y);
        assert(a.occupies(x, y) && b.occupies(x, y));
    }
}

/// A ship reports a state for exactly the cells of its span: the cells at
/// offsets `0..length` from the origin along its axis, and no others.
pub proof fn lemma_state_inside_span_only(s: ShipView, x: int, y: int)
    ensures
        s.state_at(x, y) is Some <==> s.occupies(x, y),
        s.occupies(x, y) <==> (0 <= s.segment_at(x, y) < s.length && match s.orientation {
            ShipOrientation::Horizontal => y == s.y,
            ShipOrientation::Vertical => x == s.x,
        }),
{
}

pub struct Ship {
    x: u8,
    y: u8,
    size: u8,
    orientation: ShipOrientation,
    damage: Vec<bool>,
}

impl View for Ship {
    type V = ShipView;

    closed spec fn view(&self) -> ShipView {
        ShipView {
            x: self.x as nat,
            y: self.y as nat,
            length: self.size as nat,
            orientation: self.orientation,
            damage: self.damage@,
        }
    }
}

impl Ship {
    #[verifier::type_invariant]
    spec fn one_flag_per_segment(&self) -> bool {
        self.damage@.len() == self.size
    }

    /// A ship of `size` cells with its origin at `(x, y)` and no damage.
    ///
    /// Neither the size nor the position is restricted: a ship of size 0
    /// occupies no cell, and a ship may reach past any board it is placed on.
    pub fn new(x: u8, y: u8, size: u8, orientation: ShipOrientation) -> (ship: Ship)
        ensures
            ship@ == (ShipView {
                x: x as nat,
                y: y as nat,
                length: size as nat,
                orientation,
                damage: Seq::new(size as nat, |i: int| false),
            }),
    {
        let mut damage: Vec<bool> = Vec::new();
        let mut i: u8 = 0;
        while i < size
            invariant
                i <= size,
                damage@ == Seq::new(i as nat, |k: int| false),
            decreases size - i,
        {
            damage.push(false);
            i = i + 1;
        }
        Ship { x, y, size, orientation, damage }
    }

    /// Marks segment `i` as damaged. An index at or beyond the ship's length
    /// is refused and leaves the ship as it was.
    pub fn damage(&mut self, i: usize) -> (res: Result<(), InvalidIndex>)
        ensures
            i < old(self)@.length ==> res is Ok && final(self)@ == old(self)@.damaged_at(i as int),
            i >= old(self)@.length ==> *final(self) == *old(self) && res == Err::<(), InvalidIndex>(
                InvalidIndex { index: i, length: old(self)@.length as u8 },
            ),
    {
        proof {
            use_type_invariant(&*self);
        }
        if i < self.damage.len() {
            self.damage[i] = true;
            Ok(())
        } else {
            Err(InvalidIndex { index: i, length: self.size })
        }
    }

    /// Whether this ship and `other` have a cell in common.
    pub fn overlaps(&self, other: &Ship) -> (hit: bool)
        ensures
            hit == self@.overlaps(other@),
            hit == self@.spans_meet(other@),
    {
        proof {
            lemma_overlaps_iff_spans_meet(self@, other@);
        }
        let x: u16 = self.x as u16;
        let y: u16 = self.y as u16;
        let len: u16 = self.size as u16;
        let ox: u16 = other.x as u16;
        let oy: u16 = other.y as u16;
        let olen: u16 = other.size as u16;
        match self.orientation {
            ShipOrientation::Horizontal => {
                match other.orientation {
                    ShipOrientation::Vertical => {
                        oy <= y && y < oy + olen && x <= ox && ox < x + len
                    },
                    ShipOrientation::Horizontal => {
                        y == oy && len > 0 && olen > 0 && x < ox + olen && ox < x + len
                    },
                }
            },
            ShipOrientation::Vertical => {
                match other.orientation {
                    ShipOrientation::Vertical => {
                        x == ox && len > 0 && olen > 0 && y < oy + olen && oy < y + len
                    },
                    ShipOrientation::Horizontal => {
                        y <= oy && oy < y + len && ox <= x && x < ox + olen
                    },
                }
            },
        }
    }

    /// The state of the segment on `(x, y)`, or `None` when the ship does not
    /// occupy that cell.
    pub fn get_state(&self, x: u8, y: u8) -> (state: Option<ShipState>)
        ensures
            state == self@.state_at(x as int, y as int),
            state is Some <==> self@.occupies(x as int, y as int),
    {
        proof {
            use_type_invariant(self);
        }
        match self.orientation {
            ShipOrientation::Horizontal => {
                if y == self.y && x >= self.x && (x as u16) < self.x as u16 + self.size as u16 {
                    if self.damage[(x - self.x) as usize] {
                        return Some(ShipState::Damaged);
                    } else {
                        return Some(ShipState::Undamaged);
                    }
                }
            },
            ShipOrientation::Vertical => {
                if x == self.x && y >= self.y && (y as u16) < self.y as u16 + self.size as u16 {
                    if self.damage[(y - self.y) as usize] {
                        return Some(ShipState::Damaged);
                    } else {
                        return Some(ShipState::Undamaged);
                    }
                }
            },
        }
        None
    }
}

} // verus!
