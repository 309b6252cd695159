//! What a screen shows in each cell of the board.

use crate::game::{Coordinates, Direction, GameState};
use std::collections::VecDeque;
use vstd::prelude::*;

verus! {

/// The sign that stands for one cell of the board.
#[derive(Clone, Copy, PartialEq, Eq, Debug, Structural)]
pub enum Glyph {
    /// The head, by its heading.
    HeadUp,
    HeadDown,
    HeadLeft,
    HeadRight,
    /// The tail, by the side on which the body goes on.
    TailToUp,
    TailToDown,
    TailToLeft,
    TailToRight,
    /// A straight piece of the body.
    Vertical,
    Horizontal,
    /// A bend of the body, by the two sides that it joins.
    BendUpRight,
    BendUpLeft,
    BendDownRight,
    BendDownLeft,
    /// The food.
    Food,
    /// Nothing.
    Empty,
}

impl Glyph {
    /// The character that draws the sign.
    pub open spec fn symbol_text(self) -> Seq<char> {
        match self {
            Glyph::HeadUp => "\u{25b2}"@,
            Glyph::HeadDown => "\u{25bc}"@,
            Glyph::HeadLeft => "\u{25c4}"@,
            Glyph::HeadRight => "\u{25ba}"@,
            Glyph::TailToUp => "\u{2575}"@,
            Glyph::TailToDown => "\u{2577}"@,
            Glyph::TailToLeft => "\u{2574}"@,
            Glyph::TailToRight => "\u{2576}"@,
            Glyph::Vertical => "\u{2502}"@,
            Glyph::Horizontal => "\u{2500}"@,
            Glyph::BendUpRight => "\u{2514}"@,
            Glyph::BendUpLeft => "\u{2518}"@,
            Glyph::BendDownRight => "\u{250c}"@,
            Glyph::BendDownLeft => "\u{2510}"@,
            Glyph::Food => "\u{25cf}"@,
            Glyph::Empty => " "@,
        }
    }

    /// The character that draws the sign.
    pub fn symbol(&self) -> (text: &'static str)
        ensures
            text@ == self.symbol_text(),
    {
        match self {
            Glyph::HeadUp => "\u{25b2}",
            Glyph::HeadDown => "\u{25bc}",
            Glyph::HeadLeft => "\u{25c4}",
            Glyph::HeadRight => "\u{25ba}",
            Glyph::TailToUp => "\u{2575}",
            Glyph::TailToDown => "\u{2577}",
            Glyph::TailToLeft => "\u{2574}",
            Glyph::TailToRight => "\u{2576}",
            Glyph::Vertical => "\u{2502}",
            Glyph::Horizontal => "\u{2500}",
            Glyph::BendUpRight => "\u{2514}",
            Glyph::BendUpLeft => "\u{2518}",
            Glyph::BendDownRight => "\u{250c}",
            Glyph::BendDownLeft => "\u{2510}",
            Glyph::Food => "\u{25cf}",
            Glyph::Empty => " ",
        }
    }
}

/// The sign of the head.
pub open spec fn head_glyph(heading: Direction) -> Glyph {
    match heading {
        Direction::Up => Glyph::HeadUp,
        Direction::Down => Glyph::HeadDown,
        Direction::Left => Glyph::HeadLeft,
        Direction::Right => Glyph::HeadRight,
    }
}

/// The sign of the tail on `cell`, where `before` is the cell of the body
/// that comes before it: the stub points to where the body goes on.
pub open spec fn tail_glyph(before: Coordinates, cell: Coordinates) -> Glyph {
    if before.y < cell.y {
        Glyph::TailToUp
    } else if before.y > cell.y {
        Glyph::TailToDown
    } else if before.x < cell.x {
        Glyph::TailToLeft
    } else {
        Glyph::TailToRight
    }
}

/// The sign of a piece of the body on `cell` between `prev`, towards the
/// head, and `next`, towards the tail.
pub open spec fn body_glyph(prev: Coordinates, cell: Coordinates, next: Coordinates) -> Glyph {
    if prev.x == next.x {
        Glyph::Vertical
    } else if prev.y == next.y {
        Glyph::Horizontal
    } else if (prev.y < cell.y && next.x > cell.x) || (prev.x > cell.x && next.y < cell.y) {
        Glyph::BendUpRight
    } else if (prev.y < cell.y && next.x < cell.x) || (prev.x < cell.x && next.y < cell.y) {
        Glyph::BendUpLeft
    } else if (prev.y > cell.y && next.x > cell.x) || (prev.x > cell.x && next.y > cell.y) {
        Glyph::BendDownRight
    } else {
        Glyph::BendDownLeft
    }
}

/// The sign of the `i`-th cell of the body, counted from the head.
pub open spec fn segment_glyph(body: Seq<Coordinates>, heading: Direction, i: int) -> Glyph
    recommends
        0 <= i < body.len(),
{
    if i == 0 {
        head_glyph(heading)
    } else if i == body.len() - 1 {
        tail_glyph(body[i - 1], body[i])
    } else {
        body_glyph(body[i - 1], body[i], body[i + 1])
    }
}

/// Whether `i` is the first place in the body at which `cell` lies.
pub open spec fn first_at(body: Seq<Coordinates>, cell: Coordinates, i: int) -> bool {
    &&& 0 <= i < body.len()
    &&& body[i] == cell
    &&& forall|j: int| 0 <= j < i ==> body[j] != cell
}

/// The first place in the body at which `cell` lies, if it lies on the body.
pub fn position_on_body(body: &VecDeque<Coordinates>, cell: &Coordinates) -> (place: Option<usize>)
    ensures
        place matches Some(i) ==> first_at(body@, *cell, i as int),
        place is None ==> !body@.contains(*cell),
{
    let mut i: usize = 0;
    while i < body.len()
        invariant
            i <= body@.len(),
            forall|j: int| 0 <= j < i ==> body@[j] != *cell,
        decreases body.len() - i,
    {
        if body[i] == *cell {
            return Some(i);
        }
        i = i + 1;
    }
    None
}

/// The sign for the cell `coord`: the piece of the snake that lies there,
/// by the first place in the body at which the cell occurs; else the food,
/// if it lies there; else nothing.
pub fn glyph_at(state: &GameState, coord: &Coordinates) -> (glyph: Glyph)
    ensures
        forall|i: int|
            first_at(state.snake.body@, *coord, i) ==> glyph == segment_glyph(
                state.snake.body@,
                state.snake.direction,
                i,
            ),
        !state.snake.body@.contains(*coord) ==> glyph == if state.food.position == *coord {
            Glyph::Food
        } else {
            Glyph::Empty
        },
{
    let body = &state.snake.body;
    match position_on_body(body, coord) {
        Some(index) => {
            let body_len = body.len();
            assert forall|i: int| first_at(body@, *coord, i) implies i == index by {
                if i < index {
                    assert(body@[i] != *coord);
                }
            }
            if index == 0 {
                match state.snake.direction {
                    Direction::Up => Glyph::HeadUp,
                    Direction::Down => Glyph::HeadDown,
                    Direction::Left => Glyph::HeadLeft,
                    Direction::Right => Glyph::HeadRight,
                }
            } else if index == body_len - 1 {
                let before_tail = body[body_len - 2];
                if before_tail.y < coord.y {
                    Glyph::TailToUp
                } else if before_tail.y > coord.y {
                    Glyph::TailToDown
                } else if before_tail.x < coord.x {
                    Glyph::TailToLeft
                } else {
                    Glyph::TailToRight
                }
            } else {
                let prev = body[index - 1];
                let next = body[index + 1];
                if prev.x == next.x {
                    Glyph::Vertical
                } else if prev.y == next.y {
                    Glyph::Horizontal
                } else if (prev.y < coord.y && next.x > coord.x) || (prev.x > coord.x && next.y
                    < coord.y) {
                    Glyph::BendUpRight
                } else if (prev.y < coord.y && next.x < coord.x) || (prev.x < coord.x && next.y
                    < coord.y) {
                    Glyph::BendUpLeft
                } else if (prev.y > coord.y && next.x > coord.x) || (prev.x > coord.x && next.y
                    > coord.y) {
                    Glyph::BendDownRight
                } else {
                    Glyph::BendDownLeft
                }
            }
        },
        None => {
            if state.food.position == *coord {
                Glyph::Food
            } else {
                Glyph::Empty
            }
        },
    }
}

} // verus!
