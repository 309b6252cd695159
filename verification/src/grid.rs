//! The geometry of the four-connected grid: distances, routes between cells
//! and the region that can be reached from a cell.

use crate::game::{within, Board, Coordinates};
use vstd::arithmetic::div_mod::lemma_fundamental_div_mod_converse;
use vstd::math::abs;
use vstd::prelude::*;
use vstd::seq_lib::seq_to_set_is_finite;
use vstd::set_lib::lemma_len_subset;

verus! {

/// The Manhattan distance between two cells.
pub open spec fn manhattan(a: Coordinates, b: Coordinates) -> nat {
    abs(a.x - b.x) + abs(a.y - b.y)
}

/// Whether two cells are neighbours: one step apart along one axis.
pub open spec fn adjacent(a: Coordinates, b: Coordinates) -> bool {
    manhattan(a, b) == 1
}

/// Whether `cells` is a path on the board: it is not empty, each cell is a
/// neighbour of the one before it, and no cell after the first collides. The
/// first cell is where the path starts and is not tested.
pub open spec fn is_path(board: Board, ignore_tail: bool, cells: Seq<Coordinates>) -> bool {
    &&& cells.len() > 0
    &&& forall|i: int|
        0 < i < cells.len() ==> adjacent(cells[i - 1], #[trigger] cells[i]) && !board.collides(
            cells[i],
            ignore_tail,
        )
}

/// Whether `cells` is a path from `start` to `goal`.
pub open spec fn is_route(
    board: Board,
    ignore_tail: bool,
    start: Coordinates,
    goal: Coordinates,
    cells: Seq<Coordinates>,
) -> bool {
    &&& is_path(board, ignore_tail, cells)
    &&& cells[0] == start
    &&& cells.last() == goal
}

/// Whether any path leads from `start` to `goal`.
pub open spec fn route_exists(
    board: Board,
    ignore_tail: bool,
    start: Coordinates,
    goal: Coordinates,
) -> bool {
    exists|cells: Seq<Coordinates>| is_route(board, ignore_tail, start, goal, cells)
}

/// Whether `cells` is a path from `start` to `goal` and no such path has
/// fewer cells.
pub open spec fn is_shortest_route(
    board: Board,
    ignore_tail: bool,
    start: Coordinates,
    goal: Coordinates,
    cells: Seq<Coordinates>,
) -> bool {
    &&& is_route(board, ignore_tail, start, goal, cells)
    &&& forall|other: Seq<Coordinates>| #[trigger]
        is_route(board, ignore_tail, start, goal, other) ==> cells.len() <= other.len()
}

/// The region around `start`: every cell that a path from `start` reaches
/// while the tail is ignored. It is empty where `start` itself collides.
pub open spec fn reachable_cells(board: Board, start: Coordinates) -> Set<Coordinates> {
    Set::new(
        |c: Coordinates| !board.collides(start, true) && route_exists(board, true, start, c),
    )
}

/// All cells of the board.
pub open spec fn board_cells(board: Board) -> Set<Coordinates> {
    Set::new(|c: Coordinates| board.in_bounds(c))
}

/// Whether nothing on the board collides.
pub open spec fn obstacle_free(board: Board, ignore_tail: bool) -> bool {
    forall|c: Coordinates| board.in_bounds(c) ==> !#[trigger] board.collides(c, ignore_tail)
}

/// A path has at least as many steps as its ends are apart.
pub proof fn lemma_path_spans_distance(board: Board, ignore_tail: bool, cells: Seq<Coordinates>)
    requires
        is_path(board, ignore_tail, cells),
    ensures
        manhattan(cells[0], cells.last()) <= cells.len() - 1,
    decreases cells.len(),
{
    if cells.len() > 1 {
        let shorter = cells.drop_last();
        assert forall|i: int| 0 < i < shorter.len() implies adjacent(
            shorter[i - 1],
            #[trigger] shorter[i],
        ) && !board.collides(shorter[i], ignore_tail) by {
            assert(shorter[i] == cells[i]);
            assert(shorter[i - 1] == cells[i - 1]);
        }
        lemma_path_spans_distance(board, ignore_tail, shorter);
        let n = cells.len() as int;
        assert(adjacent(cells[n - 1 - 1], cells[n - 1]));
        assert(shorter.last() == cells[n - 2]);
        assert(shorter[0] == cells[0]);
    }
}

/// On a board where nothing collides, a route of one cell more than the
/// Manhattan distance joins any two cells of the board.
pub proof fn lemma_direct_route(
    board: Board,
    ignore_tail: bool,
    start: Coordinates,
    goal: Coordinates,
) -> (cells: Seq<Coordinates>)
    requires
        obstacle_free(board, ignore_tail),
        board.in_bounds(start),
        board.in_bounds(goal),
    ensures
        is_route(board, ignore_tail, start, goal, cells),
        cells.len() == manhattan(start, goal) + 1,
    decreases manhattan(start, goal),
{
    if start == goal {
        seq![start]
    } else {
        let before = if goal.x > start.x {
            Coordinates { x: (goal.x - 1) as i32, y: goal.y }
        } else if goal.x < start.x {
            Coordinates { x: (goal.x + 1) as i32, y: goal.y }
        } else if goal.y > start.y {
            Coordinates { x: goal.x, y: (goal.y - 1) as i32 }
        } else {
            Coordinates { x: goal.x, y: (goal.y + 1) as i32 }
        };
        let shorter = lemma_direct_route(board, ignore_tail, start, before);
        let cells = shorter.push(goal);
        assert(!board.collides(goal, ignore_tail));
        assert forall|i: int| 0 < i < cells.len() implies adjacent(
            cells[i - 1],
            #[trigger] cells[i],
        ) && !board.collides(cells[i], ignore_tail) by {
            if i < shorter.len() {
                assert(cells[i] == shorter[i]);
                assert(cells[i - 1] == shorter[i - 1]);
            } else {
                assert(cells[i - 1] == shorter.last());
            }
        }
        cells
    }
}

/// A board has finitely many cells.
pub proof fn lemma_board_cells_finite(board: Board)
    ensures
        board_cells(board).finite(),
{
    let w = board.width;
    let h = board.height;
    if w <= 0 || h <= 0 {
        assert(board_cells(board) =~= Set::<Coordinates>::empty());
    } else {
        let n = w * h;
        assert(n >= 0) by (nonlinear_arith)
            requires
                n == w * h,
                w > 0,
                h > 0,
        ;
        let listed = Seq::new(
            n as nat,
            |k: int| Coordinates { x: (k / h) as i32, y: (k % h) as i32 },
        );
        assert forall|c: Coordinates| board_cells(board).contains(c) implies listed.to_set().contains(
            c,
        ) by {
            let k = c.x * h + c.y;
            assert(0 <= k < n) by (nonlinear_arith)
                requires
                    k == c.x * h + c.y,
                    n == w * h,
                    0 <= c.x < w,
                    0 <= c.y < h,
            ;
            lemma_fundamental_div_mod_converse(k, h, c.x as int, c.y as int);
            assert(listed[k] == c);
            assert(listed.contains(c));
        }
        seq_to_set_is_finite(listed);
        lemma_len_subset(board_cells(board), listed.to_set());
    }
}

/// The region around a cell lies on the board, so it is finite.
pub proof fn lemma_reachable_on_board(board: Board, start: Coordinates)
    ensures
        reachable_cells(board, start).subset_of(board_cells(board)),
        reachable_cells(board, start).finite(),
{
    assert forall|c: Coordinates| reachable_cells(board, start).contains(c) implies board_cells(
        board,
    ).contains(c) by {
        let cells = choose|cells: Seq<Coordinates>| is_route(board, true, start, c, cells);
        if cells.len() > 1 {
            assert(!board.collides(cells[cells.len() - 1], true));
        }
    }
    lemma_board_cells_finite(board);
    lemma_len_subset(reachable_cells(board, start), board_cells(board));
}

/// On a board where nothing collides, a shortest route between two of its
/// cells has one cell more than their Manhattan distance.
pub proof fn lemma_open_board_route_length(
    board: Board,
    ignore_tail: bool,
    start: Coordinates,
    goal: Coordinates,
    cells: Seq<Coordinates>,
)
    requires
        obstacle_free(board, ignore_tail),
        board.in_bounds(start),
        board.in_bounds(goal),
        is_shortest_route(board, ignore_tail, start, goal, cells),
    ensures
        cells.len() == manhattan(start, goal) + 1,
{
    lemma_path_spans_distance(board, ignore_tail, cells);
    let direct = lemma_direct_route(board, ignore_tail, start, goal);
    assert(is_route(board, ignore_tail, start, goal, direct));
}

/// Obstacles never add space: where every cell that collides on `board`
/// collides on `denser` too, the region around a cell on `denser` lies within
/// its region on `board` and has no more cells.
pub proof fn lemma_obstacles_shrink_region(board: Board, denser: Board, start: Coordinates)
    requires
        forall|c: Coordinates| board.collides(c, true) ==> denser.collides(c, true),
    ensures
        reachable_cells(denser, start).subset_of(reachable_cells(board, start)),
        reachable_cells(denser, start).len() <= reachable_cells(board, start).len(),
{
    assert forall|c: Coordinates| reachable_cells(denser, start).contains(
        c,
    ) implies reachable_cells(board, start).contains(c) by {
        let cells = choose|cells: Seq<Coordinates>| is_route(denser, true, start, c, cells);
        assert(is_route(board, true, start, c, cells));
    }
    lemma_reachable_on_board(board, start);
    lemma_len_subset(reachable_cells(denser, start), reachable_cells(board, start));
}

} // verus!
