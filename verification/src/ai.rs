//! The planner: the search for a shortest route, the survey of open space,
//! the test whether eating is safe, and the choice of the next heading.

use crate::game::{Board, Coordinates, Direction, Game};
use crate::grid::{
    adjacent, board_cells, is_path, is_route, is_shortest_route, lemma_reachable_on_board,
    lemma_board_cells_finite, manhattan, reachable_cells, route_exists,
};
use std::collections::{HashSet, VecDeque};
use vstd::prelude::*;
use vstd::set_lib::lemma_len_subset;
use vstd::std_specs::hash::group_hash_axioms;

verus! {

impl Coordinates {
    /// Whether this is the cell `other`.
    pub fn is_at(&self, other: &Coordinates) -> (same: bool)
        ensures
            same == (*self == *other),
    {
        *self == *other
    }

    /// The Manhattan distance to `other`.
    pub fn distance(&self, other: &Coordinates) -> (d: u64)
        ensures
            d == manhattan(*self, *other),
    {
        let dx: i64 = self.x as i64 - other.x as i64;
        let dy: i64 = self.y as i64 - other.y as i64;
        let ax: i64 = if dx < 0 {
            -dx
        } else {
            dx
        };
        let ay: i64 = if dy < 0 {
            -dy
        } else {
            dy
        };
        (ax + ay) as u64
    }

    /// The moves that the search may make from this cell: each neighbour
    /// that does not collide, in the order up, down, left, right, at cost 1.
    pub fn successors(&self, game: &Game, ignore_tail: bool) -> (next: Vec<(Coordinates, u64)>)
        ensures
            next@ == open_neighbors(game@, *self, ignore_tail),
    {
        let mut next: Vec<(Coordinates, u64)> = Vec::new();
        self.push_if_open(game, ignore_tail, Direction::Up, &mut next);
        self.push_if_open(game, ignore_tail, Direction::Down, &mut next);
        self.push_if_open(game, ignore_tail, Direction::Left, &mut next);
        self.push_if_open(game, ignore_tail, Direction::Right, &mut next);
        next
    }

    fn push_if_open(
        &self,
        game: &Game,
        ignore_tail: bool,
        d: Direction,
        next: &mut Vec<(Coordinates, u64)>,
    )
        ensures
            final(next)@ == old(next)@ + open_step(game@, *self, d, ignore_tail),
    {
        if let Some(cell) = self.neighbor(d) {
            if !game.is_collision(&cell, ignore_tail) {
                next.push((cell, 1));
            }
        }
        assert(next@ =~= old(next)@ + open_step(game@, *self, d, ignore_tail));
    }
}

/// The move from `c` in direction `d`, at cost 1, if the cell there does not
/// collide; else nothing.
pub open spec fn open_step(board: Board, c: Coordinates, d: Direction, ignore_tail: bool) -> Seq<
    (Coordinates, u64),
> {
    if c.can_step(d) && !board.collides(c.stepped(d), ignore_tail) {
        seq![(c.stepped(d), 1u64)]
    } else {
        Seq::empty()
    }
}

/// The moves from `c`, in the order up, down, left, right.
pub open spec fn open_neighbors(board: Board, c: Coordinates, ignore_tail: bool) -> Seq<
    (Coordinates, u64),
> {
    open_step(board, c, Direction::Up, ignore_tail) + open_step(
        board,
        c,
        Direction::Down,
        ignore_tail,
    ) + open_step(board, c, Direction::Left, ignore_tail) + open_step(
        board,
        c,
        Direction::Right,
        ignore_tail,
    )
}

/// The heading that leads from `from` towards `to`: left or right where
/// their `x` differ, else up or down where their `y` differ, else none.
pub open spec fn heading_towards(from: Coordinates, to: Coordinates) -> Option<Direction> {
    if to.x < from.x {
        Some(Direction::Left)
    } else if to.x > from.x {
        Some(Direction::Right)
    } else if to.y < from.y {
        Some(Direction::Up)
    } else if to.y > from.y {
        Some(Direction::Down)
    } else {
        None
    }
}

/// The heading that leads from `from` towards `to`. For a neighbour of
/// `from` it is the heading of the step onto it.
pub fn get_direction(from: &Coordinates, to: &Coordinates) -> (heading: Option<Direction>)
    ensures
        heading == heading_towards(*from, *to),
        adjacent(*from, *to) ==> heading is Some && from.can_step(heading->0) && from.stepped(
            heading->0,
        ) == *to,
{
    if to.x < from.x {
        Some(Direction::Left)
    } else if to.x > from.x {
        Some(Direction::Right)
    } else if to.y < from.y {
        Some(Direction::Up)
    } else if to.y > from.y {
        Some(Direction::Down)
    } else {
        None
    }
}

/// The cell one step from `head` in the given direction.
pub fn get_next_pos(direction: &Direction, head: &Coordinates) -> (next: Coordinates)
    requires
        head.can_step(*direction),
    ensures
        next == head.stepped(*direction),
{
    match direction {
        Direction::Up => Coordinates { x: head.x, y: head.y - 1 },
        Direction::Down => Coordinates { x: head.x, y: head.y + 1 },
        Direction::Left => Coordinates { x: head.x - 1, y: head.y },
        Direction::Right => Coordinates { x: head.x + 1, y: head.y },
    }
}

/// The cells of a route that a search returned, if it returned one.
pub open spec fn route_cells(route: Option<Vec<Coordinates>>) -> Option<Seq<Coordinates>> {
    match route {
        Some(cells) => Some(cells@),
        None => None,
    }
}

/// The route that the A* search of the `pathfinding` crate returns from
/// `start` to `goal` on a board. The search keeps its nodes in the order in
/// which it met them and draws no random number, so the board, the flag and
/// the two cells decide the route, also among routes of equal length.
pub uninterp spec fn astar_route(
    board: Board,
    ignore_tail: bool,
    start: Coordinates,
    goal: Coordinates,
) -> Option<Seq<Coordinates>>;

/// Runs `pathfinding::prelude::astar` from `start`, with `successors` for the
/// moves, `distance` to `goal` as the estimate, and `is_at` for the test that
/// ends the search at `goal`; the cost that comes with the route is dropped.
/// Believed of it, as its documentation says: it returns a route where one
/// exists and nothing where none does, and the route it returns, from `start`
/// to `goal` over moves that `successors` offers, is a shortest one (the
/// estimate never exceeds the steps that are left). `start` is never offered
/// as a move, so it is not tested for collision.
#[verifier::external_body]
fn astar_on_board(game: &Game, start: &Coordinates, goal: &Coordinates, ignore_tail: bool) -> (route:
    Option<Vec<Coordinates>>)
    ensures
        route_cells(route) == astar_route(game@, ignore_tail, *start, *goal),
        route matches Some(cells) ==> is_shortest_route(
            game@,
            ignore_tail,
            *start,
            *goal,
            cells@,
        ),
        route is None ==> !route_exists(game@, ignore_tail, *start, *goal),
{
    pathfinding::prelude::astar(
        start,
        |c| c.successors(game, ignore_tail),
        |c| c.distance(goal),
        |c| c.is_at(goal),
    ).map(|(cells, _)| cells)
}

/// A shortest route from `start` to `goal` over cells that do not collide,
/// or nothing where there is none. The route holds both ends; `start` itself
/// is not tested for collision.
pub fn search(game: &Game, start: &Coordinates, goal: &Coordinates, ignore_tail: bool) -> (route:
    Option<Vec<Coordinates>>)
    ensures
        route is Some <==> route_exists(game@, ignore_tail, *start, *goal),
        route matches Some(cells) ==> {
            &&& cells@.len() > 0
            &&& cells@[0] == *start
            &&& cells@.last() == *goal
            &&& forall|i: int|
                0 < i < cells@.len() ==> adjacent(cells@[i - 1], #[trigger] cells@[i])
                    && !game@.collides(cells@[i], ignore_tail)
            &&& forall|other: Seq<Coordinates>| #[trigger]
                is_route(game@, ignore_tail, *start, *goal, other) ==> cells@.len() <= other.len()
            &&& is_shortest_route(game@, ignore_tail, *start, *goal, cells@)
        },
        route_cells(route) == astar_route(game@, ignore_tail, *start, *goal),
{
    astar_on_board(game, start, goal, ignore_tail)
}

/// The number under which the survey files a cell of the board: no two
/// cells with coordinates from 0 up share one.
spec fn cell_key(c: Coordinates) -> int {
    c.x * 0x1_0000_0000 + c.y
}

fn key_of(c: &Coordinates) -> (k: u64)
    requires
        0 <= c.x,
        0 <= c.y,
    ensures
        k == cell_key(*c),
{
    (c.x as u64) * 0x1_0000_0000 + (c.y as u64)
}

/// What the survey knows while it runs: `seen` holds the cells met so far,
/// each filed in `keys` under its number and each within reach of `start`;
/// the cells in `queue` are among them.
#[verifier::opaque]
spec fn survey_sound(
    board: Board,
    start: Coordinates,
    seen: Set<Coordinates>,
    keys: Set<u64>,
    queue: Seq<Coordinates>,
) -> bool {
    &&& seen.finite()
    &&& keys.finite()
    &&& seen.len() == keys.len()
    &&& forall|c: Coordinates| #[trigger]
        seen.contains(c) ==> board.in_bounds(c) && keys.contains(cell_key(c) as u64)
    &&& forall|k: u64| #[trigger]
        keys.contains(k) ==> exists|c: Coordinates| seen.contains(c) && cell_key(c) == k
    &&& seen.subset_of(reachable_cells(board, start))
    &&& forall|i: int| 0 <= i < queue.len() ==> seen.contains(#[trigger] queue[i])
}

/// Whether every neighbour that does not collide of a seen cell is seen too,
/// but for the cells still waiting in `queue`.
spec fn survey_closed(board: Board, seen: Set<Coordinates>, queue: Seq<Coordinates>) -> bool {
    forall|a: Coordinates, b: Coordinates|
        #![trigger seen.contains(a), adjacent(a, b)]
        seen.contains(a) && !queue.contains(a) && adjacent(a, b) && !board.collides(b, true)
            ==> seen.contains(b)
}

/// How one stretch of the survey changes what it holds: nothing seen is
/// forgotten, the queue only grows at its end, what is newly seen waits in
/// the queue, and where nothing new was seen the queue is as it was.
#[verifier::opaque]
spec fn survey_step(
    seen: Set<Coordinates>,
    queue: Seq<Coordinates>,
    grown: Set<Coordinates>,
    longer: Seq<Coordinates>,
) -> bool {
    &&& seen.subset_of(grown)
    &&& queue.len() <= longer.len()
    &&& forall|i: int| 0 <= i < queue.len() ==> #[trigger] longer[i] == queue[i]
    &&& forall|c: Coordinates|
        #[trigger] grown.contains(c) && !seen.contains(c) ==> longer.contains(c)
    &&& seen.len() <= grown.len()
    &&& seen.len() == grown.len() ==> longer == queue
}

/// A route that is continued by one more step onto a cell that does not
/// collide is a route again.
proof fn lemma_route_extends(
    board: Board,
    start: Coordinates,
    from: Coordinates,
    next: Coordinates,
)
    requires
        route_exists(board, true, start, from),
        adjacent(from, next),
        !board.collides(next, true),
    ensures
        route_exists(board, true, start, next),
{
    let cells = choose|cells: Seq<Coordinates>| is_route(board, true, start, from, cells);
    let longer = cells.push(next);
    assert forall|i: int| 0 < i < longer.len() implies adjacent(
        longer[i - 1],
        #[trigger] longer[i],
    ) && !board.collides(longer[i], true) by {
        if i < cells.len() {
            assert(longer[i] == cells[i]);
            assert(longer[i - 1] == cells[i - 1]);
        }
    }
    assert(is_route(board, true, start, next, longer));
}

/// A path that starts in a set closed under open neighbours never leaves it.
proof fn lemma_path_stays_inside(
    board: Board,
    seen: Set<Coordinates>,
    cells: Seq<Coordinates>,
    i: int,
)
    requires
        is_path(board, true, cells),
        seen.contains(cells[0]),
        survey_closed(board, seen, Seq::empty()),
        0 <= i < cells.len(),
    ensures
        seen.contains(cells[i]),
    decreases i,
{
    if i > 0 {
        lemma_path_stays_inside(board, seen, cells, i - 1);
        assert(adjacent(cells[i - 1], cells[i]) && !board.collides(cells[i], true));
        assert(!Seq::<Coordinates>::empty().contains(cells[i - 1]));
    }
}

/// Two stretches of the survey, one after the other, are a stretch.
proof fn lemma_survey_steps_chain(
    seen: Set<Coordinates>,
    queue: Seq<Coordinates>,
    mid: Set<Coordinates>,
    mid_queue: Seq<Coordinates>,
    grown: Set<Coordinates>,
    longer: Seq<Coordinates>,
)
    requires
        survey_step(seen, queue, mid, mid_queue),
        survey_step(mid, mid_queue, grown, longer),
    ensures
        survey_step(seen, queue, grown, longer),
        mid.subset_of(grown),
{
    reveal(survey_step);
    assert forall|c: Coordinates| #[trigger]
        grown.contains(c) && !seen.contains(c) implies longer.contains(c) by {
        if mid.contains(c) {
            let i = choose|i: int| 0 <= i < mid_queue.len() && mid_queue[i] == c;
            assert(longer[i] == c);
        }
    }
    assert forall|i: int| 0 <= i < queue.len() implies #[trigger] longer[i] == queue[i] by {
        assert(mid_queue[i] == queue[i]);
    }
}

/// A stretch in which nothing happens is a stretch.
proof fn lemma_survey_rests(seen: Set<Coordinates>, queue: Seq<Coordinates>)
    ensures
        survey_step(seen, queue, seen, queue),
{
    reveal(survey_step);
}

/// A cell on the board whose number is filed has been seen.
proof fn lemma_filed_cell_is_seen(
    board: Board,
    start: Coordinates,
    seen: Set<Coordinates>,
    keys: Set<u64>,
    queue: Seq<Coordinates>,
    cell: Coordinates,
)
    requires
        survey_sound(board, start, seen, keys, queue),
        board.in_bounds(cell),
    ensures
        seen.contains(cell) <==> keys.contains(cell_key(cell) as u64),
{
    reveal(survey_sound);
    let k = cell_key(cell) as u64;
    if keys.contains(k) {
        let c = choose|c: Coordinates| seen.contains(c) && cell_key(c) == k;
        assert(c == cell);
    }
}

/// The survey stays sound when it files and queues an open neighbour, not
/// seen before, of a cell that it has seen.
proof fn lemma_survey_grows(
    board: Board,
    start: Coordinates,
    seen: Set<Coordinates>,
    keys: Set<u64>,
    queue: Seq<Coordinates>,
    from: Coordinates,
    cell: Coordinates,
)
    requires
        survey_sound(board, start, seen, keys, queue),
        seen.contains(from),
        adjacent(from, cell),
        !board.collides(cell, true),
        !seen.contains(cell),
    ensures
        survey_sound(
            board,
            start,
            seen.insert(cell),
            keys.insert(cell_key(cell) as u64),
            queue.push(cell),
        ),
        survey_step(seen, queue, seen.insert(cell), queue.push(cell)),
{
    reveal(survey_sound);
    reveal(survey_step);
    lemma_filed_cell_is_seen(board, start, seen, keys, queue, cell);
    lemma_route_extends(board, start, from, cell);
    let k = cell_key(cell) as u64;
    let grown = seen.insert(cell);
    let filed = keys.insert(k);
    let longer = queue.push(cell);
    assert forall|k2: u64| #[trigger] filed.contains(k2) implies exists|c: Coordinates|
        grown.contains(c) && cell_key(c) == k2 by {
        if k2 == k {
            assert(grown.contains(cell));
        } else {
            let c = choose|c: Coordinates| seen.contains(c) && cell_key(c) == k2;
            assert(grown.contains(c));
        }
    }
    assert(longer[longer.len() - 1] == cell);
    assert forall|i: int| 0 <= i < longer.len() implies grown.contains(#[trigger] longer[i]) by {
        if i < queue.len() {
            assert(longer[i] == queue[i]);
        }
    }
}

/// Looks at the neighbour of `pos` in direction `d`: where it does not
/// collide and was not seen before, it is filed and queued.
fn visit(
    game: &Game,
    pos: &Coordinates,
    d: Direction,
    visited: &mut HashSet<u64>,
    queue: &mut VecDeque<Coordinates>,
    Ghost(start): Ghost<Coordinates>,
    Ghost(seen): Ghost<Set<Coordinates>>,
) -> (grown: Ghost<Set<Coordinates>>)
    requires
        survey_sound(game@, start, seen, old(visited)@, old(queue)@),
        seen.contains(*pos),
    ensures
        survey_sound(game@, start, grown@, final(visited)@, final(queue)@),
        pos.can_step(d) ==> game@.collides(pos.stepped(d), true) || grown@.contains(
            pos.stepped(d),
        ),
        survey_step(seen, old(queue)@, grown@, final(queue)@),
{
    broadcast use group_hash_axioms;

    proof {
        lemma_survey_rests(seen, queue@);
    }
    if let Some(cell) = pos.neighbor(d) {
        if !game.is_collision(&cell, true) {
            let k = key_of(&cell);
            proof {
                lemma_filed_cell_is_seen(game@, start, seen, visited@, queue@, cell);
            }
            if !visited.contains(&k) {
                proof {
                    lemma_neighbor_steps_are_adjacent(*pos, d);
                    lemma_survey_grows(game@, start, seen, visited@, queue@, *pos, cell);
                }
                visited.insert(k);
                queue.push_back(cell);
                return Ghost(seen.insert(cell));
            }
        }
    }
    Ghost(seen)
}

/// A step leads onto a neighbour.
proof fn lemma_neighbor_steps_are_adjacent(c: Coordinates, d: Direction)
    requires
        c.can_step(d),
    ensures
        adjacent(c, c.stepped(d)),
{
}

/// Looks at the four neighbours of `pos`, a cell already seen.
fn visit_around(
    game: &Game,
    pos: &Coordinates,
    visited: &mut HashSet<u64>,
    queue: &mut VecDeque<Coordinates>,
    Ghost(start): Ghost<Coordinates>,
    Ghost(seen): Ghost<Set<Coordinates>>,
) -> (grown: Ghost<Set<Coordinates>>)
    requires
        survey_sound(game@, start, seen, old(visited)@, old(queue)@),
        seen.contains(*pos),
    ensures
        survey_sound(game@, start, grown@, final(visited)@, final(queue)@),
        survey_step(seen, old(queue)@, grown@, final(queue)@),
        forall|b: Coordinates|
            adjacent(*pos, b) && !game@.collides(b, true) ==> #[trigger] grown@.contains(b),
{
    let ghost q0 = queue@;
    let up = visit(game, pos, Direction::Up, visited, queue, Ghost(start), Ghost(seen));
    let ghost q1 = queue@;
    assert(up@.contains(*pos)) by {
        reveal(survey_step);
    }
    let down = visit(game, pos, Direction::Down, visited, queue, Ghost(start), up);
    let ghost q2 = queue@;
    proof {
        lemma_survey_steps_chain(seen, q0, up@, q1, down@, q2);
        assert(down@.contains(*pos));
    }
    let left = visit(game, pos, Direction::Left, visited, queue, Ghost(start), down);
    let ghost q3 = queue@;
    proof {
        lemma_survey_steps_chain(seen, q0, down@, q2, left@, q3);
        assert(left@.contains(*pos));
    }
    let right = visit(game, pos, Direction::Right, visited, queue, Ghost(start), left);
    proof {
        lemma_survey_steps_chain(seen, q0, left@, q3, right@, queue@);
        assert forall|b: Coordinates|
            adjacent(*pos, b) && !game@.collides(b, true) implies #[trigger] right@.contains(
            b,
        ) by {
            let d = lemma_neighbor_is_a_step(*pos, b);
            assert(up@.subset_of(down@) && down@.subset_of(left@) && left@.subset_of(right@));
            match d {
                Direction::Up => {
                    assert(up@.contains(b));
                },
                Direction::Down => {
                    assert(down@.contains(b));
                },
                Direction::Left => {
                    assert(left@.contains(b));
                },
                Direction::Right => {},
            }
        }
    }
    right
}

/// Once the neighbours of the first cell in the queue have been looked at,
/// that cell can leave the queue.
proof fn lemma_closed_after_visit(
    board: Board,
    seen: Set<Coordinates>,
    queue: Seq<Coordinates>,
    grown: Set<Coordinates>,
    longer: Seq<Coordinates>,
)
    requires
        queue.len() > 0,
        survey_closed(board, seen, queue),
        survey_step(seen, queue.drop_first(), grown, longer),
        forall|b: Coordinates|
            adjacent(queue[0], b) && !board.collides(b, true) ==> #[trigger] grown.contains(b),
    ensures
        survey_closed(board, grown, longer),
        seen.len() <= grown.len(),
        seen.len() == grown.len() ==> longer == queue.drop_first(),
{
    reveal(survey_step);
    let waiting = queue.drop_first();
    assert forall|a: Coordinates, b: Coordinates|
        #![trigger grown.contains(a), adjacent(a, b)]
        grown.contains(a) && !longer.contains(a) && adjacent(a, b) && !board.collides(
            b,
            true,
        ) implies grown.contains(b) by {
        if a != queue[0] {
            assert(seen.contains(a));
            assert(!queue.contains(a)) by {
                if queue.contains(a) {
                    let i = choose|i: int| 0 <= i < queue.len() && queue[i] == a;
                    assert(waiting[i - 1] == a);
                    assert(longer[i - 1] == a);
                }
            }
            assert(seen.contains(b));
        }
    }
}

/// The size of the region around `start_pos`: how many cells can be reached
/// from it over cells that do not collide while the tail is ignored,
/// `start_pos` itself among them. It is 0 where `start_pos` collides.
pub fn count_reachable_space(start_pos: &Coordinates, game: &Game) -> (count: usize)
    ensures
        count == reachable_cells(game@, *start_pos).len(),
{
    broadcast use group_hash_axioms;

    let mut visited: HashSet<u64> = HashSet::new();
    let mut queue: VecDeque<Coordinates> = VecDeque::new();
    let ghost mut seen: Set<Coordinates> = Set::empty();
    proof {
        lemma_board_cells_finite(game@);
    }
    if !game.is_collision(start_pos, true) {
        queue.push_back(*start_pos);
        visited.insert(key_of(start_pos));
        proof {
            seen = seen.insert(*start_pos);
            assert(is_route(game@, true, *start_pos, *start_pos, seq![*start_pos]));
            assert(queue@[0] == *start_pos);
        }
    }
    assert(survey_sound(game@, *start_pos, seen, visited@, queue@)) by {
        reveal(survey_sound);
    }
    while queue.len() > 0
        invariant
            survey_sound(game@, *start_pos, seen, visited@, queue@),
            survey_closed(game@, seen, queue@),
            !game@.collides(*start_pos, true) ==> seen.contains(*start_pos),
            board_cells(game@).finite(),
        decreases board_cells(game@).len() - seen.len(), queue@.len(),
    {
        let ghost queue_before = queue@;
        let pos = queue.pop_front().unwrap();
        proof {
            reveal(survey_sound);
            assert(seen.contains(queue_before[0]));
            assert forall|i: int| 0 <= i < queue@.len() implies seen.contains(
                #[trigger] queue@[i],
            ) by {
                assert(queue@[i] == queue_before[i + 1]);
            }
        }
        let grown = visit_around(
            game,
            &pos,
            &mut visited,
            &mut queue,
            Ghost(*start_pos),
            Ghost(seen),
        );
        proof {
            lemma_closed_after_visit(game@, seen, queue_before, grown@, queue@);
            lemma_reachable_on_board(game@, *start_pos);
            lemma_len_subset(grown@, board_cells(game@));
            assert(seen.subset_of(grown@)) by {
                reveal(survey_step);
            }
            seen = grown@;
        }
    }
    proof {
        reveal(survey_sound);
        lemma_reachable_on_board(game@, *start_pos);
        assert(queue@ =~= Seq::empty());
        assert forall|c: Coordinates| reachable_cells(game@, *start_pos).contains(
            c,
        ) implies seen.contains(c) by {
            let cells = choose|cells: Seq<Coordinates>|
                is_route(game@, true, *start_pos, c, cells);
            lemma_path_stays_inside(game@, seen, cells, cells.len() - 1);
        }
        assert(seen =~= reachable_cells(game@, *start_pos));
    }
    visited.len()
}

/// The five ways in which the planner settles on a heading, in the order
/// in which it tries them.
#[derive(Clone, Copy, PartialEq, Eq, Debug, Structural)]
pub enum Strategy {
    /// Towards the food, which can be reached and eaten safely.
    FollowFood,
    /// Into the most open space, because the food can be reached but not
    /// eaten safely, while the tail can be reached.
    FillSpaceConditional,
    /// After the snake's own tail.
    FollowTail,
    /// Into the most open space, because nothing else is left.
    FillSpace,
    /// No move is legal: the current heading is kept.
    Trapped,
}

impl Strategy {
    /// The name under which the strategy is shown.
    pub open spec fn label_text(self) -> Seq<char> {
        match self {
            Strategy::FollowFood => "Food"@,
            Strategy::FillSpaceConditional => "Space-Fill (Conditional)"@,
            Strategy::FollowTail => "Tail"@,
            Strategy::FillSpace => "Space-Fill (Fallback)"@,
            Strategy::Trapped => "Trapped Fallback"@,
        }
    }

    /// The name under which the strategy is shown.
    pub fn label(&self) -> (text: String)
        ensures
            text@ == self.label_text(),
    {
        match self {
            Strategy::FollowFood => "Food".to_string(),
            Strategy::FillSpaceConditional => "Space-Fill (Conditional)".to_string(),
            Strategy::FollowTail => "Tail".to_string(),
            Strategy::FillSpace => "Space-Fill (Fallback)".to_string(),
            Strategy::Trapped => "Trapped Fallback".to_string(),
        }
    }
}

/// What the planner decides for one tick: the heading, the strategy that
/// gave it, and what the searches found.
#[derive(Clone, Copy, PartialEq, Eq, Debug, Structural)]
pub struct Decision {
    pub direction: Direction,
    pub strategy: Strategy,
    pub path_to_food_found: bool,
    pub path_to_tail_found: bool,
    pub path_to_tail_after_eat_found: bool,
    pub is_trapped: bool,
}

/// Whether the snake can step in direction `d` without colliding; the tail
/// counts as an obstacle.
pub open spec fn legal_move(board: Board, d: Direction) -> bool {
    !board.collides(board.head().stepped(d), false)
}

/// The size of the region around the head after a step in direction `d`.
pub open spec fn space_after(board: Board, d: Direction) -> nat {
    reachable_cells(board.moved(d), board.head().stepped(d)).len()
}

/// The place of a direction in the order in which moves are tried: right,
/// left, up, down.
pub open spec fn rank(d: Direction) -> int {
    match d {
        Direction::Right => 0,
        Direction::Left => 1,
        Direction::Up => 2,
        Direction::Down => 3,
    }
}

/// The better of the best move so far and `d`: `d` wins where it is legal
/// and leaves at least as much space.
pub open spec fn prefer(board: Board, best: Option<Direction>, d: Direction) -> Option<Direction> {
    if !legal_move(board, d) {
        best
    } else if best matches Some(b) && space_after(board, b) > space_after(board, d) {
        best
    } else {
        Some(d)
    }
}

/// The legal move that leaves the most space, the later in the order right,
/// left, up, down among equals; none where no move is legal.
pub open spec fn best_move(board: Board) -> Option<Direction> {
    prefer(
        board,
        prefer(
            board,
            prefer(board, prefer(board, None, Direction::Right), Direction::Left),
            Direction::Up,
        ),
        Direction::Down,
    )
}

/// The heading of the first step of a route from the head, where the route
/// has a second cell and that cell lies apart from the head.
pub open spec fn first_step(board: Board, route: Option<Seq<Coordinates>>) -> Option<Direction> {
    match route {
        Some(cells) => if cells.len() > 1 {
            heading_towards(board.head(), cells[1])
        } else {
            None
        },
        None => None,
    }
}

/// The decision for a board, given what the three searches returned: the
/// route to the food, whether the snake could still reach its tail after
/// eating, and the route to the tail. The strategies are tried in order, and
/// the first that yields a heading is taken.
pub open spec fn decision_for(
    board: Board,
    food_route: Option<Seq<Coordinates>>,
    escape_found: bool,
    tail_route: Option<Seq<Coordinates>>,
) -> Decision {
    let food_found = food_route is Some;
    let safe = food_found && escape_found;
    let tail_found = tail_route is Some;
    let (direction, strategy) = if safe && first_step(board, food_route) is Some {
        (first_step(board, food_route)->0, Strategy::FollowFood)
    } else if food_found && !safe && tail_found && best_move(board) is Some {
        (best_move(board)->0, Strategy::FillSpaceConditional)
    } else if tail_found && first_step(board, tail_route) is Some {
        (first_step(board, tail_route)->0, Strategy::FollowTail)
    } else if best_move(board) is Some {
        (best_move(board)->0, Strategy::FillSpace)
    } else {
        (board.heading, Strategy::Trapped)
    };
    Decision {
        direction,
        strategy,
        path_to_food_found: food_found,
        path_to_tail_found: tail_found,
        path_to_tail_after_eat_found: safe,
        is_trapped: strategy == Strategy::Trapped,
    }
}

/// The route to the food that the search returns on a board.
pub open spec fn food_route(board: Board) -> Option<Seq<Coordinates>> {
    astar_route(board, false, board.head(), board.food)
}

/// The route from the food to the tail that the search returns once the
/// snake has eaten.
pub open spec fn escape_route(board: Board) -> Option<Seq<Coordinates>> {
    astar_route(board.fed(), true, board.fed().head(), board.fed().tail())
}

/// The route to the tail that the search returns on a board.
pub open spec fn tail_route(board: Board) -> Option<Seq<Coordinates>> {
    astar_route(board, true, board.head(), board.tail())
}

/// The decision that the planner takes on a board.
pub open spec fn plan(board: Board) -> Decision {
    decision_for(board, food_route(board), escape_route(board) is Some, tail_route(board))
}

/// Whether a search result is what a search from `start` to `goal` may
/// return: a shortest route, or nothing where no route exists.
pub open spec fn is_search_result(
    board: Board,
    ignore_tail: bool,
    start: Coordinates,
    goal: Coordinates,
    route: Option<Seq<Coordinates>>,
) -> bool {
    match route {
        Some(cells) => is_shortest_route(board, ignore_tail, start, goal, cells),
        None => !route_exists(board, ignore_tail, start, goal),
    }
}

/// Whether the three inputs of a decision are what the searches on `board`
/// may return.
pub open spec fn searches_agree(
    board: Board,
    food_route: Option<Seq<Coordinates>>,
    escape_found: bool,
    tail_route: Option<Seq<Coordinates>>,
) -> bool {
    &&& is_search_result(board, false, board.head(), board.food, food_route)
    &&& food_route is Some ==> escape_found == route_exists(
        board.fed(),
        true,
        board.fed().head(),
        board.fed().tail(),
    )
    &&& is_search_result(board, true, board.head(), board.tail(), tail_route)
}

/// The board after one step in direction `d`, to survey the space there.
fn after_move(game: &Game, next: Coordinates) -> (moved: Game)
    requires
        game@.body.len() > 0,
    ensures
        moved@.body == seq![next] + (if game@.digesting {
            game@.body
        } else {
            game@.body.drop_last()
        }),
        moved@.width == game@.width,
        moved@.height == game@.height,
        moved@.food == game@.food,
        moved@.heading == game@.heading,
        moved@.digesting == game@.digesting,
{
    let mut moved = game.clone();
    moved.state.snake.body.push_front(next);
    if !moved.state.snake.digesting {
        moved.state.snake.body.pop_back();
    }
    assert(moved@.body =~= seq![next] + (if game@.digesting {
        game@.body
    } else {
        game@.body.drop_last()
    }));
    moved
}

/// Weighs the move in direction `d` against the best move so far, which
/// comes with the space it leaves.
fn consider(game: &Game, head: &Coordinates, d: Direction, best: Option<(Direction, usize)>) -> (out:
    Option<(Direction, usize)>)
    requires
        game@.body.len() > 0,
        *head == game@.head(),
        head.can_step_anywhere(),
        best matches Some(b) ==> b.1 == space_after(game@, b.0),
    ensures
        out matches Some(b) ==> b.1 == space_after(game@, b.0),
        chosen(out) == prefer(game@, chosen(best), d),
{
    let next = get_next_pos(&d, head);
    if game.is_collision(&next, false) {
        return best;
    }
    let moved = after_move(game, next);
    assert(moved@ == game@.moved(d));
    let space = count_reachable_space(&next, &moved);
    match best {
        Some((_, most)) => if most > space {
            best
        } else {
            Some((d, space))
        },
        None => Some((d, space)),
    }
}

/// The move of a candidate that comes with its space.
spec fn chosen(best: Option<(Direction, usize)>) -> Option<Direction> {
    match best {
        Some(b) => Some(b.0),
        None => None,
    }
}

/// The legal move that leaves the snake the most space: for each of right,
/// left, up and down that does not collide, the step is made on a copy of the
/// board and the region around the new head is counted.
pub fn best_space_move(game: &Game) -> (best: Option<Direction>)
    requires
        game@.body.len() > 0,
        game@.head().can_step_anywhere(),
    ensures
        best == best_move(game@),
        best is None <==> forall|d: Direction| !legal_move(game@, d),
        best matches Some(b) ==> legal_move(game@, b) && forall|d: Direction|
            legal_move(game@, d) ==> space_after(game@, d) < space_after(game@, b) || (
            #[trigger] space_after(game@, d) == space_after(game@, b) && rank(d) <= rank(b)),
{
    let head = game.state.snake.get_head();
    let right = consider(game, &head, Direction::Right, None);
    let left = consider(game, &head, Direction::Left, right);
    let up = consider(game, &head, Direction::Up, left);
    let down = consider(game, &head, Direction::Down, up);
    proof {
        lemma_best_move_is_best(game@);
    }
    match down {
        Some((d, _)) => Some(d),
        None => None,
    }
}

/// What `best_move` picks is legal, leaves no less space than any legal
/// move, and comes last in the order among those that leave as much.
pub proof fn lemma_best_move_is_best(board: Board)
    ensures
        best_move(board) is None <==> forall|d: Direction| !legal_move(board, d),
        best_move(board) matches Some(b) ==> legal_move(board, b) && forall|d: Direction|
            legal_move(board, d) ==> space_after(board, d) < space_after(board, b) || (
            #[trigger] space_after(board, d) == space_after(board, b) && rank(d) <= rank(b)),
{
    let right = prefer(board, None, Direction::Right);
    let left = prefer(board, right, Direction::Left);
    let up = prefer(board, left, Direction::Up);
    let down = prefer(board, up, Direction::Down);
    assert(down == best_move(board));
    if best_move(board) is None {
        assert forall|d: Direction| !legal_move(board, d) by {
            match d {
                Direction::Right => {},
                Direction::Left => {},
                Direction::Up => {},
                Direction::Down => {},
            }
        }
    } else {
        let b = best_move(board)->0;
        assert forall|d: Direction| legal_move(board, d) implies space_after(board, d)
            < space_after(board, b) || (#[trigger] space_after(board, d) == space_after(board, b)
            && rank(d) <= rank(b)) by {
            match d {
                Direction::Right => {},
                Direction::Left => {},
                Direction::Up => {},
                Direction::Down => {},
            }
        }
    }
}

/// A snake that has more than one cell after its step finds no space: the
/// survey starts on the new head, which the body itself blocks, so every move
/// counts 0 and the order of the moves alone decides among the legal ones.
pub proof fn lemma_no_space_behind_a_body(board: Board, d: Direction)
    requires
        board.body.len() >= 2 || (board.body.len() == 1 && board.digesting),
    ensures
        space_after(board, d) == 0,
{
    let moved = board.moved(d);
    let start = board.head().stepped(d);
    assert(moved.body[0] == start);
    assert(moved.occupied(start, true));
    assert(reachable_cells(moved, start) =~= Set::<Coordinates>::empty());
}

/// Whether the snake could still reach its tail if it had just eaten: the
/// food cell is put in front of the whole body, and a route is sought from
/// this new head to the tail, which is ignored as an obstacle.
pub fn is_food_safe(game: &Game) -> (safe: bool)
    ensures
        safe == route_exists(game@.fed(), true, game@.fed().head(), game@.fed().tail()),
        safe == (escape_route(game@) is Some),
{
    let mut future = game.clone();
    future.state.snake.body.push_front(game.state.food.position);
    assert(future@ == game@.fed());
    let future_head = future.state.snake.get_head();
    let future_tail = future.state.snake.get_tail();
    let escape = search(&future, &future_head, &future_tail, true);
    escape.is_some()
}

/// The heading of the first step of a route from `head`, if it has one.
fn first_heading(head: &Coordinates, route: &Option<Vec<Coordinates>>) -> (heading: Option<
    Direction,
>)
    ensures
        heading == match route_cells(*route) {
            Some(cells) => if cells.len() > 1 {
                heading_towards(*head, cells[1])
            } else {
                None
            },
            None => None,
        },
{
    match route {
        Some(cells) => if cells.len() > 1 {
            get_direction(head, &cells[1])
        } else {
            None
        },
        None => None,
    }
}

/// Settles on a heading, given what the searches returned: the route to the
/// food, whether the tail stays in reach after eating, and the route to the
/// tail.
pub fn decide(
    game: &Game,
    food_route: &Option<Vec<Coordinates>>,
    escape_found: bool,
    tail_route: &Option<Vec<Coordinates>>,
) -> (decision: Decision)
    requires
        game@.body.len() > 0,
        game@.head().can_step_anywhere(),
    ensures
        decision == decision_for(
            game@,
            route_cells(*food_route),
            escape_found,
            route_cells(*tail_route),
        ),
{
    let head = game.state.snake.get_head();
    let food_found = food_route.is_some();
    let safe = food_found && escape_found;
    let tail_found = tail_route.is_some();
    let found = Decision {
        direction: game.state.snake.direction,
        strategy: Strategy::Trapped,
        path_to_food_found: food_found,
        path_to_tail_found: tail_found,
        path_to_tail_after_eat_found: safe,
        is_trapped: false,
    };
    if safe {
        if let Some(direction) = first_heading(&head, food_route) {
            return Decision { direction, strategy: Strategy::FollowFood, ..found };
        }
    }
    if food_found && !safe && tail_found {
        if let Some(direction) = best_space_move(game) {
            return Decision { direction, strategy: Strategy::FillSpaceConditional, ..found };
        }
    }
    if tail_found {
        if let Some(direction) = first_heading(&head, tail_route) {
            return Decision { direction, strategy: Strategy::FollowTail, ..found };
        }
    }
    if let Some(direction) = best_space_move(game) {
        Decision { direction, strategy: Strategy::FillSpace, ..found }
    } else {
        Decision { is_trapped: true, ..found }
    }
}

/// The planner: searches for the food, tests whether eating is safe,
/// searches for the tail, and settles on a heading. It reads the game and
/// changes nothing.
pub fn choose_direction(game: &Game) -> (decision: Decision)
    requires
        game@.body.len() > 0,
        game@.head().can_step_anywhere(),
    ensures
        decision == plan(game@),
        searches_agree(game@, food_route(game@), escape_route(game@) is Some, tail_route(game@)),
{
    let head = game.state.snake.get_head();
    let to_food = search(game, &head, &game.state.food.position, false);
    let escape_found = if to_food.is_some() {
        is_food_safe(game)
    } else {
        false
    };
    let tail = game.state.snake.get_tail();
    let to_tail = search(game, &head, &tail, true);
    decide(game, &to_food, escape_found, &to_tail)
}

/// Plans the next move and notes in the game what the planner found: the
/// four flags and the name of the strategy. The heading is always present.
pub fn find_path(game: &mut Game) -> (heading: Option<Direction>)
    requires
        old(game)@.body.len() > 0,
        old(game)@.head().can_step_anywhere(),
    ensures
        heading is Some,
        heading == Some(plan(old(game)@).direction),
        searches_agree(
            old(game)@,
            food_route(old(game)@),
            escape_route(old(game)@) is Some,
            tail_route(old(game)@),
        ),
        final(game).state.path_to_food_found == plan(old(game)@).path_to_food_found,
        final(game).state.path_to_tail_found == plan(old(game)@).path_to_tail_found,
        final(game).state.path_to_tail_after_eat_found == plan(
            old(game)@,
        ).path_to_tail_after_eat_found,
        final(game).state.is_trapped == plan(old(game)@).is_trapped,
        final(game).state.ai_strategy@ == plan(old(game)@).strategy.label_text(),
        final(game).state.snake == old(game).state.snake,
        final(game).state.food == old(game).state.food,
        final(game).state.score == old(game).state.score,
        final(game).state.game_over == old(game).state.game_over,
        final(game).state.width == old(game).state.width,
        final(game).state.height == old(game).state.height,
        final(game).state.last_direction == old(game).state.last_direction,
        final(game).state.speed == old(game).state.speed,
        final(game).state.speed_change_timer == old(game).state.speed_change_timer,
{
    let decision = choose_direction(game);
    game.state.path_to_food_found = decision.path_to_food_found;
    game.state.path_to_tail_found = decision.path_to_tail_found;
    game.state.path_to_tail_after_eat_found = decision.path_to_tail_after_eat_found;
    game.state.is_trapped = decision.is_trapped;
    game.state.ai_strategy = decision.strategy.label();
    Some(decision.direction)
}

/// Whether every neighbour of the head collides, even with the tail ignored.
pub open spec fn head_enclosed(board: Board) -> bool {
    forall|d: Direction| #[trigger] board.collides(board.head().stepped(d), true)
}

/// A cell that collides while the tail is ignored collides when it counts.
pub proof fn lemma_tail_only_opens(board: Board, c: Coordinates)
    requires
        board.collides(c, true),
    ensures
        board.collides(c, false),
{
    if board.in_bounds(c) {
        let i = choose|i: int| 0 <= i < board.solid_len(true) && #[trigger] board.body[i] == c;
        assert(0 <= i < board.solid_len(false) && board.body[i] == c);
    }
}

/// A neighbour of a cell lies one step from it in one of the four
/// directions, which is the heading towards it.
pub proof fn lemma_neighbor_is_a_step(c: Coordinates, n: Coordinates) -> (d: Direction)
    requires
        adjacent(c, n),
    ensures
        c.can_step(d),
        c.stepped(d) == n,
        heading_towards(c, n) == Some(d),
{
    if n.x < c.x {
        Direction::Left
    } else if n.x > c.x {
        Direction::Right
    } else if n.y < c.y {
        Direction::Up
    } else {
        Direction::Down
    }
}

/// A snake whose head is walled in on all four sides is trapped: whatever
/// the searches return on such a board, the decision is to keep the current
/// heading.
pub proof fn lemma_enclosed_head_is_trapped(
    board: Board,
    food_route: Option<Seq<Coordinates>>,
    escape_found: bool,
    tail_route: Option<Seq<Coordinates>>,
)
    requires
        board.body.len() > 0,
        head_enclosed(board),
        searches_agree(board, food_route, escape_found, tail_route),
    ensures
        decision_for(board, food_route, escape_found, tail_route).strategy == Strategy::Trapped,
        decision_for(board, food_route, escape_found, tail_route).direction == board.heading,
        decision_for(board, food_route, escape_found, tail_route).is_trapped,
{
    let head = board.head();
    assert forall|d: Direction| !legal_move(board, d) by {
        assert(board.collides(head.stepped(d), true));
        lemma_tail_only_opens(board, head.stepped(d));
    }
    lemma_best_move_is_best(board);
    if let Some(cells) = food_route {
        if cells.len() > 1 {
            assert(adjacent(cells[0], cells[1]) && !board.collides(cells[1], false));
            let d = lemma_neighbor_is_a_step(head, cells[1]);
            assert(board.collides(head.stepped(d), true));
            lemma_tail_only_opens(board, head.stepped(d));
        }
    }
    if let Some(cells) = tail_route {
        if cells.len() > 1 {
            assert(adjacent(cells[0], cells[1]) && !board.collides(cells[1], true));
            let d = lemma_neighbor_is_a_step(head, cells[1]);
            assert(board.collides(head.stepped(d), true));
        }
    }
}

/// Food that lies in a dead end is not safe: where the food is not the
/// tail and every neighbour of the food cell collides once the snake has
/// eaten, no route leads from the food to the tail, and the decision is not
/// to go for the food.
pub proof fn lemma_enclosed_food_is_unsafe(
    board: Board,
    food_route: Option<Seq<Coordinates>>,
    escape_found: bool,
    tail_route: Option<Seq<Coordinates>>,
)
    requires
        board.body.len() > 0,
        board.food != board.tail(),
        forall|d: Direction| #[trigger] board.fed().collides(board.food.stepped(d), true),
        searches_agree(board, food_route, escape_found, tail_route),
    ensures
        !route_exists(board.fed(), true, board.fed().head(), board.fed().tail()),
        decision_for(board, food_route, escape_found, tail_route).strategy != Strategy::FollowFood,
        !decision_for(board, food_route, escape_found, tail_route).path_to_tail_after_eat_found,
{
    let fed = board.fed();
    assert(fed.head() == board.food);
    assert(fed.tail() == board.tail());
    if route_exists(fed, true, fed.head(), fed.tail()) {
        let cells = choose|cells: Seq<Coordinates>|
            is_route(fed, true, fed.head(), fed.tail(), cells);
        assert(cells.len() > 1);
        assert(adjacent(cells[0], cells[1]) && !fed.collides(cells[1], true));
        let d = lemma_neighbor_is_a_step(board.food, cells[1]);
        assert(fed.collides(board.food.stepped(d), true));
    }
}

/// What the flags of a decision say of the board: the food flag and the tail
/// flag tell whether a route to the food and to the tail exists, and the
/// flag for the route after eating is set where, besides, the snake could
/// still reach its tail once it has eaten.
pub proof fn lemma_flags_tell_reach(
    board: Board,
    food_route: Option<Seq<Coordinates>>,
    escape_found: bool,
    tail_route: Option<Seq<Coordinates>>,
)
    requires
        searches_agree(board, food_route, escape_found, tail_route),
    ensures
        decision_for(board, food_route, escape_found, tail_route).path_to_food_found
            == route_exists(board, false, board.head(), board.food),
        decision_for(board, food_route, escape_found, tail_route).path_to_tail_found
            == route_exists(board, true, board.head(), board.tail()),
        decision_for(board, food_route, escape_found, tail_route).path_to_tail_after_eat_found == (
        route_exists(board, false, board.head(), board.food) && route_exists(
            board.fed(),
            true,
            board.fed().head(),
            board.fed().tail(),
        )),
{
}

/// Unless the snake is trapped, the step it decides on leads onto a cell
/// that does not collide while the tail is ignored; towards the food and
/// into open space the cell does not collide even with the tail counted.
pub proof fn lemma_chosen_step_is_open(
    board: Board,
    food_route: Option<Seq<Coordinates>>,
    escape_found: bool,
    tail_route: Option<Seq<Coordinates>>,
)
    requires
        board.body.len() > 0,
        searches_agree(board, food_route, escape_found, tail_route),
    ensures
        ({
            let decision = decision_for(board, food_route, escape_found, tail_route);
            let target = board.head().stepped(decision.direction);
            &&& decision.strategy != Strategy::Trapped ==> !board.collides(target, true)
            &&& decision.strategy != Strategy::Trapped && decision.strategy
                != Strategy::FollowTail ==> legal_move(board, decision.direction)
            &&& decision.strategy == Strategy::FollowFood ==> target == food_route->0[1]
            &&& decision.strategy == Strategy::FollowTail ==> target == tail_route->0[1]
        }),
{
    let decision = decision_for(board, food_route, escape_found, tail_route);
    let head = board.head();
    let target = head.stepped(decision.direction);
    lemma_best_move_is_best(board);
    if decision.strategy == Strategy::FollowFood {
        let cells = food_route->0;
        assert(adjacent(cells[0], cells[1]) && !board.collides(cells[1], false));
        let d = lemma_neighbor_is_a_step(head, cells[1]);
    } else if decision.strategy == Strategy::FollowTail {
        let cells = tail_route->0;
        assert(adjacent(cells[0], cells[1]) && !board.collides(cells[1], true));
        let d = lemma_neighbor_is_a_step(head, cells[1]);
    }
    if legal_move(board, decision.direction) && board.collides(target, true) {
        lemma_tail_only_opens(board, target);
    }
}

} // verus!
