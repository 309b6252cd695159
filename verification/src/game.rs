//! The board: cells, headings, the snake, the food and the game state.

use rand::Rng;
use std::collections::VecDeque;
use std::time::{Duration, Instant};
use vstd::prelude::*;

verus! {

/// A cell of the grid.
#[derive(Clone, Copy, PartialEq, Eq, Debug, Hash, Structural)]
pub struct Coordinates {
    pub x: i32,
    pub y: i32,
}

/// A heading. `Up` is towards smaller `y`, `Left` towards smaller `x`.
#[derive(Clone, Copy, PartialEq, Eq, Debug, Structural)]
pub enum Direction {
    Up,
    Down,
    Left,
    Right,
}

impl Direction {
    /// The change in `x` of one step in this direction.
    pub open spec fn dx(self) -> int {
        match self {
            Direction::Left => -1,
            Direction::Right => 1,
            _ => 0,
        }
    }

    /// The change in `y` of one step in this direction.
    pub open spec fn dy(self) -> int {
        match self {
            Direction::Up => -1,
            Direction::Down => 1,
            _ => 0,
        }
    }
}

impl Coordinates {
    /// Whether the cell one step away in direction `d` has coordinates that fit in `i32`.
    pub open spec fn can_step(self, d: Direction) -> bool {
        &&& i32::MIN <= self.x + d.dx() <= i32::MAX
        &&& i32::MIN <= self.y + d.dy() <= i32::MAX
    }

    /// The cell one step away in direction `d`; meaningful where `can_step(d)` holds.
    pub open spec fn stepped(self, d: Direction) -> Coordinates {
        Coordinates { x: (self.x + d.dx()) as i32, y: (self.y + d.dy()) as i32 }
    }

    /// Whether a step in each of the four directions stays within `i32`.
    pub open spec fn can_step_anywhere(self) -> bool {
        i32::MIN < self.x < i32::MAX && i32::MIN < self.y < i32::MAX
    }

    /// The neighbour one step away in direction `d`, or nothing where its
    /// coordinates would not fit in `i32`.
    pub fn neighbor(&self, d: Direction) -> (next: Option<Coordinates>)
        ensures
            next is Some <==> self.can_step(d),
            next matches Some(c) ==> c == self.stepped(d),
    {
        match d {
            Direction::Up => if self.y > i32::MIN {
                Some(Coordinates { x: self.x, y: self.y - 1 })
            } else {
                None
            },
            Direction::Down => if self.y < i32::MAX {
                Some(Coordinates { x: self.x, y: self.y + 1 })
            } else {
                None
            },
            Direction::Left => if self.x > i32::MIN {
                Some(Coordinates { x: self.x - 1, y: self.y })
            } else {
                None
            },
            Direction::Right => if self.x < i32::MAX {
                Some(Coordinates { x: self.x + 1, y: self.y })
            } else {
                None
            },
        }
    }
}

/// The snake: its cells from head to tail, its heading, and whether it has
/// just eaten, in which case its next move does not free the tail cell.
pub struct Snake {
    pub body: VecDeque<Coordinates>,
    pub direction: Direction,
    pub digesting: bool,
}

impl Clone for Snake {
    fn clone(&self) -> (copy: Self)
        ensures
            copy.body@ == self.body@,
            copy.direction == self.direction,
            copy.digesting == self.digesting,
    {
        let body = self.body.clone();
        assert(body@ =~= self.body@);
        Snake { body, direction: self.direction, digesting: self.digesting }
    }
}

impl Snake {
    /// A snake of `length` cells in a row: the head at `start`, each further
    /// cell one step to the left of the one before.
    pub fn new(start: Coordinates, length: u32, direction: Direction) -> (snake: Self)
        requires
            start.x - length + 1 >= i32::MIN,
        ensures
            snake.body@.len() == length,
            forall|i: int|
                0 <= i < length ==> #[trigger] snake.body@[i] == (Coordinates {
                    x: (start.x - i) as i32,
                    y: start.y,
                }),
            snake.direction == direction,
            !snake.digesting,
    {
        let mut body: VecDeque<Coordinates> = VecDeque::new();
        let mut i: u32 = 0;
        let mut x: i32 = start.x;
        while i < length
            invariant
                i <= length,
                start.x - length + 1 >= i32::MIN,
                x == start.x - i || (i == length && x == start.x - i + 1),
                body@.len() == i,
                forall|j: int|
                    0 <= j < i ==> #[trigger] body@[j] == (Coordinates {
                        x: (start.x - j) as i32,
                        y: start.y,
                    }),
            decreases length - i,
        {
            body.push_back(Coordinates { x, y: start.y });
            i = i + 1;
            if i < length {
                x = x - 1;
            }
        }
        Snake { body, direction, digesting: false }
    }

    /// The last cell of the body.
    pub fn get_tail(&self) -> (tail: Coordinates)
        requires
            self.body@.len() > 0,
        ensures
            tail == self.body@.last(),
    {
        self.body[self.body.len() - 1]
    }

    /// The first cell of the body.
    pub fn get_head(&self) -> (head: Coordinates)
        requires
            self.body@.len() > 0,
        ensures
            head == self.body@[0],
    {
        self.body[0]
    }

    /// One step in the current heading: a new head is put in front, and the
    /// tail cell is given up unless the snake is digesting, which it no
    /// longer is afterwards.
    pub fn move_forward(&mut self)
        requires
            old(self).body@.len() > 0,
            old(self).body@[0].can_step(old(self).direction),
        ensures
            final(self).body@ == advanced(
                old(self).body@,
                old(self).direction,
                old(self).digesting,
            ),
            final(self).direction == old(self).direction,
            !final(self).digesting,
    {
        let head = self.body[0];
        let new_head = match self.direction {
            Direction::Up => Coordinates { x: head.x, y: head.y - 1 },
            Direction::Down => Coordinates { x: head.x, y: head.y + 1 },
            Direction::Left => Coordinates { x: head.x - 1, y: head.y },
            Direction::Right => Coordinates { x: head.x + 1, y: head.y },
        };
        self.body.push_front(new_head);
        if !self.digesting {
            self.body.pop_back();
        } else {
            self.digesting = false;
        }
        assert(self.body@ =~= advanced(old(self).body@, old(self).direction, old(self).digesting));
    }

    /// Whether the head is outside a board of the given size or on another
    /// cell of the body.
    pub fn check_collision(&self, width: i32, height: i32) -> (hit: bool)
        requires
            self.body@.len() > 0,
        ensures
            hit == crashed(width as int, height as int, self.body@),
    {
        let head = self.body[0];
        if head.x < 0 || head.x >= width || head.y < 0 || head.y >= height {
            return true;
        }
        let mut i: usize = 1;
        while i < self.body.len()
            invariant
                1 <= i,
                head == self.body@[0],
                forall|j: int| 0 < j < i && j < self.body@.len() ==> self.body@[j] != head,
            decreases self.body.len() - i,
        {
            if self.body[i] == head {
                return true;
            }
            i = i + 1;
        }
        false
    }
}

/// The food: one cell of the board.
pub struct Food {
    pub position: Coordinates,
}

impl Clone for Food {
    fn clone(&self) -> (copy: Self)
        ensures
            copy == *self,
    {
        Food { position: self.position }
    }
}

/// A moment of the machine's monotonic clock, as `std::time::Instant` holds it.
#[verifier::external_type_specification]
#[verifier::external_body]
pub struct ExInstant(Instant);

/// Everything a game in progress holds: the board, the score, the speed and
/// what the planner last reported.
pub struct GameState {
    pub snake: Snake,
    pub food: Food,
    pub score: u32,
    pub game_over: bool,
    pub width: i32,
    pub height: i32,
    pub last_direction: Option<Direction>,
    pub speed: u64,
    pub path_to_food_found: bool,
    pub path_to_tail_found: bool,
    pub path_to_tail_after_eat_found: bool,
    pub is_trapped: bool,
    pub ai_strategy: String,
    pub speed_change_timer: Instant,
}

impl GameState {
    /// Whether this state holds what `other` holds, field by field.
    pub open spec fn mirrors(self, other: GameState) -> bool {
        &&& self.snake.body@ == other.snake.body@
        &&& self.snake.direction == other.snake.direction
        &&& self.snake.digesting == other.snake.digesting
        &&& self.food == other.food
        &&& self.score == other.score
        &&& self.game_over == other.game_over
        &&& self.width == other.width
        &&& self.height == other.height
        &&& self.last_direction == other.last_direction
        &&& self.speed == other.speed
        &&& self.path_to_food_found == other.path_to_food_found
        &&& self.path_to_tail_found == other.path_to_tail_found
        &&& self.path_to_tail_after_eat_found == other.path_to_tail_after_eat_found
        &&& self.is_trapped == other.is_trapped
        &&& self.ai_strategy@ == other.ai_strategy@
        &&& self.speed_change_timer == other.speed_change_timer
    }
}

impl Clone for GameState {
    fn clone(&self) -> (copy: Self)
        ensures
            copy.mirrors(*self),
    {
        Self {
            snake: self.snake.clone(),
            food: self.food.clone(),
            score: self.score,
            game_over: self.game_over,
            width: self.width,
            height: self.height,
            last_direction: self.last_direction,
            speed: self.speed,
            path_to_food_found: self.path_to_food_found,
            path_to_tail_found: self.path_to_tail_found,
            path_to_tail_after_eat_found: self.path_to_tail_after_eat_found,
            is_trapped: self.is_trapped,
            ai_strategy: self.ai_strategy.clone(),
            speed_change_timer: self.speed_change_timer,
        }
    }
}

/// A game, as the planner and the screen see it.
pub struct Game {
    pub state: GameState,
}

impl Clone for Game {
    fn clone(&self) -> (copy: Self)
        ensures
            copy.state.mirrors(self.state),
            copy@ == self@,
    {
        Game { state: self.state.clone() }
    }
}

/// What the planner reads of a game: the size of the board, the snake's
/// cells from head to tail, the food, the heading, and whether the snake is
/// digesting.
pub struct Board {
    pub width: int,
    pub height: int,
    pub body: Seq<Coordinates>,
    pub food: Coordinates,
    pub heading: Direction,
    pub digesting: bool,
}

impl View for Game {
    type V = Board;

    open spec fn view(&self) -> Board {
        Board {
            width: self.state.width as int,
            height: self.state.height as int,
            body: self.state.snake.body@,
            food: self.state.food.position,
            heading: self.state.snake.direction,
            digesting: self.state.snake.digesting,
        }
    }
}

impl Board {
    /// Whether `c` lies on the board.
    pub open spec fn in_bounds(self, c: Coordinates) -> bool {
        within(self.width, self.height, c)
    }

    /// How many cells of the body, counted from the head, block a move: all
    /// of them, or all but the tail where the tail is ignored.
    pub open spec fn solid_len(self, ignore_tail: bool) -> int {
        if ignore_tail && self.body.len() > 0 {
            self.body.len() - 1
        } else {
            self.body.len() as int
        }
    }

    /// Whether a blocking cell of the body lies on `c`.
    pub open spec fn occupied(self, c: Coordinates, ignore_tail: bool) -> bool {
        exists|i: int| 0 <= i < self.solid_len(ignore_tail) && #[trigger] self.body[i] == c
    }

    /// The collision test: `c` is off the board or under a blocking cell of
    /// the body.
    pub open spec fn collides(self, c: Coordinates, ignore_tail: bool) -> bool {
        !self.in_bounds(c) || self.occupied(c, ignore_tail)
    }

    /// The snake's head.
    pub open spec fn head(self) -> Coordinates
        recommends
            self.body.len() > 0,
    {
        self.body[0]
    }

    /// The snake's tail.
    pub open spec fn tail(self) -> Coordinates
        recommends
            self.body.len() > 0,
    {
        self.body.last()
    }

    /// The board after the snake has eaten the food where it lies: the food
    /// cell becomes the head and the whole old body follows it.
    pub open spec fn fed(self) -> Board {
        Board { body: seq![self.food] + self.body, ..self }
    }

    /// The board after one step of the snake in direction `d`.
    pub open spec fn moved(self, d: Direction) -> Board {
        Board { body: advanced(self.body, d, self.digesting), ..self }
    }
}

impl Game {
    /// The collision test of the board: whether `pos` is off the board or on
    /// the snake, whose tail does not count where `ignore_tail` is set.
    pub fn is_collision(&self, pos: &Coordinates, ignore_tail: bool) -> (hit: bool)
        ensures
            hit == self@.collides(*pos, ignore_tail),
    {
        if pos.x < 0 || pos.x >= self.state.width || pos.y < 0 || pos.y >= self.state.height {
            return true;
        }
        let len = self.state.snake.body.len();
        let solid: usize = if ignore_tail && len > 0 {
            len - 1
        } else {
            len
        };
        let mut i: usize = 0;
        while i < solid
            invariant
                i <= solid <= self.state.snake.body@.len(),
                solid == self@.solid_len(ignore_tail),
                forall|j: int| 0 <= j < i ==> self.state.snake.body@[j] != *pos,
            decreases solid - i,
        {
            if self.state.snake.body[i] == *pos {
                return true;
            }
            i = i + 1;
        }
        false
    }
}

/// Whether a snake with this body has run into the wall or into itself:
/// its head is off the board or on another cell of the body.
pub open spec fn crashed(width: int, height: int, body: Seq<Coordinates>) -> bool
    recommends
        body.len() > 0,
{
    !within(width, height, body[0]) || exists|i: int|
        0 < i < body.len() && #[trigger] body[i] == body[0]
}

/// Whether food may be put on `c`: the cell keeps two cells away from each
/// wall and no cell of the body lies on it.
pub open spec fn food_spot(width: int, height: int, body: Seq<Coordinates>, c: Coordinates) -> bool {
    2 <= c.x < width - 2 && 2 <= c.y < height - 2 && !body.contains(c)
}

/// Whether there is a cell to put food on.
pub open spec fn has_food_spot(width: int, height: int, body: Seq<Coordinates>) -> bool {
    exists|c: Coordinates| food_spot(width, height, body, c)
}

/// The order in which the cells of a board are listed: by `x`, then by `y`.
pub open spec fn comes_before(a: Coordinates, b: Coordinates) -> bool {
    a.x < b.x || (a.x == b.x && a.y < b.y)
}

/// Whether a cell of the body lies on `c`.
fn on_body(body: &VecDeque<Coordinates>, c: &Coordinates) -> (found: bool)
    ensures
        found == body@.contains(*c),
{
    let mut i: usize = 0;
    while i < body.len()
        invariant
            i <= body@.len(),
            forall|j: int| 0 <= j < i ==> body@[j] != *c,
        decreases body.len() - i,
    {
        if body[i] == *c {
            return true;
        }
        i = i + 1;
    }
    false
}

/// Every cell on which food may be put, listed by `x`, then by `y`.
pub fn food_spots(width: i32, height: i32, snake_body: &VecDeque<Coordinates>) -> (spots: Vec<
    Coordinates,
>)
    ensures
        forall|c: Coordinates|
            spots@.contains(c) <==> food_spot(width as int, height as int, snake_body@, c),
        forall|i: int, j: int|
            0 <= i < j < spots@.len() ==> comes_before(#[trigger] spots@[i], #[trigger] spots@[j]),
        spots@.len() > 0 <==> has_food_spot(width as int, height as int, snake_body@),
{
    let mut spots: Vec<Coordinates> = Vec::new();
    if width >= 5 && height >= 5 {
        let mut x: i32 = 2;
        while x < width - 2
            invariant
                width >= 5,
                height >= 5,
                2 <= x <= width - 2,
                forall|c: Coordinates| #[trigger]
                    spots@.contains(c) <==> food_spot(
                        width as int,
                        height as int,
                        snake_body@,
                        c,
                    ) && c.x < x,
                forall|i: int, j: int|
                    0 <= i < j < spots@.len() ==> comes_before(
                        #[trigger] spots@[i],
                        #[trigger] spots@[j],
                    ),
            decreases width - 2 - x,
        {
            let mut y: i32 = 2;
            while y < height - 2
                invariant
                    width >= 5,
                    height >= 5,
                    2 <= x < width - 2,
                    2 <= y <= height - 2,
                    forall|c: Coordinates| #[trigger]
                        spots@.contains(c) <==> food_spot(
                            width as int,
                            height as int,
                            snake_body@,
                            c,
                        ) && (c.x < x || (c.x == x && c.y < y)),
                    forall|i: int, j: int|
                        0 <= i < j < spots@.len() ==> comes_before(
                            #[trigger] spots@[i],
                            #[trigger] spots@[j],
                        ),
                decreases height - 2 - y,
            {
                let c = Coordinates { x, y };
                let ghost before = spots@;
                if !on_body(snake_body, &c) {
                    spots.push(c);
                    proof {
                        assert forall|i: int, j: int| 0 <= i < j < spots@.len() implies comes_before(
                            #[trigger] spots@[i],
                            #[trigger] spots@[j],
                        ) by {
                            if j == before.len() {
                                assert(before.contains(before[i]));
                            }
                        }
                    }
                }
                proof {
                    assert forall|d: Coordinates| #[trigger]
                        spots@.contains(d) <==> food_spot(
                            width as int,
                            height as int,
                            snake_body@,
                            d,
                        ) && (d.x < x || (d.x == x && d.y < y + 1)) by {
                        vstd::seq_lib::lemma_seq_contains_after_push(before, c, d);
                        assert(before.contains(d) <==> food_spot(
                            width as int,
                            height as int,
                            snake_body@,
                            d,
                        ) && (d.x < x || (d.x == x && d.y < y)));
                        assert(d.x == x && d.y == y ==> d == c);
                    }
                }
                y = y + 1;
            }
            x = x + 1;
        }
    }
    proof {
        if spots@.len() > 0 {
            assert(spots@.contains(spots@[0]));
        }
        if has_food_spot(width as int, height as int, snake_body@) {
            let c = choose|c: Coordinates|
                food_spot(width as int, height as int, snake_body@, c);
            assert(spots@.contains(c));
        }
    }
    spots
}

/// Draws a number below `n` with the thread's generator of the `rand` crate:
/// `rand::thread_rng().gen_range(0..n)`. An empty range makes the generator
/// panic, so `n` is not 0. Which number comes is left open; it lies in the
/// range.
#[verifier::external_body]
fn random_below(n: usize) -> (k: usize)
    requires
        n > 0,
    ensures
        k < n,
{
    rand::thread_rng().gen_range(0..n)
}

/// `Instant::now` gives the present moment of the machine's clock. Nothing
/// is claimed of it.
pub assume_specification[ Instant::now ]() -> Instant;

/// `Instant::elapsed` gives the time that has passed since the moment was
/// taken. Nothing is claimed of it.
pub assume_specification[ Instant::elapsed ](earlier: &Instant) -> Duration;

/// `Duration::as_millis` gives the whole milliseconds that a span of time
/// holds. Nothing is claimed of it.
pub assume_specification[ Duration::as_millis ](span: &Duration) -> u128;

impl Food {
    /// Food on a cell drawn at random among those on which food may be put:
    /// each of them is as likely as any other.
    pub fn new(width: i32, height: i32, snake_body: &VecDeque<Coordinates>) -> (food: Self)
        requires
            has_food_spot(width as int, height as int, snake_body@),
        ensures
            food_spot(width as int, height as int, snake_body@, food.position),
    {
        let spots = food_spots(width, height, snake_body);
        let k = random_below(spots.len());
        assert(spots@.contains(spots@[k as int]));
        Food { position: spots[k] }
    }
}

/// The fastest speed that can be set.
pub const MAX_SPEED: u64 = 1000;

/// The slowest speed that can be set.
pub const MIN_SPEED: u64 = 1;

/// How many milliseconds must have passed since the speed last changed
/// before it changes again.
pub const SPEED_CHANGE_PAUSE: u128 = 100;

/// The milliseconds between two ticks at speed 1.
pub const TICK_BUDGET: u64 = 200;

/// The speed one step up, which stops at the fastest.
pub open spec fn raised(speed: u64) -> u64 {
    if speed + 1 < MAX_SPEED {
        (speed + 1) as u64
    } else {
        MAX_SPEED
    }
}

/// The speed one step down, which stops at the slowest.
pub open spec fn lowered(speed: u64) -> u64 {
    if speed - 1 > MIN_SPEED {
        (speed - 1) as u64
    } else {
        MIN_SPEED
    }
}

/// Whether two headings are opposite.
pub open spec fn opposite(a: Direction, b: Direction) -> bool {
    a.dx() + b.dx() == 0 && a.dy() + b.dy() == 0
}

/// The body with which a game on a board of this size starts: three cells
/// in a row, the head in the middle of the board.
pub open spec fn starting_body(width: int, height: int) -> Seq<Coordinates> {
    seq![
        Coordinates { x: (width / 2) as i32, y: (height / 2) as i32 },
        Coordinates { x: (width / 2 - 1) as i32, y: (height / 2) as i32 },
        Coordinates { x: (width / 2 - 2) as i32, y: (height / 2) as i32 },
    ]
}

impl GameState {
    /// A new game: a snake of three cells that heads right from the middle
    /// of the board, food on a free cell, speed 5.
    pub fn new(width: i32, height: i32) -> (state: Self)
        requires
            has_food_spot(width as int, height as int, starting_body(width as int, height as int)),
        ensures
            state.snake.body@ == starting_body(width as int, height as int),
            state.snake.direction == Direction::Right,
            !state.snake.digesting,
            food_spot(width as int, height as int, state.snake.body@, state.food.position),
            state.score == 0,
            !state.game_over,
            state.width == width,
            state.height == height,
            state.last_direction is None,
            state.speed == 5,
            !state.path_to_food_found,
            !state.path_to_tail_found,
            !state.path_to_tail_after_eat_found,
            !state.is_trapped,
            state.ai_strategy@ == "None"@,
    {
        proof {
            let spot = choose|c: Coordinates|
                food_spot(
                    width as int,
                    height as int,
                    starting_body(width as int, height as int),
                    c,
                );
            assert(width >= 5 && height >= 5);
        }
        let snake_start = Coordinates { x: width / 2, y: height / 2 };
        let snake = Snake::new(snake_start, 3, Direction::Right);
        assert(snake.body@ =~= starting_body(width as int, height as int));
        let food = Food::new(width, height, &snake.body);
        Self {
            snake,
            food,
            score: 0,
            game_over: false,
            width,
            height,
            last_direction: None,
            speed: 5,
            path_to_food_found: false,
            path_to_tail_found: false,
            path_to_tail_after_eat_found: false,
            is_trapped: false,
            ai_strategy: "None".to_string(),
            speed_change_timer: Instant::now(),
        }
    }

    /// Whether a game can start on a board of this size: whether the
    /// starting snake leaves a cell to put food on.
    pub fn can_start(width: i32, height: i32) -> (ok: bool)
        ensures
            ok == has_food_spot(
                width as int,
                height as int,
                starting_body(width as int, height as int),
            ),
    {
        if width < 5 || height < 5 {
            proof {
                if has_food_spot(
                    width as int,
                    height as int,
                    starting_body(width as int, height as int),
                ) {
                    let spot = choose|c: Coordinates|
                        food_spot(
                            width as int,
                            height as int,
                            starting_body(width as int, height as int),
                            c,
                        );
                    assert(false);
                }
            }
            return false;
        }
        let snake = Snake::new(
            Coordinates { x: width / 2, y: height / 2 },
            3,
            Direction::Right,
        );
        assert(snake.body@ =~= starting_body(width as int, height as int));
        food_spots(width, height, &snake.body).len() > 0
    }

    /// Takes a request to go faster that comes `waited` milliseconds after
    /// the speed last changed: it is granted once the pause is over, and
    /// raises the speed by one step. Tells whether it was granted.
    pub fn apply_increase(&mut self, waited: u128) -> (granted: bool)
        requires
            old(self).speed < u64::MAX,
        ensures
            granted == (waited >= SPEED_CHANGE_PAUSE),
            final(self).speed == if granted {
                raised(old(self).speed)
            } else {
                old(self).speed
            },
            *final(self) == (GameState { speed: final(self).speed, ..*old(self) }),
    {
        if waited >= SPEED_CHANGE_PAUSE {
            let bumped = self.speed + 1;
            self.speed = if bumped < MAX_SPEED {
                bumped
            } else {
                MAX_SPEED
            };
            true
        } else {
            false
        }
    }

    /// Takes a request to go slower that comes `waited` milliseconds after
    /// the speed last changed: it is granted once the pause is over, and
    /// lowers the speed by one step. Tells whether it was granted.
    pub fn apply_decrease(&mut self, waited: u128) -> (granted: bool)
        requires
            old(self).speed > 0,
        ensures
            granted == (waited >= SPEED_CHANGE_PAUSE),
            final(self).speed == if granted {
                lowered(old(self).speed)
            } else {
                old(self).speed
            },
            *final(self) == (GameState { speed: final(self).speed, ..*old(self) }),
    {
        if waited >= SPEED_CHANGE_PAUSE {
            let dropped = self.speed - 1;
            self.speed = if dropped > MIN_SPEED {
                dropped
            } else {
                MIN_SPEED
            };
            true
        } else {
            false
        }
    }

    /// Goes one step faster, unless the speed changed less than a tenth of
    /// a second ago. The clock decides which of the two happens; where the
    /// speed changes, the pause starts anew.
    pub fn increase_speed(&mut self)
        requires
            old(self).speed < u64::MAX,
        ensures
            final(self).speed == old(self).speed || final(self).speed == raised(old(self).speed),
            *final(self) == (GameState {
                speed: final(self).speed,
                speed_change_timer: final(self).speed_change_timer,
                ..*old(self)
            }),
    {
        let waited = self.speed_change_timer.elapsed().as_millis();
        if self.apply_increase(waited) {
            self.speed_change_timer = Instant::now();
        }
    }

    /// Goes one step slower, unless the speed changed less than a tenth of
    /// a second ago. The clock decides which of the two happens; where the
    /// speed changes, the pause starts anew.
    pub fn decrease_speed(&mut self)
        requires
            old(self).speed > 0,
        ensures
            final(self).speed == old(self).speed || final(self).speed == lowered(old(self).speed),
            *final(self) == (GameState {
                speed: final(self).speed,
                speed_change_timer: final(self).speed_change_timer,
                ..*old(self)
            }),
    {
        let waited = self.speed_change_timer.elapsed().as_millis();
        if self.apply_decrease(waited) {
            self.speed_change_timer = Instant::now();
        }
    }

    /// The milliseconds between two ticks at the speed that is set.
    pub fn tick_millis(&self) -> (millis: u64)
        requires
            self.speed > 0,
        ensures
            millis == TICK_BUDGET / self.speed,
    {
        TICK_BUDGET / self.speed
    }

    /// The heading of the next step: the one asked for last, if any, else
    /// the snake's own.
    pub open spec fn next_heading(self) -> Direction {
        match self.last_direction {
            Some(d) => d,
            None => self.snake.direction,
        }
    }

    /// The body after the next step.
    pub open spec fn next_body(self) -> Seq<Coordinates> {
        advanced(self.snake.body@, self.next_heading(), self.snake.digesting)
    }

    /// Whether the next step ends the game.
    pub open spec fn crashes(self) -> bool {
        crashed(self.width as int, self.height as int, self.next_body())
    }

    /// Whether the next step brings the head onto the food.
    pub open spec fn eats(self) -> bool {
        !self.crashes() && self.next_body()[0] == self.food.position
    }

    /// Whether the next step can be made: the game is over, so that nothing
    /// happens; or the snake has a head whose next cell has coordinates
    /// within `i32`, and, where the step brings the head onto the food, the
    /// score can still grow and a cell is left for new food.
    pub open spec fn update_defined(self) -> bool {
        self.game_over || (self.snake.body@.len() > 0 && self.snake.body@[0].can_step(
            self.next_heading(),
        ) && (self.eats() ==> self.score < u32::MAX && has_food_spot(
            self.width as int,
            self.height as int,
            self.next_body(),
        )))
    }

    /// Whether the next step can be made.
    pub fn can_update(&self) -> (ok: bool)
        ensures
            ok == self.update_defined(),
    {
        if self.game_over {
            return true;
        }
        if self.snake.body.len() == 0 {
            return false;
        }
        let heading = match self.last_direction {
            Some(d) => d,
            None => self.snake.direction,
        };
        if self.snake.get_head().neighbor(heading).is_none() {
            return false;
        }
        let mut snake = self.snake.clone();
        snake.direction = heading;
        snake.move_forward();
        if snake.check_collision(self.width, self.height) {
            return true;
        }
        if !(snake.get_head() == self.food.position) {
            return true;
        }
        self.score < u32::MAX && food_spots(self.width, self.height, &snake.body).len() > 0
    }

    /// One tick of the game. Nothing happens once the game is over. Else the
    /// heading asked for last is taken up and the snake moves one step; the
    /// game is over where it runs into the wall or into itself; where its
    /// head comes onto the food, the score grows by one, the snake digests,
    /// and new food is put on a free cell.
    pub fn update(&mut self)
        requires
            old(self).update_defined(),
        ensures
            old(self).game_over ==> *final(self) == *old(self),
            !old(self).game_over ==> {
                &&& final(self).last_direction is None
                &&& final(self).snake.direction == old(self).next_heading()
                &&& final(self).snake.body@ == old(self).next_body()
                &&& final(self).snake.digesting == old(self).eats()
                &&& final(self).game_over == old(self).crashes()
                &&& final(self).score == if old(self).eats() {
                    old(self).score + 1
                } else {
                    old(self).score as int
                }
                &&& old(self).eats() ==> food_spot(
                    final(self).width as int,
                    final(self).height as int,
                    final(self).snake.body@,
                    final(self).food.position,
                )
                &&& !old(self).eats() ==> final(self).food == old(self).food
            },
            final(self).width == old(self).width,
            final(self).height == old(self).height,
            final(self).speed == old(self).speed,
            final(self).path_to_food_found == old(self).path_to_food_found,
            final(self).path_to_tail_found == old(self).path_to_tail_found,
            final(self).path_to_tail_after_eat_found == old(self).path_to_tail_after_eat_found,
            final(self).is_trapped == old(self).is_trapped,
            final(self).ai_strategy == old(self).ai_strategy,
            final(self).speed_change_timer == old(self).speed_change_timer,
    {
        if self.game_over {
            return ;
        }
        if let Some(direction) = self.last_direction {
            self.snake.direction = direction;
            self.last_direction = None;
        }
        self.snake.move_forward();
        if self.snake.check_collision(self.width, self.height) {
            self.game_over = true;
            return ;
        }
        let head = self.snake.get_head();
        if head == self.food.position {
            self.score = self.score + 1;
            self.snake.digesting = true;
            self.food = Food::new(self.width, self.height, &self.snake.body);
        }
    }

    /// Asks for a new heading, which the next step takes up. A heading
    /// opposite to the snake's own is refused. Tells whether the heading was
    /// accepted.
    pub fn change_direction(&mut self, direction: Direction) -> (accepted: bool)
        ensures
            accepted == !opposite(old(self).snake.direction, direction),
            final(self).last_direction == if accepted {
                Some(direction)
            } else {
                old(self).last_direction
            },
            *final(self) == (GameState { last_direction: final(self).last_direction, ..*old(self) }),
    {
        let can_change = match (self.snake.direction, direction) {
            (Direction::Up, Direction::Down)
            | (Direction::Down, Direction::Up)
            | (Direction::Left, Direction::Right)
            | (Direction::Right, Direction::Left) => false,
            _ => true,
        };
        if can_change {
            self.last_direction = Some(direction);
        }
        can_change
    }
}

impl Game {
    /// A new game on a board of the given size.
    pub fn new(width: i32, height: i32) -> (game: Self)
        requires
            has_food_spot(width as int, height as int, starting_body(width as int, height as int)),
        ensures
            game.state.snake.body@ == starting_body(width as int, height as int),
            game.state.snake.direction == Direction::Right,
            !game.state.snake.digesting,
            food_spot(
                width as int,
                height as int,
                game.state.snake.body@,
                game.state.food.position,
            ),
            game.state.score == 0,
            !game.state.game_over,
            game.state.width == width,
            game.state.height == height,
            game.state.last_direction is None,
            game.state.speed == 5,
            !game.state.path_to_food_found,
            !game.state.path_to_tail_found,
            !game.state.path_to_tail_after_eat_found,
            !game.state.is_trapped,
            game.state.ai_strategy@ == "None"@,
    {
        Self { state: GameState::new(width, height) }
    }
}

/// Whether `c` lies on a board of `width` by `height` cells.
pub open spec fn within(width: int, height: int, c: Coordinates) -> bool {
    0 <= c.x < width && 0 <= c.y < height
}

/// The body after one step in direction `d`: the new head in front of the
/// old body, which loses its last cell unless the snake is digesting.
pub open spec fn advanced(body: Seq<Coordinates>, d: Direction, digesting: bool) -> Seq<
    Coordinates,
>
    recommends
        body.len() > 0,
{
    let kept = if digesting {
        body
    } else {
        body.drop_last()
    };
    seq![body[0].stepped(d)] + kept
}

} // verus!
