use snake_ai::ai::{
    best_space_move, choose_direction, decide, find_path, is_food_safe, Decision, Strategy,
};
use snake_ai::game::{Coordinates, Direction, Food, Game, GameState, Snake};
use std::collections::VecDeque;
use std::time::Instant;

fn at(x: i32, y: i32) -> Coordinates {
    Coordinates { x, y }
}

fn game_on(
    width: i32,
    height: i32,
    body: &[(i32, i32)],
    food: (i32, i32),
    heading: Direction,
    digesting: bool,
) -> Game {
    let mut cells = VecDeque::new();
    for &(x, y) in body {
        cells.push_back(at(x, y));
    }
    Game {
        state: GameState {
            snake: Snake { body: cells, direction: heading, digesting },
            food: Food { position: at(food.0, food.1) },
            score: 7,
            game_over: false,
            width,
            height,
            last_direction: None,
            speed: 5,
            path_to_food_found: true,
            path_to_tail_found: true,
            path_to_tail_after_eat_found: true,
            is_trapped: true,
            ai_strategy: "None".to_string(),
            speed_change_timer: Instant::now(),
        },
    }
}

fn outcome(
    direction: Direction,
    strategy: Strategy,
    food: bool,
    tail: bool,
    after_eat: bool,
    trapped: bool,
) -> Decision {
    Decision {
        direction,
        strategy,
        path_to_food_found: food,
        path_to_tail_found: tail,
        path_to_tail_after_eat_found: after_eat,
        is_trapped: trapped,
    }
}

fn route(cells: &[(i32, i32)]) -> Option<Vec<Coordinates>> {
    Some(cells.iter().map(|&(x, y)| at(x, y)).collect())
}

// A pocket in the corner: the food at (0, 0) can be reached through (1, 0), and nothing leads
// out of the pocket again. The tail at (3, 2) can be reached down the free column 3.
const POCKET: [(i32, i32); 8] = [(2, 0), (2, 1), (1, 1), (0, 1), (0, 2), (1, 2), (2, 2), (3, 2)];

// The same pocket on a board without column 3: the tail at (2, 2) is out of reach.
const SEALED: [(i32, i32); 7] = [(2, 0), (2, 1), (1, 1), (0, 1), (0, 2), (1, 2), (2, 2)];

// The food at (3, 0) lies in the corner between the head at (2, 0) and the body at (3, 1).
const DEAD_END: [(i32, i32); 6] = [(2, 0), (2, 1), (3, 1), (3, 2), (2, 2), (1, 2)];

// The head at (1, 1) sits in the middle of its own coil.
const COIL: [(i32, i32); 9] =
    [(1, 1), (1, 0), (0, 0), (0, 1), (0, 2), (1, 2), (2, 2), (2, 1), (2, 0)];

#[test]
fn straight_safe_food_is_followed() {
    let mut game = game_on(5, 5, &[(2, 2), (1, 2), (0, 2)], (4, 2), Direction::Right, false);
    assert!(is_food_safe(&game));
    assert_eq!(
        choose_direction(&game),
        outcome(Direction::Right, Strategy::FollowFood, true, true, true, false)
    );
    assert_eq!(find_path(&mut game), Some(Direction::Right));
    assert!(game.state.path_to_food_found);
    assert!(game.state.path_to_tail_found);
    assert!(game.state.path_to_tail_after_eat_found);
    assert!(!game.state.is_trapped);
    assert_eq!(game.state.ai_strategy, "Food");
}

#[test]
fn find_path_notes_the_flags_and_leaves_the_rest() {
    let mut game = game_on(4, 3, &COIL, (3, 1), Direction::Down, false);
    assert_eq!(find_path(&mut game), Some(Direction::Down));
    assert!(!game.state.path_to_food_found);
    assert!(!game.state.path_to_tail_found);
    assert!(!game.state.path_to_tail_after_eat_found);
    assert!(game.state.is_trapped);
    assert_eq!(game.state.ai_strategy, "Trapped Fallback");
    assert_eq!(game.state.score, 7);
    assert_eq!(game.state.speed, 5);
    assert_eq!(game.state.width, 4);
    assert_eq!(game.state.height, 3);
    assert_eq!(game.state.last_direction, None);
    assert!(!game.state.game_over);
    assert_eq!(game.state.food.position, at(3, 1));
    assert_eq!(game.state.snake.body.len(), 9);
    assert_eq!(game.state.snake.body[0], at(1, 1));
    assert_eq!(game.state.snake.direction, Direction::Down);
}

#[test]
fn planning_twice_gives_the_same_decision() {
    let game = game_on(4, 3, &POCKET, (0, 0), Direction::Up, false);
    assert_eq!(choose_direction(&game), choose_direction(&game));
    let open = game_on(6, 6, &[(3, 3), (3, 4)], (0, 0), Direction::Up, false);
    assert_eq!(choose_direction(&open), choose_direction(&open));
}

#[test]
fn food_in_a_pocket_fills_space_while_the_tail_is_in_reach() {
    let mut game = game_on(4, 3, &POCKET, (0, 0), Direction::Up, false);
    assert!(!is_food_safe(&game));
    // Right and left are legal and leave equal space: the later of the two is taken.
    assert_eq!(
        choose_direction(&game),
        outcome(Direction::Left, Strategy::FillSpaceConditional, true, true, false, false)
    );
    assert_eq!(find_path(&mut game), Some(Direction::Left));
    assert_eq!(game.state.ai_strategy, "Space-Fill (Conditional)");
    assert!(game.state.path_to_food_found);
    assert!(!game.state.path_to_tail_after_eat_found);
}

#[test]
fn food_in_a_pocket_falls_back_when_the_tail_is_out_of_reach() {
    let mut game = game_on(3, 3, &SEALED, (0, 0), Direction::Up, false);
    assert!(!is_food_safe(&game));
    assert_eq!(
        choose_direction(&game),
        outcome(Direction::Left, Strategy::FillSpace, true, false, false, false)
    );
    assert_eq!(find_path(&mut game), Some(Direction::Left));
    assert_eq!(game.state.ai_strategy, "Space-Fill (Fallback)");
}

#[test]
fn food_in_a_dead_end_is_vetoed() {
    let mut game = game_on(4, 4, &DEAD_END, (3, 0), Direction::Up, false);
    // Once eaten, the food cell has the old head, the body and two walls around it.
    assert!(!is_food_safe(&game));
    let decision = choose_direction(&game);
    assert_eq!(
        decision,
        outcome(Direction::Left, Strategy::FillSpaceConditional, true, true, false, false)
    );
    // The step onto the food would be to the right.
    assert_ne!(decision.direction, Direction::Right);
    assert_eq!(find_path(&mut game), Some(Direction::Left));
    assert!(!game.state.path_to_tail_after_eat_found);
}

#[test]
fn vetoed_food_is_still_stepped_on_where_no_other_move_is_legal() {
    // The food at (0, 0) lies between the head at (1, 0), the body at (0, 1) and two walls.
    // The veto takes the food strategy away, but the step to the left is the only legal one.
    let body = [(1, 0), (2, 0), (2, 1), (2, 2), (1, 2), (0, 2), (0, 1), (1, 1)];
    let game = game_on(4, 3, &body, (0, 0), Direction::Left, false);
    assert!(!is_food_safe(&game));
    assert_eq!(
        choose_direction(&game),
        outcome(Direction::Left, Strategy::FillSpaceConditional, true, true, false, false)
    );
}

#[test]
fn the_escape_counts_the_tail_as_gone_right_after_eating() {
    // Once the food at (0, 0) is eaten, only the tail cell (0, 1) lies next to it. The tail
    // would stay for one more step, but the test for an escape ignores it all the same.
    let body = [(1, 0), (2, 0), (2, 1), (1, 1), (0, 1)];
    let game = game_on(3, 3, &body, (0, 0), Direction::Left, false);
    assert!(is_food_safe(&game));
    assert_eq!(
        choose_direction(&game),
        outcome(Direction::Left, Strategy::FollowFood, true, true, true, false)
    );
}

#[test]
fn an_enclosed_head_is_trapped() {
    let game = game_on(4, 3, &COIL, (3, 1), Direction::Down, false);
    assert_eq!(
        choose_direction(&game),
        outcome(Direction::Down, Strategy::Trapped, false, false, false, true)
    );
    let heading_left = game_on(4, 3, &COIL, (3, 1), Direction::Left, true);
    assert_eq!(
        choose_direction(&heading_left),
        outcome(Direction::Left, Strategy::Trapped, false, false, false, true)
    );
}

#[test]
fn a_head_enclosed_but_for_its_tail_follows_the_tail() {
    let ring = [(0, 0), (1, 0), (1, 1), (0, 1)];
    let game = game_on(2, 2, &ring, (5, 5), Direction::Left, false);
    assert_eq!(
        choose_direction(&game),
        outcome(Direction::Down, Strategy::FollowTail, false, true, false, false)
    );
}

#[test]
fn a_snake_of_one_cell_in_a_box_is_trapped() {
    let game = game_on(1, 1, &[(0, 0)], (3, 3), Direction::Up, false);
    // The route from the head to the tail is the head alone and gives no heading.
    assert_eq!(
        choose_direction(&game),
        outcome(Direction::Up, Strategy::Trapped, false, true, false, true)
    );
}

#[test]
fn unreachable_food_makes_the_snake_follow_its_tail() {
    // The body seals the pocket in which the food lies; the tail at (1, 2) can be reached
    // down column 3 and along the last row.
    let body = [(3, 0), (2, 0), (2, 1), (1, 1), (0, 1), (0, 2), (1, 2)];
    let mut game = game_on(4, 3, &body, (0, 0), Direction::Right, false);
    assert_eq!(
        choose_direction(&game),
        outcome(Direction::Down, Strategy::FollowTail, false, true, false, false)
    );
    assert_eq!(find_path(&mut game), Some(Direction::Down));
    assert_eq!(game.state.ai_strategy, "Tail");
}

#[test]
fn a_heading_is_always_given() {
    let boards = [
        game_on(5, 5, &[(2, 2), (1, 2), (0, 2)], (4, 2), Direction::Right, false),
        game_on(4, 3, &POCKET, (0, 0), Direction::Up, false),
        game_on(3, 3, &SEALED, (0, 0), Direction::Up, true),
        game_on(4, 4, &DEAD_END, (3, 0), Direction::Up, false),
        game_on(4, 3, &COIL, (3, 1), Direction::Down, false),
        game_on(1, 1, &[(0, 0)], (0, 0), Direction::Left, false),
        game_on(0, 0, &[(0, 0)], (0, 0), Direction::Left, false),
        game_on(6, 6, &[(3, 3)], (9, 9), Direction::Up, true),
    ];
    for mut game in boards {
        let decision = choose_direction(&game);
        assert_eq!(find_path(&mut game), Some(decision.direction));
        assert_eq!(game.state.ai_strategy, decision.strategy.label());
        assert_eq!(game.state.is_trapped, decision.strategy == Strategy::Trapped);
    }
}

#[test]
fn best_space_move_takes_the_last_of_equal_moves() {
    // Behind a head that has a body the survey starts on a blocked cell and counts 0 for
    // every move, so the order decides: down before up before left before right.
    let game = game_on(5, 5, &[(2, 2), (1, 2), (0, 2)], (4, 4), Direction::Right, false);
    assert_eq!(best_space_move(&game), Some(Direction::Down));
    let low = game_on(5, 3, &[(2, 2), (1, 2), (0, 2)], (4, 0), Direction::Right, false);
    assert_eq!(best_space_move(&low), Some(Direction::Up));
    let flat = game_on(5, 1, &[(2, 0), (3, 0)], (0, 0), Direction::Left, false);
    assert_eq!(best_space_move(&flat), Some(Direction::Left));
    let corner = game_on(4, 1, &[(2, 0), (1, 0), (0, 0)], (3, 0), Direction::Right, false);
    assert_eq!(best_space_move(&corner), Some(Direction::Right));
    assert_eq!(best_space_move(&game_on(4, 3, &COIL, (3, 1), Direction::Down, false)), None);
}

#[test]
fn best_space_move_takes_the_move_with_the_most_space() {
    // A digesting snake of one cell becomes two cells long: the old head stays behind as the
    // tail, which the survey ignores. On a board of one row the whole row stays in reach
    // either way, and the later of the two moves is taken.
    let row = game_on(5, 1, &[(1, 0)], (4, 0), Direction::Right, true);
    assert_eq!(best_space_move(&row), Some(Direction::Left));
    // A snake of one cell that is not digesting leaves its cell: every move sees the whole
    // board, and down comes last.
    let single = game_on(3, 3, &[(1, 1)], (0, 0), Direction::Up, false);
    assert_eq!(best_space_move(&single), Some(Direction::Down));
    let top = game_on(3, 2, &[(1, 1)], (0, 0), Direction::Up, false);
    assert_eq!(best_space_move(&top), Some(Direction::Up));
}

#[test]
fn decide_goes_through_the_strategies_in_order() {
    let game = game_on(5, 5, &[(2, 2), (1, 2), (0, 2)], (4, 2), Direction::Right, false);
    let to_food = route(&[(2, 2), (3, 2), (4, 2)]);
    let to_tail = route(&[(2, 2), (2, 1), (1, 1), (0, 1), (0, 2)]);
    assert_eq!(
        decide(&game, &to_food, true, &to_tail),
        outcome(Direction::Right, Strategy::FollowFood, true, true, true, false)
    );
    assert_eq!(
        decide(&game, &to_food, false, &to_tail),
        outcome(Direction::Down, Strategy::FillSpaceConditional, true, true, false, false)
    );
    assert_eq!(
        decide(&game, &to_food, false, &None),
        outcome(Direction::Down, Strategy::FillSpace, true, false, false, false)
    );
    assert_eq!(
        decide(&game, &None, true, &to_tail),
        outcome(Direction::Up, Strategy::FollowTail, false, true, false, false)
    );
    assert_eq!(
        decide(&game, &None, false, &None),
        outcome(Direction::Down, Strategy::FillSpace, false, false, false, false)
    );
}

#[test]
fn decide_passes_over_a_route_without_a_step() {
    let game = game_on(5, 5, &[(2, 2), (1, 2), (0, 2)], (4, 2), Direction::Right, false);
    let stay = route(&[(2, 2)]);
    let same = route(&[(2, 2), (2, 2)]);
    let to_tail = route(&[(2, 2), (2, 1), (1, 1), (0, 1), (0, 2)]);
    assert_eq!(
        decide(&game, &stay, true, &to_tail),
        outcome(Direction::Up, Strategy::FollowTail, true, true, true, false)
    );
    assert_eq!(
        decide(&game, &same, true, &stay),
        outcome(Direction::Down, Strategy::FillSpace, true, true, true, false)
    );
    let coil = game_on(4, 3, &COIL, (3, 1), Direction::Down, false);
    assert_eq!(
        decide(&coil, &route(&[(1, 1)]), false, &route(&[(1, 1)])),
        outcome(Direction::Down, Strategy::Trapped, true, true, false, true)
    );
}

#[test]
fn strategies_have_their_labels() {
    assert_eq!(Strategy::FollowFood.label(), "Food");
    assert_eq!(Strategy::FillSpaceConditional.label(), "Space-Fill (Conditional)");
    assert_eq!(Strategy::FollowTail.label(), "Tail");
    assert_eq!(Strategy::FillSpace.label(), "Space-Fill (Fallback)");
    assert_eq!(Strategy::Trapped.label(), "Trapped Fallback");
}
