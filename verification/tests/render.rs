use snake_ai::game::{Coordinates, Direction, Food, GameState, Snake};
use snake_ai::render::{glyph_at, position_on_body, Glyph};
use std::collections::VecDeque;
use std::time::Instant;

fn spot(x: i32, y: i32) -> Coordinates {
    Coordinates { x, y }
}

fn scene(body: &[(i32, i32)], heading: Direction, food: (i32, i32)) -> GameState {
    GameState {
        snake: Snake {
            body: body.iter().map(|&(x, y)| spot(x, y)).collect::<VecDeque<Coordinates>>(),
            direction: heading,
            digesting: false,
        },
        food: Food { position: spot(food.0, food.1) },
        score: 0,
        game_over: false,
        width: 6,
        height: 6,
        last_direction: None,
        speed: 5,
        path_to_food_found: false,
        path_to_tail_found: false,
        path_to_tail_after_eat_found: false,
        is_trapped: false,
        ai_strategy: "None".to_string(),
        speed_change_timer: Instant::now(),
    }
}

#[test]
fn glyphs_have_their_characters() {
    assert_eq!(Glyph::HeadUp.symbol(), "▲");
    assert_eq!(Glyph::HeadDown.symbol(), "▼");
    assert_eq!(Glyph::HeadLeft.symbol(), "◄");
    assert_eq!(Glyph::HeadRight.symbol(), "►");
    assert_eq!(Glyph::TailToUp.symbol(), "╵");
    assert_eq!(Glyph::TailToDown.symbol(), "╷");
    assert_eq!(Glyph::TailToLeft.symbol(), "╴");
    assert_eq!(Glyph::TailToRight.symbol(), "╶");
    assert_eq!(Glyph::Vertical.symbol(), "│");
    assert_eq!(Glyph::Horizontal.symbol(), "─");
    assert_eq!(Glyph::BendUpRight.symbol(), "└");
    assert_eq!(Glyph::BendUpLeft.symbol(), "┘");
    assert_eq!(Glyph::BendDownRight.symbol(), "┌");
    assert_eq!(Glyph::BendDownLeft.symbol(), "┐");
    assert_eq!(Glyph::Food.symbol(), "●");
    assert_eq!(Glyph::Empty.symbol(), " ");
}

#[test]
fn the_head_shows_its_heading() {
    let body = [(2, 2), (2, 3)];
    assert_eq!(glyph_at(&scene(&body, Direction::Up, (0, 0)), &spot(2, 2)), Glyph::HeadUp);
    assert_eq!(glyph_at(&scene(&body, Direction::Down, (0, 0)), &spot(2, 2)), Glyph::HeadDown);
    assert_eq!(glyph_at(&scene(&body, Direction::Left, (0, 0)), &spot(2, 2)), Glyph::HeadLeft);
    assert_eq!(glyph_at(&scene(&body, Direction::Right, (0, 0)), &spot(2, 2)), Glyph::HeadRight);
    // A snake of one cell is all head, also where the food lies under it.
    assert_eq!(glyph_at(&scene(&[(2, 2)], Direction::Left, (2, 2)), &spot(2, 2)), Glyph::HeadLeft);
}

#[test]
fn the_body_shows_its_bends() {
    let state = scene(&[(1, 1), (1, 2), (2, 2), (2, 1), (3, 1)], Direction::Up, (5, 5));
    assert_eq!(glyph_at(&state, &spot(1, 1)), Glyph::HeadUp);
    assert_eq!(glyph_at(&state, &spot(1, 2)), Glyph::BendUpRight);
    assert_eq!(glyph_at(&state, &spot(2, 2)), Glyph::BendUpLeft);
    assert_eq!(glyph_at(&state, &spot(2, 1)), Glyph::BendDownRight);
    assert_eq!(glyph_at(&state, &spot(3, 1)), Glyph::TailToLeft);
    let hook = scene(&[(1, 1), (2, 1), (2, 2)], Direction::Left, (5, 5));
    assert_eq!(glyph_at(&hook, &spot(2, 1)), Glyph::BendDownLeft);
    let back = scene(&[(2, 2), (2, 1), (1, 1)], Direction::Down, (5, 5));
    assert_eq!(glyph_at(&back, &spot(2, 1)), Glyph::BendDownLeft);
    let round = scene(&[(2, 1), (2, 2), (1, 2)], Direction::Up, (5, 5));
    assert_eq!(glyph_at(&round, &spot(2, 2)), Glyph::BendUpLeft);
    let over = scene(&[(2, 2), (1, 2), (1, 1)], Direction::Right, (5, 5));
    assert_eq!(glyph_at(&over, &spot(1, 2)), Glyph::BendUpRight);
}

#[test]
fn the_body_shows_its_straight_pieces() {
    let flat = scene(&[(3, 0), (2, 0), (1, 0)], Direction::Right, (5, 5));
    assert_eq!(glyph_at(&flat, &spot(2, 0)), Glyph::Horizontal);
    let tall = scene(&[(0, 1), (0, 2), (0, 3)], Direction::Up, (5, 5));
    assert_eq!(glyph_at(&tall, &spot(0, 2)), Glyph::Vertical);
}

#[test]
fn the_tail_points_to_the_body() {
    assert_eq!(glyph_at(&scene(&[(2, 1), (2, 2)], Direction::Up, (5, 5)), &spot(2, 2)), Glyph::TailToUp);
    assert_eq!(glyph_at(&scene(&[(2, 3), (2, 2)], Direction::Down, (5, 5)), &spot(2, 2)), Glyph::TailToDown);
    assert_eq!(glyph_at(&scene(&[(1, 2), (2, 2)], Direction::Left, (5, 5)), &spot(2, 2)), Glyph::TailToLeft);
    assert_eq!(glyph_at(&scene(&[(3, 2), (2, 2)], Direction::Right, (5, 5)), &spot(2, 2)), Glyph::TailToRight);
}

#[test]
fn food_and_empty_cells_show_as_such() {
    let state = scene(&[(2, 2), (2, 3)], Direction::Up, (4, 4));
    assert_eq!(glyph_at(&state, &spot(4, 4)), Glyph::Food);
    assert_eq!(glyph_at(&state, &spot(0, 0)), Glyph::Empty);
    assert_eq!(glyph_at(&state, &spot(-1, 9)), Glyph::Empty);
    assert_eq!(glyph_at(&scene(&[], Direction::Up, (4, 4)), &spot(4, 4)), Glyph::Food);
    // The snake hides the food.
    assert_eq!(glyph_at(&scene(&[(2, 2), (4, 4)], Direction::Up, (4, 4)), &spot(4, 4)), Glyph::TailToUp);
}

#[test]
fn the_first_place_in_the_body_decides() {
    let body: VecDeque<Coordinates> =
        [(1, 1), (2, 1), (2, 2), (1, 2), (1, 1)].iter().map(|&(x, y)| spot(x, y)).collect();
    assert_eq!(position_on_body(&body, &spot(1, 1)), Some(0));
    assert_eq!(position_on_body(&body, &spot(2, 2)), Some(2));
    assert_eq!(position_on_body(&body, &spot(1, 2)), Some(3));
    assert_eq!(position_on_body(&body, &spot(0, 0)), None);
    assert_eq!(position_on_body(&VecDeque::new(), &spot(0, 0)), None);
    let knot = scene(&[(1, 1), (2, 1), (2, 2), (1, 2), (1, 1)], Direction::Left, (5, 5));
    assert_eq!(glyph_at(&knot, &spot(1, 1)), Glyph::HeadLeft);
}
