use snake::game::{contains_point, Direction, Game, Point};

fn fresh_game() -> Game {
    Game::new(30, 15)
}

#[test]
fn new_game_starts_centered() {
    let g = fresh_game();
    assert_eq!(g.width, 30);
    assert_eq!(g.height, 15);
    assert_eq!(g.snake.len(), 1);
    assert_eq!(g.snake[0], Point { x: 15, y: 7 });
    assert_eq!(g.dir, Direction::Right);
    assert_eq!(g.score, 0);
    assert!(!g.game_over);
    assert!(1 <= g.food.x && g.food.x <= 28);
    assert!(1 <= g.food.y && g.food.y <= 13);
}

#[test]
fn spawn_food_stays_inside_the_walls() {
    for _ in 0..200 {
        let p = Game::spawn_food(30, 15);
        assert!(1 <= p.x && p.x <= 28);
        assert!(1 <= p.y && p.y <= 13);
    }
}

#[test]
fn spawn_food_on_the_smallest_board_is_the_single_interior_cell() {
    for _ in 0..20 {
        assert_eq!(Game::spawn_food(3, 3), Point { x: 1, y: 1 });
    }
}

#[test]
fn tick_without_food_keeps_the_length() {
    let mut g = fresh_game();
    g.food = Point { x: 1, y: 13 };
    g.update();
    assert!(!g.game_over);
    assert_eq!(g.snake.len(), 1);
    assert_eq!(g.snake[0], Point { x: 16, y: 7 });
    assert_eq!(g.score, 0);
    assert_eq!(g.food, Point { x: 1, y: 13 });
}

#[test]
fn tick_onto_food_grows_by_one_and_scores_ten() {
    let mut g = fresh_game();
    g.food = Point { x: 16, y: 7 };
    g.update();
    assert!(!g.game_over);
    assert_eq!(g.snake.len(), 2);
    assert_eq!(g.snake[0], Point { x: 16, y: 7 });
    assert_eq!(g.snake[1], Point { x: 15, y: 7 });
    assert_eq!(g.score, 10);
    assert!(1 <= g.food.x && g.food.x <= 28);
    assert!(1 <= g.food.y && g.food.y <= 13);
}

#[test]
fn two_meals_score_twenty() {
    let mut g = fresh_game();
    g.food = Point { x: 16, y: 7 };
    g.update();
    g.food = Point { x: 17, y: 7 };
    g.update();
    assert!(!g.game_over);
    assert_eq!(g.snake.len(), 3);
    assert_eq!(g.score, 20);
    assert_eq!(g.snake[0], Point { x: 17, y: 7 });
    assert_eq!(g.snake[1], Point { x: 16, y: 7 });
    assert_eq!(g.snake[2], Point { x: 15, y: 7 });
}

#[test]
fn hitting_the_top_wall_ends_the_game_and_keeps_the_head() {
    let mut g = fresh_game();
    g.food = Point { x: 1, y: 13 };
    g.change_direction(Direction::Up);
    for _ in 0..6 {
        g.update();
        assert!(!g.game_over);
    }
    assert_eq!(g.snake[0], Point { x: 15, y: 1 });
    g.update();
    assert!(g.game_over);
    assert_eq!(g.snake.len(), 1);
    assert_eq!(g.snake[0], Point { x: 15, y: 1 });
    assert_eq!(g.score, 0);
}

#[test]
fn the_smallest_board_ends_on_the_first_tick() {
    let mut g = Game::new(3, 3);
    assert_eq!(g.snake[0], Point { x: 1, y: 1 });
    g.update();
    assert!(g.game_over);
    assert_eq!(g.snake, vec![Point { x: 1, y: 1 }]);
    assert_eq!(g.score, 0);
}

#[test]
fn updates_after_game_over_change_nothing() {
    let mut g = fresh_game();
    g.food = Point { x: 1, y: 13 };
    g.change_direction(Direction::Up);
    for _ in 0..7 {
        g.update();
    }
    assert!(g.game_over);
    let snake = g.snake.clone();
    let dir = g.dir;
    let food = g.food;
    let score = g.score;
    for _ in 0..5 {
        g.update();
        assert!(g.game_over);
        assert_eq!(g.snake, snake);
        assert_eq!(g.dir, dir);
        assert_eq!(g.food, food);
        assert_eq!(g.score, score);
    }
}

#[test]
fn moving_onto_the_own_body_ends_the_game() {
    let mut g = Game {
        snake: vec![
            Point { x: 5, y: 5 },
            Point { x: 6, y: 5 },
            Point { x: 6, y: 6 },
            Point { x: 5, y: 6 },
            Point { x: 4, y: 6 },
            Point { x: 4, y: 5 },
        ],
        dir: Direction::Down,
        food: Point { x: 20, y: 10 },
        width: 30,
        height: 15,
        game_over: false,
        score: 50,
    };
    g.update();
    assert!(g.game_over);
    assert_eq!(g.snake.len(), 6);
    assert_eq!(g.snake[0], Point { x: 5, y: 5 });
    assert_eq!(g.score, 50);
}

#[test]
fn moving_onto_the_vacating_tail_still_counts_as_a_collision() {
    let mut g = Game {
        snake: vec![
            Point { x: 5, y: 5 },
            Point { x: 6, y: 5 },
            Point { x: 6, y: 6 },
            Point { x: 5, y: 6 },
        ],
        dir: Direction::Down,
        food: Point { x: 20, y: 10 },
        width: 30,
        height: 15,
        game_over: false,
        score: 30,
    };
    g.update();
    assert!(g.game_over);
    assert_eq!(g.snake.len(), 4);
    assert_eq!(g.snake[0], Point { x: 5, y: 5 });
}

#[test]
fn a_reversal_is_ignored_however_often_it_is_asked() {
    let mut g = fresh_game();
    assert_eq!(g.dir, Direction::Right);
    for _ in 0..10 {
        g.change_direction(Direction::Left);
        assert_eq!(g.dir, Direction::Right);
    }
    g.change_direction(Direction::Up);
    assert_eq!(g.dir, Direction::Up);
    g.change_direction(Direction::Down);
    assert_eq!(g.dir, Direction::Up);
    g.change_direction(Direction::Left);
    assert_eq!(g.dir, Direction::Left);
    g.change_direction(Direction::Right);
    assert_eq!(g.dir, Direction::Left);
    g.change_direction(Direction::Down);
    assert_eq!(g.dir, Direction::Down);
    g.change_direction(Direction::Up);
    assert_eq!(g.dir, Direction::Down);
}

#[test]
fn a_turn_changes_nothing_but_the_direction() {
    let mut g = fresh_game();
    let snake = g.snake.clone();
    let food = g.food;
    g.change_direction(Direction::Up);
    assert_eq!(g.snake, snake);
    assert_eq!(g.food, food);
    assert_eq!(g.score, 0);
    assert!(!g.game_over);
}

#[test]
fn contains_point_finds_each_segment_and_nothing_else() {
    let body = vec![Point { x: 5, y: 5 }, Point { x: 6, y: 5 }, Point { x: 6, y: 6 }];
    for p in &body {
        assert!(contains_point(&body, *p));
    }
    assert!(!contains_point(&body, Point { x: 5, y: 6 }));
    assert!(!contains_point(&Vec::new(), Point { x: 5, y: 5 }));
}
