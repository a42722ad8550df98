use snake_game::game::{DeathReason, Effect, Game, GameState};
use snake_game::geometry::{Direction, Position};
use snake_game::npc::{NpcRoll, NpcSnake};

fn pos(x: i16, y: i16) -> Position {
    Position { x, y }
}

fn npc(body: Vec<Position>) -> NpcSnake {
    NpcSnake { body, direction: Direction::Left, move_counter: 0, change_dir_counter: 0 }
}

/// A round on a 20 x 10 board with the given player snake heading right,
/// food far away and no enemies.
fn round(snake: Vec<Position>) -> Game {
    Game {
        snake,
        direction: Direction::Right,
        food: pos(1, 8),
        score: 0,
        high_score: 0,
        state: GameState::Playing,
        width: 20,
        height: 10,
        start_ms: 0,
        last_update_ms: 0,
        base_speed_ms: 150,
        direction_stack: Vec::new(),
        direction_key_held: false,
        direction_held_since: None,
        score_flash: None,
        npc_snakes: Vec::new(),
        npc_spawn_timer: 0,
        npc_spawn_interval_secs: 15,
        max_npc_snakes: 8,
        death_reason: None,
        invincible_until: None,
    }
}

#[test]
fn new_round_layout() {
    let g = Game::new(40, 20, 70, 1000);
    assert_eq!(g.snake, vec![pos(20, 10), pos(19, 10), pos(18, 10)]);
    assert_eq!(g.direction, Direction::Right);
    assert!(g.food.x >= 2 && g.food.x < 38 && g.food.y >= 2 && g.food.y < 18);
    assert_eq!(g.score, 0);
    assert_eq!(g.high_score, 70);
    assert_eq!(g.state, GameState::Playing);
    assert_eq!(g.npc_snakes.len(), 1);
    assert!(g.npc_snakes[0].body.len() <= 3);
    assert_eq!((g.start_ms, g.last_update_ms, g.npc_spawn_timer), (1000, 1000, 1000));
    assert_eq!(g.npc_spawn_interval_secs, 15);
    assert_eq!(g.max_npc_snakes, 8);
    assert_eq!(g.base_speed_ms, 150);
    assert!(g.death_reason.is_none() && g.invincible_until.is_none());
}

#[test]
fn new_round_on_a_small_board() {
    let g = Game::new(5, 5, 0, 0);
    assert_eq!(g.snake, vec![pos(2, 2), pos(1, 2), pos(0, 2)]);
    assert_eq!(g.food, pos(2, 2));
    assert_eq!(g.npc_snakes.len(), 1);
}

#[test]
fn first_enemy_is_clear_of_the_snake() {
    for _ in 0..200 {
        let g = Game::new(20, 10, 0, 0);
        assert!(g.npc_snakes[0].body.iter().all(|p| !g.snake.contains(p)));
        assert!(g.npc_snakes[0].body.iter().all(|p| p.is_inside(20, 10)));
    }
}

#[test]
fn new_round_food_is_random() {
    let mut seen = std::collections::HashSet::new();
    for _ in 0..100 {
        let g = Game::new(60, 30, 0, 0);
        seen.insert((g.food.x, g.food.y));
    }
    assert!(seen.len() > 10);
}

#[test]
fn speed_formula() {
    let mut g = round(vec![pos(5, 5)]);
    assert_eq!(g.get_speed_ms(), 150);
    g.score = 100;
    assert_eq!(g.get_speed_ms(), 100);
    g.score = 190;
    assert_eq!(g.get_speed_ms(), 55);
    g.score = 200;
    assert_eq!(g.get_speed_ms(), 50);
    g.score = 5000;
    assert_eq!(g.get_speed_ms(), 50);
    g.direction_key_held = true;
    assert_eq!(g.get_speed_ms(), 16);
    g.score = 0;
    assert_eq!(g.get_speed_ms(), 50);
    g.base_speed_ms = 40;
    assert_eq!(g.get_speed_ms(), 16);
    g.base_speed_ms = 30;
    g.direction_key_held = false;
    g.score = 1000;
    assert_eq!(g.get_speed_ms(), 50);
}

#[test]
fn pressing_directions() {
    let mut g = round(vec![pos(5, 5), pos(4, 5)]);
    g.push_direction(Direction::Left);
    assert_eq!(g.direction, Direction::Right);
    assert!(g.direction_stack.is_empty());
    g.direction_key_held = true;
    g.push_direction(Direction::Right);
    assert_eq!(g.direction_stack, vec![Direction::Right]);
    assert!(g.direction_key_held);
    g.push_direction(Direction::Right);
    assert_eq!(g.direction_stack, vec![Direction::Right]);
    g.push_direction(Direction::Up);
    assert_eq!(g.direction, Direction::Up);
    assert_eq!(g.direction_stack, vec![Direction::Right, Direction::Up]);
    assert!(!g.direction_key_held);
    assert_eq!(g.direction_held_since, None);
}

#[test]
fn releasing_falls_back_to_held_key() {
    let mut g = round(vec![pos(5, 5), pos(4, 5)]);
    g.push_direction(Direction::Right);
    g.push_direction(Direction::Up);
    g.release_direction(Direction::Up, 5000);
    assert_eq!(g.direction, Direction::Right);
    assert_eq!(g.direction_stack, vec![Direction::Right]);
    assert!(g.direction_key_held);
    assert_eq!(g.direction_held_since, Some(4800));
    g.release_direction(Direction::Right, 6000);
    assert!(g.direction_stack.is_empty());
    assert!(!g.direction_key_held);
    assert_eq!(g.direction_held_since, None);
    assert_eq!(g.direction, Direction::Right);
}

#[test]
fn release_never_reverses() {
    // Right held, then Up, then Left: releasing Up then Left would fall back
    // to Right, the reverse of Left, so the heading stays Left.
    let mut g = round(vec![pos(5, 5), pos(4, 5)]);
    g.push_direction(Direction::Right);
    g.push_direction(Direction::Up);
    g.push_direction(Direction::Left);
    assert_eq!(g.direction, Direction::Left);
    g.release_direction(Direction::Up, 100);
    assert_eq!(g.direction, Direction::Left);
    assert!(g.direction_key_held);
    g.release_direction(Direction::Left, 100);
    assert_eq!(g.direction, Direction::Left);
    assert_eq!(g.direction_stack, vec![Direction::Right]);
    assert!(!g.direction_key_held);
    assert_eq!(g.direction_held_since, None);
}

#[test]
fn wall_ends_the_round() {
    let mut g = round(vec![pos(18, 5), pos(17, 5)]);
    g.invincible_until = Some(10_000);
    let (fx, ate) = g.move_player(0);
    assert!(fx.is_empty() && !ate);
    assert_eq!(g.state, GameState::GameOver);
    assert_eq!(g.death_reason, Some(DeathReason::Wall));
    assert_eq!(g.snake, vec![pos(18, 5), pos(17, 5)]);
}

#[test]
fn biting_itself_ends_the_round() {
    let mut g = round(vec![pos(5, 5), pos(5, 6), pos(6, 6), pos(6, 5), pos(7, 5)]);
    g.invincible_until = Some(10_000);
    let (_, ate) = g.move_player(0);
    assert!(!ate);
    assert_eq!(g.state, GameState::GameOver);
    assert_eq!(g.death_reason, Some(DeathReason::SelfBite));
}

#[test]
fn enemy_body_kills_the_player() {
    let mut g = round(vec![pos(5, 5), pos(4, 5)]);
    g.npc_snakes.push(npc(vec![pos(6, 4), pos(6, 5), pos(6, 6)]));
    let (fx, _) = g.move_player(0);
    assert!(fx.is_empty());
    assert_eq!(g.state, GameState::GameOver);
    assert_eq!(g.death_reason, Some(DeathReason::Enemy));
    assert_eq!(g.npc_snakes.len(), 1);
}

#[test]
fn invincible_player_kills_the_enemy() {
    let mut g = round(vec![pos(5, 5), pos(4, 5)]);
    g.invincible_until = Some(3000);
    g.npc_snakes.push(npc(vec![pos(6, 4), pos(6, 5), pos(6, 6)]));
    g.npc_snakes.push(npc(vec![pos(15, 2)]));
    let (fx, ate) = g.move_player(2999);
    assert!(!ate);
    assert_eq!(g.state, GameState::Playing);
    assert_eq!(g.snake, vec![pos(6, 5), pos(5, 5)]);
    assert_eq!(g.npc_snakes.len(), 1);
    assert_eq!(g.npc_snakes[0].body, vec![pos(15, 2)]);
    assert_eq!(fx, vec![Effect::NpcDeath { x: 6, y: 4 }]);
}

#[test]
fn invincibility_expires() {
    let mut g = round(vec![pos(5, 5), pos(4, 5)]);
    g.invincible_until = Some(3000);
    g.npc_snakes.push(npc(vec![pos(6, 4), pos(6, 5)]));
    g.move_player(3000);
    assert_eq!(g.death_reason, Some(DeathReason::Enemy));
}

#[test]
fn invincible_player_kills_touching_enemies() {
    // The enemy's tail touches the player's body; only invincibility kills it.
    let mut g = round(vec![pos(5, 5), pos(4, 5), pos(3, 5)]);
    g.npc_snakes.push(npc(vec![pos(3, 3), pos(3, 4), pos(4, 5)]));
    let mut h = round(vec![pos(5, 5), pos(4, 5), pos(3, 5)]);
    h.npc_snakes.push(npc(vec![pos(3, 3), pos(3, 4), pos(4, 5)]));
    h.invincible_until = Some(100);
    g.move_player(0);
    h.move_player(0);
    assert_eq!(g.npc_snakes.len(), 1);
    assert_eq!(h.npc_snakes.len(), 0);
}

#[test]
fn enemy_head_on_player_dies() {
    let mut g = round(vec![pos(5, 5), pos(4, 5), pos(3, 5)]);
    g.npc_snakes.push(npc(vec![pos(8, 8)]));
    g.npc_snakes.push(npc(vec![pos(4, 5), pos(4, 4)]));
    g.npc_snakes.push(npc(vec![pos(3, 5), pos(3, 4)]));
    let (fx, _) = g.move_player(0);
    assert_eq!(g.state, GameState::Playing);
    assert_eq!(g.npc_snakes.len(), 1);
    assert_eq!(g.npc_snakes[0].body, vec![pos(8, 8)]);
    // The later enemy's effect comes first.
    assert_eq!(fx, vec![Effect::NpcDeath { x: 3, y: 5 }, Effect::NpcDeath { x: 4, y: 5 }]);
}

#[test]
fn eating_grows_scores_and_protects() {
    let mut g = round(vec![pos(5, 5), pos(4, 5)]);
    g.food = pos(6, 5);
    g.score = 40;
    g.high_score = 45;
    let (fx, ate) = g.move_player(7000);
    assert!(ate);
    assert_eq!(g.snake, vec![pos(6, 5), pos(5, 5), pos(4, 5)]);
    assert_eq!(g.score, 50);
    assert_eq!(g.high_score, 50);
    assert_eq!(g.score_flash, Some(7000));
    assert_eq!(g.invincible_until, Some(10_000));
    assert_eq!(fx, vec![Effect::FoodBurst { x: 6, y: 5, points: 10 }]);
}

#[test]
fn plain_move_keeps_length() {
    let mut g = round(vec![pos(5, 5), pos(4, 5), pos(3, 5)]);
    let (fx, ate) = g.move_player(0);
    assert!(!ate && fx.is_empty());
    assert_eq!(g.snake, vec![pos(6, 5), pos(5, 5), pos(4, 5)]);
    assert_eq!(g.score, 0);
}

#[test]
fn food_goes_to_the_kth_free_cell() {
    let mut g = round(vec![pos(1, 1), pos(2, 1)]);
    g.npc_snakes.push(npc(vec![pos(4, 1)]));
    assert_eq!(g.count_free_cells(), 18 * 8 - 3);
    g.place_food(0);
    assert_eq!(g.food, pos(3, 1));
    g.place_food(1);
    assert_eq!(g.food, pos(5, 1));
    g.place_food(15);
    assert_eq!(g.food, pos(1, 2));
}

#[test]
fn food_goes_to_the_only_free_cell() {
    let mut g = round(vec![pos(1, 1)]);
    let mut cells = Vec::new();
    for y in 1..9 {
        for x in 1..19 {
            if (x, y) != (1, 1) && (x, y) != (7, 4) {
                cells.push(pos(x, y));
            }
        }
    }
    g.npc_snakes.push(npc(cells));
    assert_eq!(g.count_free_cells(), 1);
    for _ in 0..5 {
        g.food = pos(1, 8);
        assert!(g.spawn_food());
        assert_eq!(g.food, pos(7, 4));
    }
    g.npc_snakes[0].body.push(pos(7, 4));
    g.food = pos(1, 8);
    assert!(!g.spawn_food());
    assert_eq!(g.food, pos(1, 8));
}

#[test]
fn spawned_food_is_free_and_varies() {
    let mut g = round(vec![pos(5, 5), pos(4, 5), pos(3, 5)]);
    g.npc_snakes.push(npc(vec![pos(10, 2), pos(10, 3)]));
    let mut seen = std::collections::HashSet::new();
    for _ in 0..100 {
        assert!(g.spawn_food());
        let f = g.food;
        assert!(f.is_inside(20, 10));
        assert!(!g.snake.contains(&f));
        assert!(!g.npc_snakes[0].body.contains(&f));
        seen.insert((f.x, f.y));
    }
    assert!(seen.len() > 10);
}

#[test]
fn npc_cells_are_collected() {
    let mut g = round(vec![pos(5, 5)]);
    g.npc_snakes.push(npc(vec![pos(1, 1), pos(2, 1)]));
    g.npc_snakes.push(npc(vec![pos(9, 9)]));
    assert_eq!(g.all_npc_bodies(), vec![pos(1, 1), pos(2, 1), pos(9, 9)]);
}

#[test]
fn enemies_move_in_order() {
    let mut g = round(vec![pos(15, 7)]);
    let mut a = npc(vec![pos(5, 5)]);
    a.direction = Direction::Right;
    a.move_counter = 2;
    let mut b = npc(vec![pos(7, 5)]);
    b.direction = Direction::Left;
    b.move_counter = 2;
    g.npc_snakes.push(a);
    g.npc_snakes.push(b);
    let keep = NpcRoll { threshold: 14, chance: 0, dir_index: 0 };
    g.move_npcs_with(&[keep, keep]);
    // The first moves to (6, 5); the second then finds it blocked ahead and turns up.
    assert_eq!(g.npc_snakes[0].body, vec![pos(6, 5)]);
    assert_eq!(g.npc_snakes[1].body, vec![pos(7, 4)]);
    assert_eq!(g.npc_snakes[1].direction, Direction::Up);
}

#[test]
fn update_outside_play_does_nothing() {
    let mut g = round(vec![pos(5, 5), pos(4, 5)]);
    g.state = GameState::Paused;
    let fx = g.update(100_000);
    assert!(fx.is_empty());
    assert_eq!(g.snake, vec![pos(5, 5), pos(4, 5)]);
    assert_eq!(g.npc_spawn_timer, 0);
}

#[test]
fn update_spawns_enemies_on_schedule() {
    let mut g = round(vec![pos(5, 5), pos(4, 5)]);
    g.update(14_999);
    assert_eq!(g.npc_spawn_interval_secs, 15);
    assert_eq!(g.npc_spawn_timer, 0);
    let mut spawned = false;
    for _ in 0..20 {
        let mut h = round(vec![pos(5, 5), pos(4, 5)]);
        h.update(15_000);
        assert_eq!(h.npc_spawn_interval_secs, 14);
        assert_eq!(h.npc_spawn_timer, 15_000);
        assert!(h.npc_snakes.len() <= 1);
        spawned |= h.npc_snakes.len() == 1;
    }
    assert!(spawned);
    let mut full = round(vec![pos(5, 5), pos(4, 5)]);
    full.npc_spawn_interval_secs = 5;
    full.update(5_000);
    assert_eq!(full.npc_spawn_interval_secs, 5);
}

#[test]
fn update_moves_the_player() {
    let mut g = round(vec![pos(5, 5), pos(4, 5)]);
    g.update(10);
    assert_eq!(g.snake[0], pos(6, 5));
    assert_eq!(g.state, GameState::Playing);
}

#[test]
fn update_eats_and_respawns_food() {
    let mut g = round(vec![pos(5, 5), pos(4, 5)]);
    g.food = pos(6, 5);
    let fx = g.update(10);
    assert_eq!(g.score, 10);
    assert_eq!(g.snake.len(), 3);
    assert_ne!(g.food, pos(6, 5));
    assert!(g.food.is_inside(20, 10));
    assert_eq!(fx, vec![Effect::FoodBurst { x: 6, y: 5, points: 10 }]);
}

#[test]
fn resize_below_minimum_is_ignored() {
    let mut g = round(vec![pos(5, 5)]);
    g.handle_resize(19, 30);
    assert_eq!((g.width, g.height), (20, 10));
    g.handle_resize(30, 9);
    assert_eq!((g.width, g.height), (20, 10));
}

#[test]
fn resize_clips_snakes() {
    let mut g = round(vec![pos(18, 5), pos(17, 5), pos(16, 5), pos(15, 5)]);
    g.npc_snakes.push(npc(vec![pos(18, 8), pos(17, 8)]));
    g.npc_snakes.push(npc(vec![pos(2, 2), pos(3, 2)]));
    g.food = pos(3, 3);
    g.handle_resize(20, 10);
    assert_eq!(g.snake.len(), 4);
    g.handle_resize(18, 10);
    assert_eq!((g.width, g.height), (20, 10));
    let mut g2 = round(vec![pos(18, 5), pos(17, 5), pos(16, 5), pos(15, 5)]);
    g2.width = 40;
    g2.height = 20;
    g2.snake = vec![pos(30, 15), pos(29, 15), pos(18, 5), pos(17, 5)];
    g2.npc_snakes.push(npc(vec![pos(35, 15), pos(34, 15)]));
    g2.npc_snakes.push(npc(vec![pos(2, 2), pos(25, 2)]));
    g2.food = pos(3, 3);
    g2.handle_resize(20, 10);
    assert_eq!((g2.width, g2.height), (20, 10));
    assert_eq!(g2.snake, vec![pos(18, 5), pos(17, 5)]);
    assert_eq!(g2.npc_snakes.len(), 2);
    assert_eq!(g2.npc_snakes[0].body, vec![pos(10, 5)]);
    assert_eq!(g2.npc_snakes[1].body, vec![pos(2, 2)]);
    assert_eq!(g2.food, pos(3, 3));
}

#[test]
fn resize_with_no_free_cell_centres_the_food() {
    let mut g = round(vec![pos(1, 1)]);
    g.width = 30;
    g.food = pos(25, 5);
    let mut cells = Vec::new();
    for y in 1..9 {
        for x in 2..19 {
            cells.push(pos(x, y));
        }
        cells.push(pos(1, y + 1));
    }
    g.npc_snakes.push(npc(cells));
    g.handle_resize(20, 10);
    assert_eq!(g.count_free_cells(), 0);
    assert_eq!(g.food, pos(10, 5));
}

#[test]
fn resize_recenters_a_lost_snake_and_moves_food() {
    let mut g = round(vec![pos(5, 5)]);
    g.width = 60;
    g.height = 30;
    g.snake = vec![pos(50, 25), pos(49, 25)];
    g.food = pos(55, 20);
    g.handle_resize(20, 10);
    assert_eq!(g.snake, vec![pos(10, 5)]);
    assert!(g.food.is_inside(20, 10));
    assert_ne!(g.food, pos(10, 5));
}

#[test]
fn resizing_twice_to_the_same_size_changes_nothing() {
    let mut g = round(vec![pos(5, 5)]);
    g.width = 40;
    g.height = 20;
    g.snake = vec![pos(30, 15), pos(29, 15), pos(18, 5), pos(17, 5)];
    g.npc_snakes.push(npc(vec![pos(35, 15), pos(34, 15)]));
    g.food = pos(30, 3);
    g.handle_resize(25, 12);
    let snake = g.snake.clone();
    let bodies: Vec<Vec<Position>> = g.npc_snakes.iter().map(|n| n.body.clone()).collect();
    let food = g.food;
    g.handle_resize(25, 12);
    assert_eq!((g.width, g.height), (25, 12));
    assert_eq!(g.snake, snake);
    assert_eq!(g.npc_snakes.iter().map(|n| n.body.clone()).collect::<Vec<_>>(), bodies);
    assert_eq!(g.food, food);
}
