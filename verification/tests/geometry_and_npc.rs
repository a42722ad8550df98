use snake_game::geometry::{contains_cell, Direction, Key, Position};
use snake_game::npc::{overlaps, NpcRoll, NpcSnake, SpawnDraw};

fn pos(x: i16, y: i16) -> Position {
    Position { x, y }
}

fn npc(body: Vec<Position>, direction: Direction, move_counter: u8, change_dir_counter: u8) -> NpcSnake {
    NpcSnake { body, direction, move_counter, change_dir_counter }
}

const KEEP: NpcRoll = NpcRoll { threshold: 14, chance: 0, dir_index: 0 };

#[test]
fn opposite_pairs() {
    assert!(Direction::Up.is_opposite(Direction::Down));
    assert!(Direction::Down.is_opposite(Direction::Up));
    assert!(Direction::Left.is_opposite(Direction::Right));
    assert!(Direction::Right.is_opposite(Direction::Left));
    assert!(!Direction::Up.is_opposite(Direction::Up));
    assert!(!Direction::Up.is_opposite(Direction::Left));
    assert!(!Direction::Right.is_opposite(Direction::Down));
}

#[test]
fn keys_map_to_directions() {
    assert_eq!(Direction::from_key(Key::Up), Some(Direction::Up));
    assert_eq!(Direction::from_key(Key::Down), Some(Direction::Down));
    assert_eq!(Direction::from_key(Key::Left), Some(Direction::Left));
    assert_eq!(Direction::from_key(Key::Right), Some(Direction::Right));
    assert_eq!(Direction::from_key(Key::Char('w')), Some(Direction::Up));
    assert_eq!(Direction::from_key(Key::Char('W')), Some(Direction::Up));
    assert_eq!(Direction::from_key(Key::Char('s')), Some(Direction::Down));
    assert_eq!(Direction::from_key(Key::Char('S')), Some(Direction::Down));
    assert_eq!(Direction::from_key(Key::Char('a')), Some(Direction::Left));
    assert_eq!(Direction::from_key(Key::Char('A')), Some(Direction::Left));
    assert_eq!(Direction::from_key(Key::Char('d')), Some(Direction::Right));
    assert_eq!(Direction::from_key(Key::Char('D')), Some(Direction::Right));
    assert_eq!(Direction::from_key(Key::Char('p')), None);
    assert_eq!(Direction::from_key(Key::Other), None);
}

#[test]
fn moving_and_inside() {
    let p = pos(5, 5);
    assert_eq!(p.moved(Direction::Up), pos(5, 4));
    assert_eq!(p.moved(Direction::Down), pos(5, 6));
    assert_eq!(p.moved(Direction::Left), pos(4, 5));
    assert_eq!(p.moved(Direction::Right), pos(6, 5));
    for d in [Direction::Up, Direction::Down, Direction::Left, Direction::Right] {
        let back = [Direction::Down, Direction::Up, Direction::Right, Direction::Left]
            .into_iter()
            .find(|b| d.is_opposite(*b))
            .unwrap();
        assert_eq!(p.moved(d).moved(back), p);
        assert_ne!(p.moved(d), p);
    }
    assert!(pos(1, 1).is_inside(20, 10));
    assert!(pos(18, 8).is_inside(20, 10));
    assert!(!pos(0, 5).is_inside(20, 10));
    assert!(!pos(19, 5).is_inside(20, 10));
    assert!(!pos(5, 9).is_inside(20, 10));
    assert_eq!(Direction::at(0), Direction::Up);
    assert_eq!(Direction::at(3), Direction::Right);
    assert!(contains_cell(&[pos(1, 2), pos(3, 4)], pos(3, 4)));
    assert!(!contains_cell(&[pos(1, 2), pos(3, 4)], pos(4, 3)));
}

#[test]
fn layout_is_a_run_to_the_left() {
    let n = NpcSnake::with_layout(3, 10, 5, Direction::Right);
    assert_eq!(n.body, vec![pos(10, 5), pos(9, 5), pos(8, 5)]);
    assert_eq!(n.direction, Direction::Right);
    assert_eq!(n.move_counter, 0);
    assert_eq!(n.change_dir_counter, 0);
}

#[test]
fn overlap_detection() {
    let body = [pos(3, 3), pos(4, 3)];
    assert!(overlaps(&body, &[pos(4, 3)], &[]));
    assert!(overlaps(&body, &[], &[pos(3, 3)]));
    assert!(!overlaps(&body, &[pos(5, 3)], &[pos(3, 4)]));
}

#[test]
fn npc_waits_two_frames_in_three() {
    let mut n = npc(vec![pos(5, 5), pos(4, 5)], Direction::Right, 0, 0);
    n.update_with(20, 10, &[], &[], pos(1, 1), KEEP);
    assert_eq!(n.body, vec![pos(5, 5), pos(4, 5)]);
    assert_eq!((n.move_counter, n.change_dir_counter), (1, 1));
    n.update_with(20, 10, &[], &[], pos(1, 1), KEEP);
    assert_eq!(n.body, vec![pos(5, 5), pos(4, 5)]);
    n.update_with(20, 10, &[], &[], pos(1, 1), KEEP);
    assert_eq!(n.body, vec![pos(6, 5), pos(5, 5)]);
    assert_eq!((n.move_counter, n.change_dir_counter), (0, 3));
}

#[test]
fn npc_heads_for_food_when_reconsidering() {
    // The counter reaches the threshold: with chance below 7 it turns towards the food.
    let mut n = npc(vec![pos(5, 5), pos(4, 5)], Direction::Right, 2, 4);
    let roll = NpcRoll { threshold: 5, chance: 3, dir_index: 0 };
    n.update_with(20, 10, &[], &[], pos(6, 1), roll);
    assert_eq!(n.direction, Direction::Up);
    assert_eq!(n.body, vec![pos(5, 4), pos(5, 5)]);
    assert_eq!(n.change_dir_counter, 0);
}

#[test]
fn npc_never_reverses_when_reconsidering() {
    // Food lies behind; the preferred direction is the reverse, so the heading stays.
    let mut n = npc(vec![pos(5, 5), pos(4, 5)], Direction::Right, 2, 4);
    let roll = NpcRoll { threshold: 5, chance: 0, dir_index: 0 };
    n.update_with(20, 10, &[], &[], pos(1, 5), roll);
    assert_eq!(n.direction, Direction::Right);
    assert_eq!(n.body[0], pos(6, 5));
}

#[test]
fn npc_random_turn() {
    let mut n = npc(vec![pos(5, 5)], Direction::Right, 2, 9);
    let roll = NpcRoll { threshold: 10, chance: 8, dir_index: 1 };
    n.update_with(20, 10, &[], &[], pos(1, 1), roll);
    assert_eq!(n.direction, Direction::Down);
    assert_eq!(n.body, vec![pos(5, 6)]);
}

#[test]
fn npc_detours_around_the_wall() {
    // Heading right into the right border: Up is the first open detour.
    let mut n = npc(vec![pos(18, 5), pos(17, 5)], Direction::Right, 2, 0);
    n.update_with(20, 10, &[], &[], pos(1, 1), KEEP);
    assert_eq!(n.direction, Direction::Up);
    assert_eq!(n.body, vec![pos(18, 4), pos(18, 5)]);
}

#[test]
fn npc_detour_skips_blocked_cells() {
    // Ahead is the player, above is another enemy: Down is taken.
    let mut n = npc(vec![pos(5, 5), pos(4, 5)], Direction::Right, 2, 0);
    n.update_with(20, 10, &[pos(6, 5)], &[pos(5, 4)], pos(1, 1), KEEP);
    assert_eq!(n.direction, Direction::Down);
    assert_eq!(n.body, vec![pos(5, 6), pos(5, 5)]);
}

#[test]
fn npc_stays_when_trapped() {
    let mut n = npc(vec![pos(1, 1), pos(2, 1)], Direction::Left, 2, 0);
    n.update_with(20, 10, &[pos(1, 2)], &[], pos(9, 9), KEEP);
    assert_eq!(n.body, vec![pos(1, 1), pos(2, 1)]);
    assert_eq!(n.move_counter, 0);
}

#[test]
fn npc_grows_on_food() {
    let mut n = npc(vec![pos(5, 5), pos(4, 5)], Direction::Right, 2, 0);
    n.update_with(20, 10, &[], &[], pos(6, 5), KEEP);
    assert_eq!(n.body, vec![pos(6, 5), pos(5, 5), pos(5, 5)]);
}

#[test]
fn npc_random_frames_stay_inside() {
    let mut n = npc(vec![pos(5, 5), pos(4, 5), pos(3, 5)], Direction::Right, 0, 0);
    for _ in 0..300 {
        n.update(20, 10, &[], &[], pos(10, 5));
        assert!(n.body.iter().all(|p| p.is_inside(20, 10)));
        assert!(n.move_counter <= 2);
    }
}

#[test]
fn new_npc_placement_ranges() {
    let mut lengths = std::collections::HashSet::new();
    for _ in 0..200 {
        let n = NpcSnake::new(30, 12, 5);
        let len = n.body.len();
        assert!(1 <= len && len <= 5);
        lengths.insert(len);
        let head = n.body[0];
        assert!(head.x >= len as i16 + 1 && head.x < 29);
        assert!(head.y >= 2 && head.y < 11);
        assert!(n.body.iter().all(|p| p.is_inside(30, 12) && p.y == head.y));
        assert_eq!((n.move_counter, n.change_dir_counter), (0, 0));
    }
    assert!(lengths.len() > 1);
}

#[test]
fn new_npc_length_is_cut_to_the_board() {
    for _ in 0..50 {
        let n = NpcSnake::new(8, 10, 50);
        assert!(n.body.len() <= 4);
    }
}

#[test]
fn avoiding_spawn_avoids_or_gives_up() {
    let player = vec![pos(10, 5), pos(9, 5), pos(8, 5)];
    for _ in 0..50 {
        if let Some(n) = NpcSnake::new_avoiding(30, 12, &player, &[pos(20, 3)], 3) {
            assert!(n.body.iter().all(|p| !player.contains(p) && *p != pos(20, 3)));
        }
    }
    let mut all = Vec::new();
    for y in 1..9 {
        for x in 1..19 {
            all.push(pos(x, y));
        }
    }
    assert!(NpcSnake::new_avoiding(20, 10, &[], &all, 3).is_none());
}

#[test]
fn avoiding_spawn_succeeds_on_a_clear_board() {
    for _ in 0..50 {
        let n = NpcSnake::new_avoiding(20, 10, &[], &[], 3).unwrap();
        assert!(n.body.iter().all(|p| p.is_inside(20, 10)));
    }
}

#[test]
fn spawn_draws_place_enemies() {
    assert_eq!(NpcSnake::spawn_length(3, 20), 3);
    assert_eq!(NpcSnake::spawn_length(30, 20), 16);
    let n = NpcSnake::from_draw(8, SpawnDraw { length: 9, x: 6, y: 3, dir_index: 1 });
    assert_eq!(n.body, vec![pos(6, 3), pos(5, 3), pos(4, 3), pos(3, 3)]);
    assert_eq!(n.direction, Direction::Down);
}

#[test]
fn first_clear_draw_wins() {
    let player = [pos(10, 5), pos(9, 5)];
    let draws = [
        SpawnDraw { length: 2, x: 10, y: 5, dir_index: 0 },
        SpawnDraw { length: 2, x: 4, y: 3, dir_index: 2 },
        SpawnDraw { length: 1, x: 7, y: 7, dir_index: 3 },
    ];
    let n = NpcSnake::new_avoiding_with(20, 10, &player, &[pos(3, 3)], 2, &draws).unwrap();
    assert_eq!(n.body, vec![pos(7, 7)]);
    assert_eq!(n.direction, Direction::Right);
    assert!(NpcSnake::new_avoiding_with(20, 10, &player, &[pos(7, 7), pos(4, 3)], 2, &draws).is_none());
    assert!(NpcSnake::new_avoiding_with(20, 10, &player, &[], 2, &[]).is_none());
}
