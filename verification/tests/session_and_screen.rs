use snake_game::game::{Game, GameState};
use snake_game::geometry::{Direction, Key, Position};
use snake_game::npc::NpcSnake;
use snake_game::render::{
    burst_allowed, clock, npc_danger, on_screen, overlay_origin, panel_column, panel_row_visible,
    particle_shade, style_of, text_shade, CellKind, Color, Looks, Shade,
};
use snake_game::session::{game_height, game_width, Control, KeyKind, Session};

fn pos(x: i16, y: i16) -> Position {
    Position { x, y }
}

fn session() -> Session {
    Session::new(80, 30, 1000)
}

fn press(s: &mut Session, c: char, now: u64) -> Control {
    s.on_key(Key::Char(c), false, KeyKind::Press, now)
}

#[test]
fn board_fills_the_terminal() {
    let s = session();
    assert_eq!((s.game_w, s.game_h), (80, 24));
    assert_eq!((s.game.width, s.game.height), (80, 24));
    assert_eq!(s.high_score, 0);
    assert_eq!(game_width(10), 20);
    assert_eq!(game_height(5), 10);
    assert_eq!(game_height(16), 10);
    assert_eq!(game_height(17), 11);
    assert_eq!(game_width(40000), 20);
}

#[test]
fn ctrl_c_quits_from_anywhere() {
    let mut s = session();
    assert_eq!(s.on_key(Key::Char('c'), true, KeyKind::Press, 0), Control::Quit);
    assert_eq!(s.on_key(Key::Char('c'), false, KeyKind::Press, 0), Control::Continue);
}

#[test]
fn pause_and_resume() {
    let mut s = session();
    assert_eq!(press(&mut s, 'p', 2000), Control::Continue);
    assert_eq!(s.game.state, GameState::Paused);
    press(&mut s, 'x', 2500);
    assert_eq!(s.game.state, GameState::Paused);
    press(&mut s, 'P', 3000);
    assert_eq!(s.game.state, GameState::Playing);
    assert_eq!(s.game.last_update_ms, 3000);
}

#[test]
fn help_returns_on_any_press() {
    let mut s = session();
    press(&mut s, 'h', 0);
    assert_eq!(s.game.state, GameState::Help);
    s.on_key(Key::Up, false, KeyKind::Release, 0);
    assert_eq!(s.game.state, GameState::Help);
    s.on_key(Key::Other, false, KeyKind::Press, 0);
    assert_eq!(s.game.state, GameState::Playing);
}

#[test]
fn quit_question() {
    let mut s = session();
    press(&mut s, 'q', 0);
    assert_eq!(s.game.state, GameState::QuitConfirm);
    press(&mut s, 'n', 0);
    assert_eq!(s.game.state, GameState::Playing);
    press(&mut s, 'Q', 0);
    assert_eq!(press(&mut s, 'y', 0), Control::Quit);
    let mut t = session();
    press(&mut t, 'p', 0);
    press(&mut t, 'q', 0);
    assert_eq!(t.game.state, GameState::QuitConfirm);
}

#[test]
fn game_over_keys() {
    let mut s = session();
    s.game.state = GameState::GameOver;
    s.game.score = 30;
    s.game.high_score = 30;
    s.high_score = 30;
    assert_eq!(press(&mut s, 'x', 0), Control::Continue);
    assert_eq!(s.game.state, GameState::GameOver);
    assert_eq!(press(&mut s, 'r', 5000), Control::NewRound);
    assert_eq!(s.game.state, GameState::Playing);
    assert_eq!(s.game.score, 0);
    assert_eq!(s.game.high_score, 30);
    assert_eq!(s.game.start_ms, 5000);
    s.game.state = GameState::GameOver;
    assert_eq!(press(&mut s, 'q', 0), Control::Quit);
}

#[test]
fn restart_while_playing_uses_the_session_best() {
    let mut s = session();
    s.game.score = 50;
    s.game.high_score = 50;
    assert_eq!(press(&mut s, 'R', 10), Control::NewRound);
    assert_eq!(s.game.high_score, 0);
}

#[test]
fn holding_a_direction_speeds_up() {
    let mut s = session();
    s.on_key(Key::Right, false, KeyKind::Press, 100);
    assert_eq!(s.game.direction_held_since, Some(100));
    assert!(!s.game.direction_key_held);
    s.on_key(Key::Right, false, KeyKind::Press, 200);
    assert!(!s.game.direction_key_held);
    s.on_key(Key::Right, false, KeyKind::Press, 250);
    assert!(s.game.direction_key_held);
    s.on_key(Key::Char('w'), false, KeyKind::Press, 300);
    assert_eq!(s.game.direction, Direction::Up);
    assert!(!s.game.direction_key_held);
    assert_eq!(s.game.direction_held_since, None);
    s.on_key(Key::Char('w'), false, KeyKind::Repeat, 320);
    assert!(s.game.direction_key_held);
    s.on_key(Key::Char('w'), false, KeyKind::Release, 400);
    assert_eq!(s.game.direction, Direction::Right);
    assert!(s.game.direction_key_held);
    assert_eq!(s.game.direction_held_since, Some(200));
}

#[test]
fn ticks_step_on_time() {
    let mut s = session();
    s.game.npc_snakes.clear();
    let head = s.game.snake[0];
    s.tick(1100);
    assert_eq!(s.game.snake[0], head);
    s.tick(1150);
    assert_eq!(s.game.snake[0], pos(head.x + 1, head.y));
    assert_eq!(s.game.last_update_ms, 1150);
}

#[test]
fn tick_records_the_best_score_when_the_round_ends() {
    let mut s = session();
    s.game.npc_snakes.clear();
    s.game.snake = vec![pos(78, 5)];
    s.game.score = 20;
    s.game.high_score = 90;
    s.tick(5000);
    assert_eq!(s.game.state, GameState::GameOver);
    assert_eq!(s.high_score, 90);
    let before = s.game.snake.clone();
    s.tick(9000);
    assert_eq!(s.game.snake, before);
}

#[test]
fn resize_updates_board_size() {
    let mut s = session();
    s.on_resize(50, 20);
    assert_eq!((s.game_w, s.game_h), (50, 14));
    assert_eq!((s.game.width, s.game.height), (50, 14));
    s.on_resize(5, 5);
    assert_eq!((s.game_w, s.game_h), (20, 10));
}

fn drawn_round() -> Game {
    let mut g = Session::new(20, 16, 0).game;
    g.snake = vec![pos(5, 5), pos(4, 5)];
    g.npc_snakes = vec![NpcSnake {
        body: vec![pos(8, 2), pos(9, 2)],
        direction: Direction::Left,
        move_counter: 0,
        change_dir_counter: 0,
    }];
    g.food = pos(12, 7);
    g
}

#[test]
fn cells_on_screen() {
    let g = drawn_round();
    assert_eq!(g.cell_kind(0, 0), CellKind::TopLeft);
    assert_eq!(g.cell_kind(19, 0), CellKind::TopRight);
    assert_eq!(g.cell_kind(0, 9), CellKind::BottomLeft);
    assert_eq!(g.cell_kind(19, 9), CellKind::BottomRight);
    assert_eq!(g.cell_kind(7, 0), CellKind::Horizontal);
    assert_eq!(g.cell_kind(0, 4), CellKind::Vertical);
    assert_eq!(g.cell_kind(5, 5), CellKind::PlayerHead);
    assert_eq!(g.cell_kind(4, 5), CellKind::PlayerBody);
    assert_eq!(g.cell_kind(8, 2), CellKind::NpcHead);
    assert_eq!(g.cell_kind(9, 2), CellKind::NpcBody);
    assert_eq!(g.cell_kind(12, 7), CellKind::Food);
    assert_eq!(g.cell_kind(13, 7), CellKind::Empty);
}

#[test]
fn looks_over_time() {
    let mut g = drawn_round();
    g.start_ms = 0;
    g.score_flash = Some(1000);
    g.invincible_until = Some(4000);
    let l = g.looks(1299);
    assert!(l.flash && l.invincible);
    let l = g.looks(1300);
    assert!(!l.flash && l.invincible);
    assert!(g.looks(1399).food_lit);
    assert!(!g.looks(1000).food_lit);
    assert!(!g.looks(1199).food_lit);
    assert!(g.looks(1200).food_lit);
    assert!(!g.looks(1000).blink_on);
    assert!(g.looks(1200).blink_on);
    assert!(!g.looks(4000).invincible);
    assert_eq!(g.invincible_remaining_ms(1500), Some(2500));
    assert_eq!(g.invincible_remaining_ms(4000), None);
}

#[test]
fn cell_styles() {
    let calm = Looks { flash: false, food_lit: true, invincible: false, blink_on: true };
    let flash = Looks { flash: true, ..calm };
    let star = Looks { invincible: true, ..calm };
    let star_off = Looks { invincible: true, blink_on: false, food_lit: false, ..calm };
    assert_eq!(style_of(CellKind::TopLeft, calm), ('╔', Color::Cyan));
    assert_eq!(style_of(CellKind::Horizontal, flash), ('═', Color::Yellow));
    assert_eq!(style_of(CellKind::PlayerHead, calm), ('█', Color::Green));
    assert_eq!(style_of(CellKind::PlayerHead, flash), ('█', Color::White));
    assert_eq!(style_of(CellKind::PlayerHead, star), ('█', Color::Yellow));
    assert_eq!(style_of(CellKind::PlayerHead, star_off), ('█', Color::White));
    assert_eq!(style_of(CellKind::PlayerBody, calm), ('▓', Color::DarkGreen));
    assert_eq!(style_of(CellKind::PlayerBody, star), ('▓', Color::Yellow));
    assert_eq!(style_of(CellKind::PlayerBody, star_off), ('▓', Color::DarkYellow));
    assert_eq!(style_of(CellKind::NpcHead, calm), ('█', Color::Magenta));
    assert_eq!(style_of(CellKind::NpcHead, star_off), ('█', Color::DarkMagenta));
    assert_eq!(style_of(CellKind::NpcBody, calm), ('▒', Color::Red));
    assert_eq!(style_of(CellKind::Food, calm), ('●', Color::Red));
    assert_eq!(style_of(CellKind::Food, star_off), ('●', Color::DarkRed));
    assert_eq!(style_of(CellKind::Empty, calm).0, ' ');
}

#[test]
fn panel_layout() {
    assert_eq!(clock(125_999), (2, 5));
    assert_eq!(clock(0), (0, 0));
    assert!(panel_row_visible(24, 30, 0));
    assert!(panel_row_visible(24, 30, 3));
    assert!(!panel_row_visible(24, 30, 5));
    assert!(!panel_row_visible(24, 25, 0));
    assert!(panel_row_visible(24, 26, 0));
    assert_eq!(panel_column(20, 80), 20);
    assert_eq!(panel_column(60, 40), 39);
    assert_eq!(panel_column(20, 0), 0);
    assert!(!npc_danger(4));
    assert!(npc_danger(5));
}

#[test]
fn overlays_are_centred() {
    assert_eq!(overlay_origin(100, 40, 15), (18, 12));
    assert_eq!(overlay_origin(80, 24, 31), (8, 0));
    assert_eq!(overlay_origin(20, 10, 10), (0, 0));
    assert_eq!(overlay_origin(20, 10, 60000), (0, 0));
}

#[test]
fn effects_fade() {
    assert!(burst_allowed(200));
    assert!(!burst_allowed(201));
    assert_eq!(particle_shade(18, 18), Shade::Full);
    assert_eq!(particle_shade(13, 18), Shade::Full);
    assert_eq!(particle_shade(12, 18), Shade::Faded);
    assert_eq!(particle_shade(7, 18), Shade::Faded);
    assert_eq!(particle_shade(6, 18), Shade::Gone);
    assert_eq!(text_shade(11, 20), Shade::Full);
    assert_eq!(text_shade(10, 20), Shade::Faded);
    assert!(on_screen(0, 0, 80, 24));
    assert!(!on_screen(80, 0, 80, 24));
    assert!(!on_screen(-1, 3, 80, 24));
    assert!(!on_screen(3, 24, 80, 24));
}
