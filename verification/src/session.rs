//! The program's state machine: which round is on, the best score carried
//! between rounds, and how each frame and each key changes them.

use crate::game::{
    fresh_game, pushed, released, resize_step, stepped, Effect, Game, GameModel, GameState, HOLD_THRESHOLD_MS,
};
use crate::geometry::{key_direction, Direction, Key, MIN_GAME_HEIGHT, MIN_GAME_WIDTH};
use vstd::prelude::*;

verus! {

/// Rows of the terminal kept below the board for the information panel.
pub const PANEL_ROWS: i16 = 6;

/// How a key event came about.
#[derive(Clone, Copy, PartialEq, Eq, Debug, Structural)]
pub enum KeyKind {
    Press,
    Repeat,
    Release,
}

/// Whether the program goes on after an event.
#[derive(Clone, Copy, PartialEq, Eq, Debug, Structural)]
pub enum Control {
    Continue,
    /// Goes on with a new round.
    NewRound,
    Quit,
}

/// The running program: the current round, the best score of the rounds
/// that ended, and the board size new rounds get.
pub struct Session {
    pub game: Game,
    pub high_score: u32,
    pub game_w: i16,
    pub game_h: i16,
}

/// The mathematical value of a [`Session`].
pub struct SessionModel {
    pub game: GameModel,
    pub high_score: u32,
    pub game_w: i16,
    pub game_h: i16,
}

impl View for Session {
    type V = SessionModel;

    open spec fn view(&self) -> SessionModel {
        SessionModel {
            game: self.game@,
            high_score: self.high_score,
            game_w: self.game_w,
            game_h: self.game_h,
        }
    }
}

impl SessionModel {
    /// The round is well formed and new rounds fit the minimum board.
    pub open spec fn wf(self) -> bool {
        &&& self.game.wf()
        &&& MIN_GAME_WIDTH <= self.game_w
        &&& MIN_GAME_HEIGHT <= self.game_h
    }
}

/// The board width for a terminal `term_w` columns wide: the whole width,
/// but at least the minimum.
pub open spec fn board_width(term_w: u16) -> i16 {
    let w = term_w as i16;
    if w > MIN_GAME_WIDTH { w } else { MIN_GAME_WIDTH }
}

/// The board height for a terminal `term_h` rows high: all but the panel
/// rows, but at least the minimum.
pub open spec fn board_height(term_h: u16) -> i16 {
    let h = term_h as i16;
    let rest: i16 = if h as int - PANEL_ROWS >= i16::MIN { (h - PANEL_ROWS) as i16 } else { i16::MIN };
    if rest > MIN_GAME_HEIGHT { rest } else { MIN_GAME_HEIGHT }
}

/// The board width for a terminal `term_w` columns wide.
pub fn game_width(term_w: u16) -> (w: i16)
    ensures
        w == board_width(term_w),
        w >= MIN_GAME_WIDTH,
{
    let w = term_w as i16;
    if w > MIN_GAME_WIDTH { w } else { MIN_GAME_WIDTH }
}

/// The board height for a terminal `term_h` rows high.
pub fn game_height(term_h: u16) -> (h: i16)
    ensures
        h == board_height(term_h),
        h >= MIN_GAME_HEIGHT,
{
    let h = term_h as i16;
    let rest: i16 = if h as i32 - PANEL_ROWS as i32 >= i16::MIN as i32 { h - PANEL_ROWS } else { i16::MIN };
    if rest > MIN_GAME_HEIGHT { rest } else { MIN_GAME_HEIGHT }
}

/// `key` is the character `lower` or `upper`.
pub open spec fn is_letter(key: Key, lower: char, upper: char) -> bool {
    key == Key::Char(lower) || key == Key::Char(upper)
}

/// The round after pressing the key of `dir` while playing: pressing the
/// current direction again starts timing the hold, or, once it has lasted
/// 150 ms, turns on the speed-up; pressing another direction ends the
/// speed-up and restarts the timing; then the direction is pushed
/// ([`pushed`]).
pub open spec fn pressed_direction(g: GameModel, dir: Direction, now: u64) -> GameModel {
    let g1 = if dir == g.direction {
        match g.direction_held_since {
            Some(since) => if (if now >= since { now - since } else { 0 }) >= HOLD_THRESHOLD_MS {
                GameModel { direction_key_held: true, ..g }
            } else {
                g
            },
            None => GameModel { direction_held_since: Some(now), ..g },
        }
    } else {
        GameModel { direction_key_held: false, direction_held_since: Some(now), ..g }
    };
    pushed(g1, dir)
}

/// `after` is a new round on the session's board size, carrying the
/// session's best score, begun at `now`.
pub open spec fn restarted(s: SessionModel, after: SessionModel, now: u64) -> bool {
    &&& after.high_score == s.high_score
    &&& after.game_w == s.game_w
    &&& after.game_h == s.game_h
    &&& fresh_game(after.game, s.game_w, s.game_h, s.high_score, now)
}

/// `s` with the round in state `state`.
pub open spec fn in_state(s: SessionModel, state: GameState) -> SessionModel {
    SessionModel { game: GameModel { state: state, ..s.game }, ..s }
}

/// `s` with round `g`.
pub open spec fn with_game(s: SessionModel, g: GameModel) -> SessionModel {
    SessionModel { game: g, ..s }
}

/// What a key event does. Ctrl+C quits from anywhere. While playing,
/// direction keys steer (press, repeat: the speed-up, release), and P
/// pauses, R restarts, H shows help and Q asks before quitting. While
/// paused, releasing a direction key releases it, and P resumes (the step
/// timer restarts), R restarts, H shows help and Q asks before quitting.
/// On the help screen a release of a direction key releases it and any
/// press resumes. After the round ends, R restarts and Q quits. When asked
/// before quitting, Y quits and N resumes. Anything else changes nothing.
/// A new round is reported as [`Control::NewRound`].
pub open spec fn key_step(
    s: SessionModel,
    key: Key,
    ctrl: bool,
    kind: KeyKind,
    now: u64,
    after: SessionModel,
    control: Control,
) -> bool {
    let g = s.game;
    if key == Key::Char('c') && ctrl {
        control == Control::Quit && after == s
    } else {
        match g.state {
            GameState::Playing => match key_direction(key) {
                Some(dir) => control == Control::Continue && after == with_game(
                    s,
                    match kind {
                        KeyKind::Press => pressed_direction(g, dir, now),
                        KeyKind::Repeat => if dir == g.direction {
                            GameModel { direction_key_held: true, ..g }
                        } else {
                            g
                        },
                        KeyKind::Release => released(g, dir, now),
                    },
                ),
                None => if kind == KeyKind::Press && is_letter(key, 'p', 'P') {
                    control == Control::Continue && after == in_state(s, GameState::Paused)
                } else if kind == KeyKind::Press && is_letter(key, 'r', 'R') {
                    control == Control::NewRound && restarted(s, after, now)
                } else if kind == KeyKind::Press && is_letter(key, 'h', 'H') {
                    control == Control::Continue && after == in_state(s, GameState::Help)
                } else if kind == KeyKind::Press && is_letter(key, 'q', 'Q') {
                    control == Control::Continue && after == in_state(s, GameState::QuitConfirm)
                } else {
                    control == Control::Continue && after == s
                },
            },
            GameState::Paused => if kind == KeyKind::Release && key_direction(key) is Some {
                control == Control::Continue && after == with_game(
                    s,
                    released(g, key_direction(key)->0, now),
                )
            } else if kind == KeyKind::Press && is_letter(key, 'p', 'P') {
                control == Control::Continue && after == with_game(
                    s,
                    GameModel { state: GameState::Playing, last_update_ms: now, ..g },
                )
            } else if kind == KeyKind::Press && is_letter(key, 'r', 'R') {
                control == Control::NewRound && restarted(s, after, now)
            } else if kind == KeyKind::Press && is_letter(key, 'h', 'H') {
                control == Control::Continue && after == in_state(s, GameState::Help)
            } else if kind == KeyKind::Press && is_letter(key, 'q', 'Q') {
                control == Control::Continue && after == in_state(s, GameState::QuitConfirm)
            } else {
                control == Control::Continue && after == s
            },
            GameState::Help => control == Control::Continue && if kind == KeyKind::Release
                && key_direction(key) is Some {
                after == with_game(s, released(g, key_direction(key)->0, now))
            } else if kind == KeyKind::Press {
                after == in_state(s, GameState::Playing)
            } else {
                after == s
            },
            GameState::GameOver => if kind == KeyKind::Press && is_letter(key, 'r', 'R') {
                control == Control::NewRound && restarted(s, after, now)
            } else if kind == KeyKind::Press && is_letter(key, 'q', 'Q') {
                control == Control::Quit && after == s
            } else {
                control == Control::Continue && after == s
            },
            GameState::QuitConfirm => if kind == KeyKind::Press && is_letter(key, 'y', 'Y') {
                control == Control::Quit && after == s
            } else if kind == KeyKind::Press && is_letter(key, 'n', 'N') {
                control == Control::Continue && after == in_state(s, GameState::Playing)
            } else {
                control == Control::Continue && after == s
            },
        }
    }
}

/// One frame at time `now`: while playing, the round takes a step when its
/// step time has passed since the last one ([`stepped`]) and the step time
/// restarts at `now`; a round that has just ended leaves its high score as
/// the session's best. In any other state nothing changes.
pub open spec fn tick_step(s: SessionModel, now: u64, after: SessionModel, effects: Seq<Effect>) -> bool {
    let g = s.game;
    if g.state == GameState::Playing {
        let due = (if now >= g.last_update_ms { now - g.last_update_ms } else { 0 }) >= g.speed_ms();
        &&& after.game_w == s.game_w
        &&& after.game_h == s.game_h
        &&& if due {
            exists|g2: GameModel|
                stepped(g, g2, effects, now) && after.game == (GameModel { last_update_ms: now, ..g2 })
        } else {
            after.game == g && effects.len() == 0
        }
        &&& after.high_score == if after.game.state == GameState::GameOver {
            after.game.high_score
        } else {
            s.high_score
        }
    } else {
        after == s && effects.len() == 0
    }
}

impl Session {
    /// The program at start-up for a terminal of `term_w` x `term_h`: a
    /// new round filling the terminal above the panel, best score 0.
    pub fn new(term_w: u16, term_h: u16, now: u64) -> (s: Session)
        ensures
            s@.wf(),
            s.game_w == board_width(term_w),
            s.game_h == board_height(term_h),
            s.high_score == 0,
            fresh_game(s.game@, s.game_w, s.game_h, 0, now),
    {
        let game_w = game_width(term_w);
        let game_h = game_height(term_h);
        Session { game: Game::new(game_w, game_h, 0, now), high_score: 0, game_w, game_h }
    }

    /// One frame at time `now`; see [`tick_step`]. Returns the effects to
    /// show.
    pub fn tick(&mut self, now: u64) -> (effects: Vec<Effect>)
        requires
            old(self)@.wf(),
        ensures
            final(self)@.wf(),
            tick_step(old(self)@, now, final(self)@, effects@),
    {
        if self.game.state != GameState::Playing {
            return Vec::new();
        }
        let elapsed: u64 = if now >= self.game.last_update_ms { now - self.game.last_update_ms } else { 0 };
        let mut effects: Vec<Effect> = Vec::new();
        if elapsed >= self.game.get_speed_ms() {
            effects = self.game.update(now);
            let ghost g2 = self.game@;
            self.game.last_update_ms = now;
            assert(self.game@ == (GameModel { last_update_ms: now, ..g2 }));
        }
        if self.game.state == GameState::GameOver {
            self.high_score = self.game.high_score;
        }
        effects
    }

    /// The terminal now measures `term_w` x `term_h`: the round adapts to
    /// the new board size ([`Game::handle_resize`]) and new rounds get it.
    pub fn on_resize(&mut self, term_w: u16, term_h: u16)
        requires
            old(self)@.wf(),
        ensures
            final(self)@.wf(),
            final(self).game_w == board_width(term_w),
            final(self).game_h == board_height(term_h),
            final(self).high_score == old(self).high_score,
            resize_step(old(self).game@, board_width(term_w), board_height(term_h), final(self).game@),
    {
        let new_w = game_width(term_w);
        let new_h = game_height(term_h);
        self.game.handle_resize(new_w, new_h);
        self.game_w = new_w;
        self.game_h = new_h;
    }

    /// Starts a new round on the session's board size at `now`.
    fn restart(&mut self, now: u64)
        requires
            old(self)@.wf(),
        ensures
            final(self)@.wf(),
            restarted(old(self)@, final(self)@, now),
    {
        self.game = Game::new(self.game_w, self.game_h, self.high_score, now);
    }

    /// A key event at time `now`: `key` with Ctrl held or not, pressed,
    /// repeated or released; see [`key_step`].
    pub fn on_key(&mut self, key: Key, ctrl: bool, kind: KeyKind, now: u64) -> (control: Control)
        requires
            old(self)@.wf(),
        ensures
            final(self)@.wf(),
            key_step(old(self)@, key, ctrl, kind, now, final(self)@, control),
    {
        if key == Key::Char('c') && ctrl {
            return Control::Quit;
        }
        let is_press = kind == KeyKind::Press;
        let dir = Direction::from_key(key);
        match self.game.state {
            GameState::Playing => {
                match dir {
                    Some(d) => {
                        match kind {
                            KeyKind::Press => {
                                if d == self.game.direction {
                                    match self.game.direction_held_since {
                                        Some(since) => {
                                            let held_for: u64 = if now >= since { now - since } else { 0 };
                                            if held_for >= HOLD_THRESHOLD_MS {
                                                self.game.direction_key_held = true;
                                            }
                                        },
                                        None => {
                                            self.game.direction_held_since = Some(now);
                                        },
                                    }
                                } else {
                                    self.game.direction_key_held = false;
                                    self.game.direction_held_since = Some(now);
                                }
                                self.game.push_direction(d);
                            },
                            KeyKind::Repeat => {
                                if d == self.game.direction {
                                    self.game.direction_key_held = true;
                                }
                            },
                            KeyKind::Release => {
                                self.game.release_direction(d, now);
                            },
                        }
                    },
                    None => {
                        if is_press && (key == Key::Char('p') || key == Key::Char('P')) {
                            self.game.state = GameState::Paused;
                        } else if is_press && (key == Key::Char('r') || key == Key::Char('R')) {
                            self.restart(now);
                            return Control::NewRound;
                        } else if is_press && (key == Key::Char('h') || key == Key::Char('H')) {
                            self.game.state = GameState::Help;
                        } else if is_press && (key == Key::Char('q') || key == Key::Char('Q')) {
                            self.game.state = GameState::QuitConfirm;
                        }
                    },
                }
                Control::Continue
            },
            GameState::Paused => {
                if kind == KeyKind::Release && dir.is_some() {
                    self.game.release_direction(dir.unwrap(), now);
                } else if is_press && (key == Key::Char('p') || key == Key::Char('P')) {
                    self.game.state = GameState::Playing;
                    self.game.last_update_ms = now;
                } else if is_press && (key == Key::Char('r') || key == Key::Char('R')) {
                    self.restart(now);
                    return Control::NewRound;
                } else if is_press && (key == Key::Char('h') || key == Key::Char('H')) {
                    self.game.state = GameState::Help;
                } else if is_press && (key == Key::Char('q') || key == Key::Char('Q')) {
                    self.game.state = GameState::QuitConfirm;
                }
                Control::Continue
            },
            GameState::Help => {
                if kind == KeyKind::Release && dir.is_some() {
                    self.game.release_direction(dir.unwrap(), now);
                } else if is_press {
                    self.game.state = GameState::Playing;
                }
                Control::Continue
            },
            GameState::GameOver => {
                if is_press && (key == Key::Char('r') || key == Key::Char('R')) {
                    self.restart(now);
                    Control::NewRound
                } else if is_press && (key == Key::Char('q') || key == Key::Char('Q')) {
                    Control::Quit
                } else {
                    Control::Continue
                }
            },
            GameState::QuitConfirm => {
                if is_press && (key == Key::Char('y') || key == Key::Char('Y')) {
                    Control::Quit
                } else if is_press && (key == Key::Char('n') || key == Key::Char('N')) {
                    self.game.state = GameState::Playing;
                    Control::Continue
                } else {
                    Control::Continue
                }
            },
        }
    }
}

} // verus!
