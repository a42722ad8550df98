//! A round of the game: the player's snake, the food, the enemies, the
//! score and the rules that advance them.

use crate::geometry::{
    all_inside, contains_cell, inside, neighbor, opposite, Direction, Position, MIN_GAME_HEIGHT,
    MIN_GAME_WIDTH,
};
use crate::npc::{
    draw_ok, draw_roll, first_clear, fresh_npc, layout_ok, npc_after, roll_ok, segment, NpcModel, NpcRoll,
    NpcSnake, SpawnDraw, SPAWN_ATTEMPTS,
};
use crate::random::random_in;
use vstd::prelude::*;

verus! {

/// Milliseconds a step takes at the start of a round.
pub const BASE_SPEED_MS: u64 = 150;

/// Most enemy snakes on the board at once.
pub const MAX_NPC_SNAKES: usize = 8;

/// Seconds between enemy spawns at the start of a round.
pub const INITIAL_SPAWN_INTERVAL_SECS: u64 = 15;

/// The shortest interval between enemy spawns, in seconds.
pub const MIN_SPAWN_INTERVAL_SECS: u64 = 5;

/// Points for one piece of food.
pub const FOOD_POINTS: u32 = 10;

/// Milliseconds of invincibility after eating.
pub const INVINCIBLE_MS: u64 = 3000;

/// Milliseconds a key must be held before the 3x speed-up.
pub const HOLD_THRESHOLD_MS: u64 = 150;

/// What the game is showing and reacting to.
#[derive(Clone, Copy, PartialEq, Eq, Debug, Structural)]
pub enum GameState {
    Playing,
    Paused,
    GameOver,
    Help,
    QuitConfirm,
}

/// Why the player's snake died.
#[derive(Clone, Copy, PartialEq, Eq, Debug, Structural)]
pub enum DeathReason {
    Wall,
    SelfBite,
    Enemy,
}

/// Something a step did that the screen shows as an effect.
#[derive(Clone, Copy, PartialEq, Eq, Debug, Structural)]
pub enum Effect {
    /// The player ate the food at (`x`, `y`) and scored `points`.
    FoodBurst { x: i16, y: i16, points: u32 },
    /// An enemy snake whose head was at (`x`, `y`) died.
    NpcDeath { x: i16, y: i16 },
}

/// A round of the game. Times are milliseconds on one monotonic clock.
pub struct Game {
    /// The player's snake; `snake[0]` is its head.
    pub snake: Vec<Position>,
    pub direction: Direction,
    pub food: Position,
    pub score: u32,
    pub high_score: u32,
    pub state: GameState,
    pub width: i16,
    pub height: i16,
    pub start_ms: u64,
    pub last_update_ms: u64,
    pub base_speed_ms: u64,
    /// The direction keys held down, oldest first.
    pub direction_stack: Vec<Direction>,
    /// Whether the key of the current direction is held (3x speed).
    pub direction_key_held: bool,
    pub direction_held_since: Option<u64>,
    /// When the player last ate (the border and score flash for a while).
    pub score_flash: Option<u64>,
    pub npc_snakes: Vec<NpcSnake>,
    /// When the last enemy spawn was attempted.
    pub npc_spawn_timer: u64,
    pub npc_spawn_interval_secs: u64,
    pub max_npc_snakes: usize,
    pub death_reason: Option<DeathReason>,
    /// The player cannot be killed by enemies until this time.
    pub invincible_until: Option<u64>,
}

/// The mathematical value of a [`Game`].
pub struct GameModel {
    pub snake: Seq<Position>,
    pub direction: Direction,
    pub food: Position,
    pub score: u32,
    pub high_score: u32,
    pub state: GameState,
    pub width: i16,
    pub height: i16,
    pub start_ms: u64,
    pub last_update_ms: u64,
    pub base_speed_ms: u64,
    pub direction_stack: Seq<Direction>,
    pub direction_key_held: bool,
    pub direction_held_since: Option<u64>,
    pub score_flash: Option<u64>,
    pub npcs: Seq<NpcModel>,
    pub npc_spawn_timer: u64,
    pub npc_spawn_interval_secs: u64,
    pub max_npc_snakes: usize,
    pub death_reason: Option<DeathReason>,
    pub invincible_until: Option<u64>,
}

/// The values of a sequence of enemy snakes.
pub open spec fn npc_views(v: Seq<NpcSnake>) -> Seq<NpcModel> {
    v.map_values(|n: NpcSnake| n@)
}

impl View for Game {
    type V = GameModel;

    open spec fn view(&self) -> GameModel {
        GameModel {
            snake: self.snake@,
            direction: self.direction,
            food: self.food,
            score: self.score,
            high_score: self.high_score,
            state: self.state,
            width: self.width,
            height: self.height,
            start_ms: self.start_ms,
            last_update_ms: self.last_update_ms,
            base_speed_ms: self.base_speed_ms,
            direction_stack: self.direction_stack@,
            direction_key_held: self.direction_key_held,
            direction_held_since: self.direction_held_since,
            score_flash: self.score_flash,
            npcs: npc_views(self.npc_snakes@),
            npc_spawn_timer: self.npc_spawn_timer,
            npc_spawn_interval_secs: self.npc_spawn_interval_secs,
            max_npc_snakes: self.max_npc_snakes,
            death_reason: self.death_reason,
            invincible_until: self.invincible_until,
        }
    }
}

/// Every cell of every enemy, in order of the enemies.
pub open spec fn cells_of(s: Seq<NpcModel>) -> Seq<Position>
    decreases s.len(),
{
    if s.len() == 0 {
        Seq::empty()
    } else {
        cells_of(s.drop_last()) + s.last().body
    }
}

impl GameModel {
    /// The properties every operation keeps: those of [`wf_except_food`]
    /// and the food inside the border.
    ///
    /// [`wf_except_food`]: GameModel::wf_except_food
    pub open spec fn wf(self) -> bool {
        &&& self.wf_except_food()
        &&& inside(self.food, self.width as int, self.height as int)
    }

    /// A board at least the minimum size, a player snake with a head and
    /// every snake inside the border, no more enemies than allowed, a spawn
    /// interval between 5 and 15 seconds, a high score no lower than the
    /// score, and each direction at most once on the key stack.
    pub open spec fn wf_except_food(self) -> bool {
        &&& MIN_GAME_WIDTH <= self.width
        &&& MIN_GAME_HEIGHT <= self.height
        &&& self.snake.len() >= 1
        &&& all_inside(self.snake, self.width as int, self.height as int)
        &&& forall|i: int|
            0 <= i < self.npcs.len() ==> (#[trigger] self.npcs[i]).wf(
                self.width as int,
                self.height as int,
            )
        &&& self.npcs.len() <= self.max_npc_snakes
        &&& MIN_SPAWN_INTERVAL_SECS <= self.npc_spawn_interval_secs <= INITIAL_SPAWN_INTERVAL_SECS
        &&& self.score <= self.high_score
        &&& self.direction_stack.no_duplicates()
    }

    /// Whether the player is invincible at time `now`.
    pub open spec fn invincible_at(self, now: u64) -> bool {
        match self.invincible_until {
            Some(t) => now < t,
            None => false,
        }
    }

    /// Milliseconds per step: 5 ms less for every 10 points, never below
    /// 50 ms; a third of that, never below 15 ms, while the key of the
    /// current direction is held.
    pub open spec fn speed_ms(self) -> u64 {
        let reduction = (self.score / 10) as u64 * 5;
        let base = if self.base_speed_ms > reduction + 50 {
            (self.base_speed_ms - reduction) as u64
        } else {
            50u64
        };
        if self.direction_key_held {
            if base / 3 > 15 { (base / 3) as u64 } else { 15u64 }
        } else {
            base
        }
    }

    /// The round with the player dead for `reason`.
    pub open spec fn killed(self, reason: DeathReason) -> GameModel {
        GameModel { state: GameState::GameOver, death_reason: Some(reason), ..self }
    }
}

/// The key stack and heading after pressing `new_dir`: a reversal is
/// ignored; otherwise the direction joins the stack unless already on it,
/// becomes the heading, and a change of heading ends the speed-up.
pub open spec fn pushed(g: GameModel, new_dir: Direction) -> GameModel {
    if new_dir == opposite(g.direction) {
        g
    } else {
        let stack = if g.direction_stack.contains(new_dir) {
            g.direction_stack
        } else {
            g.direction_stack.push(new_dir)
        };
        if new_dir != g.direction {
            GameModel {
                direction_stack: stack,
                direction_key_held: false,
                direction_held_since: None,
                direction: new_dir,
                ..g
            }
        } else {
            GameModel { direction_stack: stack, direction: new_dir, ..g }
        }
    }
}

/// `s` without any occurrence of `dir`.
pub open spec fn without(s: Seq<Direction>, dir: Direction) -> Seq<Direction> {
    s.filter(other_than(dir))
}

/// Holds of every direction but `dir`.
pub open spec fn other_than(dir: Direction) -> spec_fn(Direction) -> bool {
    |d: Direction| d != dir
}

/// The key stack and heading after releasing `dir` at time `now`: the
/// direction leaves the stack; the heading falls back to the most recent
/// key still held, which counts as held long enough for the speed-up (since
/// 200 ms before `now`). When that key is the reverse of the heading, or no
/// key is held, the heading stays and the speed-up ends: the snake never
/// turns around.
pub open spec fn released(g: GameModel, dir: Direction, now: u64) -> GameModel {
    let stack = without(g.direction_stack, dir);
    if stack.len() > 0 && stack.last() != opposite(g.direction) {
        GameModel {
            direction_stack: stack,
            direction: stack.last(),
            direction_key_held: true,
            direction_held_since: Some(if now >= 200 { (now - 200) as u64 } else { 0u64 }),
            ..g
        }
    } else {
        GameModel {
            direction_stack: stack,
            direction_key_held: false,
            direction_held_since: None,
            ..g
        }
    }
}

/// Appends `cells` to `out`.
fn append_cells(out: &mut Vec<Position>, cells: &[Position])
    ensures
        final(out)@ == old(out)@ + cells@,
{
    let ghost start = out@;
    let mut i: usize = 0;
    while i < cells.len()
        invariant
            0 <= i <= cells@.len(),
            out@ == start + cells@.take(i as int),
        decreases cells@.len() - i,
    {
        out.push(cells[i]);
        i += 1;
        assert(out@ =~= start + cells@.take(i as int));
    }
    assert(cells@.take(cells@.len() as int) =~= cells@);
}

/// `g` is a round just begun on a `width` x `height` board at time `now`:
/// a three-cell snake in the middle heading right, food at a cell at least
/// two cells from the edge, one freshly placed enemy clear of the snake,
/// score 0, and every counter and timer starting at `now`.
pub open spec fn fresh_game(g: GameModel, width: i16, height: i16, high_score: u32, now: u64) -> bool {
    &&& g.snake == seq![
        Position { x: (width / 2) as i16, y: (height / 2) as i16 },
        Position { x: (width / 2 - 1) as i16, y: (height / 2) as i16 },
        Position { x: (width / 2 - 2) as i16, y: (height / 2) as i16 },
    ]
    &&& g.direction == Direction::Right
    &&& 2 <= g.food.x < width - 2
    &&& 2 <= g.food.y < height - 2
    &&& g.score == 0
    &&& g.high_score == high_score
    &&& g.state == GameState::Playing
    &&& g.width == width
    &&& g.height == height
    &&& g.start_ms == now
    &&& g.last_update_ms == now
    &&& g.base_speed_ms == BASE_SPEED_MS
    &&& g.direction_stack == Seq::<Direction>::empty()
    &&& !g.direction_key_held
    &&& g.direction_held_since == None::<u64>
    &&& g.score_flash == None::<u64>
    &&& g.npcs.len() == 1
    &&& fresh_npc(g.npcs[0], width as int, height as int, 3)
    &&& forall|i: int| 0 <= i < g.npcs[0].body.len() ==> !g.snake.contains(#[trigger] g.npcs[0].body[i])
    &&& g.npc_spawn_timer == now
    &&& g.npc_spawn_interval_secs == INITIAL_SPAWN_INTERVAL_SECS
    &&& g.max_npc_snakes == MAX_NPC_SNAKES
    &&& g.death_reason == None::<DeathReason>
    &&& g.invincible_until == None::<u64>
}

impl Game {
    /// A new round on a `width` x `height` board: a three-cell snake in the
    /// middle heading right, food at a random cell at least two cells from
    /// the edge, one enemy clear of the snake, and every counter and timer
    /// starting at `now`. The enemy is spawned as later enemies are
    /// ([`NpcSnake::new_avoiding`]); should all of its draws land on the
    /// snake, it is a single cell at column 2 of row 2, or of row 3 when the
    /// snake lies on row 2.
    pub fn new(width: i16, height: i16, high_score: u32, now: u64) -> (g: Game)
        requires
            width >= 5,
            height >= 5,
        ensures
            fresh_game(g@, width, height, high_score, now),
            width >= MIN_GAME_WIDTH && height >= MIN_GAME_HEIGHT ==> g@.wf(),
    {
        let cx = width / 2;
        let cy = height / 2;
        let mut snake: Vec<Position> = Vec::new();
        snake.push(Position { x: cx, y: cy });
        snake.push(Position { x: cx - 1, y: cy });
        snake.push(Position { x: cx - 2, y: cy });
        let fx = random_in(2, width as i64 - 2);
        let fy = random_in(2, height as i64 - 2);
        let food = Position { x: fx as i16, y: fy as i16 };
        let initial_length = snake.len();
        let no_cells: Vec<Position> = Vec::new();
        let npc = match NpcSnake::new_avoiding(width, height, snake.as_slice(), no_cells.as_slice(), initial_length) {
            Some(n) => n,
            None => {
                let row: i16 = if cy == 2 { 3 } else { 2 };
                let n = NpcSnake::with_layout(1, 2, row, Direction::Right);
                proof {
                    assert(layout_ok(1, 2, row as int, width as int, height as int, 3));
                    assert(n@.body == segment(1, 2, row));
                    assert(inside(n@.body[0], width as int, height as int));
                    assert(!snake@.contains(n@.body[0])) by {
                        if snake@.contains(n@.body[0]) {
                            let k = choose|k: int| 0 <= k < snake@.len() && snake@[k] == n@.body[0];
                            assert(snake@[k].y == cy);
                        }
                    }
                }
                n
            },
        };
        let mut npc_snakes: Vec<NpcSnake> = Vec::new();
        npc_snakes.push(npc);
        let g = Game {
            snake,
            direction: Direction::Right,
            food,
            score: 0,
            high_score,
            state: GameState::Playing,
            width,
            height,
            start_ms: now,
            last_update_ms: now,
            base_speed_ms: BASE_SPEED_MS,
            direction_stack: Vec::new(),
            direction_key_held: false,
            direction_held_since: None,
            score_flash: None,
            npc_snakes,
            npc_spawn_timer: now,
            npc_spawn_interval_secs: INITIAL_SPAWN_INTERVAL_SECS,
            max_npc_snakes: MAX_NPC_SNAKES,
            death_reason: None,
            invincible_until: None,
        };
        assert(g@.snake =~= seq![
            Position { x: (width / 2) as i16, y: (height / 2) as i16 },
            Position { x: (width / 2 - 1) as i16, y: (height / 2) as i16 },
            Position { x: (width / 2 - 2) as i16, y: (height / 2) as i16 },
        ]);
        assert(g@.npcs[0] == npc@);
        assert(g.direction_stack@ =~= Seq::<Direction>::empty());
        g
    }

    /// Every cell of every enemy snake.
    pub fn all_npc_bodies(&self) -> (r: Vec<Position>)
        ensures
            r@ == cells_of(self@.npcs),
    {
        let ghost views = self@.npcs;
        let mut out: Vec<Position> = Vec::new();
        let mut i: usize = 0;
        while i < self.npc_snakes.len()
            invariant
                0 <= i <= self.npc_snakes@.len(),
                views == npc_views(self.npc_snakes@),
                out@ == cells_of(views.take(i as int)),
            decreases self.npc_snakes@.len() - i,
        {
            append_cells(&mut out, self.npc_snakes[i].body.as_slice());
            proof {
                assert(views.take(i + 1).drop_last() =~= views.take(i as int));
            }
            i += 1;
        }
        assert(views.take(views.len() as int) =~= views);
        out
    }

    /// Milliseconds per step; see [`GameModel::speed_ms`].
    pub fn get_speed_ms(&self) -> (r: u64)
        ensures
            r == self@.speed_ms(),
    {
        let reduction: u64 = (self.score / 10) as u64 * 5;
        let base: u64 = if self.base_speed_ms > reduction + 50 {
            self.base_speed_ms - reduction
        } else {
            50
        };
        if self.direction_key_held {
            if base / 3 > 15 { base / 3 } else { 15 }
        } else {
            base
        }
    }

    /// Presses direction key `new_dir`; see [`pushed`].
    pub fn push_direction(&mut self, new_dir: Direction)
        requires
            old(self)@.wf(),
        ensures
            final(self)@ == pushed(old(self)@, new_dir),
            final(self)@.wf(),
    {
        if new_dir.is_opposite(self.direction) {
            return;
        }
        let held = contains_direction(self.direction_stack.as_slice(), new_dir);
        if !held {
            self.direction_stack.push(new_dir);
        }
        if new_dir != self.direction {
            self.direction_key_held = false;
            self.direction_held_since = None;
        }
        self.direction = new_dir;
    }

    /// Releases direction key `dir` at time `now`; see [`released`].
    pub fn release_direction(&mut self, dir: Direction, now: u64)
        requires
            old(self)@.wf(),
        ensures
            final(self)@ == released(old(self)@, dir, now),
            final(self)@.wf(),
    {
        let ghost before = self.direction_stack@;
        let mut kept: Vec<Direction> = Vec::new();
        let mut i: usize = 0;
        while i < self.direction_stack.len()
            invariant
                0 <= i <= self.direction_stack@.len(),
                before == self.direction_stack@,
                kept@ == without(before.take(i as int), dir),
            decreases self.direction_stack@.len() - i,
        {
            let d = self.direction_stack[i];
            proof {
                reveal_with_fuel(Seq::<_>::filter, 1);
                assert(before.take(i + 1).drop_last() =~= before.take(i as int));
            }
            if d != dir {
                kept.push(d);
            }
            i += 1;
        }
        assert(before.take(before.len() as int) =~= before);
        proof {
            lemma_filter_no_duplicates(before, dir);
        }
        self.direction_stack = kept;
        if self.direction_stack.len() > 0 && !self.direction_stack[self.direction_stack.len() - 1].is_opposite(
            self.direction,
        ) {
            let top = self.direction_stack[self.direction_stack.len() - 1];
            self.direction = top;
            self.direction_key_held = true;
            self.direction_held_since = Some(if now >= 200 { now - 200 } else { 0 });
        } else {
            self.direction_key_held = false;
            self.direction_held_since = None;
        }
    }
}

/// Whether `d` is on the key stack.
fn contains_direction(stack: &[Direction], d: Direction) -> (r: bool)
    ensures
        r == stack@.contains(d),
{
    let mut i: usize = 0;
    while i < stack.len()
        invariant
            0 <= i <= stack@.len(),
            forall|j: int| 0 <= j < i ==> stack@[j] != d,
        decreases stack@.len() - i,
    {
        if stack[i] == d {
            assert(stack@[i as int] == d);
            return true;
        }
        i += 1;
    }
    false
}

/// Removing every occurrence of a direction keeps a stack free of
/// duplicates.
proof fn lemma_filter_no_duplicates(s: Seq<Direction>, dir: Direction)
    requires
        s.no_duplicates(),
    ensures
        without(s, dir).no_duplicates(),
    decreases s.len(),
{
    reveal_with_fuel(Seq::<_>::filter, 1);
    if s.len() > 0 {
        lemma_filter_no_duplicates(s.drop_last(), dir);
        let rest = without(s.drop_last(), dir);
        if s.last() != dir {
            assert(without(s, dir) == rest.push(s.last()));
            assert forall|i: int| 0 <= i < rest.len() implies rest[i] != s.last() by {
                assert(rest.contains(rest[i]));
                s.drop_last().lemma_filter_contains_rev(other_than(dir), rest[i]);
                let k = choose|k: int| 0 <= k < s.drop_last().len() && s.drop_last()[k] == rest[i];
                assert(s[k] == s.drop_last()[k]);
            }
        }
    }
}

/// Whether enemy `n` dies as the player's head enters `new_head` (the
/// player's body before the move is `snake`): its head is on the player,
/// or, while the player is invincible, any of its cells is on the player or
/// on the new head.
pub open spec fn dies(n: NpcModel, snake: Seq<Position>, new_head: Position, invincible: bool) -> bool {
    snake.contains(n.body[0]) || (invincible && exists|k: int|
        0 <= k < n.body.len() && (snake.contains(#[trigger] n.body[k]) || seq![new_head].contains(
            n.body[k],
        )))
}

/// The enemies of `s` that do not die, in their order.
pub open spec fn survivors(s: Seq<NpcModel>, snake: Seq<Position>, new_head: Position, invincible: bool) -> Seq<NpcModel>
    decreases s.len(),
{
    if s.len() == 0 {
        Seq::empty()
    } else {
        (if dies(s[0], snake, new_head, invincible) {
            Seq::empty()
        } else {
            seq![s[0]]
        }) + survivors(s.drop_first(), snake, new_head, invincible)
    }
}

/// One death effect at the head of each enemy of `s` that dies, the last
/// enemy first.
pub open spec fn death_effects(s: Seq<NpcModel>, snake: Seq<Position>, new_head: Position, invincible: bool) -> Seq<Effect>
    decreases s.len(),
{
    if s.len() == 0 {
        Seq::empty()
    } else {
        death_effects(s.drop_first(), snake, new_head, invincible) + (if dies(
            s[0],
            snake,
            new_head,
            invincible,
        ) {
            seq![Effect::NpcDeath { x: s[0].body[0].x, y: s[0].body[0].y }]
        } else {
            Seq::empty()
        })
    }
}

/// The player's move at time `now`: the round after it, the effects it
/// shows, and whether the food was eaten. The head moves one cell ahead.
/// A wall ends the round, then a bite into the player's own body, then
/// (unless invincible) an enemy's body. Otherwise every enemy that [`dies`]
/// is removed; on the food the snake grows by one, scores 10, raises the
/// high score to the score if needed, and is invincible for 3 seconds; else
/// the tail follows.
pub open spec fn player_step(g: GameModel, now: u64) -> (GameModel, Seq<Effect>, bool) {
    let new_head = neighbor(g.snake[0], g.direction);
    if !inside(new_head, g.width as int, g.height as int) {
        (g.killed(DeathReason::Wall), Seq::empty(), false)
    } else if g.snake.contains(new_head) {
        (g.killed(DeathReason::SelfBite), Seq::empty(), false)
    } else {
        let inv = g.invincible_at(now);
        if !inv && cells_of(g.npcs).contains(new_head) {
            (g.killed(DeathReason::Enemy), Seq::empty(), false)
        } else {
            let npcs = survivors(g.npcs, g.snake, new_head, inv);
            let fx = death_effects(g.npcs, g.snake, new_head, inv);
            if new_head == g.food {
                let score: u32 = if g.score as int + 10 <= u32::MAX { (g.score + 10) as u32 } else { u32::MAX };
                (
                    GameModel {
                        snake: seq![new_head] + g.snake,
                        npcs: npcs,
                        score: score,
                        high_score: if score > g.high_score { score } else { g.high_score },
                        score_flash: Some(now),
                        invincible_until: Some(
                            if now as int + 3000 <= u64::MAX { (now + 3000) as u64 } else { u64::MAX },
                        ),
                        ..g
                    },
                    fx.push(Effect::FoodBurst { x: g.food.x, y: g.food.y, points: 10 }),
                    true,
                )
            } else {
                (GameModel { snake: seq![new_head] + g.snake.drop_last(), npcs: npcs, ..g }, fx, false)
            }
        }
    }
}

/// Every enemy that survives is one of the enemies before.
proof fn lemma_survivors_subset(s: Seq<NpcModel>, snake: Seq<Position>, new_head: Position, inv: bool)
    ensures
        survivors(s, snake, new_head, inv).len() <= s.len(),
        forall|i: int|
            0 <= i < survivors(s, snake, new_head, inv).len() ==> s.contains(
                #[trigger] survivors(s, snake, new_head, inv)[i],
            ),
    decreases s.len(),
{
    if s.len() > 0 {
        lemma_survivors_subset(s.drop_first(), snake, new_head, inv);
        let r = survivors(s, snake, new_head, inv);
        let rest = survivors(s.drop_first(), snake, new_head, inv);
        assert forall|i: int| 0 <= i < r.len() implies s.contains(#[trigger] r[i]) by {
            if dies(s[0], snake, new_head, inv) {
                assert(r[i] == rest[i]);
            } else if i == 0 {
                assert(s[0] == r[0]);
            } else {
                assert(r[i] == rest[i - 1]);
            }
            if r[i] != s[0] {
                let k = choose|k: int| 0 <= k < s.drop_first().len() && s.drop_first()[k] == r[i];
                assert(s[k + 1] == r[i]);
            }
        }
    }
}

impl Game {
    /// Whether the enemy at `index` dies as the player's head enters
    /// `new_head`; see [`dies`].
    fn npc_dies(&self, index: usize, new_head: Position, invincible: bool) -> (r: bool)
        requires
            index < self.npc_snakes@.len(),
            self.npc_snakes@[index as int].body@.len() >= 1,
        ensures
            r == dies(self@.npcs[index as int], self.snake@, new_head, invincible),
    {
        let body = self.npc_snakes[index].body.as_slice();
        if contains_cell(self.snake.as_slice(), body[0]) {
            return true;
        }
        if !invincible {
            return false;
        }
        let mut head_only: Vec<Position> = Vec::new();
        head_only.push(new_head);
        crate::npc::overlaps(body, self.snake.as_slice(), head_only.as_slice())
    }

    /// The player's move at time `now`; see [`player_step`]. Returns the
    /// effects to show and whether the food was eaten (new food is then
    /// still to be placed).
    pub fn move_player(&mut self, now: u64) -> (r: (Vec<Effect>, bool))
        requires
            old(self)@.wf(),
        ensures
            final(self)@ == player_step(old(self)@, now).0,
            r.0@ == player_step(old(self)@, now).1,
            r.1 == player_step(old(self)@, now).2,
            final(self)@.wf(),
    {
        let ghost g0 = self@;
        let head = self.snake[0];
        proof {
            assert(inside(g0.snake[0], g0.width as int, g0.height as int));
        }
        let new_head = head.moved(self.direction);
        if !new_head.is_inside(self.width, self.height) {
            self.death_reason = Some(DeathReason::Wall);
            self.state = GameState::GameOver;
            return (Vec::new(), false);
        }
        if contains_cell(self.snake.as_slice(), new_head) {
            self.death_reason = Some(DeathReason::SelfBite);
            self.state = GameState::GameOver;
            return (Vec::new(), false);
        }
        let invincible = match self.invincible_until {
            Some(t) => now < t,
            None => false,
        };
        let npc_cells = self.all_npc_bodies();
        if !invincible && contains_cell(npc_cells.as_slice(), new_head) {
            self.death_reason = Some(DeathReason::Enemy);
            self.state = GameState::GameOver;
            return (Vec::new(), false);
        }
        let ghost views = g0.npcs;
        let ghost snake0 = g0.snake;
        let n = self.npc_snakes.len();
        let mut dead: Vec<bool> = Vec::new();
        let mut i: usize = 0;
        while i < n
            invariant
                0 <= i <= n,
                n == self.npc_snakes@.len(),
                self@ == g0,
                g0.wf(),
                views == g0.npcs,
                snake0 == g0.snake,
                dead@.len() == i,
                forall|k: int| 0 <= k < i ==> dead@[k] == dies(views[k], snake0, new_head, invincible),
            decreases n - i,
        {
            proof {
                assert(views[i as int].wf(g0.width as int, g0.height as int));
            }
            let d = self.npc_dies(i, new_head, invincible);
            dead.push(d);
            i += 1;
        }
        let mut effects: Vec<Effect> = Vec::new();
        let mut npcs: Vec<NpcSnake> = Vec::new();
        std::mem::swap(&mut npcs, &mut self.npc_snakes);
        let mut j: usize = n;
        while j > 0
            invariant
                0 <= j <= n,
                n == views.len(),
                dead@.len() == n,
                forall|k: int| 0 <= k < n ==> dead@[k] == dies(views[k], snake0, new_head, invincible),
                npc_views(npcs@) == views.take(j as int) + survivors(
                    views.skip(j as int),
                    snake0,
                    new_head,
                    invincible,
                ),
                effects@ == death_effects(views.skip(j as int), snake0, new_head, invincible),
                forall|k: int| 0 <= k < n ==> (#[trigger] views[k]).body.len() >= 1,
            decreases j,
        {
            j -= 1;
            proof {
                assert(views.skip(j as int).drop_first() =~= views.skip(j + 1));
                assert(views.skip(j as int)[0] == views[j as int]);
            }
            proof {
                assert(npc_views(npcs@).len() == npcs@.len());
                assert(npc_views(npcs@)[j as int] == views[j as int]);
            }
            if dead[j] {
                let ghost before = npcs@;
                let gone = npcs.remove(j);
                proof {
                    assert(gone@ == views[j as int]);
                    assert(npc_views(npcs@) =~= npc_views(before).remove(j as int));
                    assert(npc_views(npcs@) =~= views.take(j as int) + survivors(
                        views.skip(j as int),
                        snake0,
                        new_head,
                        invincible,
                    ));
                }
                let gone_head = gone.body[0];
                effects.push(Effect::NpcDeath { x: gone_head.x, y: gone_head.y });
            } else {
                proof {
                    assert(views.take(j + 1) =~= views.take(j as int).push(views[j as int]));
                    assert(npc_views(npcs@) =~= views.take(j as int) + survivors(
                        views.skip(j as int),
                        snake0,
                        new_head,
                        invincible,
                    ));
                }
            }
        }
        proof {
            assert(views.skip(0) =~= views);
            assert(views.take(0) =~= Seq::<NpcModel>::empty());
            assert(views.take(0) + survivors(views.skip(0), snake0, new_head, invincible) =~= survivors(
                views,
                snake0,
                new_head,
                invincible,
            ));
            lemma_survivors_subset(views, snake0, new_head, invincible);
        }
        self.npc_snakes = npcs;
        self.snake.insert(0, new_head);
        if new_head == self.food {
            self.score = if self.score <= u32::MAX - 10 { self.score + 10 } else { u32::MAX };
            if self.score > self.high_score {
                self.high_score = self.score;
            }
            effects.push(Effect::FoodBurst { x: self.food.x, y: self.food.y, points: FOOD_POINTS });
            self.score_flash = Some(now);
            self.invincible_until = Some(now.saturating_add(INVINCIBLE_MS));
            proof {
                lemma_grown_inside(snake0, new_head, g0.width as int, g0.height as int);
                assert(self.snake@ =~= seq![new_head] + snake0);
            }
            (effects, true)
        } else {
            self.snake.pop();
            proof {
                lemma_moved_inside(snake0, new_head, g0.width as int, g0.height as int);
                assert(self.snake@ =~= seq![new_head] + snake0.drop_last());
            }
            (effects, false)
        }
    }
}

/// A snake inside the border that grows onto a cell inside the border
/// stays inside it.
proof fn lemma_grown_inside(snake: Seq<Position>, new_head: Position, width: int, height: int)
    requires
        all_inside(snake, width, height),
        inside(new_head, width, height),
    ensures
        all_inside(seq![new_head] + snake, width, height),
{
    let s = seq![new_head] + snake;
    assert forall|i: int| 0 <= i < s.len() implies inside(#[trigger] s[i], width, height) by {
        if i > 0 {
            assert(s[i] == snake[i - 1]);
        }
    }
}

/// A snake inside the border that moves onto a cell inside the border
/// stays inside it.
proof fn lemma_moved_inside(snake: Seq<Position>, new_head: Position, width: int, height: int)
    requires
        all_inside(snake, width, height),
        snake.len() >= 1,
        inside(new_head, width, height),
    ensures
        all_inside(seq![new_head] + snake.drop_last(), width, height),
{
    let s = seq![new_head] + snake.drop_last();
    assert forall|i: int| 0 <= i < s.len() implies inside(#[trigger] s[i], width, height) by {
        if i > 0 {
            assert(s[i] == snake[i - 1]);
        }
    }
}

/// The `j`-th cell inside the border of a board `width` columns wide,
/// counting row by row from the top-left.
pub open spec fn interior_cell(j: int, width: int) -> Position {
    Position { x: (1 + j % (width - 2)) as i16, y: (1 + j / (width - 2)) as i16 }
}

/// The number of cells inside the border.
pub open spec fn interior_count(width: int, height: int) -> int {
    (width - 2) * (height - 2)
}

/// `p` can take the food: inside the border and on no snake.
pub open spec fn is_free(g: GameModel, p: Position) -> bool {
    inside(p, g.width as int, g.height as int) && !g.snake.contains(p) && !cells_of(g.npcs).contains(p)
}

/// How many of the first `j` cells inside the border can take the food.
pub open spec fn free_before(g: GameModel, j: int) -> nat
    decreases j,
{
    if j <= 0 {
        0
    } else {
        free_before(g, j - 1) + (if is_free(g, interior_cell(j - 1, g.width as int)) {
            1nat
        } else {
            0nat
        })
    }
}

/// How many cells can take the food.
pub open spec fn free_count(g: GameModel) -> nat {
    free_before(g, interior_count(g.width as int, g.height as int))
}

/// The cell of index `j` lies inside the border.
proof fn lemma_interior_cell(j: int, width: int, height: int)
    requires
        3 <= width <= i16::MAX,
        3 <= height <= i16::MAX,
        0 <= j < interior_count(width, height),
    ensures
        0 <= j % (width - 2) < width - 2,
        0 <= j / (width - 2) < height - 2,
        inside(interior_cell(j, width), width, height),
{
    let c = width - 2;
    let r = height - 2;
    assert(0 <= j % c < c) by (nonlinear_arith)
        requires
            c > 0,
            j >= 0,
    ;
    assert(0 <= j / c < r) by (nonlinear_arith)
        requires
            c > 0,
            0 <= j < c * r,
    ;
}

/// The cell of index `j` inside the border.
fn interior_cell_at(j: u64, width: i16, height: i16) -> (p: Position)
    requires
        3 <= width,
        3 <= height,
        j < interior_count(width as int, height as int),
    ensures
        p == interior_cell(j as int, width as int),
        inside(p, width as int, height as int),
{
    proof {
        lemma_interior_cell(j as int, width as int, height as int);
    }
    let cols: u64 = (width - 2) as u64;
    Position { x: (1 + j % cols) as i16, y: (1 + j / cols) as i16 }
}

/// The number of cells inside the border, as a machine integer.
fn interior_total(width: i16, height: i16) -> (n: u64)
    requires
        3 <= width,
        3 <= height,
    ensures
        n == interior_count(width as int, height as int),
        n <= 32767 * 32767,
{
    let cols: u64 = (width - 2) as u64;
    let rows: u64 = (height - 2) as u64;
    assert(cols * rows <= 32767 * 32767) by (nonlinear_arith)
        requires
            cols <= 32767,
            rows <= 32767,
    ;
    cols * rows
}

impl Game {
    /// Whether `p` can take the food; `npc_cells` are the enemies' cells.
    fn cell_is_free(&self, p: Position, npc_cells: &[Position]) -> (r: bool)
        requires
            npc_cells@ == cells_of(self@.npcs),
        ensures
            r == is_free(self@, p),
    {
        p.is_inside(self.width, self.height) && !contains_cell(self.snake.as_slice(), p)
            && !contains_cell(npc_cells, p)
    }

    /// How many cells can take the food.
    pub fn count_free_cells(&self) -> (n: u64)
        requires
            self@.wf_except_food(),
        ensures
            n == free_count(self@),
            n <= 32767 * 32767,
    {
        let npc_cells = self.all_npc_bodies();
        let total = interior_total(self.width, self.height);
        let mut count: u64 = 0;
        let mut j: u64 = 0;
        while j < total
            invariant
                self@.wf_except_food(),
                total == interior_count(self.width as int, self.height as int),
                npc_cells@ == cells_of(self@.npcs),
                0 <= j <= total,
                count == free_before(self@, j as int),
                count <= j,
                total <= 32767 * 32767,
            decreases total - j,
        {
            let p = interior_cell_at(j, self.width, self.height);
            if self.cell_is_free(p, npc_cells.as_slice()) {
                count += 1;
            }
            j += 1;
        }
        count
    }

    /// Puts the food on the free cell that has `k` free cells before it,
    /// counting row by row from the top-left.
    pub fn place_food(&mut self, k: u64)
        requires
            old(self)@.wf_except_food(),
            k < free_count(old(self)@),
        ensures
            exists|j: int|
                0 <= j < interior_count(old(self).width as int, old(self).height as int)
                    && free_before(old(self)@, j) == k && is_free(
                    old(self)@,
                    interior_cell(j, old(self).width as int),
                ) && final(self)@ == (GameModel {
                    food: interior_cell(j, old(self).width as int),
                    ..old(self)@
                }),
            is_free(final(self)@, final(self).food),
            final(self)@.wf(),
            final(self)@.wf_except_food(),
    {
        let npc_cells = self.all_npc_bodies();
        let total = interior_total(self.width, self.height);
        let mut count: u64 = 0;
        let mut j: u64 = 0;
        while j < total
            invariant
                self@.wf_except_food(),
                total == interior_count(self.width as int, self.height as int),
                npc_cells@ == cells_of(self@.npcs),
                k < free_before(self@, total as int),
                self@ == old(self)@,
                0 <= j <= total,
                count == free_before(self@, j as int),
                count <= k,
            decreases total - j,
        {
            let p = interior_cell_at(j, self.width, self.height);
            if self.cell_is_free(p, npc_cells.as_slice()) {
                if count == k {
                    let ghost g0 = self@;
                    self.food = p;
                    proof {
                        assert(self@ == (GameModel { food: interior_cell(j as int, g0.width as int), ..g0 }));
                        assert(is_free(self@, self.food));
                        assert(0 <= j < interior_count(g0.width as int, g0.height as int)
                            && free_before(g0, j as int) == k && is_free(
                            g0,
                            interior_cell(j as int, g0.width as int),
                        ) && self@ == (GameModel { food: interior_cell(j as int, g0.width as int), ..g0 }));
                    }
                    return;
                }
                count += 1;
            }
            j += 1;
        }
        proof {
            assert(false);
        }
    }

    /// Puts the food on a random free cell, each free cell equally likely;
    /// `false`, with nothing changed, when no cell is free.
    pub fn spawn_food(&mut self) -> (placed: bool)
        requires
            old(self)@.wf_except_food(),
        ensures
            placed == (free_count(old(self)@) > 0),
            placed ==> is_free(final(self)@, final(self).food) && final(self)@ == (GameModel {
                food: final(self).food,
                ..old(self)@
            }),
            !placed ==> final(self)@ == old(self)@,
            placed ==> final(self)@.wf(),
            final(self)@.wf_except_food(),
    {
        let n = self.count_free_cells();
        if n == 0 {
            return false;
        }
        let k = random_in(0, n as i64);
        self.place_food(k as u64);
        true
    }
}

/// The cells of every enemy of `s` but the one at index `i`.
pub open spec fn others_of(s: Seq<NpcModel>, i: int) -> Seq<Position> {
    cells_of(s.take(i)) + cells_of(s.skip(i + 1))
}

/// The enemies after the first `i` of them have taken their frame, one
/// after the other, the one at index `k` with `rolls[k]`; each sees the
/// player's body, the food and the cells of every other enemy as they are
/// at its turn.
pub open spec fn npcs_moved(g: GameModel, rolls: Seq<NpcRoll>, i: int) -> Seq<NpcModel>
    decreases i,
{
    if i <= 0 {
        g.npcs
    } else {
        let prev = npcs_moved(g, rolls, i - 1);
        prev.update(
            i - 1,
            npc_after(
                prev[i - 1],
                g.width as int,
                g.height as int,
                g.snake,
                others_of(prev, i - 1),
                g.food,
                rolls[i - 1],
            ),
        )
    }
}

/// Whether an enemy spawn is due at `now`: fewer enemies than allowed and
/// the spawn interval has passed since the last attempt.
pub open spec fn spawn_due(g: GameModel, now: u64) -> bool {
    &&& g.npcs.len() < g.max_npc_snakes
    &&& (if now >= g.npc_spawn_timer { now - g.npc_spawn_timer } else { 0 }) >= g.npc_spawn_interval_secs
        * 1000
}

/// `after` is `g` after an enemy spawn at `now`: when due, the timer
/// restarts at `now`, the interval shrinks by a second down to 5, and the
/// enemy of the first of 30 spawn draws whose placement touches neither the
/// player nor any enemy joins the end of the list (none when no draw's
/// does); when not due, nothing changes.
pub open spec fn spawned(g: GameModel, after: GameModel, now: u64) -> bool {
    if spawn_due(g, now) {
        let interval = if g.npc_spawn_interval_secs > 5 {
            (g.npc_spawn_interval_secs - 1) as u64
        } else {
            g.npc_spawn_interval_secs
        };
        exists|draws: Seq<SpawnDraw>|
            #![trigger first_clear(draws, g.width as int, g.snake, cells_of(g.npcs))]
            {
                &&& draws.len() == SPAWN_ATTEMPTS
                &&& forall|k: int|
                    0 <= k < draws.len() ==> draw_ok(
                        #[trigger] draws[k],
                        g.width as int,
                        g.height as int,
                        g.snake.len() as int,
                    )
                &&& after == (GameModel {
                    npcs: match first_clear(draws, g.width as int, g.snake, cells_of(g.npcs)) {
                        Some(n) => g.npcs.push(n),
                        None => g.npcs,
                    },
                    npc_spawn_timer: now,
                    npc_spawn_interval_secs: interval,
                    ..g
                })
            }
    } else {
        after == g
    }
}

/// `after` is `g` with the food moved to a random free cell, or `g` itself
/// when no cell is free.
pub open spec fn food_respawned(g: GameModel, after: GameModel) -> bool {
    if free_count(g) > 0 {
        is_free(after, after.food) && after == (GameModel { food: after.food, ..g })
    } else {
        after == g
    }
}

/// The enemies' cells (what [`Game::all_npc_bodies`] returns) hold a cell
/// exactly when some enemy's body does.
pub proof fn law_npc_cells_are_members(s: Seq<NpcModel>, p: Position)
    ensures
        cells_of(s).contains(p) <==> exists|i: int| 0 <= i < s.len() && (#[trigger] s[i]).body.contains(p),
    decreases s.len(),
{
    if s.len() > 0 {
        law_npc_cells_are_members(s.drop_last(), p);
        let a = cells_of(s.drop_last());
        let b = s.last().body;
        if cells_of(s).contains(p) {
            let k = choose|k: int| 0 <= k < cells_of(s).len() && cells_of(s)[k] == p;
            if k < a.len() {
                assert(a[k] == p);
                let i = choose|i: int| 0 <= i < s.drop_last().len() && (#[trigger] s.drop_last()[i]).body.contains(p);
                assert(s[i] == s.drop_last()[i]);
            } else {
                assert(b[k - a.len()] == p);
                assert(s[s.len() - 1].body.contains(p));
            }
        }
        if exists|i: int| 0 <= i < s.len() && (#[trigger] s[i]).body.contains(p) {
            let i = choose|i: int| 0 <= i < s.len() && (#[trigger] s[i]).body.contains(p);
            if i < s.len() - 1 {
                assert(s.drop_last()[i] == s[i]);
                let k = choose|k: int| 0 <= k < a.len() && a[k] == p;
                assert(cells_of(s)[k] == p);
            } else {
                let k = choose|k: int| 0 <= k < b.len() && b[k] == p;
                assert(cells_of(s)[a.len() + k] == p);
            }
        }
    }
}

/// The cells of every enemy but the one at index `i`.
fn cells_except(npcs: &Vec<NpcSnake>, i: usize) -> (r: Vec<Position>)
    requires
        i < npcs@.len(),
    ensures
        r@ == others_of(npc_views(npcs@), i as int),
{
    let ghost views = npc_views(npcs@);
    let mut out: Vec<Position> = Vec::new();
    let mut j: usize = 0;
    while j < i
        invariant
            0 <= j <= i < npcs@.len(),
            views == npc_views(npcs@),
            out@ == cells_of(views.take(j as int)),
        decreases i - j,
    {
        append_cells(&mut out, npcs[j].body.as_slice());
        proof {
            assert(views.take(j + 1).drop_last() =~= views.take(j as int));
        }
        j += 1;
    }
    let len = npcs.len();
    let mut j: usize = i + 1;
    while j < len
        invariant
            i < j <= npcs@.len(),
            len == npcs@.len(),
            views == npc_views(npcs@),
            out@ == cells_of(views.take(i as int)) + cells_of(views.subrange(i + 1, j as int)),
        decreases len - j,
    {
        append_cells(&mut out, npcs[j].body.as_slice());
        proof {
            assert(views.subrange(i + 1, j + 1).drop_last() =~= views.subrange(i + 1, j as int));
            assert(out@ =~= cells_of(views.take(i as int)) + cells_of(views.subrange(i + 1, j + 1)));
        }
        j += 1;
    }
    assert(views.subrange(i + 1, views.len() as int) =~= views.skip(i + 1));
    out
}

/// `after` and `effects` are one step of `g` at time `now`: when the round
/// is being played, an enemy spawn ([`spawned`]), then every enemy's frame
/// with some chance outcomes ([`npcs_moved`]), then the player's move
/// ([`player_step`]), whose effects are shown, and new food on a random free
/// cell when it was eaten ([`food_respawned`]); in any other state nothing.
pub open spec fn stepped(g: GameModel, after: GameModel, effects: Seq<Effect>, now: u64) -> bool {
    if g.state != GameState::Playing {
        after == g && effects.len() == 0
    } else {
        exists|s: GameModel, rolls: Seq<NpcRoll>|
            #![trigger spawned(g, s, now), npcs_moved(s, rolls, rolls.len() as int)]
            {
                &&& spawned(g, s, now)
                &&& rolls.len() == s.npcs.len()
                &&& forall|k: int| 0 <= k < rolls.len() ==> roll_ok(#[trigger] rolls[k])
                &&& {
                    let moved = GameModel { npcs: npcs_moved(s, rolls, rolls.len() as int), ..s };
                    let step = player_step(moved, now);
                    &&& effects == step.1
                    &&& step.2 ==> food_respawned(step.0, after)
                    &&& !step.2 ==> after == step.0
                }
            }
    }
}

impl Game {
    /// Every enemy takes its frame, in order, the one at index `k` with
    /// `rolls[k]`; see [`npcs_moved`].
    pub fn move_npcs_with(&mut self, rolls: &[NpcRoll])
        requires
            old(self)@.wf(),
            rolls@.len() == old(self).npc_snakes@.len(),
            forall|k: int| 0 <= k < rolls@.len() ==> roll_ok(#[trigger] rolls@[k]),
        ensures
            final(self)@ == (GameModel {
                npcs: npcs_moved(old(self)@, rolls@, rolls@.len() as int),
                ..old(self)@
            }),
            final(self)@.wf(),
    {
        let ghost g0 = self@;
        let mut npcs: Vec<NpcSnake> = Vec::new();
        std::mem::swap(&mut npcs, &mut self.npc_snakes);
        let n = npcs.len();
        let food = self.food;
        let mut i: usize = 0;
        while i < n
            invariant
                0 <= i <= n,
                n == npcs@.len(),
                n == rolls@.len(),
                forall|k: int| 0 <= k < rolls@.len() ==> roll_ok(#[trigger] rolls@[k]),
                g0.wf(),
                self.snake@ == g0.snake,
                self.width == g0.width,
                self.height == g0.height,
                food == g0.food,
                npc_views(npcs@) == npcs_moved(g0, rolls@, i as int),
                forall|k: int|
                    0 <= k < n ==> (#[trigger] npc_views(npcs@)[k]).wf(g0.width as int, g0.height as int),
            decreases n - i,
        {
            let others = cells_except(&npcs, i);
            let ghost prev = npc_views(npcs@);
            let mut current = npcs.remove(i);
            proof {
                assert(current@ == prev[i as int]);
                assert(current@.wf(g0.width as int, g0.height as int));
            }
            current.update_with(
                self.width,
                self.height,
                self.snake.as_slice(),
                others.as_slice(),
                food,
                rolls[i],
            );
            npcs.insert(i, current);
            proof {
                assert(npc_views(npcs@) =~= prev.update(
                    i as int,
                    npc_after(
                        prev[i as int],
                        g0.width as int,
                        g0.height as int,
                        g0.snake,
                        others_of(prev, i as int),
                        g0.food,
                        rolls@[i as int],
                    ),
                ));
            }
            i += 1;
        }
        self.npc_snakes = npcs;
        proof {
            assert forall|k: int| 0 <= k < self@.npcs.len() implies (#[trigger] self@.npcs[k]).wf(
                self.width as int,
                self.height as int,
            ) by {
                assert(npc_views(self.npc_snakes@)[k].wf(g0.width as int, g0.height as int));
            }
        }
    }

    /// Every enemy takes its frame with freshly drawn chance outcomes.
    pub fn move_npcs(&mut self)
        requires
            old(self)@.wf(),
        ensures
            exists|rolls: Seq<NpcRoll>|
                #![trigger npcs_moved(old(self)@, rolls, rolls.len() as int)]
                {
                    &&& rolls.len() == old(self)@.npcs.len()
                    &&& forall|k: int| 0 <= k < rolls.len() ==> roll_ok(#[trigger] rolls[k])
                    &&& final(self)@ == (GameModel {
                        npcs: npcs_moved(old(self)@, rolls, rolls.len() as int),
                        ..old(self)@
                    })
                },
            final(self)@.wf(),
    {
        let mut rolls: Vec<NpcRoll> = Vec::new();
        let mut i: usize = 0;
        while i < self.npc_snakes.len()
            invariant
                0 <= i <= self.npc_snakes@.len(),
                rolls@.len() == i,
                forall|k: int| 0 <= k < rolls@.len() ==> roll_ok(#[trigger] rolls@[k]),
            decreases self.npc_snakes@.len() - i,
        {
            rolls.push(draw_roll());
            i += 1;
        }
        self.move_npcs_with(rolls.as_slice());
    }

    /// Spawns an enemy when one is due at `now`; see [`spawned`].
    pub fn spawn_npc_if_due(&mut self, now: u64)
        requires
            old(self)@.wf(),
        ensures
            spawned(old(self)@, final(self)@, now),
            final(self)@.wf(),
    {
        let elapsed: u64 = if now >= self.npc_spawn_timer { now - self.npc_spawn_timer } else { 0 };
        if self.npc_snakes.len() < self.max_npc_snakes && elapsed >= self.npc_spawn_interval_secs * 1000 {
            let ghost g0 = self@;
            let npc_cells = self.all_npc_bodies();
            let candidate = NpcSnake::new_avoiding(
                self.width,
                self.height,
                self.snake.as_slice(),
                npc_cells.as_slice(),
                self.snake.len(),
            );
            let ghost draws = choose|draws: Seq<SpawnDraw>|
                #![trigger first_clear(draws, g0.width as int, g0.snake, cells_of(g0.npcs))]
                {
                    &&& draws.len() == SPAWN_ATTEMPTS
                    &&& forall|k: int|
                        0 <= k < draws.len() ==> draw_ok(
                            #[trigger] draws[k],
                            g0.width as int,
                            g0.height as int,
                            g0.snake.len() as int,
                        )
                    &&& match candidate {
                        Some(n) => first_clear(draws, g0.width as int, g0.snake, cells_of(g0.npcs)) == Some(n@),
                        None => first_clear(draws, g0.width as int, g0.snake, cells_of(g0.npcs)) is None,
                    }
                };
            match candidate {
                Some(n) => {
                    let ghost nv = n@;
                    self.npc_snakes.push(n);
                    proof {
                        assert(self@.npcs =~= g0.npcs.push(nv));
                    }
                },
                None => {},
            }
            self.npc_spawn_timer = now;
            if self.npc_spawn_interval_secs > 5 {
                self.npc_spawn_interval_secs = self.npc_spawn_interval_secs - 1;
            }
            proof {
                let interval = if g0.npc_spawn_interval_secs > 5 {
                    (g0.npc_spawn_interval_secs - 1) as u64
                } else {
                    g0.npc_spawn_interval_secs
                };
                assert(self@ == (GameModel {
                    npcs: match first_clear(draws, g0.width as int, g0.snake, cells_of(g0.npcs)) {
                        Some(n) => g0.npcs.push(n),
                        None => g0.npcs,
                    },
                    npc_spawn_timer: now,
                    npc_spawn_interval_secs: interval,
                    ..g0
                }));
            }
        }
    }

    /// One step of the round at time `now`, when it is being played: an
    /// enemy spawns if due, every enemy takes its frame, the player moves,
    /// and eaten food reappears on a random free cell. Returns the effects
    /// to show. In any other state nothing changes.
    pub fn update(&mut self, now: u64) -> (effects: Vec<Effect>)
        requires
            old(self)@.wf(),
        ensures
            final(self)@.wf(),
            stepped(old(self)@, final(self)@, effects@, now),
    {
        if self.state != GameState::Playing {
            return Vec::new();
        }
        self.spawn_npc_if_due(now);
        let ghost s = self@;
        self.move_npcs();
        let ghost moved = self@;
        let (effects, ate) = self.move_player(now);
        let ghost stepped = self@;
        if ate {
            self.spawn_food();
        }
        proof {
            let rolls = choose|rolls: Seq<NpcRoll>|
                #![trigger npcs_moved(s, rolls, rolls.len() as int)]
                {
                    &&& rolls.len() == s.npcs.len()
                    &&& forall|k: int| 0 <= k < rolls.len() ==> roll_ok(#[trigger] rolls[k])
                    &&& moved == (GameModel { npcs: npcs_moved(s, rolls, rolls.len() as int), ..s })
                };
            assert(spawned(old(self)@, s, now));
        }
        effects
    }
}

/// Holds of the cells inside the border of a `width` x `height` board.
pub open spec fn inside_of(width: int, height: int) -> spec_fn(Position) -> bool {
    |p: Position| inside(p, width, height)
}

/// The cells of `cells` inside the border, in order; the centre cell alone
/// when none is.
pub open spec fn clipped(cells: Seq<Position>, width: i16, height: i16) -> Seq<Position> {
    let kept = cells.filter(inside_of(width as int, height as int));
    if kept.len() == 0 {
        seq![Position { x: (width / 2) as i16, y: (height / 2) as i16 }]
    } else {
        kept
    }
}

/// The round on a board resized to `width` x `height`, before any new food:
/// a size below the minimum is ignored; otherwise every snake loses the
/// cells outside the new border, and a snake left with none is put back as
/// a single cell in the centre.
pub open spec fn resized(g: GameModel, width: i16, height: i16) -> GameModel {
    if width < MIN_GAME_WIDTH || height < MIN_GAME_HEIGHT {
        g
    } else {
        GameModel {
            width: width,
            height: height,
            snake: clipped(g.snake, width, height),
            npcs: Seq::new(
                g.npcs.len(),
                |i: int| NpcModel { body: clipped(g.npcs[i].body, width, height), ..g.npcs[i] },
            ),
            ..g
        }
    }
}

/// `after` is `g` adapted to a board of `width` x `height`: a size below
/// the minimum changes nothing; otherwise the round is [`resized`], and
/// food left outside the new border moves to a random free cell
/// ([`food_respawned`]), or to the centre cell when no cell is free.
pub open spec fn resize_step(g: GameModel, width: i16, height: i16, after: GameModel) -> bool {
    let r = resized(g, width, height);
    if width < MIN_GAME_WIDTH || height < MIN_GAME_HEIGHT {
        after == g
    } else if inside(r.food, width as int, height as int) {
        after == r
    } else if free_count(r) > 0 {
        food_respawned(r, after)
    } else {
        after == (GameModel { food: Position { x: (width / 2) as i16, y: (height / 2) as i16 }, ..r })
    }
}

/// The cells of `cells` inside the border; the centre cell alone when none
/// is.
fn clip_cells(cells: &[Position], width: i16, height: i16) -> (r: Vec<Position>)
    requires
        MIN_GAME_WIDTH <= width,
        MIN_GAME_HEIGHT <= height,
    ensures
        r@ == clipped(cells@, width, height),
        r@.len() >= 1,
        all_inside(r@, width as int, height as int),
{
    let mut kept: Vec<Position> = Vec::new();
    let mut i: usize = 0;
    while i < cells.len()
        invariant
            0 <= i <= cells@.len(),
            kept@ == cells@.take(i as int).filter(inside_of(width as int, height as int)),
        decreases cells@.len() - i,
    {
        let p = cells[i];
        proof {
            reveal_with_fuel(Seq::<_>::filter, 1);
            assert(cells@.take(i + 1).drop_last() =~= cells@.take(i as int));
        }
        if p.is_inside(width, height) {
            kept.push(p);
        }
        i += 1;
    }
    assert(cells@.take(cells@.len() as int) =~= cells@);
    if kept.len() == 0 {
        kept.push(Position { x: width / 2, y: height / 2 });
    } else {
        proof {
            broadcast use vstd::seq_lib::group_filter_ensures;

            assert forall|k: int| 0 <= k < kept@.len() implies inside(
                #[trigger] kept@[k],
                width as int,
                height as int,
            ) by {
                cells@.lemma_filter_pred(inside_of(width as int, height as int), k);
            }
        }
    }
    kept
}

impl Game {
    /// Adapts the round to a board of `new_w` x `new_h`; see [`resized`].
    /// Food left outside the new border moves to a random free cell.
    pub fn handle_resize(&mut self, new_w: i16, new_h: i16)
        requires
            old(self)@.wf(),
        ensures
            final(self)@.wf(),
            resize_step(old(self)@, new_w, new_h, final(self)@),
    {
        if new_w < MIN_GAME_WIDTH || new_h < MIN_GAME_HEIGHT {
            return;
        }
        let ghost g0 = self@;
        self.width = new_w;
        self.height = new_h;
        let snake = clip_cells(self.snake.as_slice(), new_w, new_h);
        self.snake = snake;
        let mut npcs: Vec<NpcSnake> = Vec::new();
        std::mem::swap(&mut npcs, &mut self.npc_snakes);
        let n = npcs.len();
        let mut i: usize = 0;
        while i < n
            invariant
                0 <= i <= n,
                n == npcs@.len(),
                n == g0.npcs.len(),
                MIN_GAME_WIDTH <= new_w,
                MIN_GAME_HEIGHT <= new_h,
                g0.wf(),
                forall|k: int|
                    0 <= k < i ==> #[trigger] npc_views(npcs@)[k] == (NpcModel {
                        body: clipped(g0.npcs[k].body, new_w, new_h),
                        ..g0.npcs[k]
                    }),
                forall|k: int| i <= k < n ==> #[trigger] npc_views(npcs@)[k] == g0.npcs[k],
                forall|k: int|
                    0 <= k < i ==> (#[trigger] npc_views(npcs@)[k]).wf(new_w as int, new_h as int),
            decreases n - i,
        {
            let ghost prev = npcs@;
            let mut current = npcs.remove(i);
            proof {
                assert(current@ == npc_views(prev)[i as int]);
            }
            let body = clip_cells(current.body.as_slice(), new_w, new_h);
            current.body = body;
            proof {
                assert(g0.npcs[i as int].wf(g0.width as int, g0.height as int));
            }
            npcs.insert(i, current);
            proof {
                assert forall|k: int| 0 <= k < n implies #[trigger] npc_views(npcs@)[k] == (if k == i {
                    current@
                } else {
                    npc_views(prev)[k]
                }) by {
                    if k < i {
                        assert(npcs@[k] == prev[k]);
                    } else if k > i {
                        assert(npcs@[k] == prev[k]);
                    }
                }
            }
            i += 1;
        }
        self.npc_snakes = npcs;
        proof {
            let r = resized(g0, new_w, new_h);
            assert(self@.npcs =~= r.npcs);
            assert(self@ == (GameModel { food: g0.food, ..r }));
            assert forall|k: int| 0 <= k < self@.npcs.len() implies (#[trigger] self@.npcs[k]).wf(
                new_w as int,
                new_h as int,
            ) by {
                assert(npc_views(self.npc_snakes@)[k].wf(new_w as int, new_h as int));
            }
        }
        if !self.food.is_inside(self.width, self.height) {
            if !self.spawn_food() {
                self.food = Position { x: self.width / 2, y: self.height / 2 };
            }
        }
    }
}

} // verus!
