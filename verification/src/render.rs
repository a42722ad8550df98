//! What the screen shows: which glyph and colour each board cell gets, the
//! flashing and blinking over time, where the panel rows and overlays go,
//! and how effects fade.

use crate::game::{Game, GameModel};
use crate::geometry::Position;
use vstd::prelude::*;

verus! {

/// Milliseconds the border, head and score flash after eating.
pub const FLASH_MS: u64 = 300;

/// The food blinks with this period, in milliseconds ...
pub const FOOD_BLINK_PERIOD_MS: u64 = 600;

/// ... and is lit for this many milliseconds of each period.
pub const FOOD_LIT_MS: u64 = 400;

/// The invincible snake alternates colours every this many milliseconds.
pub const INVINCIBLE_BLINK_MS: u64 = 200;

/// Width of the help, game-over and quit overlays, in columns.
pub const OVERLAY_WIDTH: i16 = 64;

/// At this many enemies the panel warns of danger.
pub const DANGER_NPC_COUNT: usize = 5;

/// Most effect particles alive before new bursts are skipped.
pub const MAX_PARTICLES: usize = 200;

/// The colours the game draws with.
#[derive(Clone, Copy, PartialEq, Eq, Debug, Structural)]
pub enum Color {
    Red,
    DarkRed,
    Green,
    DarkGreen,
    Yellow,
    DarkYellow,
    Magenta,
    DarkMagenta,
    Cyan,
    White,
    DarkGrey,
}

/// What a board cell holds on screen.
#[derive(Clone, Copy, PartialEq, Eq, Debug, Structural)]
pub enum CellKind {
    TopLeft,
    TopRight,
    BottomLeft,
    BottomRight,
    Horizontal,
    Vertical,
    PlayerHead,
    PlayerBody,
    NpcHead,
    NpcBody,
    Food,
    Empty,
}

/// How far an effect has faded.
#[derive(Clone, Copy, PartialEq, Eq, Debug, Structural)]
pub enum Shade {
    /// In its own colour.
    Full,
    /// In dark yellow.
    Faded,
    /// A blank.
    Gone,
}

/// The time-dependent looks of a frame.
#[derive(Clone, Copy, PartialEq, Eq, Debug, Structural)]
pub struct Looks {
    /// The player ate within the last 300 ms.
    pub flash: bool,
    /// The food (and the enemies' heads) are in the lit part of the blink.
    pub food_lit: bool,
    /// The player is invincible.
    pub invincible: bool,
    /// The invincible snake is in the yellow half of its blink.
    pub blink_on: bool,
}

/// The milliseconds from `since` to `now`, zero when `now` is earlier.
pub open spec fn since(now: u64, since: u64) -> u64 {
    if now >= since { (now - since) as u64 } else { 0 }
}

/// The looks of round `g` at time `now`.
pub open spec fn looks_at(g: GameModel, now: u64) -> Looks {
    Looks {
        flash: match g.score_flash {
            Some(t) => since(now, t) < FLASH_MS,
            None => false,
        },
        food_lit: since(now, g.start_ms) % FOOD_BLINK_PERIOD_MS < FOOD_LIT_MS,
        invincible: g.invincible_at(now),
        blink_on: (since(now, g.start_ms) / INVINCIBLE_BLINK_MS) % 2 == 0,
    }
}

/// What cell (`x`, `y`) of round `g` holds: the border around the edge;
/// inside it, the player's head, then the player's body, then an enemy's
/// head, then an enemy's body, then the food, each hiding those after it.
pub open spec fn cell_kind(g: GameModel, x: i16, y: i16) -> CellKind {
    let p = Position { x: x, y: y };
    if y == 0 {
        if x == 0 {
            CellKind::TopLeft
        } else if x == g.width - 1 {
            CellKind::TopRight
        } else {
            CellKind::Horizontal
        }
    } else if y == g.height - 1 {
        if x == 0 {
            CellKind::BottomLeft
        } else if x == g.width - 1 {
            CellKind::BottomRight
        } else {
            CellKind::Horizontal
        }
    } else if x == 0 || x == g.width - 1 {
        CellKind::Vertical
    } else if g.snake.len() > 0 && g.snake[0] == p {
        CellKind::PlayerHead
    } else if g.snake.skip(1).contains(p) {
        CellKind::PlayerBody
    } else if exists|i: int| 0 <= i < g.npcs.len() && (#[trigger] g.npcs[i]).body.len() > 0 && g.npcs[i].body[0] == p {
        CellKind::NpcHead
    } else if exists|i: int| 0 <= i < g.npcs.len() && (#[trigger] g.npcs[i]).body.skip(1).contains(p) {
        CellKind::NpcBody
    } else if g.food == p {
        CellKind::Food
    } else {
        CellKind::Empty
    }
}

/// The glyph and colour of a cell holding `kind` with looks `l`. The
/// border is cyan, yellow while flashing. The player's head is green, white
/// while flashing, and blinks yellow and white while invincible; its body
/// is dark green and blinks yellow and dark yellow while invincible. Enemy
/// heads are magenta, dark magenta while the food is unlit; enemy bodies
/// are red. The food is red, dark red while unlit.
pub open spec fn cell_style(kind: CellKind, l: Looks) -> (char, Color) {
    let border = if l.flash { Color::Yellow } else { Color::Cyan };
    match kind {
        CellKind::TopLeft => ('╔', border),
        CellKind::TopRight => ('╗', border),
        CellKind::BottomLeft => ('╚', border),
        CellKind::BottomRight => ('╝', border),
        CellKind::Horizontal => ('═', border),
        CellKind::Vertical => ('║', border),
        CellKind::PlayerHead => ('█', if l.flash {
            Color::White
        } else if l.invincible {
            if l.blink_on { Color::Yellow } else { Color::White }
        } else {
            Color::Green
        }),
        CellKind::PlayerBody => ('▓', if l.invincible {
            if l.blink_on { Color::Yellow } else { Color::DarkYellow }
        } else {
            Color::DarkGreen
        }),
        CellKind::NpcHead => ('█', if l.food_lit { Color::Magenta } else { Color::DarkMagenta }),
        CellKind::NpcBody => ('▒', Color::Red),
        CellKind::Food => ('●', if l.food_lit { Color::Red } else { Color::DarkRed }),
        CellKind::Empty => (' ', Color::White),
    }
}

/// Whether the enemy at index `i` has its head at `p`.
fn npc_head_at(g: &Game, i: usize, p: Position) -> (r: bool)
    requires
        i < g.npc_snakes@.len(),
    ensures
        r == (g@.npcs[i as int].body.len() > 0 && g@.npcs[i as int].body[0] == p),
{
    let body = g.npc_snakes[i].body.as_slice();
    body.len() > 0 && body[0] == p
}

/// Whether the enemy at index `i` has a cell other than its head at `p`.
fn npc_body_at(g: &Game, i: usize, p: Position) -> (r: bool)
    requires
        i < g.npc_snakes@.len(),
        g@.npcs[i as int].body.len() >= 1,
    ensures
        r == g@.npcs[i as int].body.skip(1).contains(p),
{
    let body = g.npc_snakes[i].body.as_slice();
    let mut k: usize = 1;
    while k < body.len()
        invariant
            1 <= k <= body@.len(),
            body@ == g@.npcs[i as int].body,
            forall|j: int| 1 <= j < k && j < body@.len() ==> body@[j] != p,
        decreases body@.len() - k,
    {
        if body[k] == p {
            assert(body@.skip(1)[k - 1] == p);
            return true;
        }
        k += 1;
    }
    proof {
        assert forall|j: int| 0 <= j < body@.skip(1).len() implies body@.skip(1)[j] != p by {
            assert(body@.skip(1)[j] == body@[j + 1]);
        }
    }
    false
}

/// Whether `p` is a cell of the player other than its head.
fn player_body_at(g: &Game, p: Position) -> (r: bool)
    requires
        g@.snake.len() >= 1,
    ensures
        r == g@.snake.skip(1).contains(p),
{
    let body = g.snake.as_slice();
    let mut k: usize = 1;
    while k < body.len()
        invariant
            1 <= k <= body@.len(),
            body@ == g@.snake,
            forall|j: int| 1 <= j < k && j < body@.len() ==> body@[j] != p,
        decreases body@.len() - k,
    {
        if body[k] == p {
            assert(body@.skip(1)[k - 1] == p);
            return true;
        }
        k += 1;
    }
    proof {
        assert forall|j: int| 0 <= j < body@.skip(1).len() implies body@.skip(1)[j] != p by {
            assert(body@.skip(1)[j] == body@[j + 1]);
        }
    }
    false
}

impl Game {
    /// The looks of this round at time `now`; see [`looks_at`].
    pub fn looks(&self, now: u64) -> (l: Looks)
        ensures
            l == looks_at(self@, now),
    {
        let flash = match self.score_flash {
            Some(t) => {
                let e: u64 = if now >= t { now - t } else { 0 };
                e < FLASH_MS
            },
            None => false,
        };
        let elapsed: u64 = if now >= self.start_ms { now - self.start_ms } else { 0 };
        let invincible = match self.invincible_until {
            Some(t) => now < t,
            None => false,
        };
        Looks {
            flash,
            food_lit: elapsed % FOOD_BLINK_PERIOD_MS < FOOD_LIT_MS,
            invincible,
            blink_on: (elapsed / INVINCIBLE_BLINK_MS) % 2 == 0,
        }
    }

    /// What cell (`x`, `y`) holds; see [`cell_kind`].
    #[verifier::loop_isolation(false)]
    pub fn cell_kind(&self, x: i16, y: i16) -> (k: CellKind)
        requires
            self@.wf(),
        ensures
            k == cell_kind(self@, x, y),
    {
        let p = Position { x, y };
        let right: i32 = self.width as i32 - 1;
        let bottom: i32 = self.height as i32 - 1;
        if y == 0 {
            return if x == 0 {
                CellKind::TopLeft
            } else if x as i32 == right {
                CellKind::TopRight
            } else {
                CellKind::Horizontal
            };
        }
        if y as i32 == bottom {
            return if x == 0 {
                CellKind::BottomLeft
            } else if x as i32 == right {
                CellKind::BottomRight
            } else {
                CellKind::Horizontal
            };
        }
        if x == 0 || x as i32 == right {
            return CellKind::Vertical;
        }
        if self.snake.len() > 0 && self.snake[0] == p {
            return CellKind::PlayerHead;
        }
        if player_body_at(self, p) {
            return CellKind::PlayerBody;
        }
        let n = self.npc_snakes.len();
        let mut i: usize = 0;
        while i < n
            invariant
                0 <= i <= n,
                n == self@.npcs.len(),
                forall|j: int|
                    0 <= j < i ==> !((#[trigger] self@.npcs[j]).body.len() > 0 && self@.npcs[j].body[0] == p),
            decreases n - i,
        {
            if npc_head_at(self, i, p) {
                assert(0 <= i < self@.npcs.len() && self@.npcs[i as int].body.len() > 0
                    && self@.npcs[i as int].body[0] == p);
                return CellKind::NpcHead;
            }
            i += 1;
        }
        let mut i: usize = 0;
        while i < n
            invariant
                0 <= i <= n,
                n == self@.npcs.len(),
                self@.wf(),
                forall|j: int| 0 <= j < n ==> !((#[trigger] self@.npcs[j]).body.len() > 0 && self@.npcs[j].body[0] == p),
                forall|j: int| 0 <= j < i ==> !(#[trigger] self@.npcs[j]).body.skip(1).contains(p),
            decreases n - i,
        {
            proof {
                assert(self@.npcs[i as int].wf(self.width as int, self.height as int));
            }
            if npc_body_at(self, i, p) {
                assert(0 <= i < self@.npcs.len() && self@.npcs[i as int].body.skip(1).contains(p));
                return CellKind::NpcBody;
            }
            i += 1;
        }
        if self.food == p {
            CellKind::Food
        } else {
            CellKind::Empty
        }
    }

    /// Milliseconds of invincibility left at `now`, if any.
    pub fn invincible_remaining_ms(&self, now: u64) -> (r: Option<u64>)
        ensures
            r == (match self.invincible_until {
                Some(t) => if now < t { Some((t - now) as u64) } else { None },
                None => None,
            }),
    {
        match self.invincible_until {
            Some(t) => if now < t { Some(t - now) } else { None },
            None => None,
        }
    }
}

/// The glyph and colour of a cell; see [`cell_style`].
pub fn style_of(kind: CellKind, l: Looks) -> (r: (char, Color))
    ensures
        r == cell_style(kind, l),
{
    let border = if l.flash { Color::Yellow } else { Color::Cyan };
    match kind {
        CellKind::TopLeft => ('╔', border),
        CellKind::TopRight => ('╗', border),
        CellKind::BottomLeft => ('╚', border),
        CellKind::BottomRight => ('╝', border),
        CellKind::Horizontal => ('═', border),
        CellKind::Vertical => ('║', border),
        CellKind::PlayerHead => ('█', if l.flash {
            Color::White
        } else if l.invincible {
            if l.blink_on { Color::Yellow } else { Color::White }
        } else {
            Color::Green
        }),
        CellKind::PlayerBody => ('▓', if l.invincible {
            if l.blink_on { Color::Yellow } else { Color::DarkYellow }
        } else {
            Color::DarkGreen
        }),
        CellKind::NpcHead => ('█', if l.food_lit { Color::Magenta } else { Color::DarkMagenta }),
        CellKind::NpcBody => ('▒', Color::Red),
        CellKind::Food => ('●', if l.food_lit { Color::Red } else { Color::DarkRed }),
        CellKind::Empty => (' ', Color::White),
    }
}

/// The minutes and seconds of `elapsed_ms` milliseconds of play.
pub fn clock(elapsed_ms: u64) -> (r: (u64, u64))
    ensures
        r.0 == elapsed_ms / 1000 / 60,
        r.1 == elapsed_ms / 1000 % 60,
        r.1 < 60,
{
    let secs = elapsed_ms / 1000;
    (secs / 60, secs % 60)
}

/// Whether panel row `row` (0 for the first row under the board) fits on a
/// terminal `term_h` rows high under a board `height` rows high.
pub fn panel_row_visible(height: i16, term_h: u16, row: u16) -> (r: bool)
    ensures
        r == ((height as u16) as int + 1 + row <= (if term_h >= 1 { term_h - 1 } else { 0 })),
{
    let info_y: u32 = (height as u16) as u32 + 1 + row as u32;
    let max_y: u32 = if term_h >= 1 { (term_h - 1) as u32 } else { 0 };
    info_y <= max_y
}

/// The column of a panel field meant for column `col`, pulled left onto a
/// terminal `term_w` columns wide.
pub fn panel_column(col: u16, term_w: u16) -> (r: u16)
    ensures
        r == (if col < (if term_w >= 1 { term_w - 1 } else { 0 }) {
            col as int
        } else {
            (if term_w >= 1 { term_w - 1 } else { 0 }) as int
        }),
{
    let last: u16 = if term_w >= 1 { term_w - 1 } else { 0 };
    if col < last { col } else { last }
}

/// Whether the panel warns of danger with `npc_count` enemies.
pub fn npc_danger(npc_count: usize) -> (r: bool)
    ensures
        r == (npc_count >= DANGER_NPC_COUNT),
{
    npc_count >= DANGER_NPC_COUNT
}

/// The top-left corner of an overlay `lines` rows high, centred on a
/// `width` x `height` board and kept on screen.
pub fn overlay_origin(width: i16, height: i16, lines: u16) -> (r: (u16, u16))
    ensures
        r.0 as int == (if (width - OVERLAY_WIDTH) / 2 > 0 { (width - OVERLAY_WIDTH) / 2 } else { 0 }),
        r.1 as int == (if (height - lines) / 2 > 0 { (height - lines) / 2 } else { 0 }),
{
    let dx: i32 = (width as i32 - OVERLAY_WIDTH as i32) / 2;
    let dy: i32 = (height as i32 - lines as i32) / 2;
    let x: u16 = if dx > 0 { dx as u16 } else { 0 };
    let y: u16 = if dy > 0 { dy as u16 } else { 0 };
    (x, y)
}

/// Whether a new burst of effect particles may start while `count` are
/// alive.
pub fn burst_allowed(count: usize) -> (r: bool)
    ensures
        r == (count <= MAX_PARTICLES),
{
    count <= MAX_PARTICLES
}

/// How faded a particle with `life` of `max_life` frames left is: in its
/// colour while above two thirds, dark yellow while above a third, then a
/// blank.
pub fn particle_shade(life: u8, max_life: u8) -> (r: Shade)
    requires
        max_life <= 127,
    ensures
        r == (if life > max_life * 2 / 3 {
            Shade::Full
        } else if life > max_life / 3 {
            Shade::Faded
        } else {
            Shade::Gone
        }),
{
    if life > max_life * 2 / 3 {
        Shade::Full
    } else if life > max_life / 3 {
        Shade::Faded
    } else {
        Shade::Gone
    }
}

/// How faded a floating text with `life` of `max_life` frames left is: in
/// its colour while above half, dark yellow after.
pub fn text_shade(life: u8, max_life: u8) -> (r: Shade)
    ensures
        r == (if life > max_life / 2 { Shade::Full } else { Shade::Faded }),
{
    if life > max_life / 2 {
        Shade::Full
    } else {
        Shade::Faded
    }
}

/// Whether cell (`x`, `y`) lies on a terminal of `term_w` x `term_h`.
pub fn on_screen(x: i16, y: i16, term_w: u16, term_h: u16) -> (r: bool)
    ensures
        r == (x >= 0 && y >= 0 && x < term_w as i16 && y < term_h as i16),
{
    x >= 0 && y >= 0 && x < term_w as i16 && y < term_h as i16
}

} // verus!
