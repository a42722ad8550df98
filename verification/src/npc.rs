//! Enemy snakes: how they are placed on the board and how they move.

use crate::geometry::{all_inside, contains_cell, direction_at, inside, neighbor, opposite, Direction, Position};
use crate::random::random_in;
use vstd::prelude::*;

verus! {

/// An enemy snake; `body[0]` is its head.
pub struct NpcSnake {
    pub body: Vec<Position>,
    pub direction: Direction,
    pub move_counter: u8,
    pub change_dir_counter: u8,
}

/// The mathematical value of an enemy snake.
pub struct NpcModel {
    pub body: Seq<Position>,
    pub direction: Direction,
    pub move_counter: u8,
    pub change_dir_counter: u8,
}

impl View for NpcSnake {
    type V = NpcModel;

    open spec fn view(&self) -> NpcModel {
        NpcModel {
            body: self.body@,
            direction: self.direction,
            move_counter: self.move_counter,
            change_dir_counter: self.change_dir_counter,
        }
    }
}

/// The chance outcomes one enemy move depends on: after how many frames it
/// reconsiders its heading (`threshold`, 5 to 14), whether it then heads for
/// the food (`chance` below 7 of 0 to 9) or picks a direction at random
/// (`dir_index`, 0 to 3, in the order Up, Down, Left, Right).
#[derive(Clone, Copy, Debug)]
pub struct NpcRoll {
    pub threshold: u8,
    pub chance: u8,
    pub dir_index: u8,
}

/// The ranges each part of an [`NpcRoll`] is drawn from.
pub open spec fn roll_ok(roll: NpcRoll) -> bool {
    5 <= roll.threshold < 15 && roll.chance < 10 && roll.dir_index < 4
}

/// A horizontal run of `len` cells on row `y`, starting at column `x` and
/// extending to the left; the first cell is the head.
pub open spec fn segment(len: nat, x: i16, y: i16) -> Seq<Position> {
    Seq::new(len, |i: int| Position { x: (x - i) as i16, y: y })
}

/// The placements a new enemy snake is drawn from on a `width` x `height`
/// board when the player is `player_length` cells long: its length is
/// between 1 and both `player_length` and `width - 4`, it lies on a row from
/// 2 to `height - 2`, and its head column leaves room for the whole body
/// inside the border.
pub open spec fn layout_ok(len: int, x: int, y: int, width: int, height: int, player_length: int) -> bool {
    &&& 1 <= len <= player_length
    &&& len <= width - 4
    &&& len + 1 <= x < width - 1
    &&& 2 <= y < height - 1
}

/// `n` is a freshly placed enemy snake: a horizontal segment with one of
/// the placements of [`layout_ok`], and both counters at zero.
pub open spec fn fresh_npc(n: NpcModel, width: int, height: int, player_length: int) -> bool {
    &&& exists|len: int, x: i16, y: i16|
        layout_ok(len, x as int, y as int, width, height, player_length) && n.body == segment(
            len as nat,
            x,
            y,
        )
    &&& n.move_counter == 0
    &&& n.change_dir_counter == 0
}

/// The segment of `len` cells at (`x`, `y`) touches neither the player nor
/// any of `npc_cells`.
pub open spec fn placement_clear(len: int, x: i16, y: i16, player: Seq<Position>, npc_cells: Seq<Position>) -> bool {
    forall|i: int|
        0 <= i < len ==> !player.contains(#[trigger] segment(len as nat, x, y)[i]) && !npc_cells.contains(
            segment(len as nat, x, y)[i],
        )
}

/// Every placement of [`layout_ok`] is clear of the player and of
/// `npc_cells`.
pub open spec fn all_placements_clear(
    width: int,
    height: int,
    player_length: int,
    player: Seq<Position>,
    npc_cells: Seq<Position>,
) -> bool {
    forall|len: int, x: i16, y: i16|
        #![trigger segment(len as nat, x, y)]
        layout_ok(len, x as int, y as int, width, height, player_length) ==> placement_clear(
            len,
            x,
            y,
            player,
            npc_cells,
        )
}

/// No placement of [`layout_ok`] is clear of the player and of `npc_cells`.
pub open spec fn no_placement_clear(
    width: int,
    height: int,
    player_length: int,
    player: Seq<Position>,
    npc_cells: Seq<Position>,
) -> bool {
    forall|len: int, x: i16, y: i16|
        #![trigger segment(len as nat, x, y)]
        layout_ok(len, x as int, y as int, width, height, player_length) ==> !placement_clear(
            len,
            x,
            y,
            player,
            npc_cells,
        )
}

/// How many spawn draws an enemy spawn makes before giving up.
pub const SPAWN_ATTEMPTS: usize = 30;

/// The chance outcomes one spawn draws: a length, the head's column and
/// row, and a direction index (in the order Up, Down, Left, Right).
#[derive(Clone, Copy, Debug)]
pub struct SpawnDraw {
    pub length: usize,
    pub x: i16,
    pub y: i16,
    pub dir_index: u8,
}

/// The body length of a new enemy whose drawn length is `length`, cut to
/// `width - 4`.
pub open spec fn spawn_len(length: int, width: int) -> int {
    if length > width - 4 {
        width - 4
    } else {
        length
    }
}

/// The ranges a spawn draw comes from when the player is `player_length`
/// cells long: a length from 1 to `player_length`, a head column from the
/// cut length plus one to `width - 2`, a row from 2 to `height - 2`, and a
/// direction index below 4.
pub open spec fn draw_ok(d: SpawnDraw, width: int, height: int, player_length: int) -> bool {
    &&& 1 <= d.length <= player_length
    &&& spawn_len(d.length as int, width) + 1 <= d.x < width - 1
    &&& 2 <= d.y < height - 1
    &&& d.dir_index < 4
}

/// The enemy a spawn draw places: a [`segment`] of the cut length at the
/// drawn cell, heading the drawn direction, counters at zero.
pub open spec fn spawned_from(d: SpawnDraw, width: int) -> NpcModel {
    NpcModel {
        body: segment(spawn_len(d.length as int, width) as nat, d.x, d.y),
        direction: direction_at(d.dir_index as int),
        move_counter: 0,
        change_dir_counter: 0,
    }
}

/// The enemy of the first draw of `draws` whose placement is clear of the
/// player and of `npc_cells`; `None` when no draw's is.
pub open spec fn first_clear(draws: Seq<SpawnDraw>, width: int, player: Seq<Position>, npc_cells: Seq<Position>) -> Option<NpcModel>
    decreases draws.len(),
{
    if draws.len() == 0 {
        None
    } else {
        let d = draws[0];
        if placement_clear(spawn_len(d.length as int, width), d.x, d.y, player, npc_cells) {
            Some(spawned_from(d, width))
        } else {
            first_clear(draws.drop_first(), width, player, npc_cells)
        }
    }
}

/// A cell an enemy cannot enter: outside the border, on its own body, on
/// the player or on another enemy.
pub open spec fn blocked(
    p: Position,
    width: int,
    height: int,
    own: Seq<Position>,
    player: Seq<Position>,
    others: Seq<Position>,
) -> bool {
    !inside(p, width, height) || own.contains(p) || player.contains(p) || others.contains(p)
}

/// The direction from `head` towards `food`: along the axis with the larger
/// distance, vertically when the distances are equal.
pub open spec fn toward(head: Position, food: Position) -> Direction {
    let dx = food.x - head.x;
    let dy = food.y - head.y;
    let adx = if dx < 0 { -dx } else { dx };
    let ady = if dy < 0 { -dy } else { dy };
    if adx > ady {
        if dx > 0 { Direction::Right } else { Direction::Left }
    } else {
        if dy > 0 { Direction::Down } else { Direction::Up }
    }
}

/// The heading after a reconsideration: the preferred direction (towards
/// the food or random) unless it would reverse the snake.
pub open spec fn reconsidered(current: Direction, head: Position, food: Position, roll: NpcRoll) -> Direction {
    let preferred = if roll.chance < 7 { toward(head, food) } else { direction_at(roll.dir_index as int) };
    if preferred == opposite(current) { current } else { preferred }
}

/// The first direction in the order Up, Down, Left, Right that does not
/// reverse `current` and leads from `head` to a cell that is not blocked.
pub open spec fn detour(
    current: Direction,
    head: Position,
    width: int,
    height: int,
    own: Seq<Position>,
    player: Seq<Position>,
    others: Seq<Position>,
) -> Option<Direction> {
    let open = |d: Direction|
        d != opposite(current) && !blocked(neighbor(head, d), width, height, own, player, others);
    if open(Direction::Up) {
        Some(Direction::Up)
    } else if open(Direction::Down) {
        Some(Direction::Down)
    } else if open(Direction::Left) {
        Some(Direction::Left)
    } else if open(Direction::Right) {
        Some(Direction::Right)
    } else {
        None
    }
}

/// The body after the head moves to `new_head`: every cell follows the one
/// before it, and when the new head is on the food the tail stays too.
pub open spec fn advanced(body: Seq<Position>, new_head: Position, food: Position) -> Seq<Position> {
    let moved = seq![new_head] + body.drop_last();
    if new_head == food {
        moved.push(moved.last())
    } else {
        moved
    }
}

/// One frame of an enemy snake. Both counters count the frame; the snake
/// acts on every third frame only. When it acts, it reconsiders its heading
/// once its turn counter reaches `roll.threshold` (and restarts that
/// counter), then moves one cell ahead; if that cell is blocked it takes
/// the first open [`detour`], and with none it stays where it is. A move
/// onto the food makes it one cell longer.
pub open spec fn npc_after(
    n: NpcModel,
    width: int,
    height: int,
    player: Seq<Position>,
    others: Seq<Position>,
    food: Position,
    roll: NpcRoll,
) -> NpcModel {
    let mc = (n.move_counter + 1) as u8;
    let cc = (n.change_dir_counter + 1) as u8;
    if mc < 3 {
        NpcModel { move_counter: mc, change_dir_counter: cc, ..n }
    } else {
        let turning = cc >= roll.threshold;
        let head = n.body[0];
        let dir = if turning { reconsidered(n.direction, head, food, roll) } else { n.direction };
        let cc2: u8 = if turning { 0 } else { cc };
        let target = neighbor(head, dir);
        if !blocked(target, width, height, n.body, player, others) {
            NpcModel {
                body: advanced(n.body, target, food),
                direction: dir,
                move_counter: 0,
                change_dir_counter: cc2,
            }
        } else {
            match detour(dir, head, width, height, n.body, player, others) {
                Some(d) => NpcModel {
                    body: advanced(n.body, neighbor(head, d), food),
                    direction: d,
                    move_counter: 0,
                    change_dir_counter: cc2,
                },
                None => NpcModel {
                    body: n.body,
                    direction: dir,
                    move_counter: 0,
                    change_dir_counter: cc2,
                },
            }
        }
    }
}

impl NpcModel {
    /// The snake has a head, lies inside the border of a board no larger
    /// than `i16` allows, and its counters are in the range its moves keep.
    pub open spec fn wf(self, width: int, height: int) -> bool {
        &&& self.body.len() >= 1
        &&& all_inside(self.body, width, height)
        &&& width <= i16::MAX
        &&& height <= i16::MAX
        &&& self.move_counter <= 2
        &&& self.change_dir_counter <= self.move_counter + 14
    }
}

/// Whether `p` is a cell an enemy with body `own` cannot enter.
fn is_blocked(
    p: Position,
    width: i16,
    height: i16,
    own: &[Position],
    player: &[Position],
    others: &[Position],
) -> (r: bool)
    ensures
        r == blocked(p, width as int, height as int, own@, player@, others@),
{
    !p.is_inside(width, height) || contains_cell(own, p) || contains_cell(player, p)
        || contains_cell(others, p)
}

/// The direction from `head` towards `food`.
fn toward_food(head: Position, food: Position) -> (r: Direction)
    ensures
        r == toward(head, food),
{
    let dx: i32 = food.x as i32 - head.x as i32;
    let dy: i32 = food.y as i32 - head.y as i32;
    let adx: i32 = if dx < 0 { -dx } else { dx };
    let ady: i32 = if dy < 0 { -dy } else { dy };
    if adx > ady {
        if dx > 0 { Direction::Right } else { Direction::Left }
    } else {
        if dy > 0 { Direction::Down } else { Direction::Up }
    }
}

/// Draws the parts of an [`NpcRoll`] from their ranges.
pub(crate) fn draw_roll() -> (r: NpcRoll)
    ensures
        roll_ok(r),
{
    let threshold = random_in(5, 15);
    let chance = random_in(0, 10);
    let dir_index = random_in(0, 4);
    NpcRoll { threshold: threshold as u8, chance: chance as u8, dir_index: dir_index as u8 }
}

/// Whether any cell of `body` is on the player or on another enemy.
pub fn overlaps(body: &[Position], player: &[Position], npc_cells: &[Position]) -> (r: bool)
    ensures
        r == exists|i: int|
            0 <= i < body@.len() && (player@.contains(#[trigger] body@[i]) || npc_cells@.contains(
                body@[i],
            )),
{
    let mut i: usize = 0;
    while i < body.len()
        invariant
            0 <= i <= body@.len(),
            forall|j: int|
                0 <= j < i ==> !player@.contains(#[trigger] body@[j]) && !npc_cells@.contains(
                    body@[j],
                ),
        decreases body@.len() - i,
    {
        if contains_cell(player, body[i]) || contains_cell(npc_cells, body[i]) {
            assert(player@.contains(body@[i as int]) || npc_cells@.contains(body@[i as int]));
            return true;
        }
        i += 1;
    }
    false
}

impl NpcSnake {
    /// A new enemy snake of `body_len` cells on row `start_y`, head at
    /// column `start_x`, body extending to the left, heading `direction`.
    pub fn with_layout(body_len: usize, start_x: i16, start_y: i16, direction: Direction) -> (r: NpcSnake)
        requires
            1 <= body_len <= start_x,
        ensures
            r.body@ == segment(body_len as nat, start_x, start_y),
            r.direction == direction,
            r.move_counter == 0,
            r.change_dir_counter == 0,
    {
        let mut body: Vec<Position> = Vec::new();
        let mut i: usize = 0;
        while i < body_len
            invariant
                0 <= i <= body_len,
                body_len <= start_x,
                body@ == segment(i as nat, start_x, start_y),
            decreases body_len - i,
        {
            body.push(Position { x: start_x - i as i16, y: start_y });
            i += 1;
            assert(body@ =~= segment(i as nat, start_x, start_y));
        }
        NpcSnake { body, direction, move_counter: 0, change_dir_counter: 0 }
    }

    /// The length of a new enemy whose drawn length is `length`: cut to
    /// `width - 4` so that the body fits inside the border.
    pub fn spawn_length(length: usize, width: i16) -> (r: usize)
        requires
            width >= 5,
        ensures
            r as int == spawn_len(length as int, width as int),
    {
        let cap: usize = (width - 4) as usize;
        if length > cap {
            cap
        } else {
            length
        }
    }

    /// The enemy that spawn draw `d` places; see [`spawned_from`].
    pub fn from_draw(width: i16, d: SpawnDraw) -> (r: NpcSnake)
        requires
            width >= 5,
            1 <= d.length,
            spawn_len(d.length as int, width as int) + 1 <= d.x,
            d.dir_index < 4,
        ensures
            r@ == spawned_from(d, width as int),
    {
        let len = Self::spawn_length(d.length, width);
        let r = Self::with_layout(len, d.x, d.y, Direction::at(d.dir_index));
        r
    }

    /// Draws a spawn: a length from 1 to `player_length`, then a head
    /// column leaving room for the body, a row and a direction; see
    /// [`draw_ok`].
    fn draw_spawn(width: i16, height: i16, player_length: usize) -> (d: SpawnDraw)
        requires
            width >= 5,
            height >= 4,
            player_length >= 1,
        ensures
            draw_ok(d, width as int, height as int, player_length as int),
    {
        let most: i64 = if player_length as u64 >= i64::MAX as u64 {
            i64::MAX - 1
        } else {
            player_length as i64
        };
        let drawn = random_in(1, most + 1);
        let length: usize = drawn as usize;
        let body_len = Self::spawn_length(length, width);
        let x = random_in(body_len as i64 + 1, width as i64 - 1);
        let y = random_in(2, height as i64 - 1);
        let dir_index = random_in(0, 4);
        SpawnDraw { length, x: x as i16, y: y as i16, dir_index: dir_index as u8 }
    }

    /// A new enemy snake placed by a random spawn draw.
    pub fn new(width: i16, height: i16, player_length: usize) -> (r: NpcSnake)
        requires
            width >= 5,
            height >= 4,
            player_length >= 1,
        ensures
            exists|d: SpawnDraw|
                draw_ok(d, width as int, height as int, player_length as int) && r@ == spawned_from(
                    d,
                    width as int,
                ),
            fresh_npc(r@, width as int, height as int, player_length as int),
            r@.wf(width as int, height as int),
    {
        let d = Self::draw_spawn(width, height, player_length);
        let r = Self::from_draw(width, d);
        proof {
            lemma_drawn_fresh(d, width as int, height as int, player_length as int);
        }
        r
    }

    /// The enemy of the first of `draws` whose placement touches neither
    /// the player nor any cell of `npc_cells`; `None` when there is none.
    /// See [`first_clear`].
    pub fn new_avoiding_with(
        width: i16,
        height: i16,
        player_snake: &[Position],
        npc_cells: &[Position],
        player_length: usize,
        draws: &[SpawnDraw],
    ) -> (r: Option<NpcSnake>)
        requires
            width >= 5,
            forall|k: int|
                0 <= k < draws@.len() ==> draw_ok(
                    #[trigger] draws@[k],
                    width as int,
                    height as int,
                    player_length as int,
                ),
        ensures
            r matches Some(n) ==> first_clear(draws@, width as int, player_snake@, npc_cells@) == Some(n@),
            r is None ==> first_clear(draws@, width as int, player_snake@, npc_cells@) is None,
    {
        let mut i: usize = 0;
        assert(draws@.skip(0) =~= draws@);
        while i < draws.len()
            invariant
                0 <= i <= draws@.len(),
                width >= 5,
                forall|k: int|
                    0 <= k < draws@.len() ==> draw_ok(
                        #[trigger] draws@[k],
                        width as int,
                        height as int,
                        player_length as int,
                    ),
                first_clear(draws@, width as int, player_snake@, npc_cells@) == first_clear(
                    draws@.skip(i as int),
                    width as int,
                    player_snake@,
                    npc_cells@,
                ),
            decreases draws@.len() - i,
        {
            let d = draws[i];
            proof {
                assert(draw_ok(draws@[i as int], width as int, height as int, player_length as int));
            }
            let candidate = Self::from_draw(width, d);
            let hit = overlaps(candidate.body.as_slice(), player_snake, npc_cells);
            proof {
                assert(draws@.skip(i as int)[0] == d);
                assert(draws@.skip(i as int).drop_first() =~= draws@.skip(i + 1));
                lemma_clear_iff_no_overlap(d, width as int, player_snake@, npc_cells@);
            }
            if !hit {
                return Some(candidate);
            }
            i += 1;
        }
        proof {
            assert(draws@.skip(draws@.len() as int) =~= Seq::<SpawnDraw>::empty());
        }
        None
    }

    /// Up to 30 spawn draws, in turn, until one places an enemy that
    /// touches neither the player nor any cell of `npc_cells`; `None` when
    /// all 30 fail. When every placement is clear the first draw succeeds;
    /// when none is, all fail.
    pub fn new_avoiding(
        width: i16,
        height: i16,
        player_snake: &[Position],
        npc_cells: &[Position],
        player_length: usize,
    ) -> (r: Option<NpcSnake>)
        requires
            width >= 5,
            height >= 4,
            player_length >= 1,
        ensures
            exists|draws: Seq<SpawnDraw>|
                #![trigger first_clear(draws, width as int, player_snake@, npc_cells@)]
                {
                    &&& draws.len() == SPAWN_ATTEMPTS
                    &&& forall|k: int|
                        0 <= k < draws.len() ==> draw_ok(
                            #[trigger] draws[k],
                            width as int,
                            height as int,
                            player_length as int,
                        )
                    &&& match r {
                        Some(n) => first_clear(draws, width as int, player_snake@, npc_cells@) == Some(n@),
                        None => first_clear(draws, width as int, player_snake@, npc_cells@) is None,
                    }
                },
            r matches Some(n) ==> {
                &&& fresh_npc(n@, width as int, height as int, player_length as int)
                &&& n@.wf(width as int, height as int)
                &&& forall|i: int|
                    0 <= i < n.body@.len() ==> !player_snake@.contains(#[trigger] n.body@[i])
                        && !npc_cells@.contains(n.body@[i])
            },
            all_placements_clear(width as int, height as int, player_length as int, player_snake@, npc_cells@)
                ==> r is Some,
            no_placement_clear(width as int, height as int, player_length as int, player_snake@, npc_cells@)
                ==> r is None,
    {
        let mut draws: Vec<SpawnDraw> = Vec::new();
        let mut k: usize = 0;
        while k < SPAWN_ATTEMPTS
            invariant
                0 <= k <= SPAWN_ATTEMPTS,
                draws@.len() == k,
                width >= 5,
                height >= 4,
                player_length >= 1,
                forall|j: int|
                    0 <= j < draws@.len() ==> draw_ok(
                        #[trigger] draws@[j],
                        width as int,
                        height as int,
                        player_length as int,
                    ),
            decreases SPAWN_ATTEMPTS - k,
        {
            draws.push(Self::draw_spawn(width, height, player_length));
            k += 1;
        }
        let r = Self::new_avoiding_with(width, height, player_snake, npc_cells, player_length, draws.as_slice());
        proof {
            lemma_first_clear_facts(
                draws@,
                width as int,
                height as int,
                player_length as int,
                player_snake@,
                npc_cells@,
            );
        }
        r
    }

    /// Whether `p` is a cell this snake cannot enter.
    fn blocks(&self, p: Position, width: i16, height: i16, player: &[Position], others: &[Position]) -> (r: bool)
        ensures
            r == blocked(p, width as int, height as int, self.body@, player@, others@),
    {
        is_blocked(p, width, height, self.body.as_slice(), player, others)
    }

    /// Moves the head to `new_head`, every cell following the one before
    /// it, and keeps the tail too when the new head is on the food.
    fn advance(&mut self, new_head: Position, food: Position)
        requires
            old(self).body@.len() >= 1,
        ensures
            final(self).body@ == advanced(old(self).body@, new_head, food),
            final(self).direction == old(self).direction,
            final(self).move_counter == old(self).move_counter,
            final(self).change_dir_counter == old(self).change_dir_counter,
    {
        let ghost before = self.body@;
        self.body.insert(0, new_head);
        self.body.pop();
        assert(self.body@ =~= seq![new_head] + before.drop_last());
        if self.body[0] == food {
            let tail = self.body[self.body.len() - 1];
            self.body.push(tail);
        }
    }

    /// One frame of this snake with the chance outcomes given by `roll`;
    /// see [`npc_after`]. `player` is the player's body and `others` the
    /// cells of every other enemy.
    pub fn update_with(
        &mut self,
        width: i16,
        height: i16,
        player: &[Position],
        others: &[Position],
        food: Position,
        roll: NpcRoll,
    )
        requires
            old(self)@.wf(width as int, height as int),
            roll_ok(roll),
        ensures
            final(self)@ == npc_after(old(self)@, width as int, height as int, player@, others@, food, roll),
            final(self)@.wf(width as int, height as int),
    {
        let ghost n0 = self@;
        self.move_counter = self.move_counter + 1;
        self.change_dir_counter = self.change_dir_counter + 1;
        if self.move_counter < 3 {
            return;
        }
        self.move_counter = 0;
        let head = self.body[0];
        proof {
            assert(inside(n0.body[0], width as int, height as int));
        }
        if self.change_dir_counter >= roll.threshold {
            self.change_dir_counter = 0;
            let preferred = if roll.chance < 7 {
                toward_food(head, food)
            } else {
                Direction::at(roll.dir_index)
            };
            if !preferred.is_opposite(self.direction) {
                self.direction = preferred;
            }
        }
        let target = head.moved(self.direction);
        if !self.blocks(target, width, height, player, others) {
            proof { lemma_advanced_inside(n0.body, target, width as int, height as int, food); }
            self.advance(target, food);
        } else {
            let up = head.moved(Direction::Up);
            let down = head.moved(Direction::Down);
            let left = head.moved(Direction::Left);
            let right = head.moved(Direction::Right);
            let d = self.direction;
            if !Direction::Up.is_opposite(d) && !self.blocks(up, width, height, player, others) {
                self.direction = Direction::Up;
                proof { lemma_advanced_inside(n0.body, up, width as int, height as int, food); }
                self.advance(up, food);
            } else if !Direction::Down.is_opposite(d) && !self.blocks(down, width, height, player, others) {
                self.direction = Direction::Down;
                proof { lemma_advanced_inside(n0.body, down, width as int, height as int, food); }
                self.advance(down, food);
            } else if !Direction::Left.is_opposite(d) && !self.blocks(left, width, height, player, others) {
                self.direction = Direction::Left;
                proof { lemma_advanced_inside(n0.body, left, width as int, height as int, food); }
                self.advance(left, food);
            } else if !Direction::Right.is_opposite(d) && !self.blocks(right, width, height, player, others) {
                self.direction = Direction::Right;
                proof { lemma_advanced_inside(n0.body, right, width as int, height as int, food); }
                self.advance(right, food);
            }
        }
    }

    /// One frame of this snake with freshly drawn chance outcomes.
    pub fn update(&mut self, width: i16, height: i16, player: &[Position], others: &[Position], food: Position)
        requires
            old(self)@.wf(width as int, height as int),
        ensures
            exists|roll: NpcRoll|
                roll_ok(roll) && final(self)@ == npc_after(
                    old(self)@,
                    width as int,
                    height as int,
                    player@,
                    others@,
                    food,
                    roll,
                ),
            final(self)@.wf(width as int, height as int),
    {
        let roll = draw_roll();
        self.update_with(width, height, player, others, food, roll);
    }
}

/// A segment placed by [`layout_ok`] lies inside the border, and the snake
/// built on it is well formed.
proof fn lemma_fresh_wf(n: NpcModel, len: int, x: i16, y: i16, width: int, height: int, player_length: int)
    requires
        layout_ok(len, x as int, y as int, width, height, player_length),
        n.body == segment(len as nat, x, y),
        n.move_counter == 0,
        n.change_dir_counter == 0,
        width <= i16::MAX,
        height <= i16::MAX,
    ensures
        fresh_npc(n, width, height, player_length),
        n.wf(width, height),
{
    assert forall|i: int| 0 <= i < n.body.len() implies inside(#[trigger] n.body[i], width, height) by {
    }
}

/// A move onto a cell inside the border keeps a body that lies inside
/// the border inside it.
proof fn lemma_advanced_inside(body: Seq<Position>, new_head: Position, width: int, height: int, food: Position)
    requires
        all_inside(body, width, height),
        body.len() >= 1,
        inside(new_head, width, height),
    ensures
        all_inside(advanced(body, new_head, food), width, height),
        advanced(body, new_head, food).len() >= 1,
        advanced(body, new_head, food)[0] == new_head,
{
    let moved = seq![new_head] + body.drop_last();
    assert forall|i: int| 0 <= i < moved.len() implies inside(#[trigger] moved[i], width, height) by {
        if i > 0 {
            assert(moved[i] == body[i - 1]);
        }
    }
}

/// A draw within [`draw_ok`] places a fresh, well formed enemy.
proof fn lemma_drawn_fresh(d: SpawnDraw, width: int, height: int, player_length: int)
    requires
        draw_ok(d, width, height, player_length),
        5 <= width <= i16::MAX,
        height <= i16::MAX,
    ensures
        fresh_npc(spawned_from(d, width), width, height, player_length),
        spawned_from(d, width).wf(width, height),
{
    let len = spawn_len(d.length as int, width);
    lemma_fresh_wf(spawned_from(d, width), len, d.x, d.y, width, height, player_length);
}

/// A drawn placement is clear exactly when its body overlaps neither the
/// player nor `npc_cells`.
proof fn lemma_clear_iff_no_overlap(d: SpawnDraw, width: int, player: Seq<Position>, npc_cells: Seq<Position>)
    requires
        width >= 5,
    ensures
        placement_clear(spawn_len(d.length as int, width), d.x, d.y, player, npc_cells) == !(exists|i: int|
            0 <= i < spawned_from(d, width).body.len() && (player.contains(
                #[trigger] spawned_from(d, width).body[i],
            ) || npc_cells.contains(spawned_from(d, width).body[i]))),
{
    let len = spawn_len(d.length as int, width);
    let body = spawned_from(d, width).body;
    assert(body == segment(len as nat, d.x, d.y));
    assert(body.len() == len);
    if !placement_clear(len, d.x, d.y, player, npc_cells) {
        let i = choose|i: int|
            0 <= i < len && !(!player.contains(#[trigger] segment(len as nat, d.x, d.y)[i]) && !npc_cells.contains(
                segment(len as nat, d.x, d.y)[i],
            ));
        assert(body[i] == segment(len as nat, d.x, d.y)[i]);
        assert(player.contains(spawned_from(d, width).body[i]) || npc_cells.contains(spawned_from(d, width).body[i]));
    } else {
        assert forall|i: int| 0 <= i < body.len() implies !(player.contains(
            #[trigger] spawned_from(d, width).body[i],
        ) || npc_cells.contains(spawned_from(d, width).body[i])) by {
            assert(body[i] == segment(len as nat, d.x, d.y)[i]);
        }
    }
}

/// What [`first_clear`] gives: a fresh enemy clear of the player and of
/// `npc_cells`; an enemy whenever every placement of [`layout_ok`] is
/// clear; none when no placement is clear.
pub proof fn lemma_first_clear_facts(
    draws: Seq<SpawnDraw>,
    width: int,
    height: int,
    player_length: int,
    player: Seq<Position>,
    npc_cells: Seq<Position>,
)
    requires
        5 <= width <= i16::MAX,
        height <= i16::MAX,
        forall|k: int| 0 <= k < draws.len() ==> draw_ok(#[trigger] draws[k], width, height, player_length),
    ensures
        first_clear(draws, width, player, npc_cells) matches Some(n) ==> {
            &&& fresh_npc(n, width, height, player_length)
            &&& n.wf(width, height)
            &&& forall|i: int|
                0 <= i < n.body.len() ==> !player.contains(#[trigger] n.body[i]) && !npc_cells.contains(
                    n.body[i],
                )
        },
        draws.len() > 0 && all_placements_clear(width, height, player_length, player, npc_cells)
            ==> first_clear(draws, width, player, npc_cells) is Some,
        no_placement_clear(width, height, player_length, player, npc_cells) ==> first_clear(
            draws,
            width,
            player,
            npc_cells,
        ) is None,
    decreases draws.len(),
{
    if draws.len() > 0 {
        let d = draws[0];
        assert(draw_ok(draws[0], width, height, player_length));
        let len = spawn_len(d.length as int, width);
        lemma_drawn_fresh(d, width, height, player_length);
        assert(layout_ok(len, d.x as int, d.y as int, width, height, player_length));
        let seg = segment(len as nat, d.x, d.y);
        if all_placements_clear(width, height, player_length, player, npc_cells) {
            assert(placement_clear(len, d.x, d.y, player, npc_cells));
        }
        if no_placement_clear(width, height, player_length, player, npc_cells) {
            assert(!placement_clear(len, d.x, d.y, player, npc_cells));
        }
        let rest = draws.drop_first();
        assert forall|k: int| 0 <= k < rest.len() implies draw_ok(#[trigger] rest[k], width, height, player_length) by {
            assert(rest[k] == draws[k + 1]);
        }
        lemma_first_clear_facts(rest, width, height, player_length, player, npc_cells);
        if placement_clear(len, d.x, d.y, player, npc_cells) {
            assert forall|i: int| 0 <= i < seg.len() implies !player.contains(#[trigger] seg[i])
                && !npc_cells.contains(seg[i]) by {
            }
        }
    }
}

} // verus!
