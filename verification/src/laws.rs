//! Properties of the game that span its operations.

use crate::game::{
    free_before, free_count, interior_cell, interior_count, is_free,
    cells_of, clipped, inside_of, resize_step, resized, food_respawned, npcs_moved, player_step, pushed, released, spawn_due, spawned, stepped,
    without, DeathReason, Effect, GameModel, GameState,
};
use crate::geometry::{all_inside, inside, neighbor, opposite, Direction, Key, Position};
use crate::npc::{
    all_placements_clear, blocked, draw_ok, first_clear, fresh_npc, lemma_first_clear_facts,
    no_placement_clear, npc_after, NpcModel, NpcRoll, SpawnDraw, SPAWN_ATTEMPTS,
};
use crate::render::{cell_kind, CellKind};
use crate::session::{key_step, Control, KeyKind, SessionModel};
use vstd::prelude::*;

verus! {

/// Pressing a direction key never turns the snake around: the heading
/// after the press is never the reverse of the heading before it.
pub proof fn law_no_reversal_on_press(g: GameModel, d: Direction)
    ensures
        pushed(g, d).direction != opposite(g.direction),
{
}

/// Holding one direction, pressing a second one and releasing it again
/// returns to the first: with the current heading on top of the key stack,
/// pressing a direction that is neither the reverse of it nor already held
/// and then releasing that direction restores the heading and the stack.
pub proof fn law_release_restores_heading(g: GameModel, d: Direction, now: u64)
    requires
        g.direction_stack.len() > 0,
        g.direction_stack.last() == g.direction,
        d != opposite(g.direction),
        !g.direction_stack.contains(d),
    ensures
        released(pushed(g, d), d, now).direction == g.direction,
        released(pushed(g, d), d, now).direction_stack == g.direction_stack,
{
    lemma_without_absent(g.direction_stack, d);
    lemma_without_absent_push(g.direction_stack, d);
}

/// Removing a direction that is not on the stack leaves it as it was.
proof fn lemma_without_absent(s: Seq<Direction>, d: Direction)
    requires
        !s.contains(d),
    ensures
        without(s, d) == s,
    decreases s.len(),
{
    reveal_with_fuel(Seq::<_>::filter, 1);
    if s.len() > 0 {
        assert(!s.drop_last().contains(d)) by {
            if s.drop_last().contains(d) {
                let k = choose|k: int| 0 <= k < s.drop_last().len() && s.drop_last()[k] == d;
                assert(s[k] == d);
            }
        }
        lemma_without_absent(s.drop_last(), d);
        assert(s.last() != d) by {
            assert(s[s.len() - 1] == s.last());
        }
        assert(s.drop_last().push(s.last()) =~= s);
    }
}

/// Removing the direction just pushed removes exactly it.
proof fn lemma_without_absent_push(s: Seq<Direction>, d: Direction)
    requires
        !s.contains(d),
    ensures
        without(s.push(d), d) == s,
{
    reveal_with_fuel(Seq::<_>::filter, 1);
    assert(s.push(d).drop_last() =~= s);
    lemma_without_absent(s, d);
}

/// Milliseconds per step never exceed the base speed, never drop below
/// 50 ms without the speed-up and never below 15 ms with it.
pub proof fn law_speed_bounds(g: GameModel)
    requires
        g.base_speed_ms >= 50,
    ensures
        g.speed_ms() <= g.base_speed_ms,
        g.direction_key_held ==> 15 <= g.speed_ms(),
        !g.direction_key_held ==> 50 <= g.speed_ms(),
{
}

/// A higher score never makes the snake slower.
pub proof fn law_speed_monotone(g: GameModel, higher: u32)
    requires
        g.score <= higher,
    ensures
        (GameModel { score: higher, ..g }).speed_ms() <= g.speed_ms(),
{
    let r1 = (g.score / 10) as u64 * 5;
    let r2 = (higher / 10) as u64 * 5;
    assert(g.score / 10 <= higher / 10) by (nonlinear_arith)
        requires
            g.score <= higher,
    ;
    assert(r1 <= r2);
}

/// Running into the border ends the round with the wall as the cause, even
/// while invincible.
pub proof fn law_wall_kills(g: GameModel, now: u64)
    requires
        !inside(neighbor(g.snake[0], g.direction), g.width as int, g.height as int),
    ensures
        player_step(g, now).0.state == GameState::GameOver,
        player_step(g, now).0.death_reason == Some(DeathReason::Wall),
        player_step(g, now).0.snake == g.snake,
{
}

/// Biting its own body ends the round, even while invincible.
pub proof fn law_self_bite_kills(g: GameModel, now: u64)
    requires
        inside(neighbor(g.snake[0], g.direction), g.width as int, g.height as int),
        g.snake.contains(neighbor(g.snake[0], g.direction)),
    ensures
        player_step(g, now).0.state == GameState::GameOver,
        player_step(g, now).0.death_reason == Some(DeathReason::SelfBite),
{
}

/// Running into an enemy ends the round unless the player is invincible;
/// an invincible player moving onto a free or enemy cell lives on.
pub proof fn law_enemy_contact(g: GameModel, now: u64)
    requires
        inside(neighbor(g.snake[0], g.direction), g.width as int, g.height as int),
        !g.snake.contains(neighbor(g.snake[0], g.direction)),
    ensures
        !g.invincible_at(now) && cells_of(g.npcs).contains(neighbor(g.snake[0], g.direction))
            ==> player_step(g, now).0.death_reason == Some(DeathReason::Enemy),
        g.invincible_at(now) ==> player_step(g, now).0.state == g.state,
{
}

/// Eating the food makes the snake one cell longer, scores 10 points,
/// keeps the high score at least the score and makes the player invincible
/// for the next 3 seconds; moving without eating keeps the length.
pub proof fn law_eating(g: GameModel, now: u64)
    requires
        g.snake.len() >= 1,
        g.score + 10 <= u32::MAX,
        now + 3000 <= u64::MAX,
        player_step(g, now).0.state == g.state,
    ensures
        player_step(g, now).2 ==> {
            let after = player_step(g, now).0;
            &&& after.snake.len() == g.snake.len() + 1
            &&& after.score == g.score + 10
            &&& after.high_score >= after.score
            &&& after.invincible_until == Some((now + 3000) as u64)
            &&& after.invincible_at(now)
        },
        !player_step(g, now).2 ==> player_step(g, now).0.snake.len() == g.snake.len()
            && player_step(g, now).0.score == g.score,
{
}

/// An enemy acts only on every third frame: on the other frames its body
/// stays where it is.
pub proof fn law_npc_moves_every_third_frame(
    n: NpcModel,
    width: int,
    height: int,
    player: Seq<Position>,
    others: Seq<Position>,
    food: Position,
    roll: NpcRoll,
)
    requires
        n.move_counter < 2,
    ensures
        npc_after(n, width, height, player, others, food, roll).body == n.body,
        npc_after(n, width, height, player, others, food, roll).move_counter == n.move_counter + 1,
{
}

/// An enemy never moves its head onto the border, itself, the player or
/// another enemy: when its body changes, the new head was a free cell.
pub proof fn law_npc_avoids_obstacles(
    n: NpcModel,
    width: int,
    height: int,
    player: Seq<Position>,
    others: Seq<Position>,
    food: Position,
    roll: NpcRoll,
)
    requires
        n.body.len() >= 1,
        npc_after(n, width, height, player, others, food, roll).body != n.body,
    ensures
        !blocked(
            npc_after(n, width, height, player, others, food, roll).body[0],
            width,
            height,
            n.body,
            player,
            others,
        ),
{
}

/// The screens follow the game's state diagram: playing may turn into
/// paused, help or the quit question (or a new round); paused back into
/// playing, or into help or the quit question; help only back into playing;
/// an ended round only into a new one; the quit question back into playing
/// or out of the program. A step ending the round is the only way into the
/// game-over screen, and no key leads there.
pub proof fn law_key_transitions(
    s: SessionModel,
    key: Key,
    ctrl: bool,
    kind: KeyKind,
    now: u64,
    after: SessionModel,
    control: Control,
)
    requires
        key_step(s, key, ctrl, kind, now, after, control),
    ensures
        after.game.state != GameState::GameOver || s.game.state == GameState::GameOver,
        s.game.state == GameState::Help ==> after.game.state == GameState::Help || after.game.state
            == GameState::Playing,
        s.game.state == GameState::QuitConfirm && control == Control::Continue
            ==> after.game.state == GameState::QuitConfirm || after.game.state == GameState::Playing,
        s.game.state == GameState::GameOver && control == Control::Continue
            ==> after.game.state == GameState::GameOver,
        control == Control::NewRound ==> after.game.state == GameState::Playing,
        control == Control::Quit ==> after == s,
{
}

/// No key event turns the snake around: within a round, the heading after
/// any key is never the reverse of the heading before it.
pub proof fn law_no_reversal_on_keys(
    s: SessionModel,
    key: Key,
    ctrl: bool,
    kind: KeyKind,
    now: u64,
    after: SessionModel,
    control: Control,
)
    requires
        key_step(s, key, ctrl, kind, now, after, control),
        control != Control::NewRound,
    ensures
        after.game.direction != opposite(s.game.direction),
{
}

/// Releasing a key never turns the snake around.
pub proof fn law_no_reversal_on_release(g: GameModel, d: Direction, now: u64)
    ensures
        released(g, d, now).direction != opposite(g.direction),
{
}

/// When an enemy spawn is due, at most one enemy joins, fresh and clear of
/// the player and of every enemy; one surely joins when every placement is
/// clear, and none when no placement is.
pub proof fn law_spawn(g: GameModel, after: GameModel, now: u64)
    requires
        g.wf(),
        spawn_due(g, now),
        spawned(g, after, now),
    ensures
        after.npcs.len() == g.npcs.len() || after.npcs.len() == g.npcs.len() + 1,
        after.npcs.len() == g.npcs.len() + 1 ==> {
            let n = after.npcs.last();
            &&& after.npcs.drop_last() == g.npcs
            &&& fresh_npc(n, g.width as int, g.height as int, g.snake.len() as int)
            &&& forall|i: int|
                0 <= i < n.body.len() ==> !g.snake.contains(#[trigger] n.body[i]) && !cells_of(
                    g.npcs,
                ).contains(n.body[i])
        },
        all_placements_clear(g.width as int, g.height as int, g.snake.len() as int, g.snake, cells_of(g.npcs))
            ==> after.npcs.len() == g.npcs.len() + 1,
        no_placement_clear(g.width as int, g.height as int, g.snake.len() as int, g.snake, cells_of(g.npcs))
            ==> after.npcs.len() == g.npcs.len(),
{
    let draws = choose|draws: Seq<SpawnDraw>|
        #![trigger first_clear(draws, g.width as int, g.snake, cells_of(g.npcs))]
        {
            &&& draws.len() == SPAWN_ATTEMPTS
            &&& forall|k: int|
                0 <= k < draws.len() ==> draw_ok(
                    #[trigger] draws[k],
                    g.width as int,
                    g.height as int,
                    g.snake.len() as int,
                )
            &&& after == (GameModel {
                npcs: match first_clear(draws, g.width as int, g.snake, cells_of(g.npcs)) {
                    Some(n) => g.npcs.push(n),
                    None => g.npcs,
                },
                npc_spawn_timer: now,
                npc_spawn_interval_secs: if g.npc_spawn_interval_secs > 5 {
                    (g.npc_spawn_interval_secs - 1) as u64
                } else {
                    g.npc_spawn_interval_secs
                },
                ..g
            })
        };
    lemma_first_clear_facts(
        draws,
        g.width as int,
        g.height as int,
        g.snake.len() as int,
        g.snake,
        cells_of(g.npcs),
    );
    if first_clear(draws, g.width as int, g.snake, cells_of(g.npcs)) is Some {
        assert(after.npcs.drop_last() =~= g.npcs);
    }
}

/// An enemy that moves onto the food grows by one cell; any other move
/// keeps its length.
pub proof fn law_npc_grows_on_food(
    n: NpcModel,
    width: int,
    height: int,
    player: Seq<Position>,
    others: Seq<Position>,
    food: Position,
    roll: NpcRoll,
)
    requires
        n.body.len() >= 1,
    ensures
        ({
            let after = npc_after(n, width, height, player, others, food, roll);
            &&& after.body.len() == n.body.len() || after.body.len() == n.body.len() + 1
            &&& after.body.len() == n.body.len() + 1 <==> (after.body != n.body && after.body[0] == food)
        }),
{
}

/// Within a round the score and the high score never go down, and the
/// high score never falls below the score.
pub proof fn law_score_never_drops(g: GameModel, after: GameModel, effects: Seq<Effect>, now: u64)
    requires
        g.score <= g.high_score,
        stepped(g, after, effects, now),
    ensures
        after.score >= g.score,
        after.high_score >= g.high_score,
        after.score <= after.high_score,
{
    if g.state == GameState::Playing {
        let (s, rolls) = choose|s: GameModel, rolls: Seq<NpcRoll>|
            #![trigger spawned(g, s, now), npcs_moved(s, rolls, rolls.len() as int)]
            {
                &&& spawned(g, s, now)
                &&& rolls.len() == s.npcs.len()
                &&& forall|k: int| 0 <= k < rolls.len() ==> crate::npc::roll_ok(#[trigger] rolls[k])
                &&& {
                    let moved = GameModel { npcs: npcs_moved(s, rolls, rolls.len() as int), ..s };
                    let step = player_step(moved, now);
                    &&& effects == step.1
                    &&& step.2 ==> food_respawned(step.0, after)
                    &&& !step.2 ==> after == step.0
                }
            };
        assert(s.score == g.score && s.high_score == g.high_score);
    }
}

/// Resizing twice to the same size changes nothing the second time: after
/// a resize has left a well formed round, repeating it leaves the round as
/// it is.
pub proof fn law_resize_idempotent(g: GameModel, a: GameModel, b: GameModel, width: i16, height: i16)
    requires
        resize_step(g, width, height, a),
        a.wf(),
        resize_step(a, width, height, b),
    ensures
        b == a,
{
    if width >= crate::geometry::MIN_GAME_WIDTH && height >= crate::geometry::MIN_GAME_HEIGHT {
        assert(a.width == width && a.height == height);
        lemma_clipped_inside(a.snake, width, height);
        let r = resized(a, width, height);
        assert forall|i: int| 0 <= i < a.npcs.len() implies #[trigger] r.npcs[i] == a.npcs[i] by {
            assert(a.npcs[i].wf(width as int, height as int));
            lemma_clipped_inside(a.npcs[i].body, width, height);
        }
        assert(r.npcs =~= a.npcs);
        assert(r == a);
    }
}

/// Clipping cells that all lie inside the border keeps them as they are.
proof fn lemma_clipped_inside(cells: Seq<Position>, width: i16, height: i16)
    requires
        cells.len() >= 1,
        all_inside(cells, width as int, height as int),
    ensures
        clipped(cells, width, height) == cells,
{
    lemma_filter_all(cells, width, height);
}

/// Keeping the cells inside the border of cells that all lie inside it
/// keeps them all.
proof fn lemma_filter_all(cells: Seq<Position>, width: i16, height: i16)
    requires
        all_inside(cells, width as int, height as int),
    ensures
        cells.filter(inside_of(width as int, height as int)) == cells,
    decreases cells.len(),
{
    reveal_with_fuel(Seq::<_>::filter, 1);
    if cells.len() > 0 {
        let rest = cells.drop_last();
        assert forall|i: int| 0 <= i < rest.len() implies inside(#[trigger] rest[i], width as int, height as int) by {
            assert(rest[i] == cells[i]);
        }
        lemma_filter_all(rest, width, height);
        assert(inside(cells[cells.len() - 1], width as int, height as int));
        assert(rest.push(cells.last()) =~= cells);
    }
}

/// An enemy that heads for the food moves towards it: along the axis on
/// which the food is farther away (vertically on a tie), one cell closer,
/// unless that would reverse it or the cell is taken.
pub proof fn law_npc_turns_toward_food(
    n: NpcModel,
    width: int,
    height: int,
    player: Seq<Position>,
    others: Seq<Position>,
    food: Position,
    roll: NpcRoll,
)
    requires
        n.wf(width, height),
        n.move_counter == 2,
        n.change_dir_counter + 1 >= roll.threshold,
        roll.chance < 7,
    ensures
        ({
            let head = n.body[0];
            let after = npc_after(n, width, height, player, others, food, roll);
            let dx = food.x - head.x;
            let dy = food.y - head.y;
            let ady = if dy < 0 { -dy } else { dy };
            let adx = if dx < 0 { -dx } else { dx };
            let right = Position { x: (head.x + 1) as i16, y: head.y };
            let left = Position { x: (head.x - 1) as i16, y: head.y };
            let down = Position { x: head.x, y: (head.y + 1) as i16 };
            let up = Position { x: head.x, y: (head.y - 1) as i16 };
            &&& (dx > ady && n.direction != Direction::Left && !blocked(right, width, height, n.body, player, others))
                ==> after.direction == Direction::Right && after.body[0] == right
            &&& (-dx > ady && n.direction != Direction::Right && !blocked(left, width, height, n.body, player, others))
                ==> after.direction == Direction::Left && after.body[0] == left
            &&& (dy > 0 && dy >= adx && n.direction != Direction::Up && !blocked(down, width, height, n.body, player, others))
                ==> after.direction == Direction::Down && after.body[0] == down
            &&& (dy < 0 && -dy >= adx && n.direction != Direction::Down && !blocked(up, width, height, n.body, player, others))
                ==> after.direction == Direction::Up && after.body[0] == up
        }),
{
    assert(inside(n.body[0], width, height));
}

/// Pressing a direction key that does not reverse the snake makes it the
/// heading, whether or not the key is already on the stack, and leaves it
/// on the stack; pressing the reverse changes nothing.
pub proof fn law_press_turns(g: GameModel, d: Direction)
    ensures
        d != opposite(g.direction) ==> pushed(g, d).direction == d && pushed(
            g,
            d,
        ).direction_stack.contains(d),
        d == opposite(g.direction) ==> pushed(g, d) == g,
{
    if d != opposite(g.direction) && !g.direction_stack.contains(d) {
        assert(g.direction_stack.push(d)[g.direction_stack.len() as int] == d);
    }
}

/// The keys of the control table: Ctrl+C quits anywhere; while playing, P
/// pauses, H shows help, Q asks before quitting and R starts a new round;
/// while paused, P resumes, H shows help, Q asks before quitting and R
/// starts a new round; on the help screen any press resumes; after the
/// round ends R starts a new round and Q quits; when asked, Y quits and N
/// resumes.
pub proof fn law_key_table(
    s: SessionModel,
    key: Key,
    kind: KeyKind,
    now: u64,
    after: SessionModel,
    control: Control,
)
    ensures
        key_step(s, Key::Char('c'), true, kind, now, after, control) ==> control == Control::Quit,
        key_step(s, key, false, kind, now, after, control) && kind == KeyKind::Press ==> {
            let st = s.game.state;
            let lower = |c: char| key == Key::Char(c);
            &&& st == GameState::Playing && (lower('p') || lower('P')) ==> control == Control::Continue
                && after.game.state == GameState::Paused
            &&& st == GameState::Playing && (lower('h') || lower('H')) ==> control == Control::Continue
                && after.game.state == GameState::Help
            &&& st == GameState::Playing && (lower('q') || lower('Q')) ==> control == Control::Continue
                && after.game.state == GameState::QuitConfirm
            &&& st == GameState::Playing && (lower('r') || lower('R')) ==> control == Control::NewRound
                && after.game.state == GameState::Playing && after.game.score == 0
            &&& st == GameState::Paused && (lower('p') || lower('P')) ==> control == Control::Continue
                && after.game.state == GameState::Playing
            &&& st == GameState::Paused && (lower('h') || lower('H')) ==> control == Control::Continue
                && after.game.state == GameState::Help
            &&& st == GameState::Paused && (lower('q') || lower('Q')) ==> control == Control::Continue
                && after.game.state == GameState::QuitConfirm
            &&& st == GameState::Paused && (lower('r') || lower('R')) ==> control == Control::NewRound
                && after.game.state == GameState::Playing && after.game.score == 0
            &&& st == GameState::Help ==> control == Control::Continue && after.game.state == GameState::Playing
            &&& st == GameState::GameOver && (lower('r') || lower('R')) ==> control == Control::NewRound
                && after.game.state == GameState::Playing && after.game.score == 0
            &&& st == GameState::GameOver && (lower('q') || lower('Q')) ==> control == Control::Quit
            &&& st == GameState::QuitConfirm && (lower('y') || lower('Y')) ==> control == Control::Quit
            &&& st == GameState::QuitConfirm && (lower('n') || lower('N')) ==> control == Control::Continue
                && after.game.state == GameState::Playing
        },
{
}

/// What a cell inside the border shows is what occupies it: the player
/// wherever the player is; an enemy wherever an enemy is and the player is
/// not; the food only where no snake is; nothing where nothing is.
pub proof fn law_cell_shows_occupant(g: GameModel, x: i16, y: i16)
    requires
        g.wf(),
        0 < x < g.width - 1,
        0 < y < g.height - 1,
    ensures
        ({
            let p = Position { x: x, y: y };
            let on_npc = exists|i: int| 0 <= i < g.npcs.len() && (#[trigger] g.npcs[i]).body.contains(p);
            let k = cell_kind(g, x, y);
            &&& g.snake.contains(p) ==> k == CellKind::PlayerHead || k == CellKind::PlayerBody
            &&& !g.snake.contains(p) && on_npc ==> k == CellKind::NpcHead || k == CellKind::NpcBody
            &&& !g.snake.contains(p) && !on_npc && g.food == p ==> k == CellKind::Food
            &&& !g.snake.contains(p) && !on_npc && g.food != p ==> k == CellKind::Empty
            &&& k == CellKind::PlayerHead ==> p == g.snake[0]
            &&& k == CellKind::PlayerBody ==> g.snake.contains(p)
            &&& k == CellKind::NpcHead || k == CellKind::NpcBody ==> on_npc
            &&& k == CellKind::Food ==> g.food == p && !g.snake.contains(p) && !on_npc
        }),
{
    let p = Position { x: x, y: y };
    let body = g.snake;
    if body.contains(p) {
        let k = choose|k: int| 0 <= k < body.len() && body[k] == p;
        if k > 0 {
            assert(body.skip(1)[k - 1] == p);
        }
    }
    if body.skip(1).contains(p) {
        let k = choose|k: int| 0 <= k < body.skip(1).len() && body.skip(1)[k] == p;
        assert(body[k + 1] == p);
    }
    if exists|i: int| 0 <= i < g.npcs.len() && (#[trigger] g.npcs[i]).body.contains(p) {
        let i = choose|i: int| 0 <= i < g.npcs.len() && (#[trigger] g.npcs[i]).body.contains(p);
        let b = g.npcs[i].body;
        assert(g.npcs[i].wf(g.width as int, g.height as int));
        let k = choose|k: int| 0 <= k < b.len() && b[k] == p;
        if k > 0 {
            assert(b.skip(1)[k - 1] == p);
        }
    }
    if exists|i: int| 0 <= i < g.npcs.len() && (#[trigger] g.npcs[i]).body.len() > 0 && g.npcs[i].body[0] == p {
        let i = choose|i: int| 0 <= i < g.npcs.len() && (#[trigger] g.npcs[i]).body.len() > 0 && g.npcs[i].body[0] == p;
        assert(g.npcs[i].body.contains(p));
    }
    if exists|i: int| 0 <= i < g.npcs.len() && (#[trigger] g.npcs[i]).body.skip(1).contains(p) {
        let i = choose|i: int| 0 <= i < g.npcs.len() && (#[trigger] g.npcs[i]).body.skip(1).contains(p);
        let b = g.npcs[i].body;
        let k = choose|k: int| 0 <= k < b.skip(1).len() && b.skip(1)[k] == p;
        assert(b[k + 1] == p);
    }
}

/// Every cell that can take the food is one that placing the food can
/// choose: for each free cell there is an index below the number of free
/// cells whose placement ([`crate::game::Game::place_food`]) lands exactly
/// on it. Food is drawn by such an index, so no free cell is out of reach.
pub proof fn law_every_free_cell_reachable(g: GameModel, c: Position)
    requires
        g.wf(),
        is_free(g, c),
    ensures
        exists|k: int| 0 <= k < free_count(g) && #[trigger] index_selects(g, k, c),
{
    let w = g.width as int;
    let h = g.height as int;
    let cols = w - 2;
    let q = c.y - 1;
    let r = c.x - 1;
    let j0 = q * cols + r;
    assert(0 <= r < cols && 0 <= q < h - 2);
    vstd::arithmetic::div_mod::lemma_fundamental_div_mod_converse(j0, cols, q, r);
    assert(0 <= j0 < interior_count(w, h)) by (nonlinear_arith)
        requires
            0 <= r < cols,
            0 <= q < h - 2,
            j0 == q * cols + r,
            interior_count(w, h) == cols * (h - 2),
    ;
    assert(interior_cell(j0, w) == c);
    let k = free_before(g, j0) as int;
    assert(free_before(g, j0 + 1) == k + 1);
    lemma_free_before_monotone(g, j0 + 1, interior_count(w, h));
    assert forall|j: int|
        0 <= j < interior_count(w, h) && free_before(g, j) == k && is_free(
            g,
            #[trigger] interior_cell(j, w),
        ) implies interior_cell(j, w) == c by {
        if j < j0 {
            assert(free_before(g, j + 1) == k + 1);
            lemma_free_before_monotone(g, j + 1, j0);
        } else if j > j0 {
            lemma_free_before_monotone(g, j0 + 1, j);
        }
    }
    assert(index_selects(g, k, c));
}

/// Placing the food by index `k` (see [`crate::game::Game::place_food`])
/// can only put it on `c`: every cell that index `k` picks out is `c`.
pub open spec fn index_selects(g: GameModel, k: int, c: Position) -> bool {
    forall|j: int|
        0 <= j < interior_count(g.width as int, g.height as int) && free_before(g, j) == k && is_free(
            g,
            #[trigger] interior_cell(j, g.width as int),
        ) ==> interior_cell(j, g.width as int) == c
}

/// Counting free cells over a longer prefix never counts fewer.
proof fn lemma_free_before_monotone(g: GameModel, a: int, b: int)
    requires
        a <= b,
    ensures
        free_before(g, a) <= free_before(g, b),
    decreases b - a,
{
    if a < b {
        lemma_free_before_monotone(g, a, b - 1);
    }
}

} // verus!
