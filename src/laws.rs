use vstd::prelude::*;
use crate::actor::{screened, Actor, PLAYER_LIFE};
use crate::formation::{
    all_wf, at_step_boundary, bounds, hits_right_wall, turned, marched, scaled_size,
    seeded_enemy, seeded_formation, wall_response, EnemiesController, WallCollision, COLUMNS,
    ENEMY_JUMP, CELLS, ROWS, count_alive, in_row, row_start, lemma_count_full,
    lemma_count_take_mono, Cascade, row_moves,
};
use crate::simulation::{lemma_march_phase, march_phase};
use crate::game::{
    Scene,
    lemma_survivors_all, survivors, all_alive, player_inside, reset_from, same_direction, shield_texts_match, GameState,
};
use crate::geometry::{Vec2, COORD_LIMIT};
use crate::hud::{slot_of, with_value, TextField, TextTag, TEXT_SLOTS};

verus! {

/// The off-screen check is idempotent: an actor it has marked dead stays
/// dead, and a second check changes nothing.
pub proof fn lemma_off_screen_idempotent(a: Actor, window_size: Vec2)
    ensures
        screened(screened(a, window_size), window_size) == screened(a, window_size),
{
}

/// Between two ticks every bullet, every enemy and the player are alive, the
/// alive mask counts exactly the enemies, all enemies march the same way,
/// the player's box lies within the window's width, and each shield's HUD
/// entry exists exactly while the shield stands.
pub proof fn lemma_between_ticks(s: &GameState)
    requires
        s.wf(),
    ensures
        s.player.hp > 0,
        all_alive(s.player_bullets@),
        all_alive(s.enemy_bullets@),
        all_alive(s.enemies@),
        crate::formation::count_alive(s.enemies_controller.enemies_alive_flags@) == s.enemies@.len(),
        same_direction(s.enemies@),
        player_inside(s.player, s.config.window_size),
        shield_texts_match(s.shields@, s.text_fields@),
{
}

/// Two seeded formations of the same sprite are the same.
pub proof fn lemma_seeded_unique(a: Seq<Actor>, b: Seq<Actor>, image: Vec2)
    requires
        seeded_formation(a, image),
        seeded_formation(b, image),
    ensures
        a == b,
{
    assert forall|i: int| 0 <= i < a.len() implies a[i] == b[i] by {
        let r = i / (COLUMNS as int);
        let c = i % (COLUMNS as int);
        assert(i == r * COLUMNS + c);
        assert(a[r * COLUMNS + c] == seeded_enemy(r, c, scaled_size(image)));
        assert(b[r * COLUMNS + c] == seeded_enemy(r, c, scaled_size(image)));
    }
    assert(a =~= b);
}

/// Two controllers fresh for a match agree in every field.
pub open spec fn same_controller(a: EnemiesController, b: EnemiesController) -> bool {
    &&& a.enemies_rect == b.enemies_rect
    &&& a.time_to_update == b.time_to_update
    &&& a.time_to_update_inner == b.time_to_update_inner
    &&& a.tick_time == b.tick_time
    &&& a.time_to_shoot == b.time_to_shoot
    &&& a.time_from_last_shot == b.time_from_last_shot
    &&& a.last_collision_type == b.last_collision_type
    &&& a.start_to_move == b.start_to_move
    &&& a.row_to_move == b.row_to_move
    &&& a.enemies_alive_flags@ == b.enemies_alive_flags@
}

/// Two game states that agree in every field.
pub open spec fn same_game(a: &GameState, b: &GameState) -> bool {
    &&& a.input == b.input
    &&& a.config == b.config
    &&& a.player == b.player
    &&& a.player_shot_timeout == b.player_shot_timeout
    &&& a.player_bullets@ == b.player_bullets@
    &&& a.enemy_bullets@ == b.enemy_bullets@
    &&& a.enemies@ == b.enemies@
    &&& a.shields@ == b.shields@
    &&& same_controller(a.enemies_controller, b.enemies_controller)
    &&& a.text_fields@ == b.text_fields@
    &&& a.score == b.score
    &&& a.max_score == b.max_score
    &&& a.rng == b.rng
}

/// Resetting twice is resetting once: the second reset finds a score of
/// zero, so even the best score stays as the first reset left it.
pub proof fn lemma_reset_idempotent(s: &GameState, once: &GameState, twice: &GameState)
    requires
        s.text_fields.wf(),
        reset_from(s, once),
        reset_from(once, twice),
    ensures
        same_game(once, twice),
{
    lemma_seeded_unique(once.enemies@, twice.enemies@, s.config.enemy_image);
    let m = once.max_score as i64;
    let t = once.text_fields@;
    let a = with_value(s.text_fields@, TextTag::Score, 0);
    let b = with_value(a, TextTag::MaxScore, m);
    assert(t == with_value(b, TextTag::PlayerLife, PLAYER_LIFE));
    lemma_value_shown(a, TextTag::MaxScore, m);
    lemma_value_shown(b, TextTag::PlayerLife, PLAYER_LIFE);
    lemma_value_shown(s.text_fields@, TextTag::Score, 0);
    lemma_value_settled(t, TextTag::Score, 0);
    lemma_value_settled(with_value(t, TextTag::Score, 0), TextTag::MaxScore, m);
    lemma_value_settled(
        with_value(with_value(t, TextTag::Score, 0), TextTag::MaxScore, m),
        TextTag::PlayerLife,
        PLAYER_LIFE,
    );
    assert(twice.player_bullets@ =~= once.player_bullets@);
    assert(twice.enemy_bullets@ =~= once.enemy_bullets@);
}

/// Whether the entry of `tag`, if there is one, shows `value`.
pub open spec fn shows(v: Seq<Option<TextField>>, tag: TextTag, value: i64) -> bool {
    match v[slot_of(tag)] {
        Some(f) => f.value == value,
        None => true,
    }
}

/// After setting a value, the entry shows it, and the other entries are as they were.
pub proof fn lemma_value_shown(v: Seq<Option<TextField>>, tag: TextTag, value: i64)
    requires
        v.len() == TEXT_SLOTS,
    ensures
        shows(with_value(v, tag, value), tag, value),
        with_value(v, tag, value).len() == TEXT_SLOTS,
        forall|t: TextTag| t != tag ==> #[trigger] with_value(v, tag, value)[slot_of(t)] == v[slot_of(t)],
{
    assert forall|t: TextTag| t != tag implies #[trigger] with_value(v, tag, value)[slot_of(t)] == v[slot_of(t)] by {
        assert(slot_of(t) != slot_of(tag));
    }
}

/// Setting the value an entry already shows changes nothing.
pub proof fn lemma_value_settled(v: Seq<Option<TextField>>, tag: TextTag, value: i64)
    requires
        v.len() == TEXT_SLOTS,
        shows(v, tag, value),
    ensures
        with_value(v, tag, value) == v,
{
    match v[slot_of(tag)] {
        Some(f) => {
            assert(with_value(v, tag, value) =~= v);
        },
        None => {},
    }
}

/// Each enemy's box lies within the formation's bounding box.
pub proof fn lemma_bounds_contains(s: Seq<Actor>, i: int)
    requires
        all_wf(s),
        0 <= i < s.len(),
    ensures
        bounds(s).left <= s[i].rect().left,
        s[i].rect().right <= bounds(s).right,
    decreases s.len(),
{
    if s.len() > 1 && i < s.len() - 1 {
        lemma_bounds_contains(s.drop_last(), i);
    }
}

/// Moving every enemy sideways by `dx` moves the bounding box's sides by `dx`.
pub proof fn lemma_bounds_shift_x(s: Seq<Actor>, t: Seq<Actor>, dx: int)
    requires
        all_wf(s),
        all_wf(t),
        s.len() == t.len(),
        s.len() > 0,
        forall|i: int|
            0 <= i < s.len() ==> (#[trigger] t[i]).position.x == s[i].position.x + dx && t[i].size
                == s[i].size,
    ensures
        bounds(t).left == bounds(s).left + dx,
        bounds(t).right == bounds(s).right + dx,
    decreases s.len(),
{
    if s.len() > 1 {
        lemma_bounds_shift_x(s.drop_last(), t.drop_last(), dx);
    }
}

/// When, at the end of a cascade, the formation's box reaches past the right
/// wall, the wall check pushes the formation back so that its right edge lies
/// on the wall, however far it overshot, and turns every enemy to march down.
/// The cascade that follows, which moves each enemy once, takes every enemy
/// exactly one jump down and no further sideways; the wall check after it
/// turns the formation left without another step down.
pub proof fn lemma_right_wall_one_step_down(
    c: EnemiesController,
    enemies: Seq<Actor>,
    window_size: Vec2,
    after_wall: Seq<Actor>,
    after_cascade: Seq<Actor>,
    next: EnemiesController,
)
    requires
        crate::shield::window_fits(window_size),
        all_wf(enemies),
        enemies.len() > 0,
        at_step_boundary(c),
        all_alive(enemies),
        c.enemies_rect == bounds(survivors(enemies)),
        hits_right_wall(c, window_size),
        bounds(enemies).right - bounds(enemies).left <= 2 * (window_size.x / 2),
        forall|i: int| 0 <= i < enemies.len() ==> (#[trigger] enemies[i]).position.y + ENEMY_JUMP <= COORD_LIMIT,
        after_wall.len() == enemies.len(),
        forall|i: int|
            0 <= i < enemies.len() ==> #[trigger] after_wall[i] == wall_response(c, enemies[i], window_size),
        after_cascade.len() == enemies.len(),
        forall|i: int| 0 <= i < enemies.len() ==> #[trigger] after_cascade[i] == marched(after_wall[i]),
        at_step_boundary(next),
        next.last_collision_type == WallCollision::Right,
        next.enemies_rect == bounds(survivors(after_cascade)),
    ensures
        forall|i: int|
            0 <= i < enemies.len() ==> (#[trigger] after_wall[i]).direction == (Vec2 { x: 0, y: 1 }),
        bounds(after_wall).right == window_size.x / 2,
        forall|i: int|
            0 <= i < enemies.len() ==> (#[trigger] after_cascade[i]).position == (Vec2 {
                x: after_wall[i].position.x,
                y: (enemies[i].position.y + ENEMY_JUMP) as i64,
            }),
        forall|i: int|
            0 <= i < enemies.len() ==> #[trigger] wall_response(next, after_cascade[i], window_size)
                == turned(after_cascade[i], -1i64),
{
    lemma_survivors_all(enemies);
    let half = window_size.x / 2;
    let dx = half - bounds(enemies).right;
    assert forall|i: int| 0 <= i < enemies.len() implies (#[trigger] after_wall[i]).position.x
        == enemies[i].position.x + dx && after_wall[i].size == enemies[i].size && after_wall[i].wf() by {
        lemma_bounds_contains(enemies, i);
    }
    lemma_bounds_shift_x(enemies, after_wall, dx);
    assert forall|i: int| 0 <= i < enemies.len() implies (#[trigger] after_cascade[i]).position == (Vec2 {
        x: after_wall[i].position.x,
        y: (enemies[i].position.y + ENEMY_JUMP) as i64,
    }) && after_cascade[i].size == after_wall[i].size && after_cascade[i].wf() by {
        assert(after_wall[i].position.y == enemies[i].position.y);
        assert(after_wall[i].direction == (Vec2 { x: 0, y: 1 }));
    }
    lemma_bounds_shift_x(after_wall, after_cascade, 0);
    assert(all_alive(after_cascade));
    lemma_survivors_all(after_cascade);
}

/// The rows of the alive mask split the enemy list: when the mask counts the
/// enemies, each enemy lies in exactly one row, so a full cascade, which
/// moves each row once, moves each enemy exactly once.
pub proof fn lemma_rows_partition(mask: Seq<bool>, i: int)
    requires
        mask.len() == CELLS,
        0 <= i < count_alive(mask),
    ensures
        exists|r: int| 1 <= r <= ROWS && #[trigger] in_row(mask, r, i),
        forall|r1: int, r2: int|
            1 <= r1 <= ROWS && 1 <= r2 <= ROWS && #[trigger] in_row(mask, r1, i) && #[trigger] in_row(
                mask,
                r2,
                i,
            ) ==> r1 == r2,
{
    assert(mask.take(0) =~= Seq::<bool>::empty());
    lemma_count_full(mask);
    assert forall|a: int, b: int| 0 <= a <= b <= ROWS implies row_start(mask, a) <= row_start(mask, b) by {
        lemma_count_take_mono(mask, a * COLUMNS, b * COLUMNS);
    }
    if i < row_start(mask, 1) {
        assert(in_row(mask, 1, i));
    } else if i < row_start(mask, 2) {
        assert(in_row(mask, 2, i));
    } else if i < row_start(mask, 3) {
        assert(in_row(mask, 3, i));
    } else if i < row_start(mask, 4) {
        assert(in_row(mask, 4, i));
    } else {
        assert(in_row(mask, 5, i));
    }
    assert forall|r1: int, r2: int|
        1 <= r1 <= ROWS && 1 <= r2 <= ROWS && #[trigger] in_row(mask, r1, i) && #[trigger] in_row(
            mask,
            r2,
            i,
        ) implies r1 == r2 by {
        if r1 < r2 {
            assert(row_start(mask, r1) <= row_start(mask, r2 - 1));
        } else if r2 < r1 {
            assert(row_start(mask, r2) <= row_start(mask, r1 - 1));
        }
    }
}

/// The 1-based row of the formation that list index `i` falls in.
pub open spec fn row_of(mask: Seq<bool>, i: int) -> int {
    choose|r: int| 1 <= r <= ROWS && in_row(mask, r, i)
}

/// Whether `run` is a sequence of formation ticks, each the march of the one before.
pub open spec fn marching_run(run: Seq<Scene>) -> bool {
    forall|j: int| 0 < j < run.len() ==> #[trigger] run[j] == march_phase(run[j - 1])
}

/// What a run of formation ticks keeps from its start: the mask and step
/// time, and that exactly the rows below the cursor have moved, once each.
pub open spec fn cascade_progress(run: Seq<Scene>, j: int) -> bool {
    let e0 = run[0].enemies;
    let mask = run[0].mask;
    &&& run[j].mask == mask
    &&& run[j].tick_time == run[0].tick_time
    &&& run[j].enemies.len() == e0.len()
    &&& 1 <= run[j].cascade.row_to_move <= ROWS
    &&& forall|i: int|
        0 <= i < e0.len() ==> #[trigger] run[j].enemies[i] == if row_of(mask, i)
            > run[j].cascade.row_to_move {
            marched(e0[i])
        } else {
            e0[i]
        }
}

/// The preconditions shared by the cascade lemmas.
pub open spec fn cascade_run(run: Seq<Scene>) -> bool {
    &&& run.len() >= 2
    &&& marching_run(run)
    &&& run[0].cascade == (Cascade {
        time_to_update: 0,
        time_to_update_inner: 0,
        start_to_move: false,
        row_to_move: ROWS,
    })
    &&& run[0].enemies.len() > 0
    &&& run[0].mask.len() == CELLS
    &&& count_alive(run[0].mask) == run[0].enemies.len()
    &&& forall|j: int| 0 < j < run.len() - 1 ==> (#[trigger] run[j]).cascade.time_to_update != 0
}

pub proof fn lemma_rows_known(mask: Seq<bool>, n: int)
    requires
        mask.len() == CELLS,
        n == count_alive(mask),
    ensures
        forall|i: int|
            0 <= i < n ==> 1 <= #[trigger] row_of(mask, i) <= ROWS && in_row(mask, row_of(mask, i), i)
                && forall|r: int| 1 <= r <= ROWS && in_row(mask, r, i) ==> r == row_of(mask, i),
{
    assert forall|i: int| 0 <= i < n implies 1 <= #[trigger] row_of(mask, i) <= ROWS && in_row(
        mask,
        row_of(mask, i),
        i,
    ) && forall|r: int| 1 <= r <= ROWS && in_row(mask, r, i) ==> r == row_of(mask, i) by {
        lemma_rows_partition(mask, i);
    }
}

/// Every tick of a cascade run before its last keeps `cascade_progress`.
pub proof fn lemma_cascade_prefix(run: Seq<Scene>, j: int)
    requires
        cascade_run(run),
        0 <= j < run.len() - 1,
    ensures
        cascade_progress(run, j),
    decreases j,
{
    let e0 = run[0].enemies;
    let mask = run[0].mask;
    lemma_rows_known(mask, e0.len() as int);
    if j > 0 {
        lemma_cascade_prefix(run, j - 1);
        let s = run[j - 1];
        let t = run[j];
        assert(t == march_phase(s));
        lemma_march_phase(s);
        let c = s.cascade.row_to_move as int;
        assert(t.cascade.time_to_update != 0);
        if row_moves(s.cascade, s.tick_time) {
            assert(c != 1);
            assert forall|i: int| 0 <= i < e0.len() implies #[trigger] t.enemies[i] == (if row_of(
                mask,
                i,
            ) > c - 1 {
                marched(e0[i])
            } else {
                e0[i]
            }) by {
                if in_row(mask, c, i) {
                    assert(row_of(mask, i) == c);
                }
            }
        }
    }
}

/// A whole cascade moves every enemy exactly once: from a cascade boundary
/// (cursor on the bottom row, nothing under way) to the tick that ends the
/// next cascade, every enemy ends up exactly one jump along its direction
/// from where it started.
pub proof fn lemma_cascade_moves_each_once(run: Seq<Scene>)
    requires
        cascade_run(run),
        run.last().cascade.time_to_update == 0,
    ensures
        run.last().enemies.len() == run[0].enemies.len(),
        forall|i: int|
            0 <= i < run[0].enemies.len() ==> #[trigger] run.last().enemies[i] == marched(
                run[0].enemies[i],
            ),
{
    let e0 = run[0].enemies;
    let mask = run[0].mask;
    let n = run.len() - 1;
    lemma_rows_known(mask, e0.len() as int);
    lemma_cascade_prefix(run, n - 1);
    let s = run[n - 1];
    let t = run[n];
    assert(t == march_phase(s));
    lemma_march_phase(s);
    assert(row_moves(s.cascade, s.tick_time) && s.cascade.row_to_move == 1);
    assert forall|i: int| 0 <= i < e0.len() implies #[trigger] t.enemies[i] == marched(e0[i]) by {
        if in_row(mask, 1, i) {
            assert(row_of(mask, i) == 1);
        }
    }
}

} // verus!
