use vstd::prelude::*;
use rand::rngs::StdRng;
use crate::random::random_in;
use crate::game::survivors;
use crate::actor::{
    create_bullet, create_enemy, window_ok, Actor, ActorType, BULLET_LIFE, ENEMY_LIFE, UNIT_SCALE,
};
use crate::geometry::{
    clamp_coord, moved, rect_ok, rect_union, shift_coord, translate, union, Rect, Vec2,
    SUBPIXELS,
};

verus! {

/// Time units in one tick of 1/60 s.
pub const TICK: u64 = 1_000_000;
/// Time units in one second.
pub const SECOND: u64 = 60 * TICK;

pub const ROWS: usize = 5;
pub const COLUMNS: usize = 11;
pub const CELLS: usize = ROWS * COLUMNS;

/// Time of one full formation step at the start of a match (2 s).
pub const ENEMY_START_TICK: u64 = 2 * SECOND;
/// Time before the first enemy shot of a match (3 s).
pub const ENEMY_START_SHOT_TIMER: u64 = 3 * SECOND;
/// Bounds of the random gap between enemy shots: [0.5 s, 3 s).
pub const SHOT_INTERVAL_MIN: u64 = SECOND / 2;
pub const SHOT_INTERVAL_MAX: u64 = 3 * SECOND;

pub const ENEMY_JUMP: i64 = 10 * SUBPIXELS;
pub const ENEMY_HORIZONTAL_SPACING: i64 = 20 * SUBPIXELS;
pub const ENEMY_VERTICAL_SPACING: i64 = 20 * SUBPIXELS;
/// Render scale of an enemy, in percent; also scales its box.
pub const ENEMY_SCALE: i64 = 70;
/// How far below its shooter an enemy bullet appears.
pub const ENEMY_BULLET_OFFSET: i64 = 35 * SUBPIXELS;

/// Largest extent of a sprite, in world units.
pub const SPRITE_LIMIT: i64 = 0x1_0000_0000;

/// The wall that the formation touched at the last cascade boundary.
#[derive(Clone, Copy, Debug, PartialEq, Eq, Structural)]
pub enum WallCollision {
    Left,
    Right,
    Clear,
}

/// Scheduling state of the enemy grid.
#[derive(Debug)]
pub struct EnemiesController {
    /// Cached bounding box of the formation.
    pub enemies_rect: Rect,
    /// Time accumulated towards the next formation step.
    pub time_to_update: u64,
    /// Time accumulated towards the next row move of a cascade.
    pub time_to_update_inner: u64,
    /// Time of one full formation step.
    pub tick_time: u64,
    /// Gap before the next enemy shot.
    pub time_to_shoot: u64,
    pub time_from_last_shot: u64,
    pub last_collision_type: WallCollision,
    /// Whether a cascade is under way.
    pub start_to_move: bool,
    /// The 1-based row that moves next, counted from the top.
    pub row_to_move: usize,
    /// Row-major `ROWS` x `COLUMNS` grid of live cells.
    pub enemies_alive_flags: Vec<bool>,
}

/// Number of set entries in `s`.
pub open spec fn count_alive(s: Seq<bool>) -> nat
    decreases s.len(),
{
    if s.len() == 0 {
        0
    } else {
        count_alive(s.drop_last()) + if s.last() {
            1nat
        } else {
            0nat
        }
    }
}

/// Index in the enemy list of the enemy standing in `cell`.
pub open spec fn alive_before(mask: Seq<bool>, cell: int) -> nat {
    count_alive(mask.take(cell))
}

/// Index in the enemy list of the first enemy of row `r` (0-based).
pub open spec fn row_start(mask: Seq<bool>, r: int) -> nat {
    alive_before(mask, r * COLUMNS)
}

pub proof fn lemma_count_take_step(s: Seq<bool>, i: int)
    requires
        0 <= i < s.len(),
    ensures
        count_alive(s.take(i + 1)) == count_alive(s.take(i)) + if s[i] {
            1nat
        } else {
            0nat
        },
{
    assert(s.take(i + 1).drop_last() =~= s.take(i));
}

pub proof fn lemma_count_take_mono(s: Seq<bool>, i: int, j: int)
    requires
        0 <= i <= j <= s.len(),
    ensures
        count_alive(s.take(i)) <= count_alive(s.take(j)),
        count_alive(s.take(j)) <= count_alive(s.take(i)) + (j - i),
    decreases j - i,
{
    if i < j {
        lemma_count_take_mono(s, i, j - 1);
        lemma_count_take_step(s, j - 1);
    }
}

pub proof fn lemma_count_full(s: Seq<bool>)
    ensures
        s.take(s.len() as int) =~= s,
        count_alive(s) <= s.len(),
{
    assert(s.take(s.len() as int) =~= s);
    lemma_count_take_mono(s, 0, s.len() as int);
    assert(s.take(0) =~= Seq::<bool>::empty());
}

/// Clearing a set entry lowers the count by one.
pub proof fn lemma_count_clear(s: Seq<bool>, i: int)
    requires
        0 <= i < s.len(),
        s[i],
    ensures
        count_alive(s.update(i, false)) + 1 == count_alive(s),
    decreases s.len(),
{
    if i == s.len() - 1 {
        assert(s.update(i, false).drop_last() =~= s.drop_last());
    } else {
        lemma_count_clear(s.drop_last(), i);
        assert(s.update(i, false).drop_last() =~= s.drop_last().update(i, false));
    }
}

pub open spec fn all_set(n: nat) -> Seq<bool> {
    Seq::new(n, |i: int| true)
}

pub proof fn lemma_count_all_set(n: nat)
    ensures
        count_alive(all_set(n)) == n,
    decreases n,
{
    if n > 0 {
        lemma_count_all_set((n - 1) as nat);
        assert(all_set(n).drop_last() =~= all_set((n - 1) as nat));
    }
}

impl EnemiesController {
    pub open spec fn wf(&self) -> bool {
        &&& self.enemies_alive_flags@.len() == CELLS
        &&& 1 <= self.row_to_move <= ROWS
        &&& rect_ok(self.enemies_rect)
    }

    pub open spec fn alive_count(&self) -> nat {
        count_alive(self.enemies_alive_flags@)
    }
}

/// The controller at the start of a match.
pub open spec fn initial_controller_matches(c: EnemiesController) -> bool {
    &&& c.enemies_rect == Rect { left: 0, top: 0, right: 0, bottom: 0 }
    &&& c.time_to_update == 0
    &&& c.time_to_update_inner == 0
    &&& c.tick_time == ENEMY_START_TICK
    &&& c.time_to_shoot == ENEMY_START_SHOT_TIMER
    &&& c.time_from_last_shot == 0
    &&& c.last_collision_type == WallCollision::Clear
    &&& !c.start_to_move
    &&& c.row_to_move == ROWS
    &&& c.enemies_alive_flags@ == all_set(CELLS as nat)
}

pub fn create_enemies_controller() -> (r: EnemiesController)
    ensures
        r.wf(),
        initial_controller_matches(r),
        r.alive_count() == CELLS,
{
    let mut flags: Vec<bool> = Vec::new();
    let mut i: usize = 0;
    while i < CELLS
        invariant
            i <= CELLS,
            flags@ == all_set(i as nat),
        decreases CELLS - i,
    {
        flags.push(true);
        i = i + 1;
        assert(flags@ =~= all_set(i as nat));
    }
    proof {
        lemma_count_all_set(CELLS as nat);
    }
    EnemiesController {
        enemies_rect: Rect { left: 0, top: 0, right: 0, bottom: 0 },
        time_to_update: 0,
        time_to_update_inner: 0,
        tick_time: ENEMY_START_TICK,
        time_to_shoot: ENEMY_START_SHOT_TIMER,
        time_from_last_shot: 0,
        last_collision_type: WallCollision::Clear,
        start_to_move: false,
        row_to_move: ROWS,
        enemies_alive_flags: flags,
    }
}

/// Kind of the enemies seeded in row `r`, counting from the top.
pub open spec fn row_tag(r: int) -> ActorType {
    if r == 0 {
        ActorType::EnemyC
    } else if r <= 2 {
        ActorType::EnemyB
    } else {
        ActorType::EnemyA
    }
}

pub open spec fn scaled_size(image_size: Vec2) -> Vec2 {
    Vec2 {
        x: (image_size.x * ENEMY_SCALE / 100) as i64,
        y: (image_size.y * ENEMY_SCALE / 100) as i64,
    }
}

/// The enemy seeded at row `r`, column `c` of a fresh formation.
pub open spec fn seeded_enemy(r: int, c: int, size: Vec2) -> Actor {
    Actor {
        tag: row_tag(r),
        position: Vec2 {
            x: ((c - 5) * (size.x + ENEMY_HORIZONTAL_SPACING)) as i64,
            y: ((r - 5) * (size.y + ENEMY_VERTICAL_SPACING)) as i64,
        },
        direction: Vec2 { x: 1, y: 0 },
        size,
        scale: Vec2 { x: ENEMY_SCALE, y: ENEMY_SCALE },
        hp: ENEMY_LIFE,
    }
}

pub open spec fn sprite_ok(s: Vec2) -> bool {
    0 <= s.x <= SPRITE_LIMIT && 0 <= s.y <= SPRITE_LIMIT
}

/// The formation of a new match: `ROWS` rows of `COLUMNS` enemies, row-major.
pub open spec fn seeded_formation(enemies: Seq<Actor>, image_size: Vec2) -> bool {
    &&& enemies.len() == CELLS
    &&& forall|r: int, c: int|
        0 <= r < ROWS && 0 <= c < COLUMNS ==> #[trigger] enemies[r * COLUMNS + c]
            == seeded_enemy(r, c, scaled_size(image_size))
}

pub open spec fn all_wf(s: Seq<Actor>) -> bool {
    forall|i: int| 0 <= i < s.len() ==> (#[trigger] s[i]).wf()
}

fn row_kind(r: usize) -> (t: ActorType)
    ensures
        t == row_tag(r as int),
{
    if r == 0 {
        ActorType::EnemyC
    } else if r <= 2 {
        ActorType::EnemyB
    } else {
        ActorType::EnemyA
    }
}

/// Seeds a full formation from the enemy sprite's size (in world units).
pub fn create_enemies(image_size: Vec2) -> (r: Vec<Actor>)
    requires
        sprite_ok(image_size),
    ensures
        seeded_formation(r@, image_size),
        all_wf(r@),
        forall|i: int| 0 <= i < r@.len() ==> (#[trigger] r@[i]).alive(),
{
    let size = Vec2 { x: image_size.x * ENEMY_SCALE / 100, y: image_size.y * ENEMY_SCALE / 100 };
    assert(0 <= size.x <= SPRITE_LIMIT && 0 <= size.y <= SPRITE_LIMIT) by (nonlinear_arith)
        requires
            size == scaled_size(image_size),
            sprite_ok(image_size),
    ;
    let mut enemies: Vec<Actor> = Vec::new();
    let mut i: usize = 0;
    while i < ROWS
        invariant
            i <= ROWS,
            size == scaled_size(image_size),
            sprite_ok(image_size),
            0 <= size.x <= SPRITE_LIMIT && 0 <= size.y <= SPRITE_LIMIT,
            enemies@.len() == i * COLUMNS,
            forall|r: int, c: int|
                0 <= r < i && 0 <= c < COLUMNS ==> #[trigger] enemies@[r * COLUMNS + c]
                    == seeded_enemy(r, c, size),
            all_wf(enemies@),
            forall|k: int| 0 <= k < enemies@.len() ==> (#[trigger] enemies@[k]).alive(),
        decreases ROWS - i,
    {
        let tag = row_kind(i);
        assert(-5 * (SPRITE_LIMIT + ENEMY_VERTICAL_SPACING) <= (i - 5) * (size.y
            + ENEMY_VERTICAL_SPACING) <= 0) by (nonlinear_arith)
            requires
                0 <= i < 5,
                0 <= size.y <= SPRITE_LIMIT,
        ;
        let y = (i as i64 - 5) * (size.y + ENEMY_VERTICAL_SPACING);
        let mut j: usize = 0;
        while j < COLUMNS
            invariant
                i < ROWS,
                j <= COLUMNS,
                tag == row_tag(i as int),
                y == (i - 5) * (size.y + ENEMY_VERTICAL_SPACING),
                size == scaled_size(image_size),
                sprite_ok(image_size),
                0 <= size.x <= SPRITE_LIMIT && 0 <= size.y <= SPRITE_LIMIT,
                -5 * (SPRITE_LIMIT + ENEMY_VERTICAL_SPACING) <= y <= 0,
                enemies@.len() == i * COLUMNS + j,
                forall|r: int, c: int|
                    0 <= r < i && 0 <= c < COLUMNS ==> #[trigger] enemies@[r * COLUMNS + c]
                        == seeded_enemy(r, c, size),
                forall|c: int|
                    0 <= c < j ==> #[trigger] enemies@[i * COLUMNS + c] == seeded_enemy(
                        i as int,
                        c,
                        size,
                    ),
                all_wf(enemies@),
                forall|k: int| 0 <= k < enemies@.len() ==> (#[trigger] enemies@[k]).alive(),
            decreases COLUMNS - j,
        {
            let mut enemy = create_enemy();
            assert(-5 * (SPRITE_LIMIT + ENEMY_HORIZONTAL_SPACING) <= (j - 5) * (size.x
                + ENEMY_HORIZONTAL_SPACING) <= 5 * (SPRITE_LIMIT + ENEMY_HORIZONTAL_SPACING))
                by (nonlinear_arith)
                requires
                    0 <= j < 11,
                    0 <= size.x <= SPRITE_LIMIT,
            ;
            let x = (j as i64 - 5) * (size.x + ENEMY_HORIZONTAL_SPACING);
            enemy.tag = tag;
            enemy.position = Vec2 { x, y };
            enemy.size = size;
            enemy.scale = Vec2 { x: ENEMY_SCALE, y: ENEMY_SCALE };
            enemy.direction = Vec2 { x: 1, y: 0 };
            enemies.push(enemy);
            proof {
                assert(enemies@[i * COLUMNS + j] == seeded_enemy(i as int, j as int, size));
                assert forall|r: int, c: int|
                    0 <= r < i && 0 <= c < COLUMNS implies #[trigger] enemies@[r * COLUMNS + c]
                        == seeded_enemy(r, c, size) by {
                    assert(r * COLUMNS + c < i * COLUMNS) by (nonlinear_arith)
                        requires
                            r < i,
                            c < COLUMNS,
                    ;
                }
            }
            j = j + 1;
        }
        proof {
            assert forall|r: int, c: int|
                0 <= r < i + 1 && 0 <= c < COLUMNS implies #[trigger] enemies@[r * COLUMNS + c]
                    == seeded_enemy(r, c, size) by {
                if r == i {
                    assert(enemies@[i * COLUMNS + c] == seeded_enemy(i as int, c, size));
                }
            }
        }
        i = i + 1;
    }
    enemies
}

/// The smallest rectangle holding the boxes of all of `s` (all zero when empty).
pub open spec fn bounds(s: Seq<Actor>) -> Rect
    decreases s.len(),
{
    if s.len() == 0 {
        Rect { left: 0, top: 0, right: 0, bottom: 0 }
    } else if s.len() == 1 {
        s[0].rect()
    } else {
        union(bounds(s.drop_last()), s.last().rect())
    }
}

/// The bounding box of the formation's live enemies (all zero when none is alive).
pub fn get_enemies_rect(enemies: &Vec<Actor>) -> (r: Rect)
    requires
        all_wf(enemies@),
    ensures
        r == bounds(survivors(enemies@)),
        rect_ok(r),
{
    let mut r = Rect { left: 0, top: 0, right: 0, bottom: 0 };
    let mut found = false;
    let mut i: usize = 0;
    assert(enemies@.take(0) =~= Seq::<Actor>::empty());
    while i < enemies.len()
        invariant
            i <= enemies@.len(),
            all_wf(enemies@),
            found == (survivors(enemies@.take(i as int)).len() > 0),
            r == bounds(survivors(enemies@.take(i as int))),
            rect_ok(r),
        decreases enemies@.len() - i,
    {
        let ghost before = survivors(enemies@.take(i as int));
        assert(enemies@.take(i + 1).drop_last() =~= enemies@.take(i as int));
        if enemies[i].hp > 0 {
            let next = enemies[i].get_rect();
            assert(survivors(enemies@.take(i + 1)) == before.push(enemies@[i as int]));
            assert(before.push(enemies@[i as int]).drop_last() =~= before);
            if found {
                r = rect_union(&r, &next);
            } else {
                r = next;
            }
            found = true;
        }
        i = i + 1;
    }
    assert(enemies@.take(i as int) =~= enemies@);
    r
}

/// Number of live cells before `cell` in row-major order.
pub fn count_alive_before(mask: &Vec<bool>, cell: usize) -> (r: usize)
    requires
        cell <= mask@.len(),
    ensures
        r == alive_before(mask@, cell as int),
{
    let mut n: usize = 0;
    let mut k: usize = 0;
    assert(mask@.take(0) =~= Seq::<bool>::empty());
    while k < cell
        invariant
            k <= cell <= mask@.len(),
            n == count_alive(mask@.take(k as int)),
            n <= k,
        decreases cell - k,
    {
        proof {
            lemma_count_take_step(mask@, k as int);
        }
        if mask[k] {
            n = n + 1;
        }
        k = k + 1;
    }
    n
}

/// The cascade part of the controller's state.
pub struct Cascade {
    pub time_to_update: u64,
    pub time_to_update_inner: u64,
    pub start_to_move: bool,
    pub row_to_move: usize,
}

pub open spec fn cascade_of(c: EnemiesController) -> Cascade {
    Cascade {
        time_to_update: c.time_to_update,
        time_to_update_inner: c.time_to_update_inner,
        start_to_move: c.start_to_move,
        row_to_move: c.row_to_move,
    }
}

/// Whether the step timer has run past a full formation step on this tick.
pub open spec fn step_due(s: Cascade, tick_time: u64) -> bool {
    s.time_to_update.saturating_add(TICK) > tick_time
}

pub open spec fn inner_after(s: Cascade, tick_time: u64) -> u64 {
    if step_due(s, tick_time) {
        s.time_to_update_inner.saturating_add(TICK)
    } else {
        s.time_to_update_inner
    }
}

/// Whether a row of the formation moves on this tick.
pub open spec fn row_moves(s: Cascade, tick_time: u64) -> bool {
    inner_after(s, tick_time) > tick_time / 5 && (s.start_to_move || step_due(s, tick_time))
}

/// The cascade state after one tick.
pub open spec fn next_cascade(s: Cascade, tick_time: u64) -> Cascade {
    let t = s.time_to_update.saturating_add(TICK);
    let start = s.start_to_move || step_due(s, tick_time);
    if !row_moves(s, tick_time) {
        Cascade {
            time_to_update: t,
            time_to_update_inner: inner_after(s, tick_time),
            start_to_move: start,
            row_to_move: s.row_to_move,
        }
    } else if s.row_to_move == 1 {
        Cascade {
            time_to_update: 0,
            time_to_update_inner: 0,
            start_to_move: false,
            row_to_move: ROWS,
        }
    } else {
        Cascade {
            time_to_update: t,
            time_to_update_inner: 0,
            start_to_move: start,
            row_to_move: (s.row_to_move - 1) as usize,
        }
    }
}

/// An enemy after one jump along its direction.
pub open spec fn marched(e: Actor) -> Actor {
    Actor {
        position: moved(
            e.position,
            Vec2 { x: (e.direction.x * ENEMY_JUMP) as i64, y: (e.direction.y * ENEMY_JUMP) as i64 },
        ),
        ..e
    }
}

/// Whether list index `i` falls in 1-based row `row` of the formation.
pub open spec fn in_row(mask: Seq<bool>, row: int, i: int) -> bool {
    row_start(mask, row - 1) <= i < row_start(mask, row)
}

/// The controller's fields that a cascade tick leaves alone.
pub open spec fn same_but_cascade(a: EnemiesController, b: EnemiesController) -> bool {
    &&& a.enemies_rect == b.enemies_rect
    &&& a.tick_time == b.tick_time
    &&& a.time_to_shoot == b.time_to_shoot
    &&& a.time_from_last_shot == b.time_from_last_shot
    &&& a.last_collision_type == b.last_collision_type
    &&& a.enemies_alive_flags@ == b.enemies_alive_flags@
}

fn march(e: &Actor) -> (r: Actor)
    requires
        e.wf(),
    ensures
        r == marched(*e),
        r.wf(),
{
    let d = Vec2 { x: e.direction.x * ENEMY_JUMP, y: e.direction.y * ENEMY_JUMP };
    Actor { position: translate(e.position, d), ..*e }
}

/// Advances the formation by one tick: the step timer runs, and once a step
/// is due the rows move one at a time, bottom row first, every fifth of a step.
pub fn update_enemies_position(enemies_controller: &mut EnemiesController, enemies: &mut Vec<Actor>)
    requires
        old(enemies_controller).wf(),
        all_wf(old(enemies)@),
        old(enemies_controller).alive_count() == old(enemies)@.len(),
    ensures
        final(enemies_controller).wf(),
        all_wf(final(enemies)@),
        same_but_cascade(*final(enemies_controller), *old(enemies_controller)),
        final(enemies)@.len() == old(enemies)@.len(),
        forall|i: int|
            0 <= i < old(enemies)@.len() ==> {
                &&& (#[trigger] final(enemies)@[i]).direction == old(enemies)@[i].direction
                &&& final(enemies)@[i].tag == old(enemies)@[i].tag
                &&& final(enemies)@[i].hp == old(enemies)@[i].hp
            },
        old(enemies)@.len() == 0 ==> cascade_of(*final(enemies_controller)) == cascade_of(
            *old(enemies_controller),
        ) && final(enemies)@ == old(enemies)@,
        old(enemies)@.len() > 0 ==> cascade_of(*final(enemies_controller)) == next_cascade(
            cascade_of(*old(enemies_controller)),
            old(enemies_controller).tick_time,
        ),
        forall|i: int|
            0 <= i < old(enemies)@.len() ==> #[trigger] final(enemies)@[i] == if row_moves(
                cascade_of(*old(enemies_controller)),
                old(enemies_controller).tick_time,
            ) && in_row(
                old(enemies_controller).enemies_alive_flags@,
                old(enemies_controller).row_to_move as int,
                i,
            ) {
                marched(old(enemies)@[i])
            } else {
                old(enemies)@[i]
            },
{
    if enemies.len() < 1 {
        return;
    }
    let ghost c0 = cascade_of(*enemies_controller);
    enemies_controller.time_to_update = enemies_controller.time_to_update.saturating_add(TICK);
    if enemies_controller.time_to_update > enemies_controller.tick_time {
        enemies_controller.start_to_move = true;
        enemies_controller.time_to_update_inner =
            enemies_controller.time_to_update_inner.saturating_add(TICK);
    }
    if enemies_controller.time_to_update_inner > enemies_controller.tick_time / 5
        && enemies_controller.start_to_move {
        let row = enemies_controller.row_to_move;
        let first = count_alive_before(&enemies_controller.enemies_alive_flags, (row - 1) * COLUMNS);
        let end = count_alive_before(&enemies_controller.enemies_alive_flags, row * COLUMNS);
        proof {
            let m = enemies_controller.enemies_alive_flags@;
            lemma_count_take_mono(m, (row - 1) * COLUMNS, row * COLUMNS);
            lemma_count_take_mono(m, row * COLUMNS, CELLS as int);
            lemma_count_full(m);
        }
        let ghost before = enemies@;
        let mut i: usize = first;
        while i < end
            invariant
                first <= i <= end <= enemies@.len(),
                enemies@.len() == before.len(),
                all_wf(enemies@),
                forall|k: int|
                    0 <= k < before.len() ==> #[trigger] enemies@[k] == if first <= k < i {
                        marched(before[k])
                    } else {
                        before[k]
                    },
            decreases end - i,
        {
            let e = march(&enemies[i]);
            enemies.set(i, e);
            i = i + 1;
        }
        enemies_controller.row_to_move = row - 1;
        enemies_controller.time_to_update_inner = 0;
        if enemies_controller.row_to_move == 0 {
            enemies_controller.row_to_move = ROWS;
            enemies_controller.start_to_move = false;
            enemies_controller.time_to_update = 0;
        }
    }
}

/// Whether both timers stand at zero, which is the case only at the end of a cascade.
pub open spec fn at_step_boundary(c: EnemiesController) -> bool {
    c.time_to_update == 0 && c.time_to_update_inner == 0
}

pub open spec fn hits_right_wall(c: EnemiesController, window_size: Vec2) -> bool {
    c.enemies_rect.right > window_size.x / 2
}

pub open spec fn hits_left_wall(c: EnemiesController, window_size: Vec2) -> bool {
    c.enemies_rect.left < -(window_size.x / 2)
}

/// An enemy pushed back by `dx` and turned to march down.
pub open spec fn snapped(e: Actor, dx: int) -> Actor {
    Actor {
        position: Vec2 { x: clamp_coord(e.position.x + dx) as i64, ..e.position },
        direction: Vec2 { x: 0, y: 1 },
        ..e
    }
}

/// An enemy turned to march sideways.
pub open spec fn turned(e: Actor, x: i64) -> Actor {
    Actor { direction: Vec2 { x, y: 0 }, ..e }
}

/// What the wall check does to one enemy, given whether the cascade just
/// ended, the formation's cached box and the wall recorded last.
pub open spec fn wall_reaction(
    boundary: bool,
    rect: Rect,
    last: WallCollision,
    e: Actor,
    window_size: Vec2,
) -> Actor {
    if !boundary {
        e
    } else if rect.right > window_size.x / 2 {
        snapped(e, window_size.x / 2 - rect.right)
    } else if rect.left < -(window_size.x / 2) {
        snapped(e, -(window_size.x / 2) - rect.left)
    } else if last == WallCollision::Right {
        turned(e, -1i64)
    } else if last == WallCollision::Left {
        turned(e, 1i64)
    } else {
        e
    }
}

/// The wall recorded after the wall check, from the same parts.
pub open spec fn wall_outcome(
    boundary: bool,
    rect: Rect,
    last: WallCollision,
    window_size: Vec2,
) -> WallCollision {
    if !boundary {
        last
    } else if rect.right > window_size.x / 2 {
        WallCollision::Right
    } else if rect.left < -(window_size.x / 2) {
        WallCollision::Left
    } else {
        WallCollision::Clear
    }
}

/// What the wall check does to one enemy.
pub open spec fn wall_response(c: EnemiesController, e: Actor, window_size: Vec2) -> Actor {
    wall_reaction(at_step_boundary(c), c.enemies_rect, c.last_collision_type, e, window_size)
}

/// The wall recorded after the wall check.
pub open spec fn wall_after(c: EnemiesController, window_size: Vec2) -> WallCollision {
    wall_outcome(at_step_boundary(c), c.enemies_rect, c.last_collision_type, window_size)
}

/// The controller's fields other than the recorded wall agree.
pub open spec fn same_but_wall(a: EnemiesController, b: EnemiesController) -> bool {
    &&& a.enemies_rect == b.enemies_rect
    &&& a.tick_time == b.tick_time
    &&& a.time_to_shoot == b.time_to_shoot
    &&& a.time_from_last_shot == b.time_from_last_shot
    &&& a.enemies_alive_flags@ == b.enemies_alive_flags@
    &&& cascade_of(a) == cascade_of(b)
}

fn snap(e: &Actor, dx: i64) -> (r: Actor)
    requires
        e.wf(),
        -4 * crate::geometry::COORD_LIMIT <= dx <= 4 * crate::geometry::COORD_LIMIT,
    ensures
        r == snapped(*e, dx as int),
        r.wf(),
{
    Actor {
        position: Vec2 { x: shift_coord(e.position.x, dx), y: e.position.y },
        direction: Vec2 { x: 0, y: 1 },
        ..*e
    }
}

/// At the end of a cascade, bounces the formation off a side wall: past a
/// wall it is pushed back inside and turned to march one step down; on the
/// boundary after that it turns away from that wall.
pub fn enemies_check_collision_with_walls(
    enemies_controller: &mut EnemiesController,
    enemies: &mut Vec<Actor>,
    window_size: Vec2,
)
    requires
        old(enemies_controller).wf(),
        all_wf(old(enemies)@),
        window_ok(window_size),
    ensures
        final(enemies_controller).wf(),
        all_wf(final(enemies)@),
        same_but_wall(*final(enemies_controller), *old(enemies_controller)),
        final(enemies)@.len() == old(enemies)@.len(),
        old(enemies)@.len() == 0 ==> *final(enemies_controller) == *old(enemies_controller)
            && final(enemies)@ == old(enemies)@,
        old(enemies)@.len() > 0 ==> final(enemies_controller).last_collision_type == wall_after(
            *old(enemies_controller),
            window_size,
        ),
        forall|i: int|
            0 <= i < old(enemies)@.len() ==> #[trigger] final(enemies)@[i] == wall_response(
                *old(enemies_controller),
                old(enemies)@[i],
                window_size,
            ),
{
    if enemies.len() < 1 {
        return;
    }
    if enemies_controller.time_to_update != 0 || enemies_controller.time_to_update_inner != 0 {
        return;
    }
    let half = window_size.x / 2;
    let rect = enemies_controller.enemies_rect;
    let last = enemies_controller.last_collision_type;
    let ghost before = enemies@;
    let ghost c = *enemies_controller;
    let mut i: usize = 0;
    while i < enemies.len()
        invariant
            i <= enemies@.len(),
            enemies@.len() == before.len(),
            all_wf(before),
            all_wf(enemies@),
            at_step_boundary(c),
            *enemies_controller == c,
            rect == c.enemies_rect,
            last == c.last_collision_type,
            half == window_size.x / 2,
            window_ok(window_size),
            rect_ok(rect),
            forall|k: int|
                0 <= k < before.len() ==> #[trigger] enemies@[k] == if k < i {
                    wall_response(c, before[k], window_size)
                } else {
                    before[k]
                },
        decreases enemies@.len() - i,
    {
        let e = enemies[i];
        if rect.right > half {
            enemies.set(i, snap(&e, half - rect.right));
        } else if rect.left < -half {
            enemies.set(i, snap(&e, -half - rect.left));
        } else if last == WallCollision::Right {
            enemies.set(i, Actor { direction: Vec2 { x: -1, y: 0 }, ..e });
        } else if last == WallCollision::Left {
            enemies.set(i, Actor { direction: Vec2 { x: 1, y: 0 }, ..e });
        }
        i = i + 1;
    }
    if rect.right > half {
        enemies_controller.last_collision_type = WallCollision::Right;
    } else if rect.left < -half {
        enemies_controller.last_collision_type = WallCollision::Left;
    } else {
        enemies_controller.last_collision_type = WallCollision::Clear;
    }
}

/// The lowest row below `r` whose cell in column `col` is live, or -1.
pub open spec fn bottom_row_below(mask: Seq<bool>, col: int, r: int) -> int
    decreases r,
{
    if r <= 0 {
        -1
    } else if mask[(r - 1) * COLUMNS + col] {
        r - 1
    } else {
        bottom_row_below(mask, col, r - 1)
    }
}

/// The lowest live row of column `col`, or -1 for an empty column.
pub open spec fn bottom_row(mask: Seq<bool>, col: int) -> int {
    bottom_row_below(mask, col, ROWS as int)
}

/// For each of the first `n` columns that holds a live cell, in column order,
/// the list index of that column's lowest enemy.
pub open spec fn shooters(mask: Seq<bool>, n: int) -> Seq<int>
    decreases n,
{
    if n <= 0 {
        Seq::empty()
    } else if bottom_row(mask, n - 1) >= 0 {
        shooters(mask, n - 1).push(alive_before(mask, bottom_row(mask, n - 1) * COLUMNS + n - 1) as int)
    } else {
        shooters(mask, n - 1)
    }
}

/// The enemies that may shoot: the lowest of each non-empty column.
pub open spec fn shooter_candidates(mask: Seq<bool>) -> Seq<int> {
    shooters(mask, COLUMNS as int)
}

pub proof fn lemma_bottom_row_below(mask: Seq<bool>, col: int, r: int)
    requires
        mask.len() == CELLS,
        0 <= col < COLUMNS,
        0 <= r <= ROWS,
    ensures
        bottom_row_below(mask, col, r) < r,
        bottom_row_below(mask, col, r) >= -1,
        bottom_row_below(mask, col, r) >= 0 ==> mask[bottom_row_below(mask, col, r) * COLUMNS
            + col],
        forall|q: int| 0 <= q < r && #[trigger] mask[q * COLUMNS + col] ==> q <= bottom_row_below(mask, col, r),
    decreases r,
{
    if r > 0 {
        lemma_bottom_row_below(mask, col, r - 1);
    }
}

/// An alive cell's enemy sits within the list.
pub proof fn lemma_alive_index(mask: Seq<bool>, cell: int)
    requires
        0 <= cell < mask.len(),
        mask[cell],
    ensures
        alive_before(mask, cell) < count_alive(mask),
{
    lemma_count_take_step(mask, cell);
    lemma_count_take_mono(mask, cell + 1, mask.len() as int);
    lemma_count_full(mask);
}

pub proof fn lemma_shooters(mask: Seq<bool>, n: int)
    requires
        mask.len() == CELLS,
        0 <= n <= COLUMNS,
    ensures
        forall|j: int|
            0 <= j < shooters(mask, n).len() ==> 0 <= #[trigger] shooters(mask, n)[j] < count_alive(
                mask,
            ),
        forall|c: int| 0 <= c < n && bottom_row(mask, c) >= 0 ==> shooters(mask, n).len() > 0,
    decreases n,
{
    if n > 0 {
        lemma_shooters(mask, n - 1);
        lemma_bottom_row_below(mask, n - 1, ROWS as int);
        let b = bottom_row(mask, n - 1);
        if b >= 0 {
            assert(b * COLUMNS + n - 1 < CELLS) by (nonlinear_arith)
                requires
                    0 <= b < ROWS,
                    0 < n <= COLUMNS,
            ;
            lemma_alive_index(mask, b * COLUMNS + n - 1);
            let prev = shooters(mask, n - 1);
            assert(shooters(mask, n) == prev.push(
                alive_before(mask, b * COLUMNS + n - 1) as int,
            ));
            assert forall|j: int|
                0 <= j < shooters(mask, n).len() implies 0 <= #[trigger] shooters(mask, n)[j]
                < count_alive(mask) by {
                if j < prev.len() {
                    assert(shooters(mask, n)[j] == prev[j]);
                }
            }
        } else {
            assert(shooters(mask, n) == shooters(mask, n - 1));
        }
    }
}

/// Some cell is live when the count is positive.
pub proof fn lemma_some_alive(s: Seq<bool>)
    requires
        count_alive(s) > 0,
    ensures
        exists|k: int| 0 <= k < s.len() && s[k],
    decreases s.len(),
{
    if !s.last() {
        lemma_some_alive(s.drop_last());
        let k = choose|k: int| 0 <= k < s.drop_last().len() && s.drop_last()[k];
        assert(s[k]);
    } else {
        assert(s[s.len() - 1]);
    }
}

/// A formation with a live enemy has a shooter.
pub proof fn lemma_shooter_exists(mask: Seq<bool>)
    requires
        mask.len() == CELLS,
        count_alive(mask) > 0,
    ensures
        shooter_candidates(mask).len() > 0,
{
    lemma_some_alive(mask);
    let k = choose|k: int| 0 <= k < mask.len() && mask[k];
    let r = k / (COLUMNS as int);
    let c = k % (COLUMNS as int);
    assert(k == r * COLUMNS + c);
    lemma_bottom_row_below(mask, c, ROWS as int);
    assert(mask[r * COLUMNS + c]);
    assert(bottom_row(mask, c) >= 0);
    lemma_shooters(mask, COLUMNS as int);
}

fn lowest_alive_row(mask: &Vec<bool>, col: usize) -> (r: Option<usize>)
    requires
        mask@.len() == CELLS,
        col < COLUMNS,
    ensures
        match r {
            Some(b) => b as int == bottom_row(mask@, col as int) && b < ROWS,
            None => bottom_row(mask@, col as int) == -1,
        },
{
    proof {
        lemma_bottom_row_below(mask@, col as int, ROWS as int);
    }
    let mut r: usize = ROWS;
    while r > 0
        invariant
            r <= ROWS,
            col < COLUMNS,
            mask@.len() == CELLS,
            bottom_row(mask@, col as int) == bottom_row_below(mask@, col as int, r as int),
        decreases r,
    {
        if mask[(r - 1) * COLUMNS + col] {
            return Some(r - 1);
        }
        r = r - 1;
    }
    None
}

/// The list indices of the enemies that may shoot, one per non-empty column.
pub fn find_shooters(mask: &Vec<bool>) -> (r: Vec<usize>)
    requires
        mask@.len() == CELLS,
    ensures
        r@.len() == shooter_candidates(mask@).len(),
        forall|j: int| 0 <= j < r@.len() ==> r@[j] as int == #[trigger] shooter_candidates(mask@)[j],
{
    let mut out: Vec<usize> = Vec::new();
    let mut col: usize = 0;
    while col < COLUMNS
        invariant
            col <= COLUMNS,
            mask@.len() == CELLS,
            out@.len() == shooters(mask@, col as int).len(),
            forall|j: int| 0 <= j < out@.len() ==> out@[j] as int == #[trigger] shooters(mask@, col as int)[j],
        decreases COLUMNS - col,
    {
        match lowest_alive_row(mask, col) {
            Some(b) => {
                assert(b * COLUMNS + col < CELLS) by (nonlinear_arith)
                    requires
                        b < ROWS,
                        col < COLUMNS,
                ;
                let idx = count_alive_before(mask, b * COLUMNS + col);
                out.push(idx);
            },
            None => {},
        }
        col = col + 1;
    }
    out
}

/// The bullet that `shooter` fires.
pub open spec fn enemy_shot(shooter: Actor) -> Actor {
    Actor {
        tag: if shooter.tag == ActorType::EnemyC {
            ActorType::EnemyBulletFast
        } else {
            ActorType::EnemyBulletSlow
        },
        position: moved(shooter.position, Vec2 { x: 0, y: ENEMY_BULLET_OFFSET }),
        direction: Vec2 { x: 0, y: 1 },
        size: Vec2 { x: 0, y: 0 },
        scale: Vec2 { x: UNIT_SCALE, y: UNIT_SCALE },
        hp: BULLET_LIFE,
    }
}

/// Whether an enemy shot is due on this tick.
pub open spec fn shot_due(c: EnemiesController) -> bool {
    !c.start_to_move && c.time_from_last_shot.saturating_add(TICK) > c.time_to_shoot
}

/// The controller's fields other than the shot timers agree.
pub open spec fn same_but_shot(a: EnemiesController, b: EnemiesController) -> bool {
    &&& a.enemies_rect == b.enemies_rect
    &&& a.tick_time == b.tick_time
    &&& a.last_collision_type == b.last_collision_type
    &&& a.enemies_alive_flags@ == b.enemies_alive_flags@
    &&& cascade_of(a) == cascade_of(b)
}

/// Fires the shot of candidate `pick` and restarts the shot timer with
/// `next_interval`.
pub fn fire_enemy_shot(
    enemies_controller: &mut EnemiesController,
    enemies: &Vec<Actor>,
    enemy_bullets: &mut Vec<Actor>,
    next_interval: u64,
    pick: usize,
)
    requires
        old(enemies_controller).wf(),
        all_wf(enemies@),
        old(enemies_controller).alive_count() == enemies@.len(),
        pick < shooter_candidates(old(enemies_controller).enemies_alive_flags@).len(),
    ensures
        final(enemies_controller).wf(),
        same_but_shot(*final(enemies_controller), *old(enemies_controller)),
        final(enemies_controller).time_from_last_shot == 0,
        final(enemies_controller).time_to_shoot == next_interval,
        final(enemy_bullets)@ == old(enemy_bullets)@.push(
            enemy_shot(enemies@[shooter_candidates(old(enemies_controller).enemies_alive_flags@)[pick as int]]),
        ),
{
    enemies_controller.time_from_last_shot = 0;
    enemies_controller.time_to_shoot = next_interval;
    let candidates = find_shooters(&enemies_controller.enemies_alive_flags);
    proof {
        lemma_shooters(enemies_controller.enemies_alive_flags@, COLUMNS as int);
    }
    let shooter = enemies[candidates[pick]];
    let kind = if shooter.tag == ActorType::EnemyC {
        ActorType::EnemyBulletFast
    } else {
        ActorType::EnemyBulletSlow
    };
    let mut bullet = create_bullet(kind);
    bullet.position = translate(shooter.position, Vec2 { x: 0, y: ENEMY_BULLET_OFFSET });
    bullet.direction.y = 1;
    enemy_bullets.push(bullet);
}

/// Runs the enemy shot timer for one tick; once a shot is due outside a
/// cascade, draws the next gap and the shooting column from `rng` and fires.
pub fn enemies_shoot(
    enemies_controller: &mut EnemiesController,
    enemies: &Vec<Actor>,
    enemy_bullets: &mut Vec<Actor>,
    rng: &mut StdRng,
)
    requires
        old(enemies_controller).wf(),
        all_wf(enemies@),
        old(enemies_controller).alive_count() == enemies@.len(),
    ensures
        final(enemies_controller).wf(),
        same_but_shot(*final(enemies_controller), *old(enemies_controller)),
        enemies@.len() == 0 ==> *final(enemies_controller) == *old(enemies_controller)
            && final(enemy_bullets)@ == old(enemy_bullets)@,
        enemies@.len() > 0 && !shot_due(*old(enemies_controller)) ==> {
            &&& final(enemy_bullets)@ == old(enemy_bullets)@
            &&& final(enemies_controller).time_to_shoot == old(enemies_controller).time_to_shoot
            &&& final(enemies_controller).time_from_last_shot == old(
                enemies_controller,
            ).time_from_last_shot.saturating_add(TICK)
        },
        enemies@.len() > 0 && shot_due(*old(enemies_controller)) ==> {
            &&& final(enemies_controller).time_from_last_shot == 0
            &&& SHOT_INTERVAL_MIN <= final(enemies_controller).time_to_shoot < SHOT_INTERVAL_MAX
            &&& exists|k: int|
                0 <= k < shooter_candidates(old(enemies_controller).enemies_alive_flags@).len()
                    && final(enemy_bullets)@ == old(enemy_bullets)@.push(
                    enemy_shot(
                        enemies@[shooter_candidates(old(enemies_controller).enemies_alive_flags@)[k]],
                    ),
                )
        },
{
    if enemies.len() < 1 {
        return;
    }
    enemies_controller.time_from_last_shot = enemies_controller.time_from_last_shot.saturating_add(
        TICK,
    );
    if !enemies_controller.start_to_move && enemies_controller.time_from_last_shot
        > enemies_controller.time_to_shoot {
        let next_interval = random_in(rng, SHOT_INTERVAL_MIN, SHOT_INTERVAL_MAX);
        let candidates = find_shooters(&enemies_controller.enemies_alive_flags);
        proof {
            lemma_shooter_exists(enemies_controller.enemies_alive_flags@);
        }
        let pick = random_in(rng, 0, candidates.len() as u64) as usize;
        fire_enemy_shot(enemies_controller, enemies, enemy_bullets, next_interval, pick);
    }
}

} // verus!
