use vstd::prelude::*;
use crate::geometry::{
    clamp_coord, make_rect, point_ok, rect_around, rect_ok, shift_coord, size_ok, Rect, Vec2,
    SIZE_LIMIT, SUBPIXELS,
};
use crate::input::InputState;

verus! {

/// Ticks of simulation per second.
pub const TICKS_PER_SECOND: i64 = 60;

pub const PLAYER_LIFE: i64 = 3;
pub const BULLET_LIFE: i64 = 1;
pub const ENEMY_LIFE: i64 = 1;
pub const SHIELD_LIFE: i64 = 5;
/// The hit points given to an actor that has been destroyed.
pub const DEAD: i64 = -1;

/// Speeds in pixels per second.
pub const PLAYER_SPEED: i64 = 100;
pub const PLAYER_BULLET_SPEED: i64 = 750;
pub const ENEMY_BULLET_SPEED_SLOW: i64 = 350;
pub const ENEMY_BULLET_SPEED_FAST: i64 = 550;
/// The speed of an actor that is not a bullet when moved as one.
pub const DEFAULT_SPEED: i64 = 1;

/// Render scale, in percent.
pub const UNIT_SCALE: i64 = 100;

#[derive(Clone, Copy, Debug, PartialEq, Eq, Structural)]
pub enum ActorType {
    Player,
    PlayerBullet,
    EnemyBulletSlow,
    EnemyBulletFast,
    EnemyA,
    EnemyB,
    EnemyC,
    EnemyE,
    Shield,
}

/// Any movable or collidable entity of the world.
#[derive(Clone, Copy, Debug, PartialEq, Eq, Structural)]
pub struct Actor {
    pub tag: ActorType,
    pub position: Vec2,
    /// Each component is -1, 0 or 1.
    pub direction: Vec2,
    pub size: Vec2,
    /// Render scale in percent.
    pub scale: Vec2,
    pub hp: i64,
}

pub open spec fn unit_dir(d: Vec2) -> bool {
    -1 <= d.x <= 1 && -1 <= d.y <= 1
}

/// Distance covered in one tick at `speed` pixels per second, in world units.
pub open spec fn step_of(speed: i64) -> int {
    (speed * SUBPIXELS) as int / (TICKS_PER_SECOND as int)
}

/// Points scored for destroying an actor of this kind.
pub open spec fn kill_value_of(tag: ActorType) -> u64 {
    match tag {
        ActorType::EnemyA => 50,
        ActorType::EnemyB => 100,
        ActorType::EnemyC => 150,
        ActorType::EnemyE => 250,
        _ => 0,
    }
}

pub open spec fn bullet_speed_of(tag: ActorType) -> i64 {
    match tag {
        ActorType::PlayerBullet => PLAYER_BULLET_SPEED,
        ActorType::EnemyBulletSlow => ENEMY_BULLET_SPEED_SLOW,
        ActorType::EnemyBulletFast => ENEMY_BULLET_SPEED_FAST,
        _ => DEFAULT_SPEED,
    }
}

pub open spec fn off_screen(p: Vec2, window_size: Vec2) -> bool {
    p.y < -(window_size.y / 2) || p.y > window_size.y / 2 || p.x < -(window_size.x / 2) || p.x
        > window_size.x / 2
}

pub open spec fn window_ok(window_size: Vec2) -> bool {
    0 < window_size.x <= SIZE_LIMIT && 0 < window_size.y <= SIZE_LIMIT
}

pub open spec fn fresh_actor(tag: ActorType, hp: i64) -> Actor {
    Actor {
        tag,
        position: Vec2 { x: 0, y: 0 },
        direction: Vec2 { x: 0, y: 0 },
        size: Vec2 { x: 0, y: 0 },
        scale: Vec2 { x: UNIT_SCALE, y: UNIT_SCALE },
        hp,
    }
}

pub fn kill_value(tag: ActorType) -> (r: u64)
    ensures
        r == kill_value_of(tag),
{
    match tag {
        ActorType::EnemyA => 50,
        ActorType::EnemyB => 100,
        ActorType::EnemyC => 150,
        ActorType::EnemyE => 250,
        _ => 0,
    }
}

fn new_actor(tag: ActorType, hp: i64) -> (r: Actor)
    ensures
        r == fresh_actor(tag, hp),
{
    Actor {
        tag,
        position: Vec2 { x: 0, y: 0 },
        direction: Vec2 { x: 0, y: 0 },
        size: Vec2 { x: 0, y: 0 },
        scale: Vec2 { x: UNIT_SCALE, y: UNIT_SCALE },
        hp,
    }
}

pub fn create_player() -> (r: Actor)
    ensures
        r == fresh_actor(ActorType::Player, PLAYER_LIFE),
{
    new_actor(ActorType::Player, PLAYER_LIFE)
}

pub fn create_bullet(bullet_type: ActorType) -> (r: Actor)
    ensures
        r == fresh_actor(bullet_type, BULLET_LIFE),
{
    new_actor(bullet_type, BULLET_LIFE)
}

pub fn create_enemy() -> (r: Actor)
    ensures
        r == fresh_actor(ActorType::EnemyA, ENEMY_LIFE),
{
    new_actor(ActorType::EnemyA, ENEMY_LIFE)
}

pub fn create_shield() -> (r: Actor)
    ensures
        r == fresh_actor(ActorType::Shield, SHIELD_LIFE),
{
    new_actor(ActorType::Shield, SHIELD_LIFE)
}

impl Actor {
    /// Position within the world, a box of bounded size and a unit direction.
    pub open spec fn wf(&self) -> bool {
        point_ok(self.position) && size_ok(self.size) && unit_dir(self.direction)
    }

    pub open spec fn rect(&self) -> Rect {
        rect_around(self.position, self.size)
    }

    pub open spec fn alive(&self) -> bool {
        self.hp > 0
    }

    /// The actor's bounding box, centred on its position.
    pub fn get_rect(&self) -> (r: Rect)
        requires
            self.wf(),
        ensures
            r == self.rect(),
            rect_ok(r),
    {
        make_rect(self.position, self.size)
    }
}

/// The horizontal direction that the held keys ask for.
pub open spec fn input_direction(input: InputState) -> i64 {
    (if input.right { 1int } else { 0int } - if input.left { 1int } else { 0int }) as i64
}

/// The player after steering by the held keys for one tick.
pub open spec fn steered(p: Actor, input: InputState) -> Actor {
    Actor {
        direction: Vec2 { x: input_direction(input), ..p.direction },
        position: Vec2 {
            x: clamp_coord(p.position.x + input_direction(input) * step_of(PLAYER_SPEED)) as i64,
            ..p.position
        },
        ..p
    }
}

/// The player after being pushed back inside the window's horizontal extent.
pub open spec fn walled(p: Actor, window_size: Vec2) -> Actor {
    if p.rect().left < -(window_size.x / 2) {
        Actor { position: Vec2 { x: (-(window_size.x / 2) + p.size.x / 2) as i64, ..p.position }, ..p }
    } else if p.rect().right > window_size.x / 2 {
        Actor { position: Vec2 { x: (window_size.x / 2 - p.size.x / 2) as i64, ..p.position }, ..p }
    } else {
        p
    }
}

/// Steers the player from the held keys and moves it one tick along.
pub fn player_handle_input(actor: &mut Actor, input: &InputState)
    requires
        old(actor).wf(),
    ensures
        *final(actor) == steered(*old(actor), *input),
        final(actor).wf(),
        final(actor).direction.x == input_direction(*input),
        final(actor).position.x == clamp_coord(
            old(actor).position.x + input_direction(*input) * step_of(PLAYER_SPEED),
        ),
        *final(actor) == (Actor {
            direction: Vec2 { x: final(actor).direction.x, ..old(actor).direction },
            position: Vec2 { x: final(actor).position.x, ..old(actor).position },
            ..*old(actor)
        }),
        input.left && input.right ==> final(actor).position == old(actor).position,
{
    let mut dx: i64 = 0;
    if input.left {
        dx = dx - 1;
    }
    if input.right {
        dx = dx + 1;
    }
    actor.direction.x = dx;
    let step = PLAYER_SPEED * SUBPIXELS / TICKS_PER_SECOND;
    actor.position.x = shift_coord(actor.position.x, dx * step);
}

/// Keeps the player's box within the horizontal extent of the window.
pub fn player_check_collision_with_walls(actor: &mut Actor, window_size: Vec2)
    requires
        old(actor).wf(),
        window_ok(window_size),
    ensures
        *final(actor) == walled(*old(actor), window_size),
        final(actor).wf(),
        *final(actor) == (Actor {
            position: Vec2 { x: final(actor).position.x, ..old(actor).position },
            ..*old(actor)
        }),
        old(actor).rect().left < -(window_size.x / 2) ==> final(actor).position.x == -(
        window_size.x / 2) + old(actor).size.x / 2,
        old(actor).rect().left >= -(window_size.x / 2) && old(actor).rect().right > window_size.x
            / 2 ==> final(actor).position.x == window_size.x / 2 - old(actor).size.x / 2,
        old(actor).rect().left >= -(window_size.x / 2) && old(actor).rect().right <= window_size.x
            / 2 ==> final(actor).position.x == old(actor).position.x,
        old(actor).size.x <= 2 * (window_size.x / 2) && old(actor).size.x % 2 == 0 ==> {
            &&& -(window_size.x / 2) <= final(actor).rect().left
            &&& final(actor).rect().right <= window_size.x / 2
        },
{
    let half = window_size.x / 2;
    let left_edge = actor.position.x - actor.size.x / 2;
    let right_edge = left_edge + actor.size.x;
    if left_edge < -half {
        actor.position.x = -half + actor.size.x / 2;
    } else if right_edge > half {
        actor.position.x = half - actor.size.x / 2;
    }
}

pub fn bullet_speed(tag: ActorType) -> (r: i64)
    ensures
        r == bullet_speed_of(tag),
{
    match tag {
        ActorType::PlayerBullet => PLAYER_BULLET_SPEED,
        ActorType::EnemyBulletSlow => ENEMY_BULLET_SPEED_SLOW,
        ActorType::EnemyBulletFast => ENEMY_BULLET_SPEED_FAST,
        _ => DEFAULT_SPEED,
    }
}

/// A bullet after one tick of travel along its vertical direction.
pub open spec fn travelled(b: Actor) -> Actor {
    Actor {
        position: Vec2 {
            y: clamp_coord(b.position.y + b.direction.y * step_of(bullet_speed_of(b.tag))) as i64,
            ..b.position
        },
        ..b
    }
}

/// Moves a bullet one tick along its vertical direction at its kind's speed.
pub fn update_bullet_position(actor: &mut Actor)
    requires
        old(actor).wf(),
    ensures
        final(actor).wf(),
        *final(actor) == travelled(*old(actor)),
{
    let speed = bullet_speed(actor.tag);
    assert(1 <= speed <= PLAYER_BULLET_SPEED);
    let step = speed * SUBPIXELS / TICKS_PER_SECOND;
    assert(0 <= step <= PLAYER_BULLET_SPEED) by (nonlinear_arith)
        requires
            1 <= speed <= PLAYER_BULLET_SPEED,
            step == (speed * SUBPIXELS) as int / (TICKS_PER_SECOND as int),
    ;
    let dy = actor.direction.y;
    assert(-PLAYER_BULLET_SPEED <= dy * step <= PLAYER_BULLET_SPEED) by (nonlinear_arith)
        requires
            -1 <= dy <= 1,
            0 <= step <= PLAYER_BULLET_SPEED,
    ;
    actor.position.y = shift_coord(actor.position.y, dy * step);
}

/// The actor after the off-screen check: dead if its position is outside the window.
pub open spec fn screened(a: Actor, window_size: Vec2) -> Actor {
    if off_screen(a.position, window_size) {
        Actor { hp: DEAD, ..a }
    } else {
        a
    }
}

/// Marks an actor dead once its position has left the window.
pub fn handle_out_off_screen(actor: &mut Actor, window_size: Vec2)
    requires
        window_ok(window_size),
    ensures
        *final(actor) == screened(*old(actor), window_size),
{
    let half_w = window_size.x / 2;
    let half_h = window_size.y / 2;
    if actor.position.y < -half_h || actor.position.y > half_h || actor.position.x < -half_w
        || actor.position.x > half_w {
        actor.hp = DEAD;
    }
}

} // verus!
