use vstd::prelude::*;
use rand::rngs::StdRng;
use crate::actor::{
    create_bullet, create_player, Actor, ActorType, BULLET_LIFE, PLAYER_LIFE, SHIELD_LIFE,
    UNIT_SCALE,
};
use crate::formation::{
    all_wf, count_alive, create_enemies, create_enemies_controller, initial_controller_matches,
    seeded_formation, sprite_ok, cascade_of, Cascade, EnemiesController, WallCollision, SECOND,
    SPRITE_LIMIT,
};
use crate::geometry::{moved, translate, Rect, Vec2, SUBPIXELS};
use crate::hud::{core_texts_present, with_value, HudTexts, TextField, TextTag, SMALL_TEXT_SIZE};
use crate::input::InputState;
use crate::random::seeded_rng;
use crate::shield::{create_shields, shield_tag_of, window_fits, SHIELD_COUNT};

verus! {

/// Cooldown between two player shots (0.5 s).
pub const PLAYER_SHOT_TIME: u64 = SECOND / 2;
/// How far above the player a new bullet appears.
pub const PLAYER_BULLET_OFFSET: i64 = 10 * SUBPIXELS;
/// A player bullet's box is this many times as wide as its sprite.
pub const PLAYER_BULLET_WIDTH_FACTOR: i64 = 8;
/// Scores saturate here, so that they always fit a HUD entry.
pub const SCORE_LIMIT: u64 = 0x7fff_ffff_ffff_ffff;

/// The sizes the world is built from, in world units.
#[derive(Clone, Copy, Debug, PartialEq, Eq, Structural)]
pub struct WorldConfig {
    pub window_size: Vec2,
    pub player_size: Vec2,
    pub player_bullet_image: Vec2,
    pub enemy_image: Vec2,
    pub shield_image: Vec2,
}

impl WorldConfig {
    /// Sizes in range, even widths for the window and the player, and
    /// sprites that fit across the window.
    pub open spec fn wf(&self) -> bool {
        &&& window_fits(self.window_size)
        &&& self.window_size.x % 2 == 0
        &&& sprite_ok(self.player_size)
        &&& self.player_size.x % 2 == 0
        &&& self.player_size.x <= self.window_size.x
        &&& sprite_ok(self.player_bullet_image)
        &&& self.player_bullet_image.x <= SPRITE_LIMIT / PLAYER_BULLET_WIDTH_FACTOR
        &&& sprite_ok(self.enemy_image)
        &&& sprite_ok(self.shield_image)
        &&& self.shield_image.y <= self.window_size.x
    }

    pub fn is_valid(&self) -> (r: bool)
        ensures
            r == self.wf(),
    {
        let w = self.window_size;
        0 < w.x && w.x <= SPRITE_LIMIT && 0 < w.y && w.y <= SPRITE_LIMIT && w.x % 2 == 0
            && sprite_in_range(self.player_size) && self.player_size.x % 2 == 0
            && self.player_size.x <= w.x && sprite_in_range(self.player_bullet_image)
            && self.player_bullet_image.x <= SPRITE_LIMIT / PLAYER_BULLET_WIDTH_FACTOR
            && sprite_in_range(self.enemy_image) && sprite_in_range(self.shield_image)
            && self.shield_image.y <= w.x
    }
}

fn sprite_in_range(s: Vec2) -> (r: bool)
    ensures
        r == sprite_ok(s),
{
    0 <= s.x && s.x <= SPRITE_LIMIT && 0 <= s.y && s.y <= SPRITE_LIMIT
}

/// What a tick reports: the sounds it asks for and whether the match started over.
#[derive(Clone, Copy, Debug, PartialEq, Eq, Structural)]
pub struct TickOutcome {
    /// The player fired.
    pub player_shot: bool,
    /// Number of enemies destroyed.
    pub hits: usize,
    /// The player ran out of hit points and the match started over.
    pub match_over: bool,
}

/// The whole simulation state.
pub struct GameState {
    pub input: InputState,
    pub config: WorldConfig,
    pub player: Actor,
    /// Time left before the player may fire again.
    pub player_shot_timeout: u64,
    pub player_bullets: Vec<Actor>,
    pub enemy_bullets: Vec<Actor>,
    pub enemies: Vec<Actor>,
    pub shields: Vec<Actor>,
    pub enemies_controller: EnemiesController,
    pub text_fields: HudTexts,
    pub score: u64,
    pub max_score: u64,
    pub rng: StdRng,
}

/// The player as it enters a match.
pub open spec fn spawned_player(config: WorldConfig) -> Actor {
    Actor {
        tag: ActorType::Player,
        position: Vec2 {
            x: 0,
            y: (config.window_size.y / 2 - config.window_size.y / 8) as i64,
        },
        direction: Vec2 { x: 0, y: 0 },
        size: config.player_size,
        scale: Vec2 { x: UNIT_SCALE, y: UNIT_SCALE },
        hp: PLAYER_LIFE,
    }
}

/// The bullet the player fires.
pub open spec fn player_shot(player: Actor, config: WorldConfig) -> Actor {
    Actor {
        tag: ActorType::PlayerBullet,
        position: moved(player.position, Vec2 { x: 0, y: (-PLAYER_BULLET_OFFSET) as i64 }),
        direction: Vec2 { x: 0, y: -1i64 },
        size: Vec2 {
            x: (config.player_bullet_image.x * PLAYER_BULLET_WIDTH_FACTOR) as i64,
            y: config.player_bullet_image.y,
        },
        scale: Vec2 { x: UNIT_SCALE, y: UNIT_SCALE },
        hp: BULLET_LIFE,
    }
}

pub open spec fn text_at(tag: TextTag, value: i64, x: int, y: int) -> TextField {
    TextField { tag, value, text_size: SMALL_TEXT_SIZE, position: Vec2 { x: x as i64, y: y as i64 } }
}

/// The HUD of a new game, by slot.
pub open spec fn initial_texts(w: Vec2) -> Seq<Option<TextField>> {
    seq![
        Some(text_at(TextTag::Score, 0, -(w.x * 5 / 13), -(w.y * 5 / 12))),
        Some(text_at(TextTag::MaxScore, 0, -(w.x * 5 / 13), -(w.y * 4 / 9))),
        Some(text_at(TextTag::PlayerLife, PLAYER_LIFE, -(w.x * 5 / 13), w.y * 4 / 9)),
        Some(text_at(TextTag::ShieldHp1, SHIELD_LIFE, -(w.x * 2 / 7), w.y * 2 / 9)),
        Some(text_at(TextTag::ShieldHp2, SHIELD_LIFE, 0, w.y * 2 / 9)),
        Some(text_at(TextTag::ShieldHp3, SHIELD_LIFE, w.x * 2 / 7, w.y * 2 / 9)),
    ]
}

pub open spec fn all_alive(s: Seq<Actor>) -> bool {
    forall|i: int| 0 <= i < s.len() ==> (#[trigger] s[i]).hp > 0
}

/// Every enemy marches the same way.
pub open spec fn same_direction(s: Seq<Actor>) -> bool {
    forall|i: int, j: int|
        0 <= i < s.len() && 0 <= j < s.len() ==> (#[trigger] s[i]).direction == (
        #[trigger] s[j]).direction
}

/// The player's box lies within the window's horizontal extent.
pub open spec fn player_inside(p: Actor, window_size: Vec2) -> bool {
    -(window_size.x / 2) <= p.rect().left && p.rect().right <= window_size.x / 2
}

/// Each shield's HUD entry exists exactly while the shield stands.
pub open spec fn shield_texts_match(shields: Seq<Actor>, texts: Seq<Option<TextField>>) -> bool {
    forall|i: int|
        0 <= i < SHIELD_COUNT ==> (texts[crate::hud::slot_of(
            #[trigger] shield_tag_of(i).unwrap(),
        )].is_some() <==> shields[i].hp > 0)
}

impl GameState {
    /// The state between two ticks.
    pub open spec fn wf(&self) -> bool {
        &&& self.config.wf()
        &&& self.player.wf()
        &&& self.player.tag == ActorType::Player
        &&& self.player.size == self.config.player_size
        &&& self.player.hp > 0
        &&& all_wf(self.player_bullets@)
        &&& all_wf(self.enemy_bullets@)
        &&& all_wf(self.enemies@)
        &&& all_wf(self.shields@)
        &&& self.shields@.len() == SHIELD_COUNT
        &&& all_alive(self.player_bullets@)
        &&& all_alive(self.enemy_bullets@)
        &&& all_alive(self.enemies@)
        &&& self.enemies_controller.wf()
        &&& count_alive(self.enemies_controller.enemies_alive_flags@) == self.enemies@.len()
        &&& same_direction(self.enemies@)
        &&& player_inside(self.player, self.config.window_size)
        &&& self.text_fields.wf()
        &&& shield_texts_match(self.shields@, self.text_fields@)
        &&& core_texts_present(self.text_fields@)
        &&& self.score <= SCORE_LIMIT
        &&& self.max_score <= SCORE_LIMIT
    }
}

fn spawn_player(config: &WorldConfig) -> (r: Actor)
    requires
        config.wf(),
    ensures
        r == spawned_player(*config),
        r.wf(),
{
    let mut player = create_player();
    player.position.y = config.window_size.y / 2 - config.window_size.y / 8;
    player.size = config.player_size;
    player
}

fn text(tag: TextTag, value: i64, x: i64, y: i64) -> (r: TextField)
    ensures
        r == text_at(tag, value, x as int, y as int),
{
    TextField { tag, value, text_size: SMALL_TEXT_SIZE, position: Vec2 { x, y } }
}

impl GameState {
    /// A new game in the world `config`, drawing its randomness from `seed`.
    pub fn new(config: WorldConfig, seed: u64) -> (r: GameState)
        requires
            config.wf(),
        ensures
            r.wf(),
            r.config == config,
            r.input == (InputState { left: false, right: false, fire: false }),
            r.player == spawned_player(config),
            r.player_shot_timeout == 0,
            r.player_bullets@.len() == 0,
            r.enemy_bullets@.len() == 0,
            seeded_formation(r.enemies@, config.enemy_image),
            r.shields@.len() == SHIELD_COUNT,
            forall|i: int|
                0 <= i < SHIELD_COUNT ==> #[trigger] r.shields@[i] == crate::shield::seeded_shield(
                    i,
                    config.shield_image,
                    config.window_size,
                ),
            initial_controller_matches(r.enemies_controller),
            r.text_fields@ == initial_texts(config.window_size),
            r.score == 0,
            r.max_score == 0,
    {
        let w = config.window_size;
        let mut texts = HudTexts::new();
        texts.insert(text(TextTag::MaxScore, 0, -(w.x * 5 / 13), -(w.y * 4 / 9)));
        texts.insert(text(TextTag::Score, 0, -(w.x * 5 / 13), -(w.y * 5 / 12)));
        texts.insert(text(TextTag::PlayerLife, PLAYER_LIFE, -(w.x * 5 / 13), w.y * 4 / 9));
        texts.insert(text(TextTag::ShieldHp1, SHIELD_LIFE, -(w.x * 2 / 7), w.y * 2 / 9));
        texts.insert(text(TextTag::ShieldHp2, SHIELD_LIFE, 0, w.y * 2 / 9));
        texts.insert(text(TextTag::ShieldHp3, SHIELD_LIFE, w.x * 2 / 7, w.y * 2 / 9));
        assert(texts@ =~= initial_texts(w));
        let player = spawn_player(&config);
        let enemies = create_enemies(config.enemy_image);
        let shields = create_shields(config.shield_image, w);
        let enemies_controller = create_enemies_controller();
        let state = GameState {
            input: InputState { left: false, right: false, fire: false },
            config,
            player,
            player_shot_timeout: 0,
            player_bullets: Vec::new(),
            enemy_bullets: Vec::new(),
            enemies,
            shields,
            enemies_controller,
            text_fields: texts,
            score: 0,
            max_score: 0,
            rng: seeded_rng(seed),
        };
        proof {
            lemma_seeded_same_direction(state.enemies@, config.enemy_image);
        }
        state
    }
}

pub proof fn lemma_seeded_same_direction(enemies: Seq<Actor>, image: Vec2)
    requires
        seeded_formation(enemies, image),
    ensures
        same_direction(enemies),
        forall|i: int|
            0 <= i < enemies.len() ==> (#[trigger] enemies[i]).direction == (Vec2 { x: 1, y: 0 }),
{
    assert forall|i: int| 0 <= i < enemies.len() implies (#[trigger] enemies[i]).direction == (Vec2 { x: 1, y: 0 }) by {
        let r = i / 11;
        let c = i % 11;
        assert(i == r * 11 + c);
        assert(enemies[r * 11 + c] == crate::formation::seeded_enemy(r, c, crate::formation::scaled_size(image)));
    }
}

/// Whether each actor of `s` is alive, in order.
pub open spec fn alive_flags(s: Seq<Actor>) -> Seq<bool> {
    Seq::new(s.len(), |i: int| s[i].hp > 0)
}

/// Number of live actors in `s`.
pub open spec fn live_count(s: Seq<Actor>) -> nat {
    count_alive(alive_flags(s))
}

/// The live actors of `s`, in order.
pub open spec fn survivors(s: Seq<Actor>) -> Seq<Actor>
    decreases s.len(),
{
    if s.len() == 0 {
        s
    } else if s.last().hp > 0 {
        survivors(s.drop_last()).push(s.last())
    } else {
        survivors(s.drop_last())
    }
}

pub proof fn lemma_survivors(s: Seq<Actor>)
    ensures
        survivors(s).len() == live_count(s),
        all_alive(survivors(s)),
        forall|k: int|
            0 <= k < survivors(s).len() ==> exists|j: int|
                0 <= j < s.len() && #[trigger] survivors(s)[k] == s[j],
    decreases s.len(),
{
    if s.len() > 0 {
        lemma_survivors(s.drop_last());
        assert(alive_flags(s).drop_last() =~= alive_flags(s.drop_last()));
        let prev = survivors(s.drop_last());
        assert forall|k: int| 0 <= k < survivors(s).len() implies exists|j: int|
            0 <= j < s.len() && #[trigger] survivors(s)[k] == s[j] by {
            if k < prev.len() {
                assert(survivors(s)[k] == prev[k]);
                let j = choose|j: int| 0 <= j < s.drop_last().len() && prev[k] == s.drop_last()[j];
                assert(s[j] == s.drop_last()[j]);
            } else {
                assert(survivors(s)[k] == s[s.len() - 1]);
            }
        }
    }
}

/// With every actor alive, nothing is removed.
pub proof fn lemma_survivors_all(s: Seq<Actor>)
    requires
        all_alive(s),
    ensures
        survivors(s) == s,
    decreases s.len(),
{
    if s.len() > 0 {
        lemma_survivors_all(s.drop_last());
        assert(s.drop_last().push(s.last()) =~= s);
    }
}

/// Properties that hold of every actor of `s` hold of its survivors.
pub proof fn lemma_survivors_keep(s: Seq<Actor>)
    ensures
        all_wf(s) ==> all_wf(survivors(s)),
        same_direction(s) ==> same_direction(survivors(s)),
{
    lemma_survivors(s);
    let t = survivors(s);
    if all_wf(s) {
        assert forall|k: int| 0 <= k < t.len() implies (#[trigger] t[k]).wf() by {
            let j = choose|j: int| 0 <= j < s.len() && t[k] == s[j];
        }
    }
    if same_direction(s) {
        assert forall|a: int, b: int|
            0 <= a < t.len() && 0 <= b < t.len() implies (#[trigger] t[a]).direction == (
            #[trigger] t[b]).direction by {
            let ja = choose|j: int| 0 <= j < s.len() && t[a] == s[j];
            let jb = choose|j: int| 0 <= j < s.len() && t[b] == s[j];
        }
    }
}

/// Removes the dead actors of `v`, keeping the order of the others.
pub fn reap(v: &mut Vec<Actor>)
    ensures
        final(v)@ == survivors(old(v)@),
{
    let mut out: Vec<Actor> = Vec::new();
    let mut i: usize = 0;
    assert(v@.take(0) =~= Seq::<Actor>::empty());
    while i < v.len()
        invariant
            i <= v@.len(),
            out@ == survivors(v@.take(i as int)),
        decreases v@.len() - i,
    {
        assert(v@.take(i + 1).drop_last() =~= v@.take(i as int));
        if v[i].hp > 0 {
            out.push(v[i]);
        }
        i = i + 1;
    }
    assert(v@.take(i as int) =~= v@);
    *v = out;
}

/// The fields that the collision and cleanup steps leave alone.
pub open spec fn same_frame(a: &GameState, b: &GameState) -> bool {
    &&& a.input == b.input
    &&& a.config == b.config
    &&& a.player_shot_timeout == b.player_shot_timeout
    &&& a.max_score == b.max_score
    &&& a.rng == b.rng
    &&& a.enemies_controller.enemies_rect == b.enemies_controller.enemies_rect
    &&& crate::formation::cascade_of(a.enemies_controller) == crate::formation::cascade_of(
        b.enemies_controller,
    )
    &&& a.enemies_controller.time_to_shoot == b.enemies_controller.time_to_shoot
    &&& a.enemies_controller.time_from_last_shot == b.enemies_controller.time_from_last_shot
    &&& a.enemies_controller.last_collision_type == b.enemies_controller.last_collision_type
}

/// Everything a tick reads and changes, as plain values.
pub struct Scene {
    pub player: Actor,
    pub player_shot_timeout: u64,
    pub player_bullets: Seq<Actor>,
    pub enemy_bullets: Seq<Actor>,
    pub enemies: Seq<Actor>,
    pub shields: Seq<Actor>,
    pub enemies_rect: Rect,
    pub cascade: Cascade,
    pub tick_time: u64,
    pub time_to_shoot: u64,
    pub time_from_last_shot: u64,
    pub last_collision: WallCollision,
    pub mask: Seq<bool>,
    pub texts: Seq<Option<TextField>>,
    pub score: u64,
    pub max_score: u64,
}

pub open spec fn scene_of(s: &GameState) -> Scene {
    Scene {
        player: s.player,
        player_shot_timeout: s.player_shot_timeout,
        player_bullets: s.player_bullets@,
        enemy_bullets: s.enemy_bullets@,
        enemies: s.enemies@,
        shields: s.shields@,
        enemies_rect: s.enemies_controller.enemies_rect,
        cascade: cascade_of(s.enemies_controller),
        tick_time: s.enemies_controller.tick_time,
        time_to_shoot: s.enemies_controller.time_to_shoot,
        time_from_last_shot: s.enemies_controller.time_from_last_shot,
        last_collision: s.enemies_controller.last_collision_type,
        mask: s.enemies_controller.enemies_alive_flags@,
        texts: s.text_fields@,
        score: s.score,
        max_score: s.max_score,
    }
}

/// The state `b` that a match reset leads to from the scene `a` in the world `config`:
/// a fresh player and formation, the shields kept, the best score the larger
/// of the best and the current score, the score back to zero.
pub open spec fn reset_scene(a: Scene, config: WorldConfig, b: &GameState) -> bool {
    let max = if a.max_score >= a.score {
        a.max_score
    } else {
        a.score
    };
    &&& b.config == config
    &&& b.player == spawned_player(config)
    &&& b.player_shot_timeout == 0
    &&& b.player_bullets@.len() == 0
    &&& b.enemy_bullets@.len() == 0
    &&& seeded_formation(b.enemies@, config.enemy_image)
    &&& b.shields@ == a.shields
    &&& initial_controller_matches(b.enemies_controller)
    &&& b.score == 0
    &&& b.max_score == max
    &&& b.text_fields@ == with_value(
        with_value(with_value(a.texts, TextTag::Score, 0), TextTag::MaxScore, max as i64),
        TextTag::PlayerLife,
        PLAYER_LIFE,
    )
}

/// The state that a match reset leads to from `a`.
pub open spec fn reset_from(a: &GameState, b: &GameState) -> bool {
    &&& b.input == a.input
    &&& b.rng == a.rng
    &&& reset_scene(scene_of(a), a.config, b)
}

impl GameState {
    /// Fires a player bullet and restarts the shot cooldown.
    pub fn fire_player_shot(&mut self)
        requires
            old(self).config.wf(),
            old(self).player.wf(),
        ensures
            final(self).player_shot_timeout == PLAYER_SHOT_TIME,
            final(self).player_bullets@ == old(self).player_bullets@.push(
                player_shot(old(self).player, old(self).config),
            ),
            player_shot(old(self).player, old(self).config).wf(),
            final(self).player == old(self).player,
            final(self).enemy_bullets@ == old(self).enemy_bullets@,
            final(self).enemies@ == old(self).enemies@,
            final(self).shields@ == old(self).shields@,
            final(self).text_fields@ == old(self).text_fields@,
            final(self).score == old(self).score,
            final(self).enemies_controller == old(self).enemies_controller,
            final(self).input == old(self).input,
            final(self).config == old(self).config,
            final(self).max_score == old(self).max_score,
            final(self).rng == old(self).rng,
    {
        self.player_shot_timeout = PLAYER_SHOT_TIME;
        let mut bullet = create_bullet(ActorType::PlayerBullet);
        bullet.position = translate(self.player.position, Vec2 { x: 0, y: -PLAYER_BULLET_OFFSET });
        bullet.size = Vec2 {
            x: self.config.player_bullet_image.x * PLAYER_BULLET_WIDTH_FACTOR,
            y: self.config.player_bullet_image.y,
        };
        bullet.direction.y = -1;
        self.player_bullets.push(bullet);
    }
}

/// What a match reset needs and keeps: the world, the shields and the HUD.
pub open spec fn resettable(s: &GameState) -> bool {
    &&& s.config.wf()
    &&& all_wf(s.shields@)
    &&& s.shields@.len() == SHIELD_COUNT
    &&& s.text_fields.wf()
    &&& shield_texts_match(s.shields@, s.text_fields@)
    &&& core_texts_present(s.text_fields@)
    &&& s.score <= SCORE_LIMIT
    &&& s.max_score <= SCORE_LIMIT
}

impl GameState {
    /// Removes the dead bullets and enemies; the enemies keep their order.
    pub fn clear_dead_actors(&mut self)
        ensures
            final(self).player_bullets@ == survivors(old(self).player_bullets@),
            final(self).enemy_bullets@ == survivors(old(self).enemy_bullets@),
            final(self).enemies@ == survivors(old(self).enemies@),
            final(self).player == old(self).player,
            final(self).shields@ == old(self).shields@,
            final(self).text_fields@ == old(self).text_fields@,
            final(self).text_fields.wf() == old(self).text_fields.wf(),
            final(self).score == old(self).score,
            final(self).enemies_controller == old(self).enemies_controller,
            same_frame(&*final(self), &*old(self)),
    {
        reap(&mut self.player_bullets);
        reap(&mut self.enemy_bullets);
        reap(&mut self.enemies);
    }

    /// Ends the match: a fresh player and formation, the best score kept,
    /// the score back to zero. The shields stay as they are.
    pub fn reset_game(&mut self)
        requires
            resettable(&*old(self)),
        ensures
            reset_from(&*old(self), &*final(self)),
            final(self).wf(),
    {
        self.player_bullets.clear();
        self.enemy_bullets.clear();
        self.enemies.clear();
        self.player = spawn_player(&self.config);
        self.enemies = create_enemies(self.config.enemy_image);
        self.player_shot_timeout = 0;
        self.enemies_controller = create_enemies_controller();
        if self.score > self.max_score {
            self.max_score = self.score;
        }
        self.score = 0;
        self.text_fields.set_value(TextTag::Score, 0);
        self.text_fields.set_value(TextTag::MaxScore, self.max_score as i64);
        self.text_fields.set_value(TextTag::PlayerLife, self.player.hp);
        proof {
            lemma_seeded_same_direction(self.enemies@, self.config.enemy_image);
            let t = self.text_fields@;
            assert forall|i: int| 0 <= i < SHIELD_COUNT implies (t[crate::hud::slot_of(
                #[trigger] shield_tag_of(i).unwrap(),
            )].is_some() <==> self.shields@[i].hp > 0) by {
                assert(t[crate::hud::slot_of(shield_tag_of(i).unwrap())] == old(
                    self,
                ).text_fields@[crate::hud::slot_of(shield_tag_of(i).unwrap())]);
            }
        }
    }
}

} // verus!
