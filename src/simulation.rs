use vstd::prelude::*;
use crate::actor::{
    handle_out_off_screen, player_check_collision_with_walls, player_handle_input, screened,
    steered, walled,
    travelled, update_bullet_position, window_ok, Actor,
};
use crate::collision::{collide_ready, collided, Battle};
use crate::formation::{
    all_wf, bounds, enemies_check_collision_with_walls, enemies_shoot, enemy_shot,
    get_enemies_rect, in_row, lemma_count_all_set, marched, next_cascade, row_moves,
    shooter_candidates, update_enemies_position, wall_outcome, wall_reaction, SHOT_INTERVAL_MAX,
    SHOT_INTERVAL_MIN, TICK,
};
use crate::game::{
    alive_flags, all_alive, lemma_survivors, lemma_survivors_keep, live_count, player_inside,
    player_shot, reset_scene, same_direction, scene_of, survivors, GameState, Scene,
    TickOutcome, WorldConfig, PLAYER_SHOT_TIME,
};
use crate::input::InputState;
use crate::geometry::Vec2;
use crate::input::{latched, Key};

verus! {

/// A bullet after one tick: it travels, and dies if that takes it out of the window.
pub open spec fn flown(b: Actor, window_size: Vec2) -> Actor {
    screened(travelled(b), window_size)
}

/// Every bullet of `s` after one tick.
pub open spec fn flown_all(s: Seq<Actor>, window_size: Vec2) -> Seq<Actor> {
    Seq::new(s.len(), |i: int| flown(s[i], window_size))
}

/// Whether the player fires on this tick: fire is held and the cooldown has run out.
pub open spec fn fires(s: Scene, input: InputState) -> bool {
    input.fire && s.player_shot_timeout.saturating_sub(TICK) == 0
}

/// The player steers, is kept inside the window, and fires when it may.
pub open spec fn steer_phase(s: Scene, input: InputState, config: WorldConfig) -> Scene {
    let p = walled(steered(s.player, input), config.window_size);
    Scene {
        player: p,
        player_shot_timeout: if fires(s, input) {
            PLAYER_SHOT_TIME
        } else {
            s.player_shot_timeout.saturating_sub(TICK)
        },
        player_bullets: if fires(s, input) {
            s.player_bullets.push(player_shot(p, config))
        } else {
            s.player_bullets
        },
        ..s
    }
}

/// All bullets fly one tick.
pub open spec fn fly_phase(s: Scene, window_size: Vec2) -> Scene {
    Scene {
        player_bullets: flown_all(s.player_bullets, window_size),
        enemy_bullets: flown_all(s.enemy_bullets, window_size),
        ..s
    }
}

/// The formation's cascade advances one tick; at the end of a cascade the
/// formation's box is measured again.
#[verifier::opaque]
pub open spec fn march_phase(s: Scene) -> Scene {
    let moving = row_moves(s.cascade, s.tick_time);
    let enemies = Seq::new(
        s.enemies.len(),
        |i: int|
            if moving && in_row(s.mask, s.cascade.row_to_move as int, i) {
                marched(s.enemies[i])
            } else {
                s.enemies[i]
            },
    );
    let cascade = if s.enemies.len() == 0 {
        s.cascade
    } else {
        next_cascade(s.cascade, s.tick_time)
    };
    Scene {
        enemies,
        cascade,
        enemies_rect: if cascade.time_to_update == 0 {
            bounds(survivors(enemies))
        } else {
            s.enemies_rect
        },
        ..s
    }
}

/// What a formation tick does to the enemies, the mask, the step time and the cascade.
pub proof fn lemma_march_phase(s: Scene)
    ensures
        march_phase(s).enemies.len() == s.enemies.len(),
        march_phase(s).mask == s.mask,
        march_phase(s).tick_time == s.tick_time,
        s.enemies.len() > 0 ==> march_phase(s).cascade == next_cascade(s.cascade, s.tick_time),
        forall|i: int|
            0 <= i < s.enemies.len() ==> #[trigger] march_phase(s).enemies[i] == if row_moves(
                s.cascade,
                s.tick_time,
            ) && in_row(s.mask, s.cascade.row_to_move as int, i) {
                marched(s.enemies[i])
            } else {
                s.enemies[i]
            },
{
    reveal(march_phase);
}

/// The wall check.
pub open spec fn bounce_phase(s: Scene, window_size: Vec2) -> Scene {
    let boundary = s.cascade.time_to_update == 0 && s.cascade.time_to_update_inner == 0;
    if s.enemies.len() == 0 {
        s
    } else {
        Scene {
            enemies: Seq::new(
                s.enemies.len(),
                |i: int|
                    wall_reaction(
                        boundary,
                        s.enemies_rect,
                        s.last_collision,
                        s.enemies[i],
                        window_size,
                    ),
            ),
            last_collision: wall_outcome(boundary, s.enemies_rect, s.last_collision, window_size),
            ..s
        }
    }
}

/// `t` is `s` after the enemy shot timer ran for one tick: when a shot is due
/// outside a cascade, one candidate has fired and a new gap in
/// [`SHOT_INTERVAL_MIN`, `SHOT_INTERVAL_MAX`) was drawn.
pub open spec fn volleyed(s: Scene, t: Scene) -> bool {
    let since = s.time_from_last_shot.saturating_add(TICK);
    if s.enemies.len() == 0 {
        t == s
    } else if s.cascade.start_to_move || since <= s.time_to_shoot {
        t == Scene { time_from_last_shot: since, ..s }
    } else {
        &&& SHOT_INTERVAL_MIN <= t.time_to_shoot < SHOT_INTERVAL_MAX
        &&& exists|k: int|
            0 <= k < shooter_candidates(s.mask).len() && t == (Scene {
                enemy_bullets: s.enemy_bullets.push(
                    enemy_shot(s.enemies[shooter_candidates(s.mask)[k]]),
                ),
                time_from_last_shot: 0,
                time_to_shoot: t.time_to_shoot,
                ..s
            })
    }
}

/// The part of the scene that the collision pass works on.
pub open spec fn battle_in(s: Scene) -> Battle {
    Battle {
        player: s.player,
        player_bullets: s.player_bullets,
        enemy_bullets: s.enemy_bullets,
        enemies: s.enemies,
        shields: s.shields,
        mask: s.mask,
        tick_time: s.tick_time,
        score: s.score,
        texts: s.texts,
    }
}

/// The scene after the collision pass produced `b`.
pub open spec fn with_battle(s: Scene, b: Battle) -> Scene {
    Scene {
        player: b.player,
        player_bullets: b.player_bullets,
        enemy_bullets: b.enemy_bullets,
        enemies: b.enemies,
        shields: b.shields,
        mask: b.mask,
        tick_time: b.tick_time,
        score: b.score,
        texts: b.texts,
        ..s
    }
}

/// The dead are removed; after a kill the formation's box is measured again.
pub open spec fn reap_phase(s: Scene, killed: bool) -> Scene {
    let enemies = survivors(s.enemies);
    Scene {
        player_bullets: survivors(s.player_bullets),
        enemy_bullets: survivors(s.enemy_bullets),
        enemies,
        enemies_rect: if killed {
            bounds(survivors(enemies))
        } else {
            s.enemies_rect
        },
        ..s
    }
}

/// `f` and `outcome` are one tick from `o`, where `volley` is the scene right
/// after the enemies' shot timer ran (the one step that depends on the
/// generator): the player phase, the bullets' flight, the formation's march
/// and wall check, the enemy shot, the collision pass, the removal of the
/// dead, and the reset of a match whose player has no hit points left.
pub open spec fn ticked(o: &GameState, f: &GameState, outcome: TickOutcome, volley: Scene) -> bool {
    let w = o.config.window_size;
    let before = bounce_phase(
        march_phase(fly_phase(steer_phase(scene_of(o), o.input, o.config), w)),
        w,
    );
    let b = collided(battle_in(volley));
    let reaped = reap_phase(with_battle(volley, b), outcome.hits > 0);
    &&& volleyed(before, volley)
    &&& outcome.player_shot == fires(scene_of(o), o.input)
    &&& outcome.hits + live_count(b.enemies) == live_count(volley.enemies)
    &&& outcome.match_over == (b.player.hp <= 0)
    &&& f.input == o.input
    &&& f.config == o.config
    &&& !outcome.match_over ==> scene_of(f) == reaped
    &&& outcome.match_over ==> reset_scene(reaped, o.config, f)
}

/// Moves every bullet of `bullets` one tick along.
pub fn advance_bullets(bullets: &mut Vec<Actor>, window_size: Vec2)
    requires
        all_wf(old(bullets)@),
        window_ok(window_size),
    ensures
        final(bullets)@ == flown_all(old(bullets)@, window_size),
        all_wf(final(bullets)@),
{
    let ghost b0 = bullets@;
    let mut i: usize = 0;
    while i < bullets.len()
        invariant
            i <= bullets@.len(),
            bullets@.len() == b0.len(),
            all_wf(b0),
            all_wf(bullets@),
            window_ok(window_size),
            forall|k: int|
                0 <= k < b0.len() ==> #[trigger] bullets@[k] == if k < i {
                    flown(b0[k], window_size)
                } else {
                    b0[k]
                },
        decreases b0.len() - i,
    {
        let mut b = bullets[i];
        update_bullet_position(&mut b);
        handle_out_off_screen(&mut b, window_size);
        bullets.set(i, b);
        i = i + 1;
    }
    assert(bullets@ =~= flown_all(b0, window_size));
}

/// With every actor alive, the live count is the length.
pub proof fn lemma_live_count_all(s: Seq<Actor>)
    requires
        all_alive(s),
    ensures
        live_count(s) == s.len(),
{
    assert(alive_flags(s) =~= crate::formation::all_set(s.len()));
    lemma_count_all_set(s.len());
}

/// A state between two ticks is ready for the collision pass.
pub proof fn lemma_wf_collide_ready(s: &GameState)
    requires
        s.wf(),
    ensures
        collide_ready(s),
{
    lemma_live_count_all(s.enemies@);
}

impl GameState {
    /// Latches a pressed key.
    pub fn key_down_event(&mut self, key: Key)
        ensures
            final(self).input == latched(old(self).input, key, true),
            final(self).player == old(self).player,
            old(self).wf() ==> final(self).wf(),
    {
        self.input.key_down_event(key);
    }

    /// Releases a key's latch.
    pub fn key_up_event(&mut self, key: Key)
        ensures
            final(self).input == latched(old(self).input, key, false),
            final(self).player == old(self).player,
            old(self).wf() ==> final(self).wf(),
    {
        self.input.key_up_event(key);
    }

    /// The player steers, is kept inside the window and fires when it may.
    fn player_phase(&mut self) -> (shot: bool)
        requires
            old(self).wf(),
        ensures
            scene_of(&*final(self)) == steer_phase(
                scene_of(&*old(self)),
                old(self).input,
                old(self).config,
            ),
            shot == fires(scene_of(&*old(self)), old(self).input),
            final(self).player.wf(),
            final(self).player.tag == old(self).player.tag,
            final(self).player.size == old(self).player.size,
            player_inside(final(self).player, final(self).config.window_size),
            all_wf(final(self).player_bullets@),
            final(self).enemies_controller == old(self).enemies_controller,
            final(self).input == old(self).input,
            final(self).config == old(self).config,
            final(self).rng == old(self).rng,
            final(self).text_fields.wf() == old(self).text_fields.wf(),
    {
        let w = self.config.window_size;
        player_handle_input(&mut self.player, &self.input);
        player_check_collision_with_walls(&mut self.player, w);
        self.player_shot_timeout = self.player_shot_timeout.saturating_sub(TICK);
        if self.input.fire && self.player_shot_timeout == 0 {
            let ghost pb = self.player_bullets@;
            self.fire_player_shot();
            proof {
                let nb = self.player_bullets@;
                assert forall|i: int| 0 <= i < nb.len() implies (#[trigger] nb[i]).wf() by {
                    if i < pb.len() {
                        assert(nb[i] == pb[i]);
                    }
                }
            }
            return true;
        }
        false
    }

    /// The formation marches one tick and, at the end of a cascade, is measured again.
    fn march_step(&mut self)
        requires
            all_wf(old(self).enemies@),
            all_alive(old(self).enemies@),
            same_direction(old(self).enemies@),
            old(self).enemies_controller.wf(),
            crate::formation::count_alive(old(self).enemies_controller.enemies_alive_flags@)
                == old(self).enemies@.len(),
        ensures
            scene_of(&*final(self)) == march_phase(scene_of(&*old(self))),
            final(self).player == old(self).player,
            final(self).player_bullets@ == old(self).player_bullets@,
            final(self).enemy_bullets@ == old(self).enemy_bullets@,
            final(self).shields@ == old(self).shields@,
            final(self).text_fields@ == old(self).text_fields@,
            final(self).score == old(self).score,
            final(self).max_score == old(self).max_score,
            final(self).enemies_controller.tick_time == old(self).enemies_controller.tick_time,
            final(self).enemies_controller.enemies_alive_flags@ == old(
                self,
            ).enemies_controller.enemies_alive_flags@,
            all_wf(final(self).enemies@),
            all_alive(final(self).enemies@),
            same_direction(final(self).enemies@),
            final(self).enemies_controller.wf(),
            final(self).enemies@.len() == old(self).enemies@.len(),
            final(self).input == old(self).input,
            final(self).config == old(self).config,
            final(self).text_fields.wf() == old(self).text_fields.wf(),
    {
        let ghost s1 = scene_of(&*self);
        let ghost e0 = self.enemies@;
        update_enemies_position(&mut self.enemies_controller, &mut self.enemies);
        if self.enemies_controller.time_to_update == 0 {
            self.enemies_controller.enemies_rect = get_enemies_rect(&self.enemies);
        }
        let ghost e1 = self.enemies@;
        proof {
            reveal(march_phase);
            assert(e1 =~= march_phase(s1).enemies);
            assert(scene_of(&*self) == march_phase(s1));
            assert forall|i: int, j: int|
                0 <= i < e1.len() && 0 <= j < e1.len() implies (#[trigger] e1[i]).direction == (
                #[trigger] e1[j]).direction by {
                assert(e0[i].direction == e0[j].direction);
            }
            assert forall|i: int| 0 <= i < e1.len() implies (#[trigger] e1[i]).hp > 0 by {
                assert(e0[i].hp > 0);
            }
        }
    }

    /// The wall check.
    fn bounce_step(&mut self)
        requires
            old(self).config.wf(),
            all_wf(old(self).enemies@),
            all_alive(old(self).enemies@),
            same_direction(old(self).enemies@),
            old(self).enemies_controller.wf(),
        ensures
            scene_of(&*final(self)) == bounce_phase(
                scene_of(&*old(self)),
                old(self).config.window_size,
            ),
            all_wf(final(self).enemies@),
            all_alive(final(self).enemies@),
            same_direction(final(self).enemies@),
            final(self).enemies_controller.wf(),
            final(self).enemies@.len() == old(self).enemies@.len(),
            final(self).input == old(self).input,
            final(self).config == old(self).config,
            final(self).text_fields.wf() == old(self).text_fields.wf(),
    {
        let w = self.config.window_size;
        let ghost s2 = scene_of(&*self);
        let ghost e1 = self.enemies@;
        enemies_check_collision_with_walls(&mut self.enemies_controller, &mut self.enemies, w);
        let ghost e2 = self.enemies@;
        proof {
            if e1.len() > 0 {
                assert(e2 =~= bounce_phase(s2, w).enemies);
            } else {
                assert(e2 =~= e1);
            }
            assert(scene_of(&*self) == bounce_phase(s2, w));
            assert forall|i: int, j: int|
                0 <= i < e2.len() && 0 <= j < e2.len() implies (#[trigger] e2[i]).direction == (
                #[trigger] e2[j]).direction by {
                assert(e1[i].direction == e1[j].direction);
            }
            assert forall|i: int| 0 <= i < e2.len() implies (#[trigger] e2[i]).hp > 0 by {
                assert(e1[i].hp > 0);
            }
        }
    }

    /// The enemies' shot timer runs one tick.
    fn shoot_step(&mut self)
        requires
            all_wf(old(self).enemies@),
            all_wf(old(self).enemy_bullets@),
            all_alive(old(self).enemies@),
            old(self).enemies_controller.wf(),
            crate::formation::count_alive(old(self).enemies_controller.enemies_alive_flags@)
                == old(self).enemies@.len(),
        ensures
            volleyed(scene_of(&*old(self)), scene_of(&*final(self))),
            all_wf(final(self).enemy_bullets@),
            final(self).enemies@ == old(self).enemies@,
            final(self).enemies_controller.wf(),
            final(self).input == old(self).input,
            final(self).config == old(self).config,
            final(self).text_fields.wf() == old(self).text_fields.wf(),
    {
        let ghost s3 = scene_of(&*self);
        let ghost eb = self.enemy_bullets@;
        enemies_shoot(
            &mut self.enemies_controller,
            &self.enemies,
            &mut self.enemy_bullets,
            &mut self.rng,
        );
        proof {
            let t = scene_of(&*self);
            if s3.enemies.len() > 0 && !s3.cascade.start_to_move
                && s3.time_from_last_shot.saturating_add(TICK) > s3.time_to_shoot {
                let k = choose|k: int|
                    0 <= k < shooter_candidates(s3.mask).len()
                        && self.enemy_bullets@ == s3.enemy_bullets.push(
                        enemy_shot(s3.enemies[shooter_candidates(s3.mask)[k]]),
                    );
                assert(t == (Scene {
                    enemy_bullets: s3.enemy_bullets.push(
                        enemy_shot(s3.enemies[shooter_candidates(s3.mask)[k]]),
                    ),
                    time_from_last_shot: 0,
                    time_to_shoot: t.time_to_shoot,
                    ..s3
                }));
                crate::formation::lemma_shooters(s3.mask, crate::formation::COLUMNS as int);
                let shooter = s3.enemies[shooter_candidates(s3.mask)[k]];
                assert(shooter.wf());
                let nb = self.enemy_bullets@;
                assert forall|i: int| 0 <= i < nb.len() implies (#[trigger] nb[i]).wf() by {
                    if i < eb.len() {
                        assert(nb[i] == eb[i]);
                    }
                }
            }
        }
    }

    /// The bullets fly, and the formation marches, bounces and shoots.
    fn world_phase(&mut self)
        requires
            old(self).config.wf(),
            all_wf(old(self).player_bullets@),
            all_wf(old(self).enemy_bullets@),
            all_wf(old(self).enemies@),
            all_alive(old(self).enemies@),
            same_direction(old(self).enemies@),
            old(self).enemies_controller.wf(),
            crate::formation::count_alive(old(self).enemies_controller.enemies_alive_flags@)
                == old(self).enemies@.len(),
        ensures
            volleyed(
                bounce_phase(
                    march_phase(fly_phase(scene_of(&*old(self)), old(self).config.window_size)),
                    old(self).config.window_size,
                ),
                scene_of(&*final(self)),
            ),
            all_wf(final(self).player_bullets@),
            all_wf(final(self).enemy_bullets@),
            all_wf(final(self).enemies@),
            all_alive(final(self).enemies@),
            same_direction(final(self).enemies@),
            final(self).enemies_controller.wf(),
            crate::formation::count_alive(final(self).enemies_controller.enemies_alive_flags@)
                == live_count(final(self).enemies@),
            live_count(final(self).enemies@) == old(self).enemies@.len(),
            final(self).player == old(self).player,
            final(self).shields@ == old(self).shields@,
            final(self).text_fields@ == old(self).text_fields@,
            final(self).score == old(self).score,
            final(self).max_score == old(self).max_score,
            final(self).enemies_controller.tick_time == old(self).enemies_controller.tick_time,
            final(self).text_fields.wf() == old(self).text_fields.wf(),
            final(self).input == old(self).input,
            final(self).config == old(self).config,
    {
        let w = self.config.window_size;
        let ghost s0 = scene_of(&*self);
        advance_bullets(&mut self.player_bullets, w);
        advance_bullets(&mut self.enemy_bullets, w);
        assert(scene_of(&*self) == fly_phase(s0, w));
        self.march_step();
        self.bounce_step();
        proof {
            lemma_live_count_all(self.enemies@);
        }
        self.shoot_step();
    }

    /// The dead are removed, the formation's box follows its losses, and a
    /// player without hit points ends the match.
    fn cleanup_phase(&mut self, kills: usize) -> (over: bool)
        requires
            collide_ready(&*old(self)),
            old(self).config.wf(),
            old(self).player.tag == crate::actor::ActorType::Player,
            old(self).player.size == old(self).config.player_size,
            player_inside(old(self).player, old(self).config.window_size),
            old(self).max_score <= crate::game::SCORE_LIMIT,
        ensures
            final(self).wf(),
            final(self).input == old(self).input,
            final(self).config == old(self).config,
            over == (old(self).player.hp <= 0),
            !over ==> scene_of(&*final(self)) == reap_phase(scene_of(&*old(self)), kills > 0),
            over ==> reset_scene(
                reap_phase(scene_of(&*old(self)), kills > 0),
                old(self).config,
                &*final(self),
            ),
    {
        let ghost before = self.enemies@;
        self.clear_dead_actors();
        proof {
            lemma_survivors(before);
            lemma_survivors_keep(before);
            lemma_survivors(old(self).player_bullets@);
            lemma_survivors_keep(old(self).player_bullets@);
            lemma_survivors(old(self).enemy_bullets@);
            lemma_survivors_keep(old(self).enemy_bullets@);
        }
        if kills > 0 {
            self.enemies_controller.enemies_rect = get_enemies_rect(&self.enemies);
        }
        let over = self.player.hp <= 0;
        if over {
            self.reset_game();
        }
        over
    }

    /// Advances the world by one tick of 1/60 s: the player moves and fires,
    /// the bullets fly, the formation marches, bounces and shoots, the
    /// collisions resolve, the dead are removed, and a match whose player has
    /// no hit points left starts over. Only the enemy shot depends on the
    /// generator; `ticked` states the rest exactly.
    pub fn update(&mut self) -> (outcome: TickOutcome)
        requires
            old(self).wf(),
        ensures
            final(self).wf(),
            exists|volley: Scene| ticked(&*old(self), &*final(self), outcome, volley),
            outcome.match_over ==> final(self).max_score >= old(self).max_score,
            !outcome.match_over ==> {
                &&& final(self).enemies_controller.tick_time <= old(self).enemies_controller.tick_time
                &&& final(self).max_score == old(self).max_score
            },
    {
        let shot = self.player_phase();
        self.world_phase();
        let ghost volley = scene_of(&*self);
        let kills = self.handle_collision();
        let ghost resolved = scene_of(&*self);
        assert(resolved == with_battle(volley, collided(battle_in(volley))));
        let over = self.cleanup_phase(kills);
        let outcome = TickOutcome { player_shot: shot, hits: kills, match_over: over };
        assert(ticked(&*old(self), &*self, outcome, volley));
        outcome
    }
}

} // verus!
