use galactic_strike::actor::{create_bullet, update_bullet_position, Actor, ActorType};
use galactic_strike::formation::{WallCollision, CELLS, ENEMY_JUMP, ENEMY_START_TICK, TICK};
use galactic_strike::game::{GameState, WorldConfig};
use galactic_strike::geometry::{pixels, Vec2};
use galactic_strike::hud::TextTag;
use galactic_strike::input::Key;

fn px(x: u32, y: u32) -> Vec2 {
    Vec2 { x: pixels(x), y: pixels(y) }
}

fn config() -> WorldConfig {
    WorldConfig {
        window_size: px(650, 700),
        player_size: px(50, 30),
        player_bullet_image: px(2, 10),
        enemy_image: px(40, 30),
        shield_image: px(80, 60),
    }
}

/// A game whose enemies never get to shoot.
fn quiet_game() -> GameState {
    let mut g = GameState::new(config(), 7);
    g.enemies_controller.time_to_shoot = u64::MAX;
    g
}

fn player_bullet_at(p: Vec2) -> Actor {
    let mut b = create_bullet(ActorType::PlayerBullet);
    b.position = p;
    b.direction = Vec2 { x: 0, y: -1 };
    b.size = Vec2 { x: pixels(16), y: pixels(10) };
    b
}

#[test]
fn shot_cadence_six_bullets_in_three_seconds() {
    let mut g = quiet_game();
    g.input.fire = true;
    let mut shot_ticks = Vec::new();
    for t in 0..180u32 {
        let sounds = g.update();
        if sounds.player_shot {
            shot_ticks.push(t);
        }
    }
    assert_eq!(shot_ticks, vec![0, 30, 60, 90, 120, 150]);
}

#[test]
fn bullet_travels_five_hundred_pixels_in_forty_ticks() {
    let mut b = create_bullet(ActorType::PlayerBullet);
    b.direction = Vec2 { x: 0, y: -1 };
    b.position = Vec2 { x: 0, y: pixels(300) };
    let y0 = b.position.y;
    for t in 1..=40i64 {
        update_bullet_position(&mut b);
        assert_eq!(b.position.y, y0 - 750 * t);
    }
    assert_eq!(b.position.y, y0 - pixels(500));
}

#[test]
fn kill_scoring_enemy_c() {
    let mut g = quiet_game();
    // Leave a single EnemyC alive, in column 3 of the top row.
    let target = g.enemies[3];
    assert_eq!(target.tag, ActorType::EnemyC);
    g.enemies = vec![target];
    for c in 0..CELLS {
        g.enemies_controller.enemies_alive_flags[c] = c == 3;
    }
    g.score = 40;
    g.max_score = 900;
    g.player_bullets.push(player_bullet_at(target.position));
    let kills = g.handle_collision();
    assert_eq!(kills, 1);
    assert_eq!(g.score, 190);
    assert!(!g.enemies_controller.enemies_alive_flags[3]);
    assert_eq!(g.enemies_controller.tick_time, ENEMY_START_TICK / 5 * 4);
    assert_eq!(g.max_score, 900);
    assert_eq!(g.text_fields.get(TextTag::Score).unwrap().value, 190);
    assert!(g.enemies[0].hp <= 0);
    assert!(g.player_bullets[0].hp <= 0);
}

#[test]
fn kill_clears_bottom_cell_of_column() {
    let mut g = quiet_game();
    // The lowest enemy of column 4 sits in row 4 at list index 48.
    let target = g.enemies[48];
    assert_eq!(target.tag, ActorType::EnemyA);
    g.player_bullets.push(player_bullet_at(target.position));
    let sounds = g.update();
    assert_eq!(sounds.hits, 1);
    assert_eq!(g.score, 50);
    assert!(!g.enemies_controller.enemies_alive_flags[48]);
    let alive = g.enemies_controller.enemies_alive_flags.iter().filter(|a| **a).count();
    assert_eq!(alive, 54);
    assert_eq!(g.enemies.len(), 54);
    assert_eq!(g.enemies_controller.tick_time, ENEMY_START_TICK / 5 * 4);
}

#[test]
fn wall_bounce_steps_down_once_then_turns() {
    let mut g = quiet_game();
    let half = g.config.window_size.x / 2;
    let mut ticks = 0;
    // March until a wall check finds the formation past the right wall.
    loop {
        g.update();
        ticks += 1;
        assert!(ticks < 20_000);
        if g.enemies_controller.last_collision_type == WallCollision::Right {
            break;
        }
    }
    assert!(g.enemies.iter().all(|e| e.direction == Vec2 { x: 0, y: 1 }));
    let ys: Vec<i64> = g.enemies.iter().map(|e| e.position.y).collect();
    let xs: Vec<i64> = g.enemies.iter().map(|e| e.position.x).collect();
    // Pushed back so that the formation's right edge lies on the wall.
    assert_eq!(galactic_strike::formation::get_enemies_rect(&g.enemies).right, half);
    // Run to the next cascade boundary.
    loop {
        g.update();
        ticks += 1;
        assert!(ticks < 20_000);
        if g.enemies_controller.time_to_update == 0 && g.enemies_controller.time_to_update_inner == 0 {
            break;
        }
    }
    for (i, e) in g.enemies.iter().enumerate() {
        assert_eq!(e.position.y, ys[i] + ENEMY_JUMP);
        assert_eq!(e.position.x, xs[i]);
        assert_eq!(e.direction, Vec2 { x: -1, y: 0 });
    }
    assert_eq!(g.enemies_controller.enemies_rect.right, half);
    assert_eq!(g.enemies_controller.last_collision_type, WallCollision::Clear);
}

#[test]
fn match_reset_after_three_hits() {
    let mut g = quiet_game();
    g.score = 500;
    g.max_score = 200;
    g.enemies.truncate(0);
    for c in 0..CELLS {
        g.enemies_controller.enemies_alive_flags[c] = false;
    }
    for hit in 1..=3i64 {
        let mut b = create_bullet(ActorType::EnemyBulletSlow);
        b.direction = Vec2 { x: 0, y: 1 };
        b.position = Vec2 { x: g.player.position.x, y: g.player.position.y - pixels(10) };
        g.enemy_bullets.push(b);
        let sounds = g.update();
        if hit < 3 {
            assert!(!sounds.match_over);
            assert_eq!(g.player.hp, 3 - hit);
            assert_eq!(g.text_fields.get(TextTag::PlayerLife).unwrap().value, 3 - hit);
        } else {
            assert!(sounds.match_over);
        }
    }
    assert_eq!(g.player.hp, 3);
    assert_eq!(g.score, 0);
    assert_eq!(g.max_score, 500);
    assert_eq!(g.enemies.len(), 55);
    assert!(g.enemies_controller.enemies_alive_flags.iter().all(|a| *a));
    assert_eq!(g.enemies_controller.tick_time, ENEMY_START_TICK);
    assert_eq!(g.text_fields.get(TextTag::MaxScore).unwrap().value, 500);
    assert_eq!(g.text_fields.get(TextTag::Score).unwrap().value, 0);
    assert_eq!(g.text_fields.get(TextTag::PlayerLife).unwrap().value, 3);
}

#[test]
fn shield_depletion_removes_text_and_rectangle() {
    let mut g = quiet_game();
    let shield = g.shields[0];
    for k in 1..=5i64 {
        g.player_bullets = vec![player_bullet_at(shield.position)];
        g.handle_collision();
        assert!(g.player_bullets[0].hp <= 0);
        assert_eq!(g.shields[0].hp, 5 - k);
        if k < 5 {
            assert_eq!(g.text_fields.get(TextTag::ShieldHp1).unwrap().value, 5 - k);
        }
    }
    assert!(g.text_fields.get(TextTag::ShieldHp1).is_none());
    assert!(g.text_fields.get(TextTag::ShieldHp2).is_some());
    g.player_bullets = vec![player_bullet_at(shield.position)];
    g.handle_collision();
    assert_eq!(g.player_bullets[0].hp, 1);
    assert_eq!(g.shields[0].hp, 0);
}

#[test]
fn tick_time_only_falls_during_a_match() {
    let mut g = quiet_game();
    g.input.fire = true;
    let mut last = g.enemies_controller.tick_time;
    for _ in 0..2000 {
        let sounds = g.update();
        assert!(!sounds.match_over);
        assert!(g.enemies_controller.tick_time <= last);
        last = g.enemies_controller.tick_time;
    }
    assert!(last < ENEMY_START_TICK);
}

#[test]
fn invariants_hold_over_a_long_run() {
    let mut g = GameState::new(config(), 11);
    g.input.fire = true;
    g.input.right = true;
    for t in 0..6000u32 {
        if t % 700 == 0 {
            g.input.right = !g.input.right;
            g.input.left = !g.input.right;
        }
        g.update();
        assert!(g.player.hp > 0);
        assert!(g.player_bullets.iter().all(|b| b.hp > 0));
        assert!(g.enemy_bullets.iter().all(|b| b.hp > 0));
        assert!(g.enemies.iter().all(|e| e.hp > 0));
        let alive = g.enemies_controller.enemies_alive_flags.iter().filter(|a| **a).count();
        assert_eq!(alive, g.enemies.len());
        if let Some(first) = g.enemies.first() {
            assert!(g.enemies.iter().all(|e| e.direction == first.direction));
        }
        let half = g.config.window_size.x / 2;
        let r = g.player.get_rect();
        assert!(-half <= r.left && r.right <= half);
        let tags = [TextTag::ShieldHp1, TextTag::ShieldHp2, TextTag::ShieldHp3];
        for (i, tag) in tags.iter().enumerate() {
            assert_eq!(g.text_fields.get(*tag).is_some(), g.shields[i].hp > 0);
        }
    }
}

#[test]
fn both_keys_held_keeps_player_still() {
    let mut g = quiet_game();
    g.input.left = true;
    g.input.right = true;
    let x = g.player.position.x;
    for _ in 0..30 {
        g.update();
        assert_eq!(g.player.position.x, x);
    }
    g.input.left = false;
    g.update();
    assert_eq!(g.player.position.x, x + 100);
}

#[test]
fn reset_twice_equals_reset_once() {
    let mut g = quiet_game();
    g.score = 300;
    g.input.fire = true;
    for _ in 0..100 {
        g.update();
    }
    g.reset_game();
    let once_max = g.max_score;
    let once_enemies = g.enemies.clone();
    let once_player = g.player;
    let once_texts = g.text_fields.entries();
    g.reset_game();
    assert_eq!(g.max_score, once_max);
    assert_eq!(g.enemies, once_enemies);
    assert_eq!(g.player, once_player);
    assert_eq!(g.text_fields.entries(), once_texts);
    assert_eq!(g.score, 0);
    assert!(g.player_bullets.is_empty());
    assert_eq!(g.enemies_controller.tick_time, ENEMY_START_TICK);
}

#[test]
fn new_game_layout() {
    let g = GameState::new(config(), 1);
    let w = pixels(650);
    let h = pixels(700);
    assert_eq!(g.player.position, Vec2 { x: 0, y: h / 2 - h / 8 });
    assert_eq!(g.player.hp, 3);
    assert_eq!(g.enemies.len(), 55);
    assert_eq!(g.shields.len(), 3);
    assert_eq!(g.score, 0);
    assert_eq!(g.max_score, 0);
    let score = g.text_fields.get(TextTag::Score).unwrap();
    assert_eq!(score.position, Vec2 { x: -(w * 5 / 13), y: -(h * 5 / 12) });
    assert_eq!(score.value, 0);
    assert_eq!(score.text_size, 16);
    let max = g.text_fields.get(TextTag::MaxScore).unwrap();
    assert_eq!(max.position, Vec2 { x: -(w * 5 / 13), y: -(h * 4 / 9) });
    let life = g.text_fields.get(TextTag::PlayerLife).unwrap();
    assert_eq!(life.position, Vec2 { x: -(w * 5 / 13), y: h * 4 / 9 });
    assert_eq!(life.value, 3);
    let s1 = g.text_fields.get(TextTag::ShieldHp1).unwrap();
    let s2 = g.text_fields.get(TextTag::ShieldHp2).unwrap();
    let s3 = g.text_fields.get(TextTag::ShieldHp3).unwrap();
    assert_eq!(s1.position, Vec2 { x: -(w * 2 / 7), y: h * 2 / 9 });
    assert_eq!(s2.position, Vec2 { x: 0, y: h * 2 / 9 });
    assert_eq!(s3.position, Vec2 { x: w * 2 / 7, y: h * 2 / 9 });
    assert_eq!(s1.value, 5);
    assert_eq!(g.text_fields.entries().len(), 6);
}

#[test]
fn config_validity() {
    assert!(config().is_valid());
    let mut odd = config();
    odd.window_size.x = 39_001;
    assert!(!odd.is_valid());
    let mut wide = config();
    wide.player_size.x = pixels(700);
    assert!(!wide.is_valid());
    let mut empty = config();
    empty.window_size.y = 0;
    assert!(!empty.is_valid());
}

#[test]
fn player_bullet_spawn() {
    let mut g = quiet_game();
    g.input.fire = true;
    let sounds = g.update();
    assert!(sounds.player_shot);
    assert_eq!(g.player_bullets.len(), 1);
    let b = g.player_bullets[0];
    assert_eq!(b.tag, ActorType::PlayerBullet);
    assert_eq!(b.direction, Vec2 { x: 0, y: -1 });
    assert_eq!(b.size, Vec2 { x: pixels(16), y: pixels(10) });
    // Spawned 10 px above the player, then one tick of travel.
    assert_eq!(b.position.y, g.player.position.y - pixels(10) - 750);
    assert_eq!(g.player_shot_timeout, 30 * TICK);
}

#[test]
fn key_events_drive_the_player() {
    let mut g = quiet_game();
    g.key_down_event(Key::Right);
    let x = g.player.position.x;
    g.update();
    assert_eq!(g.player.position.x, x + 100);
    g.key_up_event(Key::Right);
    g.update();
    assert_eq!(g.player.position.x, x + 100);
    // Held long enough, the player stops at the wall.
    g.key_down_event(Key::Left);
    for _ in 0..1000 {
        g.update();
    }
    assert_eq!(g.player.position.x, -pixels(325) + pixels(25));
}

#[test]
fn enemy_bullet_destroys_player_bullet() {
    let mut g = quiet_game();
    let spot = Vec2 { x: pixels(100), y: pixels(60) };
    g.player_bullets.push(player_bullet_at(spot));
    let mut b = create_bullet(ActorType::EnemyBulletFast);
    b.direction = Vec2 { x: 0, y: 1 };
    b.position = spot;
    g.enemy_bullets.push(b);
    g.handle_collision();
    assert!(g.player_bullets[0].hp <= 0);
    assert!(g.enemy_bullets[0].hp <= 0);
    assert_eq!(g.player.hp, 3);
}

#[test]
fn enemy_bullet_damages_shield() {
    let mut g = quiet_game();
    let mut b = create_bullet(ActorType::EnemyBulletSlow);
    b.direction = Vec2 { x: 0, y: 1 };
    b.position = g.shields[2].position;
    g.enemy_bullets.push(b);
    g.handle_collision();
    assert!(g.enemy_bullets[0].hp <= 0);
    assert_eq!(g.shields[2].hp, 4);
    assert_eq!(g.text_fields.get(TextTag::ShieldHp3).unwrap().value, 4);
    assert_eq!(g.shields[0].hp, 5);
}

#[test]
fn enemy_bullet_meets_player_bullet_killed_this_tick() {
    let mut g = quiet_game();
    // A player bullet that already hit a shield this tick still stops an enemy bullet.
    let spot = g.shields[1].position;
    g.player_bullets.push(player_bullet_at(spot));
    let mut b = create_bullet(ActorType::EnemyBulletSlow);
    b.direction = Vec2 { x: 0, y: 1 };
    b.position = spot;
    g.enemy_bullets.push(b);
    g.handle_collision();
    assert!(g.player_bullets[0].hp <= 0);
    assert!(g.enemy_bullets[0].hp <= 0);
    // Only the player bullet reached the shield.
    assert_eq!(g.shields[1].hp, 4);
}
