use galactic_strike::actor::{
    create_bullet, create_enemy, create_player, create_shield, handle_out_off_screen, kill_value,
    player_check_collision_with_walls, player_handle_input, Actor, ActorType,
};
use galactic_strike::formation::{
    create_enemies, create_enemies_controller, enemies_check_collision_with_walls,
    enemies_shoot, find_shooters, fire_enemy_shot, get_enemies_rect, update_enemies_position,
    WallCollision, CELLS, ENEMY_START_TICK, SHOT_INTERVAL_MAX, SHOT_INTERVAL_MIN, TICK,
};
use galactic_strike::geometry::{
    pixels, point_in_rect, point_position_in_rect, world_to_screen_coords, Rect, Vec2,
};
use galactic_strike::hud::{HudTexts, TextField, TextTag};
use galactic_strike::input::{InputState, Key};
use rand::rngs::StdRng;
use rand::SeedableRng;
use galactic_strike::shield::{create_shields, damage_shield, get_shield_damage_texture};

fn window() -> Vec2 {
    Vec2 { x: pixels(650), y: pixels(700) }
}

#[test]
fn pixels_are_sixty_units() {
    assert_eq!(pixels(650), 39_000);
    assert_eq!(pixels(0), 0);
}

#[test]
fn fresh_actors() {
    let p = create_player();
    assert_eq!(p.tag, ActorType::Player);
    assert_eq!(p.hp, 3);
    assert_eq!(p.scale, Vec2 { x: 100, y: 100 });
    assert_eq!(create_bullet(ActorType::EnemyBulletFast).hp, 1);
    assert_eq!(create_enemy().tag, ActorType::EnemyA);
    assert_eq!(create_shield().hp, 5);
}

#[test]
fn kill_values() {
    assert_eq!(kill_value(ActorType::EnemyA), 50);
    assert_eq!(kill_value(ActorType::EnemyB), 100);
    assert_eq!(kill_value(ActorType::EnemyC), 150);
    assert_eq!(kill_value(ActorType::EnemyE), 250);
    assert_eq!(kill_value(ActorType::Shield), 0);
}

#[test]
fn player_moves_with_keys() {
    let mut p = create_player();
    let input = InputState { left: false, right: true, fire: false };
    player_handle_input(&mut p, &input);
    assert_eq!(p.direction.x, 1);
    assert_eq!(p.position.x, 100);
    let input = InputState { left: true, right: false, fire: false };
    player_handle_input(&mut p, &input);
    player_handle_input(&mut p, &input);
    assert_eq!(p.position.x, -100);
    assert_eq!(p.direction.x, -1);
}

#[test]
fn player_clamped_to_walls() {
    let mut p = create_player();
    p.size = Vec2 { x: pixels(50), y: pixels(30) };
    p.position.x = pixels(400);
    player_check_collision_with_walls(&mut p, window());
    assert_eq!(p.position.x, pixels(325) - pixels(25));
    p.position.x = -pixels(330);
    player_check_collision_with_walls(&mut p, window());
    assert_eq!(p.position.x, -pixels(325) + pixels(25));
    p.position.x = 7;
    player_check_collision_with_walls(&mut p, window());
    assert_eq!(p.position.x, 7);
}

#[test]
fn off_screen_is_sticky_and_idempotent() {
    let mut b = create_bullet(ActorType::PlayerBullet);
    b.position = Vec2 { x: 0, y: -pixels(351) };
    handle_out_off_screen(&mut b, window());
    assert_eq!(b.hp, -1);
    let once = b;
    handle_out_off_screen(&mut b, window());
    assert_eq!(b, once);
    let mut inside = create_bullet(ActorType::PlayerBullet);
    inside.position = Vec2 { x: pixels(325), y: pixels(350) };
    handle_out_off_screen(&mut inside, window());
    assert_eq!(inside.hp, 1);
}

#[test]
fn enemy_bullets_move_at_their_speeds() {
    let mut slow = create_bullet(ActorType::EnemyBulletSlow);
    slow.direction = Vec2 { x: 0, y: 1 };
    let mut fast = create_bullet(ActorType::EnemyBulletFast);
    fast.direction = Vec2 { x: 0, y: 1 };
    for _ in 0..60 {
        galactic_strike::actor::update_bullet_position(&mut slow);
        galactic_strike::actor::update_bullet_position(&mut fast);
    }
    assert_eq!(slow.position.y, pixels(350));
    assert_eq!(fast.position.y, pixels(550));
}

#[test]
fn points_and_rects() {
    let r = Rect { left: 0, top: 0, right: 10, bottom: 10 };
    assert!(point_in_rect(&Vec2 { x: 5, y: 5 }, &r));
    assert!(!point_in_rect(&Vec2 { x: 0, y: 5 }, &r));
    assert!(!point_in_rect(&Vec2 { x: 5, y: 10 }, &r));
    assert_eq!(point_position_in_rect(&Vec2 { x: 3, y: 4 }, &r), Vec2 { x: 3, y: -6 });
    assert_eq!(world_to_screen_coords(window(), Vec2 { x: 0, y: 0 }), Vec2 { x: 19_500, y: 21_000 });
    let mut a = create_enemy();
    a.size = Vec2 { x: 10, y: 20 };
    a.position = Vec2 { x: 100, y: 50 };
    assert_eq!(a.get_rect(), Rect { left: 95, top: 40, right: 105, bottom: 60 });
}

#[test]
fn seeded_formation_layout() {
    let e = create_enemies(Vec2 { x: pixels(40), y: pixels(30) });
    assert_eq!(e.len(), 55);
    // 40 px * 0.7 = 28 px wide, 30 px * 0.7 = 21 px high.
    assert_eq!(e[0].size, Vec2 { x: pixels(28), y: pixels(21) });
    assert_eq!(e[0].position, Vec2 { x: -5 * pixels(48), y: -5 * pixels(41) });
    assert_eq!(e[54].position, Vec2 { x: 5 * pixels(48), y: -pixels(41) });
    assert_eq!(e[0].tag, ActorType::EnemyC);
    assert_eq!(e[11].tag, ActorType::EnemyB);
    assert_eq!(e[22].tag, ActorType::EnemyB);
    assert_eq!(e[33].tag, ActorType::EnemyA);
    assert!(e.iter().all(|a| a.direction == Vec2 { x: 1, y: 0 } && a.hp == 1));
}

#[test]
fn formation_bounds() {
    let e = create_enemies(Vec2 { x: pixels(40), y: pixels(30) });
    let r = get_enemies_rect(&e);
    assert_eq!(r.left, -5 * pixels(48) - pixels(14));
    assert_eq!(r.right, 5 * pixels(48) + pixels(14));
    assert_eq!(get_enemies_rect(&Vec::new()), Rect { left: 0, top: 0, right: 0, bottom: 0 });
}

fn enemies() -> Vec<Actor> {
    create_enemies(Vec2 { x: pixels(40), y: pixels(30) })
}

#[test]
fn cascade_moves_bottom_row_first() {
    let mut c = create_enemies_controller();
    let mut e = enemies();
    let start = e.clone();
    // 2 s of step timer, then a fifth of it per row.
    let mut moved_rows = Vec::new();
    for _ in 0..(120 + 5 * 25) {
        update_enemies_position(&mut c, &mut e);
        for row in 0..5 {
            let i = row * 11;
            if e[i].position.x != start[i].position.x && !moved_rows.contains(&row) {
                moved_rows.push(row);
            }
        }
    }
    assert_eq!(moved_rows, vec![4, 3, 2, 1, 0]);
    assert!(e.iter().zip(start.iter()).all(|(a, b)| a.position.x == b.position.x + pixels(10)));
    assert!(!c.start_to_move);
    assert_eq!(c.row_to_move, 5);
    assert_eq!(c.time_to_update, 0);
    assert_eq!(c.time_to_update_inner, 0);
}

#[test]
fn first_row_moves_after_step_and_a_fifth() {
    let mut c = create_enemies_controller();
    let mut e = enemies();
    let start = e.clone();
    for _ in 0..144 {
        update_enemies_position(&mut c, &mut e);
    }
    assert_eq!(e, start);
    update_enemies_position(&mut c, &mut e);
    assert_eq!(e[44].position.x, start[44].position.x + pixels(10));
    assert_eq!(e[43].position.x, start[43].position.x);
    assert_eq!(c.row_to_move, 4);
    assert!(c.start_to_move);
}

#[test]
fn empty_formation_is_left_alone() {
    let mut c = create_enemies_controller();
    for i in 0..CELLS {
        c.enemies_alive_flags[i] = false;
    }
    c.last_collision_type = WallCollision::Right;
    let mut e: Vec<Actor> = Vec::new();
    let mut bullets: Vec<Actor> = Vec::new();
    let mut rng = StdRng::seed_from_u64(3);
    c.time_from_last_shot = SHOT_INTERVAL_MAX * 2;
    update_enemies_position(&mut c, &mut e);
    enemies_check_collision_with_walls(&mut c, &mut e, window());
    enemies_shoot(&mut c, &e, &mut bullets, &mut rng);
    assert_eq!(c.time_to_update, 0);
    assert_eq!(c.time_from_last_shot, SHOT_INTERVAL_MAX * 2);
    assert_eq!(c.last_collision_type, WallCollision::Right);
    assert!(bullets.is_empty());
}

#[test]
fn wall_check_pushes_back_and_turns_down() {
    let mut c = create_enemies_controller();
    let mut e = enemies();
    for a in e.iter_mut() {
        a.position.x += pixels(90);
    }
    c.enemies_rect = get_enemies_rect(&e);
    let over = c.enemies_rect.right - pixels(325);
    assert!(over > 0);
    let before = e.clone();
    enemies_check_collision_with_walls(&mut c, &mut e, window());
    assert_eq!(c.last_collision_type, WallCollision::Right);
    for (a, b) in e.iter().zip(before.iter()) {
        assert_eq!(a.position.x, b.position.x - over);
        assert_eq!(a.direction, Vec2 { x: 0, y: 1 });
    }
    assert_eq!(get_enemies_rect(&e).right, pixels(325));
    c.enemies_rect = get_enemies_rect(&e);
    enemies_check_collision_with_walls(&mut c, &mut e, window());
    assert_eq!(c.last_collision_type, WallCollision::Clear);
    assert!(e.iter().all(|a| a.direction == Vec2 { x: -1, y: 0 }));
}

#[test]
fn wall_check_left_side() {
    let mut c = create_enemies_controller();
    let mut e = enemies();
    for a in e.iter_mut() {
        a.position.x -= pixels(90);
    }
    c.enemies_rect = get_enemies_rect(&e);
    let over = -pixels(325) - c.enemies_rect.left;
    enemies_check_collision_with_walls(&mut c, &mut e, window());
    assert_eq!(c.last_collision_type, WallCollision::Left);
    assert_eq!(get_enemies_rect(&e).left, -pixels(325));
    assert!(over > 0);
    c.enemies_rect = get_enemies_rect(&e);
    enemies_check_collision_with_walls(&mut c, &mut e, window());
    assert!(e.iter().all(|a| a.direction == Vec2 { x: 1, y: 0 }));
}

#[test]
fn wall_check_waits_for_cascade_end() {
    let mut c = create_enemies_controller();
    let mut e = enemies();
    c.enemies_rect = Rect { left: 0, top: 0, right: pixels(400), bottom: 0 };
    c.time_to_update = TICK;
    let before = e.clone();
    enemies_check_collision_with_walls(&mut c, &mut e, window());
    assert_eq!(e, before);
    assert_eq!(c.last_collision_type, WallCollision::Clear);
}

#[test]
fn shooters_are_lowest_of_each_column() {
    let mut c = create_enemies_controller();
    assert_eq!(find_shooters(&c.enemies_alive_flags), (44..55).collect::<Vec<usize>>());
    // Empty column 0 and the bottom cell of column 1.
    for r in 0..5 {
        c.enemies_alive_flags[r * 11] = false;
    }
    c.enemies_alive_flags[45] = false;
    // Live list indices: rows 0..3 hold 10 each, row 4 holds 9 (columns 2..10).
    let s = find_shooters(&c.enemies_alive_flags);
    assert_eq!(s.len(), 10);
    assert_eq!(s[0], 30);
    assert_eq!(s[1], 40);
    assert_eq!(s[9], 48);
}

#[test]
fn enemy_c_fires_fast_bullets() {
    let mut c = create_enemies_controller();
    let e = enemies();
    // Only the top row is alive.
    for i in 11..CELLS {
        c.enemies_alive_flags[i] = false;
    }
    let top: Vec<Actor> = e[0..11].to_vec();
    let mut bullets = Vec::new();
    fire_enemy_shot(&mut c, &top, &mut bullets, SHOT_INTERVAL_MIN, 2);
    assert_eq!(bullets.len(), 1);
    assert_eq!(bullets[0].tag, ActorType::EnemyBulletFast);
    assert_eq!(bullets[0].position, Vec2 { x: top[2].position.x, y: top[2].position.y + pixels(35) });
    assert_eq!(bullets[0].direction, Vec2 { x: 0, y: 1 });
    assert_eq!(c.time_to_shoot, SHOT_INTERVAL_MIN);
    assert_eq!(c.time_from_last_shot, 0);
    let mut c2 = create_enemies_controller();
    let mut more = Vec::new();
    fire_enemy_shot(&mut c2, &e, &mut more, SHOT_INTERVAL_MIN, 0);
    assert_eq!(more[0].tag, ActorType::EnemyBulletSlow);
}

#[test]
fn enemies_shoot_on_schedule_with_random_gaps() {
    let mut c = create_enemies_controller();
    let e = enemies();
    let mut bullets = Vec::new();
    let mut rng = StdRng::seed_from_u64(42);
    for _ in 0..180 {
        enemies_shoot(&mut c, &e, &mut bullets, &mut rng);
    }
    assert!(bullets.is_empty());
    enemies_shoot(&mut c, &e, &mut bullets, &mut rng);
    assert_eq!(bullets.len(), 1);
    let mut gaps = Vec::new();
    for _ in 0..20 {
        assert!(SHOT_INTERVAL_MIN <= c.time_to_shoot && c.time_to_shoot < SHOT_INTERVAL_MAX);
        gaps.push(c.time_to_shoot);
        c.time_from_last_shot = c.time_to_shoot;
        enemies_shoot(&mut c, &e, &mut bullets, &mut rng);
    }
    assert_eq!(bullets.len(), 21);
    assert!(gaps.iter().any(|g| *g != gaps[0]));
    assert!(gaps.iter().all(|g| *g != SHOT_INTERVAL_MIN));
    let shooters: Vec<i64> = bullets.iter().map(|b| b.position.x).collect();
    assert!(shooters.iter().any(|x| *x != shooters[0]));
}

#[test]
fn no_shot_during_cascade() {
    let mut c = create_enemies_controller();
    let e = enemies();
    let mut bullets = Vec::new();
    let mut rng = StdRng::seed_from_u64(1);
    c.start_to_move = true;
    c.time_from_last_shot = 10 * ENEMY_START_TICK;
    enemies_shoot(&mut c, &e, &mut bullets, &mut rng);
    assert!(bullets.is_empty());
}

#[test]
fn hud_table() {
    let mut t = HudTexts::new();
    assert!(t.get(TextTag::Score).is_none());
    let f = TextField { tag: TextTag::Score, value: 0, text_size: 16, position: Vec2 { x: 1, y: 2 } };
    t.set_value(TextTag::Score, 5);
    assert!(t.get(TextTag::Score).is_none());
    t.insert(f);
    t.set_value(TextTag::Score, 5);
    assert_eq!(t.get(TextTag::Score).unwrap().value, 5);
    assert_eq!(t.entries().len(), 1);
    t.remove(TextTag::Score);
    assert!(t.entries().is_empty());
    assert_eq!(TextTag::Score.label(), "Score: ");
    assert_eq!(TextTag::MaxScore.label(), "Max score: ");
    assert_eq!(TextTag::PlayerLife.label(), "Life: ");
    assert_eq!(TextTag::ShieldHp2.label(), "");
}

#[test]
fn shields_placement() {
    let s = create_shields(Vec2 { x: pixels(80), y: pixels(60) }, window());
    assert_eq!(s.len(), 3);
    // x_start = (650 - 60) / 2.2 px, x_offset = 650 / 7 px, y = 700 / 3.5 px.
    let x_start = (pixels(650) - pixels(60)) * 5 / 11;
    let x_offset = pixels(650) / 7;
    assert_eq!(s[0].position, Vec2 { x: -x_start + x_offset, y: pixels(200) });
    assert_eq!(s[1].position.x, -x_start + 3 * x_offset);
    assert_eq!(s[2].position.x, -x_start + 5 * x_offset);
    assert!(s.iter().all(|a| a.hp == 5 && a.tag == ActorType::Shield));
}

#[test]
fn damage_shield_updates_text() {
    let mut t = HudTexts::new();
    t.insert(TextField { tag: TextTag::ShieldHp2, value: 5, text_size: 16, position: Vec2 { x: 0, y: 0 } });
    let mut s = create_shield();
    let mut b = create_bullet(ActorType::EnemyBulletSlow);
    damage_shield(1, &mut s, &mut b, &mut t);
    assert_eq!(s.hp, 4);
    assert_eq!(b.hp, -1);
    assert_eq!(t.get(TextTag::ShieldHp2).unwrap().value, 4);
    s.hp = 1;
    damage_shield(1, &mut s, &mut b, &mut t);
    assert!(t.get(TextTag::ShieldHp2).is_none());
    let mut far = create_shield();
    damage_shield(7, &mut far, &mut b, &mut t);
    assert_eq!(far.hp, 4);
}

#[test]
fn damage_texture_sets_alpha_of_clear_texels() {
    let flags = vec![true, false, true];
    let tex = get_shield_damage_texture(&flags);
    assert_eq!(tex.len(), 56 * 41 * 4 * 2);
    // Texel 1's alpha is channel 7: bytes 14 and 15 hold 1.0 in half precision.
    assert_eq!(tex[14], 0x00);
    assert_eq!(tex[15], 0x3C);
    assert_eq!(tex[7], 0x00);
    assert_eq!(tex[23], 0x00);
    // Texels past the flags are clear too, but only where a flag says so.
    assert_eq!(tex[31], 0x00);
    assert_eq!(tex.iter().filter(|b| **b != 0).count(), 1);
}

#[test]
fn key_latches() {
    let mut i = InputState::default();
    i.key_down_event(Key::Left);
    i.key_down_event(Key::Fire);
    assert!(i.left && i.fire && !i.right);
    i.key_up_event(Key::Left);
    i.key_down_event(Key::Other);
    assert!(!i.left && i.fire);
    i.key_up_event(Key::Fire);
    assert!(!i.fire);
}

#[test]
fn formation_bounds_skip_dead_enemies() {
    let mut live = create_enemy();
    live.size = Vec2 { x: 10, y: 10 };
    let mut dead = live;
    dead.position = Vec2 { x: 1000, y: 0 };
    dead.hp = -1;
    let r = get_enemies_rect(&vec![live, dead]);
    assert_eq!(r, Rect { left: -5, top: -5, right: 5, bottom: 5 });
    assert_eq!(get_enemies_rect(&vec![dead]), Rect { left: 0, top: 0, right: 0, bottom: 0 });
}
