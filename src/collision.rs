use vstd::prelude::*;
use crate::actor::{kill_value, kill_value_of, Actor, DEAD};
use crate::formation::{
    alive_before, all_wf, count_alive, lemma_count_clear, lemma_count_take_mono,
    lemma_count_take_step,
};
use crate::game::{
    alive_flags, live_count, same_direction, same_frame, shield_texts_match, GameState,
    SCORE_LIMIT,
};
use crate::geometry::{inside, point_in_rect, Rect, Vec2};
use crate::hud::{core_texts_present, with_value, HudTexts, TextField, TextTag};
use crate::shield::{damage_shield, damaged_text, minus_one, lose_one, SHIELD_COUNT};

verus! {

/// The top-centre point of a bullet's box.
pub open spec fn top_probe(b: Actor) -> Vec2 {
    Vec2 { x: b.position.x, y: b.rect().top }
}

/// The bottom-centre point of a bullet's box.
pub open spec fn bottom_probe(b: Actor) -> Vec2 {
    Vec2 { x: b.position.x, y: b.rect().bottom }
}

/// A bullet strikes a box when either end of its centre line lies inside it.
pub open spec fn strikes(b: Actor, r: Rect) -> bool {
    inside(top_probe(b), r) || inside(bottom_probe(b), r)
}

pub open spec fn dead(a: Actor) -> Actor {
    Actor { hp: DEAD, ..a }
}

pub fn bullet_strikes(b: &Actor, r: &Rect) -> (hit: bool)
    requires
        b.wf(),
    ensures
        hit == strikes(*b, *r),
{
    let br = b.get_rect();
    let top = Vec2 { x: b.position.x, y: br.top };
    let bottom = Vec2 { x: b.position.x, y: br.bottom };
    point_in_rect(&top, r) || point_in_rect(&bottom, r)
}

/// The first live enemy from index `from` on that `b` strikes, or -1.
pub open spec fn first_struck(b: Actor, enemies: Seq<Actor>, from: int) -> int
    decreases enemies.len() - from,
{
    if from >= enemies.len() {
        -1
    } else if enemies[from].hp > 0 && strikes(b, enemies[from].rect()) {
        from
    } else {
        first_struck(b, enemies, from + 1)
    }
}

pub proof fn lemma_first_struck(b: Actor, enemies: Seq<Actor>, from: int)
    requires
        0 <= from,
    ensures
        first_struck(b, enemies, from) >= 0 ==> {
            let t = first_struck(b, enemies, from);
            &&& from <= t < enemies.len()
            &&& enemies[t].hp > 0
        },
        first_struck(b, enemies, from) >= -1,
    decreases enemies.len() - from,
{
    if from < enemies.len() {
        lemma_first_struck(b, enemies, from + 1);
    }
}

fn struck_enemy(b: &Actor, enemies: &Vec<Actor>) -> (r: Option<usize>)
    requires
        b.wf(),
        all_wf(enemies@),
    ensures
        match r {
            Some(t) => t as int == first_struck(*b, enemies@, 0) && t < enemies@.len(),
            None => first_struck(*b, enemies@, 0) == -1,
        },
{
    let mut i: usize = 0;
    while i < enemies.len()
        invariant
            i <= enemies@.len(),
            b.wf(),
            all_wf(enemies@),
            first_struck(*b, enemies@, 0) == first_struck(*b, enemies@, i as int),
        decreases enemies@.len() - i,
    {
        if enemies[i].hp > 0 {
            let r = enemies[i].get_rect();
            if bullet_strikes(b, &r) {
                return Some(i);
            }
        }
        i = i + 1;
    }
    None
}

/// Number of live enemies before index `t`: the rank of enemy `t` among the live ones.
pub open spec fn live_before(enemies: Seq<Actor>, t: int) -> nat {
    count_alive(alive_flags(enemies).take(t))
}

fn count_live_before(enemies: &Vec<Actor>, t: usize) -> (r: usize)
    requires
        t <= enemies@.len(),
    ensures
        r == live_before(enemies@, t as int),
{
    let mut n: usize = 0;
    let mut k: usize = 0;
    let ghost flags = alive_flags(enemies@);
    assert(flags.take(0) =~= Seq::<bool>::empty());
    while k < t
        invariant
            k <= t <= enemies@.len(),
            flags == alive_flags(enemies@),
            n == count_alive(flags.take(k as int)),
            n <= k,
        decreases t - k,
    {
        proof {
            lemma_count_take_step(flags, k as int);
        }
        if enemies[k].hp > 0 {
            n = n + 1;
        }
        k = k + 1;
    }
    n
}

/// Whether some live cell of `mask` has rank `k` among the live cells.
pub open spec fn rank_cell_exists(mask: Seq<bool>, k: int) -> bool {
    exists|c: int| 0 <= c < mask.len() && mask[c] && alive_before(mask, c) == k
}

/// The live cell of rank `k`.
pub open spec fn rank_cell(mask: Seq<bool>, k: int) -> int {
    choose|c: int| 0 <= c < mask.len() && mask[c] && alive_before(mask, c) == k
}

/// The mask with the live cell of rank `k`, if there is one, cleared.
pub open spec fn cleared_rank(mask: Seq<bool>, k: int) -> Seq<bool> {
    if rank_cell_exists(mask, k) {
        mask.update(rank_cell(mask, k), false)
    } else {
        mask
    }
}

/// Live cells have distinct ranks.
pub proof fn lemma_rank_unique(mask: Seq<bool>, c1: int, c2: int)
    requires
        0 <= c1 < mask.len(),
        0 <= c2 < mask.len(),
        mask[c1],
        mask[c2],
        alive_before(mask, c1) == alive_before(mask, c2),
    ensures
        c1 == c2,
{
    if c1 < c2 {
        lemma_count_take_step(mask, c1);
        lemma_count_take_mono(mask, c1 + 1, c2);
    } else if c2 < c1 {
        lemma_count_take_step(mask, c2);
        lemma_count_take_mono(mask, c2 + 1, c1);
    }
}

/// Every rank below the count has its live cell.
pub proof fn lemma_rank_exists(mask: Seq<bool>, k: int)
    requires
        0 <= k < count_alive(mask),
    ensures
        rank_cell_exists(mask, k),
    decreases mask.len(),
{
    let n = mask.len() - 1;
    assert(mask.take(n) =~= mask.drop_last());
    if count_alive(mask.drop_last()) > k {
        lemma_rank_exists(mask.drop_last(), k);
        let c = choose|c: int|
            0 <= c < mask.drop_last().len() && mask.drop_last()[c] && alive_before(
                mask.drop_last(),
                c,
            ) == k;
        assert(mask.drop_last().take(c) =~= mask.take(c));
        assert(mask[c]);
    } else {
        assert(mask[n]);
    }
}

fn find_rank_cell(mask: &Vec<bool>, k: usize) -> (r: Option<usize>)
    ensures
        match r {
            Some(c) => c < mask@.len() && c as int == rank_cell(mask@, k as int) && rank_cell_exists(
                mask@,
                k as int,
            ),
            None => !rank_cell_exists(mask@, k as int),
        },
{
    let mut n: usize = 0;
    let mut c: usize = 0;
    assert(mask@.take(0) =~= Seq::<bool>::empty());
    while c < mask.len()
        invariant
            c <= mask@.len(),
            n == alive_before(mask@, c as int),
            n <= c,
            forall|d: int| 0 <= d < c ==> !(mask@[d] && #[trigger] alive_before(mask@, d) == k),
        decreases mask@.len() - c,
    {
        proof {
            lemma_count_take_step(mask@, c as int);
        }
        if mask[c] {
            if n == k {
                proof {
                    let w = rank_cell(mask@, k as int);
                    lemma_rank_unique(mask@, w, c as int);
                }
                return Some(c);
            }
            n = n + 1;
        }
        c = c + 1;
    }
    None
}

/// `score` plus `points`, saturating at `SCORE_LIMIT`.
pub open spec fn add_points(score: u64, points: u64) -> u64 {
    if score + points > SCORE_LIMIT {
        SCORE_LIMIT
    } else {
        (score + points) as u64
    }
}

fn plus_points(score: u64, points: u64) -> (r: u64)
    requires
        score <= SCORE_LIMIT,
    ensures
        r == add_points(score, points),
{
    if points > SCORE_LIMIT - score {
        SCORE_LIMIT
    } else {
        score + points
    }
}

/// The formation step time after a kill: four fifths, rounded down.
pub open spec fn sped_up(tick_time: u64) -> u64 {
    (tick_time * 4 / 5) as u64
}

/// What the collision pass reads and changes.
pub struct Battle {
    pub player: Actor,
    pub player_bullets: Seq<Actor>,
    pub enemy_bullets: Seq<Actor>,
    pub enemies: Seq<Actor>,
    pub shields: Seq<Actor>,
    pub mask: Seq<bool>,
    pub tick_time: u64,
    pub score: u64,
    pub texts: Seq<Option<TextField>>,
}

pub open spec fn battle_of(s: &GameState) -> Battle {
    Battle {
        player: s.player,
        player_bullets: s.player_bullets@,
        enemy_bullets: s.enemy_bullets@,
        enemies: s.enemies@,
        shields: s.shields@,
        mask: s.enemies_controller.enemies_alive_flags@,
        tick_time: s.enemies_controller.tick_time,
        score: s.score,
        texts: s.text_fields@,
    }
}

/// Player bullet `j` destroys enemy `t`.
pub open spec fn after_kill(w: Battle, j: int, t: int) -> Battle {
    let score = add_points(w.score, kill_value_of(w.enemies[t].tag));
    Battle {
        player_bullets: w.player_bullets.update(j, dead(w.player_bullets[j])),
        enemies: w.enemies.update(t, dead(w.enemies[t])),
        mask: cleared_rank(w.mask, live_before(w.enemies, t) as int),
        tick_time: sped_up(w.tick_time),
        score,
        texts: with_value(w.texts, TextTag::Score, score as i64),
        ..w
    }
}

pub open spec fn shield_struck(b: Actor, s: Actor) -> bool {
    s.hp > 0 && strikes(b, s.rect())
}

pub open spec fn any_shield_struck(b: Actor, shields: Seq<Actor>) -> bool {
    exists|i: int| 0 <= i < shields.len() && shield_struck(b, #[trigger] shields[i])
}

/// The shields after `b` went through them: each standing one it strikes loses a hit point.
pub open spec fn shields_after(b: Actor, shields: Seq<Actor>) -> Seq<Actor> {
    Seq::new(
        shields.len(),
        |i: int|
            if shield_struck(b, shields[i]) {
                Actor { hp: minus_one(shields[i].hp), ..shields[i] }
            } else {
                shields[i]
            },
    )
}

/// The HUD after `b` went through the first `n` shields.
pub open spec fn shield_texts(
    b: Actor,
    shields: Seq<Actor>,
    texts: Seq<Option<TextField>>,
    n: int,
) -> Seq<Option<TextField>>
    decreases n,
{
    if n <= 0 {
        texts
    } else {
        let t = shield_texts(b, shields, texts, n - 1);
        if shield_struck(b, shields[n - 1]) {
            damaged_text(t, n - 1, minus_one(shields[n - 1].hp))
        } else {
            t
        }
    }
}

/// Bullet `b` at index `j` of `bullets` goes through the shields.
pub open spec fn through_shields(w: Battle, b: Actor, bullets: Seq<Actor>, j: int) -> (Seq<Actor>, Seq<Actor>, Seq<Option<TextField>>) {
    (
        shields_after(b, w.shields),
        if any_shield_struck(b, w.shields) {
            bullets.update(j, dead(b))
        } else {
            bullets
        },
        shield_texts(b, w.shields, w.texts, w.shields.len() as int),
    )
}

/// Player bullet `j` against the enemies, then, if it hit none, the shields.
pub open spec fn player_bullet_step(w: Battle, j: int) -> Battle {
    let b = w.player_bullets[j];
    let t = first_struck(b, w.enemies, 0);
    if b.hp <= 0 {
        w
    } else if t >= 0 {
        after_kill(w, j, t)
    } else {
        let (shields, bullets, texts) = through_shields(w, b, w.player_bullets, j);
        Battle { shields, player_bullets: bullets, texts, ..w }
    }
}

/// An enemy bullet meets every player bullet it strikes, live or already dead this tick.
pub open spec fn bullet_struck(b: Actor, p: Actor) -> bool {
    strikes(b, p.rect())
}

pub open spec fn any_bullet_struck(b: Actor, bullets: Seq<Actor>) -> bool {
    exists|i: int| 0 <= i < bullets.len() && bullet_struck(b, #[trigger] bullets[i])
}

/// The player bullets after enemy bullet `b` met them: each one it strikes is dead.
pub open spec fn bullets_after(b: Actor, bullets: Seq<Actor>) -> Seq<Actor> {
    Seq::new(
        bullets.len(),
        |i: int|
            if bullet_struck(b, bullets[i]) {
                dead(bullets[i])
            } else {
                bullets[i]
            },
    )
}

/// Enemy bullet `m` against the player, else the player bullets, else the shields.
pub open spec fn enemy_bullet_step(w: Battle, m: int) -> Battle {
    let b = w.enemy_bullets[m];
    if b.hp <= 0 {
        w
    } else if strikes(b, w.player.rect()) {
        let hp = minus_one(w.player.hp);
        Battle {
            enemy_bullets: w.enemy_bullets.update(m, dead(b)),
            player: Actor { hp, ..w.player },
            texts: with_value(w.texts, TextTag::PlayerLife, hp),
            ..w
        }
    } else if any_bullet_struck(b, w.player_bullets) {
        Battle {
            enemy_bullets: w.enemy_bullets.update(m, dead(b)),
            player_bullets: bullets_after(b, w.player_bullets),
            ..w
        }
    } else {
        let (shields, bullets, texts) = through_shields(w, b, w.enemy_bullets, m);
        Battle { shields, enemy_bullets: bullets, texts, ..w }
    }
}

/// The first `n` player bullets resolved in order.
pub open spec fn player_pass(w: Battle, n: int) -> Battle
    decreases n,
{
    if n <= 0 {
        w
    } else {
        player_bullet_step(player_pass(w, n - 1), n - 1)
    }
}

/// The first `n` enemy bullets resolved in order.
pub open spec fn enemy_pass(w: Battle, n: int) -> Battle
    decreases n,
{
    if n <= 0 {
        w
    } else {
        enemy_bullet_step(enemy_pass(w, n - 1), n - 1)
    }
}

/// The whole collision pass: player bullets first, then enemy bullets.
pub open spec fn collided(w: Battle) -> Battle {
    enemy_pass(
        player_pass(w, w.player_bullets.len() as int),
        w.enemy_bullets.len() as int,
    )
}

/// What the collision pass needs and keeps.
pub open spec fn collide_ready(s: &GameState) -> bool {
    &&& s.player.wf()
    &&& all_wf(s.player_bullets@)
    &&& all_wf(s.enemy_bullets@)
    &&& all_wf(s.enemies@)
    &&& all_wf(s.shields@)
    &&& s.shields@.len() == SHIELD_COUNT
    &&& s.text_fields.wf()
    &&& s.enemies_controller.wf()
    &&& count_alive(s.enemies_controller.enemies_alive_flags@) == live_count(s.enemies@)
    &&& same_direction(s.enemies@)
    &&& shield_texts_match(s.shields@, s.text_fields@)
    &&& core_texts_present(s.text_fields@)
    &&& s.score <= SCORE_LIMIT
}

fn strike_shields(shields: &mut Vec<Actor>, bullet: &mut Actor, texts: &mut HudTexts)
    requires
        all_wf(old(shields)@),
        old(shields)@.len() == SHIELD_COUNT,
        old(bullet).wf(),
        old(texts).wf(),
        shield_texts_match(old(shields)@, old(texts)@),
        core_texts_present(old(texts)@),
    ensures
        core_texts_present(final(texts)@),
        final(shields)@ == shields_after(*old(bullet), old(shields)@),
        *final(bullet) == if any_shield_struck(*old(bullet), old(shields)@) {
            dead(*old(bullet))
        } else {
            *old(bullet)
        },
        final(texts)@ == shield_texts(*old(bullet), old(shields)@, old(texts)@, SHIELD_COUNT as int),
        final(texts).wf(),
        all_wf(final(shields)@),
        shield_texts_match(final(shields)@, final(texts)@),
{
    let b0 = *bullet;
    let ghost s0 = shields@;
    let ghost t0 = texts@;
    let mut i: usize = 0;
    while i < shields.len()
        invariant
            i <= shields@.len(),
            shields@.len() == s0.len(),
            s0.len() == SHIELD_COUNT,
            b0.wf(),
            all_wf(s0),
            forall|k: int|
                0 <= k < s0.len() ==> #[trigger] shields@[k] == if k < i {
                    shields_after(b0, s0)[k]
                } else {
                    s0[k]
                },
            texts@ == shield_texts(b0, s0, t0, i as int),
            texts.wf(),
            *bullet == if exists|k: int| 0 <= k < i && shield_struck(b0, #[trigger] s0[k]) {
                dead(b0)
            } else {
                b0
            },
            shield_texts_match(shields@, texts@),
            core_texts_present(texts@),
            all_wf(shields@),
        decreases s0.len() - i,
    {
        let s = shields[i];
        let ghost before = shields@;
        let ghost tb = texts@;
        if s.hp > 0 {
            let r = s.get_rect();
            if bullet_strikes(&b0, &r) {
                let mut hit = s;
                damage_shield(i, &mut hit, bullet, texts);
                shields.set(i, hit);
                proof {
                    let tag = crate::shield::shield_tag_of(i as int).unwrap();
                    assert forall|q: int| 0 <= q < SHIELD_COUNT implies (texts@[crate::hud::slot_of(
                        #[trigger] crate::shield::shield_tag_of(q).unwrap(),
                    )].is_some() <==> shields@[q].hp > 0) by {
                        if q != i {
                            assert(before[q] == shields@[q]);
                            assert(texts@[crate::hud::slot_of(crate::shield::shield_tag_of(q).unwrap())]
                                == tb[crate::hud::slot_of(crate::shield::shield_tag_of(q).unwrap())]);
                        }
                    }
                }
            }
        }
        proof {
            assert forall|k: int|
                0 <= k < s0.len() implies #[trigger] shields@[k] == if k < i + 1 {
                    shields_after(b0, s0)[k]
                } else {
                    s0[k]
                } by {
                if k == i {
                    assert(s0[k] == s);
                }
            }
            if shield_struck(b0, s0[i as int]) {
                assert(exists|k: int| 0 <= k < i + 1 && shield_struck(b0, #[trigger] s0[k]));
            } else {
                assert((exists|k: int| 0 <= k < i + 1 && shield_struck(b0, #[trigger] s0[k]))
                    == (exists|k: int| 0 <= k < i && shield_struck(b0, #[trigger] s0[k])));
            }
        }
        i = i + 1;
    }
    assert(shields@ =~= shields_after(b0, s0));
}

fn strike_player_bullets(bullets: &mut Vec<Actor>, b: &Actor) -> (hit: bool)
    requires
        all_wf(old(bullets)@),
        b.wf(),
    ensures
        final(bullets)@ == bullets_after(*b, old(bullets)@),
        hit == any_bullet_struck(*b, old(bullets)@),
        all_wf(final(bullets)@),
{
    let ghost start = bullets@;
    let mut hit = false;
    let mut i: usize = 0;
    while i < bullets.len()
        invariant
            i <= bullets@.len(),
            bullets@.len() == start.len(),
            b.wf(),
            all_wf(start),
            all_wf(bullets@),
            forall|k: int|
                0 <= k < start.len() ==> #[trigger] bullets@[k] == if k < i {
                    bullets_after(*b, start)[k]
                } else {
                    start[k]
                },
            hit == exists|k: int| 0 <= k < i && bullet_struck(*b, #[trigger] start[k]),
        decreases start.len() - i,
    {
        let p = bullets[i];
        let r = p.get_rect();
        if bullet_strikes(b, &r) {
            bullets.set(i, Actor { hp: DEAD, ..p });
            hit = true;
        }
        proof {
            if bullet_struck(*b, start[i as int]) {
                assert(exists|k: int| 0 <= k < i + 1 && bullet_struck(*b, #[trigger] start[k]));
            } else {
                assert((exists|k: int| 0 <= k < i + 1 && bullet_struck(*b, #[trigger] start[k]))
                    == (exists|k: int| 0 <= k < i && bullet_struck(*b, #[trigger] start[k])));
            }
        }
        i = i + 1;
    }
    assert(bullets@ =~= bullets_after(*b, start));
    hit
}

/// Killing a live actor lowers the live count by one.
pub proof fn lemma_live_count_kill(s: Seq<Actor>, t: int)
    requires
        0 <= t < s.len(),
        s[t].hp > 0,
    ensures
        live_count(s.update(t, dead(s[t]))) + 1 == live_count(s),
        live_before(s, t) < live_count(s),
{
    assert(alive_flags(s.update(t, dead(s[t]))) =~= alive_flags(s).update(t, false));
    lemma_count_clear(alive_flags(s), t);
    crate::formation::lemma_alive_index(alive_flags(s), t);
}

impl GameState {
    /// Resolves player bullet `j`.
    fn player_bullet_collide(&mut self, j: usize) -> (killed: bool)
        requires
            collide_ready(&*old(self)),
            j < old(self).player_bullets@.len(),
        ensures
            collide_ready(&*final(self)),
            battle_of(&*final(self)) == player_bullet_step(battle_of(&*old(self)), j as int),
            same_frame(&*final(self), &*old(self)),
            killed ==> live_count(final(self).enemies@) + 1 == live_count(old(self).enemies@),
            final(self).player == old(self).player,
            final(self).enemies_controller.tick_time <= old(self).enemies_controller.tick_time,
            final(self).player_bullets@.len() == old(self).player_bullets@.len(),
            final(self).enemy_bullets@ == old(self).enemy_bullets@,
            !killed ==> final(self).enemies@ == old(self).enemies@,
    {
        let b = self.player_bullets[j];
        if b.hp <= 0 {
            return false;
        }
        match struck_enemy(&b, &self.enemies) {
            Some(t) => {
                proof {
                    lemma_first_struck(b, self.enemies@, 0);
                    lemma_live_count_kill(self.enemies@, t as int);
                }
                let k = count_live_before(&self.enemies, t);
                let e = self.enemies[t];
                let ghost old_enemies = self.enemies@;
                let ghost old_mask = self.enemies_controller.enemies_alive_flags@;
                self.player_bullets.set(j, Actor { hp: DEAD, ..b });
                self.enemies.set(t, Actor { hp: DEAD, ..e });
                let tick = self.enemies_controller.tick_time;
                assert((tick as u128) * 4 / 5 <= tick) by (nonlinear_arith);
                self.enemies_controller.tick_time = ((tick as u128) * 4 / 5) as u64;
                assert(self.enemies_controller.tick_time == sped_up(tick));
                self.score = plus_points(self.score, kill_value(e.tag));
                self.text_fields.set_value(TextTag::Score, self.score as i64);
                proof {
                    crate::collision::lemma_rank_exists(old_mask, k as int);
                }
                match find_rank_cell(&self.enemies_controller.enemies_alive_flags, k) {
                    Some(c) => {
                        self.enemies_controller.enemies_alive_flags.set(c, false);
                        proof {
                            lemma_count_clear(old_mask, c as int);
                        }
                    },
                    None => {},
                }
                proof {
                    assert(self.enemies@ == old_enemies.update(t as int, dead(old_enemies[t as int])));
                    let en = self.enemies@;
                    assert forall|x: int, y: int|
                        0 <= x < en.len() && 0 <= y < en.len() implies (#[trigger] en[x]).direction == (
                        #[trigger] en[y]).direction by {
                        assert(old_enemies[x].direction == old_enemies[y].direction);
                    }
                    assert forall|x: int| 0 <= x < en.len() implies (#[trigger] en[x]).wf() by {
                        assert(old_enemies[x].wf());
                    }
                    let pb = self.player_bullets@;
                    assert forall|x: int| 0 <= x < pb.len() implies (#[trigger] pb[x]).wf() by {
                        assert(old(self).player_bullets@[x].wf());
                    }
                    assert forall|q: int| 0 <= q < SHIELD_COUNT implies (self.text_fields@[crate::hud::slot_of(
                        #[trigger] crate::shield::shield_tag_of(q).unwrap(),
                    )].is_some() <==> self.shields@[q].hp > 0) by {
                        assert(self.text_fields@[crate::hud::slot_of(crate::shield::shield_tag_of(q).unwrap())]
                            == old(self).text_fields@[crate::hud::slot_of(crate::shield::shield_tag_of(q).unwrap())]);
                    }
                }
                true
            },
            None => {
                let mut bullet = b;
                strike_shields(&mut self.shields, &mut bullet, &mut self.text_fields);
                self.player_bullets.set(j, bullet);
                proof {
                    let w = battle_of(&*old(self));
                    let (sh, bl, tx) = through_shields(w, b, w.player_bullets, j as int);
                    assert(self.player_bullets@ =~= bl);
                    assert(self.shields@ =~= sh);
                    assert(self.text_fields@ =~= tx);
                    let pb = self.player_bullets@;
                    assert forall|x: int| 0 <= x < pb.len() implies (#[trigger] pb[x]).wf() by {
                        assert(old(self).player_bullets@[x].wf());
                    }
                }
                false
            },
        }
    }

    /// Resolves enemy bullet `m`.
    fn enemy_bullet_collide(&mut self, m: usize)
        requires
            collide_ready(&*old(self)),
            m < old(self).enemy_bullets@.len(),
        ensures
            collide_ready(&*final(self)),
            battle_of(&*final(self)) == enemy_bullet_step(battle_of(&*old(self)), m as int),
            same_frame(&*final(self), &*old(self)),
            final(self).enemies@ == old(self).enemies@,
            final(self).player == (Actor { hp: final(self).player.hp, ..old(self).player }),
            final(self).enemies_controller.tick_time == old(self).enemies_controller.tick_time,
            final(self).enemy_bullets@.len() == old(self).enemy_bullets@.len(),
    {
        let b = self.enemy_bullets[m];
        if b.hp <= 0 {
            return;
        }
        let pr = self.player.get_rect();
        if bullet_strikes(&b, &pr) {
            self.enemy_bullets.set(m, Actor { hp: DEAD, ..b });
            self.player.hp = lose_one(self.player.hp);
            self.text_fields.set_value(TextTag::PlayerLife, self.player.hp);
            proof {
                let eb = self.enemy_bullets@;
                assert forall|x: int| 0 <= x < eb.len() implies (#[trigger] eb[x]).wf() by {
                    assert(old(self).enemy_bullets@[x].wf());
                }
                assert forall|q: int| 0 <= q < SHIELD_COUNT implies (self.text_fields@[crate::hud::slot_of(
                    #[trigger] crate::shield::shield_tag_of(q).unwrap(),
                )].is_some() <==> self.shields@[q].hp > 0) by {
                    assert(self.text_fields@[crate::hud::slot_of(crate::shield::shield_tag_of(q).unwrap())]
                        == old(self).text_fields@[crate::hud::slot_of(crate::shield::shield_tag_of(q).unwrap())]);
                }
            }
            return;
        }
        if strike_player_bullets(&mut self.player_bullets, &b) {
            self.enemy_bullets.set(m, Actor { hp: DEAD, ..b });
            proof {
                let eb = self.enemy_bullets@;
                assert forall|x: int| 0 <= x < eb.len() implies (#[trigger] eb[x]).wf() by {
                    assert(old(self).enemy_bullets@[x].wf());
                }
            }
            return;
        }
        assert(self.player_bullets@ =~= old(self).player_bullets@);
        let mut bullet = b;
        strike_shields(&mut self.shields, &mut bullet, &mut self.text_fields);
        self.enemy_bullets.set(m, bullet);
        proof {
            let w = battle_of(&*old(self));
            let (sh, bl, tx) = through_shields(w, b, w.enemy_bullets, m as int);
            assert(self.enemy_bullets@ =~= bl);
            assert(self.shields@ =~= sh);
            assert(self.text_fields@ =~= tx);
            let eb = self.enemy_bullets@;
            assert forall|x: int| 0 <= x < eb.len() implies (#[trigger] eb[x]).wf() by {
                assert(old(self).enemy_bullets@[x].wf());
            }
        }
    }
}

impl GameState {
    /// Resolves the bullets of this tick: each live player bullet destroys the
    /// first live enemy it strikes (scoring it and speeding up the formation),
    /// or else damages the shields it strikes; then each live enemy bullet
    /// hits the player, or else destroys every player bullet it strikes, or
    /// else damages the shields. Returns the number of enemies destroyed.
    pub fn handle_collision(&mut self) -> (kills: usize)
        requires
            collide_ready(&*old(self)),
        ensures
            collide_ready(&*final(self)),
            battle_of(&*final(self)) == collided(battle_of(&*old(self))),
            same_frame(&*final(self), &*old(self)),
            kills + live_count(final(self).enemies@) == live_count(old(self).enemies@),
            final(self).player == (Actor { hp: final(self).player.hp, ..old(self).player }),
            final(self).enemies_controller.tick_time <= old(self).enemies_controller.tick_time,
    {
        let ghost start = battle_of(&*self);
        let mut kills: usize = 0;
        let mut j: usize = 0;
        while j < self.player_bullets.len()
            invariant
                j <= self.player_bullets@.len(),
                self.player_bullets@.len() == start.player_bullets.len(),
                self.enemy_bullets@ == start.enemy_bullets,
                collide_ready(&*self),
                battle_of(&*self) == player_pass(start, j as int),
                same_frame(&*self, &*old(self)),
                start == battle_of(&*old(self)),
                kills <= j,
                kills + live_count(self.enemies@) == live_count(start.enemies),
                self.player == old(self).player,
                self.enemies_controller.tick_time <= start.tick_time,
            decreases start.player_bullets.len() - j,
        {
            if self.player_bullet_collide(j) {
                kills = kills + 1;
            }
            j = j + 1;
        }
        let ghost mid = battle_of(&*self);
        let mut m: usize = 0;
        while m < self.enemy_bullets.len()
            invariant
                m <= self.enemy_bullets@.len(),
                self.enemy_bullets@.len() == start.enemy_bullets.len(),
                collide_ready(&*self),
                mid == player_pass(start, start.player_bullets.len() as int),
                battle_of(&*self) == enemy_pass(mid, m as int),
                same_frame(&*self, &*old(self)),
                start == battle_of(&*old(self)),
                kills + live_count(self.enemies@) == live_count(start.enemies),
                self.player == (Actor { hp: self.player.hp, ..old(self).player }),
                self.enemies_controller.tick_time <= start.tick_time,
            decreases start.enemy_bullets.len() - m,
        {
            self.enemy_bullet_collide(m);
            m = m + 1;
        }
        kills
    }
}

} // verus!
