use vstd::prelude::*;
use crate::actor::{create_shield, Actor, ActorType, DEAD, SHIELD_LIFE, UNIT_SCALE};
use crate::formation::{sprite_ok, SPRITE_LIMIT};
use crate::geometry::Vec2;
use crate::hud::{slot_of, HudTexts, TextField, TextTag};

verus! {

pub const SHIELD_COUNT: usize = 3;

/// Width and height, in texels, of a shield's damage texture.
pub const DAMAGE_TEXTURE_WIDTH: usize = 56;
pub const DAMAGE_TEXTURE_HEIGHT: usize = 41;
pub const DAMAGE_TEXELS: usize = DAMAGE_TEXTURE_WIDTH * DAMAGE_TEXTURE_HEIGHT;
/// Half-precision channels per texel (red, green, blue, alpha).
pub const TEXEL_CHANNELS: usize = 4;
pub const DAMAGE_CHANNELS: usize = DAMAGE_TEXELS * TEXEL_CHANNELS;

pub open spec fn window_fits(window_size: Vec2) -> bool {
    0 < window_size.x <= SPRITE_LIMIT && 0 < window_size.y <= SPRITE_LIMIT
}

/// The `i`-th shield of the row placed across the lower part of the window.
pub open spec fn seeded_shield(i: int, image_size: Vec2, window_size: Vec2) -> Actor {
    Actor {
        tag: ActorType::Shield,
        position: Vec2 {
            x: (-((window_size.x - image_size.y) * 5 / 11) + (window_size.x / 7) * (1 + 2 * i)) as i64,
            y: (window_size.y * 2 / 7) as i64,
        },
        direction: Vec2 { x: 0, y: 0 },
        size: image_size,
        scale: Vec2 { x: UNIT_SCALE, y: UNIT_SCALE },
        hp: SHIELD_LIFE,
    }
}

/// Places the shields from the shield sprite's size and the window's size.
pub fn create_shields(image_size: Vec2, window_size: Vec2) -> (r: Vec<Actor>)
    requires
        sprite_ok(image_size),
        window_fits(window_size),
        image_size.y <= window_size.x,
    ensures
        r@.len() == SHIELD_COUNT,
        forall|i: int| 0 <= i < SHIELD_COUNT ==> #[trigger] r@[i] == seeded_shield(i, image_size, window_size),
        forall|i: int| 0 <= i < SHIELD_COUNT ==> (#[trigger] r@[i]).wf(),
{
    let x_offset = window_size.x / 7;
    let x_start = (window_size.x - image_size.y) * 5 / 11;
    let y = window_size.y * 2 / 7;
    let mut shields: Vec<Actor> = Vec::new();
    let mut i: usize = 0;
    while i < SHIELD_COUNT
        invariant
            i <= SHIELD_COUNT,
            sprite_ok(image_size),
            window_fits(window_size),
            image_size.y <= window_size.x,
            x_offset == window_size.x / 7,
            x_start == (window_size.x - image_size.y) * 5 / 11,
            0 <= x_start <= window_size.x,
            y == window_size.y * 2 / 7,
            shields@.len() == i,
            forall|k: int| 0 <= k < i ==> #[trigger] shields@[k] == seeded_shield(k, image_size, window_size),
            forall|k: int| 0 <= k < i ==> (#[trigger] shields@[k]).wf(),
        decreases SHIELD_COUNT - i,
    {
        let mut shield = create_shield();
        let k = 1 + 2 * (i as i64);
        assert(0 <= x_offset * k <= 5 * window_size.x) by (nonlinear_arith)
            requires
                x_offset == window_size.x / 7,
                1 <= k <= 5,
                0 < window_size.x,
        ;
        shield.position = Vec2 { x: -x_start + x_offset * k, y };
        shield.size = image_size;
        shields.push(shield);
        i = i + 1;
    }
    shields
}

/// The HUD entry of the shield at `index`, for the first three shields.
pub open spec fn shield_tag_of(index: int) -> Option<TextTag> {
    if index == 0 {
        Some(TextTag::ShieldHp1)
    } else if index == 1 {
        Some(TextTag::ShieldHp2)
    } else if index == 2 {
        Some(TextTag::ShieldHp3)
    } else {
        None
    }
}

pub fn shield_tag(index: usize) -> (r: Option<TextTag>)
    ensures
        r == shield_tag_of(index as int),
{
    match index {
        0 => Some(TextTag::ShieldHp1),
        1 => Some(TextTag::ShieldHp2),
        2 => Some(TextTag::ShieldHp3),
        _ => None,
    }
}

/// One hit point off, held at the bottom of the range.
pub open spec fn minus_one(hp: i64) -> i64 {
    if hp > i64::MIN {
        (hp - 1) as i64
    } else {
        hp
    }
}

pub fn lose_one(hp: i64) -> (r: i64)
    ensures
        r == minus_one(hp),
{
    if hp > i64::MIN {
        hp - 1
    } else {
        hp
    }
}

/// The HUD after the shield at `index` fell to `hp`: its entry, if it has
/// one, shows `hp`, or is gone once `hp` is no longer positive.
pub open spec fn damaged_text(texts: Seq<Option<TextField>>, index: int, hp: i64) -> Seq<
    Option<TextField>,
> {
    match shield_tag_of(index) {
        Some(tag) => match texts[slot_of(tag)] {
            Some(f) => if hp <= 0 {
                texts.update(slot_of(tag), None)
            } else {
                texts.update(slot_of(tag), Some(TextField { value: hp, ..f }))
            },
            None => texts,
        },
        None => texts,
    }
}

/// A bullet strikes the shield at `shield_index`: the shield loses a hit
/// point, the bullet dies, and the shield's HUD entry follows.
pub fn damage_shield(
    shield_index: usize,
    shield: &mut Actor,
    bullet: &mut Actor,
    text_fields: &mut HudTexts,
)
    requires
        old(text_fields).wf(),
    ensures
        *final(shield) == (Actor { hp: minus_one(old(shield).hp), ..*old(shield) }),
        *final(bullet) == (Actor { hp: DEAD, ..*old(bullet) }),
        final(text_fields).wf(),
        final(text_fields)@ == damaged_text(
            old(text_fields)@,
            shield_index as int,
            minus_one(old(shield).hp),
        ),
{
    shield.hp = lose_one(shield.hp);
    bullet.hp = DEAD;
    match shield_tag(shield_index) {
        Some(tag) => {
            match text_fields.get(tag) {
                Some(_) => {
                    if shield.hp <= 0 {
                        text_fields.remove(tag);
                    } else {
                        text_fields.set_value(tag, shield.hp);
                    }
                },
                None => {},
            }
        },
        None => {},
    }
}

/// Whether the alpha channel at `channel` of the damage texture is set:
/// the alpha of each texel whose damage flag is clear.
pub open spec fn alpha_set(damage: Seq<bool>, channel: int) -> bool {
    channel % 4 == 3 && channel / 4 < damage.len() && !damage[channel / 4]
}

/// One in IEEE 754 binary16, the texture's channel format.
pub const HALF_ONE: u16 = 0x3C00;

/// The damage texture of a shield as half-precision RGBA, little-endian:
/// every channel zero, but the alpha of each texel whose flag is clear,
/// which is one.
pub fn get_shield_damage_texture(damage_data: &Vec<bool>) -> (r: Vec<u8>)
    requires
        damage_data@.len() <= DAMAGE_TEXELS,
    ensures
        r@.len() == 2 * DAMAGE_CHANNELS,
        forall|c: int|
            0 <= c < DAMAGE_CHANNELS ==> #[trigger] r@[2 * c] == 0x00u8 && r@[2 * c + 1] == if alpha_set(
                damage_data@,
                c,
            ) {
                0x3Cu8
            } else {
                0x00u8
            },
{
    let one_low = (HALF_ONE % 256) as u8;
    let one_high = (HALF_ONE / 256) as u8;
    let mut out: Vec<u8> = Vec::new();
    let mut c: usize = 0;
    while c < DAMAGE_CHANNELS
        invariant
            c <= DAMAGE_CHANNELS,
            one_low == 0x00u8 && one_high == 0x3Cu8,
            out@.len() == 2 * c,
            forall|k: int|
                0 <= k < c ==> #[trigger] out@[2 * k] == 0x00u8 && out@[2 * k + 1] == if alpha_set(
                    damage_data@,
                    k,
                ) {
                    0x3Cu8
                } else {
                    0x00u8
                },
        decreases DAMAGE_CHANNELS - c,
    {
        let texel = c / 4;
        let ghost prev = out@;
        let set = c % 4 == 3 && texel < damage_data.len() && !damage_data[texel];
        if set {
            out.push(one_low);
            out.push(one_high);
        } else {
            out.push(0);
            out.push(0);
        }
        assert(set == alpha_set(damage_data@, c as int));
        assert forall|k: int|
            0 <= k < c + 1 implies #[trigger] out@[2 * k] == 0x00u8 && out@[2 * k + 1] == if alpha_set(
                damage_data@,
                k,
            ) {
                0x3Cu8
            } else {
                0x00u8
            } by {
            if k < c {
                assert(out@[2 * k] == prev[2 * k]);
                assert(out@[2 * k + 1] == prev[2 * k + 1]);
            }
        }
        c = c + 1;
    }
    assert(c == DAMAGE_CHANNELS);
    out
}

} // verus!
