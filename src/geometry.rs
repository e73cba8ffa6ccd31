use vstd::prelude::*;

verus! {

/// World units per pixel.
pub const SUBPIXELS: i64 = 60;

/// Largest magnitude a world coordinate may take; motion saturates here.
pub const COORD_LIMIT: i64 = 0x4_0000_0000_0000;

/// Largest extent of an actor's bounding box, in world units.
pub const SIZE_LIMIT: i64 = 0x100_0000_0000;

/// A point or displacement in world units (+y points down).
#[derive(Clone, Copy, Debug, PartialEq, Eq, Structural)]
pub struct Vec2 {
    pub x: i64,
    pub y: i64,
}

/// An axis-aligned rectangle given by its four edges.
#[derive(Clone, Copy, Debug, PartialEq, Eq, Structural)]
pub struct Rect {
    pub left: i64,
    pub top: i64,
    pub right: i64,
    pub bottom: i64,
}

pub open spec fn coord_ok(v: int) -> bool {
    -COORD_LIMIT <= v <= COORD_LIMIT
}

pub open spec fn point_ok(p: Vec2) -> bool {
    coord_ok(p.x as int) && coord_ok(p.y as int)
}

pub open spec fn size_ok(s: Vec2) -> bool {
    0 <= s.x <= SIZE_LIMIT && 0 <= s.y <= SIZE_LIMIT
}

/// `v` pulled back into the representable coordinate range.
pub open spec fn clamp_coord(v: int) -> int {
    if v < -COORD_LIMIT {
        -COORD_LIMIT as int
    } else if v > COORD_LIMIT {
        COORD_LIMIT as int
    } else {
        v
    }
}

/// `p + d` with each coordinate held to the world's range.
pub open spec fn moved(p: Vec2, d: Vec2) -> Vec2 {
    Vec2 { x: clamp_coord(p.x + d.x) as i64, y: clamp_coord(p.y + d.y) as i64 }
}

pub open spec fn small_offset(d: Vec2) -> bool {
    -4 * COORD_LIMIT <= d.x <= 4 * COORD_LIMIT && -4 * COORD_LIMIT <= d.y <= 4 * COORD_LIMIT
}

/// Adds `d` to the coordinate `v` and saturates at the edge of the world.
pub fn shift_coord(v: i64, d: i64) -> (r: i64)
    requires
        coord_ok(v as int),
        -4 * COORD_LIMIT <= d <= 4 * COORD_LIMIT,
    ensures
        r == clamp_coord(v + d),
        coord_ok(r as int),
{
    let s = v + d;
    if s < -COORD_LIMIT {
        -COORD_LIMIT
    } else if s > COORD_LIMIT {
        COORD_LIMIT
    } else {
        s
    }
}

/// Moves the point `p` by `d`, saturating at the edge of the world.
pub fn translate(p: Vec2, d: Vec2) -> (r: Vec2)
    requires
        point_ok(p),
        small_offset(d),
    ensures
        r == moved(p, d),
        point_ok(r),
{
    Vec2 { x: shift_coord(p.x, d.x), y: shift_coord(p.y, d.y) }
}

/// The box of the given size centred on `p`.
pub open spec fn rect_around(p: Vec2, size: Vec2) -> Rect {
    Rect {
        left: (p.x - size.x / 2) as i64,
        top: (p.y - size.y / 2) as i64,
        right: (p.x - size.x / 2 + size.x) as i64,
        bottom: (p.y - size.y / 2 + size.y) as i64,
    }
}

pub fn make_rect(p: Vec2, size: Vec2) -> (r: Rect)
    requires
        point_ok(p),
        size_ok(size),
    ensures
        r == rect_around(p, size),
{
    let left = p.x - size.x / 2;
    let top = p.y - size.y / 2;
    Rect { left, top, right: left + size.x, bottom: top + size.y }
}

pub open spec fn inside(p: Vec2, r: Rect) -> bool {
    r.left < p.x < r.right && r.top < p.y < r.bottom
}

/// Whether `point` lies strictly inside `rect`.
pub fn point_in_rect(point: &Vec2, rect: &Rect) -> (r: bool)
    ensures
        r == inside(*point, *rect),
{
    point.x > rect.left && point.x < rect.right && point.y < rect.bottom && point.y > rect.top
}

pub open spec fn rect_ok(r: Rect) -> bool {
    -2 * COORD_LIMIT <= r.left <= 2 * COORD_LIMIT && -2 * COORD_LIMIT <= r.top <= 2 * COORD_LIMIT
        && -2 * COORD_LIMIT <= r.right <= 2 * COORD_LIMIT && -2 * COORD_LIMIT <= r.bottom
        <= 2 * COORD_LIMIT
}

/// The offset of `point` from the bottom-left corner of `rect`.
pub fn point_position_in_rect(point: &Vec2, rect: &Rect) -> (r: Vec2)
    requires
        point_ok(*point),
        rect_ok(*rect),
    ensures
        r.x == point.x - rect.left,
        r.y == point.y - rect.bottom,
{
    Vec2 { x: point.x - rect.left, y: point.y - rect.bottom }
}

pub open spec fn min_i(a: i64, b: i64) -> i64 {
    if a <= b { a } else { b }
}

pub open spec fn max_i(a: i64, b: i64) -> i64 {
    if a >= b { a } else { b }
}

/// The smallest rectangle holding both `a` and `b`.
pub open spec fn union(a: Rect, b: Rect) -> Rect {
    Rect {
        left: min_i(a.left, b.left),
        top: min_i(a.top, b.top),
        right: max_i(a.right, b.right),
        bottom: max_i(a.bottom, b.bottom),
    }
}

pub fn rect_union(a: &Rect, b: &Rect) -> (r: Rect)
    ensures
        r == union(*a, *b),
{
    Rect {
        left: if a.left <= b.left { a.left } else { b.left },
        top: if a.top <= b.top { a.top } else { b.top },
        right: if a.right >= b.right { a.right } else { b.right },
        bottom: if a.bottom >= b.bottom { a.bottom } else { b.bottom },
    }
}

/// A length in pixels, in world units.
pub fn pixels(px: u32) -> (r: i64)
    ensures
        r == px * SUBPIXELS,
{
    px as i64 * SUBPIXELS
}

/// Screen position of a world point: the world's origin is the window's centre.
pub fn world_to_screen_coords(screen_size: Vec2, point: Vec2) -> (r: Vec2)
    requires
        0 <= screen_size.x <= SIZE_LIMIT,
        0 <= screen_size.y <= SIZE_LIMIT,
        point_ok(point),
    ensures
        r.x == point.x + screen_size.x / 2,
        r.y == point.y + screen_size.y / 2,
{
    Vec2 { x: point.x + screen_size.x / 2, y: point.y + screen_size.y / 2 }
}

} // verus!
