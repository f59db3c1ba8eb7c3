//! The hitbox mask of the playing field: a picture that is never drawn and
//! whose colours say what stands at a pixel of the canvas.

use vstd::prelude::*;
use crate::picture::Picture;

verus! {

/// What the mask says of a pixel.
#[derive(Debug, Clone, Copy, PartialEq, Eq, Structural)]
pub enum HitboxKind {
    /// Nothing stands here.
    Free,
    /// The ball bounces off this pixel.
    Obstacle,
    /// This pixel lies behind a goal line.
    Goal,
}

/// What an RGBA pixel of the mask stands for: pure red that is fully opaque
/// is an obstacle, pure blue that is not fully transparent is a goal.
pub open spec fn hitbox_kind(rgba: Seq<u8>) -> HitboxKind {
    if rgba[0] == 255 && rgba[1] == 0 && rgba[2] == 0 && rgba[3] == 255 {
        HitboxKind::Obstacle
    } else if rgba[0] == 0 && rgba[1] == 0 && rgba[2] == 255 && rgba[3] != 0 {
        HitboxKind::Goal
    } else {
        HitboxKind::Free
    }
}

/// What the mask with the given pixels says of `(x, y)`. Beyond the mask
/// nothing stands.
pub open spec fn hitbox_at(pixels: Seq<Seq<Seq<u8>>>, x: int, y: int) -> HitboxKind {
    if 0 <= x < pixels.len() && 0 <= y < pixels[x].len() {
        hitbox_kind(pixels[x][y])
    } else {
        HitboxKind::Free
    }
}

/// Tells what an RGBA pixel of the mask stands for.
pub fn classify_hitbox_pixel(rgba: [u8; 4]) -> (kind: HitboxKind)
    ensures
        kind == hitbox_kind(rgba@),
{
    if rgba[0] == 255 && rgba[1] == 0 && rgba[2] == 0 && rgba[3] == 255 {
        HitboxKind::Obstacle
    } else if rgba[0] == 0 && rgba[1] == 0 && rgba[2] == 255 && rgba[3] != 0 {
        HitboxKind::Goal
    } else {
        HitboxKind::Free
    }
}

/// Tells what `field_hitbox` says of the canvas pixel `(x, y)`.
pub fn hitbox_lookup(field_hitbox: &Picture, x: u16, y: u16) -> (kind: HitboxKind)
    ensures
        kind == hitbox_at(field_hitbox@, x as int, y as int),
{
    let width = field_hitbox.width();
    let height = field_hitbox.height();
    if (x as usize) < width && (y as usize) < height {
        classify_hitbox_pixel(field_hitbox.pixel(x as usize, y as usize))
    } else {
        HitboxKind::Free
    }
}

} // verus!
