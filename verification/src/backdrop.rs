//! The integer decisions behind direct backdrop sprites: which part of the
//! stream a sprite covers, which sprites get drawn, and whether the
//! direct-lookup marker under a sprite shows.

use vstd::prelude::*;
use crate::stream_state::DirectColorLookup;

verus! {

/// A rectangle of stream pixels, `min` inclusive and `max` exclusive.
#[derive(Clone, Copy, Debug, PartialEq, Eq, Structural)]
pub struct PixelRect {
    pub min_x: u32,
    pub min_y: u32,
    pub max_x: u32,
    pub max_y: u32,
}

/// The smaller of two numbers.
pub open spec fn min_u32(a: u32, b: u32) -> u32 {
    if a <= b {
        a
    } else {
        b
    }
}

/// The stream area a sprite covers: its pixel rectangle (the whole
/// `width` x `height` stream when it has none), clamped to the stream; none
/// when the rectangle is empty or inverted before clamping.
pub open spec fn stream_rect_spec(pixel_rect: Option<PixelRect>, width: u32, height: u32) -> Option<PixelRect> {
    let rect = match pixel_rect {
        Some(r) => r,
        None => PixelRect { min_x: 0, min_y: 0, max_x: width, max_y: height },
    };
    if rect.min_x >= rect.max_x || rect.min_y >= rect.max_y {
        None
    } else {
        Some(
            PixelRect {
                min_x: min_u32(rect.min_x, width),
                min_y: min_u32(rect.min_y, height),
                max_x: min_u32(rect.max_x, width),
                max_y: min_u32(rect.max_y, height),
            },
        )
    }
}

/// The stream area a sprite covers (see [`stream_rect_spec`]).
pub fn stream_rect(pixel_rect: Option<PixelRect>, width: u32, height: u32) -> (r: Option<PixelRect>)
    ensures
        r == stream_rect_spec(pixel_rect, width, height),
{
    let rect = match pixel_rect {
        Some(r) => r,
        None => PixelRect { min_x: 0, min_y: 0, max_x: width, max_y: height },
    };
    if rect.min_x >= rect.max_x || rect.min_y >= rect.max_y {
        return None;
    }
    Some(
        PixelRect {
            min_x: if rect.min_x <= width { rect.min_x } else { width },
            min_y: if rect.min_y <= height { rect.min_y } else { height },
            max_x: if rect.max_x <= width { rect.max_x } else { width },
            max_y: if rect.max_y <= height { rect.max_y } else { height },
        },
    )
}

/// The marker that tells the shader to use the direct lookup shows only for
/// sprites that ask for it.
pub fn direct_marker_visible(color_lookup: DirectColorLookup) -> (visible: bool)
    ensures
        visible == (color_lookup == DirectColorLookup::Direct),
{
    match color_lookup {
        DirectColorLookup::Direct => true,
        DirectColorLookup::Altered => false,
    }
}

/// Settings of the backdrop sprites: whether they are drawn, and how many.
#[derive(Clone, Copy, Debug)]
pub struct DirectBackdropSpriteSettings {
    pub enabled: bool,
    pub max_sprites: usize,
}

impl Default for DirectBackdropSpriteSettings {
    fn default() -> (s: Self)
        ensures
            s.enabled,
            s.max_sprites == 16,
    {
        DirectBackdropSpriteSettings { enabled: true, max_sprites: 16 }
    }
}

/// Whether the sprite at `position` in the frame's list is drawn: sprites are
/// drawn while enabled, the first `max_sprites` of them; the rest are hidden.
pub fn sprite_drawn(settings: DirectBackdropSpriteSettings, position: usize) -> (drawn: bool)
    ensures
        drawn == (settings.enabled && position < settings.max_sprites),
{
    settings.enabled && position < settings.max_sprites
}

} // verus!
