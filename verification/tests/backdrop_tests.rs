use pixel_stream::backdrop::{direct_marker_visible, sprite_drawn, stream_rect, DirectBackdropSpriteSettings, PixelRect};
use pixel_stream::stream_state::DirectColorLookup;

fn rect(min_x: u32, min_y: u32, max_x: u32, max_y: u32) -> PixelRect {
    PixelRect { min_x, min_y, max_x, max_y }
}

#[test]
fn sprite_without_rect_covers_the_stream() {
    assert_eq!(stream_rect(None, 320, 240), Some(rect(0, 0, 320, 240)));
    assert_eq!(stream_rect(None, 0, 240), None);
}

#[test]
fn sprite_rect_is_clamped_to_the_stream() {
    assert_eq!(stream_rect(Some(rect(10, 20, 400, 30)), 320, 240), Some(rect(10, 20, 320, 30)));
    assert_eq!(stream_rect(Some(rect(500, 500, 600, 600)), 320, 240), Some(rect(320, 240, 320, 240)));
    assert_eq!(stream_rect(Some(rect(10, 20, 10, 30)), 320, 240), None);
    assert_eq!(stream_rect(Some(rect(10, 30, 20, 20)), 320, 240), None);
}

#[test]
fn only_direct_sprites_show_the_direct_marker() {
    assert!(direct_marker_visible(DirectColorLookup::Direct));
    assert!(!direct_marker_visible(DirectColorLookup::Altered));
}

#[test]
fn at_most_max_sprites_are_drawn() {
    let settings = DirectBackdropSpriteSettings::default();
    assert!(settings.enabled);
    assert_eq!(settings.max_sprites, 16);
    assert!(sprite_drawn(settings, 15));
    assert!(!sprite_drawn(settings, 16));
    let off = DirectBackdropSpriteSettings { enabled: false, max_sprites: 16 };
    assert!(!sprite_drawn(off, 0));
}
