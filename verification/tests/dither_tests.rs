use pixel_stream::dither::ordered_dither_rank;

#[test]
fn ordered_dither_ranks_follow_the_bayer_pattern() {
    assert_eq!(ordered_dither_rank(0, 0, 0, 0), 0);
    assert_eq!(ordered_dither_rank(1, 0, 0, 0), 2);
    assert_eq!(ordered_dither_rank(0, 1, 0, 0), 3);
    assert_eq!(ordered_dither_rank(1, 1, 0, 0), 1);
    assert_eq!(ordered_dither_rank(7, 0, 0, 0), 42);
    assert_eq!(ordered_dither_rank(-1, 0, 0, 0), 42);
    assert_eq!(ordered_dither_rank(3, 5, 4, -5), ordered_dither_rank(7, 0, 0, 0));
}

#[test]
fn ordered_dither_tile_holds_each_rank_once() {
    let mut seen = [false; 64];
    for y in 0..8 {
        for x in 0..8 {
            let rank = ordered_dither_rank(x, y, 0, 0) as usize;
            assert!(!seen[rank]);
            seen[rank] = true;
        }
    }
    assert!(seen.iter().all(|s| *s));
}
