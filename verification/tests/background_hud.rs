use asteroids_core::background::{background_tiles, star_field};
use asteroids_core::rng::new_rng;

#[test]
fn star_field_pixels_are_black_or_grey_stars() {
    let mut rng = new_rng();
    let w: u32 = 64;
    let h: u32 = 32;
    let buf = star_field(w, h, 200, &mut rng);
    assert_eq!(buf.len(), (4 * w * h) as usize);
    let mut stars = 0usize;
    for p in 0..(w * h) as usize {
        let r = buf[4 * p];
        let g = buf[4 * p + 1];
        let b = buf[4 * p + 2];
        let a = buf[4 * p + 3];
        if a == 0 {
            assert_eq!((r, g, b), (0, 0, 0), "untouched pixels stay black");
        } else {
            assert_eq!(a, 255);
            assert!(r >= 100 && r < 255, "grey level in range: {r}");
            assert_eq!(r, g);
            assert_eq!(g, b);
            stars += 1;
        }
    }
    assert!(stars > 0, "some star landed");
    assert!(stars <= 200, "at most one star per draw");
}

#[test]
fn star_field_single_star() {
    let mut rng = new_rng();
    let buf = star_field(16, 16, 1, &mut rng);
    let lit = buf.chunks(4).filter(|px| px[3] == 255).count();
    assert_eq!(lit, 1, "one draw lights exactly one pixel");
}

#[test]
fn star_field_with_no_stars_is_black() {
    let mut rng = new_rng();
    let buf = star_field(8, 8, 0, &mut rng);
    assert!(buf.iter().all(|&x| x == 0));
}

#[test]
fn background_tile_grid() {
    let w: i64 = 1_280_000;
    let h: i64 = 720_000;
    let tiles = background_tiles();
    assert_eq!(tiles.len(), 17);
    assert_eq!(tiles[0], (-3 * w, -3 * h));
    assert_eq!(tiles[1], (-3 * w, -1 * h));
    assert_eq!(tiles[3], (-3 * w, 3 * h));
    assert_eq!(tiles[4], (-1 * w, -3 * h));
    assert_eq!(tiles[15], (3 * w, 3 * h));
    assert_eq!(tiles[16], (0, 0));
    // Every combination of the four odd factors appears exactly once.
    for fx in [-3i64, -1, 1, 3] {
        for fy in [-3i64, -1, 1, 3] {
            assert_eq!(
                tiles.iter().filter(|t| **t == (fx * w, fy * h)).count(),
                1,
                "tile ({fx}, {fy})"
            );
        }
    }
}
