use maplibre::coords::{TileCoordinate, MAX_ZOOM};

#[test]
fn root_tile_has_key_one() {
    assert_eq!(TileCoordinate::new(0, 0, 0).build_quad_key(), Some(1));
}

#[test]
fn key_is_four_times_parent_plus_quadrant() {
    assert_eq!(TileCoordinate::new(0, 0, 1).build_quad_key(), Some(4));
    assert_eq!(TileCoordinate::new(1, 0, 1).build_quad_key(), Some(5));
    assert_eq!(TileCoordinate::new(0, 1, 1).build_quad_key(), Some(6));
    assert_eq!(TileCoordinate::new(1, 1, 1).build_quad_key(), Some(7));
    assert_eq!(TileCoordinate::new(1, 2, 3).build_quad_key(), Some(73));
    for z in 1..=10u8 {
        let bound = 1i32 << z;
        for (x, y) in [(0, 0), (bound - 1, 0), (bound / 2, bound / 3), (bound - 1, bound - 1)] {
            let child = TileCoordinate::new(x, y, z).build_quad_key().unwrap();
            let parent = TileCoordinate::new(x / 2, y / 2, z - 1).build_quad_key().unwrap();
            assert_eq!(child, 4 * parent + (x % 2) as u64 + 2 * (y % 2) as u64);
        }
    }
}

#[test]
fn deepest_level_has_keys() {
    assert_eq!(MAX_ZOOM, 30);
    let last = (1i32 << 30) - 1;
    assert_eq!(TileCoordinate::new(0, 0, 30).build_quad_key(), Some(1u64 << 60));
    assert_eq!(TileCoordinate::new(last, last, 30).build_quad_key(), Some((1u64 << 61) - 1));
}

#[test]
fn tiles_off_the_grid_have_no_key() {
    assert_eq!(TileCoordinate::new(8, 0, 3).build_quad_key(), None);
    assert_eq!(TileCoordinate::new(0, 8, 3).build_quad_key(), None);
    assert_eq!(TileCoordinate::new(-1, 0, 3).build_quad_key(), None);
    assert_eq!(TileCoordinate::new(0, -1, 3).build_quad_key(), None);
    assert_eq!(TileCoordinate::new(1, 0, 0).build_quad_key(), None);
    assert_eq!(TileCoordinate::new(i32::MAX, i32::MIN, 30).build_quad_key(), None);
}

#[test]
fn levels_beyond_the_deepest_have_no_key() {
    assert_eq!(TileCoordinate::new(0, 0, 31).build_quad_key(), None);
    assert_eq!(TileCoordinate::new(0, 0, 255).build_quad_key(), None);
}

#[test]
fn keys_tell_tiles_apart() {
    let mut seen: Vec<(u64, TileCoordinate)> = Vec::new();
    for z in 0..=4u8 {
        let bound = 1i32 << z;
        for x in 0..bound {
            for y in 0..bound {
                let coords = TileCoordinate::new(x, y, z);
                let key = coords.build_quad_key().unwrap();
                for (other_key, other) in seen.iter() {
                    assert!(*other_key != key, "{:?} and {:?} share a key", other, coords);
                }
                seen.push((key, coords));
            }
        }
    }
    assert_eq!(seen.len(), 1 + 4 + 16 + 64 + 256);
}
