use multi::chunk::Chunk;
use multi::constants::{CHUNK_SIZE, MAP_CHUNK_HEIGHT, MAP_CHUNK_WIDTH, MAP_HEIGHT, MAP_WIDTH};
use multi::map::GameMap;

#[test]
fn chunk_new_keeps_coordinates() {
    let c = Chunk::new(3, -7);
    assert_eq!(c.x(), 3);
    assert_eq!(c.y(), -7);
}

#[test]
fn chunk_screen_position_scales_by_chunk_size() {
    assert_eq!(Chunk::new(0, 0).screen_position(), (0, 0));
    assert_eq!(Chunk::new(3, 2).screen_position(), (192, 128));
    assert_eq!(Chunk::new(-1, 5).screen_position(), (-64, 320));
    let far = Chunk::new(i32::MAX, i32::MIN).screen_position();
    assert_eq!(far, (i32::MAX as i64 * 64, i32::MIN as i64 * 64));
}

#[test]
fn map_new_has_standard_layout() {
    let m = GameMap::new();
    assert_eq!(m.chunks.len(), MAP_CHUNK_WIDTH);
    for (i, col) in m.chunks.iter().enumerate() {
        assert_eq!(col.len(), MAP_CHUNK_HEIGHT);
        for (j, c) in col.iter().enumerate() {
            assert_eq!((c.x(), c.y()), (i as i32, j as i32));
        }
    }
    assert_eq!(m.chunks[2][1], Chunk::new(2, 1));
}

#[test]
fn map_clone_is_equal_chunk_for_chunk() {
    let m = GameMap::new();
    let c = m.clone();
    assert_eq!(m.chunks, c.chunks);
}

#[test]
fn map_size_matches_chunk_grid() {
    assert_eq!(MAP_WIDTH, CHUNK_SIZE * MAP_CHUNK_WIDTH as i32);
    assert_eq!(MAP_HEIGHT, CHUNK_SIZE * MAP_CHUNK_HEIGHT as i32);
    assert_eq!((MAP_WIDTH, MAP_HEIGHT), (256, 192));
}
