//! The raycaster and the collision resolver against levels built from
//! digit grids, with analytically computed expected hits.

use raygrid::collision::circle_aabb_penetration;
use raygrid::grid::coords;
use raygrid::level::{
    create_level, level_from_digit_rows, level_to_digit_rows, sort_sprites_by_distance,
    update_sprite_distances, Level, LevelBlock, LevelError, LevelSprite,
};
use raygrid::math::vec2;
use raygrid::num::FRAC_ONE;
use raygrid::player::{create_player, player_map_collision, PlayerTransform};
use raygrid::raycast::{is_sprite_visible, raycast_level, LevelRaycastResults};

fn room(rows: Vec<Vec<u8>>, tile_size: i64) -> Level {
    level_from_digit_rows(&rows, tile_size).unwrap()
}

/// The single-free-cell level: one open tile ringed by walls.
fn cell_level(tile_size: i64) -> Level {
    room(vec![vec![1, 1, 1], vec![1, 0, 1], vec![1, 1, 1]], tile_size)
}

#[test]
fn raycast_grid_test() {
    // a forty-five degree ray from a lattice corner: tile size 5.0 in
    // thousandths, a free 8x8 grid with one solid tile three cells up
    // and to the right of the origin cell
    let mut rows = vec![vec![0u8; 8]; 8];
    rows[7][7] = 1;
    let level = room(rows, 5000);
    let mut session = LevelRaycastResults::new();
    let dir = vec2(46341, 46341);
    let hit = raycast_level(&mut session, &level, vec2(0, 0), dir);
    // the analytic distance to the struck tile corner is 15.0 * sqrt(2)
    assert_eq!(hit.distance, 21213);
    assert_eq!((hit.coord.x, hit.coord.y), (7, 7));
    assert_eq!((hit.point.x, hit.point.y), (15000, 15000));
}

#[test]
fn raycast_single_cell_east() {
    // the classic check: a single free cell ringed by walls, cast from
    // the center along +x, must strike tile (2, 1) half a tile away
    let level = cell_level(32);
    let mut session = LevelRaycastResults::new();
    let hit = raycast_level(&mut session, &level, vec2(0, 0), vec2(FRAC_ONE, 0));
    assert_eq!((hit.coord.x, hit.coord.y), (2, 1));
    assert_eq!(hit.distance, 16);
    assert!(!hit.is_horizontal_hit);
    assert_eq!((hit.point.x, hit.point.y), (16, 0));
}

#[test]
fn raycast_single_cell_cardinals_and_diagonal() {
    let level = cell_level(32);
    let mut session = LevelRaycastResults::new();

    // straight up: only the horizontal family runs; the struck face is
    // a horizontal grid line, sixteen subunits away
    let up = raycast_level(&mut session, &level, vec2(0, 0), vec2(0, FRAC_ONE));
    assert_eq!((up.coord.x, up.coord.y), (1, 2));
    assert_eq!(up.distance, 16);
    assert!(up.is_horizontal_hit);

    // straight down
    let down = raycast_level(&mut session, &level, vec2(0, 0), vec2(0, -FRAC_ONE));
    assert_eq!((down.coord.x, down.coord.y), (1, 0));
    assert_eq!(down.distance, 16);
    assert!(down.is_horizontal_hit);

    // west
    let west = raycast_level(&mut session, &level, vec2(0, 0), vec2(-FRAC_ONE, 0));
    assert_eq!((west.coord.x, west.coord.y), (0, 1));
    assert_eq!(west.distance, 16);
    assert!(!west.is_horizontal_hit);

    // the diagonal reaches the corner at sixteen * sqrt(2), floored;
    // both families tie and the horizontal one wins
    let diag = raycast_level(&mut session, &level, vec2(0, 0), vec2(46341, 46341));
    assert_eq!(diag.distance, 22);
    assert!(diag.is_horizontal_hit);
}

#[test]
fn raycast_oblique_angle_matches_analytic() {
    // a five-by-five room with a three-by-three free interior, cast
    // from the center at slope one half: the ray leaves the interior
    // through the east face at (48, 24), an analytic distance of
    // 24 * sqrt(5) = 53.66..., floored to 53, on a vertical grid line
    let level = room(
        vec![
            vec![1, 1, 1, 1, 1],
            vec![1, 0, 0, 0, 1],
            vec![1, 0, 0, 0, 1],
            vec![1, 0, 0, 0, 1],
            vec![1, 1, 1, 1, 1],
        ],
        32,
    );
    let mut session = LevelRaycastResults::new();
    let hit = raycast_level(&mut session, &level, vec2(0, 0), vec2(2 * FRAC_ONE, FRAC_ONE));
    assert!(!hit.is_horizontal_hit);
    assert_eq!((hit.point.x, hit.point.y), (48, 24));
    assert_eq!(hit.distance, 53);
    assert_eq!((hit.coord.x, hit.coord.y), (4, 3));

    // the mirrored slope leaves through the north face instead, and the
    // reported family flips with it
    let hit2 = raycast_level(&mut session, &level, vec2(0, 0), vec2(FRAC_ONE, 2 * FRAC_ONE));
    assert!(hit2.is_horizontal_hit);
    assert_eq!((hit2.point.x, hit2.point.y), (24, 48));
    assert_eq!(hit2.distance, 53);
}

#[test]
fn raycast_zero_direction_is_sentinel() {
    let level = cell_level(32);
    let mut session = LevelRaycastResults::new();
    let hit = raycast_level(&mut session, &level, vec2(0, 0), vec2(0, 0));
    assert_eq!(hit.distance, raygrid::raycast::RAY_DISTANCE_SENTINEL);
    assert_eq!(session.visited.len(), 0);
    assert_eq!(session.hits.len(), 1);
}

#[test]
fn raycast_records_visited_cells() {
    let level = cell_level(32);
    let mut session = LevelRaycastResults::new();
    raycast_level(&mut session, &level, vec2(0, 0), vec2(FRAC_ONE, 0));
    // the east cast walks only the vertical family: through the free
    // center column onward to the wall
    assert!(session.visited.iter().any(|c| c.x == 2 && c.y == 1));
    assert_eq!(session.hits.len(), 1);
}

#[test]
fn returns_zero_if_not_overlapping() {
    let p = circle_aabb_penetration(vec2(1, 1), 5, vec2(20, 20), vec2(5, 5));
    assert_eq!(p, vec2(0, 0));
}

#[test]
fn returns_zero_if_touching_corners() {
    // x axis
    {
        let circle_pos = vec2(1, 0);
        let circle_radius = 5;
        let rect_center = vec2(1 + 5 + 5, 0);
        let p = circle_aabb_penetration(circle_pos, circle_radius, rect_center, vec2(5, 5));
        assert_eq!(p, vec2(0, 0));

        // one subunit closer overlaps
        let p2 = circle_aabb_penetration(
            vec2(FRAC_ONE + 1, 0),
            5 * FRAC_ONE,
            vec2((1 + 5 + 5) * FRAC_ONE, 0),
            vec2(5 * FRAC_ONE, 5 * FRAC_ONE),
        );
        assert_ne!(p2, vec2(0, 0));
    }
    // y axis
    {
        let circle_pos = vec2(0, 1);
        let circle_radius = 5;
        let rect_center = vec2(0, 1 + 5 + 5);
        let p = circle_aabb_penetration(circle_pos, circle_radius, rect_center, vec2(5, 5));
        assert_eq!(p, vec2(0, 0));

        let p2 = circle_aabb_penetration(
            vec2(0, FRAC_ONE + 1),
            5 * FRAC_ONE,
            vec2(0, (1 + 5 + 5) * FRAC_ONE),
            vec2(5 * FRAC_ONE, 5 * FRAC_ONE),
        );
        assert_ne!(p2, vec2(0, 0));
    }
}

#[test]
fn returns_positive_if_overlapping_right() {
    let p = circle_aabb_penetration(
        vec2(FRAC_ONE, FRAC_ONE),
        5 * FRAC_ONE,
        vec2(8 * FRAC_ONE, 8 * FRAC_ONE),
        vec2(5 * FRAC_ONE, 5 * FRAC_ONE),
    );
    // the subunit value of 1.5355... on both axes
    assert_eq!(p, vec2(100633, 100633));
}

#[test]
fn returns_negative_if_overlapping_right() {
    let p = circle_aabb_penetration(
        vec2(FRAC_ONE, FRAC_ONE),
        5 * FRAC_ONE,
        vec2(-6 * FRAC_ONE, -6 * FRAC_ONE),
        vec2(5 * FRAC_ONE, 5 * FRAC_ONE),
    );
    assert_eq!(p, vec2(-100633, -100633));
}

#[test]
fn penetration_magnitude_axis_aligned() {
    // axis-aligned overlap: distance to the closest point is 7, radius
    // 10, so the correction has magnitude exactly 3
    let p = circle_aabb_penetration(vec2(0, 0), 10, vec2(12, 0), vec2(5, 5));
    assert_eq!(p, vec2(3, 0));
    // a second pass on the corrected position finds no overlap
    let p2 = circle_aabb_penetration(vec2(-3, 0), 10, vec2(12, 0), vec2(5, 5));
    assert_eq!(p2, vec2(0, 0));
}

#[test]
fn player_collision_resolves_and_is_idempotent() {
    let level = cell_level(32);
    // the single free cell spans world [-16, 16); a player of radius 10
    // standing 10 subunits from the east wall overlaps it by 4
    let mut t = PlayerTransform { pos: vec2(10, 0), rot: 0, radius: 10 };
    player_map_collision(&mut t, &level);
    assert_eq!(t.pos, vec2(6, 0));
    // the corrected position sits exactly radius away; a second pass
    // corrects nothing
    let before = t.pos;
    player_map_collision(&mut t, &level);
    assert_eq!(t.pos, before);
}

#[test]
fn level_queries_and_bounds() {
    let level = cell_level(32);
    assert_eq!(level.row_count(), 3);
    assert_eq!(level.column_count(), 3);
    assert_eq!(level.width(), 96);
    assert_eq!(level.height(), 96);
    assert_eq!(level.extents(), vec2(48, 48));
    assert_eq!(level.tile_extents(), vec2(16, 16));
    assert!(level.is_wall(0, 0));
    assert!(!level.is_wall(1, 1));
    // everything off the grid counts as solid
    assert!(level.is_wall(-1, 0));
    assert!(level.is_wall(3, 5));
    assert_eq!(level.get_tile(1, 1), Some(LevelBlock::Free));
    assert_eq!(level.get_tile(0, 1), Some(LevelBlock::Wall(1)));
    assert_eq!(level.get_tile(9, 9), None);
    assert_eq!(level.try_get_tile(1, 1), Some(LevelBlock::Free));
    assert_eq!(level.pos_to_coords(vec2(0, 0)), coords(1, 1));
    assert_eq!(level.position_to_coords(vec2(-17, 20)), coords(0, 2));
    assert_eq!(level.tile_bl(0, 0), vec2(-48, -48));
    assert_eq!(level.tile_center(1, 1), vec2(0, 0));
}

#[test]
fn level_parse_rejects_malformed_sources() {
    assert_eq!(
        level_from_digit_rows(&vec![], 32).err().unwrap(),
        LevelError::EmptyGrid
    );
    assert_eq!(
        level_from_digit_rows(&vec![vec![]], 32).err().unwrap(),
        LevelError::EmptyGrid
    );
    assert_eq!(
        level_from_digit_rows(&vec![vec![1, 1], vec![1]], 32).err().unwrap(),
        LevelError::UnequalRows
    );
    assert_eq!(
        level_from_digit_rows(&vec![vec![1, 1], vec![1, 7]], 32).err().unwrap(),
        LevelError::InvalidDigit
    );
    let huge: Vec<Vec<u8>> = vec![vec![0u8; 5000]];
    assert_eq!(level_from_digit_rows(&huge, 32).err().unwrap(), LevelError::TooLarge);
}

#[test]
fn level_digit_round_trip() {
    let rows = vec![vec![1, 1, 1], vec![1, 0, 2], vec![3, 1, 1]];
    let level = room(rows.clone(), 32);
    assert_eq!(level_to_digit_rows(&level), rows);
}

#[test]
fn set_tile_edits_the_grid() {
    let mut level = cell_level(32);
    assert!(level.set_tile(1, 1, LevelBlock::Wall(2)));
    assert_eq!(level.get_tile(1, 1), Some(LevelBlock::Wall(2)));
    assert!(!level.set_tile(5, 5, LevelBlock::Free));
}

#[test]
fn tile_colors() {
    assert_eq!(Level::tile_color(LevelBlock::Free).r, 255);
    assert_eq!(Level::tile_color(LevelBlock::Wall(1)).r, 255);
    assert_eq!(Level::tile_color(LevelBlock::Wall(2)).g, 255);
    assert_eq!(Level::tile_color(LevelBlock::Wall(3)).g, 255);
    let level = cell_level(32);
    assert_eq!(level.get_tile_color(1, 1), Level::tile_color(LevelBlock::Free));
    assert_eq!(level.get_tile_color(0, 0), Level::tile_color(LevelBlock::Wall(1)));
}

#[test]
fn block_digit_mapping() {
    assert_eq!(LevelBlock::from_digit(0), Some(LevelBlock::Free));
    assert_eq!(LevelBlock::from_digit(2), Some(LevelBlock::Wall(2)));
    assert_eq!(LevelBlock::from_digit(4), None);
    assert_eq!(LevelBlock::from_digit(9), None);
    assert_eq!(LevelBlock::Wall(3).to_digit(), 3);
    assert_eq!(LevelBlock::Free.to_digit(), 0);
    assert!(LevelBlock::Wall(1).is_wall());
    assert!(!LevelBlock::Free.is_wall());
}

#[test]
fn sprite_cell_caching() {
    let level = cell_level(32);
    let mut s = LevelSprite::new(0, 0, 0, true, &level);
    assert_eq!(s.coords, coords(1, 1));
    s.pos = vec2(-20, 0);
    s.update_cell(&level, false);
    // a static sprite's cached cell never moves without force
    assert_eq!(s.coords, coords(1, 1));
    s.update_cell(&level, true);
    assert_eq!(s.coords, coords(0, 1));
}

#[test]
fn sprite_distances_and_order() {
    let mut level = cell_level(96);
    level.sprites.push(LevelSprite::new(3, 4, 0, false, &level));
    level.sprites.push(LevelSprite::new(30, 40, 1, false, &level));
    level.sprites.push(LevelSprite::new(6, 8, 2, false, &level));
    update_sprite_distances(&mut level, vec2(0, 0));
    assert_eq!(level.sprites[0].distance_to_player, 5);
    assert_eq!(level.sprites[1].distance_to_player, 50);
    assert_eq!(level.sprites[2].distance_to_player, 10);
    sort_sprites_by_distance(&mut level);
    // farthest first, so nearer sprites paint over farther ones
    let d: Vec<i64> = level.sprites.iter().map(|s| s.distance_to_player).collect();
    assert_eq!(d, vec![50, 10, 5]);
}

#[test]
fn sprite_visibility_follows_visited_set() {
    // a two-by-two open room; the sprite sits in the far free cell a
    // westward ray walks through before stopping in the wall
    let level = room(
        vec![vec![1, 1, 1, 1], vec![1, 0, 0, 1], vec![1, 0, 0, 1], vec![1, 1, 1, 1]],
        32,
    );
    let sprite = LevelSprite::new(-16, -16, 0, true, &level);
    assert_eq!(sprite.coords, coords(1, 1));
    let mut session = LevelRaycastResults::new();
    assert!(!is_sprite_visible(&sprite, &session));
    raycast_level(&mut session, &level, vec2(16, -16), vec2(-FRAC_ONE, 0));
    assert!(is_sprite_visible(&sprite, &session));
    session.clear();
    assert!(!is_sprite_visible(&sprite, &session));
}

#[test]
fn create_level_layout() {
    let level = create_level();
    assert_eq!(level.row_count(), 11);
    assert_eq!(level.column_count(), 15);
    assert_eq!(level.tile_size, 32);
    assert_eq!(level.sprites.len(), 5);
    assert!(level.sprites.iter().all(|s| s.is_static));
    // the ring of walls and a few known cells
    for x in 0..15 {
        assert!(level.is_wall(x, 0));
        assert!(level.is_wall(x, 10));
    }
    for y in 0..11 {
        assert!(level.is_wall(0, y));
        assert!(level.is_wall(14, y));
    }
    assert_eq!(level.get_tile(3, 1), Some(LevelBlock::Wall(1)));
    assert_eq!(level.get_tile(8, 3), Some(LevelBlock::Wall(2)));
    assert_eq!(level.get_tile(2, 7), Some(LevelBlock::Wall(3)));
    assert_eq!(level.get_tile(1, 1), Some(LevelBlock::Free));
}

#[test]
fn create_player_defaults() {
    let p = create_player();
    assert_eq!(p.transform.pos, vec2(0, 0));
    assert_eq!(p.transform.radius, 10);
    assert_eq!(p.fov.ray_count, 100);
    assert_eq!(p.fov.dtheta(), 2 * 34315 / 100);
    assert_eq!(p.movement.v, 60);
}
