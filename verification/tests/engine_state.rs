//! Input bookkeeping, the frame buffer and compositor, the arena
//! bounce pass, and the installer shell's state machine.

use raygrid::breakout::{
    apply_velocity, check_ball_collisions, collide, play_collision_sound, update_scoreboard,
    Collision, ColliderBox, MovingBody, Scoreboard, Text, WallBundle, WallLocation, WALL_THICKNESS,
};
use raygrid::editor::{EngineState, LevelEditor, SpriteLayer};
use raygrid::input::{GameState, Input, KeyState, MouseButtonState, Time};
use raygrid::level::{level_from_digit_rows, LevelBlock, LevelSprite};
use raygrid::math::vec2;
use raygrid::num::FRAC_ONE;
use raygrid::player::{create_player, update_player};
use raygrid::raycast::{raycast_level, LevelRaycastResults};
use raygrid::render::{
    color_factor, corrected_distance, draw_3d_level, draw_sprite, rgba, Color, ScreenBuffer,
    Texture, TextureStore, Viewport2D,
};
use raygrid::ui::{App, ButtonStyle, Download, Message, Progress, State};

const KEY_W: i32 = 26;
const KEY_A: i32 = 4;

#[test]
fn key_states_follow_events() {
    let mut input = Input::new();
    assert!(!input.is_key_pressed(KEY_W));
    input.on_key_down(KEY_W);
    assert!(input.is_key_pressed(KEY_W));
    assert!(input.is_key_held_down(KEY_W));
    assert!(!input.is_key_released(KEY_W));
    // a second down promotes pressed to held
    input.on_key_down(KEY_W);
    assert!(!input.is_key_pressed(KEY_W));
    assert!(input.is_key_held_down(KEY_W));
    input.on_key_up(KEY_W);
    assert!(input.is_key_released(KEY_W));
    assert!(!input.is_key_held_down(KEY_W));
}

#[test]
fn post_update_promotes_and_drops() {
    let mut input = Input::new();
    input.on_key_down(KEY_W);
    input.on_key_down(KEY_A);
    input.on_key_up(KEY_A);
    input.post_update();
    // the pressed key is now held; the released one is gone
    assert!(input.is_key_held_down(KEY_W));
    assert!(!input.is_key_pressed(KEY_W));
    assert_eq!(input.keys.len(), 1);
    assert!(!input.is_key_held_down(KEY_A));
    assert!(!input.is_key_released(KEY_A));
}

#[test]
fn mouse_button_lookup() {
    let input = Input::new();
    assert!(input.mouse_button_state(0).is_none());
    assert_eq!(input.mouse_position(), vec2(0, 0));
}

#[test]
fn mouse_button_transitions() {
    let mut input = Input::new();
    input.on_mouse_down(1, vec2(10, 20), 5);
    assert_eq!(
        input.mouse_button_state(1),
        Some(MouseButtonState::Down { down_pos: vec2(10, 20), down_time: 5 })
    );
    // a second down while tracked changes nothing
    input.on_mouse_down(1, vec2(99, 99), 9);
    assert_eq!(
        input.mouse_button_state(1),
        Some(MouseButtonState::Down { down_pos: vec2(10, 20), down_time: 5 })
    );
    input.on_mouse_up(1, vec2(30, 40), 8);
    assert_eq!(
        input.mouse_button_state(1),
        Some(MouseButtonState::Up {
            down_pos: vec2(10, 20),
            down_time: 5,
            up_pos: vec2(30, 40),
            up_time: 8
        })
    );
    // the frame end drops buttons that came up
    input.post_update();
    assert!(input.mouse_button_state(1).is_none());
}

#[test]
fn time_advance_reports_delay() {
    let mut t = Time { target_frame_time: 16, dt: 0, last_frame_elapsed_time: 100 };
    let delay = t.advance(110);
    assert_eq!(t.dt, 10);
    assert_eq!(delay, 6);
    let delay2 = t.advance(200);
    assert_eq!(t.dt, 90);
    assert_eq!(delay2, 0);
}

#[test]
fn game_state_variants() {
    let s = GameState::PlayMode;
    assert_ne!(s, GameState::Editor);
    assert_eq!(KeyState::Pressed, KeyState::Pressed);
}

#[test]
fn editor_state_defaults_and_brush() {
    assert_eq!(EngineState::default(), EngineState::Game);
    assert_eq!(SpriteLayer::Background.z_offset(), -100);
    assert_eq!(SpriteLayer::Player.z_offset(), -25);
    let mut ed = LevelEditor { tile_brush: LevelBlock::Free };
    ed.cycle_brush();
    assert_eq!(ed.tile_brush, LevelBlock::Wall(1));
    ed.cycle_brush();
    ed.cycle_brush();
    assert_eq!(ed.tile_brush, LevelBlock::Wall(3));
    ed.cycle_brush();
    assert_eq!(ed.tile_brush, LevelBlock::Free);
}

#[test]
fn screen_buffer_pixels() {
    let mut buf = ScreenBuffer::new(4, 3);
    assert_eq!(buf.width(), 4);
    assert_eq!(buf.height(), 3);
    assert_eq!(buf.xy_to_index(2, 1), 6);
    assert_eq!(buf.xy_to_index_safe(0, 5), 12);
    let red = rgba(255, 0, 0, 255);
    buf.set_pixel(2, 1, red);
    assert_eq!(buf.pixels[6], 0xFF_FF_00_00u32);
    assert_eq!(buf.pixels[5], 0);
    buf.fill(0, 0, 0, 1, rgba(0, 0, 255, 255));
    // the first row is filled, the marked pixel above it is untouched
    assert_eq!(buf.pixels[0], 0xFF_00_00_FFu32);
    assert_eq!(buf.pixels[3], 0xFF_00_00_FFu32);
    assert_eq!(buf.pixels[6], 0xFF_FF_00_00u32);
}

#[test]
fn shading_and_correction() {
    // far walls darken: at twice the decay distance the factor halves
    let f = color_factor(240, 120, false);
    assert_eq!(f, FRAC_ONE / 2);
    // the horizontal family is dimmed by four fifths on top
    let fh = color_factor(240, 120, true);
    assert_eq!(fh, FRAC_ONE / 2 * 4 / 5);
    // within the decay distance the factor caps at one
    assert_eq!(color_factor(60, 120, false), FRAC_ONE);
    // looking straight along the view axis the corrected depth is the
    // distance itself
    let d = corrected_distance(vec2(100, 0), vec2(0, 0), vec2(FRAC_ONE, 0));
    assert_eq!(d, 100);
    // at ninety degrees off axis it projects to zero
    let d2 = corrected_distance(vec2(0, 100), vec2(0, 0), vec2(FRAC_ONE, 0));
    assert_eq!(d2, 0);
}

#[test]
fn sprite_in_unvisited_cell_is_not_drawn() {
    let level = level_from_digit_rows(
        &vec![vec![1, 1, 1], vec![1, 0, 1], vec![1, 1, 1]],
        32,
    )
    .unwrap();
    let sprite = LevelSprite {
        pos: vec2(0, 0),
        distance_to_player: 8,
        coords: raygrid::grid::coords(1, 1),
        is_static: true,
        sprite: 0,
    };
    let mut session = LevelRaycastResults::new();
    let mut buf = ScreenBuffer::new(4, 4);
    // pad the depth list so every column has a wall hit on record
    for _ in 0..4 {
        raycast_level(&mut session, &level, vec2(0, 0), vec2(FRAC_ONE, 0));
    }
    session.visited.clear();
    let before = buf.pixels.clone();
    draw_sprite(
        &mut buf,
        &sprite,
        &session,
        vec2(0, 0),
        vec2(FRAC_ONE, 0),
        2,
        32,
        rgba(0, 0, 255, 255),
    );
    // its cell was never visited, so nothing may change
    assert_eq!(buf.pixels, before);
}

#[test]
fn sprite_draws_where_walls_are_strictly_farther() {
    // a sprite dead ahead at distance 8, walls at 16: the depth test
    // passes strictly everywhere, the billboard spans the whole small
    // screen, and every pixel takes the sprite fill color
    let level = level_from_digit_rows(
        &vec![vec![1, 1, 1], vec![1, 0, 1], vec![1, 1, 1]],
        32,
    )
    .unwrap();
    let sprite = LevelSprite {
        pos: vec2(8, 0),
        distance_to_player: 8,
        coords: raygrid::grid::coords(1, 1),
        is_static: true,
        sprite: 0,
    };
    let mut session = LevelRaycastResults::new();
    let mut buf = ScreenBuffer::new(4, 4);
    for _ in 0..4 {
        raycast_level(&mut session, &level, vec2(0, 0), vec2(FRAC_ONE, 0));
    }
    session.visited.push(raygrid::grid::coords(1, 1));
    let blue = rgba(0, 0, 255, 255);
    draw_sprite(&mut buf, &sprite, &session, vec2(0, 0), vec2(FRAC_ONE, 0), 2, 32, blue);
    assert!(buf.pixels.iter().all(|p| *p == 0xFF_00_00_FFu32));

    // the depth test is strict: a sprite exactly as far as the wall
    // draws nothing
    let tied = LevelSprite { distance_to_player: 16, ..sprite };
    let mut buf2 = ScreenBuffer::new(4, 4);
    let before = buf2.pixels.clone();
    draw_sprite(&mut buf2, &tied, &session, vec2(0, 0), vec2(FRAC_ONE, 0), 2, 32, blue);
    assert_eq!(buf2.pixels, before);
}

#[test]
fn ray_fan_matches_screen_orientation() {
    // view east: the leftmost screen column's ray turns left of the
    // view (toward +y), so it crosses the grid line above the viewer
    let level = level_from_digit_rows(
        &vec![vec![1, 1, 1], vec![1, 0, 1], vec![1, 1, 1]],
        32,
    )
    .unwrap();
    let mut level2 = level;
    let mut session = LevelRaycastResults::new();
    let mut buf = ScreenBuffer::new(2, 2);
    let player = create_player();
    let textures = TextureStore { images: Vec::new() };
    draw_3d_level(
        &mut buf,
        &mut level2,
        &mut session,
        &player,
        &textures,
        vec2(FRAC_ONE, 0),
        1,
        120,
    );
    assert_eq!(session.hits.len(), 2);
    // column 0 is half a screen left of center: forty-five degrees up
    assert_eq!((session.hits[0].point.x, session.hits[0].point.y), (16, 16));
    // column 1 is the center ray: straight east
    assert_eq!((session.hits[1].point.x, session.hits[1].point.y), (16, 0));
}

#[test]
fn draw_3d_level_casts_one_ray_per_column() {
    let mut level = level_from_digit_rows(
        &vec![vec![1, 1, 1], vec![1, 0, 1], vec![1, 1, 1]],
        32,
    )
    .unwrap();
    let mut session = LevelRaycastResults::new();
    let mut buf = ScreenBuffer::new(8, 8);
    let player = create_player();
    let textures = TextureStore { images: Vec::new() };
    draw_3d_level(
        &mut buf,
        &mut level,
        &mut session,
        &player,
        &textures,
        vec2(FRAC_ONE, 0),
        4,
        120,
    );
    assert_eq!(session.hits.len(), 8);
    // every ray stopped at a wall at most a diagonal away
    assert!(session.hits.iter().all(|h| h.distance <= 23));
    // the east wall half a tile away fills the column strips entirely
    // with lit wall pixels
    assert!(buf.pixels.iter().any(|p| *p != 0));
    // the session was rebuilt from scratch: a second frame leaves the
    // same visited cells, not twice as many
    let visited_first = session.visited.clone();
    draw_3d_level(
        &mut buf,
        &mut level,
        &mut session,
        &player,
        &textures,
        vec2(FRAC_ONE, 0),
        4,
        120,
    );
    assert_eq!(session.visited, visited_first);
}

#[test]
fn texture_sampling() {
    let mut pixels = Vec::new();
    for i in 0..4 {
        pixels.push(rgba(i as u8, 0, 0, 255));
    }
    let tex = Texture { width: 2, height: 2, pixels };
    assert_eq!(tex.sample(0, 32, 0, 32), rgba(0, 0, 0, 255));
    assert_eq!(tex.sample(16, 32, 0, 32), rgba(1, 0, 0, 255));
    assert_eq!(tex.sample(0, 32, 16, 32), rgba(2, 0, 0, 255));
    assert_eq!(tex.sample(31, 32, 31, 32), rgba(3, 0, 0, 255));
}

#[test]
fn viewport_transform() {
    let vp = Viewport2D::new(vec2(10, 20), vec2(100, 80), FRAC_ONE / 2);
    let p = vp.world_to_viewport(vec2(8, 8));
    // scale one half, pivot shift, y flipped, centered on the size
    assert_eq!(p, vec2(10 + 4 + 50, 20 - 4 + 40));
    assert_eq!(Viewport2D::rect_top_left(vec2(0, 0), vec2(10, 10)), vec2(-5, 5));
}

#[test]
fn update_player_integrates_inputs() {
    let mut p = create_player();
    // a full second of holding turn-left and forward, looking east
    update_player(&mut p, 1, 1, FRAC_ONE, vec2(FRAC_ONE, 0));
    assert_eq!(p.transform.rot, 34315 + 102944);
    assert_eq!(p.transform.pos, vec2(60, 0));
    // no input leaves the pose alone
    let before = p.transform;
    update_player(&mut p, 0, 0, FRAC_ONE, vec2(0, FRAC_ONE));
    assert_eq!(p.transform, before);
}

#[test]
fn wall_bundles_cover_the_arena() {
    let left = WallBundle::new(WallLocation::Left);
    assert_eq!(left.position, vec2(-450, 0));
    assert_eq!(left.size, vec2(WALL_THICKNESS, 610));
    let top = WallBundle::new(WallLocation::Top);
    assert_eq!(top.position, vec2(0, 300));
    assert_eq!(top.size, vec2(910, WALL_THICKNESS));
}

#[test]
fn paddle_stays_inside_the_arena() {
    let mut x: i64 = 0;
    // a half second at full speed moves the paddle 250 to the right
    raygrid::breakout::move_paddle(&mut x, 1, 500, 120, FRAC_ONE / 2);
    assert_eq!(x, 250);
    // another half second would overshoot; the clamp stops it at the
    // wall margin
    raygrid::breakout::move_paddle(&mut x, 1, 500, 120, FRAC_ONE / 2);
    assert_eq!(x, 450 - (10 + 120) / 2);
    raygrid::breakout::move_paddle(&mut x, -2, 1000, 120, FRAC_ONE);
    assert_eq!(x, -450 + (10 + 120) / 2);
}

#[test]
fn apply_velocity_moves_bodies() {
    let mut bodies = vec![
        MovingBody { translation: vec2(0, 0), velocity: vec2(100, -50) },
        MovingBody { translation: vec2(5, 5), velocity: vec2(0, 0) },
    ];
    apply_velocity(&mut bodies, FRAC_ONE / 2);
    assert_eq!(bodies[0].translation, vec2(50, -25));
    assert_eq!(bodies[1].translation, vec2(5, 5));
}

#[test]
fn collide_classifies_sides() {
    // a to the left of b, shallower on x
    assert_eq!(
        collide(vec2(-8, 0), vec2(10, 10), vec2(0, 0), vec2(10, 10)),
        Some(Collision::Left)
    );
    assert_eq!(
        collide(vec2(8, 0), vec2(10, 10), vec2(0, 0), vec2(10, 10)),
        Some(Collision::Right)
    );
    assert_eq!(
        collide(vec2(0, 8), vec2(10, 10), vec2(0, 0), vec2(10, 10)),
        Some(Collision::Top)
    );
    assert_eq!(
        collide(vec2(0, -8), vec2(10, 10), vec2(0, 0), vec2(10, 10)),
        Some(Collision::Bottom)
    );
    assert_eq!(collide(vec2(50, 0), vec2(10, 10), vec2(0, 0), vec2(10, 10)), None);
    assert_eq!(
        collide(vec2(0, 0), vec2(10, 10), vec2(0, 0), vec2(10, 10)),
        Some(Collision::Inside)
    );
}

#[test]
fn ball_bounce_scores_and_despawns_bricks() {
    let mut velocity = vec2(10, -10);
    let mut colliders = vec![
        // a brick below the ball: struck on its top, reflecting y
        ColliderBox { position: vec2(0, -8), size: vec2(10, 10), is_brick: true, alive: true },
        // a far-away box: untouched
        ColliderBox { position: vec2(100, 0), size: vec2(10, 10), is_brick: false, alive: true },
    ];
    let mut score = Scoreboard { score: 2 };
    let mut events: u64 = 0;
    check_ball_collisions(
        &mut velocity,
        vec2(0, 0),
        vec2(10, 10),
        &mut colliders,
        &mut score,
        &mut events,
    );
    assert_eq!(velocity, vec2(10, 10));
    assert_eq!(score.score, 3);
    assert_eq!(events, 1);
    assert!(!colliders[0].alive);
    assert!(colliders[1].alive);

    let should_play = play_collision_sound(&mut events);
    assert!(should_play);
    assert_eq!(events, 0);
    assert!(!play_collision_sound(&mut events));
}

#[test]
fn scoreboard_renders_decimal() {
    let mut text = Text { sections: vec![b"Score: ".to_vec(), Vec::new()] };
    update_scoreboard(&Scoreboard { score: 0 }, &mut text);
    assert_eq!(text.sections[1], b"0".to_vec());
    update_scoreboard(&Scoreboard { score: 1024 }, &mut text);
    assert_eq!(text.sections[1], b"1024".to_vec());
    assert_eq!(text.sections[0], b"Score: ".to_vec());
}

#[test]
fn download_state_machine() {
    let mut d = Download::new(7, b"https://example.test/data.bin".to_vec());
    assert_eq!(d.state, State::Idle);
    assert!(!d.wants_transfer());
    d.start();
    assert_eq!(d.state, State::Downloading { progress: 0 });
    assert!(d.wants_transfer());
    // starting again while running changes nothing
    d.start();
    assert_eq!(d.state, State::Downloading { progress: 0 });
    d.update(Progress::Advanced(FRAC_ONE / 4));
    assert_eq!(d.view_progress(), FRAC_ONE / 4);
    d.update(Progress::Finished);
    assert_eq!(d.state, State::Finished);
    assert_eq!(d.view_progress(), FRAC_ONE);
    d.update(Progress::Errored);
    assert_eq!(d.state, State::Errored);
    assert_eq!(d.view_progress(), 0);
}

#[test]
fn installer_shell_updates() {
    let mut app = App::new(b"https://example.test/100MB.bin".to_vec());
    assert_eq!(app.title(), "Installer");
    assert_eq!(app.download_view.state, State::Downloading { progress: 0 });
    let close = app.update(Message::LauncherDownloadProgress(Progress::Finished));
    assert!(!close);
    assert_eq!(app.download_view.state, State::Finished);
    assert!(app.update(Message::Close));
}

#[test]
fn button_style_is_flat() {
    let style = ButtonStyle;
    let a = style.active();
    assert!(a.background.is_none());
    assert_eq!(a.text_color, Color { r: 255, g: 255, b: 255, a: 255 });
    assert_eq!(style.hovered(), a);
    assert_eq!(style.pressed(), a);
}
