use raycaster::camera::{Camera, Direction, MoveKeys};
use raycaster::color::Color;
use raycaster::fixed::{floor_div, floor_mod, SCALE};
use raycaster::grid::{is_blocking, Cell, GridMap, MapError};
use raycaster::input::{Event, KeyState, KeyTracker};
use raycaster::minimap::{minimap_cells, minimap_marker, Rect};
use raycaster::raycast::{cast_ray, wall_sample, Hit, RayResult};
use raycaster::render::{column_bounds, render_column, render_view, Shading};
use raycaster::texture::{find_texture, Texture, TileTexture};

fn rows(lines: &[&str]) -> Vec<Vec<char>> {
    lines.iter().map(|l| l.chars().collect()).collect()
}

fn map_of(lines: &[&str]) -> GridMap {
    GridMap::from_rows(rows(lines)).unwrap()
}

fn bordered(n: usize) -> GridMap {
    let mut lines: Vec<String> = Vec::new();
    for y in 0..n {
        let mut line = String::new();
        for x in 0..n {
            if x == 0 || y == 0 || x == n - 1 || y == n - 1 {
                line.push('#');
            } else {
                line.push('.');
            }
        }
        lines.push(line);
    }
    let refs: Vec<&str> = lines.iter().map(|s| s.as_str()).collect();
    map_of(&refs)
}

fn dir_of(angle: f64) -> Direction {
    Direction::new(
        (angle.sin() * SCALE as f64).round() as i64,
        (angle.cos() * SCALE as f64).round() as i64,
    )
}

#[test]
fn map_loading_classifies_cells() {
    let m = map_of(&["##", "#."]);
    assert_eq!(m.width(), 2);
    assert_eq!(m.height(), 2);
    assert_eq!(m.get(1, 1), Ok(Cell::Open));
    assert_eq!(m.get(0, 0), Ok(Cell::Tile('#')));
    assert!(is_blocking(m.get(0, 0).unwrap()));
    assert!(!is_blocking(m.get(1, 1).unwrap()));
}

#[test]
fn map_loading_rejects_ragged_rows() {
    assert!(matches!(
        GridMap::from_rows(rows(&["##", "#"])),
        Err(MapError::MalformedMap)
    ));
    assert!(matches!(
        GridMap::from_rows(rows(&["#", "..", "#"])),
        Err(MapError::MalformedMap)
    ));
}

#[test]
fn map_lookup_out_of_bounds() {
    let m = map_of(&["##", "#."]);
    assert_eq!(m.get(2, 0), Err(MapError::OutOfBounds));
    assert_eq!(m.get(0, 2), Err(MapError::OutOfBounds));
    assert_eq!(m.get(-1, 0), Err(MapError::OutOfBounds));
    assert_eq!(m.get(0, -1), Err(MapError::OutOfBounds));
}

#[test]
fn empty_map_has_no_cells() {
    let m = GridMap::from_rows(Vec::new()).unwrap();
    assert_eq!(m.width(), 0);
    assert_eq!(m.height(), 0);
    assert_eq!(m.get(0, 0), Err(MapError::OutOfBounds));
}

#[test]
fn floor_division_rounds_down() {
    assert_eq!(floor_div(7, 2), 3);
    assert_eq!(floor_div(-7, 2), -4);
    assert_eq!(floor_div(-8, 2), -4);
    assert_eq!(floor_mod(-7, 2), 1);
    assert_eq!(floor_mod(7, 3), 1);
}

#[test]
fn open_space_ray_reaches_depth() {
    let m = map_of(&[".........", ".........", ".........", ".........", ".........", ".........", ".........", ".........", "........."]);
    let cam = Camera::at(4500, 4500, 3000, 5000);
    for angle in [0.0f64, 0.7, 1.9, 3.1, -2.4] {
        let r = cast_ray(&m, &cam, dir_of(angle));
        assert_eq!(r, RayResult { distance: 3000, hit: Hit::Nothing });
        assert_eq!(r.sample_x(), -SCALE);
    }
}

#[test]
fn ray_leaving_the_grid_is_out_of_bounds() {
    let m = map_of(&["...", "...", "..."]);
    let cam = Camera::at(1500, 1500, 16000, 5000);
    let r = cast_ray(&m, &cam, Direction::new(0, SCALE));
    assert_eq!(r.hit, Hit::OutOfBounds);
    assert_eq!(r.distance, 16000);
    assert_eq!(r.sample_x(), -SCALE);
}

#[test]
fn orthogonal_ray_hits_wall_at_exact_distance() {
    let m = map_of(&["....", "....", "....", "....", "..#.", "...."]);
    let cam = Camera::at(2500, 1000, 16000, 5000);
    let r = cast_ray(&m, &cam, Direction::new(0, SCALE));
    assert_eq!(r.distance, 3000);
    assert!(matches!(r.hit, Hit::Tile { id: '#', .. }));
}

#[test]
fn reversed_orthogonal_ray_hits_one_step_late() {
    let m = map_of(&["....", "..#.", "....", "....", "....", "...."]);
    let cam = Camera::at(2500, 4000, 16000, 5000);
    let r = cast_ray(&m, &cam, Direction::new(0, -SCALE));
    // The face at y = 2 is 2 units away; the point on it still lies in the open row 2.
    assert_eq!(r.distance, 2100);
    assert!(matches!(r.hit, Hit::Tile { id: '#', .. }));
    let w = map_of(&["......", "#.....", "......"]);
    let cam2 = Camera::at(4000, 1500, 16000, 5000);
    let r2 = cast_ray(&w, &cam2, Direction::new(-SCALE, 0));
    assert_eq!(r2.distance, 3100);
}

#[test]
fn ray_at_face_centre_samples_half() {
    let m = map_of(&["....", "....", "....", "..#.", "...."]);
    let cam = Camera::at(2500, 1000, 16000, 5000);
    let r = cast_ray(&m, &cam, Direction::new(0, SCALE));
    assert_eq!(r, RayResult { distance: 2000, hit: Hit::Tile { id: '#', sample_x: 500 } });
    assert_eq!(r.sample_x(), 500);
    let side = map_of(&[".....", ".....", "....X", "....."]);
    let cam2 = Camera::at(1000, 2500, 16000, 5000);
    let r2 = cast_ray(&side, &cam2, Direction::new(SCALE, 0));
    assert_eq!(r2, RayResult { distance: 3000, hit: Hit::Tile { id: 'X', sample_x: 500 } });
}

#[test]
fn wall_sample_picks_the_axis_along_the_face() {
    // Lower-y face, a quarter of the way along x.
    assert_eq!(wall_sample(2_250_000, 3_000_000), 250);
    // Lower-x face, three quarters of the way along y.
    assert_eq!(wall_sample(4_000_000, 1_750_000), 750);
    // Negative coordinates still give a fraction in [0, 1).
    assert_eq!(wall_sample(-750_000, -1_000_000), 250);
}

#[test]
fn hit_distance_is_clamped_to_depth() {
    let m = map_of(&["...", "...", ".#."]);
    let cam = Camera::at(1500, 500, 1450, 5000);
    let r = cast_ray(&m, &cam, Direction::new(0, SCALE));
    assert_eq!(r.distance, 1450);
    assert!(matches!(r.hit, Hit::Tile { id: '#', .. }));
}

#[test]
fn ceiling_and_floor_fill_the_screen() {
    for d in [100i64, 250, 999, 1000, 1001, 3333, 16000, 1_000_000] {
        for h in [0u32, 1, 60, 240, 241] {
            let (c, f) = column_bounds(h, d);
            assert_eq!(c + f, h as i64);
            assert!(2 * c <= h as i64);
        }
    }
    assert_eq!(column_bounds(240, 16000), (105, 135));
    assert_eq!(column_bounds(240, 100), (-2280, 2520));
    assert_eq!(column_bounds(240, 3000), (40, 200));
    // 120 - 240 / 7 = 85.71...; rounded down.
    assert_eq!(column_bounds(240, 7000), (85, 155));
}

#[test]
fn blocked_move_leaves_camera_in_place() {
    let m = map_of(&["###", "#.#", "###"]);
    let mut cam = Camera::at(1500, 1500, 16000, 5000);
    assert!(!cam.try_move(&m, 0, 600));
    assert_eq!(cam, Camera::at(1500, 1500, 16000, 5000));
    assert!(!cam.try_move(&m, -600, 0));
    assert_eq!((cam.x, cam.y), (1500, 1500));
}

#[test]
fn open_move_shifts_by_exact_offset() {
    let m = map_of(&["....", "....", "....", "...."]);
    let mut cam = Camera::at(1500, 1500, 16000, 5000);
    assert!(cam.try_move(&m, 300, -200));
    assert_eq!((cam.x, cam.y), (1800, 1300));
    assert_eq!(cam.depth, 16000);
    assert_eq!(cam.speed, 5000);
}

#[test]
fn forward_movement_follows_heading() {
    let m = bordered(6);
    let mut cam = Camera::new();
    assert_eq!(cam, Camera::at(2000, 2000, 16000, 5000));
    let keys = MoveKeys { forward: true, backward: false, strafe_left: false, strafe_right: false };
    // 5 units/s for 0.1 s along +y.
    cam.apply_movement(&m, keys, Direction::new(0, SCALE), 100_000);
    assert_eq!((cam.x, cam.y), (2000, 2500));
    // Heading pi/2 (+x): sin = 1, cos = 0.
    cam.apply_movement(&m, keys, dir_of(std::f64::consts::FRAC_PI_2), 100_000);
    assert_eq!((cam.x, cam.y), (2500, 2500));
}

#[test]
fn strafing_and_backing_up() {
    let m = bordered(8);
    let mut cam = Camera::at(4000, 4000, 16000, 1000);
    let left = MoveKeys { forward: false, backward: false, strafe_left: true, strafe_right: false };
    cam.apply_movement(&m, left, Direction::new(0, SCALE), 1_000_000);
    assert_eq!((cam.x, cam.y), (3000, 4000));
    let right = MoveKeys { forward: false, backward: false, strafe_left: false, strafe_right: true };
    cam.apply_movement(&m, right, Direction::new(0, SCALE), 2_000_000);
    assert_eq!((cam.x, cam.y), (5000, 4000));
    let back = MoveKeys { forward: false, backward: true, strafe_left: false, strafe_right: false };
    cam.apply_movement(&m, back, Direction::new(0, SCALE), 500_000);
    assert_eq!((cam.x, cam.y), (5000, 3500));
}

#[test]
fn diagonal_move_into_wall_is_refused_whole() {
    let m = map_of(&["###", "#.#", "###"]);
    let mut cam = Camera::at(1900, 1500, 16000, 1000);
    let keys = MoveKeys { forward: true, backward: false, strafe_left: false, strafe_right: false };
    cam.apply_movement(&m, keys, Direction::new(707, 707), 500_000);
    assert_eq!((cam.x, cam.y), (1900, 1500));
}

#[test]
fn end_to_end_border_scenario() {
    let m = bordered(4);
    let cam = Camera::new();
    let fov = std::f64::consts::PI / 4.0;
    let width = 120u32;
    let heading = 0.0f64;
    let mut dirs = Vec::new();
    let mut angles = Vec::new();
    for x in 0..=width {
        let a = heading - fov / 2.0 + (x as f64 / width as f64) * fov;
        angles.push(a);
        dirs.push(dir_of(a));
    }
    for (a, d) in angles.iter().zip(dirs.iter()) {
        let r = cast_ray(&m, &cam, *d);
        assert!(matches!(r.hit, Hit::Tile { id: '#', .. }));
        let (s, c) = (a.sin(), a.cos());
        let to_y = if c > 0.0 { 1.0 / c } else { f64::INFINITY };
        let to_x = if s > 0.0 { 1.0 / s } else if s < 0.0 { 1.0 / -s } else { f64::INFINITY };
        let exact = to_y.min(to_x);
        let got = r.distance as f64 / SCALE as f64;
        assert!(got >= exact - 0.01 && got <= exact + 0.1 + 0.01, "{} vs {}", got, exact);
    }
    let view = render_view(&m, &cam, &dirs, 60, &Vec::new(), Shading::Textured);
    assert_eq!(view.len(), 121);
    assert!(view.iter().all(|c| c.len() == 61));
}

#[test]
fn textured_column_bands() {
    let tex = Texture::new(2, 2, vec![Color::red(), Color::white(), Color::grey(), Color::black()]).unwrap();
    let textures = vec![TileTexture { id: '#', texture: tex }];
    let ray = RayResult { distance: 3000, hit: Hit::Tile { id: '#', sample_x: 700 } };
    // h = 12: ceiling = 6 - 4 = 2, floor = 10.
    let col = render_column(ray, 16000, 12, &textures, Shading::Textured);
    assert_eq!(col.len(), 13);
    for y in 0..=2 {
        assert_eq!(col[y], Color::black());
    }
    // Rows 3..=5 have sample_y below one half: top row of the texture, right column.
    for y in 3..=5 {
        assert_eq!(col[y], Color::white(), "row {}", y);
    }
    for y in 6..=10 {
        assert_eq!(col[y], Color::black(), "row {}", y);
    }
    for y in 11..=12 {
        assert_eq!(col[y], Color::dark_green());
    }
}

#[test]
fn untextured_tile_falls_back_to_green() {
    let ray = RayResult { distance: 3000, hit: Hit::Tile { id: '%', sample_x: 700 } };
    let col = render_column(ray, 16000, 12, &Vec::new(), Shading::Textured);
    assert_eq!(col[5], Color::green());
    let far = RayResult { distance: 16000, hit: Hit::Nothing };
    let col2 = render_column(far, 16000, 12, &Vec::new(), Shading::Textured);
    // ceiling = 6 - 0.75 -> 5
    assert_eq!(col2[5], Color::black());
    assert_eq!(col2[6], Color::green());
}

#[test]
fn flat_shading_by_distance_and_row() {
    let near = RayResult { distance: 1000, hit: Hit::Tile { id: '#', sample_x: 0 } };
    let col = render_column(near, 16000, 40, &Vec::new(), Shading::Flat);
    // ceiling = 20 - 40 = -20: all rows up to floor 60 are wall.
    assert_eq!(col[0], Color::white());
    assert_eq!(col[40], Color::white());
    let mid = RayResult { distance: 6000, hit: Hit::Tile { id: '#', sample_x: 0 } };
    assert_eq!(render_column(mid, 16000, 40, &Vec::new(), Shading::Flat)[20], Color::dark_grey());
    let far = RayResult { distance: 16000, hit: Hit::Nothing };
    let col2 = render_column(far, 16000, 40, &Vec::new(), Shading::Flat);
    // ceiling = 20 - 2.5 -> 17, floor = 23.
    assert_eq!(col2[17], Color::black());
    assert_eq!(col2[20], Color::black());
    assert_eq!(col2[23], Color::black());
    assert_eq!(col2[40], Color::green());
    assert_eq!(col2[36], Color::green());
    assert_eq!(col2[35], Color::dark_green());
    assert_eq!(col2[30], Color::very_dark_green());
    assert_eq!(col2[24], Color::new(0, 32, 0));
    let tall = render_column(far, 16000, 400, &Vec::new(), Shading::Flat);
    // ceiling = 200 - 25 = 175, floor = 225; rows just below it are far floor.
    assert_eq!(tall[225], Color::black());
    assert_eq!(tall[226], Color::new(0, 32, 0));
    assert_eq!(tall[400], Color::green());
}

#[test]
fn texture_construction_and_sampling() {
    assert!(Texture::new(0, 2, Vec::new()).is_none());
    assert!(Texture::new(2, 2, vec![Color::red(); 3]).is_none());
    let t = Texture::new(3, 1, vec![Color::red(), Color::green(), Color::magenta()]).unwrap();
    assert_eq!(t.sample(0, 0), Color::red());
    assert_eq!(t.sample(333, 0), Color::red());
    assert_eq!(t.sample(334, 0), Color::green());
    assert_eq!(t.sample(999, 500), Color::magenta());
    assert_eq!(t.sample(1000, 1000), Color::magenta());
    assert_eq!(t.sample(-1000, -5), Color::red());
}

#[test]
fn texture_lookup_takes_first_binding() {
    let a = Texture::new(1, 1, vec![Color::red()]).unwrap();
    let b = Texture::new(1, 1, vec![Color::green()]).unwrap();
    let c = Texture::new(1, 1, vec![Color::white()]).unwrap();
    let v = vec![
        TileTexture { id: 'a', texture: a },
        TileTexture { id: 'b', texture: b },
        TileTexture { id: 'a', texture: c },
    ];
    assert_eq!(find_texture(&v, 'a'), Some(0));
    assert_eq!(find_texture(&v, 'b'), Some(1));
    assert_eq!(find_texture(&v, 'z'), None);
}

#[test]
fn colors_build_with_and_without_alpha() {
    assert_eq!(Color::new(1, 2, 3), Color { r: 1, g: 2, b: 3, a: 255 });
    assert_eq!(Color::new_alpha(1, 2, 3, 4), Color { r: 1, g: 2, b: 3, a: 4 });
    assert_eq!(Color::dark_green(), Color::new(0, 128, 0));
}

#[test]
fn minimap_squares_and_marker() {
    let m = map_of(&["#.", ".."]);
    let cells = minimap_cells(&m);
    assert_eq!(cells.len(), 2);
    assert_eq!(cells[0][0], Rect { x: 4, y: 4, w: 4, h: 4, color: Color::red() });
    assert_eq!(cells[0][1], Rect { x: 8, y: 4, w: 4, h: 4, color: Color::black() });
    assert_eq!(cells[1][0], Rect { x: 4, y: 8, w: 4, h: 4, color: Color::black() });
    let cam = Camera::at(1500, 700, 16000, 5000);
    assert_eq!(minimap_marker(&cam), Rect { x: 8, y: 4, w: 4, h: 4, color: Color::green() });
    assert_eq!(cam.cell(), (1, 0));
}

#[test]
fn key_states_across_frames() {
    let mut k = KeyTracker::new();
    assert_eq!(k.get_key_state(7), KeyState::Idle);
    assert!(k.handle(Event::KeyDown { code: 7, repeat: false }));
    assert_eq!(k.get_key_state(7), KeyState::Pressed);
    assert!(k.is_pressed(7));
    k.begin_frame();
    assert_eq!(k.get_key_state(7), KeyState::Held);
    assert!(k.is_held(7) && !k.is_pressed(7));
    assert!(k.handle(Event::KeyDown { code: 9, repeat: true }));
    assert!(!k.is_pressed(9));
    assert!(k.handle(Event::KeyUp { code: 7 }));
    assert_eq!(k.get_key_state(7), KeyState::Released);
    assert!(k.is_released(7) && !k.is_held(7));
    assert_eq!(k.get_released(), vec![7]);
    k.begin_frame();
    assert_eq!(k.get_key_state(7), KeyState::Idle);
    assert!(k.get_pressed().is_empty() && k.get_held().is_empty());
}

#[test]
fn quit_event_stops_the_loop() {
    let mut k = KeyTracker::new();
    assert!(!k.handle(Event::Quit));
    assert!(k.handle(Event::KeyUp { code: 1 }));
}
