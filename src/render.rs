//! Turning one ray into a column of pixels: a ceiling band, a wall band and
//! a floor band.
use vstd::prelude::*;
use crate::color::{rgb, Color};
use crate::fixed::{floor_div, SCALE};
use crate::camera::{Camera, Direction};
use crate::grid::GridMap;
use crate::raycast::{cast, cast_ray, lemma_cast_bounds, Hit, RayResult};
use crate::texture::{find_texture, first_bound, TileTexture};

verus! {

/// How walls and floors are colored.
#[derive(Clone, Copy, Debug, PartialEq, Eq, Structural)]
pub enum Shading {
    /// Walls sample the texture bound to their tile (green where none is);
    /// the floor is dark green.
    Textured,
    /// Walls are shaded by distance and the floor by its screen row.
    Flat,
}

/// The last screen row of the ceiling band for a wall at fixed-point
/// distance `d` on a screen `h` rows high: `floor(h / 2 - h / d)`.
pub open spec fn ceiling_row(h: int, d: int) -> int {
    (h * d - 2 * h * SCALE) / (2 * d)
}

/// The last screen row of the wall band.
pub open spec fn floor_row(h: int, d: int) -> int {
    h - ceiling_row(h, d)
}

/// The fixed-point vertical texture coordinate of row `y` in the wall band
/// from `c` (exclusive) to `f`.
pub open spec fn wall_sample_y(y: int, c: int, f: int) -> int {
    ((y - c) * SCALE) / (f - c)
}

/// Flat wall shade by distance: nearer is brighter; at or past the view
/// depth the wall is black.
pub open spec fn distance_shade(d: int, depth: int) -> Color {
    if 4 * d <= depth {
        rgb(255, 255, 255)
    } else if 3 * d < depth {
        rgb(192, 192, 192)
    } else if 2 * d < depth {
        rgb(128, 128, 128)
    } else if d < depth {
        rgb(64, 64, 64)
    } else {
        rgb(0, 0, 0)
    }
}

/// Flat floor shade of row `y` on a screen `h` rows high: with
/// `b = 2 (h - y) / h`, rows with `b` under 1/4, 1/2, 3/4, 9/10 get
/// five steps of green from bright to black.
pub open spec fn floor_shade(y: int, h: int) -> Color {
    let below = h - y;
    if 8 * below < h {
        rgb(0, 255, 0)
    } else if 4 * below < h {
        rgb(0, 128, 0)
    } else if 8 * below < 3 * h {
        rgb(0, 64, 0)
    } else if 20 * below < 9 * h {
        rgb(0, 32, 0)
    } else {
        rgb(0, 0, 0)
    }
}

/// Whether every texture of the registry is well formed.
pub open spec fn textures_wf(textures: Seq<TileTexture>) -> bool {
    forall|i: int| 0 <= i < textures.len() ==> (#[trigger] textures[i]).texture.wf()
}

/// The color of row `y` of the wall band.
pub open spec fn wall_color(
    ray: RayResult,
    depth: int,
    textures: Seq<TileTexture>,
    shading: Shading,
    sample_y: int,
) -> Color {
    match shading {
        Shading::Flat => distance_shade(ray.distance as int, depth),
        Shading::Textured => match ray.hit {
            Hit::Tile { id, sample_x } => {
                let i = first_bound(textures, id, 0);
                if i >= 0 {
                    textures[i].texture.color_at(sample_x as int, sample_y)
                } else {
                    rgb(0, 255, 0)
                }
            },
            _ => rgb(0, 255, 0),
        },
    }
}

/// The color of screen row `y` in the column of `ray`.
pub open spec fn column_pixel(
    ray: RayResult,
    depth: int,
    h: int,
    textures: Seq<TileTexture>,
    shading: Shading,
    y: int,
) -> Color {
    let c = ceiling_row(h, ray.distance as int);
    let f = floor_row(h, ray.distance as int);
    if y <= c {
        rgb(0, 0, 0)
    } else if y <= f {
        wall_color(ray, depth, textures, shading, wall_sample_y(y, c, f))
    } else {
        match shading {
            Shading::Flat => floor_shade(y, h),
            Shading::Textured => rgb(0, 128, 0),
        }
    }
}

/// The ceiling and floor rows for a wall at fixed-point `distance` on a
/// screen `screen_height` rows high.
pub fn column_bounds(screen_height: u32, distance: i64) -> (r: (i64, i64))
    requires
        distance > 0,
    ensures
        r.0 == ceiling_row(screen_height as int, distance as int),
        r.1 == floor_row(screen_height as int, distance as int),
        r.0 + r.1 == screen_height,
        2 * r.0 <= screen_height,
        r.0 >= -2000 * screen_height,
{
    let h = screen_height as i128;
    let d = distance as i128;
    proof {
        assert(0 <= h * d <= 0x1_0000_0000 * (i64::MAX as int)) by (nonlinear_arith)
            requires
                0 <= h <= 0xffff_ffff,
                0 < d <= i64::MAX,
        ;
    }
    let hs: i128 = h * 2000;
    let num = h * d - hs;
    let c = floor_div(num, 2 * d);
    proof {
        let hi = h as int;
        let di = d as int;
        vstd::arithmetic::div_mod::lemma_fundamental_div_mod(num as int, 2 * di);
        let q = c as int;
        let m = num as int % (2 * di);
        assert(num == 2 * di * q + m);
        assert(0 <= m < 2 * di);
        lemma_bands_fill_screen(hi, di);
        if q + 1 <= -2000 * hi {
            assert(2 * di * (q + 1) <= q + 1) by (nonlinear_arith)
                requires
                    q + 1 <= 0,
                    di >= 1,
            ;
            assert(2 * di * (q + 1) == 2 * di * q + 2 * di) by (nonlinear_arith);
        }
        assert(q >= -2000 * hi);
    }
    let ceiling = c as i64;
    (ceiling, screen_height as i64 - ceiling)
}

/// The colors of rows `0..=screen_height` of the column of `ray`, for a
/// camera that sees `depth` far.
pub fn render_column(
    ray: RayResult,
    depth: i64,
    screen_height: u32,
    textures: &Vec<TileTexture>,
    shading: Shading,
) -> (col: Vec<Color>)
    requires
        ray.distance > 0,
        textures_wf(textures@),
    ensures
        col@.len() == screen_height + 1,
        forall|y: int|
            0 <= y <= screen_height ==> #[trigger] col@[y] == column_pixel(
                ray,
                depth as int,
                screen_height as int,
                textures@,
                shading,
                y,
            ),
{
    let (c, f) = column_bounds(screen_height, ray.distance);
    let bound = match ray.hit {
        Hit::Tile { id, .. } => find_texture(textures, id),
        _ => None,
    };
    let mut col: Vec<Color> = Vec::new();
    let mut y: u64 = 0;
    while y <= screen_height as u64
        invariant
            0 <= y <= screen_height + 1,
            col@.len() == y,
            c == ceiling_row(screen_height as int, ray.distance as int),
            f == floor_row(screen_height as int, ray.distance as int),
            2 * c <= screen_height,
            c >= -2000 * screen_height,
            c + f == screen_height,
            textures_wf(textures@),
            match ray.hit {
                Hit::Tile { id, .. } => match bound {
                    Some(i) => i == first_bound(textures@, id, 0),
                    None => first_bound(textures@, id, 0) == -1,
                },
                _ => bound is None,
            },
            forall|j: int|
                0 <= j < y ==> #[trigger] col@[j] == column_pixel(
                    ray,
                    depth as int,
                    screen_height as int,
                    textures@,
                    shading,
                    j,
                ),
        decreases screen_height + 1 - y,
    {
        let yy = y as i64;
        let color = if yy <= c {
            Color::black()
        } else if yy <= f {
            match shading {
                Shading::Flat => flat_wall(ray.distance, depth),
                Shading::Textured => {
                    match (ray.hit, bound) {
                        (Hit::Tile { id, sample_x }, Some(i)) => {
                            proof {
                                crate::texture::lemma_first_bound(textures@, id, 0);
                                assert(-2000 * (screen_height as int) >= -0x1_0000_0000_0000);
                            }
                            let sy = sample_row(yy, c, f);
                            textures[i].texture.sample(sample_x, sy)
                        },
                        _ => Color::green(),
                    }
                },
            }
        } else {
            match shading {
                Shading::Flat => flat_floor(yy, screen_height as i64),
                Shading::Textured => Color::dark_green(),
            }
        };
        col.push(color);
        y = y + 1;
    }
    col
}

/// Casts one ray per entry of `dirs` and renders each as a column of
/// `screen_height + 1` rows: the view, column by column.
pub fn render_view(
    map: &GridMap,
    cam: &Camera,
    dirs: &Vec<Direction>,
    screen_height: u32,
    textures: &Vec<TileTexture>,
    shading: Shading,
) -> (cols: Vec<Vec<Color>>)
    requires
        map.wf(),
        cam.wf(),
        forall|i: int| 0 <= i < dirs@.len() ==> (#[trigger] dirs@[i]).wf(),
        textures_wf(textures@),
    ensures
        cols@.len() == dirs@.len(),
        forall|x: int| 0 <= x < dirs@.len() ==> #[trigger] cols@[x]@.len() == screen_height + 1,
        forall|x: int, y: int|
            0 <= x < dirs@.len() && 0 <= y <= screen_height ==> #[trigger] cols@[x]@[y]
                == column_pixel(
                cast(*map, *cam, dirs@[x]),
                cam.depth as int,
                screen_height as int,
                textures@,
                shading,
                y,
            ),
{
    let mut cols: Vec<Vec<Color>> = Vec::new();
    let mut x: usize = 0;
    while x < dirs.len()
        invariant
            map.wf(),
            cam.wf(),
            forall|i: int| 0 <= i < dirs@.len() ==> (#[trigger] dirs@[i]).wf(),
            textures_wf(textures@),
            x <= dirs@.len(),
            cols@.len() == x,
            forall|i: int| 0 <= i < x ==> #[trigger] cols@[i]@.len() == screen_height + 1,
            forall|i: int, y: int|
                0 <= i < x && 0 <= y <= screen_height ==> #[trigger] cols@[i]@[y] == column_pixel(
                    cast(*map, *cam, dirs@[i]),
                    cam.depth as int,
                    screen_height as int,
                    textures@,
                    shading,
                    y,
                ),
        decreases dirs@.len() - x,
    {
        let ray = cast_ray(map, cam, dirs[x]);
        proof {
            lemma_cast_bounds(*map, *cam, dirs@[x as int]);
        }
        let col = render_column(ray, cam.depth, screen_height, textures, shading);
        cols.push(col);
        x = x + 1;
    }
    cols
}

fn sample_row(y: i64, c: i64, f: i64) -> (r: i64)
    requires
        c < y <= f,
        -0x1_0000_0000_0000 <= c,
        f <= 0x1_0000_0000_0000,
    ensures
        r == wall_sample_y(y as int, c as int, f as int),
{
    proof {
        assert(0 < (y - c) * 1000 <= 0x1_0000_0000_0000_0000) by (nonlinear_arith)
            requires
                0 < y - c <= 0x2_0000_0000_0000,
        ;
    }
    let num: i128 = (y as i128 - c as i128) * SCALE as i128;
    let q = floor_div(num, f as i128 - c as i128);
    proof {
        vstd::arithmetic::div_mod::lemma_div_is_ordered(0, num as int, (f - c) as int);
        vstd::arithmetic::div_mod::lemma_div_is_ordered_by_denominator(num as int, 1, (f - c) as int);
    }
    q as i64
}

fn flat_wall(d: i64, depth: i64) -> (c: Color)
    ensures
        c == distance_shade(d as int, depth as int),
{
    let d = d as i128;
    let depth = depth as i128;
    if 4 * d <= depth {
        Color::white()
    } else if 3 * d < depth {
        Color::grey()
    } else if 2 * d < depth {
        Color::dark_grey()
    } else if d < depth {
        Color::very_dark_grey()
    } else {
        Color::black()
    }
}

fn flat_floor(y: i64, h: i64) -> (c: Color)
    requires
        0 <= y <= h <= 0xffff_ffff,
    ensures
        c == floor_shade(y as int, h as int),
{
    let below = h - y;
    if 8 * below < h {
        Color::green()
    } else if 4 * below < h {
        Color::dark_green()
    } else if 8 * below < 3 * h {
        Color::very_dark_green()
    } else if 20 * below < 9 * h {
        Color::new(0, 32, 0)
    } else {
        Color::black()
    }
}

/// For every positive distance, the ceiling row and the floor row add up to
/// the screen height, and the ceiling band ends above the middle row.
pub proof fn lemma_bands_fill_screen(h: int, d: int)
    requires
        h >= 0,
        d > 0,
    ensures
        ceiling_row(h, d) + floor_row(h, d) == h,
        2 * ceiling_row(h, d) <= h,
{
    let num = h * d - 2 * h * SCALE;
    let q = num / (2 * d);
    vstd::arithmetic::div_mod::lemma_fundamental_div_mod(num, 2 * d);
    assert(d * (2 * q) <= d * h) by (nonlinear_arith)
        requires
            num == 2 * d * q + num % (2 * d),
            0 <= num % (2 * d),
            num == h * d - 2 * h * 1000,
            h >= 0,
    ;
    assert(2 * q <= h) by (nonlinear_arith)
        requires
            d * (2 * q) <= d * h,
            d > 0,
    ;
}

} // verus!
