//! Fixed-step ray marching through the grid, and the wall-face sample
//! coordinate of the point that was struck.
use vstd::prelude::*;
use crate::camera::{cell_of_coord, Camera, Direction};
use crate::fixed::{floor_div, floor_mod, SCALE, SCALE_SQ, STEP};
use crate::grid::{Cell, GridMap};

verus! {

/// What a ray met.
#[derive(Clone, Copy, Debug, PartialEq, Eq, Structural)]
pub enum Hit {
    /// The ray left the grid.
    OutOfBounds,
    /// The ray reached the view depth through open cells.
    Nothing,
    /// The ray struck the tile `id`; `sample_x` is the fixed-point position
    /// along the struck face, in `[0, SCALE)`.
    Tile { id: char, sample_x: i64 },
}

/// The outcome of one ray: its length (fixed-point, at most the view depth)
/// and what it met.
#[derive(Clone, Copy, Debug, PartialEq, Eq, Structural)]
pub struct RayResult {
    pub distance: i64,
    pub hit: Hit,
}

impl RayResult {
    /// The fixed-point position along the struck face, or `-SCALE` (minus one
    /// grid unit) when no tile was struck.
    pub fn sample_x(&self) -> (r: i64)
        ensures
            r == match self.hit {
                Hit::Tile { sample_x, .. } => sample_x as int,
                _ => -SCALE,
            },
    {
        match self.hit {
            Hit::Tile { sample_x, .. } => sample_x,
            _ => -SCALE,
        }
    }
}

/// Number of steps a ray takes before it has reached `depth`.
pub open spec fn step_count(depth: int) -> int {
    (depth + STEP - 1) / (STEP as int)
}

/// One coordinate of the point reached after `k` steps from `c` along
/// component `d`, in units of `SCALE_SQ` per grid unit.
pub open spec fn point_at(c: int, d: int, k: int) -> int {
    c * SCALE + d * (k * STEP)
}

/// The cell index of a coordinate counted in `SCALE_SQ` units.
pub open spec fn cell_index(p: int) -> int {
    p / (SCALE_SQ as int)
}

/// Whether the struck face is one of the two that run along the x axis: the
/// point lies within the quarter of directions, seen from the cell's centre,
/// around +y or around -y (`atan2` in `[pi/4, 3pi/4)` or `[-3pi/4, -pi/4)`).
pub open spec fn face_runs_along_x(px: int, py: int) -> bool {
    let ddx = px - (cell_index(px) * SCALE_SQ + SCALE_SQ / 2);
    let ddy = py - (cell_index(py) * SCALE_SQ + SCALE_SQ / 2);
    (-ddy < ddx && ddx <= ddy) || (ddy <= ddx && ddx < -ddy)
}

/// The fixed-point position along the struck face of the point `(px, py)`:
/// the fractional part of the coordinate that varies along that face.
pub open spec fn face_sample(px: int, py: int) -> int {
    if face_runs_along_x(px, py) {
        (px % (SCALE_SQ as int)) / (SCALE as int)
    } else {
        (py % (SCALE_SQ as int)) / (SCALE as int)
    }
}

/// The result of marching from step `k` on, when no earlier step stopped.
pub open spec fn march(map: GridMap, cam: Camera, dir: Direction, k: int) -> RayResult
    decreases step_count(cam.depth as int) + 1 - k,
{
    if k > step_count(cam.depth as int) || k < 1 {
        RayResult { distance: cam.depth, hit: Hit::Nothing }
    } else {
        let px = point_at(cam.x as int, dir.dx as int, k);
        let py = point_at(cam.y as int, dir.dy as int, k);
        let cx = cell_index(px);
        let cy = cell_index(py);
        if !map.in_bounds(cx, cy) {
            RayResult { distance: cam.depth, hit: Hit::OutOfBounds }
        } else if let Cell::Tile(id) = map.cell_at(cx, cy) {
            RayResult {
                distance: if k * STEP < cam.depth {
                    (k * STEP) as i64
                } else {
                    cam.depth
                },
                hit: Hit::Tile { id, sample_x: face_sample(px, py) as i64 },
            }
        } else {
            march(map, cam, dir, k + 1)
        }
    }
}

/// The result of casting a ray from the camera along `dir`.
pub open spec fn cast(map: GridMap, cam: Camera, dir: Direction) -> RayResult {
    march(map, cam, dir, 1)
}

proof fn lemma_face_sample_range(px: int, py: int)
    ensures
        0 <= face_sample(px, py) < SCALE,
{
    vstd::arithmetic::div_mod::lemma_fundamental_div_mod(px, SCALE_SQ as int);
    vstd::arithmetic::div_mod::lemma_fundamental_div_mod(py, SCALE_SQ as int);
    vstd::arithmetic::div_mod::lemma_div_is_ordered(0, px % (SCALE_SQ as int), SCALE as int);
    vstd::arithmetic::div_mod::lemma_div_is_ordered(0, py % (SCALE_SQ as int), SCALE as int);
    vstd::arithmetic::div_mod::lemma_div_is_ordered(px % (SCALE_SQ as int), SCALE_SQ - 1, SCALE as int);
    vstd::arithmetic::div_mod::lemma_div_is_ordered(py % (SCALE_SQ as int), SCALE_SQ - 1, SCALE as int);
}

proof fn lemma_march_bounds(map: GridMap, cam: Camera, dir: Direction, k: int)
    requires
        cam.wf(),
        k >= 1,
    ensures
        0 < march(map, cam, dir, k).distance <= cam.depth,
        march(map, cam, dir, k).hit matches Hit::Tile { sample_x, .. } ==> 0 <= sample_x < SCALE,
    decreases step_count(cam.depth as int) + 1 - k,
{
    if k <= step_count(cam.depth as int) {
        lemma_face_sample_range(
            point_at(cam.x as int, dir.dx as int, k),
            point_at(cam.y as int, dir.dy as int, k),
        );
        lemma_march_bounds(map, cam, dir, k + 1);
    }
}

/// A ray's length is positive and at most the view depth, and the sample
/// coordinate of a struck tile lies in `[0, SCALE)`.
pub proof fn lemma_cast_bounds(map: GridMap, cam: Camera, dir: Direction)
    requires
        cam.wf(),
    ensures
        0 < cast(map, cam, dir).distance <= cam.depth,
        cast(map, cam, dir).hit matches Hit::Tile { sample_x, .. } ==> 0 <= sample_x < SCALE,
{
    lemma_march_bounds(map, cam, dir, 1);
}

/// Casts one ray from the camera along `dir`, advancing `STEP` at a time
/// until it leaves the grid, strikes a tile or reaches the view depth.
pub fn cast_ray(map: &GridMap, cam: &Camera, dir: Direction) -> (r: RayResult)
    requires
        map.wf(),
        cam.wf(),
        dir.wf(),
    ensures
        r == cast(*map, *cam, dir),
{
    let n = floor_div(cam.depth as i128 + (STEP - 1) as i128, STEP as i128);
    let mut k: i128 = 1;
    while k <= n
        invariant
            map.wf(),
            cam.wf(),
            dir.wf(),
            n == step_count(cam.depth as int),
            1 <= k,
            k <= n + 1,
            march(*map, *cam, dir, k as int) == cast(*map, *cam, dir),
        decreases n + 1 - k,
    {
        proof {
            lemma_point_bounds(cam.x as int, dir.dx as int, k as int, cam.depth as int);
            lemma_point_bounds(cam.y as int, dir.dy as int, k as int, cam.depth as int);
        }
        let dist: i128 = k * STEP as i128;
        let px: i128 = cam.x as i128 * SCALE as i128 + dir.dx as i128 * dist;
        let py: i128 = cam.y as i128 * SCALE as i128 + dir.dy as i128 * dist;
        let cx = floor_div(px, SCALE_SQ as i128);
        let cy = floor_div(py, SCALE_SQ as i128);
        if cx < 0 || cy < 0 || cx >= map.width() as i128 || cy >= map.height() as i128 {
            return RayResult { distance: cam.depth, hit: Hit::OutOfBounds };
        }
        match map.get(cx as i64, cy as i64) {
            Ok(Cell::Tile(id)) => {
                let distance = if dist < cam.depth as i128 {
                    dist as i64
                } else {
                    cam.depth
                };
                let sample_x = wall_sample(px, py);
                return RayResult { distance, hit: Hit::Tile { id, sample_x } };
            },
            _ => {},
        }
        k = k + 1;
    }
    RayResult { distance: cam.depth, hit: Hit::Nothing }
}

/// The position along the struck face of the point `(px, py)`, given in
/// `SCALE_SQ` units per grid unit.
pub fn wall_sample(px: i128, py: i128) -> (r: i64)
    requires
        -0x2_0000_0000_0000_0000_0000 <= px <= 0x2_0000_0000_0000_0000_0000,
        -0x2_0000_0000_0000_0000_0000 <= py <= 0x2_0000_0000_0000_0000_0000,
    ensures
        r == face_sample(px as int, py as int),
        0 <= r < SCALE,
{
    let unit: i128 = SCALE_SQ as i128;
    let cx = floor_div(px, unit);
    let cy = floor_div(py, unit);
    proof {
        lemma_cell_times_unit(px as int);
        lemma_cell_times_unit(py as int);
        assert(cx * unit == cell_index(px as int) * SCALE_SQ);
        assert(cy * unit == cell_index(py as int) * SCALE_SQ);
    }
    let ddx: i128 = px - (cx * unit + unit / 2);
    let ddy: i128 = py - (cy * unit + unit / 2);
    let frac = if (-ddy < ddx && ddx <= ddy) || (ddy <= ddx && ddx < -ddy) {
        floor_mod(px, unit)
    } else {
        floor_mod(py, unit)
    };
    (frac / SCALE as i128) as i64
}

proof fn lemma_cell_times_unit(p: int)
    requires
        i128::MIN <= p <= i128::MAX,
    ensures
        p - SCALE_SQ < cell_index(p) * SCALE_SQ <= p,
{
    vstd::arithmetic::div_mod::lemma_fundamental_div_mod(p, SCALE_SQ as int);
}

proof fn lemma_point_bounds(c: int, d: int, k: int, depth: int)
    requires
        i64::MIN <= c <= i64::MAX,
        -SCALE <= d <= SCALE,
        1 <= k <= step_count(depth),
        0 < depth <= i64::MAX,
    ensures
        1 <= k * STEP <= depth + STEP,
        -0x1_0000_0000_0000_0000_0000 <= d * (k * STEP) <= 0x1_0000_0000_0000_0000_0000,
        -0x2_0000_0000_0000_0000_0000 <= point_at(c, d, k) <= 0x2_0000_0000_0000_0000_0000,
{
    vstd::arithmetic::div_mod::lemma_fundamental_div_mod(depth + STEP - 1, STEP as int);
    assert(k * STEP <= depth + STEP - 1) by (nonlinear_arith)
        requires
            k <= (depth + STEP - 1) / (STEP as int),
            (depth + STEP - 1) == STEP * ((depth + STEP - 1) / (STEP as int)) + (depth + STEP - 1)
                % (STEP as int),
            (depth + STEP - 1) % (STEP as int) >= 0,
    ;
    assert(-0x1_0000_0000_0000_0000_0000 <= d * (k * STEP) <= 0x1_0000_0000_0000_0000_0000)
        by (nonlinear_arith)
        requires
            -1000 <= d <= 1000,
            1 <= k * STEP <= depth + STEP,
            depth <= i64::MAX,
    ;
}

/// Whether step `k` of the ray lands in an open cell of the grid.
pub open spec fn step_open(map: GridMap, cam: Camera, dir: Direction, k: int) -> bool {
    map.is_open_at(
        cell_index(point_at(cam.x as int, dir.dx as int, k)),
        cell_index(point_at(cam.y as int, dir.dy as int, k)),
    )
}

proof fn lemma_march_open(map: GridMap, cam: Camera, dir: Direction, k: int)
    requires
        cam.wf(),
        1 <= k,
        forall|j: int| 1 <= j <= step_count(cam.depth as int) ==> #[trigger] step_open(map, cam, dir, j),
    ensures
        march(map, cam, dir, k) == (RayResult { distance: cam.depth, hit: Hit::Nothing }),
    decreases step_count(cam.depth as int) + 1 - k,
{
    if k <= step_count(cam.depth as int) {
        assert(step_open(map, cam, dir, k));
        lemma_march_open(map, cam, dir, k + 1);
    }
}

/// A ray whose every step up to the view depth lands in an open cell of the
/// grid meets nothing, and its length is exactly the view depth.
pub proof fn lemma_open_ray_reaches_depth(map: GridMap, cam: Camera, dir: Direction)
    requires
        cam.wf(),
        forall|k: int| 1 <= k <= step_count(cam.depth as int) ==> #[trigger] step_open(map, cam, dir, k),
    ensures
        cast(map, cam, dir) == (RayResult { distance: cam.depth, hit: Hit::Nothing }),
{
    lemma_march_open(map, cam, dir, 1);
}

proof fn lemma_cell_of_scaled(v: int)
    ensures
        cell_index(v * SCALE) == v / (SCALE as int),
        (v / (SCALE as int)) * SCALE <= v < (v / (SCALE as int)) * SCALE + SCALE,
{
    vstd::arithmetic::div_mod::lemma_fundamental_div_mod(v, SCALE as int);
    let q = v / (SCALE as int);
    let r = v % (SCALE as int);
    vstd::arithmetic::div_mod::lemma_fundamental_div_mod_converse_div(
        v * SCALE,
        SCALE_SQ as int,
        q,
        r * SCALE,
    );
}

/// What a ray that first meets a blocking cell at step `n` returns.
pub open spec fn struck_at(map: GridMap, cam: Camera, dir: Direction, n: int) -> RayResult {
    let px = point_at(cam.x as int, dir.dx as int, n);
    let py = point_at(cam.y as int, dir.dy as int, n);
    RayResult {
        distance: if n * STEP < cam.depth {
            (n * STEP) as i64
        } else {
            cam.depth
        },
        hit: Hit::Tile {
            id: map.symbol_at(cell_index(px), cell_index(py)),
            sample_x: face_sample(px, py) as i64,
        },
    }
}

proof fn lemma_march_to_block(map: GridMap, cam: Camera, dir: Direction, n: int, k: int)
    requires
        cam.wf(),
        1 <= k <= n <= step_count(cam.depth as int),
        forall|j: int| 1 <= j < n ==> #[trigger] step_open(map, cam, dir, j),
        map.in_bounds(
            cell_index(point_at(cam.x as int, dir.dx as int, n)),
            cell_index(point_at(cam.y as int, dir.dy as int, n)),
        ),
        !step_open(map, cam, dir, n),
    ensures
        march(map, cam, dir, k) == struck_at(map, cam, dir, n),
    decreases n - k,
{
    if k < n {
        assert(step_open(map, cam, dir, k));
        lemma_march_to_block(map, cam, dir, n, k + 1);
    }
}

/// A ray whose steps before step `n` all land in open cells, and whose step
/// `n`, within the view depth, lands in a blocking cell of the grid, strikes
/// that cell after `n` steps.
pub proof fn lemma_first_blocking_step(map: GridMap, cam: Camera, dir: Direction, n: int)
    requires
        cam.wf(),
        1 <= n <= step_count(cam.depth as int),
        forall|j: int| 1 <= j < n ==> #[trigger] step_open(map, cam, dir, j),
        map.in_bounds(
            cell_index(point_at(cam.x as int, dir.dx as int, n)),
            cell_index(point_at(cam.y as int, dir.dy as int, n)),
        ),
        !step_open(map, cam, dir, n),
    ensures
        cast(map, cam, dir) == struck_at(map, cam, dir, n),
{
    lemma_march_to_block(map, cam, dir, n, 1);
}

proof fn lemma_steps_within_depth(d: int, depth: int, n: int)
    requires
        0 < d <= depth,
        d % (STEP as int) == 0,
        n == d / (STEP as int),
    ensures
        n * STEP == d,
        1 <= n <= step_count(depth),
        d < depth ==> n + 1 <= step_count(depth),
{
    vstd::arithmetic::div_mod::lemma_fundamental_div_mod(d, STEP as int);
    vstd::arithmetic::div_mod::lemma_div_is_ordered(d, depth + STEP - 1, STEP as int);
    if d < depth {
        vstd::arithmetic::div_mod::lemma_div_is_ordered(d + STEP, depth + STEP - 1, STEP as int);
        vstd::arithmetic::div_mod::lemma_div_plus_one(d, STEP as int);
    }
}

proof fn lemma_scaled_cell_below(v: int, w: int)
    requires
        v < w * SCALE,
    ensures
        v / (SCALE as int) < w,
{
    vstd::arithmetic::div_mod::lemma_fundamental_div_mod(v, SCALE as int);
}

proof fn lemma_scaled_cell_at_least(v: int, w: int)
    requires
        v >= w * SCALE,
    ensures
        v / (SCALE as int) >= w,
{
    vstd::arithmetic::div_mod::lemma_fundamental_div_mod(v, SCALE as int);
}

/// A ray cast straight along +y toward a wall whose near face lies `d`
/// ahead, `d` a whole number of steps within the view depth, through open
/// cells only, strikes that wall at distance exactly `d`.
pub proof fn lemma_ray_up_distance(map: GridMap, cam: Camera, wall_y: int)
    requires
        cam.wf(),
        map.in_bounds(cell_of_coord(cam.x as int), wall_y),
        map.cell_at(cell_of_coord(cam.x as int), wall_y) != Cell::Open,
        0 < wall_y * SCALE - cam.y <= cam.depth,
        (wall_y * SCALE - cam.y) % (STEP as int) == 0,
        forall|r: int|
            cell_of_coord(cam.y as int) <= r < wall_y ==> #[trigger] map.is_open_at(
                cell_of_coord(cam.x as int),
                r,
            ),
    ensures
        cast(map, cam, Direction { dx: 0, dy: SCALE }).distance == wall_y * SCALE - cam.y,
        cast(map, cam, Direction { dx: 0, dy: SCALE }).hit matches Hit::Tile { id, .. } && id
            == map.symbol_at(cell_of_coord(cam.x as int), wall_y),
{
    let d = wall_y * SCALE - cam.y;
    let n = d / (STEP as int);
    let dir = Direction { dx: 0, dy: SCALE };
    lemma_steps_within_depth(d, cam.depth as int, n);
    lemma_cell_of_scaled(cam.x as int);
    lemma_cell_of_scaled(cam.y as int);
    assert forall|j: int| 1 <= j < n implies #[trigger] step_open(map, cam, dir, j) by {
        let v = cam.y + j * STEP;
        assert(point_at(cam.y as int, SCALE as int, j) == v * SCALE);
        assert(point_at(cam.x as int, 0, j) == cam.x * SCALE);
        lemma_cell_of_scaled(v);
        assert(j * STEP < d) by (nonlinear_arith)
            requires
                j < n,
                n * STEP == d,
        ;
        vstd::arithmetic::div_mod::lemma_div_is_ordered(cam.y as int, v, SCALE as int);
        lemma_scaled_cell_below(v, wall_y);
        assert(map.is_open_at(cell_of_coord(cam.x as int), v / (SCALE as int)));
    }
    assert(point_at(cam.y as int, SCALE as int, n) == (wall_y * SCALE) * SCALE);
    assert(point_at(cam.x as int, 0, n) == cam.x * SCALE);
    lemma_cell_of_scaled(wall_y * SCALE);
    vstd::arithmetic::div_mod::lemma_div_multiples_vanish(wall_y, SCALE as int);
    lemma_first_blocking_step(map, cam, dir, n);
}

/// A ray cast straight along -y toward a wall whose near face lies `d`
/// ahead, `d` a whole number of steps short of the view depth, through open
/// cells only, strikes that wall one step past `d`: the point on the face
/// itself still belongs to the open cell in front of it.
pub proof fn lemma_ray_down_distance(map: GridMap, cam: Camera, wall_y: int)
    requires
        cam.wf(),
        map.in_bounds(cell_of_coord(cam.x as int), wall_y),
        map.cell_at(cell_of_coord(cam.x as int), wall_y) != Cell::Open,
        0 < cam.y - (wall_y + 1) * SCALE < cam.depth,
        (cam.y - (wall_y + 1) * SCALE) % (STEP as int) == 0,
        forall|r: int|
            wall_y < r <= cell_of_coord(cam.y as int) ==> #[trigger] map.is_open_at(
                cell_of_coord(cam.x as int),
                r,
            ),
    ensures
        cast(map, cam, Direction { dx: 0, dy: -1000i64 }).distance == if cam.y - (wall_y + 1)
            * SCALE + STEP < cam.depth {
            cam.y - (wall_y + 1) * SCALE + STEP
        } else {
            cam.depth as int
        },
        cam.y - (wall_y + 1) * SCALE < cast(map, cam, Direction { dx: 0, dy: -1000i64 }).distance
            <= cam.y - (wall_y + 1) * SCALE + STEP,
        cast(map, cam, Direction { dx: 0, dy: -1000i64 }).hit matches Hit::Tile { id, .. } && id
            == map.symbol_at(cell_of_coord(cam.x as int), wall_y),
{
    let d = cam.y - (wall_y + 1) * SCALE;
    let n = d / (STEP as int) + 1;
    let dir = Direction { dx: 0, dy: -1000i64 };
    lemma_steps_within_depth(d, cam.depth as int, n - 1);
    lemma_cell_of_scaled(cam.x as int);
    lemma_cell_of_scaled(cam.y as int);
    assert forall|j: int| 1 <= j < n implies #[trigger] step_open(map, cam, dir, j) by {
        let v = cam.y - j * STEP;
        assert(point_at(cam.y as int, -SCALE, j) == v * SCALE);
        assert(point_at(cam.x as int, 0, j) == cam.x * SCALE);
        lemma_cell_of_scaled(v);
        assert(j * STEP <= d) by (nonlinear_arith)
            requires
                j <= n - 1,
                (n - 1) * STEP == d,
        ;
        vstd::arithmetic::div_mod::lemma_div_is_ordered(v, cam.y as int, SCALE as int);
        lemma_scaled_cell_at_least(v, wall_y + 1);
        assert(map.is_open_at(cell_of_coord(cam.x as int), v / (SCALE as int)));
    }
    let vn = cam.y - n * STEP;
    assert(vn == (wall_y + 1) * SCALE - STEP);
    assert(point_at(cam.y as int, -SCALE, n) == vn * SCALE);
    assert(point_at(cam.x as int, 0, n) == cam.x * SCALE);
    lemma_cell_of_scaled(vn);
    lemma_scaled_cell_below(vn, wall_y + 1);
    lemma_scaled_cell_at_least(vn, wall_y);
    lemma_first_blocking_step(map, cam, dir, n);
}

/// A ray cast straight along +x toward a wall whose near face lies `d`
/// ahead, `d` a whole number of steps within the view depth, through open
/// cells only, strikes that wall at distance exactly `d`.
pub proof fn lemma_ray_right_distance(map: GridMap, cam: Camera, wall_x: int)
    requires
        cam.wf(),
        map.in_bounds(wall_x, cell_of_coord(cam.y as int)),
        map.cell_at(wall_x, cell_of_coord(cam.y as int)) != Cell::Open,
        0 < wall_x * SCALE - cam.x <= cam.depth,
        (wall_x * SCALE - cam.x) % (STEP as int) == 0,
        forall|r: int|
            cell_of_coord(cam.x as int) <= r < wall_x ==> #[trigger] map.is_open_at(
                r,
                cell_of_coord(cam.y as int),
            ),
    ensures
        cast(map, cam, Direction { dx: SCALE, dy: 0 }).distance == wall_x * SCALE - cam.x,
        cast(map, cam, Direction { dx: SCALE, dy: 0 }).hit matches Hit::Tile { id, .. } && id
            == map.symbol_at(wall_x, cell_of_coord(cam.y as int)),
{
    let d = wall_x * SCALE - cam.x;
    let n = d / (STEP as int);
    let dir = Direction { dx: SCALE, dy: 0 };
    lemma_steps_within_depth(d, cam.depth as int, n);
    lemma_cell_of_scaled(cam.y as int);
    lemma_cell_of_scaled(cam.x as int);
    assert forall|j: int| 1 <= j < n implies #[trigger] step_open(map, cam, dir, j) by {
        let v = cam.x + j * STEP;
        assert(point_at(cam.x as int, SCALE as int, j) == v * SCALE);
        assert(point_at(cam.y as int, 0, j) == cam.y * SCALE);
        lemma_cell_of_scaled(v);
        assert(j * STEP < d) by (nonlinear_arith)
            requires
                j < n,
                n * STEP == d,
        ;
        vstd::arithmetic::div_mod::lemma_div_is_ordered(cam.x as int, v, SCALE as int);
        lemma_scaled_cell_below(v, wall_x);
        assert(map.is_open_at(v / (SCALE as int), cell_of_coord(cam.y as int)));
    }
    assert(point_at(cam.x as int, SCALE as int, n) == (wall_x * SCALE) * SCALE);
    assert(point_at(cam.y as int, 0, n) == cam.y * SCALE);
    lemma_cell_of_scaled(wall_x * SCALE);
    vstd::arithmetic::div_mod::lemma_div_multiples_vanish(wall_x, SCALE as int);
    lemma_first_blocking_step(map, cam, dir, n);
}

/// A ray cast straight along -x toward a wall whose near face lies `d`
/// ahead, `d` a whole number of steps short of the view depth, through open
/// cells only, strikes that wall one step past `d`: the point on the face
/// itself still belongs to the open cell in front of it.
pub proof fn lemma_ray_left_distance(map: GridMap, cam: Camera, wall_x: int)
    requires
        cam.wf(),
        map.in_bounds(wall_x, cell_of_coord(cam.y as int)),
        map.cell_at(wall_x, cell_of_coord(cam.y as int)) != Cell::Open,
        0 < cam.x - (wall_x + 1) * SCALE < cam.depth,
        (cam.x - (wall_x + 1) * SCALE) % (STEP as int) == 0,
        forall|r: int|
            wall_x < r <= cell_of_coord(cam.x as int) ==> #[trigger] map.is_open_at(
                r,
                cell_of_coord(cam.y as int),
            ),
    ensures
        cast(map, cam, Direction { dx: -1000i64, dy: 0 }).distance == if cam.x - (wall_x + 1)
            * SCALE + STEP < cam.depth {
            cam.x - (wall_x + 1) * SCALE + STEP
        } else {
            cam.depth as int
        },
        cam.x - (wall_x + 1) * SCALE < cast(map, cam, Direction { dx: -1000i64, dy: 0 }).distance
            <= cam.x - (wall_x + 1) * SCALE + STEP,
        cast(map, cam, Direction { dx: -1000i64, dy: 0 }).hit matches Hit::Tile { id, .. } && id
            == map.symbol_at(wall_x, cell_of_coord(cam.y as int)),
{
    let d = cam.x - (wall_x + 1) * SCALE;
    let n = d / (STEP as int) + 1;
    let dir = Direction { dx: -1000i64, dy: 0 };
    lemma_steps_within_depth(d, cam.depth as int, n - 1);
    lemma_cell_of_scaled(cam.y as int);
    lemma_cell_of_scaled(cam.x as int);
    assert forall|j: int| 1 <= j < n implies #[trigger] step_open(map, cam, dir, j) by {
        let v = cam.x - j * STEP;
        assert(point_at(cam.x as int, -SCALE, j) == v * SCALE);
        assert(point_at(cam.y as int, 0, j) == cam.y * SCALE);
        lemma_cell_of_scaled(v);
        assert(j * STEP <= d) by (nonlinear_arith)
            requires
                j <= n - 1,
                (n - 1) * STEP == d,
        ;
        vstd::arithmetic::div_mod::lemma_div_is_ordered(v, cam.x as int, SCALE as int);
        lemma_scaled_cell_at_least(v, wall_x + 1);
        assert(map.is_open_at(v / (SCALE as int), cell_of_coord(cam.y as int)));
    }
    let vn = cam.x - n * STEP;
    assert(vn == (wall_x + 1) * SCALE - STEP);
    assert(point_at(cam.x as int, -SCALE, n) == vn * SCALE);
    assert(point_at(cam.y as int, 0, n) == cam.y * SCALE);
    lemma_cell_of_scaled(vn);
    lemma_scaled_cell_below(vn, wall_x + 1);
    lemma_scaled_cell_at_least(vn, wall_x);
    lemma_first_blocking_step(map, cam, dir, n);
}

/// The sample coordinate of the centre of a cell's face is one half: the
/// centre of its lower-y face and the centre of its lower-x face.
pub proof fn lemma_face_centre_sample(cx: int, cy: int)
    ensures
        face_sample(cx * SCALE_SQ + SCALE_SQ / 2, cy * SCALE_SQ) == SCALE / 2,
        face_sample(cx * SCALE_SQ, cy * SCALE_SQ + SCALE_SQ / 2) == SCALE / 2,
{
    let u = SCALE_SQ as int;
    vstd::arithmetic::div_mod::lemma_fundamental_div_mod_converse_div(cx * u + u / 2, u, cx, u / 2);
    vstd::arithmetic::div_mod::lemma_fundamental_div_mod_converse_mod(cx * u + u / 2, u, cx, u / 2);
    vstd::arithmetic::div_mod::lemma_fundamental_div_mod_converse_div(cy * u, u, cy, 0);
    vstd::arithmetic::div_mod::lemma_fundamental_div_mod_converse_mod(cy * u, u, cy, 0);
    vstd::arithmetic::div_mod::lemma_fundamental_div_mod_converse_div(cx * u, u, cx, 0);
    vstd::arithmetic::div_mod::lemma_fundamental_div_mod_converse_div(cy * u + u / 2, u, cy, u / 2);
    vstd::arithmetic::div_mod::lemma_fundamental_div_mod_converse_mod(cy * u + u / 2, u, cy, u / 2);
    assert(face_runs_along_x(cx * u + u / 2, cy * u));
    assert(!face_runs_along_x(cx * u, cy * u + u / 2));
}

} // verus!
