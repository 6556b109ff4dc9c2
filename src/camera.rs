//! The camera: where the viewer stands and how far it sees, and movement
//! that refuses to enter blocking cells.
use vstd::prelude::*;
use crate::fixed::{floor_div, SCALE};
use crate::grid::GridMap;

verus! {

/// Microseconds in one second.
pub const MICROS_PER_SECOND: i64 = 1_000_000;

/// A direction as a fixed-point vector whose components lie in
/// `[-SCALE, SCALE]`: `(sin a, cos a)` of a heading `a`, times `SCALE`.
#[derive(Clone, Copy, Debug, PartialEq, Eq, Structural)]
pub struct Direction {
    pub dx: i64,
    pub dy: i64,
}

impl Direction {
    pub open spec fn wf(&self) -> bool {
        -SCALE <= self.dx <= SCALE && -SCALE <= self.dy <= SCALE
    }

    /// A direction from its components, which must lie in `[-SCALE, SCALE]`.
    pub fn new(dx: i64, dy: i64) -> (r: Direction)
        requires
            -SCALE <= dx <= SCALE,
            -SCALE <= dy <= SCALE,
        ensures
            r == (Direction { dx, dy }),
            r.wf(),
    {
        Direction { dx, dy }
    }
}

/// The held movement inputs of one frame.
#[derive(Clone, Copy, Debug, PartialEq, Eq, Structural)]
pub struct MoveKeys {
    pub forward: bool,
    pub backward: bool,
    pub strafe_left: bool,
    pub strafe_right: bool,
}

/// Position of the viewer, in fixed-point grid coordinates, with its view
/// depth (fixed-point) and its speed (fixed-point units per second).
#[derive(Clone, Copy, Debug, PartialEq, Eq, Structural)]
pub struct Camera {
    pub x: i64,
    pub y: i64,
    pub depth: i64,
    pub speed: i64,
}

/// Whether an integer fits an `i64`.
pub open spec fn fits_i64(v: int) -> bool {
    i64::MIN <= v <= i64::MAX
}

/// The grid cell index of a fixed-point coordinate.
pub open spec fn cell_of_coord(v: int) -> int {
    v / (SCALE as int)
}

/// Distance covered along one component `c` of a direction at `speed`
/// during `micros` microseconds, rounded down.
pub open spec fn travel(c: int, speed: int, micros: int) -> int {
    (c * speed * micros) / ((SCALE as int) * (MICROS_PER_SECOND as int))
}

/// Whether a move by `(dx, dy)` ends inside an open cell of the map (at a
/// position that an `i64` holds).
pub open spec fn move_allowed(map: GridMap, cam: Camera, dx: int, dy: int) -> bool {
    let tx = cam.x + dx;
    let ty = cam.y + dy;
    fits_i64(tx) && fits_i64(ty) && map.is_open_at(cell_of_coord(tx), cell_of_coord(ty))
}

/// The camera after an attempt to move by `(dx, dy)`: the whole move is
/// taken when it ends inside an open cell of the map, and none of it otherwise.
pub open spec fn moved(map: GridMap, cam: Camera, dx: int, dy: int) -> Camera {
    let tx = cam.x + dx;
    let ty = cam.y + dy;
    if move_allowed(map, cam, dx, dy) {
        Camera { x: tx as i64, y: ty as i64, ..cam }
    } else {
        cam
    }
}

/// A move along `(cx, cy)` for one frame.
pub open spec fn moved_along(map: GridMap, cam: Camera, cx: int, cy: int, micros: int) -> Camera {
    moved(map, cam, travel(cx, cam.speed as int, micros), travel(cy, cam.speed as int, micros))
}

/// The camera after one frame of movement input, facing `f`: forward, then
/// backward, then strafing left, then right, each move on its own.
pub open spec fn after_movement(
    map: GridMap,
    cam: Camera,
    keys: MoveKeys,
    f: Direction,
    micros: int,
) -> Camera {
    let c1 = if keys.forward {
        moved_along(map, cam, f.dx as int, f.dy as int, micros)
    } else {
        cam
    };
    let c2 = if keys.backward {
        moved_along(map, c1, -f.dx, -f.dy, micros)
    } else {
        c1
    };
    let c3 = if keys.strafe_left {
        moved_along(map, c2, -f.dy, f.dx as int, micros)
    } else {
        c2
    };
    if keys.strafe_right {
        moved_along(map, c3, f.dy as int, -f.dx, micros)
    } else {
        c3
    }
}

impl Camera {
    pub open spec fn wf(&self) -> bool {
        self.depth > 0 && self.speed >= 0
    }

    /// The starting camera: at `(2, 2)`, seeing 16 units far, moving 5 units per second.
    pub fn new() -> (r: Camera)
        ensures
            r == (Camera { x: 2000, y: 2000, depth: 16000, speed: 5000 }),
            r.wf(),
    {
        Camera { x: 2 * SCALE, y: 2 * SCALE, depth: 16 * SCALE, speed: 5 * SCALE }
    }

    /// A camera at `(x, y)` seeing `depth` far and moving `speed` per second.
    pub fn at(x: i64, y: i64, depth: i64, speed: i64) -> (r: Camera)
        requires
            depth > 0,
            speed >= 0,
        ensures
            r == (Camera { x, y, depth, speed }),
            r.wf(),
    {
        Camera { x, y, depth, speed }
    }

    /// The grid cell the camera stands in.
    pub fn cell(&self) -> (r: (i64, i64))
        ensures
            r.0 == cell_of_coord(self.x as int),
            r.1 == cell_of_coord(self.y as int),
    {
        let cx = floor_div(self.x as i128, SCALE as i128);
        let cy = floor_div(self.y as i128, SCALE as i128);
        (cx as i64, cy as i64)
    }

    /// Moves by `(dx, dy)` when that ends in an open cell, else stays; returns
    /// whether it moved.
    pub fn try_move(&mut self, map: &GridMap, dx: i128, dy: i128) -> (r: bool)
        requires
            map.wf(),
            -0x1_0000_0000_0000_0000_0000 <= dx <= 0x1_0000_0000_0000_0000_0000,
            -0x1_0000_0000_0000_0000_0000 <= dy <= 0x1_0000_0000_0000_0000_0000,
        ensures
            *final(self) == moved(*map, *old(self), dx as int, dy as int),
            r <==> move_allowed(*map, *old(self), dx as int, dy as int),
    {
        let tx = self.x as i128 + dx;
        let ty = self.y as i128 + dy;
        if tx < i64::MIN as i128 || tx > i64::MAX as i128 || ty < i64::MIN as i128 || ty
            > i64::MAX as i128 {
            return false;
        }
        let cx = floor_div(tx, SCALE as i128);
        let cy = floor_div(ty, SCALE as i128);
        let open = match map.get(cx as i64, cy as i64) {
            Ok(c) => !crate::grid::is_blocking(c),
            Err(_) => false,
        };
        if open {
            self.x = tx as i64;
            self.y = ty as i64;
        }
        open
    }

    /// Applies one frame of movement input while facing `facing`, for a frame
    /// of `micros` microseconds.
    pub fn apply_movement(&mut self, map: &GridMap, keys: MoveKeys, facing: Direction, micros: u32)
        requires
            map.wf(),
            old(self).wf(),
            facing.wf(),
        ensures
            *final(self) == after_movement(*map, *old(self), keys, facing, micros as int),
            final(self).wf(),
    {
        let fx = facing.dx;
        let fy = facing.dy;
        if keys.forward {
            self.move_along(map, fx, fy, micros);
        }
        if keys.backward {
            self.move_along(map, -fx, -fy, micros);
        }
        if keys.strafe_left {
            self.move_along(map, -fy, fx, micros);
        }
        if keys.strafe_right {
            self.move_along(map, fy, -fx, micros);
        }
    }

    fn move_along(&mut self, map: &GridMap, cx: i64, cy: i64, micros: u32)
        requires
            map.wf(),
            old(self).wf(),
            -SCALE <= cx <= SCALE,
            -SCALE <= cy <= SCALE,
        ensures
            *final(self) == moved_along(*map, *old(self), cx as int, cy as int, micros as int),
            final(self).wf(),
    {
        let dx = travel_of(cx, self.speed, micros);
        let dy = travel_of(cy, self.speed, micros);
        self.try_move(map, dx, dy);
    }
}

fn travel_of(c: i64, speed: i64, micros: u32) -> (r: i128)
    requires
        -SCALE <= c <= SCALE,
        speed >= 0,
    ensures
        r == travel(c as int, speed as int, micros as int),
        -0x1_0000_0000_0000_0000_0000 <= r <= 0x1_0000_0000_0000_0000_0000,
{
    proof {
        assert(-1000 * (i64::MAX as int) <= c * speed <= 1000 * (i64::MAX as int)) by (nonlinear_arith)
            requires
                -1000 <= c <= 1000,
                0 <= speed <= i64::MAX,
        ;
    }
    let p: i128 = c as i128 * speed as i128;
    proof {
        assert(-1000 * (i64::MAX as int) * 0x1_0000_0000 <= p * micros <= 1000 * (i64::MAX as int)
            * 0x1_0000_0000) by (nonlinear_arith)
            requires
                -1000 * (i64::MAX as int) <= p <= 1000 * (i64::MAX as int),
                0 <= micros <= 0xffff_ffff,
        ;
    }
    let q = p * micros as i128;
    let r = floor_div(q, 1_000_000_000);
    proof {
        assert(-0x1_0000_0000_0000_0000_0000 <= r <= 0x1_0000_0000_0000_0000_0000) by (nonlinear_arith)
            requires
                r == q / 1_000_000_000,
                -1000 * (i64::MAX as int) * 0x1_0000_0000 <= q <= 1000 * (i64::MAX as int)
                    * 0x1_0000_0000,
        ;
    }
    r
}

/// Movement is all or nothing: a move whose target lies in a blocking cell
/// or off the grid leaves the camera where it was, and a move whose target
/// lies in an open cell shifts it by exactly the offset asked for.
pub proof fn lemma_move_all_or_nothing(map: GridMap, cam: Camera, dx: int, dy: int)
    ensures
        !map.is_open_at(cell_of_coord(cam.x + dx), cell_of_coord(cam.y + dy)) ==> moved(
            map,
            cam,
            dx,
            dy,
        ) == cam,
        map.is_open_at(cell_of_coord(cam.x + dx), cell_of_coord(cam.y + dy)) && fits_i64(
            cam.x + dx,
        ) && fits_i64(cam.y + dy) ==> {
            let m = moved(map, cam, dx, dy);
            &&& m.x == cam.x + dx
            &&& m.y == cam.y + dy
            &&& m.depth == cam.depth
            &&& m.speed == cam.speed
        },
{
}

/// A camera that stands in an open cell still stands in one after any
/// frame of movement.
pub proof fn lemma_movement_stays_open(
    map: GridMap,
    cam: Camera,
    keys: MoveKeys,
    f: Direction,
    micros: int,
)
    requires
        map.is_open_at(cell_of_coord(cam.x as int), cell_of_coord(cam.y as int)),
    ensures
        ({
            let c = after_movement(map, cam, keys, f, micros);
            map.is_open_at(cell_of_coord(c.x as int), cell_of_coord(c.y as int))
        }),
{
}

} // verus!
