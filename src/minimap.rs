//! The top-down minimap: one square per grid cell and a marker on the
//! camera's cell.
use vstd::prelude::*;
use crate::camera::{cell_of_coord, Camera};
use crate::color::{rgb, Color};
use crate::grid::{Cell, GridMap};

verus! {

/// Side of one minimap square, in screen pixels; the map is drawn one
/// square in from the top-left corner.
pub const MINIMAP_CELL: i64 = 4;

/// Largest grid side that the minimap can place on an `i64` screen.
pub const MINIMAP_MAX_SIDE: u64 = 0x1000_0000_0000_0000;

/// A filled rectangle to draw.
#[derive(Clone, Copy, Debug, PartialEq, Eq, Structural)]
pub struct Rect {
    pub x: i64,
    pub y: i64,
    pub w: i64,
    pub h: i64,
    pub color: Color,
}

/// The square of grid cell `(nx, ny)` in color `color`.
pub open spec fn cell_square(nx: int, ny: int, color: Color) -> Rect {
    Rect {
        x: (nx * MINIMAP_CELL + MINIMAP_CELL) as i64,
        y: (ny * MINIMAP_CELL + MINIMAP_CELL) as i64,
        w: MINIMAP_CELL,
        h: MINIMAP_CELL,
        color,
    }
}

/// The minimap square of cell `(nx, ny)`: black where open, red where blocking.
pub open spec fn minimap_square(map: GridMap, nx: int, ny: int) -> Rect {
    cell_square(
        nx,
        ny,
        if map.cell_at(nx, ny) == Cell::Open {
            rgb(0, 0, 0)
        } else {
            rgb(255, 0, 0)
        },
    )
}

/// The squares of every cell, row by row.
pub fn minimap_cells(map: &GridMap) -> (rows: Vec<Vec<Rect>>)
    requires
        map.wf(),
        map.spec_width() <= MINIMAP_MAX_SIDE,
        map.spec_height() <= MINIMAP_MAX_SIDE,
    ensures
        rows@.len() == map.spec_height(),
        forall|ny: int| 0 <= ny < map.spec_height() ==> #[trigger] rows@[ny]@.len() == map.spec_width(),
        forall|ny: int, nx: int|
            0 <= ny < map.spec_height() && 0 <= nx < map.spec_width() ==> #[trigger] rows@[ny]@[nx]
                == minimap_square(*map, nx, ny),
{
    let w = map.width();
    let h = map.height();
    let mut rows: Vec<Vec<Rect>> = Vec::new();
    let mut ny: usize = 0;
    while ny < h
        invariant
            map.wf(),
            w == map.spec_width(),
            h == map.spec_height(),
            w <= MINIMAP_MAX_SIDE,
            h <= MINIMAP_MAX_SIDE,
            ny <= h,
            rows@.len() == ny,
            forall|j: int| 0 <= j < ny ==> #[trigger] rows@[j]@.len() == w,
            forall|j: int, i: int|
                0 <= j < ny && 0 <= i < w ==> #[trigger] rows@[j]@[i] == minimap_square(*map, i, j),
        decreases h - ny,
    {
        let mut row: Vec<Rect> = Vec::new();
        let mut nx: usize = 0;
        while nx < w
            invariant
                map.wf(),
                w == map.spec_width(),
                h == map.spec_height(),
                w <= MINIMAP_MAX_SIDE,
                ny < h <= MINIMAP_MAX_SIDE,
                nx <= w,
                row@.len() == nx,
                forall|i: int| 0 <= i < nx ==> #[trigger] row@[i] == minimap_square(*map, i, ny as int),
            decreases w - nx,
        {
            let color = match map.get(nx as i64, ny as i64) {
                Ok(Cell::Open) => Color::black(),
                _ => Color::red(),
            };
            let x = nx as i64 * MINIMAP_CELL + MINIMAP_CELL;
            let y = ny as i64 * MINIMAP_CELL + MINIMAP_CELL;
            row.push(Rect { x, y, w: MINIMAP_CELL, h: MINIMAP_CELL, color });
            nx = nx + 1;
        }
        rows.push(row);
        ny = ny + 1;
    }
    rows
}

/// The green marker on the cell the camera stands in.
pub fn minimap_marker(cam: &Camera) -> (r: Rect)
    ensures
        r == cell_square(cell_of_coord(cam.x as int), cell_of_coord(cam.y as int), rgb(0, 255, 0)),
{
    let (cx, cy) = cam.cell();
    proof {
        vstd::arithmetic::div_mod::lemma_fundamental_div_mod(cam.x as int, 1000);
        vstd::arithmetic::div_mod::lemma_fundamental_div_mod(cam.y as int, 1000);
    }
    Rect {
        x: cx * MINIMAP_CELL + MINIMAP_CELL,
        y: cy * MINIMAP_CELL + MINIMAP_CELL,
        w: MINIMAP_CELL,
        h: MINIMAP_CELL,
        color: Color::green(),
    }
}

} // verus!
