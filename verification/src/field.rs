//! The scalar trail field and the mathematics of sampling it.
//!
//! The field is a dense grid of fixed-point intensities, one cell per
//! integer coordinate pair in `[0, size_x) x [0, size_y)`, stored row after
//! row and indexed by `x + size_x * y`.  Every out-of-range sample is
//! resolved by clamping the coordinate to the nearest edge, never by
//! wrapping around or by reading zero.
use vstd::prelude::*;

use crate::config::{Settings, FP};
use crate::lemma_div_bound;

verus! {

/// The trail field: one fixed-point intensity per cell.
pub type TrailMap = Vec<u32>;

/// A cell coordinate clamped into `[0, limit)`.
pub open spec fn clamp_coord(v: int, limit: int) -> int {
    if v < 0 {
        0
    } else if v >= limit {
        limit - 1
    } else {
        v
    }
}

/// The intensity sampled at `(x, y)`: both coordinates are clamped to the
/// grid independently, so out-of-range samples reuse the nearest edge cell.
pub open spec fn cell_at(map: Seq<u32>, s: Settings, x: int, y: int) -> int {
    map[clamp_coord(x, s.size_x as int) + s.size_x * clamp_coord(y, s.size_y as int)] as int
}

/// Sum of the clamped samples in column `x`, rows `y .. y + n`.
pub open spec fn col_sum(map: Seq<u32>, s: Settings, x: int, y: int, n: nat) -> int
    decreases n,
{
    if n == 0 {
        0
    } else {
        cell_at(map, s, x, y) + col_sum(map, s, x, y + 1, (n - 1) as nat)
    }
}

/// Sum of the clamped samples of the rectangle `[x, x + nx) x [y, y + ny)`.
pub open spec fn rect_sum(map: Seq<u32>, s: Settings, x: int, y: int, nx: nat, ny: nat) -> int
    decreases nx,
{
    if nx == 0 {
        0
    } else {
        col_sum(map, s, x, y, ny) + rect_sum(map, s, x + 1, y, (nx - 1) as nat, ny)
    }
}

/// The 3x3 neighborhood average around `(x, y)`, edge samples clamped.
pub open spec fn avg9(map: Seq<u32>, s: Settings, x: int, y: int) -> int {
    rect_sum(map, s, x - 1, y - 1, 3, 3) / 9
}

/// A cell after the diffuse pass: the convex fixed-point blend
/// `(own * (FP - diffuse) + average * diffuse) / FP`.
pub open spec fn diffused(map: Seq<u32>, s: Settings, x: int, y: int) -> int {
    (map[x + s.size_x * y] * (FP - s.trail_diffuse) + avg9(map, s, x, y) * s.trail_diffuse) / (
    FP as int)
}

/// A value after decay: `amount` is subtracted, floored at zero.
pub open spec fn decay_floor(v: int, amount: int) -> int {
    if v >= amount {
        v - amount
    } else {
        0
    }
}

/// A cell after one whole diffuse-and-decay pass.
pub open spec fn dd_cell(map: Seq<u32>, s: Settings, x: int, y: int) -> int {
    decay_floor(diffused(map, s, x, y), s.trail_decay as int)
}

/// A grid coordinate pair's flat index lies within the field.
pub proof fn lemma_grid_index_range(s: Settings, x: int, y: int)
    by (nonlinear_arith)
    requires
        0 <= x < s.size_x,
        0 <= y < s.size_y,
    ensures
        0 <= x + s.size_x * y < s.size_x * s.size_y,
{
}

/// Every clamped sample reads one of the field's cells, so any bound on
/// the cells bounds the sample.
pub proof fn lemma_cell_at_bounds(map: Seq<u32>, s: Settings, x: int, y: int, bound: int)
    requires
        s.valid(),
        map.len() == s.cell_count(),
        forall|i: int| 0 <= i < map.len() ==> map[i] <= bound,
    ensures
        0 <= cell_at(map, s, x, y) <= bound,
{
    let cx = clamp_coord(x, s.size_x as int);
    let cy = clamp_coord(y, s.size_y as int);
    assert(cx + s.size_x * cy < s.size_x * s.size_y) by (nonlinear_arith)
        requires
            0 <= cx < s.size_x,
            0 <= cy < s.size_y,
    ;
    assert(0 <= s.size_x * cy) by (nonlinear_arith)
        requires
            0 <= cy,
            0 < s.size_x,
    ;
}

/// A column sum of `n` samples lies in `[0, n * bound]` whenever every
/// cell lies in `[0, bound]`.
pub proof fn lemma_col_sum_bounds(map: Seq<u32>, s: Settings, x: int, y: int, n: nat, bound: int)
    requires
        s.valid(),
        map.len() == s.cell_count(),
        0 <= bound,
        forall|i: int| 0 <= i < map.len() ==> map[i] <= bound,
    ensures
        0 <= col_sum(map, s, x, y, n) <= n * bound,
    decreases n,
{
    if n == 0 {
    } else {
        lemma_cell_at_bounds(map, s, x, y, bound);
        lemma_col_sum_bounds(map, s, x, y + 1, (n - 1) as nat, bound);
        assert(bound + (n - 1) * bound == n * bound) by (nonlinear_arith);
    }
}

/// A rectangle sum of `nx * ny` samples lies in `[0, nx * ny * bound]`
/// whenever every cell lies in `[0, bound]`.
pub proof fn lemma_rect_sum_bounds(
    map: Seq<u32>,
    s: Settings,
    x: int,
    y: int,
    nx: nat,
    ny: nat,
    bound: int,
)
    requires
        s.valid(),
        map.len() == s.cell_count(),
        0 <= bound,
        forall|i: int| 0 <= i < map.len() ==> map[i] <= bound,
    ensures
        0 <= rect_sum(map, s, x, y, nx, ny) <= (nx * ny) * bound,
    decreases nx,
{
    if nx == 0 {
        assert((nx * ny) * bound == 0) by (nonlinear_arith)
            requires
                nx == 0,
        ;
    } else {
        lemma_col_sum_bounds(map, s, x, y, ny, bound);
        lemma_rect_sum_bounds(map, s, x + 1, y, (nx - 1) as nat, ny, bound);
        assert(ny * bound + (((nx - 1) as nat) * ny) * bound == (nx * ny) * bound)
            by (nonlinear_arith)
            requires
                nx >= 1,
        ;
    }
}

/// On a field whose cells all hold `v`, a column sum of `n` samples is
/// exactly `n * v`.
pub proof fn lemma_col_sum_uniform(map: Seq<u32>, s: Settings, x: int, y: int, n: nat, v: int)
    requires
        s.valid(),
        map.len() == s.cell_count(),
        forall|i: int| 0 <= i < map.len() ==> map[i] == v,
    ensures
        col_sum(map, s, x, y, n) == n * v,
    decreases n,
{
    if n == 0 {
    } else {
        let cx = clamp_coord(x, s.size_x as int);
        let cy = clamp_coord(y, s.size_y as int);
        assert(0 <= cx + s.size_x * cy < map.len()) by (nonlinear_arith)
            requires
                0 <= cx < s.size_x,
                0 <= cy < s.size_y,
                map.len() == s.size_x * s.size_y,
        ;
        assert(cell_at(map, s, x, y) == v);
        lemma_col_sum_uniform(map, s, x, y + 1, (n - 1) as nat, v);
        assert(v + (n - 1) * v == n * v) by (nonlinear_arith);
    }
}

/// On a field whose cells all hold `v`, a rectangle sum of `nx * ny`
/// samples is exactly `nx * ny * v`.
pub proof fn lemma_rect_sum_uniform(
    map: Seq<u32>,
    s: Settings,
    x: int,
    y: int,
    nx: nat,
    ny: nat,
    v: int,
)
    requires
        s.valid(),
        map.len() == s.cell_count(),
        forall|i: int| 0 <= i < map.len() ==> map[i] == v,
    ensures
        rect_sum(map, s, x, y, nx, ny) == (nx * ny) * v,
    decreases nx,
{
    if nx == 0 {
        assert((nx * ny) * v == 0) by (nonlinear_arith)
            requires
                nx == 0,
        ;
    } else {
        lemma_col_sum_uniform(map, s, x, y, ny, v);
        lemma_rect_sum_uniform(map, s, x + 1, y, (nx - 1) as nat, ny, v);
        assert(ny * v + (((nx - 1) as nat) * ny) * v == (nx * ny) * v) by (nonlinear_arith)
            requires
                nx >= 1,
        ;
    }
}

/// Extending a column sum by one row appends the sample at its end.
pub proof fn lemma_col_sum_snoc(map: Seq<u32>, s: Settings, x: int, y: int, n: nat)
    ensures
        col_sum(map, s, x, y, (n + 1) as nat) == col_sum(map, s, x, y, n) + cell_at(
            map,
            s,
            x,
            y + n,
        ),
    decreases n,
{
    let m = (n + 1) as nat;
    assert(col_sum(map, s, x, y, m) == cell_at(map, s, x, y) + col_sum(
        map,
        s,
        x,
        y + 1,
        (m - 1) as nat,
    ));
    if n == 0 {
    } else {
        lemma_col_sum_snoc(map, s, x, y + 1, (n - 1) as nat);
        assert(((n - 1) as nat + 1) as nat == n);
    }
}

/// Extending a rectangle sum by one column appends that column's sum.
pub proof fn lemma_rect_sum_snoc(map: Seq<u32>, s: Settings, x: int, y: int, nx: nat, ny: nat)
    ensures
        rect_sum(map, s, x, y, (nx + 1) as nat, ny) == rect_sum(map, s, x, y, nx, ny) + col_sum(
            map,
            s,
            x + nx,
            y,
            ny,
        ),
    decreases nx,
{
    let m = (nx + 1) as nat;
    assert(rect_sum(map, s, x, y, m, ny) == col_sum(map, s, x, y, ny) + rect_sum(
        map,
        s,
        x + 1,
        y,
        (m - 1) as nat,
        ny,
    ));
    if nx == 0 {
    } else {
        lemma_rect_sum_snoc(map, s, x + 1, y, (nx - 1) as nat, ny);
        assert(((nx - 1) as nat + 1) as nat == nx);
    }
}

/// The diffuse blend is convex: it never leaves `[0, bound]` when every
/// cell of the snapshot lies in `[0, bound]`.
pub proof fn lemma_diffused_bounds(map: Seq<u32>, s: Settings, x: int, y: int, bound: int)
    requires
        s.valid(),
        map.len() == s.cell_count(),
        0 <= bound,
        0 <= x < s.size_x,
        0 <= y < s.size_y,
        forall|i: int| 0 <= i < map.len() ==> map[i] <= bound,
    ensures
        0 <= diffused(map, s, x, y) <= bound,
{
    lemma_rect_sum_bounds(map, s, x - 1, y - 1, 3, 3, bound);
    let total = rect_sum(map, s, x - 1, y - 1, 3, 3);
    lemma_div_bound(total, 9, bound);
    let own_i = x + s.size_x * y;
    assert(0 <= own_i < map.len()) by (nonlinear_arith)
        requires
            0 <= x < s.size_x,
            0 <= y < s.size_y,
            own_i == x + s.size_x * y,
            map.len() == s.size_x * s.size_y,
    ;
    let own = map[own_i] as int;
    let f = s.trail_diffuse as int;
    let mean = avg9(map, s, x, y);
    let num = own * (FP - f) + mean * f;
    assert(0 <= num <= FP * bound) by (nonlinear_arith)
        requires
            0 <= f <= FP,
            0 <= own <= bound,
            0 <= mean <= bound,
            num == own * (FP - f) + mean * f,
    ;
    assert(num <= (FP as int) * bound);
    lemma_div_bound(num, FP as int, bound);
}

/// After diffuse and decay a cell obeys the decayed bound: decay pulls the
/// whole field's ceiling down by `trail_decay`, floored at zero.
pub proof fn lemma_dd_cell_bounds(map: Seq<u32>, s: Settings, x: int, y: int, bound: int)
    requires
        s.valid(),
        map.len() == s.cell_count(),
        0 <= bound,
        0 <= x < s.size_x,
        0 <= y < s.size_y,
        forall|i: int| 0 <= i < map.len() ==> map[i] <= bound,
    ensures
        0 <= dd_cell(map, s, x, y) <= decay_floor(bound, s.trail_decay as int),
{
    lemma_diffused_bounds(map, s, x, y, bound);
}

/// Clamp a (possibly far out-of-range) cell coordinate into the grid.
pub fn clamp_cell(v: i64, limit: u32) -> (r: usize)
    requires
        1 <= limit,
    ensures
        r == clamp_coord(v as int, limit as int),
        r < limit,
{
    if v < 0 {
        0
    } else if v >= limit as i64 {
        (limit - 1) as usize
    } else {
        v as usize
    }
}

/// A zeroed field sized for the settings' grid.
pub fn zero_field(s: &Settings) -> (m: TrailMap)
    requires
        s.valid(),
    ensures
        m@.len() == s.cell_count(),
        forall|i: int| 0 <= i < m@.len() ==> m@[i] == 0,
{
    proof {
        assert(s.size_x * s.size_y <= 0x100000) by (nonlinear_arith)
            requires
                0 < s.size_x <= 1024,
                0 < s.size_y <= 1024,
        ;
    }
    let n: usize = (s.size_x as usize) * (s.size_y as usize);
    vec![0u32; n]
}

/// The displayed brightness of a cell: its integer part, saturated at the
/// largest 8-bit value.
pub open spec fn brightness(v: int) -> int {
    if v / (FP as int) > 255 {
        255
    } else {
        v / (FP as int)
    }
}

/// Render the field as one grayscale byte per cell, row after row.
pub fn render_map(map: &TrailMap, s: &Settings) -> (px: Vec<u8>)
    requires
        s.valid(),
        map@.len() == s.cell_count(),
    ensures
        px@.len() == map@.len(),
        forall|i: int| 0 <= i < px@.len() ==> px@[i] == brightness(map@[i] as int),
{
    let mut px: Vec<u8> = Vec::new();
    let mut i: usize = 0;
    while i < map.len()
        invariant
            i <= map@.len(),
            px@.len() == i,
            forall|j: int| 0 <= j < i ==> px@[j] == brightness(map@[j] as int),
        decreases map@.len() - i,
    {
        let g: u32 = map[i] / FP;
        if g > 255 {
            px.push(255u8);
        } else {
            px.push(g as u8);
        }
        i = i + 1;
    }
    px
}

} // verus!
