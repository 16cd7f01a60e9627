//! Standing properties of the pipeline, stated over its specification
//! functions and proved once for all inputs.
use vstd::prelude::*;

use crate::config::{Settings, FP};
use crate::field::{
    avg9, cell_at, clamp_coord, col_sum, dd_cell, decay_floor, diffused, lemma_dd_cell_bounds,
    lemma_grid_index_range, rect_sum,
};
use crate::simulation::{probe_cell, scaled_step, sensed, wrap_deg, Agent};
use crate::trig::{cos_deg, sin_deg};

verus! {

/// One diffuse-and-decay pass pulls any ceiling of the whole field down
/// by the decay amount, floored at zero.  With no agents depositing and
/// decay positive, repeated ticks therefore drive every cell toward
/// zero, losing at least the decay amount from the ceiling per tick.
pub proof fn lemma_decay_drives_field_down(map: Seq<u32>, s: Settings, bound: int)
    requires
        s.valid(),
        map.len() == s.cell_count(),
        0 <= bound,
        forall|k: int| 0 <= k < map.len() ==> map[k] <= bound,
    ensures
        forall|x: int, y: int|
            0 <= x < s.size_x && 0 <= y < s.size_y ==> 0 <= #[trigger] dd_cell(map, s, x, y)
                <= decay_floor(bound, s.trail_decay as int),
{
    assert forall|x: int, y: int|
        0 <= x < s.size_x && 0 <= y < s.size_y implies 0 <= #[trigger] dd_cell(map, s, x, y)
        <= decay_floor(bound, s.trail_decay as int) by {
        lemma_dd_cell_bounds(map, s, x, y, bound);
    }
}

/// A sensor with window half-width zero reads exactly the field value at
/// the probe's cell: no neighborhood averaging takes place.
pub proof fn lemma_point_sense(map: Seq<u32>, a: Agent, off: int, s: Settings)
    requires
        s.valid(),
        map.len() == s.cell_count(),
        s.sensor_size == 0,
    ensures
        ({
            let ang = wrap_deg(a.angle + off);
            let px = probe_cell(
                a.pos_x + scaled_step(s.sensor_distance as int, cos_deg(ang)),
                s.size_x as int,
            );
            let py = probe_cell(
                a.pos_y + scaled_step(s.sensor_distance as int, sin_deg(ang)),
                s.size_y as int,
            );
            sensed(map, a, off, s) == map[px + s.size_x * py]
        }),
{
    let ang = wrap_deg(a.angle + off);
    let px = probe_cell(
        a.pos_x + scaled_step(s.sensor_distance as int, cos_deg(ang)),
        s.size_x as int,
    );
    let py = probe_cell(
        a.pos_y + scaled_step(s.sensor_distance as int, sin_deg(ang)),
        s.size_y as int,
    );
    assert(0 <= px < s.size_x);
    assert(0 <= py < s.size_y);
    assert(sensed(map, a, off, s) == rect_sum(map, s, px, py, 1, 1));
    assert(rect_sum(map, s, px, py, 1, 1) == col_sum(map, s, px, py, 1) + rect_sum(
        map,
        s,
        px + 1,
        py,
        0,
        1,
    ));
    assert(col_sum(map, s, px, py, 1) == cell_at(map, s, px, py) + col_sum(map, s, px, py + 1, 0));
    assert(clamp_coord(px, s.size_x as int) == px);
    assert(clamp_coord(py, s.size_y as int) == py);
}

/// With a diffuse factor of zero and no decay, a diffuse-and-decay pass
/// leaves every cell exactly as it was.
pub proof fn lemma_diffuse_identity(map: Seq<u32>, s: Settings, x: int, y: int)
    requires
        s.valid(),
        map.len() == s.cell_count(),
        s.trail_diffuse == 0,
        s.trail_decay == 0,
        0 <= x < s.size_x,
        0 <= y < s.size_y,
    ensures
        dd_cell(map, s, x, y) == map[x + s.size_x * y],
{
    lemma_grid_index_range(s, x, y);
    let own = map[x + s.size_x * y] as int;
    assert(own * (FP - 0) + avg9(map, s, x, y) * 0 == own * FP);
    vstd::arithmetic::mul::lemma_mul_is_commutative(own, FP as int);
    vstd::arithmetic::div_mod::lemma_div_multiples_vanish(own, FP as int);
    assert(diffused(map, s, x, y) == own);
}

/// A cell whose whole clamped 3x3 window holds one value `v` is a fixed
/// point of a full-strength diffuse pass with no decay: the neighborhood
/// average equals `v`, so the blend returns it unchanged.  On a field
/// uniform everywhere this applies to every cell, edge cells included,
/// since their clamped samples reuse the same value.
pub proof fn lemma_uniform_window_fixed_point(map: Seq<u32>, s: Settings, v: u32, x: int, y: int)
    requires
        s.valid(),
        map.len() == s.cell_count(),
        s.trail_diffuse == FP,
        s.trail_decay == 0,
        0 <= x < s.size_x,
        0 <= y < s.size_y,
        forall|cx: int, cy: int|
            x - 1 <= cx <= x + 1 && y - 1 <= cy <= y + 1 ==> #[trigger] cell_at(map, s, cx, cy)
                == v,
    ensures
        dd_cell(map, s, x, y) == v,
{
    lemma_grid_index_range(s, x, y);
    let x0 = x - 1;
    let y0 = y - 1;
    assert forall|c: int| x0 <= c <= x0 + 2 implies col_sum(map, s, c, y0, 3) == 3 * v by {
        assert(cell_at(map, s, c, y0) == v);
        assert(cell_at(map, s, c, y0 + 1) == v);
        assert(cell_at(map, s, c, y0 + 2) == v);
        assert(col_sum(map, s, c, y0, 3) == cell_at(map, s, c, y0) + col_sum(map, s, c, y0 + 1, 2));
        assert(col_sum(map, s, c, y0 + 1, 2) == cell_at(map, s, c, y0 + 1) + col_sum(
            map,
            s,
            c,
            y0 + 2,
            1,
        ));
        assert(col_sum(map, s, c, y0 + 2, 1) == cell_at(map, s, c, y0 + 2) + col_sum(
            map,
            s,
            c,
            y0 + 3,
            0,
        ));
    }
    assert(rect_sum(map, s, x0, y0, 3, 3) == col_sum(map, s, x0, y0, 3) + rect_sum(
        map,
        s,
        x0 + 1,
        y0,
        2,
        3,
    ));
    assert(rect_sum(map, s, x0 + 1, y0, 2, 3) == col_sum(map, s, x0 + 1, y0, 3) + rect_sum(
        map,
        s,
        x0 + 2,
        y0,
        1,
        3,
    ));
    assert(rect_sum(map, s, x0 + 2, y0, 1, 3) == col_sum(map, s, x0 + 2, y0, 3) + rect_sum(
        map,
        s,
        x0 + 3,
        y0,
        0,
        3,
    ));
    assert(rect_sum(map, s, x0, y0, 3, 3) == 9 * v);
    vstd::arithmetic::div_mod::lemma_div_multiples_vanish(v as int, 9);
    assert(avg9(map, s, x, y) == v);
    let own = map[x + s.size_x * y] as int;
    assert(own * (FP - FP) + (v as int) * (FP as int) == (v as int) * (FP as int));
    vstd::arithmetic::mul::lemma_mul_is_commutative(v as int, FP as int);
    vstd::arithmetic::div_mod::lemma_div_multiples_vanish(v as int, FP as int);
    assert(diffused(map, s, x, y) == v);
}

} // verus!
