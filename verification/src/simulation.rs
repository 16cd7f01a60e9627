//! Agents, the spawner, and the five-stage simulation pipeline:
//! sense, rotate, move, deposit, diffuse+decay.
use vstd::prelude::*;

use rand::rngs::StdRng;

use crate::config::{Settings, FP, HALF_FP, MAX_AGENT_N};
use crate::field::{avg9, cell_at, lemma_dd_cell_bounds, lemma_grid_index_range, zero_field, clamp_cell, clamp_coord, col_sum, dd_cell, diffused, lemma_col_sum_bounds, lemma_col_sum_snoc, lemma_rect_sum_bounds, lemma_rect_sum_snoc, rect_sum, TrailMap};
use crate::lemma_div_bound;
use crate::rng::rand_below;
use crate::trig::{cos_deg, cos_fixed, sin_deg, sin_fixed};

verus! {

/// Greatest coordinate magnitude (fixed-point) the arithmetic is sized
/// for; every position reachable by spawning and moving stays far below.
pub const MAX_COORD: i64 = 0x4000_0000;

/// A point agent: a fixed-point position and a heading in whole degrees.
#[derive(Clone, Copy, Debug, PartialEq, Eq, Structural)]
pub struct Agent {
    pub pos_x: i64,
    pub pos_y: i64,
    pub angle: u32,
}

/// The agent population; the active subset is its first `agent_n` items.
pub type Agents = Vec<Agent>;

impl Agent {
    /// The heading is a valid degree and the position lies within the
    /// coordinate range the arithmetic is sized for.
    pub open spec fn wf(&self) -> bool {
        &&& self.angle < 360
        &&& -MAX_COORD <= self.pos_x <= MAX_COORD
        &&& -MAX_COORD <= self.pos_y <= MAX_COORD
    }

    /// The agent lies inside the grid.
    pub open spec fn in_grid(&self, s: Settings) -> bool {
        &&& 0 <= self.pos_x < s.size_x * FP
        &&& 0 <= self.pos_y < s.size_y * FP
    }
}

/// A turn result folded back into `[0, 360)`; total, but meant for inputs
/// in `(-360, 720)`, where one correction suffices.
pub open spec fn wrap_deg(t: int) -> int {
    if t < 0 {
        t + 360
    } else if t >= 360 {
        t - 360
    } else {
        t
    }
}

/// The fixed-point displacement `mag * trig / FP`, the division applied
/// to the magnitude so that it truncates toward zero.
pub open spec fn scaled_step(mag: int, trig: int) -> int {
    if trig >= 0 {
        (mag * trig) / (FP as int)
    } else {
        -((mag * (-trig)) / (FP as int))
    }
}

/// Compute `scaled_step`: how far a magnitude reaches along one axis,
/// given the scaled sine or cosine of its direction.
fn step_amount(mag: u32, trig: i32) -> (r: i64)
    requires
        mag <= 0x100000,
        -FP <= trig <= FP,
    ensures
        r == scaled_step(mag as int, trig as int),
        -(mag as i64) <= r <= mag as i64,
{
    if trig >= 0 {
        proof {
            assert((mag as int) * (trig as int) <= mag * FP <= 0x40000000) by (nonlinear_arith)
                requires
                    0 <= trig <= FP,
                    0 <= mag <= 0x100000,
            ;
        }
        let p: u64 = (mag as u64) * (trig as u64);
        proof {
            lemma_div_bound(p as int, FP as int, mag as int);
        }
        (p / (FP as u64)) as i64
    } else {
        let m: u32 = (-trig) as u32;
        proof {
            assert((mag as int) * (m as int) <= mag * FP <= 0x40000000) by (nonlinear_arith)
                requires
                    0 <= m <= FP,
                    0 <= mag <= 0x100000,
            ;
        }
        let p: u64 = (mag as u64) * (m as u64);
        proof {
            lemma_div_bound(p as int, FP as int, mag as int);
        }
        -((p / (FP as u64)) as i64)
    }
}

/// The rule used to generate the initial population.
#[derive(Clone, Copy, Debug, PartialEq, Eq, Structural)]
pub enum SpawnPattern {
    /// Positions uniform over the grid, headings uniform.
    Uniform,
    /// A ring: positions on a random radius from the center, headings
    /// facing back toward the center.
    CircularBurst,
    /// All agents at the center, headings uniform.
    StarBurst,
}

/// The agent lies on the circular-burst ring: its position is the grid
/// center offset by some radius within `spawn_radius` along some heading
/// `theta`, and the agent itself faces back inward, half a turn from
/// `theta`.
pub open spec fn circle_spawned(a: Agent, s: Settings) -> bool {
    exists|theta: int, rad: int|
        {
            &&& 0 <= theta < 360
            &&& 0 <= rad <= s.spawn_radius
            &&& a.pos_x == s.size_x * FP / 2 + #[trigger] scaled_step(rad, cos_deg(theta))
            &&& a.pos_y == s.size_y * FP / 2 + scaled_step(rad, sin_deg(theta))
            &&& a.angle == wrap_deg(theta + 180)
        }
}

impl Agent {
    /// A fresh agent drawn uniformly over the grid with a uniform heading.
    pub fn new(size_x: u32, size_y: u32, rng: &mut StdRng) -> (a: Agent)
        requires
            1 <= size_x <= 1024,
            1 <= size_y <= 1024,
        ensures
            a.wf(),
            0 <= a.pos_x < size_x * FP,
            0 <= a.pos_y < size_y * FP,
    {
        let px = rand_below(rng, size_x * FP);
        let py = rand_below(rng, size_y * FP);
        let ang = rand_below(rng, 360);
        Agent { pos_x: px as i64, pos_y: py as i64, angle: ang }
    }

    /// A fresh agent of the circular-burst pattern: a heading `theta`
    /// drawn uniformly, a radius drawn uniformly within `spawn_radius`,
    /// the position offset from the grid center along `theta`, and the
    /// agent's own heading turned half a turn to face back inward.
    pub fn new_circle(settings: &Settings, rng: &mut StdRng) -> (a: Agent)
        requires
            settings.valid(),
        ensures
            a.wf(),
            circle_spawned(a, *settings),
    {
        let theta = rand_below(rng, 360);
        let rad = rand_below(rng, settings.spawn_radius + 1);
        let c = cos_fixed(theta);
        let sn = sin_fixed(theta);
        let cx: i64 = ((settings.size_x * FP) / 2) as i64;
        let cy: i64 = ((settings.size_y * FP) / 2) as i64;
        let px: i64 = cx + step_amount(rad, c);
        let py: i64 = cy + step_amount(rad, sn);
        let ang: u32 = if theta >= 180 {
            theta - 180
        } else {
            theta + 180
        };
        let a = Agent { pos_x: px, pos_y: py, angle: ang };
        proof {
            let t0 = theta as int;
            let r0 = rad as int;
            assert(a.pos_x == settings.size_x * FP / 2 + scaled_step(r0, cos_deg(t0)));
            assert(a.pos_y == settings.size_y * FP / 2 + scaled_step(r0, sin_deg(t0)));
            assert(a.angle == wrap_deg(t0 + 180));
        }
        a
    }

    /// A fresh agent of the star-burst pattern: exactly at the grid
    /// center, with a uniform heading.
    pub fn new_star(settings: &Settings, rng: &mut StdRng) -> (a: Agent)
        requires
            settings.valid(),
        ensures
            a.wf(),
            a.pos_x == settings.size_x * FP / 2,
            a.pos_y == settings.size_y * FP / 2,
            a.angle < 360,
    {
        let ang = rand_below(rng, 360);
        let cx: i64 = ((settings.size_x * FP) / 2) as i64;
        let cy: i64 = ((settings.size_y * FP) / 2) as i64;
        Agent { pos_x: cx, pos_y: cy, angle: ang }
    }
}

/// The cell a probe coordinate lands on: rounded to the nearest cell,
/// then clamped into `[0, limit)`.
pub open spec fn probe_cell(v: int, limit: int) -> int {
    if v + HALF_FP < 0 {
        0
    } else {
        clamp_coord((v + HALF_FP) / (FP as int), limit)
    }
}

/// Compute `probe_cell` for a fixed-point coordinate.
fn round_to_cell(v: i64, limit: u32) -> (r: usize)
    requires
        1 <= limit <= 1024,
        -0x7000_0000 <= v <= 0x7000_0000,
    ensures
        r == probe_cell(v as int, limit as int),
        r < limit,
{
    let w = v + HALF_FP as i64;
    if w < 0 {
        0
    } else {
        let cell = (w as u64) / (FP as u64);
        clamp_cell(cell as i64, limit)
    }
}

/// What one sensor reads: the probe point `sensor_distance` ahead of the
/// agent along its heading plus `off` degrees is rounded to the nearest
/// cell, and the field is summed over the square window of half-width
/// `sensor_size` centered there, every sample clamped to the grid.
///
/// `sensor_size` is a half-width, so the window's side is
/// `2 * sensor_size + 1` and it is truly centered on the probe cell; in
/// particular a half-width of zero reads exactly that one cell, with no
/// neighborhood averaging.
pub open spec fn sensed(map: Seq<u32>, a: Agent, off: int, s: Settings) -> int {
    let ang = wrap_deg(a.angle + off);
    let px = probe_cell(
        a.pos_x + scaled_step(s.sensor_distance as int, cos_deg(ang)),
        s.size_x as int,
    );
    let py = probe_cell(
        a.pos_y + scaled_step(s.sensor_distance as int, sin_deg(ang)),
        s.size_y as int,
    );
    rect_sum(
        map,
        s,
        px - s.sensor_size,
        py - s.sensor_size,
        (2 * s.sensor_size + 1) as nat,
        (2 * s.sensor_size + 1) as nat,
    )
}

/// Sum the field over the square window of cells `[cx - half, cx + half]
/// x [cy - half, cy + half]`, every sampled coordinate clamped to the
/// grid independently.
fn window_sum(trail_map: &TrailMap, settings: &Settings, cx: usize, cy: usize, half: u32) -> (t:
    u64)
    requires
        settings.valid(),
        trail_map@.len() == settings.cell_count(),
        cx < settings.size_x,
        cy < settings.size_y,
        half <= 5,
    ensures
        t == rect_sum(
            trail_map@,
            *settings,
            cx - half,
            cy - half,
            (2 * half + 1) as nat,
            (2 * half + 1) as nat,
        ),
{
    let n: u32 = 2 * half + 1;
    let ghost base_x: int = cx - half;
    let ghost base_y: int = cy - half;
    let mut total: u64 = 0;
    let mut ox: u32 = 0;
    while ox < n
        invariant
            settings.valid(),
            trail_map@.len() == settings.cell_count(),
            n == 2 * half + 1,
            n <= 11,
            ox <= n,
            cx < settings.size_x,
            cy < settings.size_y,
            base_x == cx - half,
            base_y == cy - half,
            total == rect_sum(trail_map@, *settings, base_x, base_y, ox as nat, n as nat),
        decreases n - ox,
    {
        let mut col: u64 = 0;
        let mut oy: u32 = 0;
        while oy < n
            invariant
                settings.valid(),
                trail_map@.len() == settings.cell_count(),
                n == 2 * half + 1,
                n <= 11,
                ox < n,
                oy <= n,
                cx < settings.size_x,
                cy < settings.size_y,
                base_x == cx - half,
                base_y == cy - half,
                col == col_sum(trail_map@, *settings, base_x + ox, base_y, oy as nat),
            decreases n - oy,
        {
            let sx: i64 = cx as i64 - half as i64 + ox as i64;
            let sy: i64 = cy as i64 - half as i64 + oy as i64;
            let pick_x = clamp_cell(sx, settings.size_x);
            let pick_y = clamp_cell(sy, settings.size_y);
            proof {
                assert(pick_x + settings.size_x * pick_y < settings.size_x * settings.size_y
                    <= 0x100000) by (nonlinear_arith)
                    requires
                        pick_x < settings.size_x <= 1024,
                        pick_y < settings.size_y <= 1024,
                ;
            }
            let idx: usize = pick_x + (settings.size_x as usize) * pick_y;
            proof {
                assert(trail_map@[idx as int] == cell_at(
                    trail_map@,
                    *settings,
                    base_x + ox,
                    base_y + oy,
                ));
                lemma_col_sum_bounds(
                    trail_map@,
                    *settings,
                    base_x + ox,
                    base_y,
                    oy as nat,
                    u32::MAX as int,
                );
                lemma_col_sum_snoc(trail_map@, *settings, base_x + ox, base_y, oy as nat);
            }
            col = col + trail_map[idx] as u64;
            oy = oy + 1;
        }
        proof {
            lemma_rect_sum_bounds(
                trail_map@,
                *settings,
                base_x,
                base_y,
                ox as nat,
                n as nat,
                u32::MAX as int,
            );
            lemma_col_sum_bounds(
                trail_map@,
                *settings,
                base_x + ox,
                base_y,
                n as nat,
                u32::MAX as int,
            );
            lemma_rect_sum_snoc(trail_map@, *settings, base_x, base_y, ox as nat, n as nat);
            assert((ox as int * n as int) * (u32::MAX as int) <= 121 * (u32::MAX as int))
                by (nonlinear_arith)
                requires
                    0 <= ox as int <= 11,
                    0 <= n as int <= 11,
            ;
        }
        total = total + col;
        ox = ox + 1;
    }
    total
}

/// Sense the field ahead of an agent at a heading offset of `offset`
/// degrees; returns exactly the window sum that `sensed` states.
pub fn agent_sense(trail_map: &TrailMap, agent: &Agent, offset: i32, settings: &Settings) -> (w:
    u64)
    requires
        settings.valid(),
        agent.wf(),
        trail_map@.len() == settings.cell_count(),
        -360 <= offset <= 360,
    ensures
        w == sensed(trail_map@, *agent, offset as int, *settings),
{
    let t: i64 = agent.angle as i64 + offset as i64;
    let ang: u32 = if t < 0 {
        (t + 360) as u32
    } else if t >= 360 {
        (t - 360) as u32
    } else {
        t as u32
    };
    assert(ang == wrap_deg(agent.angle + offset));
    let c = cos_fixed(ang);
    let sn = sin_fixed(ang);
    let px_f: i64 = agent.pos_x + step_amount(settings.sensor_distance, c);
    let py_f: i64 = agent.pos_y + step_amount(settings.sensor_distance, sn);
    let cx = round_to_cell(px_f, settings.size_x);
    let cy = round_to_cell(py_f, settings.size_y);
    window_sum(trail_map, settings, cx, cy, settings.sensor_size)
}

/// Generate a population of exactly `capacity` agents under the given
/// spawn pattern; the active subset used by the stages is its prefix.
pub fn spawn_population(
    capacity: u32,
    pattern: SpawnPattern,
    settings: &Settings,
    rng: &mut StdRng,
) -> (agents: Agents)
    requires
        settings.valid(),
        capacity <= MAX_AGENT_N,
    ensures
        agents@.len() == capacity,
        forall|i: int| 0 <= i < agents@.len() ==> (#[trigger] agents@[i]).wf(),
        pattern == SpawnPattern::Uniform ==> forall|i: int|
            0 <= i < agents@.len() ==> (#[trigger] agents@[i]).in_grid(*settings),
        pattern == SpawnPattern::CircularBurst ==> forall|i: int|
            0 <= i < agents@.len() ==> circle_spawned(#[trigger] agents@[i], *settings),
        pattern == SpawnPattern::StarBurst ==> forall|i: int|
            0 <= i < agents@.len() ==> (#[trigger] agents@[i]).pos_x == settings.size_x * FP / 2
                && agents@[i].pos_y == settings.size_y * FP / 2,
{
    let mut agents: Agents = Vec::new();
    let mut i: u32 = 0;
    while i < capacity
        invariant
            i <= capacity,
            settings.valid(),
            agents@.len() == i,
            forall|j: int| 0 <= j < agents@.len() ==> (#[trigger] agents@[j]).wf(),
            pattern == SpawnPattern::Uniform ==> forall|j: int|
                0 <= j < agents@.len() ==> (#[trigger] agents@[j]).in_grid(*settings),
            pattern == SpawnPattern::CircularBurst ==> forall|j: int|
                0 <= j < agents@.len() ==> circle_spawned(#[trigger] agents@[j], *settings),
            pattern == SpawnPattern::StarBurst ==> forall|j: int|
                0 <= j < agents@.len() ==> (#[trigger] agents@[j]).pos_x == settings.size_x * FP
                    / 2 && agents@[j].pos_y == settings.size_y * FP / 2,
        decreases capacity - i,
    {
        let a = match pattern {
            SpawnPattern::Uniform => Agent::new(settings.size_x, settings.size_y, rng),
            SpawnPattern::CircularBurst => Agent::new_circle(settings, rng),
            SpawnPattern::StarBurst => Agent::new_star(settings, rng),
        };
        agents.push(a);
        i = i + 1;
    }
    agents
}

/// The signed heading change one steering decision yields, in degrees.
/// `fw`, `lw` and `rw` are the forward, left and right sensed weights;
/// `r` is a uniform draw below `FP`, reused by whichever branch applies.
/// Exactly one branch applies, in this priority order: keep straight when
/// forward beats both sides; reorient anywhere within `[-turn, turn)`
/// when forward loses to both; else turn toward the stronger side by a
/// random amount within `[0, turn)`; on a side tie, keep straight.
pub open spec fn steer_delta(fw: int, lw: int, rw: int, turn: int, r: int) -> int {
    if fw > lw && fw > rw {
        0
    } else if fw < lw && fw < rw {
        if 2 * r >= FP {
            ((2 * r - FP) * turn) / (FP as int)
        } else {
            -(((FP - 2 * r) * turn) / (FP as int))
        }
    } else if rw > lw {
        -((r * turn) / (FP as int))
    } else if lw > rw {
        (r * turn) / (FP as int)
    } else {
        0
    }
}

/// The heading after one steering decision.
pub open spec fn steered_angle(a: Agent, fw: int, lw: int, rw: int, turn: int, r: int) -> int {
    wrap_deg(a.angle + steer_delta(fw, lw, rw, turn, r))
}

/// `a_new`'s heading is the steering outcome of `a_old` under the given
/// sensed weights and turn budget, for some uniform draw below `FP`.
pub open spec fn steering_outcome(
    a_new: Agent,
    a_old: Agent,
    fw: int,
    lw: int,
    rw: int,
    turn: int,
) -> bool {
    exists|r: int|
        0 <= r < FP && a_new.angle == #[trigger] steered_angle(a_old, fw, lw, rw, turn, r)
}

/// The Sense/Rotate stage as a relation: `next` is `prev` with every
/// active agent steered against the field `map` and nothing else
/// changed; positions are kept and inactive agents are untouched.
pub open spec fn sense_rotate_step(
    prev: Seq<Agent>,
    next: Seq<Agent>,
    map: Seq<u32>,
    s: Settings,
) -> bool {
    &&& next.len() == prev.len()
    &&& prev.len() >= s.agent_n
    &&& forall|i: int| s.agent_n <= i < next.len() ==> #[trigger] next[i] == prev[i]
    &&& forall|i: int|
        0 <= i < s.agent_n ==> (#[trigger] next[i]).pos_x == prev[i].pos_x && next[i].pos_y
            == prev[i].pos_y
    &&& forall|i: int|
        0 <= i < s.agent_n ==> steering_outcome(
            #[trigger] next[i],
            prev[i],
            sensed(map, prev[i], 0, s),
            sensed(map, prev[i], s.sensor_angle as int, s),
            sensed(map, prev[i], -(s.sensor_angle as int), s),
            s.agent_turn as int,
        )
}

/// A steering decision never exceeds the turn budget.
pub proof fn lemma_steer_delta_bounds(fw: int, lw: int, rw: int, turn: int, r: int)
    requires
        0 <= r < FP,
        0 <= turn <= 360,
    ensures
        -turn <= steer_delta(fw, lw, rw, turn, r) <= turn,
{
    assert(r * turn <= FP * turn) by (nonlinear_arith)
        requires
            0 <= r <= FP,
            0 <= turn,
    ;
    lemma_div_bound(r * turn, FP as int, turn);
    if 2 * r >= FP {
        assert((2 * r - FP) * turn <= FP * turn) by (nonlinear_arith)
            requires
                0 <= 2 * r - FP <= FP,
                0 <= turn,
        ;
        lemma_div_bound((2 * r - FP) * turn, FP as int, turn);
    } else {
        assert((FP - 2 * r) * turn <= FP * turn) by (nonlinear_arith)
            requires
                0 <= FP - 2 * r <= FP,
                0 <= turn,
        ;
        lemma_div_bound((FP - 2 * r) * turn, FP as int, turn);
    }
}

/// Apply one steering decision to an agent, exactly as `steered_angle`
/// states; only the heading changes.
fn rotate_agent(agent: &mut Agent, fw: u64, lw: u64, rw: u64, turn: u32, r: u32)
    requires
        old(agent).wf(),
        turn <= 360,
        r < FP,
    ensures
        final(agent).pos_x == old(agent).pos_x,
        final(agent).pos_y == old(agent).pos_y,
        final(agent).angle == steered_angle(
            *old(agent),
            fw as int,
            lw as int,
            rw as int,
            turn as int,
            r as int,
        ),
        final(agent).wf(),
{
    proof {
        lemma_steer_delta_bounds(fw as int, lw as int, rw as int, turn as int, r as int);
    }
    let delta: i64 = if fw > lw && fw > rw {
        0
    } else if fw < lw && fw < rw {
        if 2 * r >= FP {
            (((2 * r - FP) * turn) / FP) as i64
        } else {
            -((((FP - 2 * r) * turn) / FP) as i64)
        }
    } else if rw > lw {
        -(((r * turn) / FP) as i64)
    } else if lw > rw {
        ((r * turn) / FP) as i64
    } else {
        0
    };
    let t: i64 = agent.angle as i64 + delta;
    agent.angle = if t < 0 {
        (t + 360) as u32
    } else if t >= 360 {
        (t - 360) as u32
    } else {
        t as u32
    };
}

/// Stages one and two of a tick, over the active agents: sense the field
/// forward, left and right of each agent's heading, then steer.  The
/// field and every position are untouched, inactive agents are untouched,
/// and each active agent's new heading is the steering outcome of its old
/// state and sensed weights under some uniform draw below `FP`.
pub fn cpu_sense_rotate(
    trail_map: &TrailMap,
    agents: &mut Agents,
    settings: &Settings,
    rng: &mut StdRng,
)
    requires
        settings.valid(),
        trail_map@.len() == settings.cell_count(),
        old(agents)@.len() >= settings.agent_n,
        forall|i: int| 0 <= i < old(agents)@.len() ==> (#[trigger] old(agents)@[i]).wf(),
    ensures
        forall|i: int| 0 <= i < final(agents)@.len() ==> (#[trigger] final(agents)@[i]).wf(),
        sense_rotate_step(old(agents)@, final(agents)@, trail_map@, *settings),
{
    let n: usize = settings.agent_n as usize;
    let mut i: usize = 0;
    while i < n
        invariant
            settings.valid(),
            trail_map@.len() == settings.cell_count(),
            n == settings.agent_n,
            i <= n,
            agents@.len() == old(agents)@.len(),
            n <= agents@.len(),
            forall|j: int| 0 <= j < agents@.len() ==> (#[trigger] agents@[j]).wf(),
            forall|j: int| i <= j < agents@.len() ==> agents@[j] == old(agents)@[j],
            forall|j: int|
                0 <= j < i ==> (#[trigger] agents@[j]).pos_x == old(agents)@[j].pos_x
                    && agents@[j].pos_y == old(agents)@[j].pos_y,
            forall|j: int|
                0 <= j < i ==> steering_outcome(
                    #[trigger] agents@[j],
                    old(agents)@[j],
                    sensed(trail_map@, old(agents)@[j], 0, *settings),
                    sensed(trail_map@, old(agents)@[j], settings.sensor_angle as int, *settings),
                    sensed(trail_map@, old(agents)@[j], -(settings.sensor_angle as int), *settings),
                    settings.agent_turn as int,
                ),
        decreases n - i,
    {
        let a: Agent = agents[i];
        let fw = agent_sense(trail_map, &a, 0, settings);
        let lw = agent_sense(trail_map, &a, settings.sensor_angle as i32, settings);
        let rw = agent_sense(trail_map, &a, -(settings.sensor_angle as i32), settings);
        let r = rand_below(rng, FP);
        let mut b = a;
        rotate_agent(&mut b, fw, lw, rw, settings.agent_turn, r);
        agents[i] = b;
        proof {
            assert(agents@[i as int].angle == steered_angle(
                old(agents)@[i as int],
                sensed(trail_map@, old(agents)@[i as int], 0, *settings),
                sensed(trail_map@, old(agents)@[i as int], settings.sensor_angle as int, *settings),
                sensed(
                    trail_map@,
                    old(agents)@[i as int],
                    -(settings.sensor_angle as int),
                    *settings,
                ),
                settings.agent_turn as int,
                r as int,
            ));
        }
        i = i + 1;
    }
}

/// Where one Move step carries an agent along the x axis, before any
/// boundary handling.
pub open spec fn moved_x(a: Agent, s: Settings) -> int {
    a.pos_x + scaled_step(s.agent_speed as int, cos_deg(a.angle as int))
}

/// Where one Move step carries an agent along the y axis, before any
/// boundary handling.
pub open spec fn moved_y(a: Agent, s: Settings) -> int {
    a.pos_y + scaled_step(s.agent_speed as int, sin_deg(a.angle as int))
}

/// Whether that step stays inside the grid.
pub open spec fn move_stays_in(a: Agent, s: Settings) -> bool {
    &&& 0 <= moved_x(a, s) < s.size_x * FP
    &&& 0 <= moved_y(a, s) < s.size_y * FP
}

/// A colliding coordinate clamped into `[0, limit - 1]` (in cells; the
/// grid edge itself is excluded: a colliding agent stops one cell short).
pub open spec fn clamp_pos(v: int, limit: int) -> int {
    if v < 0 {
        0
    } else if v > (limit - 1) * FP {
        (limit - 1) * FP
    } else {
        v
    }
}

/// The Move stage as a relation: `next` is `prev` with every active
/// agent carried one step along its heading; a step that would leave the
/// grid is clamped into `[0, size - 1]` on both axes with some fresh
/// heading.  Every active agent ends inside the grid; inactive agents
/// are untouched.
pub open spec fn move_step(prev: Seq<Agent>, next: Seq<Agent>, s: Settings) -> bool {
    &&& next.len() == prev.len()
    &&& prev.len() >= s.agent_n
    &&& forall|i: int| s.agent_n <= i < next.len() ==> #[trigger] next[i] == prev[i]
    &&& forall|i: int| 0 <= i < s.agent_n ==> (#[trigger] next[i]).in_grid(s)
    &&& forall|i: int|
        0 <= i < s.agent_n && move_stays_in(prev[i], s) ==> (#[trigger] next[i]) == (Agent {
            pos_x: moved_x(prev[i], s) as i64,
            pos_y: moved_y(prev[i], s) as i64,
            angle: prev[i].angle,
        })
    &&& forall|i: int|
        0 <= i < s.agent_n && !move_stays_in(prev[i], s) ==> {
            &&& (#[trigger] next[i]).pos_x == clamp_pos(moved_x(prev[i], s), s.size_x as int)
            &&& next[i].pos_y == clamp_pos(moved_y(prev[i], s), s.size_y as int)
            &&& next[i].angle < 360
        }
}

/// Move one agent one step along its heading.  A step that stays inside
/// the grid keeps the heading; one that would leave the grid is clamped
/// into it and the heading is replaced by the fresh draw `r`.
fn move_agent(agent: &mut Agent, settings: &Settings, r: u32)
    requires
        old(agent).wf(),
        settings.valid(),
        r < 360,
    ensures
        final(agent).wf(),
        final(agent).in_grid(*settings),
        move_stays_in(*old(agent), *settings) ==> *final(agent) == (Agent {
            pos_x: moved_x(*old(agent), *settings) as i64,
            pos_y: moved_y(*old(agent), *settings) as i64,
            angle: old(agent).angle,
        }),
        !move_stays_in(*old(agent), *settings) ==> *final(agent) == (Agent {
            pos_x: clamp_pos(moved_x(*old(agent), *settings), settings.size_x as int) as i64,
            pos_y: clamp_pos(moved_y(*old(agent), *settings), settings.size_y as int) as i64,
            angle: r,
        }),
{
    let c = cos_fixed(agent.angle);
    let sn = sin_fixed(agent.angle);
    let nx: i64 = agent.pos_x + step_amount(settings.agent_speed, c);
    let ny: i64 = agent.pos_y + step_amount(settings.agent_speed, sn);
    let wfp: i64 = (settings.size_x * FP) as i64;
    let hfp: i64 = (settings.size_y * FP) as i64;
    if 0 <= nx && nx < wfp && 0 <= ny && ny < hfp {
        agent.pos_x = nx;
        agent.pos_y = ny;
    } else {
        let xmax: i64 = ((settings.size_x - 1) * FP) as i64;
        let ymax: i64 = ((settings.size_y - 1) * FP) as i64;
        agent.pos_x = if nx < 0 {
            0
        } else if nx > xmax {
            xmax
        } else {
            nx
        };
        agent.pos_y = if ny < 0 {
            0
        } else if ny > ymax {
            ymax
        } else {
            ny
        };
        agent.angle = r;
    }
}

/// Stage three of a tick, over the active agents: each moves one step
/// along its heading; one that would leave the grid is instead clamped
/// into `[0, size - 1]` on both axes and given a fresh uniform heading.
/// Afterwards every active agent lies inside the grid.  Inactive agents
/// and the positions' relation to the old state are exactly as
/// `move_agent` has them.
pub fn cpu_move(agents: &mut Agents, settings: &Settings, rng: &mut StdRng)
    requires
        settings.valid(),
        old(agents)@.len() >= settings.agent_n,
        forall|i: int| 0 <= i < old(agents)@.len() ==> (#[trigger] old(agents)@[i]).wf(),
    ensures
        forall|i: int| 0 <= i < final(agents)@.len() ==> (#[trigger] final(agents)@[i]).wf(),
        move_step(old(agents)@, final(agents)@, *settings),
{
    let n: usize = settings.agent_n as usize;
    let mut i: usize = 0;
    while i < n
        invariant
            settings.valid(),
            n == settings.agent_n,
            i <= n,
            agents@.len() == old(agents)@.len(),
            n <= agents@.len(),
            forall|j: int| 0 <= j < agents@.len() ==> (#[trigger] agents@[j]).wf(),
            forall|j: int| i <= j < agents@.len() ==> agents@[j] == old(agents)@[j],
            forall|j: int| 0 <= j < i ==> (#[trigger] agents@[j]).in_grid(*settings),
            forall|j: int|
                0 <= j < i && move_stays_in(old(agents)@[j], *settings) ==> (
                #[trigger] agents@[j]) == (Agent {
                    pos_x: moved_x(old(agents)@[j], *settings) as i64,
                    pos_y: moved_y(old(agents)@[j], *settings) as i64,
                    angle: old(agents)@[j].angle,
                }),
            forall|j: int|
                0 <= j < i && !move_stays_in(old(agents)@[j], *settings) ==> {
                    &&& (#[trigger] agents@[j]).pos_x == clamp_pos(
                        moved_x(old(agents)@[j], *settings),
                        settings.size_x as int,
                    )
                    &&& agents@[j].pos_y == clamp_pos(
                        moved_y(old(agents)@[j], *settings),
                        settings.size_y as int,
                    )
                    &&& agents@[j].angle < 360
                },
        decreases n - i,
    {
        let r = rand_below(rng, 360);
        let mut b: Agent = agents[i];
        move_agent(&mut b, settings, r);
        agents[i] = b;
        i = i + 1;
    }
}

/// The cell an in-grid agent's position floors to, as an index into the
/// field.
pub open spec fn deposit_index(a: Agent, s: Settings) -> int {
    (a.pos_x as int) / (FP as int) + s.size_x * ((a.pos_y as int) / (FP as int))
}

/// The Deposit stage as a relation: `next` is `prev` with the deposit
/// weight written into the cell each active agent floors to, every other
/// cell untouched.
pub open spec fn deposit_step(
    prev: Seq<u32>,
    next: Seq<u32>,
    agents: Seq<Agent>,
    s: Settings,
) -> bool {
    &&& next.len() == prev.len()
    &&& forall|k: int|
        0 <= k < next.len() && (exists|i: int|
            0 <= i < s.agent_n && #[trigger] deposit_index(agents[i], s) == k) ==> (
        #[trigger] next[k]) == s.trail_weight
    &&& forall|k: int|
        0 <= k < next.len() && !(exists|i: int|
            0 <= i < s.agent_n && #[trigger] deposit_index(agents[i], s) == k) ==> (
        #[trigger] next[k]) == prev[k]
}

/// Stage four of a tick, over the active agents: each overwrites the cell
/// its position floors to with the deposit weight.  A cell some active
/// agent floors to holds exactly the weight afterwards; every other cell
/// is untouched.  (The write overwrites rather than accumulates, so two
/// agents in one cell leave the same value as one.)
pub fn cpu_deposit(agents: &Agents, trail_map: &mut TrailMap, settings: &Settings)
    requires
        settings.valid(),
        old(trail_map)@.len() == settings.cell_count(),
        agents@.len() >= settings.agent_n,
        forall|i: int| 0 <= i < settings.agent_n ==> (#[trigger] agents@[i]).in_grid(*settings),
    ensures
        deposit_step(old(trail_map)@, final(trail_map)@, agents@, *settings),
{
    let n: usize = settings.agent_n as usize;
    let mut i: usize = 0;
    while i < n
        invariant
            settings.valid(),
            n == settings.agent_n,
            i <= n,
            n <= agents@.len(),
            trail_map@.len() == old(trail_map)@.len(),
            trail_map@.len() == settings.cell_count(),
            forall|t: int| 0 <= t < n ==> (#[trigger] agents@[t]).in_grid(*settings),
            forall|k: int|
                0 <= k < trail_map@.len() && (exists|t: int|
                    0 <= t < i && #[trigger] deposit_index(agents@[t], *settings) == k) ==> (
                #[trigger] trail_map@[k]) == settings.trail_weight,
            forall|k: int|
                0 <= k < trail_map@.len() && !(exists|t: int|
                    0 <= t < i && #[trigger] deposit_index(agents@[t], *settings) == k) ==> (
                #[trigger] trail_map@[k]) == old(trail_map)@[k],
        decreases n - i,
    {
        let a: Agent = agents[i];
        proof {
            vstd::arithmetic::div_mod::lemma_multiply_divide_lt(
                a.pos_x as int,
                FP as int,
                settings.size_x as int,
            );
            vstd::arithmetic::div_mod::lemma_multiply_divide_lt(
                a.pos_y as int,
                FP as int,
                settings.size_y as int,
            );
            vstd::arithmetic::div_mod::lemma_div_pos_is_pos(a.pos_x as int, FP as int);
            vstd::arithmetic::div_mod::lemma_div_pos_is_pos(a.pos_y as int, FP as int);
        }
        let cx: u64 = (a.pos_x as u64) / (FP as u64);
        let cy: u64 = (a.pos_y as u64) / (FP as u64);
        proof {
            assert(cx + settings.size_x * cy < settings.size_x * settings.size_y <= 0x100000)
                by (nonlinear_arith)
                requires
                    cx < settings.size_x <= 1024,
                    cy < settings.size_y <= 1024,
            ;
        }
        let idx: usize = cx as usize + (settings.size_x as usize) * (cy as usize);
        proof {
            assert(idx == deposit_index(agents@[i as int], *settings));
        }
        trail_map[idx] = settings.trail_weight;
        proof {
            assert forall|k: int|
                0 <= k < trail_map@.len() && (exists|t: int|
                    0 <= t < i + 1 && #[trigger] deposit_index(agents@[t], *settings)
                        == k) implies (#[trigger] trail_map@[k]) == settings.trail_weight by {
                if k != idx {
                    let t = choose|t: int|
                        0 <= t < i + 1 && #[trigger] deposit_index(agents@[t], *settings) == k;
                    assert(t < i);
                    assert(exists|t: int|
                        0 <= t < i && #[trigger] deposit_index(agents@[t], *settings) == k);
                }
            }
        }
        i = i + 1;
    }
}

/// The grid coordinate pair `(x, y)` determines the flat index `x +
/// size_x * y` uniquely.
proof fn lemma_grid_index_injective(s: Settings, x1: int, y1: int, x2: int, y2: int)
    by (nonlinear_arith)
    requires
        0 <= x1 < s.size_x,
        0 <= x2 < s.size_x,
        0 <= y1,
        0 <= y2,
        x1 + s.size_x * y1 == x2 + s.size_x * y2,
    ensures
        x1 == x2 && y1 == y2,
{
}

/// The Diffuse+Decay stage as a relation: every cell of `next` is the
/// diffuse-and-decay of the snapshot `prev` at that cell.
pub open spec fn diffuse_decay_step(prev: Seq<u32>, next: Seq<u32>, s: Settings) -> bool {
    &&& next.len() == prev.len()
    &&& forall|x: int, y: int|
        0 <= x < s.size_x && 0 <= y < s.size_y ==> next[x + s.size_x * y] == #[trigger] dd_cell(
            prev,
            s,
            x,
            y,
        )
}

/// Stage five of a tick: every cell of the grid is replaced by the
/// diffuse-and-decay of the field as it stood when the stage began.  The
/// whole pass reads only that snapshot, never a freshly written value, so
/// the result is independent of traversal order.
pub fn cpu_diffuse_decay(trail_map: &mut TrailMap, settings: &Settings)
    requires
        settings.valid(),
        old(trail_map)@.len() == settings.cell_count(),
    ensures
        diffuse_decay_step(old(trail_map)@, final(trail_map)@, *settings),
{
    let source: TrailMap = trail_map.clone();
    proof {
        assert(source@ =~= trail_map@);
    }
    let w: usize = settings.size_x as usize;
    let h: usize = settings.size_y as usize;
    let mut y: usize = 0;
    while y < h
        invariant
            settings.valid(),
            w == settings.size_x,
            h == settings.size_y,
            y <= h,
            source@ == old(trail_map)@,
            trail_map@.len() == old(trail_map)@.len(),
            trail_map@.len() == settings.cell_count(),
            forall|xx: int, yy: int|
                0 <= xx < w && 0 <= yy < y ==> trail_map@[xx + settings.size_x * yy]
                    == #[trigger] dd_cell(source@, *settings, xx, yy),
            forall|xx: int, yy: int|
                0 <= xx < w && y <= yy < h ==> trail_map@[xx + settings.size_x * yy] == (
                #[trigger] source@[xx + settings.size_x * yy]),
        decreases h - y,
    {
        let mut x: usize = 0;
        while x < w
            invariant
                settings.valid(),
                w == settings.size_x,
                h == settings.size_y,
                y < h,
                x <= w,
                source@ == old(trail_map)@,
                trail_map@.len() == old(trail_map)@.len(),
                trail_map@.len() == settings.cell_count(),
                forall|xx: int, yy: int|
                    0 <= xx < w && 0 <= yy < y ==> trail_map@[xx + settings.size_x * yy]
                        == #[trigger] dd_cell(source@, *settings, xx, yy),
                forall|xx: int|
                    0 <= xx < x ==> trail_map@[xx + settings.size_x * y] == #[trigger] dd_cell(
                        source@,
                        *settings,
                        xx,
                        y as int,
                    ),
                forall|xx: int, yy: int|
                    0 <= xx < w && y <= yy < h && (yy > y || xx >= x) ==> trail_map@[xx
                        + settings.size_x * yy] == (#[trigger] source@[xx + settings.size_x * yy]),
            decreases w - x,
        {
            let total: u64 = window_sum(&source, settings, x, y, 1);
            let mean: u64 = total / 9;
            proof {
                assert(x + settings.size_x * y < settings.size_x * settings.size_y <= 0x100000)
                    by (nonlinear_arith)
                    requires
                        x < settings.size_x <= 1024,
                        y < settings.size_y <= 1024,
                ;
            }
            let idx: usize = x + w * y;
            let own: u32 = source[idx];
            let f: u32 = settings.trail_diffuse;
            proof {
                lemma_rect_sum_bounds(
                    source@,
                    *settings,
                    x - 1,
                    y - 1,
                    3,
                    3,
                    u32::MAX as int,
                );
                lemma_div_bound(total as int, 9, u32::MAX as int);
                assert(mean == avg9(source@, *settings, x as int, y as int));
                assert((own as int) * ((FP - f) as int) + (mean as int) * (f as int) <= (
                FP as int) * (u32::MAX as int)) by (nonlinear_arith)
                    requires
                        0 <= f <= FP,
                        0 <= own <= u32::MAX,
                        0 <= mean <= u32::MAX,
                ;
            }
            let num: u64 = (own as u64) * ((FP - f) as u64) + mean * (f as u64);
            proof {
                lemma_div_bound(num as int, FP as int, u32::MAX as int);
            }
            let blended: u64 = num / (FP as u64);
            proof {
                assert(blended == diffused(source@, *settings, x as int, y as int));
            }
            let v: u32 = if blended >= settings.trail_decay as u64 {
                (blended - settings.trail_decay as u64) as u32
            } else {
                0
            };
            proof {
                assert(v == dd_cell(source@, *settings, x as int, y as int));
            }
            trail_map[idx] = v;
            proof {
                assert forall|xx: int, yy: int|
                    0 <= xx < w && y <= yy < h && (yy > y || xx >= x + 1) implies trail_map@[xx
                    + settings.size_x * yy] == (#[trigger] source@[xx + settings.size_x
                    * yy]) by {
                    lemma_grid_index_range(*settings, xx, yy);
                    if xx + settings.size_x * yy == idx {
                        lemma_grid_index_injective(
                            *settings,
                            xx,
                            yy,
                            x as int,
                            y as int,
                        );
                        assert(false);
                    }
                }
                assert forall|xx: int, yy: int|
                    0 <= xx < w && 0 <= yy < y implies trail_map@[xx + settings.size_x * yy]
                    == #[trigger] dd_cell(source@, *settings, xx, yy) by {
                    lemma_grid_index_range(*settings, xx, yy);
                    if xx + settings.size_x * yy == idx {
                        lemma_grid_index_injective(
                            *settings,
                            xx,
                            yy,
                            x as int,
                            y as int,
                        );
                        assert(false);
                    }
                }
                assert forall|xx: int|
                    0 <= xx < x + 1 implies trail_map@[xx + settings.size_x * y] == #[trigger]
                    dd_cell(source@, *settings, xx, y as int) by {
                    lemma_grid_index_range(*settings, xx, y as int);
                    if xx < x {
                        if xx + settings.size_x * (y as int) == idx {
                            lemma_grid_index_injective(
                                *settings,
                                xx,
                                y as int,
                                x as int,
                                y as int,
                            );
                            assert(false);
                        }
                    }
                }
            }
            x = x + 1;
        }
        y = y + 1;
    }
}

/// One whole tick as a relation between the state before and after: the
/// four stages compose in fixed order, each exactly once.  Some steered
/// population and some deposited field stand in between: the agents
/// after the tick are the Move image of the steered population, and the
/// field after the tick is the diffuse-and-decay pass over the old field
/// overwritten at those agents' cells.
pub open spec fn tick_relation(
    s: Settings,
    agents_before: Seq<Agent>,
    map_before: Seq<u32>,
    agents_after: Seq<Agent>,
    map_after: Seq<u32>,
) -> bool {
    exists|steered: Seq<Agent>, deposited: Seq<u32>|
        #![trigger sense_rotate_step(agents_before, steered, map_before, s), deposit_step(
            map_before,
            deposited,
            agents_after,
            s,
        )]
        {
            &&& sense_rotate_step(agents_before, steered, map_before, s)
            &&& move_step(steered, agents_after, s)
            &&& deposit_step(map_before, deposited, agents_after, s)
            &&& diffuse_decay_step(deposited, map_after, s)
        }
}

/// A whole simulation: parameters, population and field, owned together
/// as one value, so that independent simulations can coexist and the
/// stages never touch hidden global state.
pub struct Simulation {
    pub settings: Settings,
    pub agents: Agents,
    pub trail_map: TrailMap,
}

impl Simulation {
    /// The pieces fit together: valid parameters, a field sized for the
    /// grid, and a well-formed population covering the active count.
    pub open spec fn wf(&self) -> bool {
        &&& self.settings.valid()
        &&& self.trail_map@.len() == self.settings.cell_count()
        &&& self.agents@.len() >= self.settings.agent_n
        &&& self.agents@.len() <= MAX_AGENT_N
        &&& forall|i: int| 0 <= i < self.agents@.len() ==> (#[trigger] self.agents@[i]).wf()
    }

    /// Create a simulation: a zeroed field and a population of exactly
    /// `capacity` agents spawned under `pattern`.
    pub fn new(settings: Settings, capacity: u32, pattern: SpawnPattern, rng: &mut StdRng) -> (sim:
        Simulation)
        requires
            settings.valid(),
            settings.agent_n <= capacity <= MAX_AGENT_N,
        ensures
            sim.wf(),
            sim.settings == settings,
            sim.agents@.len() == capacity,
            forall|k: int| 0 <= k < sim.trail_map@.len() ==> sim.trail_map@[k] == 0,
    {
        let trail_map = zero_field(&settings);
        let agents = spawn_population(capacity, pattern, &settings, rng);
        Simulation { settings, agents, trail_map }
    }

    /// Replace the field by a zeroed one sized for the current grid.
    pub fn reset_field(&mut self)
        requires
            old(self).wf(),
        ensures
            final(self).wf(),
            final(self).settings == old(self).settings,
            final(self).agents == old(self).agents,
            forall|k: int|
                0 <= k < final(self).trail_map@.len() ==> final(self).trail_map@[k] == 0,
    {
        self.trail_map = zero_field(&self.settings);
    }

    /// Respawn the population under `pattern`, keeping its capacity; the
    /// parameters and the field are untouched.
    pub fn reset_population(&mut self, pattern: SpawnPattern, rng: &mut StdRng)
        requires
            old(self).wf(),
        ensures
            final(self).wf(),
            final(self).settings == old(self).settings,
            final(self).trail_map == old(self).trail_map,
            final(self).agents@.len() == old(self).agents@.len(),
            pattern == SpawnPattern::Uniform ==> forall|i: int|
                0 <= i < final(self).agents@.len() ==> (#[trigger] final(self).agents@[i]).in_grid(old(self).settings),
            pattern == SpawnPattern::CircularBurst ==> forall|i: int|
                0 <= i < final(self).agents@.len() ==> circle_spawned(
                    #[trigger] final(self).agents@[i],
                    old(self).settings,
                ),
            pattern == SpawnPattern::StarBurst ==> forall|i: int|
                0 <= i < final(self).agents@.len() ==> (#[trigger] final(self).agents@[i]).pos_x
                    == old(self).settings.size_x * FP / 2 && final(self).agents@[i].pos_y == old(self).settings.size_y * FP / 2,
    {
        let capacity: u32 = self.agents.len() as u32;
        self.agents = spawn_population(capacity, pattern, &self.settings, rng);
    }

    /// The field between ticks, for rendering; no tick is running, so
    /// the snapshot is consistent.
    pub fn read_field(&self) -> (m: &TrailMap)
        ensures
            m@ == self.trail_map@,
    {
        &self.trail_map
    }

    /// Advance one tick: sense/rotate, move, deposit, diffuse+decay, in
    /// that fixed order, once each, over the active agent prefix.
    ///
    /// `tick_relation` in the contract pins the tick's whole effect down
    /// to the random draws: the new state must be the four stages
    /// composed in that order, none skipped or repeated.  The remaining
    /// clauses surface its standing guarantees: the population keeps its
    /// size and stays well-formed, every active agent ends the tick
    /// inside the grid, inactive agents are untouched, any field ceiling
    /// at or above the deposit weight is preserved, and with no active
    /// agents the whole tick is exactly one diffuse-and-decay pass over
    /// the unchanged field.
    pub fn advance_tick(&mut self, rng: &mut StdRng)
        requires
            old(self).wf(),
        ensures
            final(self).wf(),
            final(self).settings == old(self).settings,
            final(self).agents@.len() == old(self).agents@.len(),
            final(self).trail_map@.len() == old(self).trail_map@.len(),
            forall|i: int|
                0 <= i < old(self).settings.agent_n ==> (#[trigger] final(self).agents@[i]).in_grid(old(self).settings),
            forall|i: int|
                old(self).settings.agent_n <= i < final(self).agents@.len() ==> (#[trigger] final(self).agents@[i]) == old(self).agents@[i],
            tick_relation(
                old(self).settings,
                old(self).agents@,
                old(self).trail_map@,
                final(self).agents@,
                final(self).trail_map@,
            ),
            (forall|k: int|
                0 <= k < old(self).trail_map@.len() ==> old(self).trail_map@[k]
                    <= old(self).settings.trail_weight) ==> (forall|k: int|
                0 <= k < final(self).trail_map@.len() ==> final(self).trail_map@[k] <= old(self).settings.trail_weight),
            old(self).settings.agent_n == 0 ==> final(self).agents@ == old(self).agents@
                && (forall|x: int, y: int|
                0 <= x < old(self).settings.size_x && 0 <= y < old(self).settings.size_y
                    ==> final(self).trail_map@[x + old(self).settings.size_x * y] == #[trigger]
                    dd_cell(old(self).trail_map@, old(self).settings, x, y)),
    {
        let s: Settings = self.settings;
        let ghost m0 = self.trail_map@;
        let ghost a0 = self.agents@;
        cpu_sense_rotate(&self.trail_map, &mut self.agents, &s, rng);
        let ghost a1 = self.agents@;
        cpu_move(&mut self.agents, &s, rng);
        let ghost a2 = self.agents@;
        cpu_deposit(&self.agents, &mut self.trail_map, &s);
        let ghost m1 = self.trail_map@;
        cpu_diffuse_decay(&mut self.trail_map, &s);
        proof {
            assert(sense_rotate_step(a0, a1, m0, s));
            assert(move_step(a1, a2, s));
            assert(deposit_step(m0, m1, a2, s));
            assert(diffuse_decay_step(m1, self.trail_map@, s));
            assert(tick_relation(s, a0, m0, self.agents@, self.trail_map@));
            let w = s.size_x as int;
            let h = s.size_y as int;
            let n = self.trail_map@.len() as int;
            let b = s.trail_weight as int;
            if forall|k: int| 0 <= k < m0.len() ==> m0[k] <= b {
                assert forall|k: int| 0 <= k < m1.len() implies m1[k] <= b by {
                    if exists|i: int|
                        0 <= i < s.agent_n && #[trigger] deposit_index(a2[i], s) == k {
                    }
                }
                assert forall|k: int| 0 <= k < n implies self.trail_map@[k] <= b by {
                    let x = k % w;
                    let y = k / w;
                    vstd::arithmetic::div_mod::lemma_fundamental_div_mod(k, w);
                    vstd::arithmetic::div_mod::lemma_mod_bound(k, w);
                    vstd::arithmetic::div_mod::lemma_div_pos_is_pos(k, w);
                    assert(k < w * h);
                    vstd::arithmetic::div_mod::lemma_multiply_divide_lt(k, w, h);
                    assert(self.trail_map@[x + s.size_x * y] == dd_cell(m1, s, x, y));
                    lemma_dd_cell_bounds(m1, s, x, y, b);
                }
            }
            if s.agent_n == 0 {
                assert(a2 =~= a0);
                assert(m1 =~= m0);
            }
        }
    }
}

} // verus!
