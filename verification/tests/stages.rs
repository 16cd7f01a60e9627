use physarum::config::{Settings, FP};
use physarum::field::render_map;
use physarum::simulation::{
    agent_sense, cpu_deposit, cpu_diffuse_decay, cpu_move, cpu_sense_rotate, Agent,
};
use rand::rngs::StdRng;
use rand::SeedableRng;

fn settings_10x10() -> Settings {
    Settings {
        size_x: 10,
        size_y: 10,
        agent_n: 1,
        agent_speed: FP,
        agent_turn: 35,
        spawn_radius: 0,
        sensor_angle: 35,
        sensor_distance: 2 * FP,
        sensor_size: 0,
        trail_weight: 100,
        trail_decay: 0,
        trail_diffuse: 0,
    }
}

#[test]
fn point_sense_reads_single_forward_cell() {
    // One agent at (5.0, 5.0) heading 0 with the sensor two cells ahead
    // and a zero window half-width: the sensed weight is exactly the
    // field value at cell (7, 5).
    let s = settings_10x10();
    let mut map = vec![0u32; 100];
    map[7 + 10 * 5] = 42;
    let agent = Agent { pos_x: 5 * FP as i64, pos_y: 5 * FP as i64, angle: 0 };
    assert_eq!(agent_sense(&map, &agent, 0, &s), 42);
}

#[test]
fn sense_window_sums_and_clamps() {
    // Half-width 1 around the probed cell (7, 5): nine cells summed.
    let mut s = settings_10x10();
    s.sensor_size = 1;
    let mut map = vec![1u32; 100];
    map[7 + 10 * 5] = 50;
    let agent = Agent { pos_x: 5 * FP as i64, pos_y: 5 * FP as i64, angle: 0 };
    assert_eq!(agent_sense(&map, &agent, 0, &s), 50 + 8);
    // A probe beyond the edge clamps to the edge column: heading 0 from
    // (9.5, 5.0) probes at x = 11.5, clamped to column 9.
    let far = Agent { pos_x: 10 * FP as i64 - FP as i64 / 2, pos_y: 5 * FP as i64, angle: 0 };
    s.sensor_size = 0;
    let mut edge = vec![0u32; 100];
    edge[9 + 10 * 5] = 7;
    assert_eq!(agent_sense(&edge, &far, 0, &s), 7);
}

#[test]
fn forward_strongest_keeps_heading() {
    // Forward sensor reads 42, both side sensors read 0, so the steering
    // decision leaves the heading untouched whatever the draw was.
    let mut s = settings_10x10();
    s.sensor_angle = 90;
    let mut map = vec![0u32; 100];
    map[7 + 10 * 5] = 42;
    let mut agents = vec![Agent { pos_x: 5 * FP as i64, pos_y: 5 * FP as i64, angle: 0 }];
    let mut rng = StdRng::seed_from_u64(7);
    cpu_sense_rotate(&map, &mut agents, &s, &mut rng);
    assert_eq!(agents[0].angle, 0);
    assert_eq!(agents[0].pos_x, 5 * FP as i64);
    assert_eq!(agents[0].pos_y, 5 * FP as i64);
}

#[test]
fn move_advances_along_heading() {
    // Heading 0 at speed 1.0 moves exactly one cell along x.
    let s = settings_10x10();
    let mut agents = vec![Agent { pos_x: 5 * FP as i64, pos_y: 5 * FP as i64, angle: 0 }];
    let mut rng = StdRng::seed_from_u64(1);
    cpu_move(&mut agents, &s, &mut rng);
    assert_eq!(agents[0].pos_x, 6 * FP as i64);
    assert_eq!(agents[0].pos_y, 5 * FP as i64);
    assert_eq!(agents[0].angle, 0);
}

#[test]
fn boundary_clamps_and_rerandomizes_heading() {
    // An agent at (width - 0.5, 5.0) heading 0 at speed 1.0 would leave
    // the grid; it is clamped to x = width - 1 and gets a fresh heading.
    let s = settings_10x10();
    let start_x = 10 * FP as i64 - FP as i64 / 2;
    let mut agents = vec![Agent { pos_x: start_x, pos_y: 5 * FP as i64, angle: 0 }];
    let mut rng = StdRng::seed_from_u64(3);
    cpu_move(&mut agents, &s, &mut rng);
    assert_eq!(agents[0].pos_x, 9 * FP as i64);
    assert_eq!(agents[0].pos_y, 5 * FP as i64);
    assert!(agents[0].angle < 360);
    // Positions stay strictly inside the grid.
    assert!(agents[0].pos_x < 10 * FP as i64);
    assert!(agents[0].pos_y < 10 * FP as i64);
}

#[test]
fn deposit_overwrites_single_cell() {
    // Deposit writes the weight into the floored cell and nothing else;
    // a second agent in the same cell leaves the same value as one.
    let s = settings_10x10();
    let mut map = vec![0u32; 100];
    let agents = vec![
        Agent { pos_x: 5 * FP as i64 + 100, pos_y: 5 * FP as i64 + 200, angle: 0 },
    ];
    cpu_deposit(&agents, &mut map, &s);
    for k in 0..100 {
        if k == 5 + 10 * 5 {
            assert_eq!(map[k], 100);
        } else {
            assert_eq!(map[k], 0);
        }
    }
    let mut s2 = s;
    s2.agent_n = 2;
    s2.trail_weight = 77;
    let two = vec![
        Agent { pos_x: 3 * FP as i64 + 5, pos_y: 4 * FP as i64, angle: 0 },
        Agent { pos_x: 3 * FP as i64 + 700, pos_y: 4 * FP as i64 + 1000, angle: 90 },
    ];
    let mut map2 = vec![0u32; 100];
    cpu_deposit(&two, &mut map2, &s2);
    assert_eq!(map2[3 + 10 * 4], 77);
}

#[test]
fn diffuse_identity_with_zero_factor() {
    // With diffuse factor 0 and decay 0 the pass changes nothing.
    let s = settings_10x10();
    let mut map = vec![0u32; 100];
    map[5 + 10 * 5] = 100;
    map[0] = 3;
    let before = map.clone();
    cpu_diffuse_decay(&mut map, &s);
    assert_eq!(map, before);
}

#[test]
fn uniform_field_is_diffusion_fixed_point() {
    // Full-strength diffusion of a field uniform everywhere keeps every
    // cell, edge cells included, at the same value.
    let mut s = settings_10x10();
    s.size_x = 8;
    s.size_y = 8;
    s.trail_diffuse = FP;
    s.trail_decay = 0;
    let mut map = vec![7000u32; 64];
    cpu_diffuse_decay(&mut map, &s);
    assert!(map.iter().all(|&v| v == 7000));
}

#[test]
fn diffuse_blend_exact_values() {
    // A 2x1 grid of [900, 90] with a half blend: the clamped window of
    // cell 0 samples its own column twice, so its average is
    // (6 * 900 + 3 * 90) / 9 = 630 and the blend gives 765; cell 1 gets
    // (3 * 900 + 6 * 90) / 9 = 360 and the blend gives 225.
    let mut s = settings_10x10();
    s.size_x = 2;
    s.size_y = 1;
    s.trail_diffuse = 512;
    s.trail_decay = 0;
    let mut map = vec![900u32, 90u32];
    cpu_diffuse_decay(&mut map, &s);
    assert_eq!(map, vec![765u32, 225u32]);
}

#[test]
fn decay_subtracts_with_floor_at_zero() {
    let mut s = settings_10x10();
    s.size_x = 2;
    s.size_y = 1;
    s.trail_diffuse = 0;
    s.trail_decay = 30;
    let mut map = vec![100u32, 20u32];
    cpu_diffuse_decay(&mut map, &s);
    assert_eq!(map, vec![70u32, 0u32]);
}

#[test]
fn render_saturates_at_white() {
    let mut s = settings_10x10();
    s.size_x = 2;
    s.size_y = 2;
    let map = vec![0u32, FP, 2 * FP + 512, 300 * FP];
    let px = render_map(&map, &s);
    assert_eq!(px, vec![0u8, 1, 2, 255]);
}
