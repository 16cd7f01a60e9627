use physarum::config::{Settings, FP};
use physarum::simulation::{Agent, Simulation, SpawnPattern};
use rand::rngs::StdRng;
use rand::SeedableRng;

fn small_settings() -> Settings {
    Settings {
        size_x: 6,
        size_y: 6,
        agent_n: 3,
        agent_speed: FP,
        agent_turn: 35,
        spawn_radius: 2 * FP,
        sensor_angle: 35,
        sensor_distance: FP,
        sensor_size: 1,
        trail_weight: 2000,
        trail_decay: 50,
        trail_diffuse: 512,
    }
}

#[test]
fn field_stays_within_deposit_weight() {
    // Starting from a zeroed field, no cell ever exceeds the deposit
    // weight, tick after tick.
    let s = small_settings();
    let mut rng = StdRng::seed_from_u64(11);
    let mut sim = Simulation::new(s, 8, SpawnPattern::Uniform, &mut rng);
    for _ in 0..20 {
        sim.advance_tick(&mut rng);
        assert!(sim.read_field().iter().all(|&v| v <= 2000));
    }
}

#[test]
fn active_agents_stay_inside_grid() {
    let s = small_settings();
    let mut rng = StdRng::seed_from_u64(13);
    let mut sim = Simulation::new(s, 8, SpawnPattern::CircularBurst, &mut rng);
    for _ in 0..15 {
        sim.advance_tick(&mut rng);
        for a in sim.agents.iter().take(s.agent_n as usize) {
            assert!(0 <= a.pos_x && a.pos_x < 6 * FP as i64);
            assert!(0 <= a.pos_y && a.pos_y < 6 * FP as i64);
            assert!(a.angle < 360);
        }
    }
}

#[test]
fn zero_agents_leave_only_diffuse_decay() {
    // With no active agents a tick touches nothing but the field, and on
    // a uniform field diffusion is exact, so each tick subtracts exactly
    // the decay amount until the field reaches zero.
    let mut s = small_settings();
    s.agent_n = 0;
    s.trail_decay = 300;
    s.trail_diffuse = 100;
    let mut rng = StdRng::seed_from_u64(17);
    let mut sim = Simulation::new(s, 4, SpawnPattern::Uniform, &mut rng);
    for v in sim.trail_map.iter_mut() {
        *v = 5000;
    }
    let agents_before = sim.agents.clone();
    sim.advance_tick(&mut rng);
    assert_eq!(sim.agents, agents_before);
    assert!(sim.read_field().iter().all(|&v| v == 4700));
    sim.advance_tick(&mut rng);
    assert!(sim.read_field().iter().all(|&v| v == 4400));
    for _ in 0..20 {
        sim.advance_tick(&mut rng);
    }
    assert!(sim.read_field().iter().all(|&v| v == 0));
}

#[test]
fn spawn_uniform_in_grid() {
    // Uniform spawning puts every agent inside the grid with a valid
    // heading; a draw outside its stated bound would land outside.
    let s = small_settings();
    let mut rng = StdRng::seed_from_u64(19);
    let agents = physarum::simulation::spawn_population(64, SpawnPattern::Uniform, &s, &mut rng);
    assert_eq!(agents.len(), 64);
    for a in agents.iter() {
        assert!(0 <= a.pos_x && a.pos_x < 6 * FP as i64);
        assert!(0 <= a.pos_y && a.pos_y < 6 * FP as i64);
        assert!(a.angle < 360);
    }
}

#[test]
fn spawn_star_all_at_center() {
    let s = small_settings();
    let mut rng = StdRng::seed_from_u64(23);
    let agents = physarum::simulation::spawn_population(16, SpawnPattern::StarBurst, &s, &mut rng);
    for a in agents.iter() {
        assert_eq!(a.pos_x, 3 * FP as i64);
        assert_eq!(a.pos_y, 3 * FP as i64);
        assert!(a.angle < 360);
    }
}

#[test]
fn spawn_circle_zero_radius_is_center() {
    // With a zero spawn radius the circular burst degenerates to the
    // center; the heading still faces back inward.
    let mut s = small_settings();
    s.spawn_radius = 0;
    let mut rng = StdRng::seed_from_u64(29);
    for _ in 0..10 {
        let a = Agent::new_circle(&s, &mut rng);
        assert_eq!(a.pos_x, 3 * FP as i64);
        assert_eq!(a.pos_y, 3 * FP as i64);
        assert!(a.angle < 360);
    }
}

#[test]
fn spawn_circle_stays_within_radius_box() {
    let mut s = small_settings();
    s.size_x = 100;
    s.size_y = 100;
    s.spawn_radius = 4 * FP;
    let mut rng = StdRng::seed_from_u64(31);
    for _ in 0..50 {
        let a = Agent::new_circle(&s, &mut rng);
        let cx = 50 * FP as i64;
        let dx = (a.pos_x - cx).abs();
        let dy = (a.pos_y - cx).abs();
        assert!(dx <= 4 * FP as i64);
        assert!(dy <= 4 * FP as i64);
    }
}

#[test]
fn reset_field_zeroes_and_reset_population_respawns() {
    let s = small_settings();
    let mut rng = StdRng::seed_from_u64(37);
    let mut sim = Simulation::new(s, 8, SpawnPattern::Uniform, &mut rng);
    for _ in 0..3 {
        sim.advance_tick(&mut rng);
    }
    sim.reset_field();
    assert!(sim.read_field().iter().all(|&v| v == 0));
    sim.reset_population(SpawnPattern::StarBurst, &mut rng);
    assert_eq!(sim.agents.len(), 8);
    for a in sim.agents.iter() {
        assert_eq!(a.pos_x, 3 * FP as i64);
        assert_eq!(a.pos_y, 3 * FP as i64);
    }
}
