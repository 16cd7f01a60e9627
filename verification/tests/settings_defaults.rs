use physarum::config::{Settings, FP};

fn scrambled() -> Settings {
    Settings {
        size_x: 10,
        size_y: 20,
        agent_n: 1,
        agent_speed: 5,
        agent_turn: 7,
        spawn_radius: 9,
        sensor_angle: 11,
        sensor_distance: 13,
        sensor_size: 2,
        trail_weight: 17,
        trail_decay: 19,
        trail_diffuse: 21,
    }
}

#[test]
fn default_values() {
    let s = Settings::default();
    assert_eq!(s.size_x, 512);
    assert_eq!(s.size_y, 512);
    assert_eq!(s.agent_n, 6000);
    assert_eq!(s.agent_speed, FP);
    assert_eq!(s.agent_turn, 35);
    assert_eq!(s.spawn_radius, 256 * FP);
    assert_eq!(s.sensor_angle, 35);
    assert_eq!(s.sensor_distance, 3 * FP + FP / 2);
    assert_eq!(s.sensor_size, 1);
    assert_eq!(s.trail_weight, 255 * FP);
    assert_eq!(s.trail_decay, 9 * FP / 5);
    assert_eq!(s.trail_diffuse, 7 * FP / 100);
}

#[test]
fn default_agents_restores_only_agent_fields() {
    let mut s = scrambled();
    s.default_agents();
    assert_eq!(s.agent_n, 6000);
    assert_eq!(s.agent_speed, FP);
    assert_eq!(s.agent_turn, 35);
    assert_eq!(s.size_x, 10);
    assert_eq!(s.sensor_angle, 11);
    assert_eq!(s.trail_weight, 17);
}

#[test]
fn default_sensor_restores_only_sensor_fields() {
    let mut s = scrambled();
    s.default_sensor();
    assert_eq!(s.sensor_angle, 35);
    assert_eq!(s.sensor_distance, 3 * FP + FP / 2);
    assert_eq!(s.sensor_size, 1);
    assert_eq!(s.agent_n, 1);
    assert_eq!(s.trail_decay, 19);
}

#[test]
fn default_trail_restores_only_trail_fields() {
    let mut s = scrambled();
    s.default_trail();
    assert_eq!(s.trail_weight, 255 * FP);
    assert_eq!(s.trail_decay, 9 * FP / 5);
    assert_eq!(s.trail_diffuse, 7 * FP / 100);
    assert_eq!(s.agent_speed, 5);
    assert_eq!(s.size_y, 20);
}
