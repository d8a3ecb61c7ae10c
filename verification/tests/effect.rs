use explosion_scene::effect::{
    setup_effect, ColorBlendMask, ColorBlendMode, EffectTemplate, GradientKey, Rgba, Vec3,
    FULL_RATIO, NANOS_PER_SECOND, UNIT,
};

fn template() -> EffectTemplate {
    setup_effect().effect
}

#[test]
fn explosion_template_has_the_declared_values() {
    let t = template();
    assert_eq!(t.capacity, 32768);
    assert_eq!(t.spawn_count, 5);
    assert_eq!(t.center, Vec3 { x: 0, y: 0, z: 0 });
    assert_eq!(t.radius, 2 * UNIT);
    assert_eq!(t.speed, 6 * UNIT);
    assert_eq!(t.particle_lifetime, NANOS_PER_SECOND);
    assert_eq!(t.accel, Vec3 { x: 0, y: -3 * UNIT, z: 0 });
    assert_eq!(t.blend, ColorBlendMode::Modulate);
    assert_eq!(t.mask, ColorBlendMask { r: true, g: true, b: true, a: true });
}

#[test]
fn explosion_gradient_runs_from_red_to_transparent_black() {
    let t = template();
    assert_eq!(
        t.gradient,
        vec![
            GradientKey { ratio: 0, color: Rgba { r: 1000, g: 0, b: 0, a: 1000 } },
            GradientKey { ratio: FULL_RATIO, color: Rgba { r: 0, g: 0, b: 0, a: 0 } },
        ]
    );
}

#[test]
fn explosion_template_is_valid() {
    assert!(template().is_valid());
}

#[test]
fn explosion_particles_live_as_long_as_their_instance() {
    assert_eq!(template().particle_lifetime, explosion_scene::scene::INSTANCE_LIFETIME);
}

#[test]
fn template_without_capacity_is_invalid() {
    let mut t = template();
    t.capacity = 0;
    assert!(!t.is_valid());
    t.capacity = 1;
    assert!(t.is_valid());
}

#[test]
fn template_with_negative_radius_is_invalid() {
    let mut t = template();
    t.radius = -1;
    assert!(!t.is_valid());
    t.radius = 0;
    assert!(t.is_valid());
}

#[test]
fn template_with_negative_speed_is_invalid() {
    let mut t = template();
    t.speed = -1;
    assert!(!t.is_valid());
    t.speed = 0;
    assert!(t.is_valid());
}

#[test]
fn template_with_a_key_past_the_lifetime_is_invalid() {
    let mut t = template();
    t.gradient[1].ratio = FULL_RATIO + 1;
    assert!(!t.is_valid());
}

#[test]
fn template_with_falling_keys_is_invalid() {
    let mut t = template();
    t.gradient[0].ratio = 600;
    t.gradient[1].ratio = 400;
    assert!(!t.is_valid());
    t.gradient.push(GradientKey { ratio: 500, color: Rgba { r: 0, g: 0, b: 0, a: 0 } });
    assert!(!t.is_valid());
}

#[test]
fn template_with_equal_keys_or_none_is_valid() {
    let mut t = template();
    t.gradient[0].ratio = 500;
    t.gradient[1].ratio = 500;
    assert!(t.is_valid());
    t.gradient.clear();
    assert!(t.is_valid());
}
