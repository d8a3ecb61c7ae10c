use explosion_scene::effect::{setup_effect, Rgba, Vec3};
use explosion_scene::scene::{
    cleanup, keyboard_input_system, setup, spawn, spawn_position, EffectInstance, Marker,
    Scene, INSTANCE_LIFETIME, MARKER_RADIUS, SPAWN_PERIOD,
};
use explosion_scene::timer::{Lifetime, SpawnTimer};

const SECOND: u64 = 1_000_000_000;

fn new_scene() -> Scene {
    setup(setup_effect())
}

fn instance(entity: u64, elapsed: u64, live: bool) -> EffectInstance {
    EffectInstance {
        entity,
        position: spawn_position(),
        lifetime: Lifetime::from_parts(SECOND, elapsed).unwrap(),
        live,
    }
}

#[test]
fn scene_constants_are_one_second_and_four_units() {
    assert_eq!(SPAWN_PERIOD, SECOND);
    assert_eq!(INSTANCE_LIFETIME, SECOND);
    assert_eq!(MARKER_RADIUS, 4000);
    assert_eq!(spawn_position(), Vec3 { x: 0, y: 20000, z: 0 });
}

#[test]
fn setup_places_the_camera_and_leaves_the_store_empty() {
    let scene = new_scene();
    let camera = scene.camera();
    assert_eq!(camera.position, Vec3 { x: 0, y: 20000, z: 50000 });
    assert!(camera.hdr);
    assert_eq!(camera.clear_color, Rgba { r: 0, g: 0, b: 0, a: 1000 });
    assert_eq!(scene.timer().period_nanos(), SECOND);
    assert_eq!(scene.timer().elapsed_nanos(), 0);
    assert!(scene.instances().is_empty());
    assert!(scene.markers().is_empty());
    assert_eq!(scene.next_entity(), 0);
    assert!(scene.has_room());
}

#[test]
fn setup_keeps_the_published_template() {
    let scene = new_scene();
    assert_eq!(scene.effect().effect.capacity, 32768);
    assert_eq!(scene.effect().effect.gradient.len(), 2);
}

#[test]
fn input_trigger_asks_for_a_marker_only_while_held() {
    assert_eq!(keyboard_input_system(false), None);
    assert_eq!(
        keyboard_input_system(true),
        Some(Marker {
            position: Vec3 { x: 0, y: 20000, z: 0 },
            radius: 4000,
            color: Rgba { r: 1000, g: 1000, b: 1000, a: 1000 },
        })
    );
}

#[test]
fn spawn_asks_for_nothing_before_the_period() {
    let mut timer = SpawnTimer::new(SECOND).unwrap();
    assert!(spawn(&mut timer, 999_999_999).is_none());
    assert_eq!(timer.elapsed_nanos(), 999_999_999);
}

#[test]
fn spawn_asks_for_one_fresh_instance_when_the_period_is_reached() {
    let mut timer = SpawnTimer::from_parts(SECOND, 500_000_000).unwrap();
    let request = spawn(&mut timer, 600_000_000).unwrap();
    assert_eq!(timer.elapsed_nanos(), 100_000_000);
    assert_eq!(request.position, Vec3 { x: 0, y: 20000, z: 0 });
    assert_eq!(request.lifetime.duration_nanos(), SECOND);
    assert_eq!(request.lifetime.elapsed_nanos(), 0);
    assert!(!request.lifetime.finished());
}

#[test]
fn spawn_asks_once_for_a_frame_of_several_periods() {
    let mut timer = SpawnTimer::new(SECOND).unwrap();
    assert!(spawn(&mut timer, 3_500_000_000).is_some());
    assert_eq!(timer.elapsed_nanos(), 500_000_000);
    assert!(spawn(&mut timer, 400_000_000).is_none());
}

#[test]
fn cleanup_of_nothing_asks_for_nothing() {
    let mut rows: Vec<EffectInstance> = Vec::new();
    assert!(cleanup(&mut rows, SECOND).is_empty());
    assert!(rows.is_empty());
}

#[test]
fn cleanup_advances_every_lifetime() {
    let mut rows = vec![instance(3, 0, true), instance(5, 200_000_000, true)];
    let removed = cleanup(&mut rows, 300_000_000);
    assert!(removed.is_empty());
    assert_eq!(rows.len(), 2);
    assert_eq!(rows[0].entity, 3);
    assert_eq!(rows[0].lifetime.elapsed_nanos(), 300_000_000);
    assert!(rows[0].live);
    assert_eq!(rows[1].entity, 5);
    assert_eq!(rows[1].lifetime.elapsed_nanos(), 500_000_000);
    assert!(rows[1].live);
}

#[test]
fn cleanup_asks_for_the_expired_in_order() {
    let mut rows = vec![
        instance(9, 900_000_000, true),
        instance(4, 100_000_000, true),
        instance(7, 800_000_000, true),
    ];
    let removed = cleanup(&mut rows, 200_000_000);
    assert_eq!(removed, vec![9, 7]);
    assert_eq!(rows.len(), 3);
    assert!(!rows[0].live);
    assert!(rows[0].lifetime.finished());
    assert!(rows[1].live);
    assert_eq!(rows[1].lifetime.elapsed_nanos(), 300_000_000);
    assert!(!rows[2].live);
    assert_eq!(rows[2].lifetime.elapsed_nanos(), SECOND);
}

#[test]
fn cleanup_skips_what_is_already_removed() {
    let mut rows = vec![instance(1, 900_000_000, false), instance(2, 900_000_000, true)];
    let removed = cleanup(&mut rows, 100_000_000);
    assert_eq!(removed, vec![2]);
    assert!(rows[0].lifetime.finished());
    assert!(!rows[0].live);
    assert_eq!(rows[0].entity, 1);
}

#[test]
fn cleanup_run_twice_asks_once() {
    let mut rows = vec![instance(1, 900_000_000, true), instance(2, 0, true)];
    assert_eq!(cleanup(&mut rows, 100_000_000), vec![1]);
    assert!(cleanup(&mut rows, 100_000_000).is_empty());
    assert!(cleanup(&mut rows, 0).is_empty());
    assert_eq!(cleanup(&mut rows, SECOND), vec![2]);
    assert!(cleanup(&mut rows, SECOND).is_empty());
}

#[test]
fn cleanup_does_not_ask_again_for_a_finished_instance_still_held() {
    let mut rows = vec![instance(1, SECOND, true)];
    assert!(cleanup(&mut rows, SECOND).is_empty());
    assert!(rows[0].live);
}

#[test]
fn fire_after_half_a_second_and_six_tenths_then_removal_a_second_later() {
    let mut scene = new_scene();
    assert!(scene.instances().is_empty());

    let first = scene.update(false, 500_000_000);
    assert_eq!(first.spawned, None);
    assert!(first.removed.is_empty());
    assert!(scene.instances().is_empty());

    let second = scene.update(false, 600_000_000);
    assert_eq!(second.spawned, Some(0));
    assert!(second.removed.is_empty());
    assert_eq!(scene.instances().len(), 1);
    let created = scene.instances()[0];
    assert_eq!(created.entity, 0);
    assert_eq!(created.position, Vec3 { x: 0, y: 20000, z: 0 });
    assert_eq!(created.lifetime.duration_nanos(), SECOND);
    assert_eq!(created.lifetime.elapsed_nanos(), 0);
    assert_eq!(created.lifetime.remaining_nanos(), SECOND);
    assert!(created.live);
    assert_eq!(scene.timer().elapsed_nanos(), 100_000_000);

    let third = scene.update(false, SECOND);
    assert_eq!(third.removed, vec![0]);
    assert_eq!(third.spawned, Some(1));
    assert_eq!(scene.instances().len(), 1);
    assert_eq!(scene.instances()[0].entity, 1);

    let mut again = 0;
    for _ in 0..5 {
        let report = scene.update(false, 100_000_000);
        again += report.removed.iter().filter(|e| **e == 0).count();
    }
    assert_eq!(again, 0);
}

#[test]
fn three_held_frames_make_three_markers() {
    let mut scene = new_scene();
    let mut handles = Vec::new();
    for delta in [1u64, 16_666_667, 250_000_000] {
        let report = scene.update(true, delta);
        handles.push(report.marker.unwrap());
    }
    assert_eq!(handles, vec![0, 1, 2]);
    assert_eq!(scene.markers().len(), 3);
    for (i, marker) in scene.markers().iter().enumerate() {
        assert_eq!(marker.entity, i as u64);
        assert_eq!(marker.marker.position, Vec3 { x: 0, y: 20000, z: 0 });
        assert_eq!(marker.marker.radius, 4000);
        assert_eq!(marker.marker.color, Rgba { r: 1000, g: 1000, b: 1000, a: 1000 });
    }
    for _ in 0..20 {
        let report = scene.update(false, SECOND);
        assert_eq!(report.marker, None);
    }
    assert_eq!(scene.markers().len(), 3);
    assert_eq!(scene.markers()[0].entity, 0);
    assert_eq!(scene.markers()[2].entity, 2);
}

#[test]
fn markers_count_the_frames_in_which_the_control_is_held() {
    let mut scene = new_scene();
    let held = [true, true, false, true, false, false, true, true, true, false];
    let mut created = 0;
    for pressed in held {
        let report = scene.update(pressed, 16_000_000);
        assert_eq!(report.marker.is_some(), pressed);
        if pressed {
            created += 1;
        }
        assert_eq!(scene.markers().len(), created);
    }
    assert_eq!(created, 6);
}

#[test]
fn released_control_makes_no_marker() {
    let mut scene = new_scene();
    for _ in 0..10 {
        assert_eq!(scene.update(false, 10_000_000).marker, None);
    }
    assert!(scene.markers().is_empty());
}

#[test]
fn marker_and_instance_of_one_frame_get_handles_in_order() {
    let mut scene = new_scene();
    let report = scene.update(true, SECOND);
    assert_eq!(report.marker, Some(0));
    assert_eq!(report.spawned, Some(1));
    assert_eq!(scene.next_entity(), 2);
    assert_eq!(scene.markers()[0].entity, 0);
    assert_eq!(scene.instances()[0].entity, 1);
}

#[test]
fn instance_is_first_swept_in_the_frame_after_its_creation() {
    let mut scene = new_scene();
    scene.update(false, 900_000_000);
    let report = scene.update(false, 900_000_000);
    assert_eq!(report.spawned, Some(0));
    assert_eq!(scene.instances()[0].lifetime.elapsed_nanos(), 0);
    scene.update(false, 150_000_000);
    assert_eq!(scene.instances()[0].lifetime.elapsed_nanos(), 150_000_000);
}

#[test]
fn no_instance_survives_the_frame_in_which_it_expires() {
    let mut scene = new_scene();
    for n in 0..200u64 {
        let delta = 50_000_000 + (n * 37_000_000) % 400_000_000;
        scene.update(n % 3 == 0, delta);
        for row in scene.instances() {
            assert!(row.live);
            assert!(!row.lifetime.finished());
        }
    }
}

#[test]
fn every_instance_is_removed_once_and_within_a_frame_of_its_lifetime() {
    let mut scene = new_scene();
    let mut clock = 0u64;
    let mut created_at: Vec<(u64, u64)> = Vec::new();
    let mut removed_at: Vec<(u64, u64)> = Vec::new();
    for n in 0..300u64 {
        let delta = 20_000_000 + (n * 73_000_000) % 300_000_000;
        clock += delta;
        let report = scene.update(false, delta);
        for entity in report.removed {
            assert!(removed_at.iter().all(|(e, _)| *e != entity));
            let born = created_at.iter().find(|(e, _)| *e == entity).unwrap().1;
            let lived = clock - born;
            assert!(SECOND <= lived && lived < SECOND + delta);
            removed_at.push((entity, clock));
        }
        if let Some(entity) = report.spawned {
            created_at.push((entity, clock));
        }
    }
    assert!(removed_at.len() > 30);
    assert!(created_at.len() - removed_at.len() <= 2);
}

#[test]
fn despawn_removes_the_instance_and_is_a_no_op_the_second_time() {
    let mut scene = new_scene();
    scene.update(false, SECOND);
    scene.update(false, SECOND);
    let handles: Vec<u64> = scene.instances().iter().map(|r| r.entity).collect();
    assert_eq!(handles, vec![1]);
    assert!(scene.despawn(1));
    assert!(scene.instances().is_empty());
    assert!(!scene.despawn(1));
    assert!(scene.instances().is_empty());
    assert_eq!(scene.next_entity(), 2);
}

#[test]
fn despawn_of_an_unknown_handle_changes_nothing() {
    let mut scene = new_scene();
    scene.update(true, SECOND);
    assert!(!scene.despawn(0));
    assert!(!scene.despawn(77));
    assert_eq!(scene.instances().len(), 1);
    assert_eq!(scene.markers().len(), 1);
}

#[test]
fn sweep_does_not_ask_for_what_was_despawned() {
    let mut scene = new_scene();
    scene.update(false, SECOND);
    assert_eq!(scene.instances()[0].entity, 0);
    assert!(scene.despawn(0));
    let report = scene.update(false, SECOND);
    assert!(report.removed.is_empty());
    assert_eq!(report.spawned, Some(1));
}

#[test]
fn despawn_leaves_the_other_instances_in_order() {
    let mut scene = new_scene();
    scene.update(false, SECOND);
    scene.update(false, 400_000_000);
    scene.update(false, 600_000_000);
    let report = scene.update(false, 0);
    assert!(report.removed.is_empty());
    let handles: Vec<u64> = scene.instances().iter().map(|r| r.entity).collect();
    assert_eq!(handles, vec![1]);
    scene.update(false, 999_999_999);
    scene.update(false, 1);
    let handles: Vec<u64> = scene.instances().iter().map(|r| r.entity).collect();
    assert_eq!(handles, vec![2]);
}
