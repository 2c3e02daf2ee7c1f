use aimfire::aim::CursorEvent;
use aimfire::aim::WindowInfo;
use aimfire::aim::input_aim_system;
use aimfire::camera::CameraTransform;
use aimfire::camera::PixelPos;
use aimfire::camera::WindowSize;
use aimfire::camera::WorldPos;
use aimfire::camera::pixel_to_world;
use aimfire::physics::PhysicsConfig;
use aimfire::physics::setup_physics;
use aimfire::projectiles::BULLET_LIFETIME_MILLIS;
use aimfire::projectiles::ProjectileWorld;

#[test]
fn new_world_is_empty() {
    let w = ProjectileWorld::new();
    assert_eq!(w.len(), 0);
    assert!(w.live().is_empty());
}

#[test]
fn spawn_places_bullet_exactly_at_origin() {
    let mut w = ProjectileWorld::new();
    let origin = WorldPos { x: -17, y: 42 };
    let e = w.spawn_bullet(origin, 900);
    assert_eq!(w.len(), 1);
    let p = w.live()[0];
    assert_eq!(p.entity, e);
    assert_eq!(p.position, origin);
    assert_eq!(p.destroy.time_to_destroy, 900);
}

#[test]
fn spawned_bullets_get_distinct_ids() {
    let mut w = ProjectileWorld::new();
    let a = w.spawn_bullet(WorldPos { x: 0, y: 0 }, 10);
    let b = w.spawn_bullet(WorldPos { x: 0, y: 0 }, 10);
    let c = w.spawn_bullet(WorldPos { x: 0, y: 0 }, 10);
    assert_ne!(a, b);
    assert_ne!(b, c);
    assert_ne!(a, c);
}

#[test]
fn sweep_removes_only_past_deadlines() {
    let mut w = ProjectileWorld::new();
    w.spawn_bullet(WorldPos { x: 1, y: 0 }, 100);
    w.spawn_bullet(WorldPos { x: 2, y: 0 }, 200);
    w.spawn_bullet(WorldPos { x: 3, y: 0 }, 300);
    w.destroy_after(200);
    assert_eq!(w.len(), 2);
    assert_eq!(w.live()[0].destroy.time_to_destroy, 200);
    assert_eq!(w.live()[1].destroy.time_to_destroy, 300);
}

#[test]
fn sweep_keeps_bullet_at_exact_deadline() {
    let mut w = ProjectileWorld::new();
    w.spawn_bullet(WorldPos { x: 0, y: 0 }, 500);
    w.destroy_after(500);
    assert_eq!(w.len(), 1);
    w.destroy_after(501);
    assert_eq!(w.len(), 0);
}

#[test]
fn sweep_twice_equals_sweep_once() {
    let mut once = ProjectileWorld::new();
    let mut twice = ProjectileWorld::new();
    for t in [100u64, 250, 400, 700] {
        once.spawn_bullet(WorldPos { x: t as i64, y: 0 }, t);
        twice.spawn_bullet(WorldPos { x: t as i64, y: 0 }, t);
    }
    once.destroy_after(300);
    twice.destroy_after(300);
    twice.destroy_after(300);
    assert_eq!(once.live(), twice.live());
}

#[test]
fn sweep_of_empty_world_is_a_no_op() {
    let mut w = ProjectileWorld::new();
    w.destroy_after(1_000_000);
    assert_eq!(w.len(), 0);
}

#[test]
fn bullet_count_returns_to_zero_after_lifetime() {
    let mut w = ProjectileWorld::new();
    let spawn_time: u64 = 1000;
    w.spawn_bullet(WorldPos { x: 0, y: 0 }, spawn_time + BULLET_LIFETIME_MILLIS);
    // Frames up to one lifetime past the spawn keep the bullet alive.
    w.destroy_after(spawn_time + 1);
    w.destroy_after(spawn_time + BULLET_LIFETIME_MILLIS);
    assert_eq!(w.len(), 1);
    // The first frame past the deadline removes it for good.
    w.destroy_after(spawn_time + BULLET_LIFETIME_MILLIS + 1);
    assert_eq!(w.len(), 0);
    w.destroy_after(spawn_time + BULLET_LIFETIME_MILLIS + 2);
    assert_eq!(w.len(), 0);
}

#[test]
fn aim_then_spawn_equals_direct_pixel_to_world() {
    let cam = CameraTransform { m00: 1, m01: 0, m10: 0, m11: 1, tx: 30, ty: -40 };
    let size = WindowSize { width: 640, height: 480 };
    let pixel = PixelPos { x: 100, y: 200 };
    let events = vec![CursorEvent { window_id: 1, pos: pixel }];
    let windows = vec![WindowInfo { id: 1, size }];

    let bullet = input_aim_system(2000, true, &events, Some(cam), &windows)
        .unwrap()
        .unwrap();
    let mut world = ProjectileWorld::new();
    world.spawn_bullet(bullet.origin, bullet.time_to_destroy);

    let direct = pixel_to_world(&cam, &size, &pixel);
    assert_eq!(world.live()[0].position, direct);
    assert_eq!(direct, WorldPos { x: 100 - 320 + 30, y: 200 - 240 - 40 });
}

#[test]
fn setup_physics_disables_gravity_and_sets_unit_scale() {
    let mut config = PhysicsConfig { gravity_x: 3, gravity_y: -98, scale: 64 };
    setup_physics(&mut config);
    assert_eq!(config.gravity_x, 0);
    assert_eq!(config.gravity_y, 0);
    assert_eq!(config.scale, 1);
}
