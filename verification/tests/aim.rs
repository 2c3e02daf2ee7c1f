use aimfire::aim::AimError;
use aimfire::aim::CursorEvent;
use aimfire::aim::WindowInfo;
use aimfire::aim::find_window;
use aimfire::aim::input_aim_system;
use aimfire::aim::last_cursor_event;
use aimfire::camera::CameraTransform;
use aimfire::camera::PixelPos;
use aimfire::camera::WindowSize;
use aimfire::projectiles::BULLET_LIFETIME_MILLIS;

fn identity_camera() -> CameraTransform {
    CameraTransform { m00: 1, m01: 0, m10: 0, m11: 1, tx: 0, ty: 0 }
}

fn one_window(id: u64) -> Vec<WindowInfo> {
    vec![WindowInfo { id, size: WindowSize { width: 800, height: 600 } }]
}

#[test]
fn no_cursor_event_spawns_nothing() {
    let events: Vec<CursorEvent> = vec![];
    let r = input_aim_system(100, true, &events, Some(identity_camera()), &one_window(1));
    assert_eq!(r, Ok(None));
}

#[test]
fn button_up_spawns_nothing() {
    let events = vec![CursorEvent { window_id: 1, pos: PixelPos { x: 10, y: 20 } }];
    let r = input_aim_system(100, false, &events, Some(identity_camera()), &one_window(1));
    assert_eq!(r, Ok(None));
}

#[test]
fn missing_camera_is_reported() {
    let events = vec![CursorEvent { window_id: 1, pos: PixelPos { x: 10, y: 20 } }];
    let r = input_aim_system(100, true, &events, None, &one_window(1));
    assert_eq!(r, Err(AimError::CameraMissing));
}

#[test]
fn missing_window_is_reported() {
    let events = vec![CursorEvent { window_id: 7, pos: PixelPos { x: 10, y: 20 } }];
    let r = input_aim_system(100, true, &events, Some(identity_camera()), &one_window(1));
    assert_eq!(r, Err(AimError::WindowMissing));
}

#[test]
fn click_spawns_at_cursor_with_lifetime_deadline() {
    let events = vec![CursorEvent { window_id: 1, pos: PixelPos { x: 400, y: 300 } }];
    let r = input_aim_system(1000, true, &events, Some(identity_camera()), &one_window(1));
    let b = r.unwrap().unwrap();
    assert_eq!(b.origin.x, 0);
    assert_eq!(b.origin.y, 0);
    assert_eq!(b.time_to_destroy, 1000 + BULLET_LIFETIME_MILLIS);
    assert_eq!(b.time_to_destroy, 1500);
}

#[test]
fn last_cursor_event_wins() {
    let events = vec![
        CursorEvent { window_id: 1, pos: PixelPos { x: 0, y: 0 } },
        CursorEvent { window_id: 1, pos: PixelPos { x: 440, y: 300 } },
    ];
    let r = input_aim_system(0, true, &events, Some(identity_camera()), &one_window(1));
    let b = r.unwrap().unwrap();
    assert_eq!(b.origin.x, 40);
    assert_eq!(b.origin.y, 0);
}

#[test]
fn last_cursor_event_of_empty_batch_is_none() {
    let events: Vec<CursorEvent> = vec![];
    assert_eq!(last_cursor_event(&events), None);
}

#[test]
fn last_cursor_event_takes_newest() {
    let events = vec![
        CursorEvent { window_id: 1, pos: PixelPos { x: 1, y: 1 } },
        CursorEvent { window_id: 2, pos: PixelPos { x: 2, y: 2 } },
    ];
    let ev = last_cursor_event(&events).unwrap();
    assert_eq!(ev.window_id, 2);
    assert_eq!(ev.pos, PixelPos { x: 2, y: 2 });
}

#[test]
fn find_window_returns_first_match() {
    let windows = vec![
        WindowInfo { id: 3, size: WindowSize { width: 1, height: 1 } },
        WindowInfo { id: 5, size: WindowSize { width: 2, height: 2 } },
        WindowInfo { id: 5, size: WindowSize { width: 9, height: 9 } },
    ];
    let w = find_window(&windows, 5).unwrap();
    assert_eq!(w.size, WindowSize { width: 2, height: 2 });
}

#[test]
fn find_window_misses_unknown_id() {
    let windows = one_window(1);
    assert_eq!(find_window(&windows, 2), None);
}
