use aimfire::camera::CameraTransform;
use aimfire::camera::PixelPos;
use aimfire::camera::WindowSize;
use aimfire::camera::pixel_to_world;

fn identity_at(tx: i64, ty: i64) -> CameraTransform {
    CameraTransform { m00: 1, m01: 0, m10: 0, m11: 1, tx, ty }
}

#[test]
fn center_pixel_maps_to_camera_translation() {
    let cam = identity_at(5, -3);
    let size = WindowSize { width: 800, height: 600 };
    let w = pixel_to_world(&cam, &size, &PixelPos { x: 400, y: 300 });
    assert_eq!(w.x, 5);
    assert_eq!(w.y, -3);
}

#[test]
fn corner_pixel_is_offset_by_half_window() {
    let cam = identity_at(0, 0);
    let size = WindowSize { width: 100, height: 50 };
    let w = pixel_to_world(&cam, &size, &PixelPos { x: 0, y: 0 });
    assert_eq!(w.x, -50);
    assert_eq!(w.y, -25);
}

#[test]
fn linear_part_scales_centered_position() {
    let cam = CameraTransform { m00: 2, m01: 0, m10: 0, m11: 2, tx: 0, ty: 0 };
    let size = WindowSize { width: 100, height: 50 };
    let w = pixel_to_world(&cam, &size, &PixelPos { x: 0, y: 0 });
    assert_eq!(w.x, -100);
    assert_eq!(w.y, -50);
}

#[test]
fn off_diagonal_entries_mix_axes() {
    let cam = CameraTransform { m00: 0, m01: -1, m10: 1, m11: 0, tx: 7, ty: 8 };
    let size = WindowSize { width: 0, height: 0 };
    let w = pixel_to_world(&cam, &size, &PixelPos { x: 10, y: 4 });
    assert_eq!(w.x, -4 + 7);
    assert_eq!(w.y, 10 + 8);
}

#[test]
fn odd_window_size_halves_round_down() {
    let cam = identity_at(0, 0);
    let size = WindowSize { width: 7, height: 3 };
    let w = pixel_to_world(&cam, &size, &PixelPos { x: 0, y: 0 });
    assert_eq!(w.x, -3);
    assert_eq!(w.y, -1);
}
