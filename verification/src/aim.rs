//! Aim-and-fire: deciding, from one frame's input, whether a click spawns a
//! bullet and where.
//!
//! A bullet is spawned exactly when the left mouse button is held and at
//! least one cursor-move event arrived since the last frame.  The most
//! recent cursor-move event wins; its position is mapped to world space
//! through the camera transform of its window.  A missing camera or window
//! is reported as a recoverable error instead of aborting the frame.

use vstd::prelude::*;
use crate::camera::CameraTransform;
use crate::camera::PixelPos;
use crate::camera::WindowSize;
use crate::camera::WorldPos;
use crate::camera::camera_in_range;
use crate::camera::pixel_in_range;
use crate::camera::size_in_range;
use crate::camera::pixel_to_world;
use crate::camera::pixel_to_world_x;
use crate::camera::pixel_to_world_y;
use crate::projectiles::BULLET_LIFETIME_MILLIS;

verus! {

/// A cursor-move event: the window it happened in and the new cursor
/// position in pixels.
#[derive(Clone, Copy, PartialEq, Eq, Structural, Debug)]
pub struct CursorEvent {
    pub window_id: u64,
    pub pos: PixelPos,
}

/// What the aim decision needs to know of a window: its id and its size.
#[derive(Clone, Copy, PartialEq, Eq, Structural, Debug)]
pub struct WindowInfo {
    pub id: u64,
    pub size: WindowSize,
}

/// A lookup the aim decision depends on failed for this frame.
#[derive(Clone, Copy, PartialEq, Eq, Structural, Debug)]
pub enum AimError {
    /// No camera entity was available for the pixel-to-world conversion.
    CameraMissing,
    /// The window the cursor event refers to was not found.
    WindowMissing,
}

/// The order to spawn one bullet: where to place it and when the despawn
/// sweep is to remove it.
#[derive(Clone, Copy, PartialEq, Eq, Structural, Debug)]
pub struct BulletSpawn {
    pub origin: WorldPos,
    pub time_to_destroy: u64,
}

/// The first window with the given id, searched front to back.
pub open spec fn find_window_spec(windows: Seq<WindowInfo>, id: u64) -> Option<WindowInfo>
    decreases windows.len(),
{
    if windows.len() == 0 {
        None
    } else if windows.first().id == id {
        Some(windows.first())
    } else {
        find_window_spec(windows.drop_first(), id)
    }
}

/// The bullet that a successful aim decision orders: placed at the
/// pixel-to-world image of the cursor position, to be destroyed one bullet
/// lifetime after the current elapsed time.
pub open spec fn aimed_bullet(
    now: u64,
    cam: CameraTransform,
    size: WindowSize,
    pos: PixelPos,
) -> BulletSpawn {
    BulletSpawn {
        origin: WorldPos {
            x: pixel_to_world_x(cam, size, pos) as i64,
            y: pixel_to_world_y(cam, size, pos) as i64,
        },
        time_to_destroy: (now + BULLET_LIFETIME_MILLIS) as u64,
    }
}

/// The whole aim decision for one frame.  `Ok(None)` means no bullet this
/// frame: the button is up, or no cursor-move event arrived.  Otherwise the
/// last cursor-move event is taken; a missing camera or window turns into
/// the matching error, and else the bullet order is produced.
pub open spec fn aim_decision_spec(
    now: u64,
    left_pressed: bool,
    events: Seq<CursorEvent>,
    camera: Option<CameraTransform>,
    windows: Seq<WindowInfo>,
) -> Result<Option<BulletSpawn>, AimError> {
    if !left_pressed || events.len() == 0 {
        Ok(None)
    } else {
        let ev = events.last();
        match camera {
            None => Err(AimError::CameraMissing),
            Some(cam) => match find_window_spec(windows, ev.window_id) {
                None => Err(AimError::WindowMissing),
                Some(w) => Ok(Some(aimed_bullet(now, cam, w.size, ev.pos))),
            },
        }
    }
}

/// The most recent cursor-move event of the frame, if any arrived.
pub fn last_cursor_event(events: &Vec<CursorEvent>) -> (r: Option<CursorEvent>)
    ensures
        events@.len() == 0 ==> r is None,
        events@.len() > 0 ==> r == Some(events@.last()),
{
    if events.len() == 0 {
        None
    } else {
        Some(events[events.len() - 1])
    }
}

/// Looks a window up by id, returning the first match in order.
pub fn find_window(windows: &Vec<WindowInfo>, id: u64) -> (r: Option<WindowInfo>)
    ensures
        r == find_window_spec(windows@, id),
{
    let n: usize = windows.len();
    let mut i: usize = 0;
    proof {
        assert(windows@.skip(0) =~= windows@);
    }
    while i < n
        invariant
            i <= n,
            n == windows@.len(),
            find_window_spec(windows@, id) == find_window_spec(windows@.skip(i as int), id),
        decreases n - i,
    {
        if windows[i].id == id {
            proof {
                assert(windows@.skip(i as int).first() == windows@[i as int]);
            }
            return Some(windows[i]);
        }
        proof {
            assert(windows@.skip(i as int).drop_first() =~= windows@.skip(i as int + 1));
            assert(windows@.skip(i as int).first() == windows@[i as int]);
        }
        i = i + 1;
    }
    proof {
        assert(windows@.skip(n as int).len() == 0);
    }
    None
}

/// Where a window lookup succeeds, the result is a window of the sequence
/// carrying the looked-up id; where it fails, no window carries that id.
pub proof fn lemma_find_window_spec_found(windows: Seq<WindowInfo>, id: u64)
    ensures
        match find_window_spec(windows, id) {
            Some(w) => w.id == id && exists|i: int|
                0 <= i < windows.len() && #[trigger] windows[i] == w,
            None => forall|i: int| 0 <= i < windows.len() ==> (#[trigger] windows[i]).id != id,
        },
    decreases windows.len(),
{
    if windows.len() > 0 {
        let t = windows.drop_first();
        lemma_find_window_spec_found(t, id);
        if windows.first().id == id {
            assert(windows[0] == windows.first());
        } else {
            match find_window_spec(t, id) {
                Some(w) => {
                    let i = choose|i: int| 0 <= i < t.len() && #[trigger] t[i] == w;
                    assert(windows[i + 1] == w);
                },
                None => {
                    assert forall|i: int|
                        0 <= i < windows.len() implies (#[trigger] windows[i]).id != id by {
                        if i > 0 {
                            assert(t[i - 1] == windows[i]);
                        }
                    }
                },
            }
        }
    }
}

/// Makes the aim-and-fire decision for one frame from plain frame data:
/// the elapsed time in milliseconds, whether the left button is held, the
/// frame's cursor-move events in arrival order, the camera transform if a
/// camera exists, and the windows that events may refer to.
pub fn input_aim_system(
    now: u64,
    left_pressed: bool,
    events: &Vec<CursorEvent>,
    camera: Option<CameraTransform>,
    windows: &Vec<WindowInfo>,
) -> (r: Result<Option<BulletSpawn>, AimError>)
    requires
        now + BULLET_LIFETIME_MILLIS <= u64::MAX,
        camera matches Some(cam) ==> camera_in_range(cam),
        forall|i: int| 0 <= i < events@.len() ==> pixel_in_range((#[trigger] events@[i]).pos),
        forall|i: int| 0 <= i < windows@.len() ==> size_in_range((#[trigger] windows@[i]).size),
    ensures
        r == aim_decision_spec(now, left_pressed, events@, camera, windows@),
{
    if !left_pressed {
        return Ok(None);
    }
    match last_cursor_event(events) {
        None => Ok(None),
        Some(ev) => {
            proof {
                assert(events@[events@.len() - 1] == ev);
            }
            match camera {
                None => Err(AimError::CameraMissing),
                Some(cam) => match find_window(windows, ev.window_id) {
                    None => Err(AimError::WindowMissing),
                    Some(w) => {
                        proof {
                            lemma_find_window_spec_found(windows@, ev.window_id);
                            let i = choose|i: int|
                                0 <= i < windows@.len() && #[trigger] windows@[i] == w;
                            assert(size_in_range(windows@[i].size));
                        }
                        let origin = pixel_to_world(&cam, &w.size, &ev.pos);
                        let deadline: u64 = now + BULLET_LIFETIME_MILLIS;
                        Ok(Some(BulletSpawn { origin, time_to_destroy: deadline }))
                    },
                },
            }
        },
    }
}

/// Clicking with no cursor-move event since the last frame spawns nothing,
/// whatever the button, camera and window state.
pub proof fn lemma_no_cursor_event_no_spawn(
    now: u64,
    left_pressed: bool,
    camera: Option<CameraTransform>,
    windows: Seq<WindowInfo>,
)
    ensures
        aim_decision_spec(now, left_pressed, Seq::<CursorEvent>::empty(), camera, windows)
            == Ok::<Option<BulletSpawn>, AimError>(None),
{
}

/// A successful aim decision targets exactly the last cursor-move event:
/// the bullet's origin is the pixel-to-world image of that event's
/// position under the found window, and its destroy deadline lies one
/// bullet lifetime past the current elapsed time.
pub proof fn lemma_aim_targets_cursor(
    now: u64,
    events: Seq<CursorEvent>,
    cam: CameraTransform,
    windows: Seq<WindowInfo>,
)
    requires
        events.len() > 0,
        find_window_spec(windows, events.last().window_id) is Some,
        now + BULLET_LIFETIME_MILLIS <= u64::MAX,
        camera_in_range(cam),
        pixel_in_range(events.last().pos),
        forall|i: int| 0 <= i < windows.len() ==> size_in_range((#[trigger] windows[i]).size),
    ensures
        ({
            let w = find_window_spec(windows, events.last().window_id).unwrap();
            let r = aim_decision_spec(now, true, events, Some(cam), windows);
            &&& r is Ok
            &&& r.unwrap() is Some
            &&& r.unwrap().unwrap().origin.x as int == pixel_to_world_x(
                cam,
                w.size,
                events.last().pos,
            )
            &&& r.unwrap().unwrap().origin.y as int == pixel_to_world_y(
                cam,
                w.size,
                events.last().pos,
            )
            &&& r.unwrap().unwrap().time_to_destroy == now + BULLET_LIFETIME_MILLIS
        }),
{
    let id = events.last().window_id;
    let w = find_window_spec(windows, id).unwrap();
    lemma_find_window_spec_found(windows, id);
    let i = choose|i: int| 0 <= i < windows.len() && #[trigger] windows[i] == w;
    assert(size_in_range(windows[i].size));
    crate::camera::lemma_pixel_to_world_bounds(cam, w.size, events.last().pos);
}

} // verus!
