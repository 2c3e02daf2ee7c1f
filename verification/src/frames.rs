//! Frame-level laws of the projectile lifecycle.
//!
//! One engine frame, seen from this layer, sweeps the projectiles at the
//! frame's elapsed time and spawns at most one bullet, whose deadline lies
//! one bullet lifetime past that time.  `run_frames` folds a whole sequence
//! of such frames over an initial projectile sequence, which lets the
//! lifetime guarantees be stated over arbitrarily many frames.

use vstd::prelude::*;
use crate::projectiles::BULLET_LIFETIME_MILLIS;
use crate::projectiles::Projectile;
use crate::projectiles::due;
use crate::projectiles::lemma_swept_membership;
use crate::projectiles::swept;

verus! {

/// One frame's effect on the projectiles: the elapsed time at which the
/// sweep runs, and the bullet spawned this frame, if any.
#[derive(Clone, Copy, PartialEq, Eq, Structural, Debug)]
pub struct FrameEffect {
    pub now: u64,
    pub spawn: Option<Projectile>,
}

/// A frame is well formed when the bullet it spawns, if any, carries a
/// deadline of exactly one bullet lifetime past the frame's elapsed time.
pub open spec fn frame_wf(f: FrameEffect) -> bool {
    f.spawn matches Some(p) ==> p.destroy.time_to_destroy == f.now + BULLET_LIFETIME_MILLIS
}

/// The projectiles after one frame: the sweep runs, then the frame's
/// spawn, if any, is appended.
pub open spec fn frame_spec(s: Seq<Projectile>, f: FrameEffect) -> Seq<Projectile> {
    match f.spawn {
        None => swept(s, f.now),
        Some(p) => swept(s, f.now).push(p),
    }
}

/// The projectiles after a whole sequence of frames, applied in order.
pub open spec fn run_frames(s: Seq<Projectile>, frames: Seq<FrameEffect>) -> Seq<Projectile>
    decreases frames.len(),
{
    if frames.len() == 0 {
        s
    } else {
        run_frames(frame_spec(s, frames.first()), frames.drop_first())
    }
}

/// After any frame, every live projectile's deadline is at or past that
/// frame's elapsed time: survivors of the sweep are not yet due, and a
/// fresh spawn's deadline lies a whole lifetime ahead.
pub proof fn lemma_frame_deadlines(s: Seq<Projectile>, f: FrameEffect)
    requires
        frame_wf(f),
    ensures
        forall|k: int|
            0 <= k < frame_spec(s, f).len() ==> (#[trigger] frame_spec(s, f)[k]).destroy.time_to_destroy >= f.now,
{
    lemma_swept_membership(s, f.now);
    assert forall|k: int|
        0 <= k < frame_spec(s, f).len() implies (#[trigger] frame_spec(s, f)[k]).destroy.time_to_destroy
        >= f.now by {
        let sw = swept(s, f.now);
        match f.spawn {
            None => {
                assert(!due(sw[k], f.now));
            },
            Some(p) => {
                if k < sw.len() {
                    assert(frame_spec(s, f)[k] == sw[k]);
                    assert(!due(sw[k], f.now));
                } else {
                    assert(frame_spec(s, f)[k] == p);
                }
            },
        }
    }
}

/// After any non-empty sequence of well-formed frames, every live
/// projectile's deadline is at or past the last frame's elapsed time.
pub proof fn lemma_live_deadline_bound(s: Seq<Projectile>, frames: Seq<FrameEffect>)
    requires
        frames.len() > 0,
        forall|i: int| 0 <= i < frames.len() ==> frame_wf(#[trigger] frames[i]),
    ensures
        forall|k: int|
            0 <= k < run_frames(s, frames).len() ==> (#[trigger] run_frames(s, frames)[k]).destroy.time_to_destroy
                >= frames.last().now,
    decreases frames.len(),
{
    let f = frames.first();
    assert(frame_wf(frames[0]));
    if frames.len() == 1 {
        assert(frames.drop_first().len() == 0);
        assert(run_frames(frame_spec(s, f), frames.drop_first()) == frame_spec(s, f));
        assert(run_frames(s, frames) == frame_spec(s, f));
        assert(frames.last() == f);
        lemma_frame_deadlines(s, f);
        assert forall|k: int|
            0 <= k < run_frames(s, frames).len() implies (#[trigger] run_frames(s, frames)[k]).destroy.time_to_destroy
            >= frames.last().now by {
            assert(run_frames(s, frames)[k] == frame_spec(s, f)[k]);
        }
    } else {
        let rest = frames.drop_first();
        assert(forall|i: int| 0 <= i < rest.len() ==> frame_wf(#[trigger] rest[i]));
        assert(rest.last() == frames.last());
        lemma_live_deadline_bound(frame_spec(s, f), rest);
        assert forall|k: int|
            0 <= k < run_frames(s, frames).len() implies (#[trigger] run_frames(s, frames)[k]).destroy.time_to_destroy
            >= frames.last().now by {
            assert(run_frames(s, frames)[k] == run_frames(frame_spec(s, f), rest)[k]);
        }
    }
}

/// No projectile outlives its deadline across frames: once some frame's
/// elapsed time lies strictly past a projectile's deadline, the projectile
/// is absent from the entity set left by that frame sequence.  A bullet
/// spawned at elapsed time `t` carries deadline `t` plus one lifetime, so
/// it is gone from every frame whose time has passed that sum.
pub proof fn lemma_gone_after_deadline(s: Seq<Projectile>, frames: Seq<FrameEffect>, p: Projectile)
    requires
        frames.len() > 0,
        forall|i: int| 0 <= i < frames.len() ==> frame_wf(#[trigger] frames[i]),
        p.destroy.time_to_destroy < frames.last().now,
    ensures
        !run_frames(s, frames).contains(p),
{
    lemma_live_deadline_bound(s, frames);
    if run_frames(s, frames).contains(p) {
        let k = choose|k: int|
            0 <= k < run_frames(s, frames).len() && run_frames(s, frames)[k] == p;
        assert(run_frames(s, frames)[k].destroy.time_to_destroy >= frames.last().now);
    }
}

/// Once gone, gone for good: with frame times that never go backwards, a
/// projectile whose deadline lies strictly before some frame's elapsed
/// time is absent from the entity set after that frame and after every
/// later frame.  In particular a bullet spawned at elapsed time `t` is
/// never observed alive once a frame's time has passed `t` plus one
/// lifetime.
pub proof fn lemma_never_alive_after_deadline(
    s: Seq<Projectile>,
    frames: Seq<FrameEffect>,
    p: Projectile,
    i: int,
)
    requires
        0 <= i < frames.len(),
        forall|a: int| 0 <= a < frames.len() ==> frame_wf(#[trigger] frames[a]),
        forall|a: int, b: int|
            0 <= a <= b < frames.len() ==> (#[trigger] frames[a]).now <= (#[trigger] frames[b]).now,
        p.destroy.time_to_destroy < frames[i].now,
    ensures
        forall|k: int|
            i <= k < frames.len() ==> !(#[trigger] run_frames(s, frames.take(k + 1))).contains(p),
{
    assert forall|k: int|
        i <= k < frames.len() implies !(#[trigger] run_frames(s, frames.take(k + 1))).contains(
        p,
    ) by {
        let pre = frames.take(k + 1);
        assert(forall|a: int| 0 <= a < pre.len() ==> frame_wf(#[trigger] pre[a]));
        assert(pre.last() == frames[k]);
        assert(frames[i].now <= frames[k].now);
        lemma_gone_after_deadline(s, pre, p);
    }
}

/// Frames that spawn nothing only ever remove: everything live afterwards
/// was live at the start.
pub proof fn lemma_no_spawn_subset(s: Seq<Projectile>, frames: Seq<FrameEffect>)
    requires
        forall|i: int| 0 <= i < frames.len() ==> (#[trigger] frames[i]).spawn is None,
    ensures
        forall|p: Projectile| run_frames(s, frames).contains(p) ==> #[trigger] s.contains(p),
    decreases frames.len(),
{
    if frames.len() > 0 {
        let f = frames.first();
        let rest = frames.drop_first();
        assert(forall|i: int| 0 <= i < rest.len() ==> (#[trigger] rest[i]).spawn is None);
        assert(frames[0].spawn is None);
        lemma_no_spawn_subset(frame_spec(s, f), rest);
        lemma_swept_membership(s, f.now);
        assert forall|p: Projectile|
            run_frames(s, frames).contains(p) implies #[trigger] s.contains(p) by {
            assert(frame_spec(s, f).contains(p));
            let k = choose|k: int|
                0 <= k < swept(s, f.now).len() && swept(s, f.now)[k] == p;
        }
    }
}

/// No projectile leaks: with no further spawns, one whole bullet lifetime
/// after the last spawn the projectile count is back to zero.  Stated over
/// any start state whose projectiles' deadlines all lie strictly before
/// the last frame's elapsed time, and any frames that spawn nothing.
pub proof fn lemma_idle_world_empties(s: Seq<Projectile>, frames: Seq<FrameEffect>)
    requires
        frames.len() > 0,
        forall|i: int| 0 <= i < frames.len() ==> (#[trigger] frames[i]).spawn is None,
        forall|k: int|
            0 <= k < s.len() ==> (#[trigger] s[k]).destroy.time_to_destroy < frames.last().now,
    ensures
        run_frames(s, frames).len() == 0,
{
    assert(forall|i: int| 0 <= i < frames.len() ==> frame_wf(#[trigger] frames[i]));
    lemma_live_deadline_bound(s, frames);
    lemma_no_spawn_subset(s, frames);
    let r = run_frames(s, frames);
    if r.len() > 0 {
        assert(r.contains(r[0]));
        assert(s.contains(r[0]));
        let k = choose|k: int| 0 <= k < s.len() && s[k] == r[0];
        assert(s[k].destroy.time_to_destroy < frames.last().now);
        assert(r[0].destroy.time_to_destroy >= frames.last().now);
    }
}

} // verus!
