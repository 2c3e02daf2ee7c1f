//! Projectile bookkeeping: spawning bullets and the timed despawn sweep.
//!
//! A projectile is the data this layer owns about a spawned bullet: an
//! entity id, the world position it was spawned at, and a destroy deadline.
//! `ProjectileWorld` mirrors the set of live projectile entities;
//! `destroy_after` is the per-frame sweep that removes every projectile
//! whose deadline lies strictly in the past.

use vstd::prelude::*;
use crate::camera::WorldPos;

verus! {

/// How long a bullet lives, in milliseconds of elapsed time.
pub const BULLET_LIFETIME_MILLIS: u64 = 500;

/// The destroy deadline attached to every projectile: the elapsed time, in
/// milliseconds, past which the despawn sweep removes it.
#[derive(Clone, Copy, PartialEq, Eq, Structural, Debug)]
pub struct DelayedDestroy {
    pub time_to_destroy: u64,
}

/// A live projectile: its entity id, where it was placed, and its deadline.
#[derive(Clone, Copy, PartialEq, Eq, Structural, Debug)]
pub struct Projectile {
    pub entity: u64,
    pub position: WorldPos,
    pub destroy: DelayedDestroy,
}

/// The projectile that a spawn with the given parameters creates.
pub open spec fn bullet(entity: u64, origin: WorldPos, time_to_destroy: u64) -> Projectile {
    Projectile { entity, position: origin, destroy: DelayedDestroy { time_to_destroy } }
}

/// Whether the sweep at elapsed time `now` removes projectile `p`: its
/// deadline lies strictly before `now`.
pub open spec fn due(p: Projectile, now: u64) -> bool {
    p.destroy.time_to_destroy < now
}

/// What one despawn sweep at elapsed time `now` leaves of the projectile
/// sequence `s`: exactly the projectiles not yet due, in their old order.
pub open spec fn swept(s: Seq<Projectile>, now: u64) -> Seq<Projectile> {
    s.filter(|p: Projectile| !due(p, now))
}

/// The set of live projectiles, with a counter handing out fresh entity ids.
pub struct ProjectileWorld {
    entities: Vec<Projectile>,
    next_entity: u64,
}

impl View for ProjectileWorld {
    type V = Seq<Projectile>;

    closed spec fn view(&self) -> Seq<Projectile> {
        self.entities@
    }
}

impl ProjectileWorld {
    /// The next entity id to be handed out; every live projectile's id is
    /// below it.
    pub closed spec fn next_id(&self) -> u64 {
        self.next_entity
    }

    /// Well-formedness: entity ids are pairwise distinct and below the
    /// counter, so a removed projectile can never reappear under its id.
    pub open spec fn wf(&self) -> bool {
        &&& forall|i: int| 0 <= i < self@.len() ==> (#[trigger] self@[i]).entity < self.next_id()
        &&& forall|i: int, j: int|
            0 <= i < j < self@.len() ==> (#[trigger] self@[i]).entity != (#[trigger] self@[j]).entity
    }

    /// An empty world with no live projectiles.
    pub fn new() -> (w: ProjectileWorld)
        ensures
            w@ == Seq::<Projectile>::empty(),
            w.wf(),
            w.next_id() == 0,
    {
        let w = ProjectileWorld { entities: Vec::new(), next_entity: 0 };
        proof {
            assert(w@ =~= Seq::<Projectile>::empty());
        }
        w
    }

    /// How many projectiles are currently live.
    pub fn len(&self) -> (n: usize)
        ensures
            n == self@.len(),
    {
        self.entities.len()
    }

    /// The entity id the next spawn will use.
    pub fn next_entity_id(&self) -> (n: u64)
        ensures
            n == self.next_id(),
    {
        self.next_entity
    }

    /// The live projectiles, in spawn order.
    pub fn live(&self) -> (v: &Vec<Projectile>)
        ensures
            v@ == self@,
    {
        &self.entities
    }

    /// Places a bullet at exactly the given world position with the given
    /// destroy deadline, under a fresh entity id.
    pub fn spawn_bullet(&mut self, origin: WorldPos, time_to_destroy: u64) -> (e: u64)
        requires
            old(self).wf(),
            old(self).next_id() < u64::MAX,
        ensures
            final(self).wf(),
            e == old(self).next_id(),
            final(self).next_id() == old(self).next_id() + 1,
            final(self)@ == old(self)@.push(bullet(e, origin, time_to_destroy)),
    {
        let e: u64 = self.next_entity;
        self.entities.push(Projectile {
            entity: e,
            position: origin,
            destroy: DelayedDestroy { time_to_destroy },
        });
        self.next_entity = self.next_entity + 1;
        proof {
            assert forall|i: int| 0 <= i < self@.len() implies (#[trigger] self@[i]).entity
                < self.next_id() by {
                if i < old(self)@.len() {
                    assert(self@[i] == old(self)@[i]);
                } else {
                    assert(self@[i] == bullet(e, origin, time_to_destroy));
                }
            }
            assert forall|i: int, j: int|
                0 <= i < j < self@.len() implies (#[trigger] self@[i]).entity
                != (#[trigger] self@[j]).entity by {
                assert(self@[i] == old(self)@[i]);
                if j < old(self)@.len() {
                    assert(self@[j] == old(self)@[j]);
                } else {
                    assert(self@[j].entity == e);
                }
            }
        }
        e
    }

    /// The despawn sweep: removes every projectile whose deadline is
    /// strictly less than the elapsed time `now`, keeping the rest in order.
    pub fn destroy_after(&mut self, now: u64)
        requires
            old(self).wf(),
        ensures
            final(self).wf(),
            final(self)@ == swept(old(self)@, now),
            final(self).next_id() == old(self).next_id(),
    {
        let n: usize = self.entities.len();
        let mut kept: Vec<Projectile> = Vec::new();
        let mut i: usize = 0;
        proof {
            assert(self.entities@.take(0) =~= Seq::<Projectile>::empty());
            lemma_swept_empty(now);
        }
        while i < n
            invariant
                i <= n,
                n == self.entities@.len(),
                self.entities@ == old(self)@,
                self.next_entity == old(self).next_id(),
                old(self).wf(),
                kept@ == swept(self.entities@.take(i as int), now),
                forall|k: int|
                    0 <= k < kept@.len() ==> exists|j: int|
                        0 <= j < i && #[trigger] kept@[k] == self.entities@[j],
            decreases n - i,
        {
            let p = self.entities[i];
            proof {
                lemma_swept_take_step(self.entities@, now, i as int);
                if !due(p, now) {
                    assert forall|k: int| 0 <= k < kept@.push(p).len() implies exists|j: int|
                        0 <= j < i + 1 && #[trigger] kept@.push(p)[k] == self.entities@[j] by {
                        if k < kept@.len() {
                            let j0 = choose|j: int| 0 <= j < i && kept@[k] == self.entities@[j];
                            assert(kept@.push(p)[k] == self.entities@[j0]);
                        } else {
                            assert(kept@.push(p)[k] == self.entities@[i as int]);
                        }
                    }
                }
            }
            if p.destroy.time_to_destroy >= now {
                kept.push(p);
            }
            i = i + 1;
        }
        proof {
            assert(self.entities@.take(n as int) =~= self.entities@);
            let s = old(self)@;
            let r = kept@;
            assert forall|k1: int, k2: int|
                0 <= k1 < k2 < r.len() implies (#[trigger] r[k1]).entity != (#[trigger] r[k2]).entity by {
                let j1 = choose|j: int| 0 <= j < n && r[k1] == s[j];
                let j2 = choose|j: int| 0 <= j < n && r[k2] == s[j];
                lemma_swept_no_duplicates(s, now, k1, k2);
                assert(j1 != j2);
            }
            assert forall|k: int| 0 <= k < r.len() implies (#[trigger] r[k]).entity
                < old(self).next_id() by {
                let j = choose|j: int| 0 <= j < n && r[k] == s[j];
            }
        }
        self.entities = kept;
    }
}

/// A sweep leaves nothing of an empty sequence.
proof fn lemma_swept_empty(now: u64)
    ensures
        swept(Seq::<Projectile>::empty(), now) == Seq::<Projectile>::empty(),
{
    reveal(Seq::filter);
}

/// How a sweep grows with its input: sweeping one more projectile appends it
/// exactly when it is not yet due.
proof fn lemma_swept_take_step(s: Seq<Projectile>, now: u64, i: int)
    requires
        0 <= i < s.len(),
    ensures
        swept(s.take(i + 1), now) == if !due(s[i], now) {
            swept(s.take(i), now).push(s[i])
        } else {
            swept(s.take(i), now)
        },
{
    reveal(Seq::filter);
    assert(s.take(i + 1).drop_last() =~= s.take(i));
    assert(s.take(i + 1).last() == s[i]);
}

/// The sweep never duplicates: distinct positions of the swept sequence come
/// from distinct positions of the input.
proof fn lemma_swept_no_duplicates(s: Seq<Projectile>, now: u64, k1: int, k2: int)
    requires
        0 <= k1 < k2 < swept(s, now).len(),
        forall|i: int, j: int|
            0 <= i < j < s.len() ==> (#[trigger] s[i]).entity != (#[trigger] s[j]).entity,
    ensures
        swept(s, now)[k1].entity != swept(s, now)[k2].entity,
    decreases s.len(),
{
    reveal(Seq::filter);
    lemma_swept_membership(s, now);
    if s.len() > 0 {
        let t = s.drop_last();
        assert(forall|i: int, j: int|
            0 <= i < j < t.len() ==> (#[trigger] t[i]).entity != (#[trigger] t[j]).entity);
        if !due(s.last(), now) {
            assert(swept(s, now) == swept(t, now).push(s.last()));
            if k2 < swept(t, now).len() {
                lemma_swept_no_duplicates(t, now, k1, k2);
            } else {
                // `k2` names the appended last element; position `k1` comes
                // from the prefix, whose members all stand in `t`.
                lemma_swept_membership(t, now);
                let j = choose|j: int| 0 <= j < t.len() && t[j] == swept(t, now)[k1];
                assert(s[j] == t[j]);
                assert(s[j].entity != s[s.len() - 1].entity);
            }
        } else {
            assert(swept(s, now) == swept(t, now));
            lemma_swept_no_duplicates(t, now, k1, k2);
        }
    }
}

/// A sweep over projectiles that are all not yet due changes nothing.
proof fn lemma_swept_of_undue(s: Seq<Projectile>, now: u64)
    requires
        forall|i: int| 0 <= i < s.len() ==> !due(#[trigger] s[i], now),
    ensures
        swept(s, now) == s,
    decreases s.len(),
{
    reveal(Seq::filter);
    if s.len() > 0 {
        let t = s.drop_last();
        assert(forall|i: int| 0 <= i < t.len() ==> !due(#[trigger] t[i], now));
        lemma_swept_of_undue(t, now);
        assert(!due(s[s.len() - 1], now));
        assert(swept(s, now) == t.push(s.last()));
        assert(t.push(s.last()) =~= s);
    } else {
        assert(swept(s, now) =~= s);
    }
}

/// The despawn sweep is idempotent: sweeping what a sweep left, at the same
/// elapsed time and with no spawn in between, leaves it unchanged.
pub proof fn lemma_sweep_idempotent(s: Seq<Projectile>, now: u64)
    ensures
        swept(swept(s, now), now) == swept(s, now),
{
    lemma_swept_membership(s, now);
    lemma_swept_of_undue(swept(s, now), now);
}

/// A projectile is not removed before its deadline: a sweep at an elapsed
/// time no later than the deadline keeps it.
pub proof fn lemma_kept_until_deadline(s: Seq<Projectile>, now: u64, i: int)
    requires
        0 <= i < s.len(),
        now <= s[i].destroy.time_to_destroy,
    ensures
        swept(s, now).contains(s[i]),
{
    lemma_swept_membership(s, now);
}

/// A projectile whose deadline has passed does not survive a sweep: once
/// the elapsed time exceeds its deadline, it is gone from the result.
pub proof fn lemma_expired_not_kept(s: Seq<Projectile>, now: u64, p: Projectile)
    requires
        due(p, now),
    ensures
        !swept(s, now).contains(p),
{
    lemma_swept_membership(s, now);
    if swept(s, now).contains(p) {
        let k = choose|k: int| 0 <= k < swept(s, now).len() && swept(s, now)[k] == p;
        assert(!due(swept(s, now)[k], now));
    }
}

/// Membership under the sweep: every projectile not yet due is kept, and
/// everything kept was present before and is not yet due.
pub proof fn lemma_swept_membership(s: Seq<Projectile>, now: u64)
    ensures
        forall|i: int|
            0 <= i < s.len() && !due(s[i], now) ==> swept(s, now).contains(#[trigger] s[i]),
        forall|k: int|
            0 <= k < swept(s, now).len() ==> !due(#[trigger] swept(s, now)[k], now) && s.contains(
                swept(s, now)[k],
            ),
    decreases s.len(),
{
    reveal(Seq::filter);
    if s.len() > 0 {
        let t = s.drop_last();
        lemma_swept_membership(t, now);
        assert forall|i: int|
            0 <= i < s.len() && !due(s[i], now) implies swept(s, now).contains(#[trigger] s[i]) by {
            if i < t.len() {
                assert(t[i] == s[i]);
                assert(swept(t, now).contains(t[i]));
                let k = choose|k: int| 0 <= k < swept(t, now).len() && swept(t, now)[k] == t[i];
                if !due(s.last(), now) {
                    assert(swept(s, now)[k] == s[i]);
                } else {
                    assert(swept(s, now)[k] == s[i]);
                }
            } else {
                assert(s[i] == s.last());
                assert(swept(s, now).last() == s.last());
            }
        }
        assert forall|k: int|
            0 <= k < swept(s, now).len() implies !due(#[trigger] swept(s, now)[k], now)
                && s.contains(swept(s, now)[k]) by {
            if k < swept(t, now).len() {
                assert(swept(s, now)[k] == swept(t, now)[k]);
                let j = choose|j: int| 0 <= j < t.len() && t[j] == swept(t, now)[k];
                assert(s[j] == swept(s, now)[k]);
            } else {
                assert(!due(s.last(), now) && swept(s, now)[k] == s.last());
                assert(s[s.len() - 1] == s.last());
            }
        }
    }
}

} // verus!
