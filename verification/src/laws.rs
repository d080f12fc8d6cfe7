//! Proofs of the general laws of the state machine, stated over the spec
//! functions that the contracts of `tick`, `click` and `scene` use.

use vstd::prelude::*;

use crate::game::Circle;
use crate::game::GameState;
use crate::game::Scene;
use crate::game::scene_shows;
use crate::game::GROWTH_STEP;
use crate::game::START_RADIUS;
use crate::game::circle_ok;
use crate::game::grown;
use crate::game::hits;
use crate::game::hits_pending;
use crate::game::keeps_growing;
use crate::game::survivors;
use crate::game::tick_gain;

verus! {

/// A tick never invents circles: the survivors are no more numerous than
/// the circles it started from, each survivor is a valid circle, and each
/// has grown past the starting radius.
pub proof fn lemma_survivors_ok(cs: Seq<Circle>, pending: Option<(i32, i32)>)
    requires
        forall|i: int| 0 <= i < cs.len() ==> circle_ok(#[trigger] cs[i]),
    ensures
        survivors(cs, pending).len() <= cs.len(),
        forall|i: int| 0 <= i < survivors(cs, pending).len() ==> circle_ok(
            #[trigger] survivors(cs, pending)[i],
        ),
        forall|i: int| 0 <= i < survivors(cs, pending).len() ==> (#[trigger] survivors(
            cs,
            pending,
        )[i]).radius >= START_RADIUS + GROWTH_STEP,
    decreases cs.len(),
{
    if cs.len() > 0 {
        let prefix = cs.drop_last();
        assert(forall|i: int| 0 <= i < prefix.len() ==> circle_ok(#[trigger] prefix[i])) by {
            assert(forall|i: int| 0 <= i < prefix.len() ==> #[trigger] prefix[i] == cs[i]);
        }
        lemma_survivors_ok(prefix, pending);
        let c = cs.last();
        if !hits_pending(c, pending) && keeps_growing(c) {
            assert(circle_ok(c));
            assert(circle_ok(grown(c)));
        }
    }
}

/// The gain of a tick is bounded: zero when nothing is popped, else the
/// value of one popped circle, which is a digit.
pub proof fn lemma_gain_bounds(cs: Seq<Circle>, pending: Option<(i32, i32)>)
    requires
        forall|i: int| 0 <= i < cs.len() ==> circle_ok(#[trigger] cs[i]),
    ensures
        0 <= tick_gain(cs, pending) <= 9,
    decreases cs.len(),
{
    if cs.len() > 0 {
        let prefix = cs.drop_last();
        assert(forall|i: int| 0 <= i < prefix.len() ==> circle_ok(#[trigger] prefix[i])) by {
            assert(forall|i: int| 0 <= i < prefix.len() ==> #[trigger] prefix[i] == cs[i]);
        }
        lemma_gain_bounds(prefix, pending);
        assert(circle_ok(cs.last()));
    }
}

/// A circle hit by the pending click never survives the tick: no grown copy
/// of it stands among the survivors.
pub proof fn lemma_hit_never_survives(cs: Seq<Circle>, pending: Option<(i32, i32)>, c: Circle)
    requires
        forall|i: int| 0 <= i < cs.len() ==> circle_ok(#[trigger] cs[i]),
        circle_ok(c),
        hits_pending(c, pending),
    ensures
        !survivors(cs, pending).contains(grown(c)),
    decreases cs.len(),
{
    if cs.len() > 0 {
        let prefix = cs.drop_last();
        assert(forall|i: int| 0 <= i < prefix.len() ==> circle_ok(#[trigger] prefix[i])) by {
            assert(forall|i: int| 0 <= i < prefix.len() ==> #[trigger] prefix[i] == cs[i]);
        }
        lemma_hit_never_survives(prefix, pending, c);
        let rest = survivors(prefix, pending);
        let last = cs.last();
        if !hits_pending(last, pending) && keeps_growing(last) {
            assert(circle_ok(last));
            if grown(last) == grown(c) {
                assert(last.radius + GROWTH_STEP == c.radius + GROWTH_STEP);
                assert(last == c);
                assert(false);
            }
            assert forall|j: int| 0 <= j < survivors(cs, pending).len() implies #[trigger] survivors(
                cs,
                pending,
            )[j] != grown(c) by {
                if j < rest.len() {
                    assert(survivors(cs, pending)[j] == rest[j]);
                    assert(!rest.contains(grown(c)));
                } else {
                    assert(survivors(cs, pending)[j] == grown(last));
                }
            }
            if survivors(cs, pending).contains(grown(c)) {
                let j = choose|j: int|
                    0 <= j < survivors(cs, pending).len() && survivors(cs, pending)[j] == grown(c);
                assert(false);
            }
        }
    }
}

/// A circle that would reach the radius cap this tick expires rather than
/// grow: no grown copy of it stands among the survivors, whatever the
/// pending click.
pub proof fn lemma_capped_circle_expires(cs: Seq<Circle>, pending: Option<(i32, i32)>, c: Circle)
    requires
        forall|i: int| 0 <= i < cs.len() ==> circle_ok(#[trigger] cs[i]),
        circle_ok(c),
        !keeps_growing(c),
    ensures
        !survivors(cs, pending).contains(grown(c)),
    decreases cs.len(),
{
    if cs.len() > 0 {
        let prefix = cs.drop_last();
        assert(forall|i: int| 0 <= i < prefix.len() ==> circle_ok(#[trigger] prefix[i])) by {
            assert(forall|i: int| 0 <= i < prefix.len() ==> #[trigger] prefix[i] == cs[i]);
        }
        lemma_capped_circle_expires(prefix, pending, c);
        let rest = survivors(prefix, pending);
        let last = cs.last();
        if !hits_pending(last, pending) && keeps_growing(last) {
            assert(circle_ok(last));
            if grown(last) == grown(c) {
                assert(last.radius + GROWTH_STEP == c.radius + GROWTH_STEP);
                assert(last == c);
                assert(false);
            }
            if survivors(cs, pending).contains(grown(c)) {
                let j = choose|j: int|
                    0 <= j < survivors(cs, pending).len() && survivors(cs, pending)[j] == grown(c);
                if j < rest.len() {
                    assert(survivors(cs, pending)[j] == rest[j]);
                    assert(rest.contains(grown(c)));
                } else {
                    assert(survivors(cs, pending)[j] == grown(last));
                }
                assert(false);
            }
        }
    }
}

/// A click with coordinates exactly at a circle's center always pops that
/// circle on the next tick: the squared distance is zero, so the circle is
/// hit, and no grown copy of it survives.
pub proof fn lemma_center_click_pops(cs: Seq<Circle>, i: int, px: i32, py: i32)
    requires
        forall|k: int| 0 <= k < cs.len() ==> circle_ok(#[trigger] cs[k]),
        0 <= i < cs.len(),
        px == cs[i].x,
        py == cs[i].y,
    ensures
        hits_pending(cs[i], Some((px, py))),
        !survivors(cs, Some((px, py))).contains(grown(cs[i])),
{
    assert(hits(cs[i], px, py));
    lemma_hit_never_survives(cs, Some((px, py)), cs[i]);
}

/// A click strictly outside every circle pops nothing: the tick removes and
/// grows exactly as a tick with no pending click would, and gains nothing.
pub proof fn lemma_missed_click_pops_nothing(cs: Seq<Circle>, px: i32, py: i32)
    requires
        forall|i: int| 0 <= i < cs.len() ==> !hits(#[trigger] cs[i], px, py),
    ensures
        survivors(cs, Some((px, py))) == survivors(cs, None::<(i32, i32)>),
        tick_gain(cs, Some((px, py))) == 0,
    decreases cs.len(),
{
    if cs.len() > 0 {
        let prefix = cs.drop_last();
        assert(forall|i: int| 0 <= i < prefix.len() ==> !hits(#[trigger] prefix[i], px, py)) by {
            assert(forall|i: int| 0 <= i < prefix.len() ==> #[trigger] prefix[i] == cs[i]);
        }
        lemma_missed_click_pops_nothing(prefix, px, py);
        assert(!hits(cs[cs.len() - 1], px, py));
    }
}

/// With no pending click and no circle about to reach the cap, every circle
/// survives the tick and its radius increases by exactly the growth step.
pub proof fn lemma_unclicked_all_grow(cs: Seq<Circle>)
    requires
        forall|i: int| 0 <= i < cs.len() ==> keeps_growing(#[trigger] cs[i]),
    ensures
        survivors(cs, None::<(i32, i32)>).len() == cs.len(),
        forall|i: int| 0 <= i < cs.len() ==> survivors(cs, None::<(i32, i32)>)[i] == grown(
            #[trigger] cs[i],
        ),
    decreases cs.len(),
{
    if cs.len() > 0 {
        let prefix = cs.drop_last();
        assert(forall|i: int| 0 <= i < prefix.len() ==> keeps_growing(#[trigger] prefix[i])) by {
            assert(forall|i: int| 0 <= i < prefix.len() ==> #[trigger] prefix[i] == cs[i]);
        }
        lemma_unclicked_all_grow(prefix);
        assert(keeps_growing(cs[cs.len() - 1]));
        let sv = survivors(cs, None::<(i32, i32)>);
        let rest = survivors(prefix, None::<(i32, i32)>);
        assert(sv == rest.push(grown(cs.last())));
        assert forall|i: int| 0 <= i < cs.len() implies sv[i] == grown(#[trigger] cs[i]) by {
            if i < prefix.len() {
                assert(sv[i] == rest[i]);
                assert(prefix[i] == cs[i]);
            } else {
                assert(i == cs.len() - 1);
                assert(sv[i] == grown(cs.last()));
            }
        }
    }
}

/// The scene is a pure projection of the state: any two scenes taken from
/// the same state, with no tick or click in between, agree in every part.
pub proof fn lemma_scene_deterministic(a: Scene, b: Scene, s: GameState)
    requires
        scene_shows(a, s),
        scene_shows(b, s),
    ensures
        a.circles@ == b.circles@,
        a.score == b.score,
        a.target == b.target,
        a.status == b.status,
{
}

} // verus!
