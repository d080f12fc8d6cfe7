//! The game-state machine: circle growth, click resolution, scoring with
//! wrap-around, and the win/restart transition.

use vstd::prelude::*;

verus! {

/// Width of the logical coordinate space.
pub const BASE_WIDTH: i32 = 500;

/// Height of the logical coordinate space.
pub const BASE_HEIGHT: i32 = 600;

/// Radius of every freshly spawned circle.
pub const START_RADIUS: i32 = 50;

/// A circle is removed once growth would carry its radius to this cap.
pub const RADIUS_CAP: i32 = 200;

/// How much a surviving circle grows per tick.
pub const GROWTH_STEP: i32 = 8;

/// The collection is replenished up to this many circles after each tick.
pub const MAX_CIRCLES: usize = 10;

/// Reaching exactly this score wins; overshooting wraps around it.
pub const TARGET_SCORE: i32 = 99;

/// One clickable target: position and value are fixed at spawn, the radius
/// grows each tick the circle survives.
#[derive(Clone, Copy, PartialEq, Eq, Structural, Debug)]
pub struct Circle {
    pub x: i32,
    pub y: i32,
    pub radius: i32,
    pub value: i32,
    pub color: i32,
}

/// The two phases of the game.
#[derive(Clone, Copy, PartialEq, Eq, Structural, Debug)]
pub enum Status {
    Playing,
    Won,
}

/// The whole game state. `tick` and `click` are the only mutating entry
/// points; `scene` is a pure projection for the renderer.
pub struct GameState {
    pub circles: Vec<Circle>,
    pub pending: Option<(i32, i32)>,
    pub score: i32,
    pub status: Status,
    pub screen_width: i32,
    pub screen_height: i32,
}

/// A circle the game may hold: position inside the logical viewport, radius
/// between the spawn radius and the cap, value a digit, color a palette index.
pub open spec fn circle_ok(c: Circle) -> bool {
    &&& 1 <= c.x < BASE_WIDTH
    &&& 1 <= c.y < BASE_HEIGHT
    &&& START_RADIUS <= c.radius < RADIUS_CAP
    &&& 1 <= c.value <= 9
    &&& 0 <= c.color <= 3
}

/// What every freshly spawned circle satisfies.
pub open spec fn spawn_ok(c: Circle) -> bool {
    &&& 1 <= c.x < BASE_WIDTH
    &&& 1 <= c.y < BASE_HEIGHT
    &&& c.radius == START_RADIUS
    &&& 1 <= c.value <= 9
    &&& 0 <= c.color <= 3
}

/// The containment test: a point is inside a circle when the squared
/// distance to the center does not exceed the squared radius. A tie
/// (distance exactly equal to the radius) counts as inside.
pub open spec fn hits(c: Circle, px: i32, py: i32) -> bool {
    (c.x - px) * (c.x - px) + (c.y - py) * (c.y - py) - c.radius * c.radius <= 0
}

/// Containment lifted to the optional pending click: no click hits nothing.
pub open spec fn hits_pending(c: Circle, pending: Option<(i32, i32)>) -> bool {
    match pending {
        Some(p) => hits(c, p.0, p.1),
        None => false,
    }
}

/// Whether a circle may still grow, or would reach the cap and be removed.
pub open spec fn keeps_growing(c: Circle) -> bool {
    c.radius + GROWTH_STEP < RADIUS_CAP
}

/// A circle after one tick of growth.
pub open spec fn grown(c: Circle) -> Circle {
    Circle {
        x: c.x,
        y: c.y,
        radius: (c.radius + GROWTH_STEP) as i32,
        value: c.value,
        color: c.color,
    }
}

/// The circles that survive one tick, in order: a circle hit by the pending
/// click is popped, one that would reach the radius cap expires, and every
/// other circle survives, grown by one step.
pub open spec fn survivors(cs: Seq<Circle>, pending: Option<(i32, i32)>) -> Seq<Circle>
    decreases cs.len(),
{
    if cs.len() == 0 {
        Seq::empty()
    } else {
        let rest = survivors(cs.drop_last(), pending);
        let c = cs.last();
        if hits_pending(c, pending) {
            rest
        } else if keeps_growing(c) {
            rest.push(grown(c))
        } else {
            rest
        }
    }
}

/// The score gained by one tick: the value of the last circle in iteration
/// order that the pending click hits (a later hit overwrites an earlier one;
/// the values are not summed), or zero when nothing is hit.
pub open spec fn tick_gain(cs: Seq<Circle>, pending: Option<(i32, i32)>) -> int
    decreases cs.len(),
{
    if cs.len() == 0 {
        0
    } else if hits_pending(cs.last(), pending) {
        cs.last().value as int
    } else {
        tick_gain(cs.drop_last(), pending)
    }
}

/// The score after a tick that gained `gain`: overshooting the target wraps
/// around it; hitting it exactly keeps it (and wins).
pub open spec fn next_score(score: int, gain: int) -> int {
    if score + gain > TARGET_SCORE {
        score + gain - TARGET_SCORE
    } else {
        score + gain
    }
}

/// The status after a tick that gained `gain`: only an exact hit of the
/// target wins; an overshoot keeps playing.
pub open spec fn next_status(score: int, gain: int) -> Status {
    if score + gain == TARGET_SCORE {
        Status::Won
    } else {
        Status::Playing
    }
}

/// The seed circle present at startup and after every restart.
pub open spec fn seed_circle() -> Circle {
    Circle { x: 100, y: 100, radius: START_RADIUS, value: 1, color: 0 }
}

/// Well-formedness, preserved by every operation: between one and the
/// maximum number of circles, all of them valid, the score below the target
/// while playing and exactly the target once won, positive viewport.
pub open spec fn wf(s: GameState) -> bool {
    &&& 1 <= s.circles@.len() <= MAX_CIRCLES
    &&& forall|i: int| 0 <= i < s.circles@.len() ==> circle_ok(#[trigger] s.circles@[i])
    &&& (s.status == Status::Playing ==> 0 <= s.score < TARGET_SCORE)
    &&& (s.status == Status::Won ==> s.score == TARGET_SCORE)
    &&& s.screen_width >= 1
    &&& s.screen_height >= 1
}

/// The startup state: one seed circle, no pending click, zero score, playing.
pub open spec fn is_fresh(s: GameState, w: int, h: int) -> bool {
    &&& s.circles@.len() == 1
    &&& s.circles@[0] == seed_circle()
    &&& s.pending is None
    &&& s.score == 0
    &&& s.status == Status::Playing
    &&& s.screen_width == w
    &&& s.screen_height == h
}

/// What the renderer reads once per tick: the drawable circles, the score,
/// the fixed target, and the phase that picks the status message.
#[derive(Clone, PartialEq, Debug)]
pub struct Scene {
    pub circles: Vec<Circle>,
    pub score: i32,
    pub target: i32,
    pub status: Status,
}

/// A scene shows a state when it lists exactly the state's circles in order
/// and carries its score, the target, and its status.
pub open spec fn scene_shows(sc: Scene, s: GameState) -> bool {
    &&& sc.circles@ == s.circles@
    &&& sc.score == s.score
    &&& sc.target == TARGET_SCORE
    &&& sc.status == s.status
}

/// The containment test, computed exactly: widening to `i128` keeps the
/// squared terms far from overflow for any `i32` inputs.
pub fn circle_contains(c: &Circle, px: i32, py: i32) -> (r: bool)
    ensures
        r == hits(*c, px, py),
{
    let dx: i128 = (c.x as i128) - (px as i128);
    let dy: i128 = (c.y as i128) - (py as i128);
    let rx: i128 = c.radius as i128;
    proof {
        assert(0 <= dx * dx <= 0x10000000000000000i128) by (nonlinear_arith)
            requires
                -0x100000000i128 <= dx <= 0x100000000i128,
        ;
        assert(0 <= dy * dy <= 0x10000000000000000i128) by (nonlinear_arith)
            requires
                -0x100000000i128 <= dy <= 0x100000000i128,
        ;
        assert(0 <= rx * rx <= 0x4000000000000000i128) by (nonlinear_arith)
            requires
                -0x80000000i128 <= rx <= 0x80000000i128,
        ;
    }
    dx * dx + dy * dy - rx * rx <= 0
}

/// Spawn one fresh circle: uniformly random position inside the logical
/// viewport, a random digit value and a random palette index, at the
/// starting radius.
pub fn spawn_circle() -> (c: Circle)
    ensures
        spawn_ok(c),
{
    let x: i32 = crate::rng::random_in_range(1, BASE_WIDTH);
    let y: i32 = crate::rng::random_in_range(1, BASE_HEIGHT);
    let value: i32 = crate::rng::random_in_range(1, 10);
    let color: i32 = crate::rng::random_in_range(0, 4);
    Circle { x, y, radius: START_RADIUS, value, color }
}

impl GameState {
    /// The startup state: one seed circle, nothing pending, score zero.
    pub fn new(screen_width: i32, screen_height: i32) -> (s: GameState)
        requires
            screen_width >= 1,
            screen_height >= 1,
        ensures
            is_fresh(s, screen_width as int, screen_height as int),
            wf(s),
    {
        let mut circles: Vec<Circle> = Vec::new();
        circles.push(Circle { x: 100, y: 100, radius: START_RADIUS, value: 1, color: 0 });
        GameState {
            circles,
            pending: None,
            score: 0,
            status: Status::Playing,
            screen_width,
            screen_height,
        }
    }

    /// One simulation step. A win freezes the state until the restart click.
    /// Otherwise: circles hit by the pending click pop (the last hit in
    /// order sets the gain), circles that would reach the radius cap expire,
    /// the rest grow; the click is consumed; the gain is added to the score;
    /// the collection is replenished with fresh random circles up to the
    /// maximum; an exact hit of the target score wins, an overshoot wraps.
    pub fn tick(&mut self)
        requires
            wf(*old(self)),
        ensures
            wf(*final(self)),
            final(self).screen_width == old(self).screen_width,
            final(self).screen_height == old(self).screen_height,
            old(self).status == Status::Won ==> final(self).circles@ == old(self).circles@,
            old(self).status == Status::Won ==> final(self).pending == old(self).pending,
            old(self).status == Status::Won ==> final(self).score == old(self).score,
            old(self).status == Status::Won ==> final(self).status == Status::Won,
            old(self).status == Status::Playing ==> final(self).pending is None,
            old(self).status == Status::Playing ==> final(self).score as int == next_score(
                old(self).score as int,
                tick_gain(old(self).circles@, old(self).pending),
            ),
            old(self).status == Status::Playing ==> final(self).status == next_status(
                old(self).score as int,
                tick_gain(old(self).circles@, old(self).pending),
            ),
            old(self).status == Status::Playing ==> final(self).circles@.len() == MAX_CIRCLES,
            old(self).status == Status::Playing ==> final(self).circles@.subrange(
                0,
                survivors(old(self).circles@, old(self).pending).len() as int,
            ) == survivors(old(self).circles@, old(self).pending),
            old(self).status == Status::Playing ==> forall|i: int|
                survivors(old(self).circles@, old(self).pending).len() <= i
                    < final(self).circles@.len() ==> spawn_ok(#[trigger] final(self).circles@[i]),
    {
        match self.status {
            Status::Won => {
                return;
            },
            Status::Playing => {},
        }
        let ghost cs = self.circles@;
        let ghost pd = self.pending;
        let ghost sc0 = self.score;
        let ghost w0 = self.screen_width;
        let ghost h0 = self.screen_height;

        // Resolve the pending click and the growth of every circle.
        let mut kept: Vec<Circle> = Vec::new();
        let mut gain: i32 = 0;
        let n: usize = self.circles.len();
        let mut i: usize = 0;
        while i < n
            invariant
                i <= n,
                n == cs.len(),
                self.circles@ == cs,
                self.pending == pd,
                forall|k: int| 0 <= k < cs.len() ==> circle_ok(#[trigger] cs[k]),
                kept@ == survivors(cs.subrange(0, i as int), pd),
                gain as int == tick_gain(cs.subrange(0, i as int), pd),
            decreases n - i,
        {
            let c = self.circles[i];
            let hit: bool = match self.pending {
                Some(p) => circle_contains(&c, p.0, p.1),
                None => false,
            };
            proof {
                assert(cs.subrange(0, (i + 1) as int).drop_last() =~= cs.subrange(0, i as int));
                assert(cs.subrange(0, (i + 1) as int).last() == cs[i as int]);
                assert(circle_ok(cs[i as int]));
            }
            if hit {
                gain = c.value;
            } else if c.radius + GROWTH_STEP < RADIUS_CAP {
                kept.push(
                    Circle {
                        x: c.x,
                        y: c.y,
                        radius: c.radius + GROWTH_STEP,
                        value: c.value,
                        color: c.color,
                    },
                );
                proof {
                    assert(kept@.last() == grown(cs[i as int]));
                }
            }
            i += 1;
        }
        proof {
            assert(cs.subrange(0, n as int) =~= cs);
        }
        self.circles = kept;
        self.pending = None;

        // Replenish the collection with fresh circles up to the maximum.
        let ghost sv = survivors(cs, pd);
        proof {
            crate::laws::lemma_survivors_ok(cs, pd);
            assert(self.circles@.subrange(0, sv.len() as int) =~= sv);
        }
        while self.circles.len() < MAX_CIRCLES
            invariant
                sv == survivors(cs, pd),
                sv.len() <= self.circles@.len() <= MAX_CIRCLES,
                self.circles@.subrange(0, sv.len() as int) == sv,
                forall|k: int| sv.len() <= k < self.circles@.len() ==> spawn_ok(
                    #[trigger] self.circles@[k],
                ),
                self.pending is None,
                self.score == sc0,
                self.status == Status::Playing,
                self.screen_width == w0,
                self.screen_height == h0,
            decreases MAX_CIRCLES - self.circles@.len(),
        {
            let c = spawn_circle();
            self.circles.push(c);
            proof {
                assert(self.circles@.subrange(0, sv.len() as int) =~= sv);
            }
        }

        // Accumulate the gain; an exact hit of the target wins, an
        // overshoot wraps around it.
        proof {
            crate::laws::lemma_gain_bounds(cs, pd);
        }
        self.score = self.score + gain;
        if self.score == TARGET_SCORE {
            self.status = Status::Won;
        }
        if self.score > TARGET_SCORE {
            self.score = self.score - TARGET_SCORE;
        }

        proof {
            assert forall|k: int| 0 <= k < self.circles@.len() implies circle_ok(
                #[trigger] self.circles@[k],
            ) by {
                if k < sv.len() {
                    assert(self.circles@[k] == self.circles@.subrange(0, sv.len() as int)[k]);
                    assert(circle_ok(sv[k]));
                } else {
                    assert(spawn_ok(self.circles@[k]));
                }
            }
        }
    }

    /// The read-only projection for the renderer. A pure query: what it
    /// returns is determined by the state alone, so repeated calls without
    /// an intervening `tick` or `click` return identical scenes.
    pub fn scene(&self) -> (sc: Scene)
        ensures
            scene_shows(sc, *self),
    {
        let mut circles: Vec<Circle> = Vec::new();
        let n: usize = self.circles.len();
        let mut i: usize = 0;
        while i < n
            invariant
                i <= n,
                n == self.circles@.len(),
                circles@ == self.circles@.subrange(0, i as int),
            decreases n - i,
        {
            circles.push(self.circles[i]);
            proof {
                assert(circles@ =~= self.circles@.subrange(0, (i + 1) as int));
            }
            i += 1;
        }
        proof {
            assert(circles@ =~= self.circles@);
        }
        Scene { circles, score: self.score, target: TARGET_SCORE, status: self.status }
    }

    /// A click while playing is buffered until the next tick, overwriting an
    /// unconsumed earlier click. A click after a win restarts the game: back
    /// to the startup state, the coordinates not otherwise consumed.
    pub fn click(&mut self, x: i32, y: i32)
        requires
            wf(*old(self)),
        ensures
            wf(*final(self)),
            old(self).status == Status::Won ==> is_fresh(
                *final(self),
                old(self).screen_width as int,
                old(self).screen_height as int,
            ),
            old(self).status == Status::Playing ==> final(self).circles@ == old(self).circles@,
            old(self).status == Status::Playing ==> final(self).pending == Some((x, y)),
            old(self).status == Status::Playing ==> final(self).score == old(self).score,
            old(self).status == Status::Playing ==> final(self).status == Status::Playing,
            final(self).screen_width == old(self).screen_width,
            final(self).screen_height == old(self).screen_height,
    {
        match self.status {
            Status::Won => {
                let mut circles: Vec<Circle> = Vec::new();
                circles.push(Circle { x: 100, y: 100, radius: START_RADIUS, value: 1, color: 0 });
                self.circles = circles;
                self.pending = None;
                self.score = 0;
                self.status = Status::Playing;
            },
            Status::Playing => {
                self.pending = Some((x, y));
            },
        }
    }
}

} // verus!
