//! The computations the platform glue needs around the state machine:
//! mapping device pixels into the logical coordinate space, the frame
//! cadence, and the palette and status text the renderer draws with.

use vstd::prelude::*;

use crate::game::BASE_HEIGHT;
use crate::game::BASE_WIDTH;
use crate::game::GameState;
use crate::game::Status;
use crate::game::wf;

verus! {

/// Every this many raw animation frames, one game tick is taken.
pub const FRAMES_PER_TICK: u32 = 10;

/// Map one device-pixel coordinate into the logical coordinate space:
/// `raw * logical_dim / viewport`, exact integer division.
pub fn to_logical(raw: i32, logical_dim: i32, viewport: i32) -> (r: i32)
    requires
        1 <= viewport,
        0 <= raw <= viewport,
        0 <= logical_dim <= BASE_HEIGHT,
    ensures
        r == raw * logical_dim / (viewport as int),
        0 <= r <= logical_dim,
{
    proof {
        assert(raw * logical_dim <= 0x7fffffffi64 * 600 && 0 <= raw * logical_dim) by (
        nonlinear_arith)
            requires
                0 <= raw <= 0x7fffffffi64,
                0 <= logical_dim <= 600,
        ;
        assert(raw * logical_dim / (viewport as int) <= logical_dim) by (nonlinear_arith)
            requires
                1 <= viewport,
                0 <= raw <= viewport,
                0 <= logical_dim,
        ;
        assert(raw * logical_dim / (viewport as int) >= 0) by (nonlinear_arith)
            requires
                1 <= viewport,
                0 <= raw,
                0 <= logical_dim,
        ;
    }
    let n: u64 = (raw as u64) * (logical_dim as u64);
    let q: u64 = n / (viewport as u64);
    q as i32
}

/// Advance the raw animation-frame counter (wrapping at the top) and say
/// whether this frame takes a game tick: every tenth frame does.
pub fn next_frame(frame: u32) -> (r: (u32, bool))
    ensures
        frame < u32::MAX ==> r.0 == frame + 1,
        frame == u32::MAX ==> r.0 == 0,
        r.1 == (r.0 % FRAMES_PER_TICK == 0),
{
    let f: u32 = if frame == u32::MAX {
        0
    } else {
        frame + 1
    };
    (f, f % FRAMES_PER_TICK == 0)
}

/// The color a circle's palette index names.
pub open spec fn color_name(c: i32) -> Seq<char> {
    if c == 1 {
        "rgb(24 255 0)"@
    } else if c == 2 {
        "rgb(131 245 44)"@
    } else if c == 3 {
        "rgb(255 255 0)"@
    } else {
        "rgb(0 128 0)"@
    }
}

/// The fill color for a circle: a four-entry palette; any index outside it
/// falls back to the first entry.
pub fn get_color(c: i32) -> (r: &'static str)
    ensures
        r@ == color_name(c),
{
    if c == 1 {
        "rgb(24 255 0)"
    } else if c == 2 {
        "rgb(131 245 44)"
    } else if c == 3 {
        "rgb(255 255 0)"
    } else {
        "rgb(0 128 0)"
    }
}

/// The status-line message for each phase.
pub open spec fn status_text(st: Status) -> Seq<char> {
    match st {
        Status::Playing => "Click Circle to reach 99"@,
        Status::Won => "Congratuation!!"@,
    }
}

/// The message beside the score: a prompt while playing, a celebration
/// once won.
pub fn status_message(st: Status) -> (r: &'static str)
    ensures
        r@ == status_text(st),
{
    match st {
        Status::Playing => "Click Circle to reach 99",
        Status::Won => "Congratuation!!",
    }
}

impl GameState {
    /// Map a pointer press in device pixels into the logical coordinate
    /// space, separately for each axis against this state's viewport.
    pub fn map_click(&self, raw_x: i32, raw_y: i32) -> (p: (i32, i32))
        requires
            wf(*self),
            0 <= raw_x <= self.screen_width,
            0 <= raw_y <= self.screen_height,
        ensures
            p.0 == raw_x * BASE_WIDTH / (self.screen_width as int),
            p.1 == raw_y * BASE_HEIGHT / (self.screen_height as int),
    {
        (to_logical(raw_x, BASE_WIDTH, self.screen_width), to_logical(
            raw_y,
            BASE_HEIGHT,
            self.screen_height,
        ))
    }
}

} // verus!
