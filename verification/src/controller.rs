use crate::point::Point;
use crate::subdivision::{chaikin, subdivided, subdivided_iter};
use vstd::prelude::*;

verus! {

/// Number of subdivision passes applied before the animation loops back to
/// the raw control points.
pub const MAX_STEPS: u32 = 7;

/// Milliseconds that must accumulate before the next subdivision step.
pub const STEP_DELAY_MS: u64 = 500;

/// Color mode for the segments of a frame: `Control` while idle (the raw
/// polyline), `Animated` while the smoothing animation runs.
#[derive(Clone, Copy, PartialEq, Eq, Structural, Debug)]
pub enum SegmentStyle {
    Control,
    Animated,
}

/// Everything a renderer needs for one frame: the control points to mark
/// with discs, the line segments to draw, and the color mode to draw the
/// segments in.
pub struct DisplaySpec {
    pub markers: Vec<Point>,
    pub segments: Vec<(Point, Point)>,
    pub style: SegmentStyle,
}

/// The stateful driver of the smoothing animation. While idle it collects
/// control points; once started it re-derives the smoothed polyline from
/// the control points, advancing one subdivision pass every
/// `STEP_DELAY_MS` milliseconds and looping back after `MAX_STEPS` passes.
pub struct AnimationController {
    pub control: Vec<Point>,
    pub smoothed: Vec<Point>,
    pub running: bool,
    pub terminated: bool,
    pub step: u32,
    pub timer_ms: u64,
}

/// The segments a frame shows: while animating, the consecutive pairs of
/// the smoothed polyline (none if it is degenerate); while idle, the one
/// segment joining exactly two control points, and otherwise none.
pub open spec fn display_segments(c: AnimationController) -> Seq<(Point, Point)> {
    if c.running {
        if c.smoothed@.len() >= 2 {
            Seq::new((c.smoothed@.len() - 1) as nat, |i: int| (c.smoothed@[i], c.smoothed@[i + 1]))
        } else {
            Seq::empty()
        }
    } else {
        if c.control@.len() == 2 {
            seq![(c.control@[0], c.control@[1])]
        } else {
            Seq::empty()
        }
    }
}

/// A verified element-wise copy of a point sequence.
fn copy_points(v: &Vec<Point>) -> (out: Vec<Point>)
    ensures
        out@ == v@,
{
    let mut out: Vec<Point> = Vec::new();
    let mut i: usize = 0;
    while i < v.len()
        invariant
            i <= v@.len(),
            out@ == v@.take(i as int),
        decreases v@.len() - i,
    {
        out.push(v[i]);
        proof {
            assert(out@ =~= v@.take(i as int + 1));
        }
        i = i + 1;
    }
    proof {
        assert(v@.take(v@.len() as int) =~= v@);
    }
    out
}

impl AnimationController {
    /// Well-formedness: the timer never reaches a full delay, the step
    /// counter never passes `MAX_STEPS`, and while the animation runs the
    /// smoothed polyline is exactly `step` subdivision passes over at
    /// least two control points.
    pub open spec fn wf(self) -> bool {
        &&& self.timer_ms < STEP_DELAY_MS
        &&& self.step <= MAX_STEPS
        &&& (self.running ==> self.control@.len() >= 2 && !self.terminated && self.smoothed@
            == subdivided_iter(self.step as nat, self.control@))
    }

    /// A fresh controller: idle, with no control points.
    pub fn new() -> (c: AnimationController)
        ensures
            c.wf(),
            c.control@ == Seq::<Point>::empty(),
            c.smoothed@ == Seq::<Point>::empty(),
            !c.running,
            !c.terminated,
            c.step == 0,
            c.timer_ms == 0,
    {
        AnimationController {
            control: Vec::new(),
            smoothed: Vec::new(),
            running: false,
            terminated: false,
            step: 0,
            timer_ms: 0,
        }
    }

    /// Append a control point. While the animation runs, or once the
    /// session is over, the call is rejected and the controller does not
    /// change: the point set is frozen the moment the animation starts.
    pub fn add_control_point(&mut self, p: Point)
        requires
            old(self).wf(),
        ensures
            final(self).wf(),
            old(self).running || old(self).terminated ==> *final(self) == *old(self),
            !old(self).running && !old(self).terminated ==> (
                final(self).control@ == old(self).control@.push(p)
                && final(self).smoothed@ == old(self).smoothed@
                && final(self).running == old(self).running
                && final(self).terminated == old(self).terminated
                && final(self).step == old(self).step
                && final(self).timer_ms == old(self).timer_ms),
    {
        if !self.running && !self.terminated {
            self.control.push(p);
        }
    }

    /// Start (or restart) the animation: with at least two control points
    /// the smoothed polyline becomes a copy of the control points and the
    /// step counter and timer restart; with fewer, or once the session is
    /// over, the call is ignored.
    pub fn start_animation(&mut self)
        requires
            old(self).wf(),
        ensures
            final(self).wf(),
            final(self).control@ == old(self).control@,
            final(self).terminated == old(self).terminated,
            old(self).control@.len() < 2 || old(self).terminated ==> *final(self) == *old(self),
            old(self).control@.len() >= 2 && !old(self).terminated ==> (
                final(self).running
                && final(self).step == 0
                && final(self).timer_ms == 0
                && final(self).smoothed@ == old(self).control@),
    {
        if self.control.len() >= 2 && !self.terminated {
            self.running = true;
            self.step = 0;
            self.timer_ms = 0;
            self.smoothed = copy_points(&self.control);
        }
    }

    /// End the session: no later call changes the controller again. Only
    /// the two flags change.
    pub fn stop_animation(&mut self)
        requires
            old(self).wf(),
        ensures
            final(self).wf(),
            !final(self).running,
            final(self).terminated,
            final(self).control@ == old(self).control@,
            final(self).smoothed@ == old(self).smoothed@,
            final(self).step == old(self).step,
            final(self).timer_ms == old(self).timer_ms,
    {
        self.running = false;
        self.terminated = true;
    }

    /// One frame of animation logic, fed the frame's elapsed time. Idle
    /// controllers ignore it. A running controller accumulates time until
    /// a full delay has passed, then either applies one more subdivision
    /// pass (below `MAX_STEPS`) or loops back to a copy of the control
    /// points.
    pub fn tick(&mut self, dt_ms: u64)
        requires
            old(self).wf(),
            old(self).timer_ms + dt_ms <= u64::MAX,
        ensures
            final(self).wf(),
            final(self).control@ == old(self).control@,
            final(self).running == old(self).running,
            final(self).terminated == old(self).terminated,
            !old(self).running ==> *final(self) == *old(self),
            old(self).running && old(self).timer_ms + dt_ms < STEP_DELAY_MS ==> (
                final(self).timer_ms == old(self).timer_ms + dt_ms
                && final(self).step == old(self).step
                && final(self).smoothed@ == old(self).smoothed@),
            old(self).running && old(self).timer_ms + dt_ms >= STEP_DELAY_MS && old(self).step
                < MAX_STEPS ==> (
                final(self).timer_ms == 0
                && final(self).step == old(self).step + 1
                && final(self).smoothed@ == subdivided(old(self).smoothed@)),
            old(self).running && old(self).timer_ms + dt_ms >= STEP_DELAY_MS && old(self).step
                >= MAX_STEPS ==> (
                final(self).timer_ms == 0
                && final(self).step == 0
                && final(self).smoothed@ == old(self).control@),
    {
        if self.running {
            self.timer_ms = self.timer_ms + dt_ms;
            if self.timer_ms >= STEP_DELAY_MS {
                self.timer_ms = 0;
                if self.step < MAX_STEPS {
                    self.smoothed = chaikin(self.smoothed.as_slice());
                    self.step = self.step + 1;
                    proof {
                        assert(self.smoothed@ == subdivided_iter(self.step as nat, self.control@));
                    }
                } else {
                    self.smoothed = copy_points(&self.control);
                    self.step = 0;
                }
            }
        }
    }

    /// The geometry of the current frame: every control point as a
    /// marker, the segments given by `display_segments`, and the color
    /// mode for them. Pure: the controller is not changed.
    pub fn current_display_geometry(&self) -> (d: DisplaySpec)
        ensures
            d.markers@ == self.control@,
            d.segments@ == display_segments(*self),
            d.style == (if self.running {
                SegmentStyle::Animated
            } else {
                SegmentStyle::Control
            }),
    {
        let markers = copy_points(&self.control);
        let mut segments: Vec<(Point, Point)> = Vec::new();
        let style = if self.running {
            SegmentStyle::Animated
        } else {
            SegmentStyle::Control
        };
        if self.running {
            if self.smoothed.len() >= 2 {
                let mut i: usize = 0;
                while i < self.smoothed.len() - 1
                    invariant
                        self.smoothed@.len() >= 2,
                        i <= self.smoothed@.len() - 1,
                        segments@.len() == i,
                        forall|k: int|
                            0 <= k < i ==> segments@[k] == (self.smoothed@[k], self.smoothed@[k
                                + 1]),
                    decreases self.smoothed@.len() - 1 - i,
                {
                    segments.push((self.smoothed[i], self.smoothed[i + 1]));
                    i = i + 1;
                }
            }
        } else if self.control.len() == 2 {
            segments.push((self.control[0], self.control[1]));
        }
        proof {
            assert(segments@ =~= display_segments(*self));
        }
        DisplaySpec { markers, segments, style }
    }
}

} // verus!
