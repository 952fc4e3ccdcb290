//! One overlay per output: its geometry, its animation and its frames.
use crate::payload::Rect;
use crate::scalar::{Scalar, ONE, ZERO};
use crate::spring::{Spring, SpringStep, Tolerance};
use crate::uniforms::{Geometry, BORDER_WIDTH, CORNER_RADIUS};
use vstd::prelude::*;

verus! {

// The rectangle's springs overshoot by a whisper; the fade is critically damped.
pub const RECT_STIFFNESS: u32 = 0x442f_0000;

pub const RECT_DAMPING: u32 = 0x4234_0000;

pub const FADE_STIFFNESS: u32 = 0x4461_0000;

pub const FADE_DAMPING: u32 = 0x4270_0000;

// A spring is at rest within its distance at less than ten times that per second.
pub const RECT_DISTANCE: u32 = 0x3e99_999a;

pub const RECT_SPEED: u32 = 0x4040_0000;

pub const FADE_DISTANCE: u32 = 0x3b83_126f;

pub const FADE_SPEED: u32 = 0x3d23_d70b;

/// Below this opacity an overlay without a target shows nothing worth moving (0.02).
pub const GONE_ALPHA: u32 = 0x3ca3_d70a;

/// Up to this opacity nothing is drawn (0.003).
pub const INVISIBLE_ALPHA: u32 = 0x3b44_9ba6;

/// The shortest time step in seconds (0.0001).
pub const MIN_STEP: u32 = 0x38d1_b717;

/// The longest time step in seconds (0.05).
pub const MAX_STEP: u32 = 0x3d4c_cccd;

/// The time step of the first frame after a rest (one sixtieth of a second).
pub const FIRST_STEP: u32 = 0x3c88_8889;

/// The size of a surface in buffer pixels.
#[derive(Clone, Copy, Debug, PartialEq, Eq, Structural)]
pub struct SurfaceSize {
    pub width: u32,
    pub height: u32,
}

/// The overlay of one output.
pub struct Overlay {
    /// The output that the overlay is for.
    pub output: u64,
    /// The surface that it is drawn on.
    pub surface: u64,
    /// The name of the output's connector, once it is known.
    pub connector: Option<String>,
    /// The size in logical pixels.
    pub width: u32,
    pub height: u32,
    pub scale: i32,
    pub configured: bool,
    /// The size for which the surface is set up for drawing, once it is.
    pub gpu: Option<SurfaceSize>,
    /// Where the preview is to be, in logical coordinates.
    pub target: Option<Rect>,
    pub tiling: bool,
    pub x: Spring,
    pub y: Spring,
    pub w: Spring,
    pub h: Spring,
    pub alpha: Spring,
    /// Whether a frame callback is due.
    pub animating: bool,
    /// When the last frame began, in nanoseconds.
    pub last_frame: Option<u64>,
}

/// The five springs of an overlay.
#[derive(Clone, Copy, Debug, PartialEq, Eq, Structural)]
pub struct Springs {
    pub x: Spring,
    pub y: Spring,
    pub w: Spring,
    pub h: Spring,
    pub alpha: Spring,
}

/// The five integration steps of a frame.
#[derive(Clone, Copy, Debug, PartialEq, Eq, Structural)]
pub struct FramePlan {
    pub x: SpringStep,
    pub y: SpringStep,
    pub w: SpringStep,
    pub h: SpringStep,
    pub alpha: SpringStep,
}

/// A value and the target that it is measured against.
#[derive(Clone, Copy, Debug, PartialEq, Eq, Structural)]
pub struct Reach {
    pub value: Scalar,
    pub target: Scalar,
}

/// The five distances that decide whether a frame is the last one.
#[derive(Clone, Copy, Debug, PartialEq, Eq, Structural)]
pub struct FrameReach {
    pub x: Reach,
    pub y: Reach,
    pub w: Reach,
    pub h: Reach,
    pub alpha: Reach,
}

/// Each value of a [`FrameReach`] less its target.
#[derive(Clone, Copy, Debug, PartialEq, Eq, Structural)]
pub struct Offsets {
    pub x: Scalar,
    pub y: Scalar,
    pub w: Scalar,
    pub h: Scalar,
    pub alpha: Scalar,
}

/// What a frame shows.
#[derive(Clone, Copy, Debug, PartialEq, Eq, Structural)]
pub struct Frame {
    /// Whether all springs have come to rest, so that no further frame is needed.
    pub settled: bool,
    /// Whether there is anything to draw over the transparent clear.
    pub visible: bool,
    /// The lengths in logical pixels.
    pub geometry: Geometry,
    /// The factor from logical to buffer pixels.
    pub scale: i32,
    pub tiling: bool,
    pub alpha: Scalar,
}

pub open spec fn scalar(bits: u32) -> Scalar {
    Scalar { bits }
}

/// The scale as the unsigned factor that lengths are multiplied by; a negative
/// one wraps around.
pub open spec fn scale_factor(scale: i32) -> int {
    if scale >= 0 {
        scale as int
    } else {
        scale + 0x1_0000_0000
    }
}

/// A logical length in buffer pixels. A product past 32 bits wraps around.
pub open spec fn buffer_length(length: u32, scale: i32) -> u32 {
    ((length * scale_factor(scale)) % 0x1_0000_0000) as u32
}

pub open spec fn step_of(
    from: Spring,
    target: Scalar,
    dt: Scalar,
    stiffness: u32,
    damping: u32,
) -> SpringStep {
    SpringStep { from, target, dt, stiffness: scalar(stiffness), damping: scalar(damping) }
}

pub open spec fn rect_tolerance() -> Tolerance {
    Tolerance { distance: scalar(RECT_DISTANCE), speed: scalar(RECT_SPEED) }
}

pub open spec fn fade_tolerance() -> Tolerance {
    Tolerance { distance: scalar(FADE_DISTANCE), speed: scalar(FADE_SPEED) }
}

/// Whether a number lies in `[0, 1]`, if it is one.
pub open spec fn is_opacity(alpha: Scalar) -> bool {
    alpha.is_nan() || 0 <= alpha.units() <= scalar(ONE).units()
}

impl Overlay {
    /// What every operation keeps: an overlay has a size once it is configured,
    /// its surface is set up for exactly that size, frames run only on such a
    /// surface, and the opacity never leaves `[0, 1]`.
    pub open spec fn wf(self) -> bool {
        &&& self.configured ==> self.width >= 1 && self.height >= 1
        &&& !self.configured ==> self.gpu is None
        &&& self.gpu matches Some(size) ==> size == self.buffer_size()
        &&& self.animating ==> self.gpu is Some
        &&& self.last_frame is Some ==> self.gpu is Some
        &&& is_opacity(self.alpha.value)
    }

    /// An overlay that no frame is due for.
    pub open spec fn asleep(self) -> bool {
        !self.animating && self.last_frame is None
    }

    /// An overlay whose preview is gone.
    pub open spec fn is_hidden(self) -> bool {
        self.target is None && self.alpha == Spring::still(scalar(ZERO))
    }

    /// The overlay of an output that has just appeared.
    pub open spec fn fresh(output: u64, surface: u64, connector: Option<String>) -> Overlay {
        let rest = Spring::still(scalar(ZERO));
        Overlay {
            output,
            surface,
            connector,
            width: 0,
            height: 0,
            scale: 1,
            configured: false,
            gpu: None,
            target: None,
            tiling: false,
            x: rest,
            y: rest,
            w: rest,
            h: rest,
            alpha: rest,
            animating: false,
            last_frame: None,
        }
    }

    /// The size in buffer pixels.
    pub open spec fn buffer_size(self) -> SurfaceSize {
        SurfaceSize {
            width: buffer_length(self.width, self.scale),
            height: buffer_length(self.height, self.scale),
        }
    }

    /// Whether the output goes by `name`.
    pub open spec fn is_named(self, name: Seq<char>) -> bool {
        self.connector matches Some(c) && c@ == name
    }

    /// Whether a preview that is to appear has nothing on screen to move from.
    pub open spec fn is_gone(self) -> bool {
        self.alpha.value.less(scalar(GONE_ALPHA)) && self.target is None
    }

    /// The overlay once its springs stand still at `rect`.
    pub open spec fn placed(self, rect: Rect) -> Overlay {
        Overlay {
            x: Spring::still(rect.x),
            y: Spring::still(rect.y),
            w: Spring::still(rect.w),
            h: Spring::still(rect.h),
            ..self
        }
    }

    /// The overlay once it has been told where its preview is to be. One that
    /// appears from nothing is placed there and only fades in; one that goes
    /// away fades out where it is.
    pub open spec fn retargeted(self, rect: Option<Rect>, tiling: bool) -> Overlay {
        let placed = match rect {
            Some(r) => if self.is_gone() {
                self.placed(r)
            } else {
                self
            },
            None => self,
        };
        Overlay { target: rect, tiling, ..placed }
    }

    /// Whether the overlay can draw and no frame of it is under way.
    pub open spec fn can_wake(self) -> bool {
        !self.animating && self.configured
    }

    /// The overlay with a new scale, its surface resized with it.
    pub open spec fn rescaled(self, scale: i32) -> Overlay {
        let resized = Overlay { scale, ..self };
        match self.gpu {
            Some(_) => Overlay { gpu: Some(resized.buffer_size()), ..resized },
            None => resized,
        }
    }

    /// Whether a size differs from the overlay's own.
    pub open spec fn is_resized_by(self, width: u32, height: u32) -> bool {
        self.width != width || self.height != height
    }

    /// The overlay with a new logical size of at least one pixel each way. A
    /// surface that is set up already is resized with it.
    pub open spec fn sized(self, width: u32, height: u32) -> Overlay {
        let resized = Overlay {
            width: if width == 0 {
                1
            } else {
                width
            },
            height: if height == 0 {
                1
            } else {
                height
            },
            configured: true,
            ..self
        };
        if self.configured && self.gpu is Some && self.is_resized_by(width, height) {
            Overlay { gpu: Some(resized.buffer_size()), ..resized }
        } else {
            resized
        }
    }

    /// The time step of a frame that begins `elapsed` seconds after the last one.
    pub open spec fn time_step(self, elapsed: Scalar) -> Scalar {
        if self.last_frame is Some {
            elapsed.clamped(scalar(MIN_STEP), scalar(MAX_STEP))
        } else {
            scalar(FIRST_STEP)
        }
    }

    /// The opacity that the overlay moves toward.
    pub open spec fn alpha_target(self) -> Scalar {
        if self.target is Some {
            scalar(ONE)
        } else {
            scalar(ZERO)
        }
    }

    /// The rectangle that the overlay moves toward: its target, or where it is.
    pub open spec fn rect_target(self) -> Rect {
        match self.target {
            Some(rect) => rect,
            None => Rect {
                x: self.x.value,
                y: self.y.value,
                w: self.w.value,
                h: self.h.value,
            },
        }
    }

    /// The steps of a frame that begins `elapsed` seconds after the last one.
    pub open spec fn plan(self, elapsed: Scalar) -> FramePlan {
        let dt = self.time_step(elapsed);
        let rect = self.rect_target();
        FramePlan {
            x: step_of(self.x, rect.x, dt, RECT_STIFFNESS, RECT_DAMPING),
            y: step_of(self.y, rect.y, dt, RECT_STIFFNESS, RECT_DAMPING),
            w: step_of(self.w, rect.w, dt, RECT_STIFFNESS, RECT_DAMPING),
            h: step_of(self.h, rect.h, dt, RECT_STIFFNESS, RECT_DAMPING),
            alpha: step_of(self.alpha, self.alpha_target(), dt, FADE_STIFFNESS, FADE_DAMPING),
        }
    }

    /// The overlay in the frame that begins at `now`.
    pub open spec fn begun(self, now: u64) -> Overlay {
        Overlay { last_frame: Some(now), ..self }
    }

    /// The overlay once its springs have taken the steps of `plan`; the opacity is
    /// kept in `[0, 1]`.
    pub open spec fn advanced(self, plan: FramePlan, next: Springs) -> Overlay {
        let alpha = plan.alpha.landing(next.alpha);
        Overlay {
            x: plan.x.landing(next.x),
            y: plan.y.landing(next.y),
            w: plan.w.landing(next.w),
            h: plan.h.landing(next.h),
            alpha: Spring {
                value: alpha.value.clamped(scalar(ZERO), scalar(ONE)),
                velocity: alpha.velocity,
            },
            ..self
        }
    }

    /// How far the overlay is from the targets of `plan`.
    pub open spec fn reach(self, plan: FramePlan) -> FrameReach {
        FrameReach {
            x: Reach { value: self.x.value, target: plan.x.target },
            y: Reach { value: self.y.value, target: plan.y.target },
            w: Reach { value: self.w.value, target: plan.w.target },
            h: Reach { value: self.h.value, target: plan.h.target },
            alpha: Reach { value: self.alpha.value, target: plan.alpha.target },
        }
    }

    /// Whether all five springs are at rest.
    pub open spec fn is_settled(self, offsets: Offsets) -> bool {
        &&& self.alpha.at_rest(offsets.alpha, fade_tolerance())
        &&& self.x.at_rest(offsets.x, rect_tolerance())
        &&& self.y.at_rest(offsets.y, rect_tolerance())
        &&& self.w.at_rest(offsets.w, rect_tolerance())
        &&& self.h.at_rest(offsets.h, rect_tolerance())
    }

    /// Whether the preview has faded out.
    pub open spec fn is_idle(self, offsets: Offsets) -> bool {
        self.is_settled(offsets) && self.target is None
    }

    /// The overlay once it is known whether its preview has faded out; what is
    /// left of the opacity is then dropped.
    pub open spec fn judged(self, offsets: Offsets) -> Overlay {
        if self.is_idle(offsets) {
            Overlay { alpha: Spring::still(scalar(ZERO)), ..self }
        } else {
            self
        }
    }

    /// What the overlay shows.
    pub open spec fn shown(self, settled: bool) -> Frame {
        Frame {
            settled,
            visible: scalar(INVISIBLE_ALPHA).less(self.alpha.value),
            geometry: Geometry {
                x: self.x.value,
                y: self.y.value,
                w: self.w.value,
                h: self.h.value,
                radius: scalar(CORNER_RADIUS),
                border: scalar(BORDER_WIDTH),
            },
            scale: self.scale,
            tiling: self.tiling,
            alpha: self.alpha.value,
        }
    }

    /// The overlay once a frame is on its way to the screen.
    pub open spec fn finished(self, settled: bool) -> Overlay {
        Overlay {
            animating: !settled,
            last_frame: if settled {
                None
            } else {
                self.last_frame
            },
            ..self
        }
    }

    pub fn new(output: u64, surface: u64, connector: Option<String>) -> (r: Overlay)
        ensures
            r == Overlay::fresh(output, surface, connector),
            r.wf(),
            r.asleep(),
            r.is_hidden(),
    {
        let zero: Scalar = Scalar { bits: ZERO };
        Overlay {
            output,
            surface,
            connector,
            width: 0,
            height: 0,
            scale: 1,
            configured: false,
            gpu: None,
            target: None,
            tiling: false,
            x: Spring::new(zero),
            y: Spring::new(zero),
            w: Spring::new(zero),
            h: Spring::new(zero),
            alpha: Spring::new(zero),
            animating: false,
            last_frame: None,
        }
    }

    /// The size that the surface is to be set up for.
    pub fn surface_size(&self) -> (r: SurfaceSize)
        ensures
            r == self.buffer_size(),
    {
        SurfaceSize {
            width: to_buffer_length(self.width, self.scale),
            height: to_buffer_length(self.height, self.scale),
        }
    }

    /// Takes in where the preview is to be, or that it goes away.
    pub fn retarget(&mut self, rect: Option<Rect>, tiling: bool)
        ensures
            *final(self) == old(self).retargeted(rect, tiling),
            old(self).wf() ==> final(self).wf(),
    {
        self.tiling = tiling;
        match rect {
            Some(r) => {
                if self.alpha.value.lt(Scalar { bits: GONE_ALPHA }) && self.target.is_none() {
                    self.x.snap(r.x);
                    self.y.snap(r.y);
                    self.w.snap(r.w);
                    self.h.snap(r.h);
                }
                self.target = Some(r);
            },
            None => {
                self.target = None;
            },
        }
    }

    /// The nanoseconds since the last frame of a running animation.
    pub fn since_last_frame(&self, now: u64) -> (r: Option<u64>)
        ensures
            r == (match self.last_frame {
                Some(t) => Some(if now >= t { (now - t) as u64 } else { 0 }),
                None => None,
            }),
    {
        match self.last_frame {
            Some(t) => Some(if now >= t { now - t } else { 0 }),
            None => None,
        }
    }

    /// Begins a frame `elapsed` seconds after the last one and says which steps
    /// the springs take in it.
    pub fn begin_frame(&mut self, now: u64, elapsed: Scalar) -> (plan: FramePlan)
        ensures
            *final(self) == old(self).begun(now),
            plan == old(self).plan(elapsed),
            old(self).wf() && old(self).gpu is Some ==> final(self).wf(),
    {
        let dt: Scalar = match self.last_frame {
            Some(_) => {
                proof {
                    crate::scalar::lemma_units_follow_magnitude(MIN_STEP as int, MAX_STEP as int);
                }
                elapsed.clamp(Scalar { bits: MIN_STEP }, Scalar { bits: MAX_STEP })
            },
            None => Scalar { bits: FIRST_STEP },
        };
        self.last_frame = Some(now);
        let (alpha, rect): (Scalar, Rect) = match self.target {
            Some(rect) => (Scalar { bits: ONE }, rect),
            None => (
                Scalar { bits: ZERO },
                Rect { x: self.x.value, y: self.y.value, w: self.w.value, h: self.h.value },
            ),
        };
        FramePlan {
            x: rect_step(self.x, rect.x, dt),
            y: rect_step(self.y, rect.y, dt),
            w: rect_step(self.w, rect.w, dt),
            h: rect_step(self.h, rect.h, dt),
            alpha: SpringStep {
                from: self.alpha,
                target: alpha,
                dt,
                stiffness: Scalar { bits: FADE_STIFFNESS },
                damping: Scalar { bits: FADE_DAMPING },
            },
        }
    }

    /// Takes in where the arithmetic of `plan` has led and says which distances
    /// decide whether the animation goes on. A spring at rest does not move.
    pub fn advance_frame(&mut self, plan: &FramePlan, next: &Springs) -> (reach: FrameReach)
        ensures
            *final(self) == old(self).advanced(*plan, *next),
            reach == final(self).reach(*plan),
            is_opacity(final(self).alpha.value),
            old(self).wf() ==> final(self).wf(),
    {
        proof {
            lemma_one_is_positive();
        }
        self.x = plan.x.land(next.x);
        self.y = plan.y.land(next.y);
        self.w = plan.w.land(next.w);
        self.h = plan.h.land(next.h);
        self.alpha = plan.alpha.land(next.alpha);
        self.alpha.value = self.alpha.value.clamp(Scalar { bits: ZERO }, Scalar { bits: ONE });
        FrameReach {
            x: Reach { value: self.x.value, target: plan.x.target },
            y: Reach { value: self.y.value, target: plan.y.target },
            w: Reach { value: self.w.value, target: plan.w.target },
            h: Reach { value: self.h.value, target: plan.h.target },
            alpha: Reach { value: self.alpha.value, target: plan.alpha.target },
        }
    }

    /// Decides from the distances whether the springs have settled, and says what
    /// the frame shows. A preview that has faded out is gone for good.
    pub fn settle_frame(&mut self, offsets: &Offsets) -> (frame: Frame)
        ensures
            *final(self) == old(self).judged(*offsets),
            frame == final(self).shown(old(self).is_settled(*offsets)),
            old(self).wf() ==> final(self).wf(),
    {
        let rect: Tolerance = Tolerance {
            distance: Scalar { bits: RECT_DISTANCE },
            speed: Scalar { bits: RECT_SPEED },
        };
        let fade: Tolerance = Tolerance {
            distance: Scalar { bits: FADE_DISTANCE },
            speed: Scalar { bits: FADE_SPEED },
        };
        let settled: bool = self.alpha.settled(offsets.alpha, fade) && self.x.settled(
            offsets.x,
            rect,
        ) && self.y.settled(offsets.y, rect) && self.w.settled(offsets.w, rect)
            && self.h.settled(offsets.h, rect);
        if settled && self.target.is_none() {
            proof {
                lemma_one_is_positive();
            }
            self.alpha.snap(Scalar { bits: ZERO });
        }
        Frame {
            settled,
            visible: Scalar { bits: INVISIBLE_ALPHA }.lt(self.alpha.value),
            geometry: Geometry {
                x: self.x.value,
                y: self.y.value,
                w: self.w.value,
                h: self.h.value,
                radius: Scalar { bits: CORNER_RADIUS },
                border: Scalar { bits: BORDER_WIDTH },
            },
            scale: self.scale,
            tiling: self.tiling,
            alpha: self.alpha.value,
        }
    }

    /// Ends a frame that goes to the screen. Returns whether a callback is to be
    /// asked for, so that another one follows; once the springs have settled,
    /// none does.
    pub fn finish_frame(&mut self, frame: &Frame) -> (again: bool)
        ensures
            *final(self) == old(self).finished(frame.settled),
            again == !frame.settled,
            old(self).wf() && old(self).gpu is Some ==> final(self).wf(),
    {
        self.animating = !frame.settled;
        if !self.animating {
            self.last_frame = None;
        }
        self.animating
    }
}

fn to_buffer_length(length: u32, scale: i32) -> (r: u32)
    ensures
        r == buffer_length(length, scale),
{
    let factor: u32 = scale as u32;
    assert(factor == scale_factor(scale)) by {
        assert(scale >= 0 ==> scale as u32 == scale) by (bit_vector);
        assert(scale < 0 ==> scale as u32 == scale + 0x1_0000_0000) by (bit_vector);
    }
    length.wrapping_mul(factor)
}

fn rect_step(from: Spring, target: Scalar, dt: Scalar) -> (r: SpringStep)
    ensures
        r == step_of(from, target, dt, RECT_STIFFNESS, RECT_DAMPING),
{
    SpringStep {
        from,
        target,
        dt,
        stiffness: Scalar { bits: RECT_STIFFNESS },
        damping: Scalar { bits: RECT_DAMPING },
    }
}

proof fn lemma_one_is_positive()
    ensures
        scalar(ZERO).units() == 0,
        scalar(ONE).units() > 0,
{
    crate::scalar::lemma_units_follow_magnitude(ZERO as int, ONE as int);
}

} // verus!
