//! What the operations on one overlay do, told field by field.
use crate::overlay::{
    Frame, FramePlan, FrameReach, Offsets, Overlay, Springs, SurfaceSize,
};
use crate::payload::Rect;
use crate::scalar::Scalar;
use crate::spring::{Spring, SpringStep};
use vstd::prelude::*;

verus! {

/// Both are for the same output, on the same surface, under the same name.
pub open spec fn same_identity(a: Overlay, b: Overlay) -> bool {
    a.output == b.output && a.surface == b.surface && a.connector == b.connector
}

/// Both have the same size, scale and setup.
pub open spec fn same_surface(a: Overlay, b: Overlay) -> bool {
    &&& a.width == b.width
    &&& a.height == b.height
    &&& a.scale == b.scale
    &&& a.configured == b.configured
    &&& a.gpu == b.gpu
}

/// Both are to show the same.
pub open spec fn same_wish(a: Overlay, b: Overlay) -> bool {
    a.target == b.target && a.tiling == b.tiling
}

/// Both have their rectangles in the same place, moving alike.
pub open spec fn same_rect(a: Overlay, b: Overlay) -> bool {
    a.x == b.x && a.y == b.y && a.w == b.w && a.h == b.h
}

/// Both are equally far in their animation.
pub open spec fn same_clock(a: Overlay, b: Overlay) -> bool {
    a.animating == b.animating && a.last_frame == b.last_frame
}

/// Whether a length in buffer pixels is the logical one times the scale, but for
/// multiples of what 32 bits can hold.
pub open spec fn is_scaled(buffer: u32, length: u32, scale: i32) -> bool {
    (buffer - length * scale) % 0x1_0000_0000 == 0
}

/// Whether a surface is as large as an overlay asks for.
pub open spec fn is_size_of(size: SurfaceSize, o: Overlay) -> bool {
    is_scaled(size.width, o.width, o.scale) && is_scaled(size.height, o.height, o.scale)
}

/// Whether a spring stands still at a value.
pub open spec fn is_still_at(spring: Spring, value: Scalar) -> bool {
    spring.value == value && spring.velocity.bits == 0
}

/// Whether an opacity is below two hundredths.
pub open spec fn is_faint(alpha: Scalar) -> bool {
    crate::number_laws::is_number(alpha) && crate::number_laws::signed_bits(alpha) < 0x3ca3_d70a
}

/// Whether `after` is `before` with its preview sent to `rect`: that is its target
/// now, and nothing else has changed but for the springs of a preview that had no
/// target and could hardly be seen, which stand still at the new one.
pub open spec fn is_retargeted(
    before: Overlay,
    after: Overlay,
    rect: Option<Rect>,
    tiling: bool,
) -> bool {
    &&& after.target == rect
    &&& after.tiling == tiling
    &&& after.alpha == before.alpha
    &&& same_identity(before, after)
    &&& same_surface(before, after)
    &&& same_clock(before, after)
    &&& if rect is Some && before.target is None && is_faint(before.alpha.value) {
        &&& is_still_at(after.x, rect->0.x)
        &&& is_still_at(after.y, rect->0.y)
        &&& is_still_at(after.w, rect->0.w)
        &&& is_still_at(after.h, rect->0.h)
    } else {
        same_rect(before, after)
    }
}

/// A new overlay has nothing but its output, its surface and its name.
pub proof fn lemma_new_overlay_is_blank(
    output: u64,
    surface: u64,
    connector: Option<String>,
    r: Overlay,
)
    requires
        call_ensures(Overlay::new, (output, surface, connector), r),
    ensures
        is_blank(r, output, surface, connector),
{
}

/// Whether an overlay has nothing but its output, its surface and its name.
pub open spec fn is_blank(
    o: Overlay,
    output: u64,
    surface: u64,
    connector: Option<String>,
) -> bool {
    let zero = Scalar { bits: 0 };
    &&& o.output == output && o.surface == surface && o.connector == connector
    &&& o.width == 0 && o.height == 0 && o.scale == 1
    &&& !o.configured && o.gpu is None
    &&& o.target is None && !o.tiling
    &&& is_still_at(o.x, zero) && is_still_at(o.y, zero)
    &&& is_still_at(o.w, zero) && is_still_at(o.h, zero)
    &&& is_still_at(o.alpha, zero)
    &&& !o.animating && o.last_frame is None
}

/// A buffer length stands in one residue class with its logical length times the
/// scale, whatever the sign of the scale.
pub proof fn lemma_buffer_length_is_scaled(length: u32, scale: i32)
    ensures
        is_scaled(crate::overlay::buffer_length(length, scale), length, scale),
{
    let m = 0x1_0000_0000int;
    let factor = crate::overlay::scale_factor(scale);
    let product = length * factor;
    let r = product % m;
    assert(product == m * (product / m) + r);
    if scale < 0 {
        assert(length * factor == length * scale + length * m) by (nonlinear_arith)
            requires
                factor == scale + m,
        ;
        let k = product / m - length;
        assert(r - length * scale == m * (-k)) by (nonlinear_arith)
            requires
                product == m * (product / m) + r,
                product == length * scale + length * m,
                k == product / m - length,
        ;
        assert((m * (-k)) % m == 0) by (nonlinear_arith)
            requires
                m == 0x1_0000_0000,
        ;
    } else {
        let k = product / m;
        assert(r - length * scale == m * (-k)) by (nonlinear_arith)
            requires
                product == m * k + r,
                product == length * scale,
        ;
        assert((m * (-k)) % m == 0) by (nonlinear_arith)
            requires
                m == 0x1_0000_0000,
        ;
    }
}

/// A surface is to be as large as its overlay times the scale.
pub proof fn lemma_surface_size_is_scaled(o: Overlay, r: SurfaceSize)
    requires
        call_ensures(Overlay::surface_size, (&o,), r),
    ensures
        is_size_of(r, o),
{
    lemma_buffer_length_is_scaled(o.width, o.scale);
    lemma_buffer_length_is_scaled(o.height, o.scale);
}

/// A preview goes to exactly the rectangle that it is sent to, whether or not it
/// can be seen, and changes nothing else of its overlay.
pub proof fn lemma_retarget_sends_there(o: &mut Overlay, rect: Option<Rect>, tiling: bool)
    requires
        call_ensures(Overlay::retarget, (o, rect, tiling), ()),
    ensures
        is_retargeted(*old(o), *final(o), rect, tiling),
{
    lemma_retargeted_goes_there(*o, rect, tiling);
}

/// The same of the value that retargeting is stated over.
pub proof fn lemma_retargeted_goes_there(o: Overlay, rect: Option<Rect>, tiling: bool)
    ensures
        is_retargeted(o, o.retargeted(rect, tiling), rect, tiling),
{
    crate::number_laws::lemma_less_by_bits(o.alpha.value, Scalar { bits: 0x3ca3_d70a });
}

/// The frame after a preview was sent to a rectangle steps each side toward that
/// side of it, whether or not the preview could be seen, and the opacity toward one.
pub proof fn lemma_next_frame_heads_for_the_target(
    o: Overlay,
    rect: Rect,
    tiling: bool,
    elapsed: Scalar,
)
    ensures
        ({
            let plan = o.retargeted(Some(rect), tiling).plan(elapsed);
            &&& plan.x.target == rect.x
            &&& plan.y.target == rect.y
            &&& plan.w.target == rect.w
            &&& plan.h.target == rect.h
            &&& plan.alpha.target.bits == 0x3f80_0000
        }),
{
}

/// The last frame, the time since then and the present add up; a clock that has
/// gone back counts as one that has stopped.
pub proof fn lemma_times_add_up(o: Overlay, now: u64, r: Option<u64>)
    requires
        call_ensures(Overlay::since_last_frame, (&o, now), r),
    ensures
        r is Some <==> o.last_frame is Some,
        r is Some && o.last_frame->0 <= now ==> o.last_frame->0 + r->0 == now,
        r is Some && o.last_frame->0 > now ==> r->0 == 0,
{
}

/// Whether a step takes a spring toward a target with the stiffness and damping of
/// the rectangle.
pub open spec fn is_rect_step(step: SpringStep, from: Spring, target: Scalar, dt: Scalar) -> bool {
    &&& step.from == from
    &&& step.target == target
    &&& step.dt == dt
    &&& step.stiffness.bits == 0x442f_0000
    &&& step.damping.bits == 0x4234_0000
}

/// Whether a time step is a sixtieth of a second after a rest, and else the time
/// that has passed, kept between a ten-thousandth and a twentieth of a second.
pub open spec fn is_time_step(dt: Scalar, o: Overlay, elapsed: Scalar) -> bool {
    if o.last_frame is None {
        dt.bits == 0x3c88_8889
    } else if !crate::number_laws::is_number(elapsed) {
        dt == elapsed
    } else if crate::number_laws::signed_bits(elapsed) < 0x38d1_b717 {
        dt.bits == 0x38d1_b717
    } else if crate::number_laws::signed_bits(elapsed) > 0x3d4c_cccd {
        dt.bits == 0x3d4c_cccd
    } else {
        dt == elapsed
    }
}

/// Whether a plan steps each spring from where it is toward where the overlay is
/// to be: to its target and to full opacity, or without one, nowhere and to none.
pub open spec fn is_plan_of(plan: FramePlan, o: Overlay, elapsed: Scalar) -> bool {
    let dt = plan.alpha.dt;
    &&& is_time_step(dt, o, elapsed)
    &&& is_rect_step(plan.x, o.x, if o.target is Some { o.target->0.x } else { o.x.value }, dt)
    &&& is_rect_step(plan.y, o.y, if o.target is Some { o.target->0.y } else { o.y.value }, dt)
    &&& is_rect_step(plan.w, o.w, if o.target is Some { o.target->0.w } else { o.w.value }, dt)
    &&& is_rect_step(plan.h, o.h, if o.target is Some { o.target->0.h } else { o.h.value }, dt)
    &&& plan.alpha.from == o.alpha
    &&& plan.alpha.target.bits == (if o.target is Some { 0x3f80_0000int } else { 0 })
    &&& plan.alpha.stiffness.bits == 0x4461_0000
    &&& plan.alpha.damping.bits == 0x4270_0000
}

/// The plan of an overlay steps each of its springs toward its own target.
pub proof fn lemma_plan_heads_for_the_target(o: Overlay, elapsed: Scalar)
    ensures
        is_plan_of(o.plan(elapsed), o, elapsed),
{
    crate::number_laws::lemma_clamped_by_bits(
        elapsed,
        Scalar { bits: 0x38d1_b717 },
        Scalar { bits: 0x3d4c_cccd },
    );
}

/// Whether a frame has begun and nothing else has happened.
pub open spec fn has_begun(before: Overlay, after: Overlay, now: u64) -> bool {
    &&& after.last_frame == Some(now)
    &&& after.animating == before.animating
    &&& after.alpha == before.alpha
    &&& same_identity(before, after)
    &&& same_surface(before, after)
    &&& same_wish(before, after)
    &&& same_rect(before, after)
}

/// The beginning of a frame moves nothing but the clock, and plans from there.
pub proof fn lemma_begin_frame_plans(o: &mut Overlay, now: u64, elapsed: Scalar, r: FramePlan)
    requires
        call_ensures(Overlay::begin_frame, (o, now, elapsed), r),
    ensures
        has_begun(*old(o), *final(o), now),
        is_plan_of(r, *old(o), elapsed),
{
    lemma_plan_heads_for_the_target(*o, elapsed);
}

/// Each spring goes where its own step has led it and the opacity stays between
/// none and full; nothing else changes. What is handed back sets each value beside
/// the target of its own step.
pub proof fn lemma_advance_frame_moves_each(
    o: &mut Overlay,
    plan: FramePlan,
    next: Springs,
    r: FrameReach,
)
    requires
        call_ensures(Overlay::advance_frame, (o, &plan, &next), r),
    ensures
        has_advanced(*old(o), *final(o), plan, next),
        r.x.value == final(o).x.value && r.x.target == plan.x.target,
        r.y.value == final(o).y.value && r.y.target == plan.y.target,
        r.w.value == final(o).w.value && r.w.target == plan.w.target,
        r.h.value == final(o).h.value && r.h.target == plan.h.target,
        r.alpha.value == final(o).alpha.value && r.alpha.target == plan.alpha.target,
{
    lemma_advanced_moves_each(*o, plan, next);
}

/// Whether each spring has taken its own step and nothing else has changed.
pub open spec fn has_advanced(
    before: Overlay,
    after: Overlay,
    plan: FramePlan,
    next: Springs,
) -> bool {
    &&& crate::number_laws::has_landed(plan.x, next.x, after.x)
    &&& crate::number_laws::has_landed(plan.y, next.y, after.y)
    &&& crate::number_laws::has_landed(plan.w, next.w, after.w)
    &&& crate::number_laws::has_landed(plan.h, next.h, after.h)
    &&& exists|alpha: Spring| #[trigger]
        crate::number_laws::has_landed(plan.alpha, next.alpha, alpha) && after.alpha.velocity
            == alpha.velocity && is_kept_opaque(alpha.value, after.alpha.value)
    &&& same_identity(before, after)
    &&& same_surface(before, after)
    &&& same_wish(before, after)
    &&& same_clock(before, after)
}

/// Whether `to` is `from` kept between zero and one.
pub open spec fn is_kept_opaque(from: Scalar, to: Scalar) -> bool {
    if !crate::number_laws::is_number(from) {
        to == from
    } else if crate::number_laws::signed_bits(from) < 0 {
        to.bits == 0
    } else if crate::number_laws::signed_bits(from) > 0x3f80_0000 {
        to.bits == 0x3f80_0000
    } else {
        to == from
    }
}

/// The same of the value that advancing is stated over.
pub proof fn lemma_advanced_moves_each(o: Overlay, plan: FramePlan, next: Springs)
    ensures
        has_advanced(o, o.advanced(plan, next), plan, next),
{
    crate::number_laws::lemma_landing_by_bits(plan.x, next.x);
    crate::number_laws::lemma_landing_by_bits(plan.y, next.y);
    crate::number_laws::lemma_landing_by_bits(plan.w, next.w);
    crate::number_laws::lemma_landing_by_bits(plan.h, next.h);
    crate::number_laws::lemma_landing_by_bits(plan.alpha, next.alpha);
    let alpha = plan.alpha.landing(next.alpha);
    crate::number_laws::lemma_clamped_by_bits(
        alpha.value,
        Scalar { bits: 0 },
        Scalar { bits: 0x3f80_0000 },
    );
    assert(crate::number_laws::has_landed(plan.alpha, next.alpha, alpha));
}

/// Where a spring goes is a matter of its own step and its own result: two frames
/// that agree in those agree in where it goes, whatever the others do.
pub proof fn lemma_springs_move_apart(
    a: Overlay,
    b: Overlay,
    plan_a: FramePlan,
    plan_b: FramePlan,
    next_a: Springs,
    next_b: Springs,
)
    ensures
        plan_a.x == plan_b.x && next_a.x == next_b.x ==> a.advanced(plan_a, next_a).x == b.advanced(
            plan_b,
            next_b,
        ).x,
        plan_a.y == plan_b.y && next_a.y == next_b.y ==> a.advanced(plan_a, next_a).y == b.advanced(
            plan_b,
            next_b,
        ).y,
        plan_a.w == plan_b.w && next_a.w == next_b.w ==> a.advanced(plan_a, next_a).w == b.advanced(
            plan_b,
            next_b,
        ).w,
        plan_a.h == plan_b.h && next_a.h == next_b.h ==> a.advanced(plan_a, next_a).h == b.advanced(
            plan_b,
            next_b,
        ).h,
        plan_a.alpha == plan_b.alpha && next_a.alpha == next_b.alpha ==> a.advanced(
            plan_a,
            next_a,
        ).alpha == b.advanced(plan_b, next_b).alpha,
{
}

/// Whether a side is less than three tenths from its target, at less than ten
/// times that per second.
pub open spec fn side_is_there(spring: Spring, offset: Scalar) -> bool {
    &&& crate::number_laws::size_bits(offset) < 0x3e99_999a
    &&& crate::number_laws::size_bits(spring.velocity) < 0x4040_0000
}

/// Whether an opacity is less than four thousandths from its target, at less than
/// ten times that per second.
pub open spec fn opacity_is_there(spring: Spring, offset: Scalar) -> bool {
    &&& crate::number_laws::size_bits(offset) < 0x3b83_126f
    &&& crate::number_laws::size_bits(spring.velocity) < 0x3d23_d70b
}

/// Whether all four sides and the opacity are at their targets.
pub open spec fn all_are_there(o: Overlay, offsets: Offsets) -> bool {
    &&& side_is_there(o.x, offsets.x)
    &&& side_is_there(o.y, offsets.y)
    &&& side_is_there(o.w, offsets.w)
    &&& side_is_there(o.h, offsets.h)
    &&& opacity_is_there(o.alpha, offsets.alpha)
}

/// An overlay has settled where each one of its springs is at its target, and not
/// while any one is not.
pub proof fn lemma_settled_needs_all(o: Overlay, offsets: Offsets)
    ensures
        o.is_settled(offsets) <==> all_are_there(o, offsets),
{
    let rect = crate::overlay::rect_tolerance();
    crate::number_laws::lemma_at_rest_by_bits(o.x, offsets.x, rect);
    crate::number_laws::lemma_at_rest_by_bits(o.y, offsets.y, rect);
    crate::number_laws::lemma_at_rest_by_bits(o.w, offsets.w, rect);
    crate::number_laws::lemma_at_rest_by_bits(o.h, offsets.h, rect);
    crate::number_laws::lemma_at_rest_by_bits(
        o.alpha,
        offsets.alpha,
        crate::overlay::fade_tolerance(),
    );
}

/// A frame is reported as settled where each one of the springs is at its target.
/// Then, without a target, the opacity is dropped; nothing else changes. The frame
/// shows the overlay as it is left, and draws it where its opacity is more than
/// three thousandths.
pub proof fn lemma_settle_frame_reports_rest(o: &mut Overlay, offsets: Offsets, r: Frame)
    requires
        call_ensures(Overlay::settle_frame, (o, &offsets), r),
    ensures
        r.settled <==> all_are_there(*old(o), offsets),
        r.settled && old(o).target is None ==> is_still_at(final(o).alpha, Scalar { bits: 0 }),
        !(r.settled && old(o).target is None) ==> final(o).alpha == old(o).alpha,
        same_identity(*old(o), *final(o)),
        same_surface(*old(o), *final(o)),
        same_wish(*old(o), *final(o)),
        same_rect(*old(o), *final(o)),
        same_clock(*old(o), *final(o)),
        r.alpha == final(o).alpha.value,
        r.visible <==> crate::number_laws::is_number(final(o).alpha.value)
            && crate::number_laws::signed_bits(final(o).alpha.value) > 0x3b44_9ba6,
        r.geometry.x == final(o).x.value,
        r.geometry.y == final(o).y.value,
        r.geometry.w == final(o).w.value,
        r.geometry.h == final(o).h.value,
        r.geometry.radius.bits == 0x4120_0000,
        r.geometry.border.bits == 0x4000_0000,
        r.scale == final(o).scale,
        r.tiling == final(o).tiling,
{
    lemma_settled_needs_all(*o, offsets);
    crate::number_laws::lemma_less_by_bits(Scalar { bits: 0x3b44_9ba6 }, o.alpha.value);
    crate::number_laws::lemma_less_by_bits(Scalar { bits: 0x3b44_9ba6 }, Scalar { bits: 0 });
}

/// The end of a frame asks for another one and keeps the clock running unless the
/// frame has settled, and then stops both; nothing else changes.
pub proof fn lemma_finish_frame_goes_on_or_rests(o: &mut Overlay, frame: Frame, r: bool)
    requires
        call_ensures(Overlay::finish_frame, (o, &frame), r),
    ensures
        r == !frame.settled,
        final(o).animating == r,
        r ==> final(o).last_frame == old(o).last_frame,
        !r ==> final(o).last_frame is None,
        final(o).alpha == old(o).alpha,
        same_identity(*old(o), *final(o)),
        same_surface(*old(o), *final(o)),
        same_wish(*old(o), *final(o)),
        same_rect(*old(o), *final(o)),
{
}

/// The operations on an overlay can be called in every state, with anything.
pub proof fn lemma_overlay_admits_every_call(
    o: &mut Overlay,
    rect: Option<Rect>,
    tiling: bool,
    now: u64,
    elapsed: Scalar,
    plan: FramePlan,
    next: Springs,
    offsets: Offsets,
    frame: Frame,
)
    ensures
        call_requires(Overlay::retarget, (o, rect, tiling)),
        call_requires(Overlay::begin_frame, (o, now, elapsed)),
        call_requires(Overlay::advance_frame, (o, &plan, &next)),
        call_requires(Overlay::settle_frame, (o, &offsets)),
        call_requires(Overlay::finish_frame, (o, &frame)),
        call_requires(Overlay::since_last_frame, (&*old(o), now)),
        call_requires(Overlay::surface_size, (&*old(o),)),
{
}

} // verus!
