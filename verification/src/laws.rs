//! What holds of the overlays as a whole, whatever happens to them.
use crate::app::{AppState, Key};
use crate::overlay::{Offsets, Overlay, Springs, SurfaceSize};
use crate::payload::Rect;
use crate::scalar::{Scalar, ONE, ZERO};
use crate::spring::Spring;
use vstd::prelude::*;

verus! {

/// What comes in while a frame is drawn.
pub struct Drawing {
    /// When the frame begins, and how many seconds after the last one.
    pub now: u64,
    pub elapsed: Scalar,
    /// Where the arithmetic of the steps leads.
    pub next: Springs,
    /// How far from their targets that leaves the springs.
    pub offsets: Offsets,
    /// Whether the frame makes it to the screen.
    pub presented: bool,
}

/// Something that happens to the overlays.
pub enum Event {
    OutputAdded { output: u64, surface: u64, connector: Option<String> },
    OutputNamed { output: u64, name: Option<String> },
    OutputGone { output: u64 },
    SurfaceClosed { surface: u64 },
    ScaleChanged { surface: u64, scale: i32 },
    /// A surface has a new size; the first time, it is set up for drawing.
    Configured { surface: u64, width: u32, height: u32 },
    Preview { monitor: Seq<char>, rect: Option<Rect>, tiling: bool },
    FrameCallback { surface: u64 },
    /// The overlay at `index` is drawn.
    Drawn { index: int, drawing: Drawing },
}

impl Overlay {
    /// The overlay once its springs have moved in a frame.
    pub open spec fn moved(self, drawing: Drawing) -> Overlay {
        self.begun(drawing.now).advanced(self.plan(drawing.elapsed), drawing.next)
    }

    /// The overlay after a frame.
    pub open spec fn drawn(self, drawing: Drawing) -> Overlay {
        let moved = self.moved(drawing);
        let judged = moved.judged(drawing.offsets);
        if drawing.presented {
            judged.finished(moved.is_settled(drawing.offsets))
        } else {
            judged
        }
    }

    /// The overlay after a run of frames.
    pub open spec fn drawn_all(self, drawings: Seq<Drawing>) -> Overlay
        decreases drawings.len(),
    {
        if drawings.len() == 0 {
            self
        } else {
            self.drawn_all(drawings.drop_last()).drawn(drawings.last())
        }
    }

    /// Whether the rectangle stands still where it is to be.
    pub open spec fn stands(self) -> bool {
        let rect = self.rect_target();
        &&& stands_at(self.x, rect.x)
        &&& stands_at(self.y, rect.y)
        &&& stands_at(self.w, rect.w)
        &&& stands_at(self.h, rect.h)
    }
}

/// Whether a spring stands still at a number.
pub open spec fn stands_at(spring: Spring, at: Scalar) -> bool {
    &&& spring.value.is_finite()
    &&& spring.value.equals(at)
    &&& spring.velocity.equals(crate::overlay::scalar(ZERO))
}

/// Whether the time that passes before each frame is a number.
pub open spec fn are_timed(drawings: Seq<Drawing>) -> bool {
    forall|i: int| 0 <= i < drawings.len() ==> !(#[trigger] drawings[i]).elapsed.is_nan()
}

impl AppState {
    /// Whether an event can happen: a surface is drawn only once it is set up.
    pub open spec fn admits(self, event: Event) -> bool {
        match event {
            Event::Drawn { index, .. } => 0 <= index < self.overlays.len()
                && self.overlays[index].gpu is Some,
            _ => true,
        }
    }

    /// The overlays after an event.
    pub open spec fn after(self, event: Event) -> AppState {
        match event {
            Event::OutputAdded { output, surface, connector } => self.added(
                output,
                surface,
                connector,
            ),
            Event::OutputNamed { output, name } => self.named(output, name),
            Event::OutputGone { output } => self.without(Key::Output(output)),
            Event::SurfaceClosed { surface } => self.without(Key::Surface(surface)),
            Event::ScaleChanged { surface, scale } => self.scale_set(surface, scale),
            Event::Configured { surface, width, height } => self.configured(
                surface,
                width,
                height,
            ),
            Event::Preview { monitor, rect, tiling } => self.previewed(monitor, rect, tiling),
            Event::FrameCallback { .. } => self,
            Event::Drawn { index, drawing } => self.with(
                index,
                self.overlays[index].drawn(drawing),
            ),
        }
    }

    /// The overlay that an event asks to draw.
    pub open spec fn asked_for(self, event: Event) -> Option<int> {
        match event {
            Event::Preview { monitor, .. } => self.woken(monitor),
            Event::Configured { surface, .. } => self.first(Key::Surface(surface)),
            Event::FrameCallback { surface } => self.called_back(surface),
            _ => None,
        }
    }

    /// Whether no overlay has a frame due.
    pub open spec fn all_asleep(self) -> bool {
        forall|i: int| 0 <= i < self.overlays.len() ==> !(#[trigger] self.overlays[i]).animating
    }
}

/// The overlays after a run of events.
pub open spec fn run(start: AppState, events: Seq<Event>) -> AppState
    decreases events.len(),
{
    if events.len() == 0 {
        start
    } else {
        run(start, events.drop_last()).after(events.last())
    }
}

/// Whether each event of a run can happen when its turn comes.
pub open spec fn can_run(start: AppState, events: Seq<Event>) -> bool
    decreases events.len(),
{
    events.len() > 0 ==> can_run(start, events.drop_last()) && run(
        start,
        events.drop_last(),
    ).admits(events.last())
}

/// Whether an event is neither a broadcast, nor a configure, nor a frame.
pub open spec fn is_quiet(event: Event) -> bool {
    !(event is Preview || event is Configured || event is Drawn)
}

/// The first overlay that fits is one that fits, and none before it does. There
/// is none exactly where no overlay fits.
pub proof fn lemma_first_is_first(state: AppState, key: Key)
    ensures
        match state.first(key) {
            Some(i) => {
                &&& 0 <= i < state.overlays.len()
                &&& key.fits(state.overlays[i])
                &&& forall|j: int| 0 <= j < i ==> !key.fits(#[trigger] state.overlays[j])
            },
            None => forall|j: int|
                0 <= j < state.overlays.len() ==> !key.fits(#[trigger] state.overlays[j]),
        },
{
    lemma_first_from(state.overlays, key, 0);
}

proof fn lemma_first_from(overlays: Seq<Overlay>, key: Key, start: int)
    requires
        0 <= start,
    ensures
        match crate::app::first_from(overlays, key, start) {
            Some(i) => {
                &&& start <= i < overlays.len()
                &&& key.fits(overlays[i])
                &&& forall|j: int| start <= j < i ==> !key.fits(#[trigger] overlays[j])
            },
            None => forall|j: int|
                start <= j < overlays.len() ==> !key.fits(#[trigger] overlays[j]),
        },
    decreases overlays.len() - start,
{
    if start < overlays.len() && !key.fits(overlays[start]) {
        lemma_first_from(overlays, key, start + 1);
    }
}

/// A frame leaves an overlay in order, whatever the steps led to, and whether or
/// not it made it to the screen.
pub proof fn lemma_frame_keeps_order(overlay: Overlay, drawing: Drawing)
    requires
        overlay.wf(),
        overlay.gpu is Some,
    ensures
        overlay.drawn(drawing).wf(),
{
    crate::scalar::lemma_units_follow_magnitude(ZERO as int, ONE as int);
}

/// Whatever can happen to overlays that are in order leaves them in order.
pub proof fn lemma_event_keeps_order(state: AppState, event: Event)
    requires
        state.wf(),
        state.admits(event),
    ensures
        state.after(event).wf(),
{
    match event {
        Event::OutputNamed { output, .. } => {
            lemma_first_is_first(state, Key::Output(output));
        },
        Event::OutputGone { output } => {
            crate::app::lemma_without_is_wf(state, Key::Output(output));
        },
        Event::SurfaceClosed { surface } => {
            crate::app::lemma_without_is_wf(state, Key::Surface(surface));
        },
        Event::ScaleChanged { surface, .. } => {
            lemma_first_is_first(state, Key::Surface(surface));
        },
        Event::Configured { surface, .. } => {
            lemma_first_is_first(state, Key::Surface(surface));
        },
        Event::Preview { monitor, .. } => {
            lemma_first_is_first(state, Key::Connector(monitor));
        },
        Event::Drawn { index, drawing } => {
            lemma_frame_keeps_order(state.overlays[index], drawing);
        },
        _ => {},
    }
}

/// However the overlays came about, they are in order: each surface is set up
/// for the size that its overlay has, and each opacity is in `[0, 1]`.
pub proof fn lemma_history_keeps_order(events: Seq<Event>)
    requires
        can_run(AppState { gpu: false, overlays: Seq::empty() }, events),
    ensures
        run(AppState { gpu: false, overlays: Seq::empty() }, events).wf(),
    decreases events.len(),
{
    let start = AppState { gpu: false, overlays: Seq::<Overlay>::empty() };
    if events.len() > 0 {
        lemma_history_keeps_order(events.drop_last());
        lemma_event_keeps_order(run(start, events.drop_last()), events.last());
    }
}

/// The frame in which the springs settle is the last one: no callback is asked
/// for, and the next frame starts afresh.
pub proof fn lemma_settled_frame_is_the_last(overlay: Overlay, drawing: Drawing)
    requires
        drawing.presented,
    ensures
        overlay.moved(drawing).is_settled(drawing.offsets) == overlay.drawn(drawing).asleep(),
        overlay.moved(drawing).is_settled(drawing.offsets) == !overlay.drawn(drawing).animating,
{
}

/// Once a preview without a target has settled it is gone, and the frame that
/// finds it so draws nothing.
pub proof fn lemma_faded_preview_is_hidden(overlay: Overlay, drawing: Drawing)
    requires
        overlay.target is None,
        overlay.moved(drawing).is_settled(drawing.offsets),
    ensures
        overlay.drawn(drawing).is_hidden(),
        !overlay.drawn(drawing).shown(true).visible,
{
    crate::scalar::lemma_units_follow_magnitude(
        ZERO as int,
        crate::overlay::INVISIBLE_ALPHA as int,
    );
}

/// Between events, exactly the overlays that have a size are set up for drawing.
pub proof fn lemma_event_keeps_ready(state: AppState, event: Event)
    requires
        state.is_ready(),
        state.admits(event),
    ensures
        state.after(event).is_ready(),
{
    match event {
        Event::OutputNamed { output, .. } => {
            lemma_first_is_first(state, Key::Output(output));
        },
        Event::OutputGone { output } => {
            let key = Key::Output(output);
            crate::app::lemma_filter_only_drops(state.overlays, |o: Overlay| !key.fits(o));
        },
        Event::SurfaceClosed { surface } => {
            let key = Key::Surface(surface);
            crate::app::lemma_filter_only_drops(state.overlays, |o: Overlay| !key.fits(o));
        },
        Event::ScaleChanged { surface, .. } => {
            lemma_first_is_first(state, Key::Surface(surface));
        },
        Event::Configured { surface, .. } => {
            lemma_first_is_first(state, Key::Surface(surface));
        },
        Event::Preview { monitor, .. } => {
            lemma_first_is_first(state, Key::Connector(monitor));
        },
        _ => {},
    }
}

/// However the overlays came about, exactly those that have a size are set up for
/// drawing, with the shared device open, and for their size times their scale.
pub proof fn lemma_configured_is_set_up(events: Seq<Event>, i: int)
    requires
        can_run(AppState { gpu: false, overlays: Seq::empty() }, events),
        0 <= i < run(AppState { gpu: false, overlays: Seq::empty() }, events).overlays.len(),
    ensures
        ({
            let state = run(AppState { gpu: false, overlays: Seq::empty() }, events);
            let o = state.overlays[i];
            &&& o.configured == (o.gpu is Some)
            &&& o.configured ==> state.gpu && o.width >= 1 && o.height >= 1
            &&& o.configured && o.scale >= 0 && o.width * o.scale <= u32::MAX && o.height * o.scale
                <= u32::MAX ==> o.gpu == Some(
                SurfaceSize {
                    width: (o.width * o.scale) as u32,
                    height: (o.height * o.scale) as u32,
                },
            )
        }),
{
    let start = AppState { gpu: false, overlays: Seq::<Overlay>::empty() };
    lemma_history_keeps_order(events);
    lemma_history_keeps_ready(start, events);
    let o = run(start, events).overlays[i];
    if o.scale >= 0 && o.width * o.scale <= u32::MAX && o.height * o.scale <= u32::MAX {
        lemma_buffer_is_scaled(o.width, o.scale);
        lemma_buffer_is_scaled(o.height, o.scale);
    }
}

proof fn lemma_history_keeps_ready(start: AppState, events: Seq<Event>)
    requires
        start.is_ready(),
        can_run(start, events),
    ensures
        run(start, events).is_ready(),
    decreases events.len(),
{
    if events.len() > 0 {
        lemma_history_keeps_ready(start, events.drop_last());
        lemma_event_keeps_ready(run(start, events.drop_last()), events.last());
    }
}

/// Whether an event adds no output that has an overlay already.
pub open spec fn adds_new_only(state: AppState, event: Event) -> bool {
    event matches Event::OutputAdded { output, .. } ==> state.first(Key::Output(output)) is None
}

/// Whether each event of a run adds no output that has an overlay already.
pub open spec fn run_adds_new_only(start: AppState, events: Seq<Event>) -> bool
    decreases events.len(),
{
    events.len() > 0 ==> run_adds_new_only(start, events.drop_last()) && adds_new_only(
        run(start, events.drop_last()),
        events.last(),
    )
}

/// Where no output is announced twice, no event gives one a second overlay.
pub proof fn lemma_event_keeps_one_per_output(state: AppState, event: Event)
    requires
        state.is_one_per_output(),
        adds_new_only(state, event),
        state.admits(event),
    ensures
        state.after(event).is_one_per_output(),
{
    match event {
        Event::OutputAdded { output, .. } => {
            lemma_first_is_first(state, Key::Output(output));
        },
        Event::OutputNamed { output, .. } => {
            lemma_first_is_first(state, Key::Output(output));
        },
        Event::OutputGone { output } => {
            let key = Key::Output(output);
            lemma_filter_keeps_one_per_output(state.overlays, |o: Overlay| !key.fits(o));
        },
        Event::SurfaceClosed { surface } => {
            let key = Key::Surface(surface);
            lemma_filter_keeps_one_per_output(state.overlays, |o: Overlay| !key.fits(o));
        },
        Event::ScaleChanged { surface, .. } => {
            lemma_first_is_first(state, Key::Surface(surface));
        },
        Event::Configured { surface, .. } => {
            lemma_first_is_first(state, Key::Surface(surface));
        },
        Event::Preview { monitor, .. } => {
            lemma_first_is_first(state, Key::Connector(monitor));
        },
        _ => {},
    }
}

/// However the overlays came about, there is one per output at most, where no
/// output was announced while it had one.
pub proof fn lemma_history_keeps_one_per_output(events: Seq<Event>)
    requires
        can_run(AppState { gpu: false, overlays: Seq::empty() }, events),
        run_adds_new_only(AppState { gpu: false, overlays: Seq::empty() }, events),
    ensures
        run(AppState { gpu: false, overlays: Seq::empty() }, events).is_one_per_output(),
    decreases events.len(),
{
    let start = AppState { gpu: false, overlays: Seq::<Overlay>::empty() };
    if events.len() > 0 {
        lemma_history_keeps_one_per_output(events.drop_last());
        lemma_event_keeps_one_per_output(run(start, events.drop_last()), events.last());
    }
}

/// An output that has just been announced has an overlay.
pub proof fn lemma_added_output_has_an_overlay(
    state: AppState,
    output: u64,
    surface: u64,
    connector: Option<String>,
)
    ensures
        state.added(output, surface, connector).first(Key::Output(output)) is Some,
{
    let added = state.added(output, surface, connector);
    lemma_first_is_first(added, Key::Output(output));
    assert(added.overlays[added.overlays.len() - 1].output == output);
}

proof fn lemma_filter_keeps_one_per_output(s: Seq<Overlay>, keep: spec_fn(Overlay) -> bool)
    requires
        forall|i: int, j: int|
            0 <= i < j < s.len() ==> (#[trigger] s[i]).output != (#[trigger] s[j]).output,
    ensures
        forall|i: int, j: int|
            0 <= i < j < s.filter(keep).len() ==> (#[trigger] s.filter(keep)[i]).output != (
            #[trigger] s.filter(keep)[j]).output,
    decreases s.len(),
{
    reveal(Seq::filter);
    if s.len() > 0 {
        let rest = s.drop_last();
        lemma_filter_keeps_one_per_output(rest, keep);
        crate::app::lemma_filter_only_drops(rest, keep);
        let left = s.filter(keep);
        assert forall|i: int, j: int| 0 <= i < j < left.len() implies (#[trigger] left[i]).output
            != (#[trigger] left[j]).output by {
            let before = rest.filter(keep);
            assert(left[i] == before[i]);
            if j < before.len() {
                assert(left[j] == before[j]);
            } else {
                let k = choose|k: int| 0 <= k < rest.len() && rest[k] == before[i];
                assert(s[k] == left[i] && left[j] == s[s.len() - 1]);
            }
        }
    }
}

/// While no overlay has a frame due, an event that is neither a broadcast nor a
/// configure has nothing drawn and leaves it so.
pub proof fn lemma_quiet_event_keeps_sleep(state: AppState, event: Event)
    requires
        state.all_asleep(),
        is_quiet(event),
        state.admits(event),
    ensures
        state.asked_for(event) is None,
        state.after(event).all_asleep(),
{
    match event {
        Event::OutputNamed { output, .. } => {
            lemma_first_is_first(state, Key::Output(output));
        },
        Event::OutputGone { output } => {
            let key = Key::Output(output);
            crate::app::lemma_filter_only_drops(state.overlays, |o: Overlay| !key.fits(o));
        },
        Event::SurfaceClosed { surface } => {
            let key = Key::Surface(surface);
            crate::app::lemma_filter_only_drops(state.overlays, |o: Overlay| !key.fits(o));
        },
        Event::ScaleChanged { surface, .. } => {
            lemma_first_is_first(state, Key::Surface(surface));
        },
        Event::FrameCallback { surface } => {
            lemma_first_is_first(state, Key::Surface(surface));
        },
        _ => {},
    }
}

/// Once every overlay is asleep, nothing is drawn, however long it takes, until
/// the next broadcast or configure.
pub proof fn lemma_sleep_lasts(start: AppState, events: Seq<Event>, next: Event)
    requires
        start.all_asleep(),
        can_run(start, events),
        forall|i: int| 0 <= i < events.len() ==> is_quiet(#[trigger] events[i]),
        is_quiet(next),
        run(start, events).admits(next),
    ensures
        run(start, events).all_asleep(),
        run(start, events).asked_for(next) is None,
    decreases events.len(),
{
    if events.len() > 0 {
        let before = events.drop_last();
        assert forall|i: int| 0 <= i < before.len() implies is_quiet(#[trigger] before[i]) by {
            assert(before[i] == events[i]);
        }
        lemma_sleep_lasts(start, before, events.last());
        lemma_quiet_event_keeps_sleep(run(start, before), events.last());
    }
    lemma_quiet_event_keeps_sleep(run(start, events), next);
}

/// A broadcast wakes an overlay that is asleep and can draw. A frame of it
/// follows, and it takes the first time step, however long the sleep was.
pub proof fn lemma_preview_wakes(
    state: AppState,
    monitor: Seq<char>,
    rect: Option<Rect>,
    tiling: bool,
    drawing: Drawing,
)
    requires
        state.wf(),
        state.is_ready(),
        state.first(Key::Connector(monitor)) is Some,
        state.overlays[state.first(Key::Connector(monitor))->0].asleep(),
        state.overlays[state.first(Key::Connector(monitor))->0].configured,
    ensures
        ({
            let index = state.first(Key::Connector(monitor))->0;
            let after = state.previewed(monitor, rect, tiling);
            &&& state.asked_for(Event::Preview { monitor, rect, tiling }) == Some(index)
            &&& after.gpu
            &&& after.overlays[index].gpu is Some
            &&& after.admits(Event::Drawn { index, drawing })
            &&& after.overlays[index].time_step(drawing.elapsed) == crate::overlay::scalar(
                crate::overlay::FIRST_STEP,
            )
        }),
{
    lemma_first_is_first(state, Key::Connector(monitor));
}

/// A preview on one monitor leaves the overlays of all others as they are.
pub proof fn lemma_preview_stays_on_its_monitor(
    state: AppState,
    monitor: Seq<char>,
    rect: Option<Rect>,
    tiling: bool,
    i: int,
)
    requires
        0 <= i < state.overlays.len(),
        !state.overlays[i].is_named(monitor),
    ensures
        state.previewed(monitor, rect, tiling).overlays.len() == state.overlays.len(),
        state.previewed(monitor, rect, tiling).overlays[i] == state.overlays[i],
{
    lemma_first_is_first(state, Key::Connector(monitor));
}

/// The same preview twice is the same as once.
pub proof fn lemma_preview_is_idempotent(
    state: AppState,
    monitor: Seq<char>,
    rect: Option<Rect>,
    tiling: bool,
)
    ensures
        state.previewed(monitor, rect, tiling).previewed(monitor, rect, tiling) == state.previewed(
            monitor,
            rect,
            tiling,
        ),
{
    lemma_first_is_first(state, Key::Connector(monitor));
    let once = state.previewed(monitor, rect, tiling);
    lemma_first_is_first(once, Key::Connector(monitor));
    match state.first(Key::Connector(monitor)) {
        Some(i) => {
            assert(once.overlays[i].is_named(monitor));
            match once.first(Key::Connector(monitor)) {
                Some(k) => {
                    if k < i {
                        assert(once.overlays[k] == state.overlays[k]);
                    }
                    assert(k == i);
                },
                None => {},
            }
            assert(once.previewed(monitor, rect, tiling).overlays =~= once.overlays);
        },
        None => {},
    }
}

/// Only the last preview counts for one that can be seen.
pub proof fn lemma_last_preview_counts(
    overlay: Overlay,
    first: Option<Rect>,
    first_tiling: bool,
    last: Option<Rect>,
    last_tiling: bool,
)
    requires
        !overlay.alpha.value.less(crate::overlay::scalar(crate::overlay::GONE_ALPHA)),
    ensures
        overlay.retargeted(first, first_tiling).retargeted(last, last_tiling) == overlay.retargeted(
            last,
            last_tiling,
        ),
{
}

/// A preview that appears from nothing stands still at its target from the first
/// frame on, and only its opacity has a way to go.
pub proof fn lemma_preview_appears_in_place(
    overlay: Overlay,
    rect: Rect,
    tiling: bool,
    elapsed: Scalar,
)
    requires
        overlay.is_gone(),
    ensures
        ({
            let plan = overlay.retargeted(Some(rect), tiling).plan(elapsed);
            &&& plan.x.from == Spring::still(plan.x.target) && plan.x.target == rect.x
            &&& plan.y.from == Spring::still(plan.y.target) && plan.y.target == rect.y
            &&& plan.w.from == Spring::still(plan.w.target) && plan.w.target == rect.w
            &&& plan.h.from == Spring::still(plan.h.target) && plan.h.target == rect.h
            &&& plan.alpha.from == overlay.alpha
            &&& plan.alpha.target == crate::overlay::scalar(ONE)
        }),
{
}

/// A preview that goes away fades out where it is.
pub proof fn lemma_preview_fades_in_place(overlay: Overlay, tiling: bool, elapsed: Scalar)
    ensures
        ({
            let plan = overlay.retargeted(None, tiling).plan(elapsed);
            &&& plan.x.from == overlay.x && plan.x.target == overlay.x.value
            &&& plan.y.from == overlay.y && plan.y.target == overlay.y.value
            &&& plan.w.from == overlay.w && plan.w.target == overlay.w.value
            &&& plan.h.from == overlay.h && plan.h.target == overlay.h.value
            &&& plan.alpha.from == overlay.alpha
            &&& plan.alpha.target == crate::overlay::scalar(ZERO)
        }),
{
}

/// No frame steps over less than the shortest or more than the longest time,
/// whatever time has passed.
pub proof fn lemma_time_step_is_bounded(overlay: Overlay, elapsed: Scalar)
    requires
        !elapsed.is_nan(),
    ensures
        !overlay.time_step(elapsed).is_nan(),
        crate::overlay::scalar(crate::overlay::MIN_STEP).units() <= overlay.time_step(
            elapsed,
        ).units() <= crate::overlay::scalar(crate::overlay::MAX_STEP).units(),
{
    let (low, first, high) = (
        crate::overlay::MIN_STEP as int,
        crate::overlay::FIRST_STEP as int,
        crate::overlay::MAX_STEP as int,
    );
    crate::scalar::lemma_units_follow_magnitude(low, first);
    crate::scalar::lemma_units_follow_magnitude(first, high);
}

/// The time step of a frame is a positive factor, whatever time has passed.
proof fn lemma_time_step_is_a_factor(overlay: Overlay, elapsed: Scalar)
    requires
        !elapsed.is_nan(),
    ensures
        crate::spring::is_factor(overlay.time_step(elapsed)),
{
    lemma_time_step_is_bounded(overlay, elapsed);
    let dt = overlay.time_step(elapsed);
    let (low, high, infinity) = (
        crate::overlay::MIN_STEP as int,
        crate::overlay::MAX_STEP as int,
        crate::scalar::INFINITY as int,
    );
    crate::scalar::lemma_units_follow_magnitude(0, low);
    crate::scalar::lemma_units_follow_magnitude(0, dt.magnitude());
    crate::scalar::lemma_units_follow_magnitude(high, infinity);
    crate::scalar::lemma_units_follow_magnitude(high, dt.magnitude());
}

/// Each step of a rectangle that stands still is one of a spring at rest.
pub proof fn lemma_standing_rect_is_at_rest(overlay: Overlay, elapsed: Scalar)
    requires
        overlay.stands(),
        !elapsed.is_nan(),
    ensures
        overlay.plan(elapsed).x.is_at_rest(),
        overlay.plan(elapsed).y.is_at_rest(),
        overlay.plan(elapsed).w.is_at_rest(),
        overlay.plan(elapsed).h.is_at_rest(),
{
    lemma_time_step_is_a_factor(overlay, elapsed);
}

/// A rectangle that stands still where it is to be does not move, in any frame of
/// any run of them, whatever the arithmetic says and however the opacity goes. It
/// is the same to the bit but for the sign of a zero.
pub proof fn lemma_standing_rect_stays(overlay: Overlay, drawings: Seq<Drawing>)
    requires
        overlay.stands(),
        are_timed(drawings),
    ensures
        ({
            let after = overlay.drawn_all(drawings);
            &&& after.stands()
            &&& after.target == overlay.target
            &&& is_unmoved(overlay.x, after.x)
            &&& is_unmoved(overlay.y, after.y)
            &&& is_unmoved(overlay.w, after.w)
            &&& is_unmoved(overlay.h, after.h)
        }),
    decreases drawings.len(),
{
    if drawings.len() > 0 {
        let before = drawings.drop_last();
        assert(are_timed(before)) by {
            assert forall|i: int| 0 <= i < before.len() implies !(
            #[trigger] before[i]).elapsed.is_nan() by {
                assert(before[i] == drawings[i]);
            }
        }
        lemma_standing_rect_stays(overlay, before);
        lemma_standing_rect_is_at_rest(overlay.drawn_all(before), drawings.last().elapsed);
    }
}

/// Whether a spring stands where it stood: the same number to the bit, or the same
/// zero with its sign dropped, and still not moving.
pub open spec fn is_unmoved(before: Spring, after: Spring) -> bool {
    &&& after.value.equals(before.value)
    &&& after.velocity.equals(crate::overlay::scalar(ZERO))
    &&& after == before || after == Spring::still(crate::spring::plus_zero(before.value))
}

/// A preview that appears from nothing stays at its target in every frame that
/// follows, and only fades in.
pub proof fn lemma_appeared_preview_only_fades(
    overlay: Overlay,
    rect: Rect,
    tiling: bool,
    drawings: Seq<Drawing>,
)
    requires
        overlay.is_gone(),
        rect.x.is_finite(),
        rect.y.is_finite(),
        rect.w.is_finite(),
        rect.h.is_finite(),
        are_timed(drawings),
    ensures
        ({
            let after = overlay.retargeted(Some(rect), tiling).drawn_all(drawings);
            &&& after.target == Some(rect)
            &&& is_unmoved(Spring::still(rect.x), after.x)
            &&& is_unmoved(Spring::still(rect.y), after.y)
            &&& is_unmoved(Spring::still(rect.w), after.w)
            &&& is_unmoved(Spring::still(rect.h), after.h)
        }),
{
    lemma_standing_rect_stays(overlay.retargeted(Some(rect), tiling), drawings);
}

/// A preview that goes away while it stands still fades out where it is, in every
/// frame that follows.
pub proof fn lemma_standing_preview_fades_in_place(
    overlay: Overlay,
    tiling: bool,
    drawings: Seq<Drawing>,
)
    requires
        overlay.stands(),
        are_timed(drawings),
    ensures
        ({
            let after = overlay.retargeted(None, tiling).drawn_all(drawings);
            &&& after.target is None
            &&& is_unmoved(overlay.x, after.x)
            &&& is_unmoved(overlay.y, after.y)
            &&& is_unmoved(overlay.w, after.w)
            &&& is_unmoved(overlay.h, after.h)
        }),
{
    lemma_standing_rect_stays(overlay.retargeted(None, tiling), drawings);
}

/// The same configure twice leaves the overlays as once does.
pub proof fn lemma_configure_is_idempotent(state: AppState, surface: u64, width: u32, height: u32)
    requires
        state.wf(),
    ensures
        state.configured(surface, width, height).configured(surface, width, height) == state.configured(
            surface,
            width,
            height,
        ),
{
    let key = Key::Surface(surface);
    lemma_first_is_first(state, key);
    let once = state.configured(surface, width, height);
    lemma_first_is_first(once, key);
    match state.first(key) {
        Some(i) => {
            assert(once.overlays[i].surface == surface);
            match once.first(key) {
                Some(k) => {
                    if k < i {
                        assert(once.overlays[k] == state.overlays[k]);
                    }
                    assert(k == i);
                },
                None => {},
            }
            assert(once.configured(surface, width, height).overlays =~= once.overlays);
        },
        None => {},
    }
}

/// What is taken away is gone, and a second time takes nothing more away.
pub proof fn lemma_gone_is_gone(state: AppState, key: Key)
    ensures
        state.without(key).first(key) is None,
        state.without(key).without(key) == state.without(key),
{
    let keep = |o: Overlay| !key.fits(o);
    let left = state.without(key);
    assert(left.overlays == state.overlays.filter(keep));
    broadcast use vstd::seq_lib::group_filter_ensures;

    assert forall|j: int| 0 <= j < left.overlays.len() implies keep(
        #[trigger] left.overlays[j],
    ) by {}
    lemma_first_is_first(left, key);
    crate::app::lemma_filter_keeps(left.overlays, keep);
}

/// A buffer is as large as its scale times its logical size, where that fits.
pub proof fn lemma_buffer_is_scaled(length: u32, scale: i32)
    requires
        scale >= 0,
        length * scale <= u32::MAX,
    ensures
        crate::overlay::buffer_length(length, scale) == length * scale,
{
    assert(0 <= length * scale) by (nonlinear_arith)
        requires
            scale >= 0,
    ;
}

} // verus!
