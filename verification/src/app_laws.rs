//! What the operations on all overlays do, told overlay by overlay.
use crate::app::{
    AlphaMode, App, AppState, Configuration, IpcEvent, IpcReply, Key, ScaleChange, SurfaceFormat,
    SurfaceSetup,
};
use crate::overlay::{FramePlan, Overlay};
use crate::payload::{Rect, Value};
use crate::scalar::Scalar;
use vstd::prelude::*;

verus! {

/// Whether the overlay at `i` is the first one on a surface.
pub open spec fn is_first_on(overlays: Seq<Overlay>, surface: u64, i: int) -> bool {
    &&& 0 <= i < overlays.len()
    &&& overlays[i].surface == surface
    &&& forall|j: int| 0 <= j < i ==> (#[trigger] overlays[j]).surface != surface
}

/// Whether no overlay is on a surface.
pub open spec fn none_on(overlays: Seq<Overlay>, surface: u64) -> bool {
    forall|j: int| 0 <= j < overlays.len() ==> (#[trigger] overlays[j]).surface != surface
}

/// Whether the overlay at `i` is the first one of an output.
pub open spec fn is_first_of(overlays: Seq<Overlay>, output: u64, i: int) -> bool {
    &&& 0 <= i < overlays.len()
    &&& overlays[i].output == output
    &&& forall|j: int| 0 <= j < i ==> (#[trigger] overlays[j]).output != output
}

/// Whether no overlay is of an output.
pub open spec fn none_of(overlays: Seq<Overlay>, output: u64) -> bool {
    forall|j: int| 0 <= j < overlays.len() ==> (#[trigger] overlays[j]).output != output
}

/// Whether an overlay goes by a name.
pub open spec fn goes_by(o: Overlay, name: Seq<char>) -> bool {
    o.connector is Some && o.connector->0@ == name
}

/// Whether the overlay at `i` is the first one that goes by a name.
pub open spec fn is_first_named(overlays: Seq<Overlay>, name: Seq<char>, i: int) -> bool {
    &&& 0 <= i < overlays.len()
    &&& goes_by(overlays[i], name)
    &&& forall|j: int| 0 <= j < i ==> !goes_by(#[trigger] overlays[j], name)
}

/// Whether no overlay goes by a name.
pub open spec fn none_named(overlays: Seq<Overlay>, name: Seq<char>) -> bool {
    forall|j: int| 0 <= j < overlays.len() ==> !goes_by(#[trigger] overlays[j], name)
}

/// Whether both are the same but for the overlay at `i`.
pub open spec fn differ_at_most_at(a: Seq<Overlay>, b: Seq<Overlay>, i: int) -> bool {
    &&& a.len() == b.len()
    &&& forall|j: int| 0 <= j < a.len() && j != i ==> #[trigger] b[j] == a[j]
}

proof fn lemma_first_on(state: AppState, surface: u64)
    ensures
        match state.first(Key::Surface(surface)) {
            Some(i) => is_first_on(state.overlays, surface, i),
            None => none_on(state.overlays, surface),
        },
        forall|i: int| #[trigger]
            is_first_on(state.overlays, surface, i) ==> state.first(Key::Surface(surface)) == Some(
                i,
            ),
{
    crate::laws::lemma_first_is_first(state, Key::Surface(surface));
    match state.first(Key::Surface(surface)) {
        Some(k) => {
            assert forall|i: int| #[trigger] is_first_on(state.overlays, surface, i) implies k
                == i by {
                if i < k {
                    assert(!Key::Surface(surface).fits(state.overlays[i]));
                }
            }
            assert forall|j: int| 0 <= j < k implies (#[trigger] state.overlays[j]).surface
                != surface by {
                assert(!Key::Surface(surface).fits(state.overlays[j]));
            }
        },
        None => {
            assert forall|j: int| 0 <= j < state.overlays.len() implies (
            #[trigger] state.overlays[j]).surface != surface by {
                assert(!Key::Surface(surface).fits(state.overlays[j]));
            }
        },
    }
}

proof fn lemma_first_of(state: AppState, output: u64)
    ensures
        match state.first(Key::Output(output)) {
            Some(i) => is_first_of(state.overlays, output, i),
            None => none_of(state.overlays, output),
        },
        forall|i: int| #[trigger]
            is_first_of(state.overlays, output, i) ==> state.first(Key::Output(output)) == Some(i),
{
    crate::laws::lemma_first_is_first(state, Key::Output(output));
    match state.first(Key::Output(output)) {
        Some(k) => {
            assert forall|i: int| #[trigger] is_first_of(state.overlays, output, i) implies k
                == i by {
                if i < k {
                    assert(!Key::Output(output).fits(state.overlays[i]));
                }
            }
            assert forall|j: int| 0 <= j < k implies (#[trigger] state.overlays[j]).output
                != output by {
                assert(!Key::Output(output).fits(state.overlays[j]));
            }
        },
        None => {
            assert forall|j: int| 0 <= j < state.overlays.len() implies (
            #[trigger] state.overlays[j]).output != output by {
                assert(!Key::Output(output).fits(state.overlays[j]));
            }
        },
    }
}

proof fn lemma_first_named(state: AppState, name: Seq<char>)
    ensures
        match state.first(Key::Connector(name)) {
            Some(i) => is_first_named(state.overlays, name, i),
            None => none_named(state.overlays, name),
        },
        forall|i: int| #[trigger]
            is_first_named(state.overlays, name, i) ==> state.first(Key::Connector(name)) == Some(
                i,
            ),
{
    crate::laws::lemma_first_is_first(state, Key::Connector(name));
    match state.first(Key::Connector(name)) {
        Some(k) => {
            assert forall|i: int| #[trigger] is_first_named(state.overlays, name, i) implies k
                == i by {
                if i < k {
                    assert(!Key::Connector(name).fits(state.overlays[i]));
                }
            }
            assert forall|j: int| 0 <= j < k implies !goes_by(
                #[trigger] state.overlays[j],
                name,
            ) by {
                assert(!Key::Connector(name).fits(state.overlays[j]));
            }
        },
        None => {
            assert forall|j: int| 0 <= j < state.overlays.len() implies !goes_by(
                #[trigger] state.overlays[j],
                name,
            ) by {
                assert(!Key::Connector(name).fits(state.overlays[j]));
            }
        },
    }
}

/// At the start there is nothing.
pub proof fn lemma_new_app_is_empty(r: App)
    requires
        call_ensures(App::new, (), r),
    ensures
        r.overlays@.len() == 0,
        !r.gpu,
{
}

/// A new output gets a blank overlay behind the others, which stay as they are.
pub proof fn lemma_add_output_appends(
    app: &mut App,
    output: u64,
    surface: u64,
    connector: Option<String>,
)
    requires
        call_ensures(App::add_output, (app, output, surface, connector), ()),
    ensures
        final(app).gpu == old(app).gpu,
        final(app).overlays@.len() == old(app).overlays@.len() + 1,
        forall|i: int|
            0 <= i < old(app).overlays@.len() ==> #[trigger] final(app).overlays@[i] == old(
                app,
            ).overlays@[i],
        crate::overlay_laws::is_blank(
            final(app).overlays@[old(app).overlays@.len() as int],
            output,
            surface,
            connector,
        ),
{
    assert(final(app)@.overlays == app@.added(output, surface, connector).overlays);
}

/// The overlay of a surface is the first one on it.
pub proof fn lemma_index_for_surface_is_the_first(app: App, surface: u64, r: Option<usize>)
    requires
        call_ensures(App::overlay_index_for_surface, (&app, surface), r),
    ensures
        r matches Some(i) ==> is_first_on(app.overlays@, surface, i as int),
        r is None ==> none_on(app.overlays@, surface),
{
    lemma_first_on(app@, surface);
}

/// A preview goes to the first overlay that goes by the name of its monitor, and
/// to no other. That one is to be drawn where it is configured and no frame of it
/// is due, whatever the preview.
pub proof fn lemma_snap_preview_reaches_its_overlay(
    app: &mut App,
    monitor: &str,
    rect: Option<Rect>,
    tiling: bool,
    r: Option<usize>,
    i: int,
)
    requires
        call_ensures(App::apply_snap_preview, (app, monitor, rect, tiling), r),
        is_first_named(old(app).overlays@, monitor@, i),
    ensures
        final(app).gpu == old(app).gpu,
        differ_at_most_at(old(app).overlays@, final(app).overlays@, i),
        crate::overlay_laws::is_retargeted(
            old(app).overlays@[i],
            final(app).overlays@[i],
            rect,
            tiling,
        ),
        r is Some <==> old(app).overlays@[i].configured && !old(app).overlays@[i].animating,
        r matches Some(k) ==> k == i,
{
    lemma_previewed(app@, monitor@, rect, tiling, i);
    assert(final(app)@.overlays == app@.previewed(monitor@, rect, tiling).overlays);
}

/// A preview on a monitor that no overlay is on changes nothing.
pub proof fn lemma_snap_preview_elsewhere_is_nothing(
    app: &mut App,
    monitor: &str,
    rect: Option<Rect>,
    tiling: bool,
    r: Option<usize>,
)
    requires
        call_ensures(App::apply_snap_preview, (app, monitor, rect, tiling), r),
        none_named(old(app).overlays@, monitor@),
    ensures
        final(app).gpu == old(app).gpu,
        final(app).overlays@ == old(app).overlays@,
        r is None,
{
    lemma_previewed_elsewhere(app@, monitor@, rect, tiling);
    assert(final(app)@.overlays == app@.previewed(monitor@, rect, tiling).overlays);
}

proof fn lemma_previewed(
    state: AppState,
    monitor: Seq<char>,
    rect: Option<Rect>,
    tiling: bool,
    i: int,
)
    requires
        is_first_named(state.overlays, monitor, i),
    ensures
        ({
            let after = state.previewed(monitor, rect, tiling);
            &&& after.gpu == state.gpu
            &&& differ_at_most_at(state.overlays, after.overlays, i)
            &&& crate::overlay_laws::is_retargeted(
                state.overlays[i],
                after.overlays[i],
                rect,
                tiling,
            )
            &&& state.woken(monitor) == (if state.overlays[i].configured
                && !state.overlays[i].animating {
                Some(i)
            } else {
                None
            })
        }),
{
    lemma_first_named(state, monitor);
    crate::overlay_laws::lemma_retargeted_goes_there(state.overlays[i], rect, tiling);
}

proof fn lemma_previewed_elsewhere(
    state: AppState,
    monitor: Seq<char>,
    rect: Option<Rect>,
    tiling: bool,
)
    requires
        none_named(state.overlays, monitor),
    ensures
        state.previewed(monitor, rect, tiling) == state,
        state.woken(monitor) is None,
{
    lemma_first_named(state, monitor);
}

/// A preview broadcast puts what its payload says on the first overlay that goes
/// by its monitor's name: its rectangle with any sides at all, or none, and its
/// kind. That overlay is to be drawn where no frame of it is due.
pub proof fn lemma_preview_message_takes_effect(
    app: &mut App,
    event: String,
    payload: Value,
    r: IpcReply,
    monitor: Seq<char>,
    i: int,
)
    requires
        call_ensures(App::handle_ipc, (app, &IpcEvent::Broadcast { event, payload }), r),
        event@ == "snap.preview"@,
        crate::message_laws::holds_text(payload, "monitor"@, monitor),
        is_first_named(old(app).overlays@, monitor, i),
    ensures
        final(app).gpu == old(app).gpu,
        differ_at_most_at(old(app).overlays@, final(app).overlays@, i),
        crate::message_laws::is_place_of(final(app).overlays@[i].target, payload),
        final(app).overlays@[i].tiling <==> crate::message_laws::holds_text(
            payload,
            "kind"@,
            "tiling"@,
        ),
        crate::overlay_laws::is_retargeted(
            old(app).overlays@[i],
            final(app).overlays@[i],
            final(app).overlays@[i].target,
            final(app).overlays@[i].tiling,
        ),
        if old(app).overlays@[i].configured && !old(app).overlays@[i].animating {
            r matches IpcReply::Render(k) && k == i
        } else {
            r is Nothing
        },
{
    crate::message_laws::lemma_text_field_is_the_text(payload, "monitor"@);
    crate::message_laws::lemma_text_field_is_the_text(payload, "kind"@);
    crate::message_laws::lemma_rect_field_is_the_place(payload);
    lemma_previewed(app@, monitor, payload.rect_field(), payload.is_tiling(), i);
    assert(final(app)@.overlays == app@.previewed(
        monitor,
        payload.rect_field(),
        payload.is_tiling(),
    ).overlays);
}

/// Every other message changes nothing: one of the channel is only told on, and a
/// broadcast of another name, without a monitor or for one that no overlay is on
/// asks for nothing.
pub proof fn lemma_other_messages_change_nothing(app: &mut App, message: IpcEvent, r: IpcReply)
    requires
        call_ensures(App::handle_ipc, (app, &message), r),
        message matches IpcEvent::Broadcast { event, payload } ==> (event@ == "snap.preview"@
            ==> forall|monitor: Seq<char>| #[trigger]
            crate::message_laws::holds_text(payload, "monitor"@, monitor) ==> none_named(
                old(app).overlays@,
                monitor,
            )),
    ensures
        final(app).gpu == old(app).gpu,
        final(app).overlays@ == old(app).overlays@,
        r is Connected <==> message is Connected,
        r is Disconnected <==> message is Disconnected,
        !(r is Render),
{
    match message {
        IpcEvent::Broadcast { event, payload } => {
            crate::message_laws::lemma_text_field_is_the_text(payload, "monitor"@);
            if event@ == "snap.preview"@ && payload.text_field("monitor"@) is Some {
                let monitor = payload.text_field("monitor"@)->0;
                lemma_previewed_elsewhere(
                    app@,
                    monitor,
                    payload.rect_field(),
                    payload.is_tiling(),
                );
            }
        },
        _ => {},
    }
    assert(final(app)@ == app@);
}

/// The device is to be opened where it was not, and only then; it is afterwards.
pub proof fn lemma_device_is_opened_once(app: &mut App, r: bool)
    requires
        call_ensures(App::ensure_shared_gpu, (app,), r),
    ensures
        r <==> !old(app).gpu,
        final(app).gpu,
        final(app).overlays@ == old(app).overlays@,
{
    assert(final(app)@.overlays == app@.overlays);
}

/// Setting up a surface opens the device, leaves all else as it is, and takes the
/// first offer of the wanted kind, or the first of all where there is none.
pub proof fn lemma_set_up_takes_the_best_offer(
    app: &mut App,
    index: usize,
    formats: Vec<SurfaceFormat>,
    alpha_modes: Vec<AlphaMode>,
    r: SurfaceSetup,
)
    requires
        call_ensures(App::init_overlay_gpu, (app, index, &formats, &alpha_modes), r),
        index < old(app).overlays@.len(),
        formats@.len() > 0,
        alpha_modes@.len() > 0,
    ensures
        final(app).gpu,
        differ_at_most_at(old(app).overlays@, final(app).overlays@, index as int),
        is_set_up(old(app).overlays@[index as int], final(app).overlays@[index as int]),
        final(app).overlays@[index as int].gpu == Some(r.size),
        r.format < formats@.len(),
        forall|j: int| 0 <= j < r.format ==> !((#[trigger] formats@[j]) is Bgra8Unorm),
        formats@[r.format as int] is Bgra8Unorm || r.format == 0 && forall|j: int|
            0 <= j < formats@.len() ==> !((#[trigger] formats@[j]) is Bgra8Unorm),
        r.alpha_mode < alpha_modes@.len(),
        forall|j: int|
            0 <= j < r.alpha_mode ==> !((#[trigger] alpha_modes@[j]) is PreMultiplied),
        alpha_modes@[r.alpha_mode as int] is PreMultiplied || r.alpha_mode == 0 && forall|j: int|
            0 <= j < alpha_modes@.len() ==> !((#[trigger] alpha_modes@[j]) is PreMultiplied),
{
    formats@.index_of_first_ensures(SurfaceFormat::Bgra8Unorm);
    alpha_modes@.index_of_first_ensures(AlphaMode::PreMultiplied);
    assert(forall|j: int|
        0 <= j < formats@.len() && (#[trigger] formats@[j]) is Bgra8Unorm ==> formats@[j]
            == SurfaceFormat::Bgra8Unorm);
    assert(forall|j: int|
        0 <= j < alpha_modes@.len() && (#[trigger] alpha_modes@[j]) is PreMultiplied
            ==> alpha_modes@[j] == AlphaMode::PreMultiplied);
    lemma_set_up(app@, index as int);
    assert(final(app)@.overlays == app@.set_up(index as int).overlays);
}

/// Whether `after` is `before` with its surface set up for its size.
pub open spec fn is_set_up(before: Overlay, after: Overlay) -> bool {
    &&& after.gpu is Some
    &&& crate::overlay_laws::is_size_of(after.gpu->0, before)
    &&& after.width == before.width
    &&& after.height == before.height
    &&& after.scale == before.scale
    &&& after.configured == before.configured
    &&& after.alpha == before.alpha
    &&& crate::overlay_laws::same_identity(before, after)
    &&& crate::overlay_laws::same_wish(before, after)
    &&& crate::overlay_laws::same_rect(before, after)
    &&& crate::overlay_laws::same_clock(before, after)
}

proof fn lemma_set_up(state: AppState, i: int)
    requires
        0 <= i < state.overlays.len(),
    ensures
        state.set_up(i).gpu,
        differ_at_most_at(state.overlays, state.set_up(i).overlays, i),
        is_set_up(state.overlays[i], state.set_up(i).overlays[i]),
{
    let o = state.overlays[i];
    crate::overlay_laws::lemma_buffer_length_is_scaled(o.width, o.scale);
    crate::overlay_laws::lemma_buffer_length_is_scaled(o.height, o.scale);
}

/// A frame begins on every surface that is set up, with the device open, and on no
/// other, and concerns its overlay alone.
pub proof fn lemma_render_begins_a_frame(
    app: &mut App,
    index: usize,
    now: u64,
    elapsed: Scalar,
    r: Option<FramePlan>,
)
    requires
        call_ensures(App::render_overlay, (app, index, now, elapsed), r),
        index < old(app).overlays@.len(),
    ensures
        final(app).gpu == old(app).gpu,
        differ_at_most_at(old(app).overlays@, final(app).overlays@, index as int),
        r is Some <==> old(app).gpu && old(app).overlays@[index as int].gpu is Some,
        r matches Some(plan) ==> crate::overlay_laws::is_plan_of(
            plan,
            old(app).overlays@[index as int],
            elapsed,
        ),
        r is Some ==> crate::overlay_laws::has_begun(
            old(app).overlays@[index as int],
            final(app).overlays@[index as int],
            now,
        ),
        r is None ==> final(app).overlays@ == old(app).overlays@,
{
    let o = app.overlays@[index as int];
    crate::overlay_laws::lemma_plan_heads_for_the_target(o, elapsed);
    if app.gpu && o.gpu is Some {
        assert(final(app)@.overlays == app@.with(index as int, o.begun(now)).overlays);
    } else {
        assert(final(app)@.overlays == app@.overlays);
    }
}

/// Whether `after` is `before` at another scale, with a surface that was set up
/// resized for it and no other.
pub open spec fn is_rescaled(before: Overlay, after: Overlay, scale: i32) -> bool {
    &&& after.scale == scale
    &&& after.gpu is Some <==> before.gpu is Some
    &&& after.gpu is Some ==> crate::overlay_laws::is_size_of(after.gpu->0, after)
    &&& after.width == before.width
    &&& after.height == before.height
    &&& after.configured == before.configured
    &&& after.alpha == before.alpha
    &&& crate::overlay_laws::same_identity(before, after)
    &&& crate::overlay_laws::same_wish(before, after)
    &&& crate::overlay_laws::same_rect(before, after)
    &&& crate::overlay_laws::same_clock(before, after)
}

/// A new scale goes to the first overlay on its surface, and resizes the surface
/// where it is set up. The scale that it has already changes nothing.
pub proof fn lemma_scale_reaches_its_overlay(
    app: &mut App,
    surface: u64,
    factor: i32,
    r: Option<ScaleChange>,
    i: int,
)
    requires
        call_ensures(App::scale_factor_changed, (app, surface, factor), r),
        is_first_on(old(app).overlays@, surface, i),
    ensures
        final(app).gpu == old(app).gpu,
        differ_at_most_at(old(app).overlays@, final(app).overlays@, i),
        r is Some <==> old(app).overlays@[i].scale != factor,
        r is None ==> final(app).overlays@[i] == old(app).overlays@[i],
        r is Some ==> is_rescaled(old(app).overlays@[i], final(app).overlays@[i], factor),
        r is Some ==> r->0.index == i,
        r is Some && old(app).gpu ==> r->0.resize == final(app).overlays@[i].gpu,
        r is Some && !old(app).gpu ==> r->0.resize is None,
{
    lemma_first_on(app@, surface);
    let o = app.overlays@[i];
    crate::overlay_laws::lemma_buffer_length_is_scaled(o.width, factor);
    crate::overlay_laws::lemma_buffer_length_is_scaled(o.height, factor);
    assert(final(app)@.overlays == app@.scale_set(surface, factor).overlays);
}

/// A scale for a surface that no overlay is on changes nothing.
pub proof fn lemma_scale_elsewhere_is_nothing(
    app: &mut App,
    surface: u64,
    factor: i32,
    r: Option<ScaleChange>,
)
    requires
        call_ensures(App::scale_factor_changed, (app, surface, factor), r),
        none_on(old(app).overlays@, surface),
    ensures
        final(app).gpu == old(app).gpu,
        final(app).overlays@ == old(app).overlays@,
        r is None,
{
    lemma_first_on(app@, surface);
    assert(final(app)@.overlays == app@.scale_set(surface, factor).overlays);
}

/// A frame callback has the first overlay on its surface drawn wherever a frame of
/// it is due, be the preview on its way in or out, and never else.
pub proof fn lemma_callback_draws_what_is_due(app: App, surface: u64, r: Option<usize>, i: int)
    requires
        call_ensures(App::frame, (&app, surface), r),
        is_first_on(app.overlays@, surface, i),
    ensures
        r is Some <==> app.overlays@[i].animating,
        r matches Some(k) ==> k == i,
{
    lemma_first_on(app@, surface);
}

/// A frame callback on a surface that no overlay is on draws nothing.
pub proof fn lemma_callback_elsewhere_is_nothing(app: App, surface: u64, r: Option<usize>)
    requires
        call_ensures(App::frame, (&app, surface), r),
        none_on(app.overlays@, surface),
    ensures
        r is None,
{
    lemma_first_on(app@, surface);
}

/// Whenever a frame ends with another one to follow, the callback on its surface
/// has that overlay drawn again, whatever it is to show.
pub proof fn lemma_unsettled_frame_is_followed(
    app: App,
    i: int,
    frame: crate::overlay::Frame,
    o: &mut Overlay,
    again: bool,
    r: Option<usize>,
)
    requires
        call_ensures(Overlay::finish_frame, (o, &frame), again),
        0 <= i < app.overlays@.len(),
        app.overlays@[i] == *final(o),
        is_first_on(app.overlays@, old(o).surface, i),
        call_ensures(App::frame, (&app, old(o).surface), r),
    ensures
        again ==> (r matches Some(k) && k == i),
        !again ==> r is None,
{
    lemma_first_on(app@, o.surface);
}

/// A name goes to the first overlay of its output and to no other, and is news
/// where it reads otherwise than before or comes or goes.
pub proof fn lemma_name_reaches_its_overlay(
    app: &mut App,
    output: u64,
    name: Option<String>,
    r: bool,
    i: int,
)
    requires
        call_ensures(App::update_output, (app, output, name), r),
        is_first_of(old(app).overlays@, output, i),
    ensures
        final(app).gpu == old(app).gpu,
        differ_at_most_at(old(app).overlays@, final(app).overlays@, i),
        name is None ==> final(app).overlays@[i].connector is None,
        name is Some ==> goes_by(final(app).overlays@[i], name->0@),
        r <==> !(name is None && old(app).overlays@[i].connector is None || name is Some
            && goes_by(old(app).overlays@[i], name->0@)),
        !r ==> final(app).overlays@[i] == old(app).overlays@[i],
        final(app).overlays@[i] == (Overlay {
            connector: final(app).overlays@[i].connector,
            ..old(app).overlays@[i]
        }),
{
    lemma_first_of(app@, output);
    assert(final(app)@.overlays == app@.named(output, name).overlays);
}

/// A name for an output that no overlay is of changes nothing.
pub proof fn lemma_name_elsewhere_is_nothing(
    app: &mut App,
    output: u64,
    name: Option<String>,
    r: bool,
)
    requires
        call_ensures(App::update_output, (app, output, name), r),
        none_of(old(app).overlays@, output),
    ensures
        final(app).gpu == old(app).gpu,
        final(app).overlays@ == old(app).overlays@,
        !r,
{
    lemma_first_of(app@, output);
    assert(final(app)@.overlays == app@.named(output, name).overlays);
}

/// An output that goes takes all its overlays along and leaves all others, in
/// their order.
pub proof fn lemma_output_goes_with_its_overlays(app: &mut App, output: u64)
    requires
        call_ensures(App::output_destroyed, (app, output), ()),
    ensures
        final(app).gpu == old(app).gpu,
        final(app).overlays@ == old(app).overlays@.filter(|o: Overlay| o.output != output),
        none_of(final(app).overlays@, output),
        forall|i: int|
            0 <= i < old(app).overlays@.len() && (#[trigger] old(app).overlays@[i]).output != output
                ==> final(app).overlays@.contains(old(app).overlays@[i]),
{
    broadcast use vstd::seq_lib::group_filter_ensures;

    let key = Key::Output(output);
    let keep = |o: Overlay| o.output != output;
    assert((|o: Overlay| !key.fits(o)) =~= keep);
    assert(final(app)@.overlays == app@.without(key).overlays);
    let left = final(app).overlays@;
    assert(left == app.overlays@.filter(keep));
    assert forall|j: int| 0 <= j < left.len() implies (#[trigger] left[j]).output != output by {
        assert(keep(app.overlays@.filter(keep)[j]));
    }
    assert forall|i: int|
        0 <= i < app.overlays@.len() && (#[trigger] app.overlays@[i]).output
            != output implies left.contains(app.overlays@[i]) by {
        assert(keep(app.overlays@[i]));
        assert(app.overlays@.filter(keep).contains(app.overlays@[i]));
    }
}

/// A surface that closes takes the overlays on it along and leaves all others, in
/// their order.
pub proof fn lemma_surface_goes_with_its_overlays(app: &mut App, surface: u64)
    requires
        call_ensures(App::closed, (app, surface), ()),
    ensures
        final(app).gpu == old(app).gpu,
        final(app).overlays@ == old(app).overlays@.filter(|o: Overlay| o.surface != surface),
        none_on(final(app).overlays@, surface),
        forall|i: int|
            0 <= i < old(app).overlays@.len() && (#[trigger] old(app).overlays@[i]).surface
                != surface ==> final(app).overlays@.contains(old(app).overlays@[i]),
{
    broadcast use vstd::seq_lib::group_filter_ensures;

    let key = Key::Surface(surface);
    let keep = |o: Overlay| o.surface != surface;
    assert((|o: Overlay| !key.fits(o)) =~= keep);
    assert(final(app)@.overlays == app@.without(key).overlays);
    let left = final(app).overlays@;
    assert(left == app.overlays@.filter(keep));
    assert forall|j: int| 0 <= j < left.len() implies (#[trigger] left[j]).surface != surface by {
        assert(keep(app.overlays@.filter(keep)[j]));
    }
    assert forall|i: int|
        0 <= i < app.overlays@.len() && (#[trigger] app.overlays@[i]).surface
            != surface implies left.contains(app.overlays@[i]) by {
        assert(keep(app.overlays@[i]));
        assert(app.overlays@.filter(keep).contains(app.overlays@[i]));
    }
}

/// Whether `after` is `before` with a new size, of one pixel each way at least. A
/// surface that was set up before is resized where the size is another one.
pub open spec fn is_sized(before: Overlay, after: Overlay, width: u32, height: u32) -> bool {
    &&& after.configured
    &&& after.width >= 1 && (width >= 1 ==> after.width == width) && (width == 0 ==> after.width
        == 1)
    &&& after.height >= 1 && (height >= 1 ==> after.height == height) && (height == 0
        ==> after.height == 1)
    &&& after.scale == before.scale
    &&& if before.configured && before.gpu is Some && !(before.width == width && before.height
        == height) {
        after.gpu is Some && crate::overlay_laws::is_size_of(after.gpu->0, after)
    } else {
        after.gpu == before.gpu
    }
    &&& after.alpha == before.alpha
    &&& crate::overlay_laws::same_identity(before, after)
    &&& crate::overlay_laws::same_wish(before, after)
    &&& crate::overlay_laws::same_rect(before, after)
    &&& crate::overlay_laws::same_clock(before, after)
}

/// A configure goes to the first overlay on its surface. The first one asks for the
/// setup of the surface; a later one with another size asks for its new size, where
/// it is set up.
pub proof fn lemma_configure_reaches_its_overlay(
    app: &mut App,
    surface: u64,
    width: u32,
    height: u32,
    r: Option<Configuration>,
    i: int,
)
    requires
        call_ensures(App::configure, (app, surface, width, height), r),
        is_first_on(old(app).overlays@, surface, i),
    ensures
        final(app).gpu == old(app).gpu,
        differ_at_most_at(old(app).overlays@, final(app).overlays@, i),
        is_sized(old(app).overlays@[i], final(app).overlays@[i], width, height),
        r is Some && r->0.index == i,
        r->0.init <==> !old(app).overlays@[i].configured,
        r->0.resize == (if old(app).gpu && old(app).overlays@[i].configured && !(old(
            app,
        ).overlays@[i].width == width && old(app).overlays@[i].height == height) {
            final(app).overlays@[i].gpu
        } else {
            None
        }),
{
    lemma_first_on(app@, surface);
    let after = app.overlays@[i].sized(width, height);
    crate::overlay_laws::lemma_buffer_length_is_scaled(after.width, after.scale);
    crate::overlay_laws::lemma_buffer_length_is_scaled(after.height, after.scale);
    assert(final(app)@.overlays == app@.sized(surface, width, height).overlays);
}

/// A configure of a surface that no overlay is on changes nothing.
pub proof fn lemma_configure_elsewhere_is_nothing(
    app: &mut App,
    surface: u64,
    width: u32,
    height: u32,
    r: Option<Configuration>,
)
    requires
        call_ensures(App::configure, (app, surface, width, height), r),
        none_on(old(app).overlays@, surface),
    ensures
        final(app).gpu == old(app).gpu,
        final(app).overlays@ == old(app).overlays@,
        r is None,
{
    lemma_first_on(app@, surface);
    assert(final(app)@.overlays == app@.sized(surface, width, height).overlays);
}

/// Of overlays however come about, each opacity is between none and full, or no
/// number; a frame is due, or one has begun, only on a surface that is set up.
pub proof fn lemma_reached_overlays_are_sound(events: Seq<crate::laws::Event>, i: int)
    requires
        crate::laws::can_run(AppState { gpu: false, overlays: Seq::empty() }, events),
        0 <= i < crate::laws::run(
            AppState { gpu: false, overlays: Seq::empty() },
            events,
        ).overlays.len(),
    ensures
        ({
            let o = crate::laws::run(
                AppState { gpu: false, overlays: Seq::empty() },
                events,
            ).overlays[i];
            &&& crate::number_laws::is_number(o.alpha.value) ==> 0
                <= crate::number_laws::signed_bits(o.alpha.value) <= 0x3f80_0000
            &&& o.animating ==> o.gpu is Some
            &&& o.last_frame is Some ==> o.gpu is Some
        }),
{
    crate::laws::lemma_history_keeps_order(events);
    let o = crate::laws::run(AppState { gpu: false, overlays: Seq::empty() }, events).overlays[i];
    crate::number_laws::lemma_less_by_bits(o.alpha.value, Scalar { bits: 0 });
    crate::number_laws::lemma_less_by_bits(Scalar { bits: 0x3f80_0000 }, o.alpha.value);
    crate::scalar::lemma_units_follow_magnitude(0, 0x3f80_0000);
}

/// The operations on all overlays can be called in every state, with anything;
/// only the two that take an index need one that is there, and the setup of a
/// surface needs offers to take one of.
pub proof fn lemma_app_admits_every_call(
    app: &mut App,
    number: u64,
    other: u64,
    name: Option<String>,
    text: &str,
    rect: Option<Rect>,
    tiling: bool,
    message: IpcEvent,
    factor: i32,
    width: u32,
    height: u32,
    index: usize,
    elapsed: Scalar,
    formats: Vec<SurfaceFormat>,
    alpha_modes: Vec<AlphaMode>,
)
    ensures
        call_requires(App::add_output, (app, number, other, name)),
        call_requires(App::overlay_index_for_surface, (&*old(app), number)),
        call_requires(App::apply_snap_preview, (app, text, rect, tiling)),
        call_requires(App::handle_ipc, (app, &message)),
        call_requires(App::ensure_shared_gpu, (app,)),
        call_requires(App::scale_factor_changed, (app, number, factor)),
        call_requires(App::frame, (&*old(app), number)),
        call_requires(App::update_output, (app, number, name)),
        call_requires(App::output_destroyed, (app, number)),
        call_requires(App::closed, (app, number)),
        call_requires(App::configure, (app, number, width, height)),
        !old(app).gpu || index < old(app).overlays@.len() ==> call_requires(
            App::render_overlay,
            (app, index, number, elapsed),
        ),
        index < old(app).overlays@.len() && formats@.len() > 0 && alpha_modes@.len() > 0
            ==> call_requires(App::init_overlay_gpu, (app, index, &formats, &alpha_modes)),
{
}

} // verus!
