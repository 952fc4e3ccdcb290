use minka_fx::app::{
    AlphaMode, App, Configuration, IpcEvent, IpcReply, ScaleChange, SurfaceFormat,
};
use minka_fx::overlay::{FramePlan, FrameReach, Offsets, Reach, Springs, SurfaceSize};
use minka_fx::payload::{Rect, Value};
use minka_fx::scalar::Scalar;
use minka_fx::spring::{Spring, SpringStep};

const FRAME: u64 = 16_666_667;

const BGRA: SurfaceFormat = SurfaceFormat::Bgra8Unorm;

const OTHER: SurfaceFormat = SurfaceFormat::Other;

fn s(x: f32) -> Scalar {
    Scalar { bits: x.to_bits() }
}

fn f(x: Scalar) -> f32 {
    f32::from_bits(x.bits)
}

fn rect(x: f32, y: f32, w: f32, h: f32) -> Rect {
    Rect { x: s(x), y: s(y), w: s(w), h: s(h) }
}

fn size(width: u32, height: u32) -> SurfaceSize {
    SurfaceSize { width, height }
}

fn integrate(step: &SpringStep) -> Spring {
    let (value, velocity) = (f(step.from.value), f(step.from.velocity));
    let accel = f(step.stiffness) * (f(step.target) - value) - f(step.damping) * velocity;
    let velocity = velocity + accel * f(step.dt);
    Spring { value: s(value + velocity * f(step.dt)), velocity: s(velocity) }
}

fn springs(plan: &FramePlan) -> Springs {
    Springs {
        x: integrate(&plan.x),
        y: integrate(&plan.y),
        w: integrate(&plan.w),
        h: integrate(&plan.h),
        alpha: integrate(&plan.alpha),
    }
}

fn offsets(reach: &FrameReach) -> Offsets {
    let less = |r: &Reach| s(f(r.value) - f(r.target));
    Offsets {
        x: less(&reach.x),
        y: less(&reach.y),
        w: less(&reach.w),
        h: less(&reach.h),
        alpha: less(&reach.alpha),
    }
}

/// Draws the overlay at `index`; returns whether another frame is to follow, and
/// whether this one shows anything.
fn draw(app: &mut App, index: usize, now: u64) -> (bool, bool) {
    let elapsed = app.overlays[index].since_last_frame(now).map_or(0.0, |n| n as f32 / 1.0e9);
    let plan = app.render_overlay(index, now, s(elapsed)).expect("a frame");
    let overlay = &mut app.overlays[index];
    let reach = overlay.advance_frame(&plan, &springs(&plan));
    let frame = overlay.settle_frame(&offsets(&reach));
    let again = overlay.finish_frame(&frame);
    (again, frame.visible)
}

/// One output `DP-1` at 1920x1080, set up and drawn once.
fn running() -> App {
    let mut app = App::new();
    app.add_output(1, 10, Some("DP-1".to_string()));
    let configuration = app.configure(10, 1920, 1080).unwrap();
    assert_eq!(configuration, Configuration { index: 0, init: true, resize: None });
    let setup = app.init_overlay_gpu(0, &vec![OTHER, BGRA, BGRA], &vec![AlphaMode::Other, AlphaMode::Other]);
    assert_eq!(setup.format, 1);
    assert_eq!(setup.alpha_mode, 0);
    assert_eq!(setup.size, size(1920, 1080));
    assert_eq!(draw(&mut app, 0, 0), (false, false));
    app
}

fn run_until_asleep(app: &mut App, index: usize, now: &mut u64) -> usize {
    for frames in 1..1000 {
        *now += FRAME;
        if !draw(app, index, *now).0 {
            return frames;
        }
    }
    panic!("the animation never came to rest");
}

fn broadcast(event: &str, entries: Vec<(&str, Value)>) -> IpcEvent {
    IpcEvent::Broadcast {
        event: event.to_string(),
        payload: Value::Object(entries.into_iter().map(|(k, v)| (k.to_string(), v)).collect()),
    }
}

#[test]
fn a_new_overlay_is_empty_and_asleep() {
    let mut app = App::new();
    assert!(!app.gpu);
    assert!(app.overlays.is_empty());
    app.add_output(7, 8, None);
    let overlay = &app.overlays[0];
    assert_eq!((overlay.output, overlay.surface), (7, 8));
    assert!(overlay.connector.is_none());
    assert_eq!((overlay.width, overlay.height, overlay.scale), (0, 0, 1));
    assert!(!overlay.configured && !overlay.animating && !overlay.tiling);
    assert!(overlay.gpu.is_none() && overlay.target.is_none() && overlay.last_frame.is_none());
    assert_eq!(overlay.alpha, Spring::new(s(0.0)));
}

#[test]
fn no_frame_without_device_or_surface() {
    let mut app = App::new();
    app.add_output(1, 10, None);
    assert!(app.render_overlay(0, 5, s(0.0)).is_none());
    assert!(app.ensure_shared_gpu());
    assert!(!app.ensure_shared_gpu());
    assert!(app.render_overlay(0, 5, s(0.0)).is_none());
    assert!(app.overlays[0].last_frame.is_none());
}

#[test]
fn preview_appears_in_place_and_fades_in() {
    let mut app = running();
    assert_eq!(app.apply_snap_preview("DP-1", Some(rect(10.0, 20.0, 300.0, 200.0)), true), Some(0));
    let overlay = &app.overlays[0];
    assert_eq!(overlay.x, Spring::new(s(10.0)));
    assert_eq!(overlay.y, Spring::new(s(20.0)));
    assert_eq!(overlay.w, Spring::new(s(300.0)));
    assert_eq!(overlay.h, Spring::new(s(200.0)));
    assert!(overlay.tiling);
    let mut now = 1_000;
    assert_eq!(draw(&mut app, 0, now), (true, true));
    assert_eq!(app.frame(10), Some(0));
    run_until_asleep(&mut app, 0, &mut now);
    let overlay = &app.overlays[0];
    assert_eq!(overlay.x, Spring::new(s(10.0)));
    assert!(f(overlay.alpha.value) > 0.99 && f(overlay.alpha.value) <= 1.0);
}

#[test]
fn a_shown_preview_springs_to_the_next_target() {
    let mut app = running();
    app.apply_snap_preview("DP-1", Some(rect(0.0, 0.0, 100.0, 100.0)), false);
    let mut now = 0;
    run_until_asleep(&mut app, 0, &mut now);
    app.apply_snap_preview("DP-1", Some(rect(500.0, 0.0, 100.0, 100.0)), false);
    assert_eq!(app.overlays[0].x.value, s(0.0));
    assert!(run_until_asleep(&mut app, 0, &mut now) > 5);
    assert!((f(app.overlays[0].x.value) - 500.0).abs() < 0.3);
}

#[test]
fn a_preview_fades_out_where_it_is() {
    let mut app = running();
    app.apply_snap_preview("DP-1", Some(rect(10.0, 20.0, 300.0, 200.0)), false);
    let mut now = 0;
    run_until_asleep(&mut app, 0, &mut now);
    assert_eq!(app.apply_snap_preview("DP-1", None, false), Some(0));
    assert!(run_until_asleep(&mut app, 0, &mut now) > 1);
    let overlay = &app.overlays[0];
    assert_eq!(overlay.x, Spring::new(s(10.0)));
    assert_eq!(overlay.h, Spring::new(s(200.0)));
    assert_eq!(overlay.alpha, Spring::new(s(0.0)));
    assert!(overlay.target.is_none());
}

#[test]
fn settled_springs_stop_the_frames() {
    let mut app = running();
    app.apply_snap_preview("DP-1", Some(rect(10.0, 20.0, 300.0, 200.0)), false);
    let mut now = 0;
    run_until_asleep(&mut app, 0, &mut now);
    assert!(app.overlays[0].target.is_some());
    assert!(!app.overlays[0].animating);
    assert!(app.overlays[0].last_frame.is_none());
    assert_eq!(app.frame(10), None);
    app.scale_factor_changed(10, 2);
    app.update_output(1, Some("HDMI-A-1".to_string()));
    app.add_output(2, 20, Some("DP-2".to_string()));
    assert_eq!(app.frame(10), None);
    assert_eq!(app.apply_snap_preview("HDMI-A-1", None, false), Some(0));
}

#[test]
fn the_last_frame_of_a_fade_out_draws_nothing() {
    let mut app = running();
    app.apply_snap_preview("DP-1", Some(rect(10.0, 20.0, 300.0, 200.0)), false);
    let mut now = 0;
    run_until_asleep(&mut app, 0, &mut now);
    app.apply_snap_preview("DP-1", None, false);
    let mut last = (true, true);
    while last.0 {
        now += FRAME;
        last = draw(&mut app, 0, now);
    }
    assert_eq!(last, (false, false));
}

#[test]
fn a_running_animation_is_not_kicked_again() {
    let mut app = running();
    app.apply_snap_preview("DP-1", Some(rect(10.0, 20.0, 300.0, 200.0)), false);
    assert_eq!(draw(&mut app, 0, 0), (true, true));
    assert_eq!(app.apply_snap_preview("DP-1", Some(rect(0.0, 0.0, 9.0, 9.0)), false), None);
    assert_eq!(app.overlays[0].target, Some(rect(0.0, 0.0, 9.0, 9.0)));
}

#[test]
fn an_unconfigured_overlay_is_not_kicked() {
    let mut app = App::new();
    app.add_output(1, 10, Some("DP-1".to_string()));
    assert_eq!(app.apply_snap_preview("DP-1", Some(rect(1.0, 2.0, 3.0, 4.0)), false), None);
    assert_eq!(app.overlays[0].target, Some(rect(1.0, 2.0, 3.0, 4.0)));
    assert_eq!(app.overlays[0].w, Spring::new(s(3.0)));
}

#[test]
fn time_steps_are_bounded() {
    let mut app = running();
    app.apply_snap_preview("DP-1", Some(rect(10.0, 20.0, 300.0, 200.0)), false);
    assert_eq!(app.overlays[0].since_last_frame(99), None);
    let first = app.render_overlay(0, 100, s(9.0)).unwrap();
    assert_eq!(first.x.dt, s(1.0 / 60.0));
    assert_eq!(app.overlays[0].since_last_frame(150), Some(50));
    assert_eq!(app.overlays[0].since_last_frame(50), Some(0));
    assert_eq!(app.render_overlay(0, 150, s(9.0)).unwrap().alpha.dt, s(0.05));
    assert_eq!(app.render_overlay(0, 151, s(0.0)).unwrap().h.dt, s(0.0001));
    assert_eq!(app.render_overlay(0, 152, s(0.01)).unwrap().w.dt, s(0.01));
}

#[test]
fn a_plan_holds_the_springs_and_their_targets() {
    let mut app = running();
    app.apply_snap_preview("DP-1", Some(rect(10.0, 20.0, 300.0, 200.0)), false);
    let shown = app.render_overlay(0, 1, s(0.0)).unwrap();
    assert_eq!(
        shown.y,
        SpringStep {
            from: Spring::new(s(20.0)),
            target: s(20.0),
            dt: s(1.0 / 60.0),
            stiffness: s(700.0),
            damping: s(45.0),
        }
    );
    assert_eq!(
        shown.alpha,
        SpringStep {
            from: Spring::new(s(0.0)),
            target: s(1.0),
            dt: s(1.0 / 60.0),
            stiffness: s(900.0),
            damping: s(60.0),
        }
    );
}

#[test]
fn opacity_never_leaves_its_interval() {
    let mut app = running();
    app.apply_snap_preview("DP-1", Some(rect(10.0, 20.0, 300.0, 200.0)), false);
    let plan = app.render_overlay(0, 1, s(0.0)).unwrap();
    let mut next = springs(&plan);
    next.alpha = Spring { value: s(1.5), velocity: s(4.0) };
    let reach = app.overlays[0].advance_frame(&plan, &next);
    assert_eq!(reach.alpha, Reach { value: s(1.0), target: s(1.0) });
    assert_eq!(app.overlays[0].alpha, Spring { value: s(1.0), velocity: s(4.0) });
    next.alpha.value = s(-0.25);
    assert_eq!(app.overlays[0].advance_frame(&plan, &next).alpha.value, s(0.0));
}

#[test]
fn a_frame_that_is_not_presented_changes_no_callback() {
    let mut app = running();
    app.apply_snap_preview("DP-1", Some(rect(10.0, 20.0, 300.0, 200.0)), false);
    let plan = app.render_overlay(0, 77, s(0.0)).unwrap();
    let reach = app.overlays[0].advance_frame(&plan, &springs(&plan));
    let frame = app.overlays[0].settle_frame(&offsets(&reach));
    assert!(!frame.settled);
    assert!(!app.overlays[0].animating);
    assert_eq!(app.overlays[0].last_frame, Some(77));
    assert_eq!(app.apply_snap_preview("DP-1", None, false), Some(0));
}

#[test]
fn a_frame_shows_the_springs_in_logical_pixels() {
    let mut app = running();
    app.scale_factor_changed(10, 2);
    app.apply_snap_preview("DP-1", Some(rect(10.0, 20.0, 300.0, 200.0)), true);
    let plan = app.render_overlay(0, 77, s(0.0)).unwrap();
    let reach = app.overlays[0].advance_frame(&plan, &springs(&plan));
    let frame = app.overlays[0].settle_frame(&offsets(&reach));
    assert_eq!(frame.geometry.x, s(10.0));
    assert_eq!(frame.geometry.h, s(200.0));
    assert_eq!(frame.geometry.radius, s(10.0));
    assert_eq!(frame.geometry.border, s(2.0));
    assert_eq!(frame.scale, 2);
    assert!(frame.tiling);
    assert_eq!(frame.alpha, app.overlays[0].alpha.value);
}

#[test]
fn a_preview_stays_on_its_monitor() {
    let mut app = running();
    app.add_output(2, 20, Some("DP-2".to_string()));
    assert_eq!(app.apply_snap_preview("DP-2", Some(rect(1.0, 2.0, 3.0, 4.0)), true), None);
    assert!(app.overlays[0].target.is_none() && !app.overlays[0].tiling);
    assert!(app.overlays[1].tiling);
    assert_eq!(app.apply_snap_preview("DP-3", Some(rect(1.0, 2.0, 3.0, 4.0)), false), None);
    assert!(app.overlays[0].target.is_none() && app.overlays[1].tiling);
}

#[test]
fn the_same_preview_twice_is_as_once() {
    let mut app = running();
    let target = Some(rect(10.0, 20.0, 300.0, 200.0));
    app.apply_snap_preview("DP-1", target, true);
    let (x, alpha) = (app.overlays[0].x, app.overlays[0].alpha);
    app.apply_snap_preview("DP-1", target, true);
    assert_eq!((app.overlays[0].x, app.overlays[0].alpha), (x, alpha));
    assert_eq!(app.overlays[0].target, target);
    assert!(app.overlays[0].tiling);
}

#[test]
fn the_last_preview_counts() {
    let mut app = running();
    app.apply_snap_preview("DP-1", Some(rect(0.0, 0.0, 100.0, 100.0)), false);
    let mut now = 0;
    run_until_asleep(&mut app, 0, &mut now);
    app.apply_snap_preview("DP-1", None, false);
    app.apply_snap_preview("DP-1", Some(rect(50.0, 0.0, 100.0, 100.0)), true);
    assert_eq!(app.overlays[0].x.value, s(0.0));
    assert_eq!(app.overlays[0].target, Some(rect(50.0, 0.0, 100.0, 100.0)));
    assert!(app.overlays[0].tiling);
}

#[test]
fn messages_reach_the_overlays() {
    let mut app = running();
    assert_eq!(app.handle_ipc(&IpcEvent::Connected), IpcReply::Connected);
    assert_eq!(app.handle_ipc(&IpcEvent::Disconnected), IpcReply::Disconnected);
    assert_eq!(app.handle_ipc(&IpcEvent::Response), IpcReply::Nothing);
    let place = || {
        Value::Object(vec![
            ("x".to_string(), Value::Number(s(5.0))),
            ("y".to_string(), Value::Number(s(6.0))),
            ("w".to_string(), Value::Number(s(7.0))),
            ("h".to_string(), Value::Number(s(8.0))),
        ])
    };
    let on = |monitor: &str| {
        vec![
            ("monitor", Value::Text(monitor.to_string())),
            ("rect", place()),
            ("kind", Value::Text("tiling".to_string())),
        ]
    };
    assert_eq!(app.handle_ipc(&broadcast("workspace.changed", on("DP-1"))), IpcReply::Nothing);
    assert_eq!(app.handle_ipc(&broadcast("snap.preview", on("DP-9"))), IpcReply::Nothing);
    assert_eq!(app.handle_ipc(&broadcast("snap.preview", vec![("rect", place())])), IpcReply::Nothing);
    assert!(app.overlays[0].target.is_none());
    assert_eq!(app.handle_ipc(&broadcast("snap.preview", on("DP-1"))), IpcReply::Render(0));
    assert_eq!(app.overlays[0].target, Some(rect(5.0, 6.0, 7.0, 8.0)));
    assert!(app.overlays[0].tiling);
}

#[test]
fn a_rect_that_is_not_whole_hides_the_preview() {
    let mut app = running();
    app.apply_snap_preview("DP-1", Some(rect(0.0, 0.0, 100.0, 100.0)), true);
    let message = broadcast(
        "snap.preview",
        vec![
            ("monitor", Value::Text("DP-1".to_string())),
            ("rect", Value::Object(vec![("x".to_string(), Value::Number(s(5.0)))])),
        ],
    );
    assert_eq!(app.handle_ipc(&message), IpcReply::Render(0));
    assert!(app.overlays[0].target.is_none());
    assert!(!app.overlays[0].tiling);
}

#[test]
fn configure_sizes_the_surface() {
    let mut app = running();
    assert_eq!(
        app.configure(10, 1920, 1080),
        Some(Configuration { index: 0, init: false, resize: None })
    );
    assert_eq!(
        app.configure(10, 1280, 720),
        Some(Configuration { index: 0, init: false, resize: Some(size(1280, 720)) })
    );
    assert_eq!(app.overlays[0].gpu, Some(size(1280, 720)));
    assert_eq!(app.configure(99, 1, 1), None);
}

#[test]
fn a_size_of_zero_is_one_pixel() {
    let mut app = App::new();
    app.add_output(1, 10, None);
    app.configure(10, 0, 0);
    assert_eq!((app.overlays[0].width, app.overlays[0].height), (1, 1));
    let setup = app.init_overlay_gpu(0, &vec![OTHER], &vec![AlphaMode::PreMultiplied]);
    assert_eq!(setup.size, size(1, 1));
    assert_eq!(setup.format, 0);
    assert_eq!(
        app.configure(10, 0, 0),
        Some(Configuration { index: 0, init: false, resize: Some(size(1, 1)) })
    );
    assert_eq!(app.overlays[0].gpu, Some(size(1, 1)));
}

#[test]
fn scale_resizes_the_surface() {
    let mut app = running();
    assert_eq!(app.scale_factor_changed(10, 1), None);
    assert_eq!(
        app.scale_factor_changed(10, 2),
        Some(ScaleChange { index: 0, resize: Some(size(3840, 2160)) })
    );
    assert_eq!(app.overlays[0].gpu, Some(size(3840, 2160)));
    assert_eq!(
        app.configure(10, 100, 50),
        Some(Configuration { index: 0, init: false, resize: Some(size(200, 100)) })
    );
    assert_eq!(app.scale_factor_changed(11, 3), None);
}

#[test]
fn scale_before_setup_only_is_noted() {
    let mut app = App::new();
    app.add_output(1, 10, None);
    assert_eq!(app.scale_factor_changed(10, 3), Some(ScaleChange { index: 0, resize: None }));
    app.configure(10, 100, 50);
    assert_eq!(app.init_overlay_gpu(0, &vec![BGRA], &vec![AlphaMode::PreMultiplied]).size, size(300, 150));
}

#[test]
fn a_buffer_length_wraps_past_its_width() {
    let mut app = App::new();
    app.add_output(1, 10, None);
    app.configure(10, 0x8000_0001, 5);
    app.scale_factor_changed(10, 2);
    assert_eq!(app.overlays[0].surface_size(), size(2, 10));
    app.scale_factor_changed(10, -1);
    assert_eq!(app.overlays[0].surface_size(), size(0x7fff_ffff, 0xffff_fffb));
}

#[test]
fn names_arrive_and_change() {
    let mut app = App::new();
    app.add_output(1, 10, None);
    assert!(!app.update_output(1, None));
    assert!(app.update_output(1, Some("DP-1".to_string())));
    assert!(!app.update_output(1, Some("DP-1".to_string())));
    assert_eq!(app.overlays[0].connector.as_deref(), Some("DP-1"));
    assert!(app.update_output(1, None));
    assert!(app.overlays[0].connector.is_none());
    assert!(!app.update_output(2, Some("DP-2".to_string())));
}

#[test]
fn what_is_gone_is_gone() {
    let mut app = App::new();
    app.add_output(1, 10, None);
    app.add_output(2, 20, None);
    app.add_output(1, 30, None);
    app.add_output(3, 40, None);
    let surfaces = |app: &App| app.overlays.iter().map(|o| o.surface).collect::<Vec<_>>();
    app.output_destroyed(1);
    assert_eq!(surfaces(&app), vec![20, 40]);
    app.output_destroyed(1);
    assert_eq!(surfaces(&app), vec![20, 40]);
    app.closed(20);
    assert_eq!(surfaces(&app), vec![40]);
    assert_eq!(app.overlay_index_for_surface(20), None);
    assert_eq!(app.overlay_index_for_surface(40), Some(0));
}

#[test]
fn the_first_overlay_that_fits_counts() {
    let mut app = App::new();
    app.add_output(1, 10, Some("DP-1".to_string()));
    app.add_output(2, 20, Some("DP-1".to_string()));
    app.apply_snap_preview("DP-1", Some(rect(1.0, 2.0, 3.0, 4.0)), true);
    assert!(app.overlays[0].tiling && !app.overlays[1].tiling);
}

#[test]
fn the_first_premultiplied_mode_is_taken() {
    let mut app = App::new();
    app.add_output(1, 10, None);
    app.configure(10, 4, 3);
    let modes = vec![AlphaMode::Other, AlphaMode::Other, AlphaMode::PreMultiplied];
    let setup = app.init_overlay_gpu(0, &vec![BGRA, OTHER, BGRA], &modes);
    assert_eq!((setup.format, setup.alpha_mode), (0, 2));
    assert!(app.gpu);
}

#[test]
fn a_spring_at_rest_lands_where_the_arithmetic_does() {
    let values = [0.0, -0.0, 1.0, -2.5, 1920.0, f32::MAX, f32::MIN, f32::MIN_POSITIVE, 1.0e-40];
    for value in values {
        for velocity in [0.0, -0.0] {
            for target in [value, value + 0.0, if value == 0.0 { -0.0 } else { value }] {
                for dt in [0.0001, 1.0 / 60.0, 0.05] {
                    let step = SpringStep {
                        from: Spring { value: s(value), velocity: s(velocity) },
                        target: s(target),
                        dt: s(dt),
                        stiffness: s(700.0),
                        damping: s(45.0),
                    };
                    let wrong = Spring::new(s(12345.0));
                    assert_eq!(step.land(wrong), integrate(&step), "{value} {velocity} {target}");
                }
            }
        }
    }
}

#[test]
fn a_spring_on_its_way_lands_where_it_is_told() {
    let from = Spring::new(s(1.0));
    let step = |from: Spring, target: f32, dt: f32| SpringStep {
        from,
        target: s(target),
        dt: s(dt),
        stiffness: s(700.0),
        damping: s(45.0),
    };
    let next = Spring { value: s(7.0), velocity: s(8.0) };
    assert_eq!(step(from, 2.0, 0.01).land(next), next);
    assert_eq!(step(Spring { value: s(1.0), velocity: s(3.0) }, 1.0, 0.01).land(next), next);
    assert_eq!(step(from, 1.0, f32::NAN).land(next), next);
    assert_eq!(step(from, 1.0, -0.01).land(next), next);
    assert_eq!(step(Spring::new(s(f32::INFINITY)), f32::INFINITY, 0.01).land(next), next);
    assert_eq!(step(Spring::new(s(f32::NAN)), f32::NAN, 0.01).land(next), next);
}

#[test]
fn a_preview_that_appeared_never_moves() {
    let mut app = running();
    app.apply_snap_preview("DP-1", Some(rect(-0.0, 20.25, 300.0, 200.0)), false);
    let mut now = 0;
    for visible in [true, false] {
        if !visible {
            app.apply_snap_preview("DP-1", None, false);
        }
        let mut again = true;
        while again {
            now += FRAME / 3;
            again = draw(&mut app, 0, now).0;
            let overlay = &app.overlays[0];
            assert_eq!(overlay.x, Spring::new(s(0.0)));
            assert_eq!(overlay.y, Spring::new(s(20.25)));
            assert_eq!(overlay.w, Spring::new(s(300.0)));
            assert_eq!(overlay.h, Spring::new(s(200.0)));
        }
    }
}

#[test]
fn exactly_the_configured_overlays_are_set_up() {
    let mut app = running();
    app.add_output(2, 20, Some("DP-2".to_string()));
    app.scale_factor_changed(10, 3);
    app.configure(10, 640, 360);
    app.output_destroyed(7);
    for overlay in &app.overlays {
        assert_eq!(overlay.configured, overlay.gpu.is_some());
    }
    assert_eq!(app.overlays[0].gpu, Some(size(1920, 1080)));
    assert!(app.apply_snap_preview("DP-1", None, false).is_some());
    assert!(app.render_overlay(0, 1, s(0.0)).is_some());
}
