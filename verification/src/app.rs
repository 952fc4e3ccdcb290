//! All overlays together: what outputs, surfaces and broadcasts do to them, and
//! what is to be drawn or set up in reply.
//!
//! Outputs and surfaces go by numbers here. Whoever owns them hands out one
//! number per output and one per surface.
use crate::overlay::{FramePlan, Overlay, SurfaceSize};
use crate::payload::{Rect, Value};
use crate::scalar::Scalar;
use vstd::prelude::*;

verus! {

/// What arrives over the message channel.
pub enum IpcEvent {
    Connected,
    Disconnected,
    Broadcast { event: String, payload: Value },
    Response,
}

/// What a message asks for.
#[derive(Clone, Copy, Debug, PartialEq, Eq, Structural)]
pub enum IpcReply {
    Nothing,
    /// The channel is up.
    Connected,
    /// The channel is lost and being retried.
    Disconnected,
    /// The overlay at this index is to be drawn.
    Render(usize),
}

/// What a new scale asks for.
#[derive(Clone, Copy, Debug, PartialEq, Eq, Structural)]
pub struct ScaleChange {
    pub index: usize,
    /// The size to set the surface up for again, if it is set up at all.
    pub resize: Option<SurfaceSize>,
}

/// What a configure event asks for before the overlay is drawn.
#[derive(Clone, Copy, Debug, PartialEq, Eq, Structural)]
pub struct Configuration {
    pub index: usize,
    /// Whether the surface is to be set up for drawing for the first time.
    pub init: bool,
    /// The size to set the surface up for again.
    pub resize: Option<SurfaceSize>,
}

/// A pixel format that a surface offers.
#[derive(Clone, Copy, Debug, PartialEq, Eq, Structural)]
pub enum SurfaceFormat {
    /// Blue, green, red and alpha, a byte each, as they are.
    Bgra8Unorm,
    Other,
}

/// A way to blend a surface that it offers.
#[derive(Clone, Copy, Debug, PartialEq, Eq, Structural)]
pub enum AlphaMode {
    /// The colours are multiplied by the opacity already.
    PreMultiplied,
    Other,
}

/// How a surface is set up for drawing.
#[derive(Clone, Copy, Debug, PartialEq, Eq, Structural)]
pub struct SurfaceSetup {
    /// Which of the formats on offer.
    pub format: usize,
    /// Which of the alpha modes on offer.
    pub alpha_mode: usize,
    pub size: SurfaceSize,
}

/// The overlays of all outputs.
pub struct App {
    /// Whether the graphics device that all surfaces share has been opened.
    pub gpu: bool,
    pub overlays: Vec<Overlay>,
}

/// The overlays as a value.
#[verifier::ext_equal]
pub struct AppState {
    pub gpu: bool,
    pub overlays: Seq<Overlay>,
}

impl View for App {
    type V = AppState;

    open spec fn view(&self) -> AppState {
        AppState { gpu: self.gpu, overlays: self.overlays@ }
    }
}

/// By what an overlay is looked up.
pub enum Key {
    Connector(Seq<char>),
    Output(u64),
    Surface(u64),
}

impl Key {
    pub open spec fn fits(self, overlay: Overlay) -> bool {
        match self {
            Key::Connector(name) => overlay.is_named(name),
            Key::Output(output) => overlay.output == output,
            Key::Surface(surface) => overlay.surface == surface,
        }
    }
}

/// The index of the first overlay from `start` on that fits.
pub open spec fn first_from(overlays: Seq<Overlay>, key: Key, start: int) -> Option<int>
    decreases overlays.len() - start,
{
    if start < 0 || start >= overlays.len() {
        None
    } else if key.fits(overlays[start]) {
        Some(start)
    } else {
        first_from(overlays, key, start + 1)
    }
}

/// The index of the first offer that is the wanted one, or of the first of all.
pub open spec fn first_or_zero<T>(offered: Seq<T>, wanted: T) -> int {
    match offered.index_of_first(wanted) {
        Some(i) => i,
        None => 0,
    }
}

impl AppState {
    /// What every operation keeps: each overlay is in order, and no surface is
    /// set up without the shared device.
    pub open spec fn wf(self) -> bool {
        &&& forall|i: int| 0 <= i < self.overlays.len() ==> (#[trigger] self.overlays[i]).wf()
        &&& forall|i: int|
            0 <= i < self.overlays.len() && (#[trigger] self.overlays[i]).gpu is Some ==> self.gpu
    }

    /// The index of the first overlay that fits.
    pub open spec fn first(self, key: Key) -> Option<int> {
        first_from(self.overlays, key, 0)
    }

    /// The same overlays but for the one at `index`.
    pub open spec fn with(self, index: int, overlay: Overlay) -> AppState {
        AppState { overlays: self.overlays.update(index, overlay), ..self }
    }

    /// The overlays that do not fit, in their order.
    pub open spec fn without(self, key: Key) -> AppState {
        AppState { overlays: self.overlays.filter(|o: Overlay| !key.fits(o)), ..self }
    }

    /// The overlays and one for a new output behind them.
    pub open spec fn added(
        self,
        output: u64,
        surface: u64,
        connector: Option<String>,
    ) -> AppState {
        AppState { overlays: self.overlays.push(Overlay::fresh(output, surface, connector)), ..self }
    }

    /// The overlays once the one on `monitor` has its preview at `rect`.
    pub open spec fn previewed(self, monitor: Seq<char>, rect: Option<Rect>, tiling: bool) -> AppState {
        match self.first(Key::Connector(monitor)) {
            Some(i) => self.with(i, self.overlays[i].retargeted(rect, tiling)),
            None => self,
        }
    }

    /// The overlay that a preview on `monitor` wakes.
    pub open spec fn woken(self, monitor: Seq<char>) -> Option<int> {
        match self.first(Key::Connector(monitor)) {
            Some(i) => if self.overlays[i].can_wake() {
                Some(i)
            } else {
                None
            },
            None => None,
        }
    }

    /// The overlays once a surface has been told its scale; the same one again
    /// changes nothing.
    pub open spec fn scale_set(self, surface: u64, scale: i32) -> AppState {
        match self.first(Key::Surface(surface)) {
            Some(i) => if self.overlays[i].scale != scale {
                self.with(i, self.overlays[i].rescaled(scale))
            } else {
                self
            },
            None => self,
        }
    }

    /// The overlay that a frame callback on `surface` is for.
    pub open spec fn called_back(self, surface: u64) -> Option<int> {
        match self.first(Key::Surface(surface)) {
            Some(i) => if self.overlays[i].animating {
                Some(i)
            } else {
                None
            },
            None => None,
        }
    }

    /// The overlays once a surface has a new logical size.
    pub open spec fn sized(self, surface: u64, width: u32, height: u32) -> AppState {
        match self.first(Key::Surface(surface)) {
            Some(i) => self.with(i, self.overlays[i].sized(width, height)),
            None => self,
        }
    }

    /// The overlays once a configure has been answered: the surface has its new
    /// size and, the first time, is set up for drawing.
    pub open spec fn configured(self, surface: u64, width: u32, height: u32) -> AppState {
        let sized = self.sized(surface, width, height);
        match self.first(Key::Surface(surface)) {
            Some(i) => if self.overlays[i].configured {
                sized
            } else {
                sized.set_up(i)
            },
            None => sized,
        }
    }

    /// Whether exactly the overlays that have a size are set up for drawing.
    pub open spec fn is_ready(self) -> bool {
        forall|i: int|
            0 <= i < self.overlays.len() ==> (#[trigger] self.overlays[i]).configured == (
            self.overlays[i].gpu is Some)
    }

    /// Whether every output has one overlay at most.
    pub open spec fn is_one_per_output(self) -> bool {
        forall|i: int, j: int|
            0 <= i < j < self.overlays.len() ==> (#[trigger] self.overlays[i]).output != (
            #[trigger] self.overlays[j]).output
    }

    /// The overlays once an output goes by another name, or by none.
    pub open spec fn named(self, output: u64, name: Option<String>) -> AppState {
        match self.first(Key::Output(output)) {
            Some(i) => if same_name(self.overlays[i].connector, name) {
                self
            } else {
                self.with(i, Overlay { connector: name, ..self.overlays[i] })
            },
            None => self,
        }
    }

    /// The overlays once the surface of the one at `index` is set up.
    pub open spec fn set_up(self, index: int) -> AppState {
        let overlay = self.overlays[index];
        AppState {
            gpu: true,
            overlays: self.overlays.update(
                index,
                Overlay { gpu: Some(overlay.buffer_size()), ..overlay },
            ),
        }
    }
}

/// Whether two names are both missing or read the same.
pub open spec fn same_name(a: Option<String>, b: Option<String>) -> bool {
    match (a, b) {
        (Some(a), Some(b)) => a@ == b@,
        (None, None) => true,
        _ => false,
    }
}

/// The payload of a broadcast, where it is one that asks for a preview.
pub open spec fn preview_payload(event: IpcEvent) -> Option<Value> {
    match event {
        IpcEvent::Broadcast { event, payload } => if event@ == "snap.preview"@
            && payload.text_field("monitor"@) is Some {
            Some(payload)
        } else {
            None
        },
        _ => None,
    }
}

impl App {
    pub open spec fn wf(&self) -> bool {
        self@.wf()
    }

    /// No overlays, and no graphics device yet.
    pub fn new() -> (r: App)
        ensures
            r@ == (AppState { gpu: false, overlays: Seq::empty() }),
            r.wf(),
    {
        App { gpu: false, overlays: Vec::new() }
    }

    /// Adds an overlay for an output that has appeared.
    pub fn add_output(&mut self, output: u64, surface: u64, connector: Option<String>)
        ensures
            final(self)@ == old(self)@.added(output, surface, connector),
            old(self).wf() ==> final(self).wf(),
    {
        self.overlays.push(Overlay::new(output, surface, connector));
    }

    fn index_for_connector(&self, name: &str) -> (r: Option<usize>)
        ensures
            match r {
                Some(i) => self@.first(Key::Connector(name@)) == Some(i as int),
                None => self@.first(Key::Connector(name@)) is None,
            },
            r matches Some(i) ==> i < self.overlays@.len(),
    {
        let wanted: String = name.to_owned();
        let mut i: usize = 0;
        while i < self.overlays.len()
            invariant
                i <= self.overlays.len(),
                wanted@ == name@,
                self@.first(Key::Connector(name@)) == first_from(
                    self.overlays@,
                    Key::Connector(name@),
                    i as int,
                ),
            decreases self.overlays.len() - i,
        {
            let hit: bool = match &self.overlays[i].connector {
                Some(c) => *c == wanted,
                None => false,
            };
            if hit {
                return Some(i);
            }
            i += 1;
        }
        None
    }

    fn index_for_output(&self, output: u64) -> (r: Option<usize>)
        ensures
            match r {
                Some(i) => self@.first(Key::Output(output)) == Some(i as int),
                None => self@.first(Key::Output(output)) is None,
            },
            r matches Some(i) ==> i < self.overlays@.len(),
    {
        let mut i: usize = 0;
        while i < self.overlays.len()
            invariant
                i <= self.overlays.len(),
                self@.first(Key::Output(output)) == first_from(
                    self.overlays@,
                    Key::Output(output),
                    i as int,
                ),
            decreases self.overlays.len() - i,
        {
            if self.overlays[i].output == output {
                return Some(i);
            }
            i += 1;
        }
        None
    }

    /// The index of the overlay that is drawn on `surface`.
    pub fn overlay_index_for_surface(&self, surface: u64) -> (r: Option<usize>)
        ensures
            match r {
                Some(i) => self@.first(Key::Surface(surface)) == Some(i as int),
                None => self@.first(Key::Surface(surface)) is None,
            },
            r matches Some(i) ==> i < self.overlays@.len(),
    {
        let mut i: usize = 0;
        while i < self.overlays.len()
            invariant
                i <= self.overlays.len(),
                self@.first(Key::Surface(surface)) == first_from(
                    self.overlays@,
                    Key::Surface(surface),
                    i as int,
                ),
            decreases self.overlays.len() - i,
        {
            if self.overlays[i].surface == surface {
                return Some(i);
            }
            i += 1;
        }
        None
    }

    /// Shows the preview on `monitor` at `rect`, or takes it away. Returns the
    /// overlay to draw, where it was at rest.
    pub fn apply_snap_preview(&mut self, monitor: &str, rect: Option<Rect>, tiling: bool) -> (r:
        Option<usize>)
        ensures
            final(self)@ == old(self)@.previewed(monitor@, rect, tiling),
            match r {
                Some(i) => old(self)@.woken(monitor@) == Some(i as int),
                None => old(self)@.woken(monitor@) is None,
            },
            old(self).wf() ==> final(self).wf(),
    {
        let index: usize = match self.index_for_connector(monitor) {
            Some(i) => i,
            None => return None,
        };
        self.overlays[index].retarget(rect, tiling);
        if !self.overlays[index].animating && self.overlays[index].configured {
            Some(index)
        } else {
            None
        }
    }

    /// Takes in a message. Only a `snap.preview` broadcast that names a monitor
    /// changes anything.
    pub fn handle_ipc(&mut self, event: &IpcEvent) -> (r: IpcReply)
        ensures
            match preview_payload(*event) {
                Some(payload) => {
                    let monitor = payload.text_field("monitor"@)->0;
                    &&& final(self)@ == old(self)@.previewed(
                        monitor,
                        payload.rect_field(),
                        payload.is_tiling(),
                    )
                    &&& match old(self)@.woken(monitor) {
                        Some(i) => r matches IpcReply::Render(k) && k == i,
                        None => r == IpcReply::Nothing,
                    }
                },
                None => {
                    &&& final(self)@ == old(self)@
                    &&& r == (match *event {
                        IpcEvent::Connected => IpcReply::Connected,
                        IpcEvent::Disconnected => IpcReply::Disconnected,
                        _ => IpcReply::Nothing,
                    })
                },
            },
            old(self).wf() ==> final(self).wf(),
    {
        match event {
            IpcEvent::Connected => IpcReply::Connected,
            IpcEvent::Disconnected => IpcReply::Disconnected,
            IpcEvent::Response => IpcReply::Nothing,
            IpcEvent::Broadcast { event, payload } => {
                if *event != "snap.preview".to_owned() {
                    return IpcReply::Nothing;
                }
                match payload.as_preview() {
                    Some(p) => match self.apply_snap_preview(p.monitor, p.rect, p.tiling) {
                        Some(index) => IpcReply::Render(index),
                        None => IpcReply::Nothing,
                    },
                    None => IpcReply::Nothing,
                }
            },
        }
    }

    /// Takes the shared graphics device as opened. Returns whether it has to be
    /// opened now.
    pub fn ensure_shared_gpu(&mut self) -> (open: bool)
        ensures
            final(self)@ == (AppState { gpu: true, ..old(self)@ }),
            open == !old(self).gpu,
            old(self).wf() ==> final(self).wf(),
    {
        let open: bool = !self.gpu;
        self.gpu = true;
        open
    }

    /// Sets up the surface of the overlay at `index` with the first plain BGRA
    /// format and the first premultiplied alpha mode on offer. Where there is none,
    /// the first on offer is taken.
    pub fn init_overlay_gpu(
        &mut self,
        index: usize,
        formats: &Vec<SurfaceFormat>,
        alpha_modes: &Vec<AlphaMode>,
    ) -> (r: SurfaceSetup)
        requires
            index < old(self).overlays@.len(),
            formats@.len() > 0,
            alpha_modes@.len() > 0,
        ensures
            final(self)@ == old(self)@.set_up(index as int),
            r.format == first_or_zero(formats@, SurfaceFormat::Bgra8Unorm),
            r.format < formats@.len(),
            r.alpha_mode == first_or_zero(alpha_modes@, AlphaMode::PreMultiplied),
            r.alpha_mode < alpha_modes@.len(),
            r.size == old(self).overlays@[index as int].buffer_size(),
            old(self).wf() && old(self).overlays@[index as int].configured ==> final(self).wf(),
    {
        let _ = self.ensure_shared_gpu();
        let size: SurfaceSize = self.overlays[index].surface_size();
        self.overlays[index].gpu = Some(size);
        SurfaceSetup {
            format: choose_format(formats),
            alpha_mode: choose_alpha_mode(alpha_modes),
            size,
        }
    }

    /// Begins a frame of the overlay at `index`, `elapsed` seconds after its last
    /// one. Without a device or a surface that is set up there is no frame.
    pub fn render_overlay(&mut self, index: usize, now: u64, elapsed: Scalar) -> (r: Option<
        FramePlan,
    >)
        requires
            old(self).gpu ==> index < old(self).overlays@.len(),
        ensures
            ({
                let overlay = old(self).overlays@[index as int];
                if old(self).gpu && overlay.gpu is Some {
                    &&& final(self)@ == old(self)@.with(index as int, overlay.begun(now))
                    &&& r == Some(overlay.plan(elapsed))
                } else {
                    &&& final(self)@ == old(self)@
                    &&& r is None
                }
            }),
            old(self).wf() ==> final(self).wf(),
    {
        if !self.gpu {
            return None;
        }
        if self.overlays[index].gpu.is_none() {
            return None;
        }
        Some(self.overlays[index].begin_frame(now, elapsed))
    }

    /// Takes in the scale of a surface.
    pub fn scale_factor_changed(&mut self, surface: u64, new_factor: i32) -> (r: Option<
        ScaleChange,
    >)
        ensures
            final(self)@ == old(self)@.scale_set(surface, new_factor),
            match old(self)@.first(Key::Surface(surface)) {
                Some(i) => if old(self).overlays@[i].scale != new_factor {
                    &&& r matches Some(change)
                    &&& change.index == i
                    &&& change.resize == (if old(self).gpu {
                        final(self).overlays@[i].gpu
                    } else {
                        None
                    })
                } else {
                    r is None
                },
                None => r is None,
            },
            old(self).wf() ==> final(self).wf(),
    {
        let index: usize = match self.overlay_index_for_surface(surface) {
            Some(i) => i,
            None => return None,
        };
        if self.overlays[index].scale == new_factor {
            return None;
        }
        self.overlays[index].scale = new_factor;
        let mut resize: Option<SurfaceSize> = None;
        if self.overlays[index].gpu.is_some() {
            let size: SurfaceSize = self.overlays[index].surface_size();
            self.overlays[index].gpu = Some(size);
            if self.gpu {
                resize = Some(size);
            }
        }
        Some(ScaleChange { index, resize })
    }

    /// Takes in a frame callback. Returns the overlay to draw.
    pub fn frame(&self, surface: u64) -> (r: Option<usize>)
        ensures
            match r {
                Some(i) => self@.called_back(surface) == Some(i as int),
                None => self@.called_back(surface) is None,
            },
    {
        match self.overlay_index_for_surface(surface) {
            Some(index) => if self.overlays[index].animating {
                Some(index)
            } else {
                None
            },
            None => None,
        }
    }

    /// Takes in the name of an output's connector. Returns whether it is news.
    pub fn update_output(&mut self, output: u64, name: Option<String>) -> (renamed: bool)
        ensures
            final(self)@ == old(self)@.named(output, name),
            renamed == match old(self)@.first(Key::Output(output)) {
                Some(i) => !same_name(old(self).overlays@[i].connector, name),
                None => false,
            },
            old(self).wf() ==> final(self).wf(),
    {
        let index: usize = match self.index_for_output(output) {
            Some(i) => i,
            None => return false,
        };
        let same: bool = match (&self.overlays[index].connector, &name) {
            (Some(a), Some(b)) => *a == *b,
            (None, None) => true,
            _ => false,
        };
        if same {
            return false;
        }
        self.overlays[index].connector = name;
        true
    }

    /// Drops the overlays of an output that is gone.
    pub fn output_destroyed(&mut self, output: u64)
        ensures
            final(self)@ == old(self)@.without(Key::Output(output)),
            old(self).wf() ==> final(self).wf(),
    {
        let ghost key = Key::Output(output);
        let ghost keep = |o: Overlay| !key.fits(o);
        let mut i: usize = 0;
        while i < self.overlays.len()
            invariant
                i <= self.overlays@.len(),
                self.gpu == old(self).gpu,
                keep == (|o: Overlay| !key.fits(o)),
                key == Key::Output(output),
                forall|j: int| 0 <= j < i ==> keep(#[trigger] self.overlays@[j]),
                self.overlays@.filter(keep) == old(self).overlays@.filter(keep),
            decreases self.overlays@.len() - i,
        {
            if self.overlays[i].output == output {
                proof {
                    lemma_filter_drops(self.overlays@, i as int, keep);
                }
                let _ = self.overlays.remove(i);
            } else {
                i += 1;
            }
        }
        proof {
            lemma_filter_keeps(self.overlays@, keep);
            lemma_without_is_wf(old(self)@, key);
        }
    }

    /// Drops the overlay whose surface has been closed.
    pub fn closed(&mut self, surface: u64)
        ensures
            final(self)@ == old(self)@.without(Key::Surface(surface)),
            old(self).wf() ==> final(self).wf(),
    {
        let ghost key = Key::Surface(surface);
        let ghost keep = |o: Overlay| !key.fits(o);
        let mut i: usize = 0;
        while i < self.overlays.len()
            invariant
                i <= self.overlays@.len(),
                self.gpu == old(self).gpu,
                keep == (|o: Overlay| !key.fits(o)),
                key == Key::Surface(surface),
                forall|j: int| 0 <= j < i ==> keep(#[trigger] self.overlays@[j]),
                self.overlays@.filter(keep) == old(self).overlays@.filter(keep),
            decreases self.overlays@.len() - i,
        {
            if self.overlays[i].surface == surface {
                proof {
                    lemma_filter_drops(self.overlays@, i as int, keep);
                }
                let _ = self.overlays.remove(i);
            } else {
                i += 1;
            }
        }
        proof {
            lemma_filter_keeps(self.overlays@, keep);
            lemma_without_is_wf(old(self)@, key);
        }
    }

    /// Takes in the size that a surface is to have. The overlay is to be drawn
    /// in reply, once its surface is set up for that size.
    pub fn configure(&mut self, surface: u64, width: u32, height: u32) -> (r: Option<Configuration>)
        ensures
            final(self)@ == old(self)@.sized(surface, width, height),
            match old(self)@.first(Key::Surface(surface)) {
                Some(i) => {
                    let before = old(self).overlays@[i];
                    &&& r matches Some(c)
                    &&& c.index == i
                    &&& c.init == !before.configured
                    &&& c.resize == (if before.configured && before.is_resized_by(width, height)
                        && old(self).gpu {
                        final(self).overlays@[i].gpu
                    } else {
                        None
                    })
                },
                None => r is None,
            },
            old(self).wf() ==> final(self).wf(),
    {
        let index: usize = match self.overlay_index_for_surface(surface) {
            Some(i) => i,
            None => return None,
        };
        let resized: bool = self.overlays[index].width != width || self.overlays[index].height
            != height;
        self.overlays[index].width = if width == 0 { 1 } else { width };
        self.overlays[index].height = if height == 0 { 1 } else { height };
        let init: bool = !self.overlays[index].configured;
        self.overlays[index].configured = true;
        let mut resize: Option<SurfaceSize> = None;
        if !init && resized && self.overlays[index].gpu.is_some() {
            let size: SurfaceSize = self.overlays[index].surface_size();
            self.overlays[index].gpu = Some(size);
            if self.gpu {
                resize = Some(size);
            }
        }
        Some(Configuration { index, init, resize })
    }
}

fn choose_format(offered: &Vec<SurfaceFormat>) -> (r: usize)
    requires
        offered@.len() > 0,
    ensures
        r == first_or_zero(offered@, SurfaceFormat::Bgra8Unorm),
        r < offered@.len(),
{
    let mut i: usize = 0;
    while i < offered.len()
        invariant
            i <= offered@.len(),
            forall|j: int| 0 <= j < i ==> offered@[j] != SurfaceFormat::Bgra8Unorm,
        decreases offered@.len() - i,
    {
        if offered[i] == SurfaceFormat::Bgra8Unorm {
            proof {
                offered@.index_of_first_ensures(SurfaceFormat::Bgra8Unorm);
            }
            return i;
        }
        i += 1;
    }
    proof {
        offered@.index_of_first_ensures(SurfaceFormat::Bgra8Unorm);
    }
    0
}

fn choose_alpha_mode(offered: &Vec<AlphaMode>) -> (r: usize)
    requires
        offered@.len() > 0,
    ensures
        r == first_or_zero(offered@, AlphaMode::PreMultiplied),
        r < offered@.len(),
{
    let mut i: usize = 0;
    while i < offered.len()
        invariant
            i <= offered@.len(),
            forall|j: int| 0 <= j < i ==> offered@[j] != AlphaMode::PreMultiplied,
        decreases offered@.len() - i,
    {
        if offered[i] == AlphaMode::PreMultiplied {
            proof {
                offered@.index_of_first_ensures(AlphaMode::PreMultiplied);
            }
            return i;
        }
        i += 1;
    }
    proof {
        offered@.index_of_first_ensures(AlphaMode::PreMultiplied);
    }
    0
}

/// Taking out what is not kept changes nothing of what is kept.
proof fn lemma_filter_drops(s: Seq<Overlay>, i: int, keep: spec_fn(Overlay) -> bool)
    requires
        0 <= i < s.len(),
        !keep(s[i]),
    ensures
        s.remove(i).filter(keep) == s.filter(keep),
    decreases s.len(),
{
    reveal(Seq::filter);
    if i == s.len() - 1 {
        assert(s.remove(i) =~= s.drop_last());
    } else {
        lemma_filter_drops(s.drop_last(), i, keep);
        assert(s.remove(i).drop_last() =~= s.drop_last().remove(i));
        assert(s.remove(i).last() == s.last());
    }
}

/// Where all is kept, nothing changes.
pub(crate) proof fn lemma_filter_keeps(s: Seq<Overlay>, keep: spec_fn(Overlay) -> bool)
    requires
        forall|j: int| 0 <= j < s.len() ==> keep(#[trigger] s[j]),
    ensures
        s.filter(keep) == s,
    decreases s.len(),
{
    reveal(Seq::filter);
    if s.len() > 0 {
        lemma_filter_keeps(s.drop_last(), keep);
        assert(s.drop_last().push(s.last()) =~= s);
    }
}

/// What is left of a sequence stood in it before.
pub(crate) proof fn lemma_filter_only_drops(s: Seq<Overlay>, keep: spec_fn(Overlay) -> bool)
    ensures
        forall|i: int| 0 <= i < s.filter(keep).len() ==> s.contains(#[trigger] s.filter(keep)[i]),
    decreases s.len(),
{
    reveal(Seq::filter);
    if s.len() > 0 {
        let rest = s.drop_last();
        lemma_filter_only_drops(rest, keep);
        assert forall|i: int| 0 <= i < s.filter(keep).len() implies s.contains(
            #[trigger] s.filter(keep)[i],
        ) by {
            if i < rest.filter(keep).len() {
                let k = choose|k: int| 0 <= k < rest.len() && rest[k] == rest.filter(keep)[i];
                assert(s[k] == s.filter(keep)[i]);
            } else {
                assert(s[s.len() - 1] == s.filter(keep)[i]);
            }
        }
    }
}

/// Overlays in order stay so when some are dropped.
pub(crate) proof fn lemma_without_is_wf(state: AppState, key: Key)
    ensures
        state.wf() ==> state.without(key).wf(),
{
    lemma_filter_only_drops(state.overlays, |o: Overlay| !key.fits(o));
}

} // verus!
