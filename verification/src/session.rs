//! The surface session: what the panel knows of its compositor objects, and
//! for every event the requests that answer it.
//!
//! The session holds no compositor handle. It records which objects exist and
//! decides; the program around it makes the requests, in the order given, and
//! feeds every event back in.

use vstd::prelude::*;
use vstd::utf8::encode_utf8_decode_utf8;
use crate::capture::{
    cache_after, frame_view, lemma_cached_frame_is_usable, CaptureCache, CaptureFrame,
    CaptureFrameView,
};
use crate::render::{dock_width, render, rendered, side_margin, MIN_PANEL_SIDE};

verus! {

/// Version at which every global is bound.
pub const BIND_VERSION: u32 = 1;

/// Title and application id of the panel's window.
pub const APP_ID: &'static str = "sdock";

/// Keycode of the escape key.
pub const ESCAPE_KEY: u32 = 1;

/// Registry name under which a redraw binds the shared-memory service when no
/// announcement of it is at hand.
pub const DEFAULT_SHM_NAME: u32 = 1;

/// Panels narrower or shorter than this are never captured for.
pub const MIN_CAPTURE_SIDE: i32 = 4;

/// Bytes per pixel of the buffers handed to the compositor.
pub const BYTES_PER_PIXEL: i32 = 4;

/// The globals the session reacts to.
#[derive(Clone, Copy, Debug, PartialEq, Eq)]
pub enum Interface {
    Compositor,
    Shm,
    Seat,
    WmBase,
    Output,
    /// Any other global: ignored.
    Unknown,
}

/// Whether two byte strings are the same.
fn same_bytes(a: &[u8], b: &[u8]) -> (same: bool)
    ensures
        same == (a@ == b@),
{
    if a.len() != b.len() {
        return false;
    }
    let mut i: usize = 0;
    while i < a.len()
        invariant
            a@.len() == b@.len(),
            i <= a@.len(),
            forall|k: int| 0 <= k < i ==> a@[k] == b@[k],
        decreases a@.len() - i,
    {
        if a[i] != b[i] {
            return false;
        }
        i = i + 1;
    }
    assert(a@ =~= b@);
    true
}

/// Whether two strings hold the same characters: so exactly when their
/// encodings hold the same bytes.
fn same_text(a: &str, b: &str) -> (same: bool)
    ensures
        same == (a@ == b@),
{
    proof {
        encode_utf8_decode_utf8(a@);
        encode_utf8_decode_utf8(b@);
    }
    same_bytes(a.as_bytes(), b.as_bytes())
}

/// The interface that a registry announcement names.
pub open spec fn interface_named(name: Seq<char>) -> Interface {
    if name == "wl_compositor"@ {
        Interface::Compositor
    } else if name == "wl_shm"@ {
        Interface::Shm
    } else if name == "wl_seat"@ {
        Interface::Seat
    } else if name == "xdg_wm_base"@ {
        Interface::WmBase
    } else if name == "wl_output"@ {
        Interface::Output
    } else {
        Interface::Unknown
    }
}

impl Interface {
    /// The interface that a registry announcement names.
    pub fn from_name(name: &str) -> (interface: Interface)
        ensures
            interface == interface_named(name@),
    {
        if same_text(name, "wl_compositor") {
            Interface::Compositor
        } else if same_text(name, "wl_shm") {
            Interface::Shm
        } else if same_text(name, "wl_seat") {
            Interface::Seat
        } else if same_text(name, "xdg_wm_base") {
            Interface::WmBase
        } else if same_text(name, "wl_output") {
            Interface::Output
        } else {
            Interface::Unknown
        }
    }
}

/// What the compositor can tell the session.
#[derive(Clone, Copy, Debug, PartialEq, Eq)]
pub enum Event {
    /// The connection to the compositor stands.
    Connected,
    /// The registry announced a global.
    Global { name: u32, interface: Interface },
    /// The registry withdrew a global.
    GlobalRemove { name: u32 },
    /// The window shell asks whether the client is alive.
    Ping { serial: u32 },
    /// The shell surface was configured and awaits acknowledgment.
    SurfaceConfigure { serial: u32 },
    /// The compositor proposes a size for the window.
    ToplevelConfigure { width: i32, height: i32 },
    /// The user asked for the window to close.
    Close,
    /// The seat announced its input devices.
    SeatCapabilities { keyboard: bool, pointer: bool },
    /// A key changed state.
    Key { key: u32 },
    /// Anything else: no reaction.
    Other,
}

/// A request the session asks the program to make.
#[derive(Clone, Copy, Debug, PartialEq, Eq)]
pub enum Request {
    /// Ask the display for its registry, which then lists the globals.
    ListGlobals,
    /// Bind the global announced under `name` as `interface`, at `version`.
    Bind { interface: Interface, name: u32, version: u32 },
    /// Create the base surface on the compositor just bound.
    CreateSurface,
    /// Create the shell surface for the base surface.
    GetXdgSurface,
    /// Create the toplevel of the shell surface.
    GetToplevel,
    /// Set the toplevel's title.
    SetTitle { title: &'static str },
    /// Set the toplevel's application id.
    SetAppId { app_id: &'static str },
    /// Commit the base surface.
    CommitSurface,
    /// Answer a ping with its serial.
    Pong { serial: u32 },
    /// Acknowledge a configure event with its serial.
    AckConfigure { serial: u32 },
    /// Ask the seat for its keyboard.
    GetKeyboard,
    /// Ask the seat for its pointer.
    GetPointer,
}

/// One step of a redraw.
#[derive(Clone, Copy, Debug, PartialEq, Eq)]
pub enum DrawStep {
    /// Bind the shared-memory service announced under `name`, at `version`.
    BindShm { name: u32, version: u32 },
    /// Allocate an anonymous shared-memory file.
    AllocateFile,
    /// Write the redraw's frame to the file, from its start.
    WriteFrame,
    /// Create a pool of `size` bytes over the file.
    CreatePool { size: i32 },
    /// Create in the pool, `offset` bytes in, a buffer of `width` by `height`
    /// pixels with `stride` bytes per row, in the 32-bit format with alpha.
    CreateBuffer { offset: i32, width: i32, height: i32, stride: i32 },
    /// Attach the buffer to the base surface, at `(x, y)`.
    Attach { x: i32, y: i32 },
    /// Mark the given rectangle of the base surface as changed.
    Damage { x: i32, y: i32, width: i32, height: i32 },
    /// Commit the base surface.
    Commit,
    /// Release the pool and buffer that the redraw before this one made.
    ReleasePrevious,
}

/// One redraw: the frame to show and the steps that show it, in order. Pool
/// and buffer are made anew for every redraw.
#[derive(Debug, PartialEq, Eq)]
pub struct Draw {
    pub frame: Vec<u8>,
    pub steps: Vec<DrawStep>,
}

/// What a `Draw` holds.
pub struct DrawView {
    pub frame: Seq<u8>,
    pub steps: Seq<DrawStep>,
}

impl View for Draw {
    type V = DrawView;

    open spec fn view(&self) -> DrawView {
        DrawView { frame: self.frame@, steps: self.steps@ }
    }
}

/// The steps that put a buffer of `width` by `height` pixels in front of the
/// compositor: a pool of four bytes per pixel and one buffer that fills it.
pub open spec fn buffer_steps(name: u32, width: int, height: int) -> Seq<DrawStep> {
    seq![
        DrawStep::BindShm { name, version: BIND_VERSION },
        DrawStep::AllocateFile,
        DrawStep::WriteFrame,
        DrawStep::CreatePool { size: (BYTES_PER_PIXEL * width * height) as i32 },
        DrawStep::CreateBuffer {
            offset: 0,
            width: width as i32,
            height: height as i32,
            stride: (BYTES_PER_PIXEL * width) as i32,
        },
    ]
}

/// The steps that show the buffer just made: attach it at the surface's
/// origin, damage the whole surface, commit.
pub open spec fn present_steps(width: int, height: int) -> Seq<DrawStep> {
    seq![
        DrawStep::Attach { x: 0, y: 0 },
        DrawStep::Damage { x: 0, y: 0, width: width as i32, height: height as i32 },
        DrawStep::Commit,
    ]
}

/// All steps of one redraw: the buffer is made; it is shown only if `present`
/// is set; after that, what the redraw before had made is released.
pub open spec fn draw_steps(name: u32, width: int, height: int, present: bool) -> Seq<DrawStep> {
    buffer_steps(name, width, height) + (if present {
        present_steps(width, height)
    } else {
        Seq::empty()
    }) + seq![DrawStep::ReleasePrevious]
}

/// Whether a redraw ends after `step`, given whether the step failed. Only a
/// failed allocation ends it: without a file there is nothing to make a pool
/// over. Any other failure, such as a frame that could not be written, is
/// reported and the redraw goes on.
pub open spec fn ends_redraw(step: DrawStep, failed: bool) -> bool {
    failed && step is AllocateFile
}

/// Whether a redraw ends after `step`, given whether the step failed.
pub fn step_ends_redraw(step: DrawStep, failed: bool) -> (ends: bool)
    ensures
        ends == ends_redraw(step, failed),
{
    match step {
        DrawStep::AllocateFile => failed,
        _ => false,
    }
}

/// What an optional redraw holds.
pub open spec fn draw_view(draw: Option<Draw>) -> Option<DrawView> {
    match draw {
        Some(d) => Some(d@),
        None => None,
    }
}

/// The session's answer to one event: requests to make in order, then
/// possibly a redraw.
#[derive(Debug, PartialEq, Eq)]
pub struct Response {
    pub requests: Vec<Request>,
    pub draw: Option<Draw>,
}

/// Where the session stands on its way from startup to shutdown.
#[derive(Clone, Copy, Debug, PartialEq, Eq)]
pub enum Phase {
    /// No connection to the compositor yet.
    Disconnected,
    /// Connected; the registry has not spoken yet.
    Registering,
    /// The registry is listing globals; no base surface yet.
    AwaitingGlobals,
    /// The base surface exists; the window does not.
    SurfaceCreated,
    /// The window exists and awaits its first configure event.
    AwaitingConfigure,
    /// A configure event was acknowledged: frames are shown.
    Configured,
    /// A close request or the escape key ended the session.
    Closed,
}

/// The screen region the panel wants captured: what lies behind and above it.
#[derive(Clone, Copy, Debug, PartialEq, Eq)]
pub struct CaptureRegion {
    pub x: i32,
    pub y: i32,
    pub width: i32,
    pub height: i32,
}

/// The region to capture for a panel of the given size at the bottom of a
/// display `display_height` rows tall: as wide as the dock, twice as tall as
/// the panel, starting at the dock's left margin and ending at the display's
/// bottom. There is none for a panel below `MIN_CAPTURE_SIDE`, nor where the
/// region's coordinates do not fit in 32 bits.
pub open spec fn capture_region(width: int, height: int, display_height: int) -> Option<
    CaptureRegion,
> {
    if width < MIN_CAPTURE_SIDE || height < MIN_CAPTURE_SIDE || 2 * height > i32::MAX
        || display_height - 2 * height < i32::MIN {
        None
    } else {
        Some(
            CaptureRegion {
                x: side_margin(width) as i32,
                y: (display_height - 2 * height) as i32,
                width: dock_width(width) as i32,
                height: (2 * height) as i32,
            },
        )
    }
}

/// What a session holds.
pub struct SessionView {
    pub connected: bool,
    pub running: bool,
    pub has_registry: bool,
    pub has_base_surface: bool,
    pub has_wm_base: bool,
    pub has_xdg_surface: bool,
    pub configured: bool,
    pub redraw_necessary: bool,
    pub width: int,
    pub height: int,
    pub capture: Option<CaptureFrameView>,
}

/// The requests that create the window on the base surface, in order.
pub open spec fn window_requests() -> Seq<Request> {
    seq![
        Request::GetXdgSurface,
        Request::GetToplevel,
        Request::SetTitle { title: APP_ID },
        Request::SetAppId { app_id: APP_ID },
        Request::CommitSurface,
    ]
}

impl SessionView {
    /// A session before anything happened: running, nothing created, the
    /// panel one pixel in size, no capture.
    pub open spec fn initial() -> SessionView {
        SessionView {
            connected: false,
            running: true,
            has_registry: false,
            has_base_surface: false,
            has_wm_base: false,
            has_xdg_surface: false,
            configured: false,
            redraw_necessary: true,
            width: 1,
            height: 1,
            capture: None,
        }
    }

    /// What holds of every session: the panel's size is positive and fits the
    /// protocol's 32-bit arguments, the cached capture is usable, and no
    /// object exists before the one it is made from.
    pub open spec fn valid(self) -> bool {
        &&& 0 < self.width <= i32::MAX
        &&& 0 < self.height <= i32::MAX
        &&& (self.capture matches Some(f) ==> f.usable())
        &&& (self.has_registry ==> self.connected)
        &&& (self.has_base_surface ==> self.has_registry)
        &&& (self.has_wm_base ==> self.has_registry)
        &&& (self.has_xdg_surface ==> self.has_base_surface && self.has_wm_base)
    }

    /// The phase the session is in.
    pub open spec fn phase(self) -> Phase {
        if !self.running {
            Phase::Closed
        } else if self.configured {
            Phase::Configured
        } else if self.has_xdg_surface {
            Phase::AwaitingConfigure
        } else if self.has_base_surface {
            Phase::SurfaceCreated
        } else if self.has_registry {
            Phase::AwaitingGlobals
        } else if self.connected {
            Phase::Registering
        } else {
            Phase::Disconnected
        }
    }

    /// The redraw of the panel as it stands, binding the shared-memory
    /// service under `name`. A panel whose byte size does not fit the
    /// protocol's signed 32-bit size argument is not drawn. The frame is shown
    /// only once a configure event was acknowledged and the base surface
    /// exists.
    pub open spec fn draw_plan(self, name: u32) -> Option<DrawView> {
        if BYTES_PER_PIXEL * self.width * self.height <= i32::MAX {
            Some(
                DrawView {
                    frame: rendered(self.width, self.height, self.capture),
                    steps: draw_steps(
                        name,
                        self.width,
                        self.height,
                        self.configured && self.has_base_surface,
                    ),
                },
            )
        } else {
            None
        }
    }

    /// The redraw made on every turn of the event loop: none before the
    /// registry has spoken.
    pub open spec fn redraw_plan(self) -> Option<DrawView> {
        if self.has_registry {
            self.draw_plan(DEFAULT_SHM_NAME)
        } else {
            None
        }
    }

    /// The session after the registry spoke.
    pub open spec fn with_registry(self) -> SessionView {
        SessionView { connected: true, has_registry: true, ..self }
    }

    /// Whether the window is to be created once `interface` is bound: both
    /// the base surface and the window shell must then exist, and the window
    /// must not.
    pub open spec fn creates_window(self, interface: Interface) -> bool {
        &&& !self.has_xdg_surface
        &&& match interface {
            Interface::Compositor => self.has_wm_base,
            Interface::WmBase => self.has_base_surface,
            _ => false,
        }
    }

    /// The session after the registry announced a global of `interface`.
    pub open spec fn after_global(self, interface: Interface) -> SessionView {
        let seen = self.with_registry();
        match interface {
            Interface::Compositor => SessionView {
                has_base_surface: true,
                has_xdg_surface: self.has_xdg_surface || self.has_wm_base,
                ..seen
            },
            Interface::WmBase => SessionView {
                has_wm_base: true,
                has_xdg_surface: self.has_xdg_surface || self.has_base_surface,
                ..seen
            },
            _ => seen,
        }
    }

    /// The session after the compositor proposed `width` by `height`: a
    /// dimension changes only to a positive proposal, and a redraw is marked
    /// as necessary only if the size held changed thereby.
    pub open spec fn resized(self, width: i32, height: i32) -> SessionView {
        let new_width = if width > 0 {
            width as int
        } else {
            self.width
        };
        let new_height = if height > 0 {
            height as int
        } else {
            self.height
        };
        SessionView {
            redraw_necessary: self.redraw_necessary || new_width != self.width || new_height
                != self.height,
            width: new_width,
            height: new_height,
            ..self
        }
    }

    /// The session after `event`.
    pub open spec fn after(self, event: Event) -> SessionView {
        match event {
            Event::Connected => SessionView { connected: true, ..self },
            Event::Global { name, interface } => self.after_global(interface),
            Event::GlobalRemove { name } => self.with_registry(),
            Event::SurfaceConfigure { serial } => SessionView { configured: true, ..self },
            Event::ToplevelConfigure { width, height } => self.resized(width, height),
            Event::Close => SessionView { running: false, ..self },
            Event::Key { key } => if key == ESCAPE_KEY {
                SessionView { running: false, ..self }
            } else {
                self
            },
            _ => self,
        }
    }

    /// The requests that answer `event`, in order.
    pub open spec fn requests(self, event: Event) -> Seq<Request> {
        match event {
            Event::Connected => if self.connected {
                Seq::empty()
            } else {
                seq![Request::ListGlobals]
            },
            Event::Global { name, interface } => {
                let window = if self.creates_window(interface) {
                    window_requests()
                } else {
                    Seq::empty()
                };
                match interface {
                    Interface::Compositor => seq![
                        Request::Bind { interface, name, version: BIND_VERSION },
                        Request::CreateSurface,
                    ] + window,
                    Interface::Seat => seq![
                        Request::Bind { interface, name, version: BIND_VERSION },
                    ],
                    Interface::WmBase => seq![
                        Request::Bind { interface, name, version: BIND_VERSION },
                    ] + window,
                    _ => Seq::empty(),
                }
            },
            Event::Ping { serial } => seq![Request::Pong { serial }],
            Event::SurfaceConfigure { serial } => seq![Request::AckConfigure { serial }],
            Event::SeatCapabilities { keyboard, pointer } => (if keyboard {
                seq![Request::GetKeyboard]
            } else {
                Seq::empty()
            }) + (if pointer {
                seq![Request::GetPointer]
            } else {
                Seq::empty()
            }),
            _ => Seq::empty(),
        }
    }

    /// The redraw that follows the requests for `event`, if any: one for
    /// every announcement of the shared-memory service or of an output, and
    /// one for every acknowledged configure event once the registry has
    /// spoken.
    pub open spec fn draw_on(self, event: Event) -> Option<DrawView> {
        let next = self.after(event);
        match event {
            Event::Global { name, interface } => match interface {
                Interface::Shm => next.draw_plan(name),
                Interface::Output => next.draw_plan(DEFAULT_SHM_NAME),
                _ => None,
            },
            Event::SurfaceConfigure { serial } => next.redraw_plan(),
            _ => None,
        }
    }

    /// The session after the result of a capture was offered to it: panels
    /// below `MIN_CAPTURE_SIDE` take none, otherwise the cache decides.
    pub open spec fn with_capture(self, captured: Option<CaptureFrameView>) -> SessionView {
        if self.width < MIN_CAPTURE_SIDE || self.height < MIN_CAPTURE_SIDE {
            self
        } else {
            SessionView { capture: cache_after(self.capture, captured), ..self }
        }
    }
}

/// Every event leaves a valid session valid.
pub proof fn lemma_event_keeps_validity(session: SessionView, event: Event)
    requires
        session.valid(),
    ensures
        session.after(event).valid(),
{
}

impl Phase {
    /// Position of the phase on the way from startup to shutdown.
    pub open spec fn rank(self) -> int {
        match self {
            Phase::Disconnected => 0,
            Phase::Registering => 1,
            Phase::AwaitingGlobals => 2,
            Phase::SurfaceCreated => 3,
            Phase::AwaitingConfigure => 4,
            Phase::Configured => 5,
            Phase::Closed => 6,
        }
    }
}

/// No event takes the session back to an earlier phase.
pub proof fn lemma_phase_never_goes_back(session: SessionView, event: Event)
    requires
        session.valid(),
    ensures
        session.phase().rank() <= session.after(event).phase().rank(),
{
}

/// The window is requested exactly when an announcement completes the pair of
/// base surface and window shell for a session that has no window yet: never
/// before both exist, and never twice.
pub proof fn lemma_window_is_created_once(session: SessionView, event: Event)
    requires
        session.valid(),
    ensures
        session.requests(event).contains(Request::GetXdgSurface) <==> !session.has_xdg_surface
            && session.after(event).has_xdg_surface,
        session.requests(event).contains(Request::GetXdgSurface) ==> session.after(
            event,
        ).has_base_surface && session.after(event).has_wm_base,
{
    let requests = session.requests(event);
    let made = !session.has_xdg_surface && session.after(event).has_xdg_surface;
    if requests.contains(Request::GetXdgSurface) {
        let at = choose|i: int| 0 <= i < requests.len() && requests[i] == Request::GetXdgSurface;
        assert(requests[at] == Request::GetXdgSurface);
        assert(made);
    }
    if made {
        match event {
            Event::Global { name, interface } => {
                let head = match interface {
                    Interface::Compositor => 2int,
                    _ => 1int,
                };
                assert(requests[head] == Request::GetXdgSurface);
            },
            _ => {},
        }
    }
}

/// A session that has stopped running stays stopped, whatever arrives.
pub proof fn lemma_closed_stays_closed(session: SessionView, event: Event)
    requires
        !session.running,
    ensures
        !session.after(event).running,
        session.after(event).phase() == Phase::Closed,
{
}

/// A close request and the escape key stop the session in every state.
pub proof fn lemma_close_and_escape_stop(session: SessionView)
    ensures
        !session.after(Event::Close).running,
        !session.after(Event::Key { key: ESCAPE_KEY }).running,
        session.after(Event::Close).phase() == Phase::Closed,
        session.after(Event::Key { key: ESCAPE_KEY }).phase() == Phase::Closed,
{
}

/// A proposal with a dimension that is not positive leaves that dimension as
/// it was; one with both positive replaces both. A redraw is marked as
/// necessary exactly when the size held changed: a proposal that is ignored,
/// or that repeats the size held, leaves the mark as it was.
pub proof fn lemma_size_proposal(session: SessionView, width: i32, height: i32)
    requires
        session.valid(),
    ensures
        session.after(Event::ToplevelConfigure { width, height }) == session.resized(
            width,
            height,
        ),
        width <= 0 ==> session.resized(width, height).width == session.width,
        height <= 0 ==> session.resized(width, height).height == session.height,
        width > 0 && height > 0 ==> session.resized(width, height).width == width
            && session.resized(width, height).height == height,
        width > 0 && height > 0 && (width != session.width || height != session.height)
            ==> session.resized(width, height).redraw_necessary,
        session.resized(width, height).width == session.width && session.resized(
            width,
            height,
        ).height == session.height ==> session.resized(width, height) == session,
        width <= 0 && height <= 0 ==> session.resized(width, height) == session,
        session.resized(width, height).redraw_necessary <==> session.redraw_necessary
            || session.resized(width, height).width != session.width || session.resized(
            width,
            height,
        ).height != session.height,
        session.resized(width, height).width > 0,
        session.resized(width, height).height > 0,
{
}

/// A redraw always asks for a pool of as many bytes as the panel has pixels
/// times four, never zero, and for one buffer that fills the pool. A frame
/// that is drawn at all fills it exactly.
pub proof fn lemma_draw_plan(session: SessionView, name: u32)
    requires
        session.valid(),
    ensures
        session.draw_plan(name) matches Some(plan) ==> {
            &&& plan.steps[3] matches DrawStep::CreatePool { size }
            &&& plan.steps[4] matches DrawStep::CreateBuffer { offset, width, height, stride }
            &&& size == 4 * session.width * session.height
            &&& 0 < size
            &&& offset == 0
            &&& width == session.width
            &&& height == session.height
            &&& stride == 4 * width
            &&& stride * height == size
            &&& (plan.frame.len() == size || plan.frame.len() == 0)
            &&& (plan.frame.len() == 0 <==> session.width < MIN_PANEL_SIDE || session.height
                < MIN_PANEL_SIDE)
        },
{
    let w = session.width;
    let h = session.height;
    assert(0 < w * h && w <= w * h && 4 * w * h == (4 * w) * h && w * h * 4 == 4 * w * h)
        by (nonlinear_arith)
        requires
            0 < w,
            0 < h,
    ;
}

/// A redraw shows its frame exactly when a configure event was acknowledged
/// and the base surface exists. It then attaches before it damages, and
/// damages before it commits; what the redraw before had made is released
/// last of all, and so never before the commit that supersedes it.
pub proof fn lemma_draw_order(session: SessionView, name: u32)
    requires
        session.valid(),
    ensures
        session.draw_plan(name) matches Some(plan) ==> {
            &&& (plan.steps.contains(DrawStep::Commit) <==> session.configured
                && session.has_base_surface)
            &&& plan.steps.last() == DrawStep::ReleasePrevious
            &&& (plan.steps.contains(DrawStep::Commit) ==> plan.steps.len() == 9
                && plan.steps[5] is Attach && plan.steps[6] is Damage && plan.steps[7]
                == DrawStep::Commit)
            &&& (!plan.steps.contains(DrawStep::Commit) ==> plan.steps.len() == 6)
        },
{
    if session.draw_plan(name) is Some {
        let plan = session.draw_plan(name)->0;
        let present = session.configured && session.has_base_surface;
        if present {
            assert(plan.steps[7] == DrawStep::Commit);
        }
        if plan.steps.contains(DrawStep::Commit) {
            let at = choose|i: int| 0 <= i < plan.steps.len() && plan.steps[i] == DrawStep::Commit;
            assert(plan.steps[at] == DrawStep::Commit);
        }
    }
}

/// The surface session.
pub struct State {
    connected: bool,
    running: bool,
    has_registry: bool,
    has_base_surface: bool,
    has_wm_base: bool,
    has_xdg_surface: bool,
    configured: bool,
    redraw_necessary: bool,
    configured_w: i32,
    configured_h: i32,
    last_screenshot: CaptureCache,
}

impl View for State {
    type V = SessionView;

    closed spec fn view(&self) -> SessionView {
        SessionView {
            connected: self.connected,
            running: self.running,
            has_registry: self.has_registry,
            has_base_surface: self.has_base_surface,
            has_wm_base: self.has_wm_base,
            has_xdg_surface: self.has_xdg_surface,
            configured: self.configured,
            redraw_necessary: self.redraw_necessary,
            width: self.configured_w as int,
            height: self.configured_h as int,
            capture: self.last_screenshot@,
        }
    }
}

impl Default for State {
    /// A session before anything happened.
    fn default() -> (state: State)
        ensures
            state@ == SessionView::initial(),
            state@.valid(),
    {
        State {
            connected: false,
            running: true,
            has_registry: false,
            has_base_surface: false,
            has_wm_base: false,
            has_xdg_surface: false,
            configured: false,
            redraw_necessary: true,
            configured_w: 1,
            configured_h: 1,
            last_screenshot: CaptureCache::new(),
        }
    }
}

impl State {
    #[verifier::type_invariant]
    spec fn well_formed(self) -> bool {
        &&& 0 < self.configured_w
        &&& 0 < self.configured_h
        &&& (self.has_registry ==> self.connected)
        &&& (self.has_base_surface ==> self.has_registry)
        &&& (self.has_wm_base ==> self.has_registry)
        &&& (self.has_xdg_surface ==> self.has_base_surface && self.has_wm_base)
    }

    /// The redraw of the panel as it stands, binding the shared-memory
    /// service under `name`.
    pub fn draw(&self, name: u32) -> (plan: Option<Draw>)
        ensures
            draw_view(plan) == self@.draw_plan(name),
            self@.valid(),
    {
        proof {
            use_type_invariant(self);
            lemma_cached_frame_is_usable(&self.last_screenshot);
            lemma_draw_plan(self@, name);
        }
        let frame_source: Option<&CaptureFrame> = self.last_screenshot.get();
        let w: i64 = self.configured_w as i64;
        let h: i64 = self.configured_h as i64;
        assert(0 < w * h <= 0x7FFF_FFFF * 0x7FFF_FFFF && w <= w * h && 4 * w * h == 4 * (w * h))
            by (nonlinear_arith)
            requires
                0 < w <= 0x7FFF_FFFF,
                0 < h <= 0x7FFF_FFFF,
        ;
        let cells: i64 = w * h;
        if cells > (i32::MAX / BYTES_PER_PIXEL) as i64 {
            return None;
        }
        let frame: Vec<u8> = render(
            self.configured_w as u32,
            self.configured_h as u32,
            frame_source,
        );
        let mut steps: Vec<DrawStep> = Vec::new();
        steps.push(DrawStep::BindShm { name, version: BIND_VERSION });
        steps.push(DrawStep::AllocateFile);
        steps.push(DrawStep::WriteFrame);
        steps.push(DrawStep::CreatePool { size: (cells * BYTES_PER_PIXEL as i64) as i32 });
        steps.push(
            DrawStep::CreateBuffer {
                offset: 0,
                width: self.configured_w,
                height: self.configured_h,
                stride: self.configured_w * BYTES_PER_PIXEL,
            },
        );
        if self.configured && self.has_base_surface {
            steps.push(DrawStep::Attach { x: 0, y: 0 });
            steps.push(
                DrawStep::Damage {
                    x: 0,
                    y: 0,
                    width: self.configured_w,
                    height: self.configured_h,
                },
            );
            steps.push(DrawStep::Commit);
        }
        steps.push(DrawStep::ReleasePrevious);
        assert(steps@ =~= draw_steps(
            name,
            self@.width,
            self@.height,
            self@.configured && self@.has_base_surface,
        ));
        Some(Draw { frame, steps })
    }

    /// The redraw made on every turn of the event loop.
    pub fn draw_from_stolen(&self) -> (plan: Option<Draw>)
        ensures
            draw_view(plan) == self@.redraw_plan(),
            self@.valid(),
    {
        proof {
            use_type_invariant(self);
            lemma_cached_frame_is_usable(&self.last_screenshot);
        }
        if self.has_registry {
            self.draw(DEFAULT_SHM_NAME)
        } else {
            None
        }
    }

    /// The region to capture before the next redraw, for a display
    /// `display_height` rows tall.
    pub fn capture_request(&self, display_height: i32) -> (region: Option<CaptureRegion>)
        ensures
            region == capture_region(self@.width, self@.height, display_height as int),
    {
        proof {
            use_type_invariant(self);
        }
        if self.configured_w < MIN_CAPTURE_SIDE || self.configured_h < MIN_CAPTURE_SIDE {
            return None;
        }
        let dock: i32 = self.configured_w / 2;
        let margin: i32 = (self.configured_w - dock) / 2;
        let tall: i64 = 2 * (self.configured_h as i64);
        let top: i64 = display_height as i64 - tall;
        if tall > i32::MAX as i64 || top < i32::MIN as i64 {
            return None;
        }
        Some(CaptureRegion { x: margin, y: top as i32, width: dock, height: tall as i32 })
    }

    /// Offers the result of a capture to the session.
    pub fn take_screenshot(&mut self, captured: Option<CaptureFrame>)
        ensures
            final(self)@ == old(self)@.with_capture(
                match captured {
                    Some(f) => Some(f@),
                    None => None,
                },
            ),
            final(self)@.valid(),
    {
        proof {
            use_type_invariant(&*self);
        }
        if self.configured_w < MIN_CAPTURE_SIDE || self.configured_h < MIN_CAPTURE_SIDE {
            proof {
                lemma_cached_frame_is_usable(&self.last_screenshot);
            }
            return ;
        }
        self.last_screenshot.update(captured);
    }

    /// Appends the requests that create the window.
    fn create_window(requests: &mut Vec<Request>)
        ensures
            final(requests)@ == old(requests)@ + window_requests(),
    {
        requests.push(Request::GetXdgSurface);
        requests.push(Request::GetToplevel);
        requests.push(Request::SetTitle { title: APP_ID });
        requests.push(Request::SetAppId { app_id: APP_ID });
        requests.push(Request::CommitSurface);
        assert(requests@ =~= old(requests)@ + window_requests());
    }

    /// Reacts to the announcement of a global.
    fn global(&mut self, name: u32, interface: Interface) -> (response: Response)
        ensures
            final(self)@ == old(self)@.after(Event::Global { name, interface }),
            response.requests@ == old(self)@.requests(Event::Global { name, interface }),
            draw_view(response.draw) == old(self)@.draw_on(Event::Global { name, interface }),
    {
        proof {
            use_type_invariant(&*self);
        }
        self.connected = true;
        self.has_registry = true;
        let mut requests: Vec<Request> = Vec::new();
        let mut draw: Option<Draw> = None;
        match interface {
            Interface::Compositor => {
                requests.push(Request::Bind { interface, name, version: BIND_VERSION });
                requests.push(Request::CreateSurface);
                self.has_base_surface = true;
                if self.has_wm_base && !self.has_xdg_surface {
                    Self::create_window(&mut requests);
                    self.has_xdg_surface = true;
                }
            },
            Interface::Shm => {
                draw = self.draw(name);
            },
            Interface::Seat => {
                requests.push(Request::Bind { interface, name, version: BIND_VERSION });
            },
            Interface::WmBase => {
                requests.push(Request::Bind { interface, name, version: BIND_VERSION });
                self.has_wm_base = true;
                if self.has_base_surface && !self.has_xdg_surface {
                    Self::create_window(&mut requests);
                    self.has_xdg_surface = true;
                }
            },
            Interface::Output => {
                draw = self.draw(DEFAULT_SHM_NAME);
            },
            Interface::Unknown => {},
        }
        assert(requests@ =~= old(self)@.requests(Event::Global { name, interface }));
        Response { requests, draw }
    }

    /// Reacts to a size proposed by the compositor.
    fn resize(&mut self, width: i32, height: i32)
        ensures
            final(self)@ == old(self)@.resized(width, height),
    {
        proof {
            use_type_invariant(&*self);
        }
        let new_width: i32 = if width > 0 {
            width
        } else {
            self.configured_w
        };
        let new_height: i32 = if height > 0 {
            height
        } else {
            self.configured_h
        };
        if new_width != self.configured_w || new_height != self.configured_h {
            self.redraw_necessary = true;
        }
        self.configured_w = new_width;
        self.configured_h = new_height;
    }

    /// Reacts to one event: updates the session and says which requests to
    /// make, in order, and whether to redraw after them.
    pub fn event(&mut self, event: Event) -> (response: Response)
        ensures
            final(self)@ == old(self)@.after(event),
            response.requests@ == old(self)@.requests(event),
            draw_view(response.draw) == old(self)@.draw_on(event),
            final(self)@.valid(),
    {
        proof {
            use_type_invariant(&*self);
            lemma_cached_frame_is_usable(&self.last_screenshot);
            lemma_event_keeps_validity(self@, event);
        }
        match event {
            Event::Connected => {
                let mut requests: Vec<Request> = Vec::new();
                if !self.connected {
                    requests.push(Request::ListGlobals);
                    self.connected = true;
                }
                assert(requests@ =~= old(self)@.requests(event));
                Response { requests, draw: None }
            },
            Event::Global { name, interface } => self.global(name, interface),
            Event::GlobalRemove { name } => {
                self.connected = true;
                self.has_registry = true;
                Response { requests: Vec::new(), draw: None }
            },
            Event::Ping { serial } => {
                let mut requests: Vec<Request> = Vec::new();
                requests.push(Request::Pong { serial });
                assert(requests@ =~= old(self)@.requests(event));
                Response { requests, draw: None }
            },
            Event::SurfaceConfigure { serial } => {
                let mut requests: Vec<Request> = Vec::new();
                requests.push(Request::AckConfigure { serial });
                self.configured = true;
                assert(requests@ =~= old(self)@.requests(event));
                Response { requests, draw: self.draw_from_stolen() }
            },
            Event::ToplevelConfigure { width, height } => {
                self.resize(width, height);
                Response { requests: Vec::new(), draw: None }
            },
            Event::Close => {
                self.running = false;
                Response { requests: Vec::new(), draw: None }
            },
            Event::SeatCapabilities { keyboard, pointer } => {
                let mut requests: Vec<Request> = Vec::new();
                if keyboard {
                    requests.push(Request::GetKeyboard);
                }
                if pointer {
                    requests.push(Request::GetPointer);
                }
                assert(requests@ =~= old(self)@.requests(event));
                Response { requests, draw: None }
            },
            Event::Key { key } => {
                if key == ESCAPE_KEY {
                    self.running = false;
                }
                Response { requests: Vec::new(), draw: None }
            },
            Event::Other => Response { requests: Vec::new(), draw: None },
        }
    }

    /// Whether the event loop is to go on.
    pub fn running(&self) -> (running: bool)
        ensures
            running == self@.running,
    {
        self.running
    }

    /// Whether a configure event was acknowledged.
    pub fn configured(&self) -> (configured: bool)
        ensures
            configured == self@.configured,
    {
        self.configured
    }

    /// Whether a redraw is necessary: so from the start, and again after every
    /// size proposal that changes the size held. Nothing clears it.
    pub fn redraw_necessary(&self) -> (necessary: bool)
        ensures
            necessary == self@.redraw_necessary,
    {
        self.redraw_necessary
    }

    /// The panel's width in pixels: always positive.
    pub fn configured_w(&self) -> (width: i32)
        ensures
            width == self@.width,
            width > 0,
    {
        proof {
            use_type_invariant(self);
        }
        self.configured_w
    }

    /// The panel's height in pixels: always positive.
    pub fn configured_h(&self) -> (height: i32)
        ensures
            height == self@.height,
            height > 0,
    {
        proof {
            use_type_invariant(self);
        }
        self.configured_h
    }

    /// The cached capture, if there is one.
    pub fn last_screenshot(&self) -> (frame: Option<&CaptureFrame>)
        ensures
            frame_view(frame) == self@.capture,
            frame matches Some(f) ==> f@.usable(),
    {
        self.last_screenshot.get()
    }

    /// The phase the session is in.
    pub fn phase(&self) -> (phase: Phase)
        ensures
            phase == self@.phase(),
    {
        if !self.running {
            Phase::Closed
        } else if self.configured {
            Phase::Configured
        } else if self.has_xdg_surface {
            Phase::AwaitingConfigure
        } else if self.has_base_surface {
            Phase::SurfaceCreated
        } else if self.has_registry {
            Phase::AwaitingGlobals
        } else if self.connected {
            Phase::Registering
        } else {
            Phase::Disconnected
        }
    }
}

} // verus!
