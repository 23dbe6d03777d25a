use sdock::capture::{CaptureFrame, PixelFormat};
use sdock::render::render;
use sdock::session::{
    step_ends_redraw, CaptureRegion, Draw, DrawStep, Event, Interface, Phase, Request, Response,
    State, APP_ID, BIND_VERSION, DEFAULT_SHM_NAME, ESCAPE_KEY,
};

fn no_reaction() -> Response {
    Response { requests: Vec::new(), draw: None }
}

fn only(requests: Vec<Request>) -> Response {
    Response { requests, draw: None }
}

fn global(name: u32, interface: Interface) -> Event {
    Event::Global { name, interface }
}

fn bind(interface: Interface, name: u32) -> Request {
    Request::Bind { interface, name, version: 1 }
}

fn window() -> Vec<Request> {
    vec![
        Request::GetXdgSurface,
        Request::GetToplevel,
        Request::SetTitle { title: "sdock" },
        Request::SetAppId { app_id: "sdock" },
        Request::CommitSurface,
    ]
}

fn buffer_steps(name: u32, width: i32, height: i32) -> Vec<DrawStep> {
    vec![
        DrawStep::BindShm { name, version: 1 },
        DrawStep::AllocateFile,
        DrawStep::WriteFrame,
        DrawStep::CreatePool { size: 4 * width * height },
        DrawStep::CreateBuffer { offset: 0, width, height, stride: 4 * width },
    ]
}

fn hidden_steps(name: u32, width: i32, height: i32) -> Vec<DrawStep> {
    let mut steps = buffer_steps(name, width, height);
    steps.push(DrawStep::ReleasePrevious);
    steps
}

fn shown_steps(name: u32, width: i32, height: i32) -> Vec<DrawStep> {
    let mut steps = buffer_steps(name, width, height);
    steps.push(DrawStep::Attach { x: 0, y: 0 });
    steps.push(DrawStep::Damage { x: 0, y: 0, width, height });
    steps.push(DrawStep::Commit);
    steps.push(DrawStep::ReleasePrevious);
    steps
}

fn is_shown(draw: &Draw) -> bool {
    draw.steps.contains(&DrawStep::Commit)
}

fn configured_session(width: i32, height: i32) -> State {
    let mut state = State::default();
    state.event(Event::Connected);
    state.event(global(1, Interface::Compositor));
    state.event(global(2, Interface::WmBase));
    state.event(Event::ToplevelConfigure { width, height });
    state.event(Event::SurfaceConfigure { serial: 7 });
    state
}

fn solid_frame(width: u32, height: u32, value: u8) -> CaptureFrame {
    CaptureFrame {
        width,
        height,
        pixel_format: PixelFormat::Bgrx8888,
        pixels: vec![value; width as usize * height as usize * 4],
    }
}

#[test]
fn interfaces_are_told_apart_by_name() {
    assert_eq!(Interface::from_name("wl_compositor"), Interface::Compositor);
    assert_eq!(Interface::from_name("wl_shm"), Interface::Shm);
    assert_eq!(Interface::from_name("wl_seat"), Interface::Seat);
    assert_eq!(Interface::from_name("xdg_wm_base"), Interface::WmBase);
    assert_eq!(Interface::from_name("wl_output"), Interface::Output);
    assert_eq!(Interface::from_name("wl_data_device_manager"), Interface::Unknown);
    assert_eq!(Interface::from_name(""), Interface::Unknown);
    assert_eq!(Interface::from_name("wl_shm "), Interface::Unknown);
    assert_eq!(Interface::from_name("WL_SHM"), Interface::Unknown);
    assert_eq!(Interface::from_name("wl_sh"), Interface::Unknown);
}

#[test]
fn constants_of_the_protocol() {
    assert_eq!(BIND_VERSION, 1);
    assert_eq!(DEFAULT_SHM_NAME, 1);
    assert_eq!(ESCAPE_KEY, 1);
    assert_eq!(APP_ID, "sdock");
}

#[test]
fn new_session_is_disconnected() {
    let state = State::default();
    assert!(state.running());
    assert!(!state.configured());
    assert!(state.redraw_necessary());
    assert_eq!(state.configured_w(), 1);
    assert_eq!(state.configured_h(), 1);
    assert_eq!(state.last_screenshot(), None);
    assert_eq!(state.phase(), Phase::Disconnected);
    assert_eq!(state.draw_from_stolen(), None);
}

#[test]
fn connecting_asks_for_the_globals_once() {
    let mut state = State::default();
    assert_eq!(state.event(Event::Connected), only(vec![Request::ListGlobals]));
    assert_eq!(state.phase(), Phase::Registering);
    assert_eq!(state.event(Event::Connected), no_reaction());
    assert_eq!(state.phase(), Phase::Registering);
}

#[test]
fn session_walks_through_its_phases() {
    let mut state = State::default();
    assert_eq!(state.phase(), Phase::Disconnected);
    state.event(Event::Connected);
    assert_eq!(state.phase(), Phase::Registering);
    assert_eq!(state.event(global(9, Interface::Unknown)), no_reaction());
    assert_eq!(state.phase(), Phase::AwaitingGlobals);
    assert_eq!(
        state.event(global(1, Interface::Compositor)),
        only(vec![bind(Interface::Compositor, 1), Request::CreateSurface])
    );
    assert_eq!(state.phase(), Phase::SurfaceCreated);
    let mut expected = vec![bind(Interface::WmBase, 4)];
    expected.extend(window());
    assert_eq!(state.event(global(4, Interface::WmBase)), only(expected));
    assert_eq!(state.phase(), Phase::AwaitingConfigure);
    assert_eq!(state.event(Event::ToplevelConfigure { width: 400, height: 100 }), no_reaction());
    assert_eq!(state.phase(), Phase::AwaitingConfigure);
    let response = state.event(Event::SurfaceConfigure { serial: 21 });
    assert_eq!(response.requests, vec![Request::AckConfigure { serial: 21 }]);
    assert!(response.draw.is_some());
    assert_eq!(state.phase(), Phase::Configured);
    assert_eq!(state.event(Event::Close), no_reaction());
    assert_eq!(state.phase(), Phase::Closed);
}

#[test]
fn window_is_created_when_the_shell_comes_first() {
    let mut state = State::default();
    state.event(Event::Connected);
    assert_eq!(state.event(global(3, Interface::WmBase)), only(vec![bind(Interface::WmBase, 3)]));
    assert_eq!(state.phase(), Phase::AwaitingGlobals);
    let mut expected = vec![bind(Interface::Compositor, 5), Request::CreateSurface];
    expected.extend(window());
    assert_eq!(state.event(global(5, Interface::Compositor)), only(expected));
    assert_eq!(state.phase(), Phase::AwaitingConfigure);
}

#[test]
fn window_is_created_only_once() {
    let mut state = State::default();
    state.event(global(1, Interface::Compositor));
    state.event(global(2, Interface::WmBase));
    assert_eq!(state.phase(), Phase::AwaitingConfigure);
    assert_eq!(
        state.event(global(3, Interface::Compositor)),
        only(vec![bind(Interface::Compositor, 3), Request::CreateSurface])
    );
    assert_eq!(state.event(global(4, Interface::WmBase)), only(vec![bind(Interface::WmBase, 4)]));
    assert_eq!(state.phase(), Phase::AwaitingConfigure);
}

#[test]
fn registry_events_imply_a_connection() {
    let mut state = State::default();
    assert_eq!(state.event(Event::GlobalRemove { name: 3 }), no_reaction());
    assert_eq!(state.phase(), Phase::AwaitingGlobals);
    assert_eq!(state.event(Event::Connected), no_reaction());
}

#[test]
fn seat_is_bound_and_asked_for_its_devices() {
    let mut state = State::default();
    assert_eq!(state.event(global(6, Interface::Seat)), only(vec![bind(Interface::Seat, 6)]));
    assert_eq!(
        state.event(Event::SeatCapabilities { keyboard: true, pointer: true }),
        only(vec![Request::GetKeyboard, Request::GetPointer])
    );
    assert_eq!(
        state.event(Event::SeatCapabilities { keyboard: true, pointer: false }),
        only(vec![Request::GetKeyboard])
    );
    assert_eq!(
        state.event(Event::SeatCapabilities { keyboard: false, pointer: true }),
        only(vec![Request::GetPointer])
    );
    assert_eq!(
        state.event(Event::SeatCapabilities { keyboard: false, pointer: false }),
        no_reaction()
    );
}

#[test]
fn ping_is_answered_and_changes_nothing() {
    let mut state = configured_session(400, 100);
    let phase = state.phase();
    assert_eq!(state.event(Event::Ping { serial: 77 }), only(vec![Request::Pong { serial: 77 }]));
    assert_eq!(state.phase(), phase);
    assert_eq!(state.configured_w(), 400);
    assert_eq!(state.configured_h(), 100);
    assert!(state.running());
    let mut fresh = State::default();
    assert_eq!(fresh.event(Event::Ping { serial: 0 }), only(vec![Request::Pong { serial: 0 }]));
    assert_eq!(fresh.phase(), Phase::Disconnected);
}

#[test]
fn other_events_change_nothing() {
    let mut state = configured_session(400, 100);
    assert_eq!(state.event(Event::Other), no_reaction());
    assert_eq!(state.phase(), Phase::Configured);
    assert_eq!(state.event(Event::Key { key: 2 }), no_reaction());
    assert_eq!(state.event(Event::Key { key: 0 }), no_reaction());
    assert!(state.running());
}

#[test]
fn size_proposal_with_a_dimension_not_positive() {
    let mut state = State::default();
    state.event(Event::ToplevelConfigure { width: 400, height: 100 });
    state.event(Event::ToplevelConfigure { width: 0, height: 50 });
    assert_eq!((state.configured_w(), state.configured_h()), (400, 50));
    state.event(Event::ToplevelConfigure { width: 300, height: 0 });
    assert_eq!((state.configured_w(), state.configured_h()), (300, 50));
    state.event(Event::ToplevelConfigure { width: -5, height: -1 });
    assert_eq!((state.configured_w(), state.configured_h()), (300, 50));
    state.event(Event::ToplevelConfigure { width: 0, height: 0 });
    assert_eq!((state.configured_w(), state.configured_h()), (300, 50));
    state.event(Event::ToplevelConfigure { width: i32::MIN, height: i32::MAX });
    assert_eq!((state.configured_w(), state.configured_h()), (300, i32::MAX));
}

#[test]
fn size_proposal_with_both_positive_replaces_both() {
    let mut state = State::default();
    state.event(Event::ToplevelConfigure { width: 400, height: 100 });
    assert_eq!((state.configured_w(), state.configured_h()), (400, 100));
    assert!(state.redraw_necessary());
    state.event(Event::ToplevelConfigure { width: 1, height: 1 });
    assert_eq!((state.configured_w(), state.configured_h()), (1, 1));
    assert!(state.redraw_necessary());
}

#[test]
fn scenario_close_while_configured() {
    let mut state = configured_session(400, 100);
    assert_eq!(state.phase(), Phase::Configured);
    assert!(state.running());
    assert_eq!(state.event(Event::Close), no_reaction());
    assert!(!state.running());
    assert_eq!(state.phase(), Phase::Closed);
}

#[test]
fn scenario_escape_in_any_state() {
    let mut fresh = State::default();
    assert_eq!(fresh.event(Event::Key { key: 1 }), no_reaction());
    assert!(!fresh.running());
    assert_eq!(fresh.phase(), Phase::Closed);

    let mut waiting = State::default();
    waiting.event(Event::Connected);
    waiting.event(global(1, Interface::Compositor));
    waiting.event(global(2, Interface::WmBase));
    waiting.event(Event::Key { key: ESCAPE_KEY });
    assert!(!waiting.running());

    let mut shown = configured_session(400, 100);
    shown.event(Event::Key { key: ESCAPE_KEY });
    assert!(!shown.running());
    assert_eq!(shown.phase(), Phase::Closed);
}

#[test]
fn closed_session_stays_closed() {
    let mut state = configured_session(400, 100);
    state.event(Event::Close);
    state.event(Event::Connected);
    state.event(global(1, Interface::Compositor));
    state.event(Event::SurfaceConfigure { serial: 1 });
    state.event(Event::ToplevelConfigure { width: 10, height: 10 });
    state.event(Event::Key { key: 5 });
    assert!(!state.running());
    assert_eq!(state.phase(), Phase::Closed);
}

#[test]
fn announced_shared_memory_is_drawn_under_its_name() {
    let mut state = State::default();
    state.event(Event::Connected);
    let response = state.event(global(11, Interface::Shm));
    assert!(response.requests.is_empty());
    assert_eq!(
        response.draw,
        Some(Draw {
            frame: Vec::new(),
            steps: vec![
                DrawStep::BindShm { name: 11, version: 1 },
                DrawStep::AllocateFile,
                DrawStep::WriteFrame,
                DrawStep::CreatePool { size: 4 },
                DrawStep::CreateBuffer { offset: 0, width: 1, height: 1, stride: 4 },
                DrawStep::ReleasePrevious,
            ],
        })
    );
}

#[test]
fn announced_output_is_drawn_under_the_default_name() {
    let mut state = State::default();
    state.event(Event::ToplevelConfigure { width: 20, height: 15 });
    let response = state.event(global(40, Interface::Output));
    assert!(response.requests.is_empty());
    let draw = response.draw.unwrap();
    assert_eq!(draw.steps, hidden_steps(1, 20, 15));
    assert_eq!(draw.steps[3], DrawStep::CreatePool { size: 1200 });
    assert_eq!(
        draw.steps[4],
        DrawStep::CreateBuffer { offset: 0, width: 20, height: 15, stride: 80 }
    );
    assert_eq!(draw.frame, render(20, 15, None));
    assert_eq!(draw.frame.len(), 1200);
}

#[test]
fn scenario_configured_panel_without_capture() {
    let mut state = State::default();
    state.event(Event::Connected);
    state.event(global(1, Interface::Compositor));
    state.event(global(2, Interface::WmBase));
    state.event(Event::ToplevelConfigure { width: 400, height: 100 });
    let response = state.event(Event::SurfaceConfigure { serial: 3 });
    assert_eq!(response.requests, vec![Request::AckConfigure { serial: 3 }]);
    let draw = response.draw.unwrap();
    assert_eq!(
        draw.steps,
        vec![
            DrawStep::BindShm { name: DEFAULT_SHM_NAME, version: BIND_VERSION },
            DrawStep::AllocateFile,
            DrawStep::WriteFrame,
            DrawStep::CreatePool { size: 160000 },
            DrawStep::CreateBuffer { offset: 0, width: 400, height: 100, stride: 1600 },
            DrawStep::Attach { x: 0, y: 0 },
            DrawStep::Damage { x: 0, y: 0, width: 400, height: 100 },
            DrawStep::Commit,
            DrawStep::ReleasePrevious,
        ]
    );
    assert_eq!(draw.frame.len(), 160000);
    assert_eq!(draw.frame, render(400, 100, None));
    assert_eq!(&draw.frame[4 * (50 * 400 + 200)..4 * (50 * 400 + 200) + 4], &[127, 127, 127, 0xE0]);
    assert_eq!(&draw.frame[0..4], &[0, 0, 0, 0]);
    assert_eq!(&draw.frame[4 * (50 * 400 + 149)..4 * (50 * 400 + 149) + 4], &[0, 0, 0, 255]);
}

#[test]
fn frame_is_shown_only_after_an_acknowledged_configure() {
    let mut state = State::default();
    state.event(global(1, Interface::Compositor));
    state.event(global(2, Interface::WmBase));
    assert_eq!(state.draw(1).unwrap().steps, hidden_steps(1, 1, 1));
    assert!(!is_shown(&state.draw_from_stolen().unwrap()));
    state.event(Event::SurfaceConfigure { serial: 1 });
    assert!(state.configured());
    assert_eq!(state.draw(6).unwrap().steps, shown_steps(6, 1, 1));
    assert!(is_shown(&state.draw_from_stolen().unwrap()));
}

#[test]
fn frame_is_not_shown_without_a_base_surface() {
    let mut state = State::default();
    state.event(global(2, Interface::WmBase));
    let response = state.event(Event::SurfaceConfigure { serial: 1 });
    assert_eq!(response.requests, vec![Request::AckConfigure { serial: 1 }]);
    assert_eq!(response.draw.unwrap().steps, hidden_steps(1, 1, 1));
    assert!(state.configured());
}

#[test]
fn configure_before_the_registry_spoke_draws_nothing() {
    let mut state = State::default();
    let response = state.event(Event::SurfaceConfigure { serial: 8 });
    assert_eq!(response, only(vec![Request::AckConfigure { serial: 8 }]));
    assert!(state.configured());
    assert_eq!(state.draw_from_stolen(), None);
}

#[test]
fn redraw_uses_the_current_size_and_capture() {
    let mut state = configured_session(400, 100);
    let frame = solid_frame(200, 200, 9);
    state.take_screenshot(Some(frame.clone()));
    let draw = state.draw_from_stolen().unwrap();
    assert_eq!(draw.frame, render(400, 100, Some(&frame)));
    assert_ne!(draw.frame, render(400, 100, None));
    state.event(Event::ToplevelConfigure { width: 40, height: 30 });
    let draw = state.draw_from_stolen().unwrap();
    assert_eq!(draw.steps, shown_steps(1, 40, 30));
    assert_eq!(draw.steps[3], DrawStep::CreatePool { size: 4800 });
    assert_eq!(draw.frame, render(40, 30, Some(&frame)));
}

#[test]
fn panel_too_large_for_the_protocol_is_not_drawn() {
    let mut state = configured_session(30000, 30000);
    assert_eq!(state.draw(1), None);
    assert_eq!(state.draw_from_stolen(), None);
    let response = state.event(global(5, Interface::Shm));
    assert_eq!(response, no_reaction());
    let mut widest = configured_session(i32::MAX, i32::MAX);
    assert_eq!(widest.draw(1), None);
    assert_eq!(widest.event(Event::SurfaceConfigure { serial: 2 }).draw, None);
    let edge = configured_session(536870912, 1);
    assert_eq!(edge.draw(1), None);
}

#[test]
fn largest_pool_that_fits() {
    let state = configured_session(536870911, 1);
    let draw = state.draw(3).unwrap();
    assert_eq!(draw.steps[3], DrawStep::CreatePool { size: 2147483644 });
    assert_eq!(
        draw.steps[4],
        DrawStep::CreateBuffer { offset: 0, width: 536870911, height: 1, stride: 2147483644 }
    );
    assert_eq!(draw.steps, shown_steps(3, 536870911, 1));
    assert!(draw.frame.is_empty());
}

#[test]
fn small_panel_gets_a_pool_but_no_pixels() {
    let state = configured_session(11, 200);
    let draw = state.draw(1).unwrap();
    assert_eq!(draw.steps[3], DrawStep::CreatePool { size: 8800 });
    assert!(draw.frame.is_empty());
}

#[test]
fn capture_region_lies_above_the_panel() {
    let state = configured_session(400, 100);
    assert_eq!(
        state.capture_request(1200),
        Some(CaptureRegion { x: 100, y: 1000, width: 200, height: 200 })
    );
    assert_eq!(
        state.capture_request(0),
        Some(CaptureRegion { x: 100, y: -200, width: 200, height: 200 })
    );
    let odd = configured_session(5, 4);
    assert_eq!(odd.capture_request(100), Some(CaptureRegion { x: 1, y: 92, width: 2, height: 8 }));
}

#[test]
fn no_capture_for_panels_below_four_pixels() {
    assert_eq!(State::default().capture_request(1200), None);
    assert_eq!(configured_session(3, 100).capture_request(1200), None);
    assert_eq!(configured_session(100, 3).capture_request(1200), None);
    assert!(configured_session(4, 4).capture_request(1200).is_some());
}

#[test]
fn no_capture_where_the_region_does_not_fit() {
    assert_eq!(configured_session(400, i32::MAX).capture_request(1200), None);
    assert_eq!(configured_session(400, 1073741824).capture_request(i32::MAX), None);
    assert_eq!(
        configured_session(400, 1073741823).capture_request(i32::MAX),
        Some(CaptureRegion { x: 100, y: 1, width: 200, height: 2147483646 })
    );
    assert_eq!(configured_session(400, 100).capture_request(i32::MIN), None);
    assert_eq!(
        configured_session(400, 100).capture_request(i32::MIN + 200),
        Some(CaptureRegion { x: 100, y: i32::MIN, width: 200, height: 200 })
    );
}

#[test]
fn screenshot_is_kept_by_panels_large_enough() {
    let mut state = configured_session(400, 100);
    let frame = solid_frame(2, 2, 5);
    state.take_screenshot(Some(frame.clone()));
    assert_eq!(state.last_screenshot(), Some(&frame));
    state.take_screenshot(None);
    assert_eq!(state.last_screenshot(), Some(&frame));
    let mut other = solid_frame(2, 2, 6);
    other.pixel_format = PixelFormat::Other;
    state.take_screenshot(Some(other));
    assert_eq!(state.last_screenshot(), Some(&frame));
    let newer = solid_frame(3, 1, 8);
    state.take_screenshot(Some(newer.clone()));
    assert_eq!(state.last_screenshot(), Some(&newer));
}

#[test]
fn screenshot_is_ignored_by_panels_below_four_pixels() {
    let mut state = State::default();
    state.take_screenshot(Some(solid_frame(2, 2, 5)));
    assert_eq!(state.last_screenshot(), None);
    let mut narrow = configured_session(3, 100);
    narrow.take_screenshot(Some(solid_frame(2, 2, 5)));
    assert_eq!(narrow.last_screenshot(), None);
    let mut kept = configured_session(400, 100);
    let frame = solid_frame(2, 2, 5);
    kept.take_screenshot(Some(frame.clone()));
    kept.event(Event::ToplevelConfigure { width: 2, height: 2 });
    kept.take_screenshot(Some(solid_frame(1, 1, 1)));
    assert_eq!(kept.last_screenshot(), Some(&frame));
}

#[test]
fn only_a_failed_allocation_ends_a_redraw() {
    assert!(step_ends_redraw(DrawStep::AllocateFile, true));
    assert!(!step_ends_redraw(DrawStep::AllocateFile, false));
    let others = [
        DrawStep::BindShm { name: 1, version: 1 },
        DrawStep::WriteFrame,
        DrawStep::CreatePool { size: 4 },
        DrawStep::CreateBuffer { offset: 0, width: 1, height: 1, stride: 4 },
        DrawStep::Attach { x: 0, y: 0 },
        DrawStep::Damage { x: 0, y: 0, width: 1, height: 1 },
        DrawStep::Commit,
        DrawStep::ReleasePrevious,
    ];
    for step in others {
        assert!(!step_ends_redraw(step, true));
        assert!(!step_ends_redraw(step, false));
    }
}

#[test]
fn failed_allocation_leaves_the_rest_of_a_redraw_undone() {
    let state = configured_session(400, 100);
    let draw = state.draw(1).unwrap();
    let mut done = Vec::new();
    for step in draw.steps {
        done.push(step);
        if step_ends_redraw(step, step == DrawStep::AllocateFile) {
            break;
        }
    }
    assert_eq!(done, vec![DrawStep::BindShm { name: 1, version: 1 }, DrawStep::AllocateFile]);
}

#[test]
fn failed_write_does_not_end_a_redraw() {
    let state = configured_session(400, 100);
    let draw = state.draw(1).unwrap();
    let mut done = 0;
    let total = draw.steps.len();
    for step in draw.steps {
        done += 1;
        if step_ends_redraw(step, step == DrawStep::WriteFrame) {
            break;
        }
    }
    assert_eq!(done, total);
    assert_eq!(total, 9);
}

#[test]
fn ignored_or_repeated_size_proposal_changes_nothing() {
    let mut state = configured_session(400, 100);
    let flag = state.redraw_necessary();
    state.event(Event::ToplevelConfigure { width: 0, height: 0 });
    assert_eq!((state.configured_w(), state.configured_h()), (400, 100));
    assert_eq!(state.redraw_necessary(), flag);
    state.event(Event::ToplevelConfigure { width: 400, height: 100 });
    assert_eq!((state.configured_w(), state.configured_h()), (400, 100));
    assert_eq!(state.redraw_necessary(), flag);
    state.event(Event::ToplevelConfigure { width: -5, height: 100 });
    assert_eq!((state.configured_w(), state.configured_h()), (400, 100));
    assert_eq!(state.redraw_necessary(), flag);
    assert_eq!(state.phase(), Phase::Configured);
}
