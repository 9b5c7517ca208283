use scrollshot::capture::{
    frame_from_bgra, require_pixels, GdiScreenCapture, MonitorArea, ScreenCapture,
    XcapScreenCapture,
};
use scrollshot::cli::Cli;
use scrollshot::error::AppError;
use scrollshot::raster::Frame;
use scrollshot::region::{
    rect_height, rect_width, screen_bounds, select_capture_region, Bounds, OverlayEffect,
    OverlayEvent, OverlayPhase, OverlayState,
};
use scrollshot::screen_rect::{Point, ScreenRect};
use scrollshot::scroll::{InputStep, ScrollController, FOCUS_SETTLE_MS};
use scrollshot::window::{
    client_rect_in_screen_space, find_by_title, from_foreground_window, title_matches,
    window_title, TargetWindow, WindowInfo,
};

fn at(x: i32, y: i32) -> Point {
    Point { x, y }
}

fn rect(left: i32, top: i32, width: i32, height: i32) -> ScreenRect {
    ScreenRect { left, top, width, height }
}

fn window(hwnd: isize, visible: bool, title: &str) -> WindowInfo {
    WindowInfo { hwnd, visible, title: title.to_string() }
}

#[test]
fn rectangles_lie_between_their_corners() {
    let expected = rect(-5, 3, 15, 7);
    assert_eq!(ScreenRect::from_points(at(-5, 3), at(10, 10)), Some(expected));
    assert_eq!(ScreenRect::from_points(at(10, 3), at(-5, 10)), Some(expected));
    assert_eq!((expected.right(), expected.bottom()), (10, 10));
    assert_eq!(expected.center(), at(2, 6));
    assert_eq!(ScreenRect::from_points(at(4, 3), at(4, 10)), None);
    assert_eq!(ScreenRect::from_points(at(4, 3), at(9, 3)), None);
    assert_eq!(rect(0, 0, -3, -4).center(), at(-1, -2));
}

#[test]
fn a_region_is_dragged_and_clicked() {
    let bounds = screen_bounds(-100, -50, 800, 600);
    assert_eq!(bounds, Bounds { left: -100, top: -50, right: 700, bottom: 550 });
    assert_eq!((rect_width(bounds), rect_height(bounds)), (800, 600));
    let mut state = OverlayState::new(bounds);
    assert_eq!(state.handle(OverlayEvent::MouseMove(Some(at(1, 1)))), OverlayEffect::Ignore);
    assert_eq!(state.handle(OverlayEvent::ButtonUp(Some(at(1, 1)))), OverlayEffect::Ignore);
    assert_eq!(state.handle(OverlayEvent::ButtonDown(None)), OverlayEffect::Ignore);
    assert_eq!(
        state.handle(OverlayEvent::ButtonDown(Some(at(10, 20)))),
        OverlayEffect::GrabAndRedraw
    );
    assert_eq!(state.handle(OverlayEvent::MouseMove(Some(at(30, 25)))), OverlayEffect::Redraw);
    assert_eq!(state.handle(OverlayEvent::MouseMove(None)), OverlayEffect::Ignore);
    assert_eq!(state.selection(), Some(rect(10, 20, 20, 5)));
    assert_eq!(
        state.handle(OverlayEvent::ButtonUp(Some(at(60, 70)))),
        OverlayEffect::ReleaseAndRedraw
    );
    assert_eq!(state.phase, OverlayPhase::AwaitingStartClick);
    assert_eq!(
        state.client_selection_rect(),
        Some(Bounds { left: 110, top: 70, right: 160, bottom: 120 })
    );
    assert!(state.point_in_selection(at(10, 20)));
    assert!(!state.point_in_selection(at(60, 30)));
    assert!(!state.point_in_selection(at(30, 70)));
    assert_eq!(
        state.handle(OverlayEvent::ButtonDown(Some(at(60, 30)))),
        OverlayEffect::Ignore
    );
    assert!(matches!(
        select_capture_region(&state),
        Err(AppError::Message(words)) if words == "Selected region is too small"
    ));
    assert_eq!(state.handle(OverlayEvent::ButtonDown(Some(at(30, 40)))), OverlayEffect::Quit);
    let selected = select_capture_region(&state).unwrap();
    assert_eq!(selected.rect, rect(10, 20, 50, 50));
    assert_eq!(selected.scroll_point, at(30, 40));
    assert_eq!(state.handle(OverlayEvent::Dismiss), OverlayEffect::ReleaseAndQuit);
    assert!(matches!(
        select_capture_region(&state),
        Err(AppError::Message(words)) if words == "Region selection was cancelled"
    ));
}

#[test]
fn an_empty_drag_can_be_repeated() {
    let mut state = OverlayState::new(screen_bounds(0, 0, 800, 600));
    assert_eq!(state.client_selection_rect(), None);
    state.handle(OverlayEvent::ButtonDown(Some(at(10, 20))));
    assert_eq!(state.handle(OverlayEvent::ButtonUp(None)), OverlayEffect::ReleaseAndRedraw);
    assert_eq!(state.phase, OverlayPhase::Drawing);
    assert_eq!(
        state.handle(OverlayEvent::ButtonDown(Some(at(11, 21)))),
        OverlayEffect::GrabAndRedraw
    );
}

#[test]
fn a_region_on_one_monitor_is_captured_from_it() {
    let monitor = MonitorArea { left: -1920, top: 0, width: 1920, height: 1080 };
    let inside = rect(-1900, 10, 1900, 1070);
    let part = XcapScreenCapture { offset_x: 20, offset_y: 10, width: 1900, height: 1070 };
    assert_eq!(XcapScreenCapture::try_new(inside, monitor), Some(part));
    assert_eq!(ScreenCapture::new(inside, monitor), ScreenCapture::Xcap(part));
    let across = rect(-1900, 10, 1901, 1070);
    assert_eq!(
        ScreenCapture::new(across, monitor),
        ScreenCapture::Gdi(GdiScreenCapture::new(across))
    );
    let below = rect(-1900, 10, 1900, 1071);
    assert_eq!(XcapScreenCapture::try_new(below, monitor), None);
    let before = rect(-1921, 0, 10, 10);
    assert_eq!(
        XcapScreenCapture::try_new(before, monitor),
        Some(XcapScreenCapture { offset_x: u32::MAX, offset_y: 0, width: 10, height: 10 })
    );
    assert_eq!(GdiScreenCapture::new(inside).buffer_len(), 1900 * 1070 * 4);
}

#[test]
fn captured_pixels_become_a_frame() {
    let frame = frame_from_bgra(2, 1, vec![1, 2, 3, 4, 5, 6, 7, 8], 1).unwrap();
    assert_eq!(frame.data, vec![3, 2, 1, 255, 7, 6, 5, 255]);
    let back = frame_from_bgra(2, 1, frame.data, 1).unwrap();
    assert_eq!(back.data, vec![1, 2, 3, 255, 5, 6, 7, 255]);
    assert!(matches!(
        frame_from_bgra(2, 1, vec![0; 8], 0),
        Err(AppError::Message(words)) if words == "GetDIBits returned no pixels"
    ));
    assert!(matches!(frame_from_bgra(2, 1, vec![0; 7], 1), Err(AppError::EmptyCapture)));
    let empty = Frame { width: 0, height: 3, data: vec![] };
    assert!(matches!(require_pixels(empty), Err(AppError::EmptyCapture)));
    assert_eq!(require_pixels(back).unwrap().width, 2);
}

#[test]
fn windows_are_found_by_a_part_of_their_title() {
    let windows = vec![
        window(1, false, "Editor"),
        window(2, true, ""),
        window(3, true, "Browser - ÄPFEL"),
        window(4, true, "Text editor"),
        window(5, true, "Other Editor"),
    ];
    let found = find_by_title("eDITor", &windows).unwrap();
    assert_eq!((found.hwnd, found.title.as_str()), (4, "Text editor"));
    assert_eq!(find_by_title("äpfel", &windows).unwrap().hwnd, 3);
    assert_eq!(find_by_title("", &windows).unwrap().hwnd, 3);
    assert!(matches!(
        find_by_title("Missing", &windows),
        Err(AppError::WindowNotFound(title)) if title == "Missing"
    ));
    assert!(title_matches(true, "Ab", "ab", "b"));
    assert!(!title_matches(false, "Ab", "ab", "b"));
    assert!(!title_matches(true, "Ab", "ab", "ba"));

    let chosen = TargetWindow::resolve(Some("other"), &windows, 9, "Front".to_string()).unwrap();
    assert_eq!(chosen.hwnd, 5);
    let chosen = TargetWindow::resolve(None, &windows, 9, "Front".to_string()).unwrap();
    assert_eq!((chosen.hwnd, chosen.title.as_str()), (9, "Front"));
    assert!(matches!(
        TargetWindow::resolve(None, &windows, 0, String::new()),
        Err(AppError::NoForegroundWindow)
    ));
    assert!(from_foreground_window(7, String::new()).is_ok());
}

#[test]
fn a_window_has_to_come_to_the_foreground() {
    let target = TargetWindow { hwnd: 4, title: "Text editor".to_string() };
    assert!(target.activate(4).is_ok());
    assert_eq!(
        target.activate(5).unwrap_err().message(),
        "Failed to bring 'Text editor' to the foreground"
    );
}

#[test]
fn client_areas_are_not_empty() {
    assert_eq!(
        client_rect_in_screen_space(at(-3, 5), at(7, 9)).unwrap(),
        rect(-3, 5, 10, 4)
    );
    for corner in [at(-3, 9), at(7, 5), at(-4, 2)] {
        assert_eq!(
            client_rect_in_screen_space(at(-3, 5), corner).unwrap_err().message(),
            "Target window has an empty client area"
        );
    }
}

#[test]
fn titles_are_read_from_code_units() {
    let units: Vec<u16> = vec![72, 105, 0xd83d, 0xde00, 0];
    assert_eq!(window_title(4, &units, 4), "Hi\u{1f600}");
    assert_eq!(window_title(4, &units, 2), "Hi");
    assert_eq!(window_title(4, &units, 3), "Hi\u{fffd}");
    assert_eq!(window_title(0, &units, 0), "");
}

#[test]
fn errors_are_told_in_words() {
    let told = |error: AppError| error.message();
    assert_eq!(told(AppError::Windows("x".to_string())), "Windows API error: x");
    assert_eq!(told(AppError::XCap("y".to_string())), "Screen capture backend error: y");
    assert_eq!(told(AppError::Message("z".to_string())), "z");
    assert_eq!(told(AppError::NoForegroundWindow), "No foreground window is available");
    assert_eq!(
        told(AppError::WindowNotFound("w".to_string())),
        "No visible window matched title filter: w"
    );
    assert_eq!(told(AppError::EmptyCapture), "Captured frame is empty");
    assert_eq!(
        told(AppError::FrameSizeChanged {
            expected_width: 1920,
            expected_height: 0,
            actual_width: 4_294_967_295,
            actual_height: 10,
        }),
        "Frame dimensions changed during capture: expected 1920x0, got 4294967295x10"
    );
    assert_eq!(
        told(AppError::OverlapNotFound),
        "Unable to detect a stable overlap between consecutive frames"
    );
    assert_eq!(
        told(AppError::InvalidStitchState),
        "Frame count and overlap count are inconsistent"
    );
    assert_eq!(
        told(AppError::SaveImage { path: "a.png".to_string(), source: "full".to_string() }),
        "Failed to write image to a.png: full"
    );
}

#[test]
fn failures_of_the_mouse_name_the_step() {
    let controller = ScrollController::new();
    assert_eq!(format!("{controller:?}"), "ScrollController");
    assert_eq!(FOCUS_SETTLE_MS, 80);
    assert_eq!(InputStep::Init.failed("e").message(), "enigo init failed: e");
    assert_eq!(InputStep::MoveMouse.failed("e").message(), "move_mouse failed: e");
    assert_eq!(InputStep::Click.failed("e").message(), "button click failed: e");
    assert_eq!(InputStep::Scroll.failed("e").message(), "scroll failed: e");
}

#[test]
fn the_command_line_has_defaults() {
    let cli = Cli::default();
    assert_eq!(cli.output, "scrollshot.png");
    assert_eq!((cli.max_scrolls, cli.settle_ms, cli.wheel_notches), (8000, 250, 3));
    assert!(cli.title.is_none() && !cli.select_region);
    assert!(cli.is_valid());
    let settings = cli.scroll_settings();
    assert_eq!(settings.max_scrolls, 8000);
    assert_eq!(settings.settle_ms, 250);
    assert_eq!(settings.wheel_notches, 3);
    assert!(!Cli { wheel_notches: 0, ..cli }.is_valid());
}
