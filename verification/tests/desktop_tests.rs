use translator::desktop::{
    captured_text, color_channels, floating_window_position, get_cursor_position, get_windows_theme, is_dark_theme,
    shortcut_action, simulate_copy, window_event_action, CaptureAction, CursorReading, KeyInput,
    MonitorArea, WindowAction, WindowEventKind,
};

fn rgb(r: u32, g: u32, b: u32) -> u32 {
    r | (g << 8) | (b << 16)
}

/// The floating-point judgement the application makes from the channels.
fn dark_background(color: u32) -> bool {
    let (r, g, b) = color_channels(color);
    (0.299 * r as f64) + (0.587 * g as f64) + (0.114 * b as f64) < 128.0
}

#[test]
fn light_theme_without_system_colour() {
    assert!(!is_dark_theme(None));
    assert_eq!(get_windows_theme(None), Ok("light".to_string()));
}

#[test]
fn theme_follows_the_background_judgement() {
    assert!(is_dark_theme(Some(true)));
    assert!(!is_dark_theme(Some(false)));
    assert_eq!(get_windows_theme(Some(true)), Ok("dark".to_string()));
    assert_eq!(get_windows_theme(Some(false)), Ok("light".to_string()));
}

#[test]
fn channels_of_a_colour() {
    assert_eq!(color_channels(0x0048C808), (8, 200, 72));
    assert_eq!(color_channels(0xFF00_00FF), (255, 0, 0));
    assert_eq!(color_channels(rgb(1, 2, 3)), (1, 2, 3));
    for r in (0u32..256).step_by(5) {
        for g in (0u32..256).step_by(7) {
            for b in (0u32..256).step_by(3) {
                assert_eq!(color_channels(rgb(r, g, b) | 0xAB00_0000), (r as u8, g as u8, b as u8));
            }
        }
    }
}

#[test]
fn dark_and_light_backgrounds() {
    assert!(is_dark_theme(Some(dark_background(rgb(0, 0, 0)))));
    assert!(is_dark_theme(Some(dark_background(rgb(32, 32, 32)))));
    assert!(!is_dark_theme(Some(dark_background(rgb(255, 255, 255)))));
    assert!(!is_dark_theme(Some(dark_background(rgb(240, 240, 240)))));
    // 0.299 * 255 = 76.2: pure red is dark, pure green (149.7) is light, pure blue (29.1) is dark.
    assert!(dark_background(rgb(255, 0, 0)));
    assert!(!dark_background(rgb(0, 255, 0)));
    assert!(dark_background(rgb(0, 0, 255)));
    // On the threshold the floating-point sum decides: 127.99999999999999 here.
    assert!(is_dark_theme(Some(dark_background(0x0048C808))));
    assert!(!is_dark_theme(Some(dark_background(rgb(1, 189, 147)))));
}

#[test]
fn copy_keystrokes_on_windows_only() {
    assert_eq!(
        simulate_copy(true),
        vec![
            KeyInput { virtual_key: 0x11, key_up: false },
            KeyInput { virtual_key: 0x43, key_up: false },
            KeyInput { virtual_key: 0x43, key_up: true },
            KeyInput { virtual_key: 0x11, key_up: true },
        ]
    );
    assert!(simulate_copy(false).is_empty());
}

#[test]
fn cursor_position_from_query() {
    assert_eq!(get_cursor_position(Some(CursorReading { status: 1, x: 10, y: -4 })), Some((10, -4)));
    assert_eq!(get_cursor_position(Some(CursorReading { status: 0, x: 10, y: 20 })), None);
    assert_eq!(get_cursor_position(None), None);
}

fn monitor(x: i32, y: i32, width: i32, height: i32) -> MonitorArea {
    MonitorArea { x, y, width, height, window_width: 380, window_height: 240 }
}

#[test]
fn floating_window_offset_from_cursor() {
    assert_eq!(floating_window_position(Some((100, 200)), &vec![monitor(0, 0, 1920, 1080)]), Some((116, 216)));
    assert_eq!(floating_window_position(Some((100, 200)), &vec![]), Some((116, 216)));
    assert_eq!(floating_window_position(None, &vec![monitor(0, 0, 1920, 1080)]), None);
}

#[test]
fn floating_window_kept_on_monitor() {
    let monitors = vec![monitor(0, 0, 1920, 1080), monitor(1920, 0, 1280, 1024)];
    // Near the bottom right corner of the first monitor.
    assert_eq!(floating_window_position(Some((1900, 1070)), &monitors), Some((1540, 840)));
    // On the second monitor, near its right edge.
    assert_eq!(floating_window_position(Some((3190, 10)), &monitors), Some((2820, 26)));
    // A scaled window size on a high-DPI monitor.
    let hidpi = vec![MonitorArea { x: 0, y: 0, width: 2560, height: 1440, window_width: 570, window_height: 360 }];
    assert_eq!(floating_window_position(Some((2550, 1430)), &hidpi), Some((1990, 1080)));
}

#[test]
fn monitors_after_the_one_under_the_cursor_are_not_examined() {
    let far = MonitorArea { x: i32::MAX - 5, y: 0, width: 100, height: 100, window_width: 380, window_height: 240 };
    assert_eq!(floating_window_position(Some((10, 10)), &vec![monitor(0, 0, 1920, 1080), far]), Some((26, 26)));
    // Left of a monitor's left edge, its right edge is not computed either.
    assert_eq!(floating_window_position(Some((10, 10)), &vec![far, monitor(0, 0, 1920, 1080)]), Some((26, 26)));
}

#[test]
fn floating_window_on_tiny_monitor_starts_at_its_corner() {
    let tiny = vec![monitor(-800, 0, 300, 200)];
    assert_eq!(floating_window_position(Some((-700, 100)), &tiny), Some((-800, 0)));
}

#[test]
fn shortcut_actions() {
    assert_eq!(shortcut_action(false, Some(false), true), CaptureAction::Nothing);
    assert_eq!(shortcut_action(true, Some(true), true), CaptureAction::Nothing);
    assert_eq!(shortcut_action(true, Some(false), true), CaptureAction::Selection);
    assert_eq!(shortcut_action(true, Some(false), false), CaptureAction::Clipboard);
    assert_eq!(shortcut_action(true, None, true), CaptureAction::Selection);
    assert_eq!(shortcut_action(true, None, false), CaptureAction::Clipboard);
}

#[test]
fn captured_text_skips_blank_and_failed_reads() {
    assert_eq!(captured_text(&Ok("hello".to_string())), Some("hello".to_string()));
    assert_eq!(captured_text(&Ok("  \n\t ".to_string())), None);
    assert_eq!(captured_text(&Ok(String::new())), None);
    assert_eq!(captured_text(&Err("denied".to_string())), None);
}

#[test]
fn window_events() {
    assert_eq!(window_event_action(WindowEventKind::CloseRequested, None, true), WindowAction::PreventCloseAndHide);
    assert_eq!(window_event_action(WindowEventKind::CloseRequested, None, false), WindowAction::Proceed);
    assert_eq!(window_event_action(WindowEventKind::Resized, Some(true), true), WindowAction::Hide);
    assert_eq!(window_event_action(WindowEventKind::Resized, Some(true), false), WindowAction::Proceed);
    assert_eq!(window_event_action(WindowEventKind::Resized, Some(false), true), WindowAction::Proceed);
    assert_eq!(window_event_action(WindowEventKind::Resized, None, true), WindowAction::Proceed);
    assert_eq!(window_event_action(WindowEventKind::Other, Some(true), true), WindowAction::Proceed);
}
