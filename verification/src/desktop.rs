//! Decisions around the desktop: theme, simulated copy keystrokes, cursor
//! position, placement of the floating window, what the global shortcut does,
//! and what window events lead to.

use vstd::prelude::*;
use crate::text::{chars_of, is_blank, is_blank_str, string_of};

verus! {

/// The red, green and blue channels of a Windows `COLORREF` (0x00BBGGRR).
pub open spec fn red(color: u32) -> int { (color % 256) as int }
pub open spec fn green(color: u32) -> int { ((color / 256) % 256) as int }
pub open spec fn blue(color: u32) -> int { ((color / 65536) % 256) as int }

/// The red, green and blue channels of a colour, in that order.
pub fn color_channels(color: u32) -> (c: (u8, u8, u8))
    ensures
        c.0 == red(color),
        c.1 == green(color),
        c.2 == blue(color),
{
    let r = color & 0xFF;
    let g = (color >> 8) & 0xFF;
    let b = (color >> 16) & 0xFF;
    assert(r == color % 256) by (bit_vector)
        requires
            r == color & 0xFF,
    ;
    assert(g == (color / 256) % 256) by (bit_vector)
        requires
            g == (color >> 8) & 0xFF,
    ;
    assert(b == (color / 65536) % 256) by (bit_vector)
        requires
            b == (color >> 16) & 0xFF,
    ;
    (r as u8, g as u8, b as u8)
}

/// Whether the system uses a dark theme. Where the platform reports its
/// window background colour (Windows), `dark_background` says whether the
/// luminance `0.299 R + 0.587 G + 0.114 B` of the channels that
/// `color_channels` gives, computed in `f64`, is below 128 (a floating-point
/// judgement made by the caller); where it reports none, the light theme is
/// assumed.
pub fn is_dark_theme(dark_background: Option<bool>) -> (r: bool)
    ensures
        r == (dark_background == Some(true)),
{
    match dark_background {
        Some(dark) => dark,
        None => false,
    }
}

/// The name of the system theme, "dark" or "light".
pub fn get_windows_theme(dark_background: Option<bool>) -> (r: Result<String, String>)
    ensures
        r matches Ok(name) && name@ == (if dark_background == Some(true) { "dark"@ } else { "light"@ }),
{
    if is_dark_theme(dark_background) {
        Ok(string_of(&chars_of("dark")))
    } else {
        Ok(string_of(&chars_of("light")))
    }
}

/// A keyboard event to inject: a virtual key going down or up.
#[derive(Clone, Copy, Debug, PartialEq, Eq, Structural)]
pub struct KeyInput {
    pub virtual_key: u16,
    pub key_up: bool,
}

/// The virtual key code of the Control key.
pub const VK_CONTROL: u16 = 0x11;

/// The virtual key code of the C key.
pub const VK_C: u16 = 0x43;

/// The keystrokes that make the foreground application copy its selection:
/// Control down, C down, C up, Control up. They are injected on Windows only;
/// elsewhere there are none.
pub fn simulate_copy(windows: bool) -> (events: Vec<KeyInput>)
    ensures
        windows ==> events@ == seq![
            KeyInput { virtual_key: 0x11, key_up: false },
            KeyInput { virtual_key: 0x43, key_up: false },
            KeyInput { virtual_key: 0x43, key_up: true },
            KeyInput { virtual_key: 0x11, key_up: true },
        ],
        !windows ==> events@.len() == 0,
{
    let mut events: Vec<KeyInput> = Vec::new();
    if windows {
        events.push(KeyInput { virtual_key: VK_CONTROL, key_up: false });
        events.push(KeyInput { virtual_key: VK_C, key_up: false });
        events.push(KeyInput { virtual_key: VK_C, key_up: true });
        events.push(KeyInput { virtual_key: VK_CONTROL, key_up: true });
    }
    events
}

/// What the platform's cursor query reported: its status (non-zero on
/// success) and the point it filled in.
#[derive(Clone, Copy, Debug, PartialEq, Eq, Structural)]
pub struct CursorReading {
    pub status: i32,
    pub x: i32,
    pub y: i32,
}

/// The mouse cursor position in physical screen pixels: the point of a
/// successful query, and nothing where the query failed or the platform has
/// none.
pub fn get_cursor_position(reading: Option<CursorReading>) -> (r: Option<(i32, i32)>)
    ensures
        r == match reading {
            Some(q) => if q.status != 0 { Some((q.x, q.y)) } else { None },
            None => None,
        },
{
    match reading {
        Some(q) => if q.status != 0 { Some((q.x, q.y)) } else { None },
        None => None,
    }
}

/// A monitor, in physical pixels, with the size the floating window takes on it.
#[derive(Clone, Copy, Debug, PartialEq, Eq, Structural)]
pub struct MonitorArea {
    pub x: i32,
    pub y: i32,
    pub width: i32,
    pub height: i32,
    pub window_width: i32,
    pub window_height: i32,
}

/// Whether a point lies on a monitor.
pub open spec fn on_monitor(m: MonitorArea, cx: int, cy: int) -> bool {
    cx >= m.x && cx < m.x + m.width && cy >= m.y && cy < m.y + m.height
}

/// The first monitor that holds the point.
pub open spec fn monitor_at(monitors: Seq<MonitorArea>, cx: int, cy: int) -> Option<MonitorArea>
    decreases monitors.len(),
{
    if monitors.len() == 0 {
        None
    } else if on_monitor(monitors[0], cx, cy) {
        Some(monitors[0])
    } else {
        monitor_at(monitors.drop_first(), cx, cy)
    }
}

/// `v` brought into `[lo, hi]` (`i32::clamp`, for `lo <= hi`).
pub open spec fn clamp(v: int, lo: int, hi: int) -> int {
    if v < lo { lo } else if v > hi { hi } else { v }
}

/// The larger of two numbers.
pub open spec fn larger(a: int, b: int) -> int {
    if a >= b { a } else { b }
}

/// Where the floating window goes: 16 pixels right of and below the cursor,
/// kept on the monitor under the cursor (where one is listed) so that the
/// window fits; nowhere when the cursor position is unknown.
pub open spec fn floating_position(cursor: Option<(i32, i32)>, monitors: Seq<MonitorArea>) -> Option<(int, int)> {
    match cursor {
        None => None,
        Some(c) => {
            let x = c.0 + 16;
            let y = c.1 + 16;
            match monitor_at(monitors, c.0 as int, c.1 as int) {
                None => Some((x, y)),
                Some(m) => Some((
                    clamp(x, m.x as int, larger(m.x + m.width - m.window_width, m.x as int)),
                    clamp(y, m.y as int, larger(m.y + m.height - m.window_height, m.y as int)),
                )),
            }
        },
    }
}

/// Whether a number fits in an `i32`.
pub open spec fn fits_i32(v: int) -> bool {
    i32::MIN <= v <= i32::MAX
}

/// Whether the sums the placement computes fit in an `i32`, following the
/// search for the monitor under the cursor: for each monitor it looks at, the
/// right edge once the cursor is right of its left edge, the bottom edge once
/// the cursor is within its columns and below its top edge, and for the
/// monitor under the cursor the largest positions that keep the window on it.
pub open spec fn placement_in_range(monitors: Seq<MonitorArea>, cx: int, cy: int) -> bool
    decreases monitors.len(),
{
    if monitors.len() == 0 {
        true
    } else {
        let m = monitors[0];
        if cx < m.x {
            placement_in_range(monitors.drop_first(), cx, cy)
        } else if !fits_i32(m.x + m.width) {
            false
        } else if cx >= m.x + m.width || cy < m.y {
            placement_in_range(monitors.drop_first(), cx, cy)
        } else if !fits_i32(m.y + m.height) {
            false
        } else if cy >= m.y + m.height {
            placement_in_range(monitors.drop_first(), cx, cy)
        } else {
            fits_i32(m.x + m.width - m.window_width) && fits_i32(m.y + m.height - m.window_height)
        }
    }
}

/// The position of the floating window for a cursor position and the
/// monitors of the system.
pub fn floating_window_position(cursor: Option<(i32, i32)>, monitors: &Vec<MonitorArea>) -> (r: Option<(i32, i32)>)
    requires
        cursor matches Some(c) ==> c.0 + 16 <= i32::MAX && c.1 + 16 <= i32::MAX
            && placement_in_range(monitors@, c.0 as int, c.1 as int),
    ensures
        match r {
            Some(p) => floating_position(cursor, monitors@) == Some((p.0 as int, p.1 as int)),
            None => floating_position(cursor, monitors@) is None,
        },
{
    let (cx, cy) = match cursor {
        Some(c) => c,
        None => return None,
    };
    let mut x = cx + 16;
    let mut y = cy + 16;
    let mut i: usize = 0;
    assert(monitors@.skip(0) =~= monitors@);
    while i < monitors.len()
        invariant
            i <= monitors.len(),
            placement_in_range(monitors@.skip(i as int), cx as int, cy as int),
            monitor_at(monitors@, cx as int, cy as int) == monitor_at(monitors@.skip(i as int), cx as int, cy as int),
            x == cx + 16,
            y == cy + 16,
            cursor == Some((cx, cy)),
        decreases monitors.len() - i,
    {
        let m = monitors[i];
        assert(monitors@.skip(i as int)[0] == m);
        assert(monitors@.skip(i as int).drop_first() =~= monitors@.skip(i + 1));
        if cx >= m.x && cx < m.x + m.width && cy >= m.y && cy < m.y + m.height {
            assert(on_monitor(m, cx as int, cy as int));
            assert(monitor_at(monitors@.skip(i as int), cx as int, cy as int) == Some(m));
            let max_x = m.x + m.width - m.window_width;
            let max_y = m.y + m.height - m.window_height;
            let hi_x = if max_x >= m.x { max_x } else { m.x };
            let hi_y = if max_y >= m.y { max_y } else { m.y };
            x = if x < m.x { m.x } else if x > hi_x { hi_x } else { x };
            y = if y < m.y { m.y } else if y > hi_y { hi_y } else { y };
            return Some((x, y));
        }
        i = i + 1;
    }
    Some((x, y))
}

/// The floating window stays on the monitor under the cursor: where that
/// monitor is wide and tall enough for the window, the window's position lies
/// within the monitor so that the whole window shows.
pub proof fn law_floating_window_on_screen(c: (i32, i32), monitors: Seq<MonitorArea>, m: MonitorArea)
    requires
        monitor_at(monitors, c.0 as int, c.1 as int) == Some(m),
        m.window_width <= m.width,
        m.window_height <= m.height,
    ensures
        floating_position(Some(c), monitors) matches Some(p) && {
            &&& m.x <= p.0 && p.0 + m.window_width <= m.x + m.width
            &&& m.y <= p.1 && p.1 + m.window_height <= m.y + m.height
        },
{
}

/// What the global shortcut does once the main window has been told to reset
/// its detected language.
#[derive(Clone, Copy, Debug, PartialEq, Eq, Structural)]
pub enum CaptureAction {
    /// Nothing more (the main window has focus, or there is no main window).
    Nothing,
    /// Copy the foreground selection and show it in the floating window.
    Selection,
    /// Show the main window with the clipboard text.
    Clipboard,
}

/// The action for the global shortcut: with a main window that is not known
/// to have focus (the focus query failed or it has none), capture the
/// selection into the floating window when so configured, and the clipboard
/// into the main window otherwise.
pub fn shortcut_action(main_window: bool, focused: Option<bool>, floating_on_hotkey: bool) -> (r: CaptureAction)
    ensures
        r == (if !main_window || focused == Some(true) {
            CaptureAction::Nothing
        } else if floating_on_hotkey {
            CaptureAction::Selection
        } else {
            CaptureAction::Clipboard
        }),
{
    if !main_window {
        return CaptureAction::Nothing;
    }
    match focused {
        Some(true) => CaptureAction::Nothing,
        _ => if floating_on_hotkey { CaptureAction::Selection } else { CaptureAction::Clipboard },
    }
}

/// The text a capture hands on: the clipboard text, unless reading failed or
/// it holds nothing but white space.
pub fn captured_text(read: &Result<String, String>) -> (r: Option<String>)
    ensures
        match read {
            Ok(t) => if is_blank(t@) { r is None } else { r matches Some(s) && s@ == t@ },
            Err(_) => r is None,
        },
{
    match read {
        Ok(t) => if is_blank_str(t.as_str()) { None } else { Some(string_of(&chars_of(t.as_str()))) },
        Err(_) => None,
    }
}

/// The window events the application reacts to.
#[derive(Clone, Copy, Debug, PartialEq, Eq, Structural)]
pub enum WindowEventKind {
    CloseRequested,
    Resized,
    Other,
}

/// What to do with a window event.
#[derive(Clone, Copy, Debug, PartialEq, Eq, Structural)]
pub enum WindowAction {
    /// Let the event take its course.
    Proceed,
    /// Keep the window open and hide it to the tray.
    PreventCloseAndHide,
    /// Hide the window to the tray.
    Hide,
}

/// The reaction to a window event: with "minimize to tray" set, closing hides
/// the window instead, and minimizing hides it too.
pub fn window_event_action(event: WindowEventKind, minimized: Option<bool>, minimize_to_tray: bool) -> (r: WindowAction)
    ensures
        r == match event {
            WindowEventKind::CloseRequested => if minimize_to_tray {
                WindowAction::PreventCloseAndHide
            } else {
                WindowAction::Proceed
            },
            WindowEventKind::Resized => if minimized == Some(true) && minimize_to_tray {
                WindowAction::Hide
            } else {
                WindowAction::Proceed
            },
            WindowEventKind::Other => WindowAction::Proceed,
        },
{
    match event {
        WindowEventKind::CloseRequested => if minimize_to_tray {
            WindowAction::PreventCloseAndHide
        } else {
            WindowAction::Proceed
        },
        WindowEventKind::Resized => match minimized {
            Some(true) => if minimize_to_tray { WindowAction::Hide } else { WindowAction::Proceed },
            _ => WindowAction::Proceed,
        },
        WindowEventKind::Other => WindowAction::Proceed,
    }
}

} // verus!
