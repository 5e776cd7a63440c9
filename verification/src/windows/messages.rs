//! Messages and native events, by their numbers.

use crate::windows::hotkeys::WM_KBD_HOTKEY;
use vstd::prelude::*;

verus! {

/// Thread message that carries a native window event: the first of the messages
/// that applications may define.
pub const WM_SWE: u32 = 0x0401;

/// System message of a registered hotkey.
pub const WM_HOTKEY: u32 = 0x0312;

/// System message that ends the message loop.
pub const WM_QUIT: u32 = 0x0012;

/// Number of the work-area event among those carried by [`WM_SWE`].
pub const SWE_SETTINGS_CHANGED: usize = 8;

/// What happened to a native window.
#[derive(Debug, Clone, Copy, PartialEq, Eq, Structural)]
pub enum NativeEvent {
    /// It was shown.
    Shown,
    Destroyed,
    Focused,
    /// The user finished dragging it or its border.
    MoveSizeEnd,
    /// It was minimised or restored.
    MinimizeChange,
    /// Its place or size changed.
    LocationChange,
    /// Its own application hid it.
    AppHidden,
    /// No window in particular: the usable area of some monitor changed.
    SettingsChanged,
}

/// The number by which an event is carried.
pub open spec fn event_number(e: NativeEvent) -> usize {
    match e {
        NativeEvent::Shown => 1,
        NativeEvent::Destroyed => 2,
        NativeEvent::Focused => 3,
        NativeEvent::MoveSizeEnd => 4,
        NativeEvent::MinimizeChange => 5,
        NativeEvent::LocationChange => 6,
        NativeEvent::AppHidden => 7,
        NativeEvent::SettingsChanged => SWE_SETTINGS_CHANGED,
    }
}

/// The number by which an event is carried.
pub fn number_of(e: NativeEvent) -> (r: usize)
    ensures
        r == event_number(e),
{
    match e {
        NativeEvent::Shown => 1,
        NativeEvent::Destroyed => 2,
        NativeEvent::Focused => 3,
        NativeEvent::MoveSizeEnd => 4,
        NativeEvent::MinimizeChange => 5,
        NativeEvent::LocationChange => 6,
        NativeEvent::AppHidden => 7,
        NativeEvent::SettingsChanged => SWE_SETTINGS_CHANGED,
    }
}

/// The event carried by a number.
pub open spec fn carried_event(n: usize) -> Option<NativeEvent> {
    if n == 1 {
        Some(NativeEvent::Shown)
    } else if n == 2 {
        Some(NativeEvent::Destroyed)
    } else if n == 3 {
        Some(NativeEvent::Focused)
    } else if n == 4 {
        Some(NativeEvent::MoveSizeEnd)
    } else if n == 5 {
        Some(NativeEvent::MinimizeChange)
    } else if n == 6 {
        Some(NativeEvent::LocationChange)
    } else if n == 7 {
        Some(NativeEvent::AppHidden)
    } else if n == SWE_SETTINGS_CHANGED {
        Some(NativeEvent::SettingsChanged)
    } else {
        None
    }
}

/// The event carried by a number.
pub fn event_of(n: usize) -> (r: Option<NativeEvent>)
    ensures
        r == carried_event(n),
{
    match n {
        1 => Some(NativeEvent::Shown),
        2 => Some(NativeEvent::Destroyed),
        3 => Some(NativeEvent::Focused),
        4 => Some(NativeEvent::MoveSizeEnd),
        5 => Some(NativeEvent::MinimizeChange),
        6 => Some(NativeEvent::LocationChange),
        7 => Some(NativeEvent::AppHidden),
        8 => Some(NativeEvent::SettingsChanged),
        _ => None,
    }
}

/// An event arrives as what it was sent as.
pub proof fn events_arrive_as_sent(e: NativeEvent)
    ensures
        carried_event(event_number(e)) == Some(e),
{
}

/// The event that a hook notification stands for: only notifications about a
/// whole window count.
pub open spec fn notified_event(
    event: u32,
    hwnd: isize,
    id_object: i32,
    id_child: i32,
) -> Option<NativeEvent> {
    if id_object != 0 || id_child != 0 || hwnd == 0 {
        None
    } else if event == 0x8002 {
        Some(NativeEvent::Shown)
    } else if event == 0x8001 {
        Some(NativeEvent::Destroyed)
    } else if event == 0x8003 {
        Some(NativeEvent::AppHidden)
    } else if event == 0x0003 || event == 0x8005 {
        Some(NativeEvent::Focused)
    } else if event == 0x000B {
        Some(NativeEvent::MoveSizeEnd)
    } else if event == 0x0016 || event == 0x0017 {
        Some(NativeEvent::MinimizeChange)
    } else if event == 0x800B {
        Some(NativeEvent::LocationChange)
    } else {
        None
    }
}

/// The event that a hook notification stands for.
///
/// The system reports a window coming to the foreground and a window getting
/// the input focus separately; a click on the foreground window gives only the
/// second, so both count.
pub fn on_notification(event: u32, hwnd: isize, id_object: i32, id_child: i32) -> (r: Option<
    NativeEvent,
>)
    ensures
        r == notified_event(event, hwnd, id_object, id_child),
{
    if id_object != 0 || id_child != 0 || hwnd == 0 {
        return None;
    }
    match event {
        0x8002 => Some(NativeEvent::Shown),
        0x8001 => Some(NativeEvent::Destroyed),
        0x8003 => Some(NativeEvent::AppHidden),
        0x0003 => Some(NativeEvent::Focused),
        0x8005 => Some(NativeEvent::Focused),
        0x000B => Some(NativeEvent::MoveSizeEnd),
        0x0016 => Some(NativeEvent::MinimizeChange),
        0x0017 => Some(NativeEvent::MinimizeChange),
        0x800B => Some(NativeEvent::LocationChange),
        _ => None,
    }
}

/// A message of the thread's queue.
#[derive(Debug, Clone, Copy, PartialEq, Eq, Structural)]
pub enum Message {
    /// A keybinding fired; the number names it.
    Hotkey(usize),
    Quit,
    /// A native window event, by its number, and the window's handle.
    WindowEvent { number: usize, hwnd: isize },
    /// A message for some window of this program.
    Other,
}

/// What a message says.
pub open spec fn message_of(message: u32, wparam: usize, lparam: isize) -> Message {
    if message == WM_HOTKEY || message == WM_KBD_HOTKEY {
        Message::Hotkey(wparam)
    } else if message == WM_QUIT {
        Message::Quit
    } else if message == WM_SWE {
        Message::WindowEvent { number: wparam, hwnd: lparam }
    } else {
        Message::Other
    }
}

/// What a message says.
pub fn classify(message: u32, wparam: usize, lparam: isize) -> (r: Message)
    ensures
        r == message_of(message, wparam, lparam),
{
    if message == WM_HOTKEY || message == WM_KBD_HOTKEY {
        Message::Hotkey(wparam)
    } else if message == WM_QUIT {
        Message::Quit
    } else if message == WM_SWE {
        Message::WindowEvent { number: wparam, hwnd: lparam }
    } else {
        Message::Other
    }
}

} // verus!
