use shellwright::backend::Backend;
use shellwright::config::{Config, FloatRule, Keybinding};
use shellwright::error::Error;
use shellwright::event::{Event, KeybindingId};
use shellwright::hotkey::{BindingMap, Key, Modifiers};
use shellwright::window::{Rect, Window, WindowId};
use shellwright::windows::backend::{event_to_report, Reaction, WindowsBackend};
use shellwright::windows::hotkeys::{
    key_to_vk, mods_to_bits, HeldKeys, HotkeyEntry, HotkeyManager, WM_KBD_HOTKEY, WM_KEYDOWN,
    WM_SYSKEYDOWN,
};
use shellwright::windows::messages::{
    classify, event_of, number_of, on_notification, Message, NativeEvent, WM_HOTKEY, WM_QUIT,
    WM_SWE,
};
use shellwright::windows::native::{
    is_manageable, layered_style, opaque_style, order_monitors, rect_from_edges, rgb_to_colorref,
    should_float, visible_rect, Edges, NativeWindow, WS_CAPTION, WS_EX_TOOLWINDOW, WS_MAXIMIZEBOX,
    WS_THICKFRAME,
};
use shellwright::windows::overlay::{overlay_rect, ring, Ring};
use shellwright::windows::ready::{change_is_fit, overlay_is_ready, ring_is_ready};

fn edges(left: i32, top: i32, right: i32, bottom: i32) -> Edges {
    Edges { left, top, right, bottom }
}

fn native(hwnd: isize) -> NativeWindow {
    NativeWindow {
        hwnd,
        visible: true,
        owned: false,
        style: WS_CAPTION | WS_THICKFRAME | WS_MAXIMIZEBOX,
        ex_style: 0,
        title: "Editor".into(),
        cloaked: 0,
        class: "EditorClass".into(),
        exe: "editor.exe".into(),
        edges: Some(edges(10, 20, 110, 220)),
    }
}

fn bindings(list: &[(&[&str], &str, &str)]) -> BindingMap {
    let declared: Vec<Keybinding> = list
        .iter()
        .map(|(modifiers, key, action)| Keybinding {
            modifiers: modifiers.iter().map(|m| m.to_string()).collect(),
            key: key.to_string(),
            action: action.to_string(),
        })
        .collect();
    BindingMap::from_config(&declared).unwrap()
}

fn backend() -> WindowsBackend {
    WindowsBackend::new(&bindings(&[]), vec![]).unwrap()
}

fn vk(name: &str) -> Option<u16> {
    key_to_vk(&Key::new(name)).ok()
}

// ── Hotkeys ──────────────────────────────────────────────────────────────────

#[test]
fn key_names_have_virtual_key_codes() {
    assert_eq!(vk("a"), Some(0x41));
    assert_eq!(vk("Z"), Some(0x5A));
    assert_eq!(vk("0"), Some(0x30));
    assert_eq!(vk("9"), Some(0x39));
    assert_eq!(vk("f1"), Some(0x70));
    assert_eq!(vk("F12"), Some(0x7B));
    assert_eq!(vk("return"), Some(0x0D));
    assert_eq!(vk("enter"), Some(0x0D));
    assert_eq!(vk("esc"), vk("escape"));
    assert_eq!(vk("pagedown"), Some(0x22));
    assert_eq!(vk("apostrophe"), Some(0xDE));
    assert_eq!(vk("f13"), None);
    assert_eq!(vk("f0"), None);
    assert_eq!(vk("ä"), None);
}

#[test]
fn unsupported_keys_are_named() {
    match key_to_vk(&Key::new("PrintScreen")) {
        Err(Error::Config(m)) => assert_eq!(m, "unsupported key: printscreen"),
        _ => panic!("expected a configuration error"),
    }
}

#[test]
fn documented_keys_are_supported() {
    for name in [
        "return", "space", "tab", "escape", "backspace", "up", "down", "left", "right", "home",
        "end", "pageup", "pagedown",
    ] {
        assert!(vk(name).is_some());
    }
}

#[test]
fn modifier_numbers() {
    assert_eq!(mods_to_bits(Modifiers::empty()), 0);
    assert_eq!(mods_to_bits(Modifiers::ALT()), 1);
    assert_eq!(mods_to_bits(Modifiers::CTRL()), 2);
    assert_eq!(mods_to_bits(Modifiers::SHIFT()), 4);
    assert_eq!(mods_to_bits(Modifiers::SUPER()), 8);
    assert_eq!(mods_to_bits(Modifiers::ALT().union(Modifiers::SUPER())), 9);
}

#[test]
fn bindings_without_a_key_code_are_left_out() {
    let map = bindings(&[
        (&["alt"], "h", "focus_prev"),
        (&["alt"], "volumeup", "quit"),
        (&["alt", "shift"], "q", "kill_focused"),
    ]);
    let manager = HotkeyManager::register(&map).unwrap();
    assert_eq!(
        manager.entries,
        vec![
            HotkeyEntry { id: KeybindingId(0), vk: 0x48, mods: 1 },
            HotkeyEntry { id: KeybindingId(2), vk: 0x51, mods: 5 },
        ]
    );
}

#[test]
fn default_bindings_can_all_be_fired() {
    let config = Config::default();
    let map = BindingMap::from_config(&config.keybindings).unwrap();
    let manager = HotkeyManager::register(&map).unwrap();
    assert_eq!(manager.entries.len(), config.keybindings.len());
    for entry in &manager.entries {
        let held = HeldKeys {
            alt: entry.mods & 1 != 0,
            ctrl: entry.mods & 2 != 0,
            shift: entry.mods & 4 != 0,
            left_win: entry.mods & 8 != 0,
            right_win: false,
        };
        assert_eq!(manager.on_key(0, WM_SYSKEYDOWN, entry.vk, held), Some(entry.id));
    }
}

#[test]
fn key_presses_need_exactly_the_declared_modifiers() {
    let map = bindings(&[(&["super"], "q", "quit"), (&["super"], "Q", "focus_next")]);
    let manager = HotkeyManager::register(&map).unwrap();
    let none = HeldKeys { alt: false, ctrl: false, shift: false, left_win: false, right_win: false };
    let win = HeldKeys { right_win: true, ..none };
    let more = HeldKeys { shift: true, ..win };
    // The first of two declarations for the same press.
    assert_eq!(manager.on_key(0, WM_KEYDOWN, 0x51, win), Some(KeybindingId(0)));
    assert_eq!(manager.on_key(0, WM_KEYDOWN, 0x51, none), None);
    assert_eq!(manager.on_key(0, WM_KEYDOWN, 0x51, more), None);
    assert_eq!(manager.on_key(0, WM_KEYDOWN, 0x52, win), None);
    // Key releases and messages to be passed on.
    assert_eq!(manager.on_key(0, 0x0101, 0x51, win), None);
    assert_eq!(manager.on_key(-1, WM_KEYDOWN, 0x51, win), None);
}

#[test]
fn reports_resolve_to_bindings() {
    assert_eq!(HotkeyManager::resolve(7), KeybindingId(7));
    assert_eq!(HotkeyManager::resolve(u32::MAX as usize), KeybindingId(u32::MAX));
    if usize::BITS == 64 {
        assert_eq!(HotkeyManager::resolve((1usize << 32) + 5), KeybindingId(5));
    }
}

// ── Messages ─────────────────────────────────────────────────────────────────

#[test]
fn messages_are_told_apart() {
    assert_eq!(WM_KBD_HOTKEY, 0x0402);
    assert_eq!(classify(WM_HOTKEY, 3, 0), Message::Hotkey(3));
    assert_eq!(classify(WM_KBD_HOTKEY, 4, 0), Message::Hotkey(4));
    assert_eq!(classify(WM_QUIT, 0, 0), Message::Quit);
    assert_eq!(classify(WM_SWE, 2, 99), Message::WindowEvent { number: 2, hwnd: 99 });
    assert_eq!(classify(0x000F, 0, 0), Message::Other);
}

#[test]
fn events_are_carried_by_number() {
    for event in [
        NativeEvent::Shown,
        NativeEvent::Destroyed,
        NativeEvent::Focused,
        NativeEvent::MoveSizeEnd,
        NativeEvent::MinimizeChange,
        NativeEvent::LocationChange,
        NativeEvent::AppHidden,
        NativeEvent::SettingsChanged,
    ] {
        assert_eq!(event_of(number_of(event)), Some(event));
    }
    assert_eq!(event_of(0), None);
    assert_eq!(event_of(9), None);
}

#[test]
fn notifications_about_whole_windows_count() {
    assert_eq!(on_notification(0x8002, 1, 0, 0), Some(NativeEvent::Shown));
    assert_eq!(on_notification(0x8001, 1, 0, 0), Some(NativeEvent::Destroyed));
    assert_eq!(on_notification(0x8003, 1, 0, 0), Some(NativeEvent::AppHidden));
    assert_eq!(on_notification(0x0003, 1, 0, 0), Some(NativeEvent::Focused));
    assert_eq!(on_notification(0x8005, 1, 0, 0), Some(NativeEvent::Focused));
    assert_eq!(on_notification(0x000B, 1, 0, 0), Some(NativeEvent::MoveSizeEnd));
    assert_eq!(on_notification(0x0016, 1, 0, 0), Some(NativeEvent::MinimizeChange));
    assert_eq!(on_notification(0x0017, 1, 0, 0), Some(NativeEvent::MinimizeChange));
    assert_eq!(on_notification(0x800B, 1, 0, 0), Some(NativeEvent::LocationChange));
    assert_eq!(on_notification(0x800C, 1, 0, 0), None);
    assert_eq!(on_notification(0x8002, 1, -4, 0), None);
    assert_eq!(on_notification(0x8002, 1, 0, 1), None);
    assert_eq!(on_notification(0x8002, 0, 0, 0), None);
}

// ── Facts about native windows ───────────────────────────────────────────────

#[test]
fn application_windows_are_managed() {
    assert!(is_manageable(&native(1)));
    assert!(!is_manageable(&NativeWindow { visible: false, ..native(1) }));
    assert!(!is_manageable(&NativeWindow { owned: true, ..native(1) }));
    assert!(!is_manageable(&NativeWindow { ex_style: WS_EX_TOOLWINDOW, ..native(1) }));
    assert!(!is_manageable(&NativeWindow { style: 0, ..native(1) }));
    assert!(!is_manageable(&NativeWindow { title: "".into(), ..native(1) }));
    assert!(!is_manageable(&NativeWindow { cloaked: 2, ..native(1) }));
    for class in [
        "Shell_TrayWnd",
        "Shell_SecondaryTrayWnd",
        "Progman",
        "WorkerW",
        "DV2ControlHost",
        "Windows.UI.Core.CoreWindow",
        "shellwright_border",
    ] {
        assert!(!is_manageable(&NativeWindow { class: class.into(), ..native(1) }));
    }
}

#[test]
fn dialogs_and_fixed_size_windows_float() {
    assert!(!should_float(&native(1), &vec![]));
    assert!(should_float(&NativeWindow { class: "#32770".into(), ..native(1) }, &vec![]));
    assert!(should_float(&NativeWindow { style: WS_CAPTION, ..native(1) }, &vec![]));
    let resizable = NativeWindow { style: WS_CAPTION | WS_THICKFRAME, ..native(1) };
    assert!(!should_float(&resizable, &vec![]));
}

#[test]
fn user_rules_make_windows_float() {
    let rule = |exe: &str, title: Option<&str>| FloatRule {
        class: None,
        title_contains: title.map(|t| t.into()),
        exe: Some(exe.into()),
    };
    assert!(should_float(&native(1), &vec![rule("other.exe", None), rule("EDITOR.exe", None)]));
    assert!(should_float(&native(1), &vec![rule("editor.exe", Some("EDIT"))]));
    assert!(!should_float(&native(1), &vec![rule("editor.exe", Some("Properties"))]));
}

#[test]
fn edges_become_rectangles() {
    assert_eq!(rect_from_edges(edges(-5, 5, 10, 25)), Rect::new(-5, 5, 15, 20));
    let fallback = Rect::new(1, 1, 1, 1);
    assert_eq!(visible_rect(Some(edges(0, 0, 7, 9)), fallback), Rect::new(0, 0, 7, 9));
    assert_eq!(visible_rect(Some(edges(0, 0, 0, 9)), fallback), fallback);
    assert_eq!(visible_rect(None, fallback), fallback);
}

#[test]
fn monitors_are_ordered_left_to_right() {
    let a = Rect::new(1920, 0, 1, 1);
    let b = Rect::new(-1280, 0, 2, 2);
    let c = Rect::new(1920, 0, 3, 3);
    let d = Rect::new(0, 0, 4, 4);
    assert_eq!(order_monitors(&vec![a, b, c, d], d), vec![b, d, a, c]);
    assert_eq!(order_monitors(&vec![], d), vec![d]);
}

#[test]
fn colours_swap_red_and_blue() {
    assert_eq!(rgb_to_colorref(0x5E81AC), 0xAC815E);
    assert_eq!(rgb_to_colorref(rgb_to_colorref(0x123456)), 0x123456);
    assert_eq!(rgb_to_colorref(0xFF00_0000), 0);
    assert_eq!(rgb_to_colorref(rgb_to_colorref(0xAB12_3456)), 0x12_3456);
}

#[test]
fn transparency_is_a_style_bit() {
    assert_eq!(layered_style(0x100), Some(0x0008_0100));
    assert_eq!(layered_style(0x0008_0100), None);
    assert_eq!(opaque_style(0x0008_0100), Some(0x100));
    assert_eq!(opaque_style(0x100), None);
}

// ── Overlays ─────────────────────────────────────────────────────────────────

#[test]
fn ring_is_hollow() {
    assert_eq!(
        ring(Rect::new(7, 7, 100, 80), 5, 8),
        Ring {
            width: 100,
            height: 80,
            outer_ellipse: 16,
            inner: edges(5, 5, 95, 75),
            inner_ellipse: 6,
        }
    );
    // No room for a hole: it keeps one pixel.
    assert_eq!(
        ring(Rect::new(0, 0, 4, 4), 5, 0),
        Ring { width: 4, height: 4, outer_ellipse: 0, inner: edges(5, 5, 6, 6), inner_ellipse: 0 }
    );
}

#[test]
fn overlay_surrounds_the_visible_part() {
    let geometry = Rect::new(0, 0, 116, 108);
    assert_eq!(
        overlay_rect(Some(edges(8, 0, 108, 100)), geometry, 5),
        Rect::new(3, -5, 110, 110)
    );
    assert_eq!(overlay_rect(None, geometry, 5), Rect::new(-5, -5, 126, 118));
}

// ── Tracking ─────────────────────────────────────────────────────────────────

#[test]
fn shown_windows_are_taken_in_once() {
    let mut b = backend();
    let reaction = b.on_window_event(NativeEvent::Shown, 50, Some(native(50)), None);
    assert_eq!(reaction, Reaction::Adopt { id: WindowId(1), hwnd: 50, floating: false });
    assert_eq!(event_to_report(reaction), Some(Event::WindowCreated(WindowId(1))));
    assert_eq!(b.windows[0].geometry, Rect::new(10, 20, 100, 200));
    assert_eq!(b.windows[0].title, "Editor");
    let again = b.on_window_event(NativeEvent::Shown, 50, Some(native(50)), None);
    assert_eq!(again, Reaction::Wait);
    assert_eq!(b.windows.len(), 1);
}

#[test]
fn hidden_windows_are_hidden_again() {
    let mut b = backend();
    b.adopt(Some(native(50)));
    b.windows[0].park().unwrap();
    let reaction = b.on_window_event(NativeEvent::Shown, 50, None, None);
    assert_eq!(reaction, Reaction::Rehide { hwnd: 50 });
    assert_eq!(event_to_report(reaction), None);
}

#[test]
fn numbers_are_used_once() {
    let mut b = backend();
    b.adopt(Some(native(50)));
    // No place can be read: the number is used up all the same.
    let unplaced = NativeWindow { edges: None, ..native(51) };
    assert_eq!(b.adopt(Some(unplaced)), Reaction::Wait);
    let destroyed = b.on_window_event(NativeEvent::Destroyed, 50, None, None);
    assert_eq!(destroyed, Reaction::Forget { id: WindowId(1), overlay: 0 });
    assert_eq!(event_to_report(destroyed), Some(Event::WindowDestroyed(WindowId(1))));
    assert!(b.windows.is_empty());
    let next = b.on_window_event(NativeEvent::Focused, 50, Some(native(50)), None);
    assert_eq!(next, Reaction::Adopt { id: WindowId(3), hwnd: 50, floating: false });
    assert_eq!(b.next_id, 4);
    // A stranger that is not to be managed uses none.
    let tool = NativeWindow { ex_style: WS_EX_TOOLWINDOW, ..native(60) };
    assert_eq!(b.on_window_event(NativeEvent::Shown, 60, Some(tool), None), Reaction::Wait);
    assert_eq!(b.next_id, 4);
}

#[test]
fn startup_windows_are_numbered_in_order() {
    let mut b = backend();
    let hidden = NativeWindow { visible: false, ..native(2) };
    let dialog = NativeWindow { class: "#32770".into(), ..native(3) };
    b.enumerate_windows(vec![native(1), hidden, dialog]);
    assert_eq!(b.windows.len(), 2);
    assert_eq!(b.windows[0].id, WindowId(1));
    assert_eq!(b.windows[1].id, WindowId(2));
    assert!(b.windows[1].is_floating());
    assert!(b.windows[1].is_topmost);
}

#[test]
fn tracked_windows_report_their_events() {
    let mut b = backend();
    b.adopt(Some(native(50)));
    let id = WindowId(1);
    assert_eq!(
        b.on_window_event(NativeEvent::Focused, 50, None, None),
        Reaction::Emit(Event::WindowFocused(id))
    );
    assert_eq!(
        b.on_window_event(NativeEvent::MinimizeChange, 50, None, None),
        Reaction::Emit(Event::WindowMinimizeChanged { id })
    );
    assert_eq!(
        b.on_window_event(NativeEvent::SettingsChanged, 0, None, None),
        Reaction::Emit(Event::WorkAreaChanged)
    );
    assert_eq!(b.on_window_event(NativeEvent::MinimizeChange, 51, None, None), Reaction::Wait);
}

#[test]
fn drags_of_windows_and_borders_are_moves() {
    let mut b = backend();
    b.adopt(Some(native(50)));
    let id = WindowId(1);
    let moved = b.on_window_event(NativeEvent::MoveSizeEnd, 50, None, Some(edges(0, 0, 100, 200)));
    assert_eq!(moved, Reaction::Emit(Event::WindowMoved { id }));
    assert_eq!(b.windows[0].geometry, Rect::new(0, 0, 100, 200));
    let sized = b.on_window_event(NativeEvent::MoveSizeEnd, 50, None, Some(edges(0, 0, 100, 201)));
    assert_eq!(sized, Reaction::Emit(Event::WindowMoved { id }));
    assert_eq!(b.windows[0].geometry, Rect::new(0, 0, 100, 201));
    let unread = b.on_window_event(NativeEvent::MoveSizeEnd, 50, None, None);
    assert_eq!(unread, Reaction::Emit(Event::WindowMoved { id }));
}

#[test]
fn outside_size_changes_count_beyond_the_resize_borders() {
    let mut b = backend();
    b.adopt(Some(native(50)));
    let id = WindowId(1);
    let at = |w: i32, h: i32| Some(edges(10, 20, 10 + w, 20 + h));
    assert_eq!(
        b.on_window_event(NativeEvent::LocationChange, 50, None, at(116, 184)),
        Reaction::Wait
    );
    assert_eq!(b.windows[0].geometry, Rect::new(10, 20, 100, 200));
    assert_eq!(
        b.on_window_event(NativeEvent::LocationChange, 50, None, at(117, 200)),
        Reaction::Emit(Event::WindowSizeChanged { id })
    );
    assert_eq!(b.windows[0].geometry, Rect::new(10, 20, 117, 200));
    b.windows[0].hide_window().unwrap();
    assert_eq!(
        b.on_window_event(NativeEvent::LocationChange, 50, None, at(500, 500)),
        Reaction::Wait
    );
}

#[test]
fn borders_follow_floating_windows() {
    let mut b = backend();
    b.adopt(Some(NativeWindow { class: "#32770".into(), ..native(50) }));
    let there = Some(edges(11, 20, 111, 220));
    assert_eq!(b.on_window_event(NativeEvent::LocationChange, 50, None, there), Reaction::Wait);
    assert_eq!(b.windows[0].geometry, Rect::new(11, 20, 100, 200));
    b.windows[0].overlay_hwnd = 900;
    let further = Some(edges(12, 20, 112, 220));
    assert_eq!(
        b.on_window_event(NativeEvent::LocationChange, 50, None, further),
        Reaction::MoveOverlay { id: WindowId(1) }
    );
    // Nothing moved.
    assert_eq!(b.on_window_event(NativeEvent::LocationChange, 50, None, further), Reaction::Wait);
}

#[test]
fn overlays_of_hidden_windows_are_hidden() {
    let mut b = backend();
    b.adopt(Some(native(50)));
    assert_eq!(b.on_window_event(NativeEvent::AppHidden, 50, None, None), Reaction::Wait);
    b.windows[0].overlay_hwnd = 900;
    assert_eq!(
        b.on_window_event(NativeEvent::AppHidden, 50, None, None),
        Reaction::HideOverlay { overlay: 900 }
    );
    b.windows[0].hide_window().unwrap();
    assert_eq!(b.on_window_event(NativeEvent::AppHidden, 50, None, None), Reaction::Wait);
}

#[test]
fn queue_messages_are_answered() {
    let mut b = backend();
    match b.on_message(-1, Message::Other, None, None) {
        Err(Error::Backend(m)) => assert_eq!(m, "GetMessageW failed"),
        _ => panic!("expected a backend error"),
    }
    let answer = |b: &mut WindowsBackend, status, message| {
        b.on_message(status, message, Some(native(50)), None).unwrap()
    };
    assert_eq!(answer(&mut b, 0, Message::Other), Reaction::Emit(Event::Quit));
    assert_eq!(answer(&mut b, 1, Message::Quit), Reaction::Emit(Event::Quit));
    assert_eq!(answer(&mut b, 1, Message::Other), Reaction::Dispatch);
    assert_eq!(
        answer(&mut b, 1, Message::Hotkey(6)),
        Reaction::Emit(Event::Keybinding(KeybindingId(6)))
    );
    assert_eq!(
        answer(&mut b, 1, Message::WindowEvent { number: 1, hwnd: 50 }),
        Reaction::Adopt { id: WindowId(1), hwnd: 50, floating: false }
    );
    assert_eq!(
        answer(&mut b, 1, Message::WindowEvent { number: 77, hwnd: 50 }),
        Reaction::Wait
    );
}

#[test]
fn window_records_follow_commands() {
    let mut b = backend();
    b.adopt(Some(native(50)));
    let id = WindowId(1);
    let window = b.window_mut(id).unwrap();
    window.set_floating(true);
    assert!(window.is_topmost);
    window.set_topmost(false).unwrap();
    assert!(window.is_floating() && !window.is_topmost);
    window.enter_fullscreen_geometry(Rect::new(0, 0, 9, 9)).unwrap();
    assert!(window.is_topmost);
    assert_eq!(window.geometry(), Rect::new(0, 0, 9, 9));
    window.hide_window().unwrap();
    assert!(window.wm_hidden);
    window.show().unwrap();
    assert!(!window.wm_hidden);
    window.set_border_overlay(0xFF, 4, 8).unwrap();
    assert_eq!((window.border_width, window.border_radius), (4, 8));
    assert!(b.window_mut(WindowId(2)).is_none());
}

#[test]
fn there_are_no_events_away_from_the_desktop() {
    let mut b = backend();
    match b.next_event() {
        Err(Error::Backend(m)) => assert_eq!(m, "Win32 backend unavailable on this platform"),
        _ => panic!("expected a backend error"),
    }
    assert!(b.flush().is_ok());
    assert_eq!(b.monitor_rects(), vec![Rect::new(0, 0, 1920, 1080)]);
    assert_eq!(b.monitor_full_rect_for_window(WindowId(1)), Rect::new(0, 0, 1920, 1080));
    assert!(b.system_animations_enabled());
}

#[test]
fn messages_are_ready_while_their_geometry_is_in_range() {
    let mut b = backend();
    b.adopt(Some(native(50)));
    let far = Some(edges(i32::MIN, 0, i32::MAX, 10));
    let event = |e: NativeEvent, hwnd: isize| Message::WindowEvent { number: number_of(e), hwnd };
    assert!(b.message_is_ready(Message::Quit, &None, far));
    assert!(!b.message_is_ready(event(NativeEvent::MoveSizeEnd, 50), &None, far));
    assert!(b.message_is_ready(event(NativeEvent::MoveSizeEnd, 51), &None, far));
    assert!(!b.message_is_ready(event(NativeEvent::LocationChange, 50), &None, far));
    assert!(b.message_is_ready(event(NativeEvent::LocationChange, 50), &None, None));
    let mut huge = native(52);
    huge.edges = far;
    assert!(!b.enumeration_is_ready(&vec![native(51), huge]));
    assert!(b.enumeration_is_ready(&vec![native(51)]));
    let mut huge = native(52);
    huge.edges = far;
    let seen = Some(huge);
    assert!(!b.message_is_ready(event(NativeEvent::Shown, 52), &seen, None));
    assert!(b.message_is_ready(event(NativeEvent::Shown, 50), &seen, None));
    b.next_id = u64::MAX;
    assert!(!b.message_is_ready(event(NativeEvent::Focused, 51), &Some(native(51)), None));
    assert!(!b.enumeration_is_ready(&vec![native(51)]));
}

#[test]
fn changes_of_place_are_measured_in_32_bits() {
    let old = Rect::new(0, 0, 100, 100);
    assert!(change_is_fit(edges(5, 5, 105, 105), old));
    assert!(change_is_fit(edges(105, 105, 5, 5), old));
    assert!(!change_is_fit(edges(i32::MIN, 0, i32::MAX, 10), old));
    assert!(!change_is_fit(edges(i32::MIN, 0, -10, 10), Rect::new(i32::MAX, 0, 1, 1)));
}

#[test]
fn borders_are_ready_in_range() {
    let window = Rect::new(10, 10, 100, 100);
    assert!(overlay_is_ready(None, window, 5));
    assert!(!overlay_is_ready(None, window, 0x4000_0000));
    assert!(!overlay_is_ready(Some(edges(i32::MIN, 0, i32::MAX, 10)), window, 5));
    assert!(ring_is_ready(window, 5, 8));
    assert!(!ring_is_ready(window, 5, 0x4000_0000));
    assert!(!ring_is_ready(window, 0x7fff_ffff, 0));
}

#[test]
fn numbers_of_destroyed_windows_are_not_given_again() {
    let mut b = backend();
    b.enumerate_windows(vec![native(50), native(51)]);
    let number = |e: NativeEvent| number_of(e);
    let gone = Message::WindowEvent { number: number(NativeEvent::Destroyed), hwnd: 51 };
    let shown = Message::WindowEvent { number: number(NativeEvent::Shown), hwnd: 51 };
    let reaction = b.on_message(1, gone, None, None).unwrap();
    assert_eq!(event_to_report(reaction), Some(Event::WindowDestroyed(WindowId(2))));
    let reaction = b.on_message(1, shown, Some(native(51)), None).unwrap();
    assert_eq!(event_to_report(reaction), Some(Event::WindowCreated(WindowId(3))));
    assert_eq!(b.windows.iter().map(|w| (w.id.0, w.hwnd)).collect::<Vec<_>>(), [(1, 50), (3, 51)]);
}
