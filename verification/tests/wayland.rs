use shellwright::backend::Backend;
use shellwright::config::Keybinding;
use shellwright::event::{Event, KeybindingId};
use shellwright::hotkey::{BindingMap, Key, Modifiers};
use shellwright::macos::hotkeys::cgkeycode_to_key;
use shellwright::wayland::compositor::{WaylandCompositor, WaylandWindow};
use shellwright::wayland::input::{check_binding, keysym_to_key_name, xkb_mods_to_modifiers};
use shellwright::window::{Rect, Window, WindowId};
use shellwright::windows::hotkeys::key_to_vk;

fn map_with(modifiers: &[&str], key: &str, action: &str) -> BindingMap {
    BindingMap::from_config(&[Keybinding {
        modifiers: modifiers.iter().map(|s| s.to_string()).collect(),
        key: key.into(),
        action: action.into(),
    }])
    .unwrap()
}

#[test]
fn matched_combo_returns_keybinding_event() {
    let map = map_with(&["super"], "q", "kill_focused");
    let event = check_binding(&map, Modifiers::SUPER(), "q");
    assert!(matches!(event, Some(Event::Keybinding(KeybindingId(0)))));
}

#[test]
fn unmatched_combo_returns_none() {
    let map = map_with(&["super"], "q", "kill_focused");
    // Wrong modifier — should not match.
    let event = check_binding(&map, Modifiers::CTRL(), "q");
    assert!(event.is_none());
}

#[test]
fn keysym_letter_roundtrip() {
    assert_eq!(keysym_to_key_name(0x61), "a");
    assert_eq!(keysym_to_key_name(0x7A), "z");
}

#[test]
fn keysym_return() {
    assert_eq!(keysym_to_key_name(0xFF0D), "return");
}

#[test]
fn keysym_table() {
    let letters: String = (0x61..0x7B).map(keysym_to_key_name).collect();
    assert_eq!(letters, "abcdefghijklmnopqrstuvwxyz");
    let digits: String = (0x30..0x3A).map(keysym_to_key_name).collect();
    assert_eq!(digits, "0123456789");
    assert_eq!(keysym_to_key_name(0xFFBE), "f1");
    assert_eq!(keysym_to_key_name(0xFFC9), "f12");
    assert_eq!(keysym_to_key_name(0x20), "space");
    assert_eq!(keysym_to_key_name(0x27), "apostrophe");
    assert_eq!(keysym_to_key_name(0x41), "unknown");
    assert_eq!(keysym_to_key_name(0xFFCA), "unknown");
}

#[test]
fn xkb_mask_is_read_by_index() {
    let m = xkb_mods_to_modifiers(0b1000_0100, 2, 3, 7, 31);
    assert!(m.alt && !m.ctrl && m.shift && !m.super_key);
    let m = xkb_mods_to_modifiers(1 << 31, 0, 1, 2, 31);
    assert_eq!(m, Modifiers::SUPER());
}

#[test]
fn compositor_keeps_its_windows() {
    let mut c = WaylandCompositor::new(map_with(&["alt"], "a", "quit")).unwrap();
    assert!(c.windows().is_empty());
    for n in 1..4u64 {
        c.windows.push(WaylandWindow {
            id: WindowId(n),
            title: format!("w{}", n),
            geometry: Rect::new(0, 0, 1, 1),
            floating: false,
        });
    }
    let w = c.window_mut(WindowId(2)).unwrap();
    w.set_geometry(Rect::new(1, 2, 3, 4)).unwrap();
    w.set_floating(true);
    assert!(!w.is_minimized());
    assert!(c.window_mut(WindowId(9)).is_none());
    let listed: Vec<(u64, Rect, bool)> = c
        .windows()
        .iter()
        .map(|w| (w.id().0, w.geometry(), w.is_floating()))
        .collect();
    assert_eq!(
        listed,
        [
            (1, Rect::new(0, 0, 1, 1), false),
            (2, Rect::new(1, 2, 3, 4), true),
            (3, Rect::new(0, 0, 1, 1), false),
        ]
    );
    assert_eq!(c.monitor_rects(), [Rect::new(0, 0, 1920, 1080)]);
    assert_eq!(
        c.next_event().unwrap_err().to_string(),
        "backend error: Wayland event loop not yet implemented"
    );
}

#[test]
fn key_names_are_given_once_and_are_those_of_macos() {
    let mut wayland: Vec<&str> =
        (0..=0xFFFFu32).map(keysym_to_key_name).filter(|n| *n != "unknown").collect();
    wayland.sort();
    let mut macos: Vec<String> =
        (0..=0xFFi64).map(|c| cgkeycode_to_key(c).0).filter(|n| n != "unknown").collect();
    macos.sort();
    assert_eq!(wayland, macos);
    wayland.dedup();
    assert_eq!(wayland.len(), macos.len());
    assert_eq!(keysym_to_key_name(0x41), "unknown");
    for name in macos {
        assert_eq!(Key::new(&name).0, name);
        assert!(key_to_vk(&Key::new(&name)).is_ok());
    }
}
