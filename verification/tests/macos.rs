use shellwright::backend::Backend;
use shellwright::config::Keybinding;
use shellwright::error::Error;
use shellwright::event::{Event, KeybindingId};
use shellwright::hotkey::{BindingMap, Modifiers};
use shellwright::macos::backend::{hotkey_event, MacosBackend, MacosWindow};
use shellwright::macos::hotkeys::{
    cg_flags_to_modifiers, cgkeycode_to_key, tapped_binding, HotkeyManager,
};
use shellwright::window::{Rect, Window, WindowId};

fn map() -> BindingMap {
    BindingMap::from_config(&[
        Keybinding {
            modifiers: vec!["super".into()],
            key: "q".into(),
            action: "kill_focused".into(),
        },
        Keybinding {
            modifiers: vec!["alt".into(), "shift".into()],
            key: "F5".into(),
            action: "quit".into(),
        },
    ])
    .unwrap()
}

#[test]
fn closed_hotkey_channel_is_a_backend_error() {
    let mut backend = MacosBackend::new(&map()).unwrap();
    match backend.next_event() {
        Err(Error::Backend(m)) => assert_eq!(m, "hotkey channel closed unexpectedly"),
        _ => panic!("expected a backend error"),
    }
}

#[test]
fn registering_succeeds_and_stays_silent() {
    for bindings in [BindingMap::from_config(&[]).unwrap(), map()] {
        let manager = HotkeyManager::register(&bindings).unwrap();
        assert!(manager.receiver.recv().is_err());
        let mut backend = MacosBackend::new(&bindings).unwrap();
        assert!(backend.next_event().is_err());
        assert!(backend.next_event().is_err());
    }
}

#[test]
fn hotkeys_arrive_in_order_until_the_channel_closes() {
    let (sender, receiver) = std::sync::mpsc::channel();
    sender.send(KeybindingId(1)).unwrap();
    sender.send(KeybindingId(0)).unwrap();
    drop(sender);
    let mut backend = MacosBackend { windows: Vec::new(), hotkeys: HotkeyManager { receiver } };
    assert!(matches!(backend.next_event(), Ok(Event::Keybinding(KeybindingId(1)))));
    assert!(matches!(backend.next_event(), Ok(Event::Keybinding(KeybindingId(0)))));
    assert!(matches!(
        backend.next_event(),
        Err(Error::Backend(m)) if m == "hotkey channel closed unexpectedly"
    ));
}

#[test]
fn received_hotkeys_become_events() {
    assert!(matches!(
        hotkey_event(Some(KeybindingId(3))),
        Ok(Event::Keybinding(KeybindingId(3)))
    ));
    assert!(hotkey_event(None).is_err());
}

#[test]
fn event_flags_name_modifiers() {
    assert_eq!(cg_flags_to_modifiers(0), Modifiers::empty());
    assert_eq!(cg_flags_to_modifiers(0x0008_0000), Modifiers::ALT());
    assert_eq!(cg_flags_to_modifiers(0x0004_0000), Modifiers::CTRL());
    assert_eq!(cg_flags_to_modifiers(0x0002_0000), Modifiers::SHIFT());
    assert_eq!(cg_flags_to_modifiers(0x0010_0000), Modifiers::SUPER());
    assert_eq!(
        cg_flags_to_modifiers(0x001A_0100),
        Modifiers::ALT().union(Modifiers::SHIFT()).union(Modifiers::SUPER())
    );
}

#[test]
fn keycodes_name_keys() {
    assert_eq!(cgkeycode_to_key(0x00).0, "a");
    assert_eq!(cgkeycode_to_key(0x06).0, "z");
    assert_eq!(cgkeycode_to_key(0x1D).0, "0");
    assert_eq!(cgkeycode_to_key(0x6F).0, "f12");
    assert_eq!(cgkeycode_to_key(0x24).0, "return");
    assert_eq!(cgkeycode_to_key(0x27).0, "apostrophe");
    assert_eq!(cgkeycode_to_key(0x7F).0, "unknown");
    // Only the low 16 bits count.
    assert_eq!(cgkeycode_to_key(0x1_0000).0, "a");
    assert_eq!(cgkeycode_to_key(-1).0, "unknown");
}

#[test]
fn tapped_keys_find_their_binding() {
    assert_eq!(tapped_binding(&map(), 0x0010_0000, 0x0C), Some(KeybindingId(0)));
    assert_eq!(tapped_binding(&map(), 0x000A_0000, 0x60), Some(KeybindingId(1)));
    assert_eq!(tapped_binding(&map(), 0x0008_0000, 0x60), None);
}

#[test]
fn macos_windows_are_found_by_id() {
    let mut backend = MacosBackend::new(&map()).unwrap();
    assert!(backend.windows().is_empty());
    backend.windows.push(MacosWindow {
        id: WindowId(4),
        title: "four".into(),
        geometry: Rect::new(0, 0, 10, 10),
        floating: false,
    });
    let window = backend.window_mut(WindowId(4)).unwrap();
    window.set_geometry(Rect::new(1, 2, 3, 4)).unwrap();
    window.set_floating(true);
    assert_eq!(backend.windows()[0].geometry(), Rect::new(1, 2, 3, 4));
    assert!(backend.windows()[0].is_floating());
    assert!(backend.window_mut(WindowId(5)).is_none());
    assert_eq!(backend.monitor_rects(), vec![Rect::new(0, 0, 1920, 1080)]);
    assert!(backend.system_animations_enabled());
}
