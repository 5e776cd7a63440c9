use shellwright::layout::LayoutKind;
use shellwright::window::{Rect, WindowId};
use shellwright::workspace::Workspace;

fn r() -> Rect {
    Rect::new(0, 0, 1920, 1080)
}

#[test]
fn add_sets_focus_on_first_window() {
    let mut ws = Workspace::new("1");
    ws.add_window(WindowId(1));
    assert_eq!(ws.focused, Some(WindowId(1)));
}

#[test]
fn remove_clears_focus_when_last() {
    let mut ws = Workspace::new("1");
    ws.add_window(WindowId(1));
    ws.remove_window(WindowId(1));
    assert!(ws.focused.is_none());
    assert!(ws.windows().is_empty());
}

#[test]
fn no_duplicate_windows() {
    let mut ws = Workspace::new("1");
    ws.add_window(WindowId(1));
    ws.add_window(WindowId(1));
    assert_eq!(ws.windows().len(), 1);
}

#[test]
fn fullscreen_enter_exit_roundtrip() {
    let mut ws = Workspace::new("1");
    ws.add_window(WindowId(1));
    assert!(!ws.is_fullscreen(WindowId(1)));

    ws.enter_fullscreen(WindowId(1), r());
    assert!(ws.is_fullscreen(WindowId(1)));

    let saved = ws.exit_fullscreen(WindowId(1));
    assert_eq!(saved, Some(r()));
    assert!(!ws.is_fullscreen(WindowId(1)));
}

#[test]
fn remove_clears_fullscreen_state() {
    let mut ws = Workspace::new("1");
    ws.add_window(WindowId(1));
    ws.enter_fullscreen(WindowId(1), r());
    ws.remove_window(WindowId(1));
    assert!(!ws.is_fullscreen(WindowId(1)));
}

#[test]
fn new_workspace_is_empty() {
    let ws = Workspace::new("mail");
    assert_eq!(ws.name, "mail");
    assert_eq!(ws.layout, LayoutKind::Fibonacci);
    assert!(ws.windows().is_empty());
    assert_eq!(ws.focused, None);
    assert!(ws.fullscreen_windows().is_empty());
}

#[test]
fn removing_the_focused_window_focuses_the_last() {
    let mut ws = Workspace::new("1");
    for n in 1..4 {
        ws.add_window(WindowId(n));
    }
    ws.remove_window(WindowId(1));
    assert_eq!(ws.focused, Some(WindowId(3)));
    assert_eq!(ws.windows(), [WindowId(2), WindowId(3)]);
    ws.remove_window(WindowId(2));
    assert_eq!(ws.focused, Some(WindowId(3)));
    assert!(ws.contains(WindowId(3)));
    assert!(!ws.contains(WindowId(2)));
}

#[test]
fn fullscreen_windows_lists_each_once() {
    let mut ws = Workspace::new("1");
    for n in 1..6 {
        ws.enter_fullscreen(WindowId(n), r());
    }
    ws.enter_fullscreen(WindowId(2), Rect::new(1, 2, 3, 4));
    assert_eq!(ws.exit_fullscreen(WindowId(9)), None);
    let mut ids: Vec<u64> = ws.fullscreen_windows().iter().map(|w| w.0).collect();
    ids.sort();
    assert_eq!(ids, [1, 2, 3, 4, 5]);
    assert_eq!(ws.exit_fullscreen(WindowId(2)), Some(Rect::new(1, 2, 3, 4)));
}

#[test]
fn window_order_can_be_edited() {
    let mut ws = Workspace::new("1");
    ws.add_window(WindowId(1));
    ws.add_window(WindowId(2));
    ws.windows_mut().swap(0, 1);
    assert_eq!(ws.windows(), [WindowId(2), WindowId(1)]);
    assert_eq!(ws.focused, Some(WindowId(1)));
}

#[test]
fn fullscreen_follows_the_last_entry_of_each_window() {
    let at = |x: i32| Rect::new(x, 0, 10, 10);
    let mut ws = Workspace::new("1");
    for id in 1..=4 {
        ws.add_window(WindowId(id));
        ws.enter_fullscreen(WindowId(id), at(id as i32));
    }
    ws.enter_fullscreen(WindowId(1), at(100));
    ws.exit_fullscreen(WindowId(2));
    ws.remove_window(WindowId(3));
    ws.add_window(WindowId(3));
    ws.exit_fullscreen(WindowId(4));
    ws.enter_fullscreen(WindowId(4), at(400));
    let mut full: Vec<u64> = ws.fullscreen_windows().iter().map(|w| w.0).collect();
    full.sort();
    assert_eq!(full, [1, 4]);
    assert_eq!(ws.exit_fullscreen(WindowId(1)), Some(at(100)));
    assert_eq!(ws.exit_fullscreen(WindowId(4)), Some(at(400)));
    assert_eq!(ws.exit_fullscreen(WindowId(3)), None);
}
