use shellwright::error::Error;
use shellwright::window::{Rect, WindowId};

#[test]
fn rect_new_roundtrip() {
    let r = Rect::new(-10, 20, 1920, 1080);
    assert_eq!(r.x, -10);
    assert_eq!(r.y, 20);
    assert_eq!(r.width, 1920);
    assert_eq!(r.height, 1080);
}

#[test]
fn window_id_display() {
    assert_eq!(WindowId(42).to_string(), "win:42");
}

#[test]
fn window_id_display_extremes() {
    assert_eq!(WindowId(0).to_string(), "win:0");
    assert_eq!(WindowId(u64::MAX).to_string(), "win:18446744073709551615");
}

#[test]
fn errors_say_what_failed() {
    assert_eq!(Error::WindowNotFound { id: 7 }.to_string(), "window not found: 7");
    assert_eq!(Error::Layout("x".to_string()).to_string(), "layout error: x");
    assert_eq!(Error::Config("y".to_string()).to_string(), "config error: y");
    assert_eq!(Error::Backend("z".to_string()).to_string(), "backend error: z");
    let io = std::io::Error::new(std::io::ErrorKind::Other, "gone");
    assert_eq!(Error::Io(io).to_string(), "io error: gone");
}
