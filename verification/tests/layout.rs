use shellwright::layout::{compute, LayoutKind};
use shellwright::window::Rect;

fn screen() -> Rect {
    Rect::new(0, 0, 1920, 1080)
}

#[test]
fn fibonacci_one_window_fills_screen() {
    let s = compute(&LayoutKind::Fibonacci, screen(), 1);
    assert_eq!(s.len(), 1);
    assert_eq!(s[0].rect, screen());
}

#[test]
fn fibonacci_two_windows_cover_width() {
    let s = compute(&LayoutKind::Fibonacci, screen(), 2);
    assert_eq!(s.len(), 2);
    assert_eq!(s[0].rect.width + s[1].rect.width, 1920);
}

#[test]
fn fibonacci_zero_windows() {
    assert!(compute(&LayoutKind::Fibonacci, screen(), 0).is_empty());
}

#[test]
fn bsp_zero_windows() {
    assert!(compute(&LayoutKind::Bsp, screen(), 0).is_empty());
}

#[test]
fn bsp_one_window_fills_screen() {
    let slots = compute(&LayoutKind::Bsp, screen(), 1);
    assert_eq!(slots.len(), 1);
    assert_eq!(slots[0].rect, screen());
}

#[test]
fn bsp_two_windows_cover_screen_width() {
    let slots = compute(&LayoutKind::Bsp, screen(), 2);
    assert_eq!(slots.len(), 2);
    let total_w: u32 = slots.iter().map(|s| s.rect.width).sum();
    assert_eq!(total_w, 1920);
}

#[test]
fn monocle_returns_slot_per_window() {
    let slots = compute(&LayoutKind::Monocle, screen(), 5);
    assert_eq!(slots.len(), 5);
    for s in &slots {
        assert_eq!(s.rect, screen());
    }
}

#[test]
fn center_main_one_window_fills_screen() {
    let slots = compute(&LayoutKind::CenterMain, screen(), 1);
    assert_eq!(slots.len(), 1);
    assert_eq!(slots[0].rect, screen());
}

#[test]
fn center_main_two_windows_centre_plus_left() {
    let slots = compute(&LayoutKind::CenterMain, screen(), 2);
    assert_eq!(slots.len(), 2);
    // Centre must be widest.
    assert!(slots[0].rect.width > slots[1].rect.width);
    // Together they span the full width.
    assert_eq!(slots[0].rect.width + slots[1].rect.width, 1920);
}

#[test]
fn center_main_three_windows_total_width() {
    let slots = compute(&LayoutKind::CenterMain, screen(), 3);
    assert_eq!(slots.len(), 3);
    // Left + centre + right should span full width.
    let total: u32 = slots[0].rect.width + slots[1].rect.width + slots[2].rect.width;
    assert_eq!(total, 1920);
}

#[test]
fn float_produces_no_slots() {
    assert!(compute(&LayoutKind::Float, screen(), 3).is_empty());
}

#[test]
fn columns_correct_count() {
    let slots = compute(&LayoutKind::Columns { count: 3 }, screen(), 6);
    assert_eq!(slots.len(), 6);
}

fn rects(kind: LayoutKind, screen: Rect, n: usize) -> Vec<(i32, i32, u32, u32)> {
    compute(&kind, screen, n)
        .iter()
        .map(|s| (s.rect.x, s.rect.y, s.rect.width, s.rect.height))
        .collect()
}

#[test]
fn fibonacci_spirals_inward() {
    assert_eq!(
        rects(LayoutKind::Fibonacci, Rect::new(-10, 5, 101, 61), 4),
        [(-10, 5, 50, 61), (40, 5, 51, 30), (40, 35, 25, 31), (65, 35, 26, 31)]
    );
}

#[test]
fn bsp_halves_the_longer_side() {
    assert_eq!(
        rects(LayoutKind::Bsp, Rect::new(0, 0, 100, 60), 3),
        [(0, 0, 50, 60), (50, 0, 50, 30), (50, 30, 50, 30)]
    );
    assert_eq!(
        rects(LayoutKind::Bsp, Rect::new(0, 0, 60, 100), 2),
        [(0, 0, 60, 50), (0, 50, 60, 50)]
    );
}

#[test]
fn columns_fill_round_robin() {
    assert_eq!(
        rects(LayoutKind::Columns { count: 3 }, Rect::new(7, 9, 100, 50), 4),
        [(7, 9, 33, 50), (40, 9, 33, 50), (73, 9, 33, 50), (7, 9, 33, 50)]
    );
    assert!(compute(&LayoutKind::Columns { count: 0 }, screen(), 4).is_empty());
}

#[test]
fn center_main_stacks_the_sides() {
    assert_eq!(
        rects(LayoutKind::CenterMain, Rect::new(0, 0, 103, 100), 6),
        [
            (25, 0, 53, 100),
            (0, 0, 25, 33),
            (78, 0, 25, 50),
            (0, 33, 25, 33),
            (78, 50, 25, 50),
            (0, 66, 25, 34),
        ]
    );
}

#[test]
fn dividing_layouts_cover_each_pixel_once() {
    let screen = Rect::new(-7, 3, 23, 17);
    for kind in [LayoutKind::Fibonacci, LayoutKind::Bsp, LayoutKind::CenterMain] {
        for n in 1..9usize {
            let slots = compute(&kind, screen, n);
            assert_eq!(slots.len(), n);
            for px in -9..18 {
                for py in 0..22 {
                    let hits = slots
                        .iter()
                        .filter(|s| {
                            px >= s.rect.x
                                && px < s.rect.x + s.rect.width as i32
                                && py >= s.rect.y
                                && py < s.rect.y + s.rect.height as i32
                        })
                        .count();
                    let on_screen = (-7..16).contains(&px) && (3..20).contains(&py);
                    assert_eq!(hits, if on_screen { 1 } else { 0 });
                }
            }
        }
    }
}

#[test]
fn another_window_splits_the_last_tile_of_a_spiral() {
    let screen = Rect::new(-100, 50, 1921, 1081);
    let tiles = |n: usize| -> Vec<Rect> {
        compute(&LayoutKind::Fibonacci, screen, n).iter().map(|s| s.rect).collect()
    };
    for n in 1..8usize {
        let (a, b) = (tiles(n), tiles(n + 1));
        assert_eq!(b.len(), n + 1);
        assert_eq!(a[..n - 1], b[..n - 1]);
        let last = a[n - 1];
        if n % 2 == 1 {
            let half = last.width / 2;
            assert_eq!(b[n - 1], Rect::new(last.x, last.y, half, last.height));
            let x = last.x + half as i32;
            assert_eq!(b[n], Rect::new(x, last.y, last.width - half, last.height));
        } else {
            let half = last.height / 2;
            assert_eq!(b[n - 1], Rect::new(last.x, last.y, last.width, half));
            let y = last.y + half as i32;
            assert_eq!(b[n], Rect::new(last.x, y, last.width, last.height - half));
        }
    }
}
