use shellwright::config::{Config, Padding};
use shellwright::geometry::{
    apply_padding, center_of, dist_sq, expand_rect, inset, rect_covers,
};
use shellwright::hotkey::BindingMap;
use shellwright::layout::LayoutKind;
use shellwright::manager::borders::{borders_are_ready, parse_hex_color, update_borders};
use shellwright::manager::info::WindowInfo;
use shellwright::manager::plan::{
    apply_layout, apply_layout_animated, compute_layout_targets, layout_is_ready, Target,
};
use shellwright::manager::state::Manager;
use shellwright::manager::status::{json_escape, layout_kind_str};
use shellwright::manager::step::Command;
use shellwright::window::{Rect, WindowId};
use shellwright::workspace::Workspace;

const SCREEN: Rect = Rect { x: 0, y: 0, width: 1920, height: 1080 };

fn tidy() -> Config {
    let mut config = Config::default();
    config.gap = 10;
    config.padding = Padding { top: 40, bottom: 0, left: 0, right: 0 };
    config
}

fn window(id: u64, geometry: Rect) -> WindowInfo {
    WindowInfo {
        id: WindowId(id),
        title: format!("title {id}"),
        geometry,
        work_rect: SCREEN,
        full_rect: SCREEN,
        floating: false,
        minimized: false,
    }
}

fn small(id: u64) -> WindowInfo {
    window(id, Rect::new(5, 5, 50, 50))
}

fn workspace(ids: &[u64]) -> Workspace {
    let mut ws = Workspace::new("1");
    for id in ids {
        ws.add_window(WindowId(*id));
    }
    ws
}

#[test]
fn layout_places_tiles_less_padding_and_gap() {
    let ws = workspace(&[1, 2]);
    let infos = vec![small(1), small(2)];
    assert!(layout_is_ready(&ws, SCREEN, &tidy(), &infos));
    assert_eq!(
        apply_layout(&ws, SCREEN, &tidy(), &infos),
        vec![
            Command::SetGeometry { id: WindowId(1), rect: Rect::new(10, 50, 940, 1020) },
            Command::SetGeometry { id: WindowId(2), rect: Rect::new(970, 50, 940, 1020) },
        ]
    );
}

#[test]
fn only_tiled_windows_take_a_tile() {
    let mut ws = workspace(&[1, 2, 3, 4, 5]);
    ws.enter_fullscreen(WindowId(4), Rect::new(1, 2, 3, 4));
    let mut floating = small(2);
    floating.floating = true;
    let mut minimized = small(3);
    minimized.minimized = true;
    // Window 5 is not known.
    let infos = vec![small(1), floating, minimized, small(4)];
    assert_eq!(
        apply_layout(&ws, SCREEN, &tidy(), &infos),
        vec![
            Command::SetGeometry { id: WindowId(1), rect: Rect::new(10, 50, 1900, 1020) },
            Command::EnterFullscreen { id: WindowId(4), rect: SCREEN },
        ]
    );
}

#[test]
fn targets_say_where_windows_come_from() {
    let ws = workspace(&[1]);
    let from = Rect::new(5, 5, 50, 50);
    let to = Rect::new(10, 50, 1900, 1020);
    let expected = vec![Target { id: WindowId(1), from, to }];
    assert_eq!(compute_layout_targets(&ws, SCREEN, &tidy(), &vec![small(1)]), expected);
    let animated = apply_layout_animated(&ws, SCREEN, &tidy(), &vec![small(1)]);
    assert_eq!(animated.targets, expected);
    assert_eq!(animated.fullscreen, vec![]);
}

#[test]
fn float_layout_places_nothing() {
    for layout in [LayoutKind::Float, LayoutKind::Columns { count: 0 }] {
        let mut ws = workspace(&[1, 2]);
        ws.layout = layout;
        ws.enter_fullscreen(WindowId(2), Rect::new(5, 5, 50, 50));
        let infos = vec![small(1), small(2)];
        let full = apply_layout(&ws, SCREEN, &tidy(), &infos);
        assert!(matches!(full[..], [Command::EnterFullscreen { id: WindowId(2), .. }]));
        let animated = apply_layout_animated(&ws, SCREEN, &tidy(), &infos);
        assert_eq!(animated.targets, vec![]);
        assert_eq!(animated.fullscreen, full);
    }
}

#[test]
fn layouts_are_ready_while_every_corner_is_in_range() {
    let far = Rect::new(i32::MAX - 1000, 0, 1920, 1080);
    let infos = vec![small(1), small(2), small(3)];
    let mut ws = workspace(&[1, 2]);
    for layout in [LayoutKind::Fibonacci, LayoutKind::Bsp, LayoutKind::Columns { count: 2 }] {
        ws.layout = layout;
        // The second tile begins at 960, which leaves room for the gap.
        assert!(layout_is_ready(&ws, far, &tidy(), &infos));
        let targets = compute_layout_targets(&ws, far, &tidy(), &infos);
        assert_eq!(targets[1].to.x, i32::MAX - 30);
        // A wider gap does not fit any more.
        let mut wide = tidy();
        wide.gap = 41;
        assert!(!layout_is_ready(&ws, far, &wide, &infos));
    }
    let farther = Rect::new(i32::MAX - 900, 0, 1920, 1080);
    for layout in [LayoutKind::Fibonacci, LayoutKind::Bsp, LayoutKind::Columns { count: 2 }] {
        ws.layout = layout;
        assert!(!layout_is_ready(&ws, farther, &tidy(), &infos));
    }
    ws.layout = LayoutKind::Monocle;
    assert!(layout_is_ready(&ws, farther, &tidy(), &infos));
    ws.layout = LayoutKind::Float;
    assert!(layout_is_ready(&ws, farther, &tidy(), &infos));
    ws.layout = LayoutKind::CenterMain;
    assert!(layout_is_ready(&ws, farther, &tidy(), &infos));
    let mut three = workspace(&[1, 2, 3]);
    three.layout = LayoutKind::CenterMain;
    assert!(!layout_is_ready(&three, farther, &tidy(), &infos));
    let mut padded = tidy();
    padded.padding = Padding { top: 0, bottom: 0, left: u32::MAX, right: 1 };
    assert!(!layout_is_ready(&ws, SCREEN, &padded, &infos));
}

#[test]
fn placed_windows_neither_overlap_nor_leave_the_screen() {
    for kind in [LayoutKind::Fibonacci, LayoutKind::Bsp, LayoutKind::CenterMain] {
        let mut ws = workspace(&[1, 2, 3, 4, 5]);
        ws.layout = kind;
        let infos = vec![small(1), small(2), small(3), small(4), small(5)];
        let targets = compute_layout_targets(&ws, SCREEN, &tidy(), &infos);
        assert_eq!(targets.len(), 5);
        for (i, a) in targets.iter().enumerate() {
            assert!(a.to.x >= 10 && a.to.y >= 50);
            assert!(a.to.x as u32 + a.to.width <= 1910);
            assert!(a.to.y as u32 + a.to.height <= 1070);
            for b in &targets[i + 1..] {
                let apart = a.to.x + a.to.width as i32 <= b.to.x
                    || b.to.x + b.to.width as i32 <= a.to.x
                    || a.to.y + a.to.height as i32 <= b.to.y
                    || b.to.y + b.to.height as i32 <= a.to.y;
                assert!(apart);
            }
        }
    }
}

// ── Borders ──────────────────────────────────────────────────────────────────

#[test]
fn hex_colors() {
    assert_eq!(parse_hex_color("#5E81AC"), 0x5E81AC);
    assert_eq!(parse_hex_color("3b4252"), 0x3B4252);
    assert_eq!(parse_hex_color("##ff"), 0xFF);
    assert_eq!(parse_hex_color("+10"), 0x10);
    assert_eq!(parse_hex_color("blue"), 0x888888);
    assert_eq!(parse_hex_color(""), 0x888888);
    assert_eq!(parse_hex_color("#1FFFFFFFF"), 0x888888);
}

fn painted(id: u64, rgb: u32) -> Command {
    Command::SetBorder { id: WindowId(id), rgb, width: 3, radius: 6 }
}

fn colours() -> Config {
    let mut config = Config::default();
    config.border_active = "#0000AA".into();
    config.border_inactive = "#0000BB".into();
    config.border_width = 3;
    config.border_radius = 6;
    config
}

#[test]
fn borders_show_the_focused_window() {
    let ws = workspace(&[1, 2, 9]);
    let infos = vec![small(1), small(2)];
    assert!(borders_are_ready(&ws, &infos));
    assert_eq!(
        update_borders(&ws, Some(WindowId(1)), &colours(), &infos),
        vec![painted(1, 0xAA), painted(2, 0xBB)]
    );
    assert_eq!(
        update_borders(&ws, None, &colours(), &infos),
        vec![painted(1, 0xBB), painted(2, 0xBB)]
    );
}

#[test]
fn windows_that_fill_a_monitor_or_are_minimised_have_no_border() {
    let mut ws = workspace(&[1, 2, 3]);
    ws.enter_fullscreen(WindowId(1), SCREEN);
    let mut minimized = small(2);
    minimized.minimized = true;
    // Larger than the monitor by its invisible resize borders.
    let native = window(3, Rect::new(-8, -8, 1936, 1096));
    let hidden = |id| Command::HideBorder { id: WindowId(id) };
    assert_eq!(
        update_borders(&ws, Some(WindowId(1)), &colours(), &vec![small(1), minimized, native]),
        vec![hidden(1), hidden(2), hidden(3)]
    );
}

#[test]
fn monocle_borders_only_the_focused_window() {
    let mut ws = workspace(&[1, 2]);
    ws.layout = LayoutKind::Monocle;
    assert_eq!(
        update_borders(&ws, Some(WindowId(2)), &colours(), &vec![small(1), small(2)]),
        vec![Command::HideBorder { id: WindowId(1) }, painted(2, 0xAA)]
    );
}

#[test]
fn borders_that_cannot_be_measured_are_not_ready() {
    let ws = workspace(&[1]);
    let mut vast = window(1, Rect::new(-10, -10, 100, 100));
    vast.full_rect = Rect::new(i32::MAX, 0, 100, 100);
    assert!(!borders_are_ready(&ws, &vec![vast]));
}

// ── Geometry ─────────────────────────────────────────────────────────────────

#[test]
fn inset_shrinks_and_expand_undoes_it() {
    let r = Rect::new(100, 200, 300, 400);
    assert_eq!(inset(r, 10), Rect::new(110, 210, 280, 380));
    assert_eq!(expand_rect(inset(r, 10), 10), r);
    assert_eq!(inset(r, 0), r);
    assert_eq!(inset(Rect::new(0, 0, 10, 30), 8), Rect::new(8, 8, 0, 14));
    assert_eq!(expand_rect(Rect::new(0, 0, 4, 4), -3), Rect::new(3, 3, 0, 0));
}

#[test]
fn padding_is_taken_off_each_edge() {
    let p = Padding { top: 1, bottom: 2, left: 3, right: 4 };
    assert_eq!(apply_padding(SCREEN, p), Rect::new(3, 1, 1913, 1077));
}

#[test]
fn covering_allows_larger_windows() {
    assert!(rect_covers(SCREEN, SCREEN));
    assert!(rect_covers(Rect::new(-8, -8, 1936, 1096), SCREEN));
    assert!(!rect_covers(Rect::new(0, 0, 1920, 1040), SCREEN));
    assert!(!rect_covers(Rect::new(1, 0, 1920, 1080), SCREEN));
}

#[test]
fn centres_and_distances() {
    assert_eq!(center_of(Rect::new(-10, 0, 21, 11)), (0, 5));
    assert_eq!(dist_sq((0, 0), (3, -4)), 25);
}

// ── Status line ──────────────────────────────────────────────────────────────

#[test]
fn json_strings_are_escaped() {
    assert_eq!(json_escape("a\"b\\c\nd\re"), "a\\\"b\\\\c\\nd\\re");
    assert_eq!(json_escape("плитка"), "плитка");
}

#[test]
fn layout_names() {
    assert_eq!(layout_kind_str(&LayoutKind::Fibonacci), "fibonacci");
    assert_eq!(layout_kind_str(&LayoutKind::Bsp), "bsp");
    assert_eq!(layout_kind_str(&LayoutKind::Columns { count: 3 }), "columns");
    assert_eq!(layout_kind_str(&LayoutKind::Monocle), "monocle");
    assert_eq!(layout_kind_str(&LayoutKind::CenterMain), "center_main");
    assert_eq!(layout_kind_str(&LayoutKind::Float), "float");
}

#[test]
fn status_is_one_line_of_json() {
    let mut config = Config::default();
    config.workspaces.truncate(3);
    let bindings = BindingMap::from_config(&[]).unwrap();
    let right = Rect::new(1920, 0, 1920, 1080);
    let mut manager = Manager::new(config, bindings, vec![SCREEN, right]);
    manager.workspaces[0].add_window(WindowId(1));
    manager.workspaces[0].add_window(WindowId(2));
    manager.workspaces[0].focused = Some(WindowId(2));
    manager.workspaces[1].layout = LayoutKind::Columns { count: 2 };
    manager.workspaces[2].name = "say \"hi\"".into();
    manager.workspaces[2].focused = Some(WindowId(77));
    let mut shown = small(2);
    shown.title = "two\nlines".into();
    let json = manager.build_yasb_json(&vec![small(1), shown]);
    let expected = concat_lines(&[
        "{\"monitors\":{\"elements\":[",
        "{\"name\":\"Monitor 1\",\"index\":0,\"workspaces\":{\"elements\":[",
        "{\"name\":\"1\",\"index\":0,\"layout\":\"fibonacci\",\"focused_window\":\"two\\nlines\",",
        "\"windows\":{\"elements\":[{\"id\":0},{\"id\":1}],\"focused\":1}},",
        "{\"name\":\"2\",\"index\":1,\"layout\":\"columns\",\"focused_window\":\"\",",
        "\"windows\":{\"elements\":[],\"focused\":0}}],\"focused\":0}},",
        "{\"name\":\"Monitor 2\",\"index\":1,\"workspaces\":{\"elements\":[",
        "{\"name\":\"say \\\"hi\\\"\",\"index\":0,\"layout\":\"fibonacci\",\"focused_window\":\"\",",
        "\"windows\":{\"elements\":[],\"focused\":0}}],\"focused\":0}}",
        "],\"focused\":0}}\n",
    ]);
    assert_eq!(json, expected);
    assert_eq!(json.lines().count(), 1);
}

fn concat_lines(parts: &[&str]) -> String {
    parts.concat()
}
