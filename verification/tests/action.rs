use shellwright::action::Action;
use shellwright::layout::LayoutKind;

#[test]
fn parses_simple_actions() {
    assert_eq!("focus_next".parse::<Action>().unwrap(), Action::FocusNext);
    assert_eq!("kill_focused".parse::<Action>().unwrap(), Action::KillFocused);
    assert_eq!("quit".parse::<Action>().unwrap(), Action::Quit);
}

#[test]
fn parses_set_layout() {
    assert_eq!(
        "set_layout:bsp".parse::<Action>().unwrap(),
        Action::SetLayout(LayoutKind::Bsp)
    );
    assert_eq!(
        "set_layout:columns:3".parse::<Action>().unwrap(),
        Action::SetLayout(LayoutKind::Columns { count: 3 })
    );
}

#[test]
fn parses_workspace_actions() {
    assert_eq!("switch_workspace:1".parse::<Action>().unwrap(), Action::SwitchWorkspace(1));
    assert_eq!(
        "move_to_workspace:9".parse::<Action>().unwrap(),
        Action::MoveFocusedToWorkspace(9)
    );
}

#[test]
fn rejects_unknown_action() {
    assert!("launch_terminal".parse::<Action>().is_err());
}

#[test]
fn rejects_zero_workspace_index() {
    assert!("switch_workspace:0".parse::<Action>().is_err());
}

#[test]
fn rejects_zero_column_count() {
    assert!("set_layout:columns:0".parse::<Action>().is_err());
}

#[test]
fn parses_every_documented_action() {
    let table = [
        ("focus_next", Action::FocusNext),
        ("focus_prev", Action::FocusPrev),
        ("move_next", Action::MoveNext),
        ("move_prev", Action::MovePrev),
        ("kill_focused", Action::KillFocused),
        ("toggle_float", Action::ToggleFloat),
        ("toggle_fullscreen", Action::ToggleFullscreen),
        ("set_layout:fibonacci", Action::SetLayout(LayoutKind::Fibonacci)),
        ("set_layout:bsp", Action::SetLayout(LayoutKind::Bsp)),
        ("set_layout:monocle", Action::SetLayout(LayoutKind::Monocle)),
        ("set_layout:columns:255", Action::SetLayout(LayoutKind::Columns { count: 255 })),
        ("set_layout:center_main", Action::SetLayout(LayoutKind::CenterMain)),
        ("set_layout:float", Action::SetLayout(LayoutKind::Float)),
        ("switch_workspace:+07", Action::SwitchWorkspace(7)),
        ("move_to_workspace:12", Action::MoveFocusedToWorkspace(12)),
        ("reload_config", Action::ReloadConfig),
        ("quit", Action::Quit),
    ];
    for (text, action) in table {
        assert_eq!(text.parse::<Action>().unwrap(), action);
    }
}

#[test]
fn action_errors_name_the_offending_string() {
    let message = |s: &str| s.parse::<Action>().unwrap_err().to_string();
    assert_eq!(message("launch"), "config error: unknown action: launch");
    assert_eq!(message(""), "config error: unknown action: ");
    assert_eq!(message("quit:1"), "config error: unknown action: quit:1");
    assert_eq!(message("set_layout:bsp:"), "config error: unknown action: set_layout:bsp:");
    assert_eq!(message("set_layout:columns"), "config error: unknown action: set_layout:columns");
    assert_eq!(
        message("switch_workspace:1:2"),
        "config error: unknown action: switch_workspace:1:2"
    );
    assert_eq!(
        message("switch_workspace:256"),
        "config error: invalid workspace index in action: switch_workspace:256"
    );
    assert_eq!(
        message("move_to_workspace:-1"),
        "config error: invalid workspace index in action: move_to_workspace:-1"
    );
    assert_eq!(message("move_to_workspace:0"), "config error: workspace index must be >= 1");
    assert_eq!(
        message("set_layout:columns:2:3"),
        "config error: invalid column count in action: set_layout:columns:2:3"
    );
    assert_eq!(
        message("set_layout:columns:"),
        "config error: invalid column count in action: set_layout:columns:"
    );
    assert_eq!(message("set_layout:columns:0"), "config error: column count must be >= 1");
}
