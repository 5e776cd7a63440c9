use shellwright::config::{AnimationConfig, Config, FloatRule, TaskbarMode};
use shellwright::hotkey::BindingMap;
use shellwright::layout::LayoutKind;

#[test]
fn default_config_has_nine_workspaces() {
    assert_eq!(Config::default().workspaces.len(), 9);
}

#[test]
fn default_layout_is_fibonacci() {
    assert_eq!(Config::default().default_layout, LayoutKind::Fibonacci);
}

#[test]
fn default_config_values() {
    let c = Config::default();
    assert_eq!(c.gap, 8);
    assert_eq!(c.border_width, 5);
    assert_eq!(c.border_active, "#5E81AC");
    assert_eq!(c.border_inactive, "#3B4252");
    assert_eq!(c.border_radius, 8);
    assert_eq!(c.padding.top, 0);
    assert_eq!(c.taskbar_mode, TaskbarMode::Global);
    assert_eq!(
        c.animations,
        AnimationConfig { enabled: true, duration_ms: 200, frames: 6 }
    );
    assert!(c.float_rules.is_empty());
    let names: Vec<&str> = c.workspaces.iter().map(|w| w.name.as_str()).collect();
    assert_eq!(names, ["1", "2", "3", "4", "5", "6", "7", "8", "9"]);
}

#[test]
fn default_keybindings_compile() {
    let c = Config::default();
    assert_eq!(c.keybindings.len(), 32);
    let map = BindingMap::from_config(&c.keybindings).unwrap();
    assert_eq!(map.len(), 32);
}

#[test]
fn frames_stay_between_one_and_sixty() {
    let with = |frames: u32| AnimationConfig { enabled: true, duration_ms: 1, frames }.frame_count();
    assert_eq!(with(0), 1);
    assert_eq!(with(1), 1);
    assert_eq!(with(6), 6);
    assert_eq!(with(60), 60);
    assert_eq!(with(61), 60);
}

fn rule(class: Option<&str>, title: Option<&str>, exe: Option<&str>) -> FloatRule {
    FloatRule {
        class: class.map(|s| s.to_string()),
        title_contains: title.map(|s| s.to_string()),
        exe: exe.map(|s| s.to_string()),
    }
}

#[test]
fn float_rules_match_all_given_fields() {
    assert!(FloatRule::default().matches("c", "t", "e"));
    assert!(rule(None, None, Some("steam.exe")).matches("c", "t", "Steam.EXE"));
    assert!(!rule(None, None, Some("steam.exe")).matches("c", "t", "steam.exe2"));
    assert!(rule(Some("TaskManagerWindow"), None, None).matches("taskmanagerwindow", "", ""));
    let both = rule(None, Some("Properties"), Some("explorer.exe"));
    assert!(both.matches("x", "Disk PROPERTIES of C", "EXPLORER.EXE"));
    assert!(!both.matches("x", "Disk PROPERTIES of C", "cmd.exe"));
    assert!(!both.matches("x", "Disk", "explorer.exe"));
}

#[test]
fn title_rules_fold_unicode_case() {
    assert!(rule(None, Some("ÜBER"), None).matches("", "ein über uns", ""));
    assert!(!rule(Some("ü"), None, None).matches("Ü", "", ""));
}

#[test]
fn rules_are_decided_by_the_lowercase_texts() {
    let r = rule(Some("C"), Some("ignored"), None);
    assert!(r.matches_lowercase("c", "some title", "me ti", "any"));
    assert!(!r.matches_lowercase("c", "some title", "ME", "any"));
    assert!(!r.matches_lowercase("d", "some title", "me ti", "any"));
    assert!(rule(None, None, None).matches_lowercase("c", "a", "b", "e"));
}
