use shellwright::action::Action;
use shellwright::config::{Config, Keybinding};
use shellwright::event::KeybindingId;
use shellwright::hotkey::{BindingMap, Key, KeyCombo, Modifiers};

fn kb(modifiers: &[&str], key: &str, action: &str) -> Keybinding {
    Keybinding {
        modifiers: modifiers.iter().map(|s| s.to_string()).collect(),
        key: key.into(),
        action: action.into(),
    }
}

#[test]
fn modifiers_parse_aliases() {
    let m = Modifiers::from_strs(&["win".into(), "shift".into()]).unwrap();
    assert!(m.contains(Modifiers::SUPER()));
    assert!(m.contains(Modifiers::SHIFT()));
    assert!(!m.contains(Modifiers::ALT()));
}

#[test]
fn modifier_unknown_is_error() {
    assert!(Modifiers::from_strs(&["hyper".into()]).is_err());
}

#[test]
fn binding_map_roundtrip() {
    let bindings = vec![
        kb(&["super"], "q", "kill_focused"),
        kb(&["super", "shift"], "1", "switch_workspace:1"),
    ];
    let map = BindingMap::from_config(&bindings).unwrap();
    assert_eq!(map.len(), 2);

    let id = KeybindingId(0);
    assert_eq!(map.action(id), Some(&Action::KillFocused));
}

#[test]
fn binding_map_id_for_combo() {
    let bindings = vec![kb(&["super"], "return", "focus_next")];
    let map = BindingMap::from_config(&bindings).unwrap();

    let combo = KeyCombo {
        modifiers: Modifiers::SUPER(),
        key: Key::new("return"),
    };
    assert_eq!(map.id_for_combo(&combo), Some(KeybindingId(0)));
}

#[test]
fn binding_map_rejects_invalid_action() {
    let bindings = vec![kb(&["super"], "q", "launch_browser")];
    assert!(BindingMap::from_config(&bindings).is_err());
}

#[test]
fn modifier_names_are_case_insensitive() {
    let all = ["ALT", "Ctrl", "control", "SHIFT", "Super", "WIN", "cmd", "Meta"];
    let names: Vec<String> = all.iter().map(|s| s.to_string()).collect();
    let m = Modifiers::from_strs(&names).unwrap();
    assert!(m.alt && m.ctrl && m.shift && m.super_key);
    assert_eq!(Modifiers::from_strs(&[]).unwrap(), Modifiers::empty());
    let e = Modifiers::from_strs(&["alt".into(), "HYPER".into()]).unwrap_err();
    assert_eq!(e.to_string(), "config error: unknown modifier: hyper");
}

#[test]
fn keys_are_lowercased_and_nonempty() {
    assert_eq!(Key::new("PageUp").0, "pageup");
    assert_eq!("Return".parse::<Key>().unwrap(), Key("return".to_string()));
    let e = "".parse::<Key>().unwrap_err();
    assert_eq!(e.to_string(), "config error: key name cannot be empty");
}

#[test]
fn binding_errors_name_the_binding() {
    let message = |b: Vec<Keybinding>| match BindingMap::from_config(&b) {
        Ok(_) => panic!("accepted"),
        Err(e) => e.to_string(),
    };
    assert_eq!(
        message(vec![kb(&["alt"], "a", "quit"), kb(&["hyper"], "", "nope")]),
        "config error: keybinding [1]: config error: unknown modifier: hyper"
    );
    assert_eq!(
        message(vec![kb(&["alt"], "", "nope")]),
        "config error: keybinding [0]: config error: key name cannot be empty"
    );
    assert_eq!(
        message(vec![kb(&["alt"], "a", "nope")]),
        "config error: keybinding [0]: config error: unknown action: nope"
    );
}

#[test]
fn every_default_binding_resolves_to_its_action() {
    let c = Config::default();
    let map = BindingMap::from_config(&c.keybindings).unwrap();
    for (i, kb) in c.keybindings.iter().enumerate() {
        let combo = KeyCombo {
            modifiers: Modifiers::from_strs(&kb.modifiers).unwrap(),
            key: Key::new(&kb.key),
        };
        let id = map.id_for_combo(&combo).unwrap();
        assert_eq!(id, KeybindingId(i as u32));
        assert_eq!(*map.action(id).unwrap(), kb.action.parse::<Action>().unwrap());
    }
    assert_eq!(map.action(KeybindingId(32)), None);
    let listed: Vec<u32> = map.iter().iter().map(|(id, _, _)| id.0).collect();
    assert_eq!(listed, (0..32).collect::<Vec<u32>>());
}

#[test]
fn first_of_two_equal_combos_wins() {
    let map = BindingMap::from_config(&[
        kb(&["alt"], "x", "quit"),
        kb(&["ALT"], "X", "focus_next"),
    ])
    .unwrap();
    let combo = KeyCombo { modifiers: Modifiers::ALT(), key: Key::new("x") };
    assert_eq!(map.id_for_combo(&combo), Some(KeybindingId(0)));
    assert!(!map.is_empty());
    assert!(BindingMap::from_config(&[]).unwrap().is_empty());
}
