use shellwright::action::Action;
use shellwright::config::{Config, TaskbarMode, WorkspaceConfig};
use shellwright::event::{Event, KeybindingId};
use shellwright::hotkey::BindingMap;
use shellwright::layout::LayoutKind;
use shellwright::manager::events::Facts;
use shellwright::manager::info::WindowInfo;
use shellwright::manager::state::{find_monitor_idx, ws_monitor_rect, Manager};
use shellwright::manager::step::{Command, Step};
use shellwright::window::{Rect, WindowId};

const LEFT: Rect = Rect { x: 0, y: 0, width: 1920, height: 1080 };
const RIGHT: Rect = Rect { x: 1920, y: 0, width: 2560, height: 1440 };

fn config() -> Config {
    let mut config = Config::default();
    config.animations.enabled = false;
    config
}

fn manager_with(config: Config, rects: Vec<Rect>) -> Manager {
    let bindings = BindingMap::from_config(&config.keybindings).unwrap();
    Manager::new(config, bindings, rects)
}

/// Two monitors: workspaces 0 to 4 belong to the left one, 5 to 8 to the right.
fn two_monitors() -> Manager {
    manager_with(config(), vec![LEFT, RIGHT])
}

fn info_at(id: u64, geometry: Rect) -> WindowInfo {
    let area = if geometry.x < 1920 { LEFT } else { RIGHT };
    WindowInfo {
        id: WindowId(id),
        title: format!("window {id}"),
        geometry,
        work_rect: area,
        full_rect: area,
        floating: false,
        minimized: false,
    }
}

fn info(id: u64) -> WindowInfo {
    info_at(id, Rect::new(100, 100, 400, 300))
}

fn facts() -> Facts {
    Facts { system_animations: true, window_area: LEFT, monitor_rects: vec![LEFT, RIGHT] }
}

fn place(manager: &mut Manager, ws: usize, ids: &[u64]) {
    for id in ids {
        manager.workspaces[ws].add_window(WindowId(*id));
    }
}

fn ids(manager: &Manager, ws: usize) -> Vec<u64> {
    manager.workspaces[ws].windows().iter().map(|w| w.0).collect()
}

fn act(manager: &mut Manager, action: Action, infos: Vec<WindowInfo>) -> Vec<Step> {
    manager.dispatch(action, &infos, true)
}

fn w(id: u64) -> WindowId {
    WindowId(id)
}

#[test]
fn workspaces_are_shared_out_over_monitors() {
    let one = manager_with(config(), vec![LEFT]);
    assert_eq!(one.workspaces.len(), 9);
    assert_eq!(one.monitor_ws, vec![0]);
    assert_eq!(one.ws_per_mon, 9);

    let two = two_monitors();
    assert_eq!(two.ws_per_mon, 5);
    assert_eq!(two.monitor_ws, vec![0, 5]);
    assert_eq!(two.focused_mon, 0);
    assert_eq!(two.workspaces[8].name, "9");

    let none = manager_with(config(), vec![]);
    assert_eq!(none.monitor_ws, vec![0]);
    assert_eq!(none.ws_per_mon, 9);
}

#[test]
fn surplus_monitors_show_the_last_workspace() {
    let mut few = config();
    few.workspaces.truncate(5);
    let third = Rect::new(4480, 0, 1280, 1024);
    let fourth = Rect::new(5760, 0, 1280, 1024);
    let manager = manager_with(few, vec![LEFT, RIGHT, third, fourth]);
    assert_eq!(manager.ws_per_mon, 2);
    assert_eq!(manager.monitor_ws, vec![0, 2, 4, 4]);
}

#[test]
fn new_workspaces_start_with_the_default_layout() {
    let mut monocle = config();
    monocle.default_layout = LayoutKind::Monocle;
    let manager = manager_with(monocle, vec![LEFT]);
    assert!(manager.workspaces.iter().all(|ws| ws.layout == LayoutKind::Monocle));
}

#[test]
fn monitor_of_a_workspace_is_the_one_that_owns_it() {
    let rects = vec![LEFT, RIGHT];
    assert_eq!(ws_monitor_rect(4, 5, &rects), LEFT);
    assert_eq!(ws_monitor_rect(5, 5, &rects), RIGHT);
    assert_eq!(ws_monitor_rect(50, 5, &rects), RIGHT);
    assert_eq!(ws_monitor_rect(0, 5, &vec![]), Rect::new(0, 0, 1920, 1080));
}

#[test]
fn nearest_left_edge_decides_the_monitor() {
    let rects = vec![LEFT, RIGHT];
    assert_eq!(find_monitor_idx(&rects, 0), 0);
    assert_eq!(find_monitor_idx(&rects, 1500), 1);
    // As near to both: the first one.
    assert_eq!(find_monitor_idx(&rects, 960), 0);
    assert_eq!(find_monitor_idx(&vec![], 77), 0);
}

#[test]
fn startup_windows_go_where_they_stand() {
    let mut manager = two_monitors();
    let infos = vec![info(1), info_at(2, Rect::new(2000, 0, 100, 100)), info(3)];
    assert!(manager.seed_is_ready(&infos));
    let steps = manager.seed(&infos);
    assert_eq!(ids(&manager, 0), vec![1, 3]);
    assert_eq!(ids(&manager, 5), vec![2]);
    assert_eq!(
        steps,
        vec![
            Step::Layout { ws: 0, area: LEFT },
            Step::Borders { ws: 0, focused: Some(w(1)) },
            Step::Layout { ws: 5, area: RIGHT },
            Step::Borders { ws: 5, focused: Some(w(2)) },
            Step::Broadcast,
        ]
    );
}

#[test]
fn empty_workspaces_are_not_laid_out_at_startup() {
    let mut manager = two_monitors();
    assert_eq!(manager.seed(&vec![]), vec![Step::Broadcast]);
    let bare = manager_with(config(), vec![]);
    assert!(bare.seed_is_ready(&vec![]));
    assert!(!bare.seed_is_ready(&vec![info(1)]));
}

#[test]
fn created_window_joins_the_workspace_shown_there() {
    let mut manager = two_monitors();
    let mut seen = facts();
    seen.window_area = RIGHT;
    let event = Event::WindowCreated(w(7));
    assert!(manager.event_is_ready(event, &seen, &vec![]));
    let steps = manager.handle(event, seen, &vec![]);
    assert_eq!(ids(&manager, 5), vec![7]);
    assert_eq!(
        steps,
        vec![
            Step::Layout { ws: 5, area: RIGHT },
            Step::Borders { ws: 5, focused: Some(w(7)) },
            Step::Broadcast,
        ]
    );
}

#[test]
fn monocle_keeps_the_focused_window_on_top_of_a_new_one() {
    let mut manager = two_monitors();
    manager.workspaces[0].layout = LayoutKind::Monocle;
    place(&mut manager, 0, &[1]);
    let steps = manager.handle(Event::WindowCreated(w(2)), facts(), &vec![]);
    assert_eq!(steps[2], Step::Do(Command::Raise { id: w(1) }));
}

#[test]
fn destroyed_window_leaves_every_workspace() {
    let mut manager = two_monitors();
    place(&mut manager, 0, &[1, 2]);
    place(&mut manager, 3, &[2]);
    manager.workspaces[0].focused = Some(w(2));
    manager.workspaces[0].enter_fullscreen(w(2), LEFT);
    let event = Event::WindowDestroyed(w(2));
    let steps = manager.handle(event, facts(), &vec![]);
    assert_eq!(ids(&manager, 0), vec![1]);
    assert_eq!(ids(&manager, 3), Vec::<u64>::new());
    assert_eq!(manager.workspaces[0].focused, Some(w(1)));
    assert!(!manager.workspaces[0].is_fullscreen(w(2)));
    assert_eq!(
        steps,
        vec![
            Step::Layout { ws: 0, area: LEFT },
            Step::Borders { ws: 0, focused: Some(w(1)) },
            Step::Layout { ws: 5, area: RIGHT },
            Step::Borders { ws: 5, focused: None },
            Step::Broadcast,
        ]
    );
}

#[test]
fn destruction_needs_an_area_for_every_monitor() {
    let mut manager = two_monitors();
    manager.monitor_rects = vec![LEFT];
    assert!(!manager.event_is_ready(Event::WindowDestroyed(w(1)), &facts(), &vec![]));
}

#[test]
fn focus_event_on_a_visible_window_moves_the_focus_there() {
    let mut manager = two_monitors();
    place(&mut manager, 0, &[1]);
    place(&mut manager, 5, &[2]);
    let steps = manager.handle(Event::WindowFocused(w(2)), facts(), &vec![]);
    assert_eq!(manager.focused_mon, 1);
    assert_eq!(manager.workspaces[0].focused, None);
    assert_eq!(manager.workspaces[5].focused, Some(w(2)));
    assert_eq!(
        steps,
        vec![
            Step::Borders { ws: 0, focused: None },
            Step::Borders { ws: 5, focused: Some(w(2)) },
            Step::Broadcast,
        ]
    );
}

#[test]
fn focus_event_on_a_hidden_window_switches_to_its_workspace() {
    let mut manager = two_monitors();
    place(&mut manager, 0, &[1]);
    place(&mut manager, 2, &[8, 9]);
    let event = Event::WindowFocused(w(9));
    assert!(manager.event_is_ready(event, &facts(), &vec![]));
    let steps = manager.handle(event, facts(), &vec![]);
    assert_eq!(manager.monitor_ws, vec![2, 5]);
    assert_eq!(manager.workspaces[2].focused, Some(w(9)));
    assert_eq!(
        steps,
        vec![
            Step::Do(Command::Show { id: w(8) }),
            Step::Do(Command::Show { id: w(9) }),
            Step::Layout { ws: 2, area: LEFT },
            Step::Borders { ws: 2, focused: Some(w(8)) },
            Step::Do(Command::Park { id: w(1) }),
            Step::Borders { ws: 2, focused: Some(w(9)) },
            Step::Borders { ws: 5, focused: None },
            Step::Do(Command::Focus { id: w(9) }),
            Step::Broadcast,
        ]
    );
}

#[test]
fn focus_event_on_a_stranger_does_nothing() {
    let mut manager = two_monitors();
    assert_eq!(manager.handle(Event::WindowFocused(w(99)), facts(), &vec![]), vec![]);
}

#[test]
fn focus_next_wraps_over_all_monitors() {
    let mut manager = two_monitors();
    place(&mut manager, 0, &[1, 2]);
    place(&mut manager, 5, &[3]);
    let infos = || vec![info(1), info(2), info(3)];
    act(&mut manager, Action::FocusNext, infos());
    assert_eq!(manager.workspaces[0].focused, Some(w(2)));
    let steps = act(&mut manager, Action::FocusNext, infos());
    assert_eq!(manager.focused_mon, 1);
    assert_eq!(manager.workspaces[0].focused, None);
    assert_eq!(manager.workspaces[5].focused, Some(w(3)));
    assert_eq!(steps.last(), Some(&Step::Do(Command::Focus { id: w(3) })));
    act(&mut manager, Action::FocusNext, infos());
    assert_eq!(manager.focused_mon, 0);
    assert_eq!(manager.workspaces[0].focused, Some(w(1)));
}

#[test]
fn focus_prev_undoes_focus_next() {
    let mut manager = two_monitors();
    place(&mut manager, 0, &[1, 2]);
    place(&mut manager, 5, &[3]);
    for forward in [true, false] {
        let (there, back) = if forward {
            (Action::FocusNext, Action::FocusPrev)
        } else {
            (Action::FocusPrev, Action::FocusNext)
        };
        act(&mut manager, there, vec![]);
        act(&mut manager, back, vec![]);
        assert_eq!(manager.focused_mon, 0);
        assert_eq!(manager.workspaces[0].focused, Some(w(1)));
    }
}

#[test]
fn focus_passes_over_minimised_windows() {
    let mut manager = two_monitors();
    place(&mut manager, 0, &[1, 2, 3]);
    let mut hidden = info(2);
    hidden.minimized = true;
    act(&mut manager, Action::FocusNext, vec![info(1), hidden, info(3)]);
    assert_eq!(manager.workspaces[0].focused, Some(w(3)));
}

#[test]
fn focus_without_windows_does_nothing() {
    let mut manager = two_monitors();
    assert_eq!(act(&mut manager, Action::FocusNext, vec![]), vec![]);
    assert_eq!(act(&mut manager, Action::FocusPrev, vec![]), vec![]);
}

#[test]
fn monocle_focus_raises_the_window() {
    let mut manager = manager_with(config(), vec![LEFT]);
    manager.workspaces[0].layout = LayoutKind::Monocle;
    place(&mut manager, 0, &[1, 2]);
    let steps = act(&mut manager, Action::FocusNext, vec![]);
    assert_eq!(
        steps,
        vec![
            Step::Borders { ws: 0, focused: Some(w(2)) },
            Step::Do(Command::Raise { id: w(2) }),
            Step::Do(Command::Focus { id: w(2) }),
        ]
    );
}

#[test]
fn move_next_exchanges_neighbours_and_move_prev_undoes_it() {
    let mut manager = two_monitors();
    place(&mut manager, 0, &[1, 2, 3]);
    let steps = act(&mut manager, Action::MoveNext, vec![]);
    assert_eq!(ids(&manager, 0), vec![2, 1, 3]);
    assert_eq!(
        steps,
        vec![
            Step::Layout { ws: 0, area: LEFT },
            Step::Borders { ws: 0, focused: Some(w(1)) },
        ]
    );
    act(&mut manager, Action::MovePrev, vec![]);
    assert_eq!(ids(&manager, 0), vec![1, 2, 3]);
}

#[test]
fn move_over_the_right_edge_enters_the_next_monitor_first() {
    let mut manager = two_monitors();
    place(&mut manager, 0, &[1, 2]);
    place(&mut manager, 5, &[3]);
    manager.workspaces[0].focused = Some(w(2));
    let steps = act(&mut manager, Action::MoveNext, vec![]);
    assert_eq!(ids(&manager, 0), vec![1]);
    assert_eq!(ids(&manager, 5), vec![2, 3]);
    assert_eq!(manager.focused_mon, 1);
    assert_eq!(
        steps,
        vec![
            Step::Layout { ws: 0, area: LEFT },
            Step::Layout { ws: 5, area: RIGHT },
            Step::Borders { ws: 0, focused: None },
            Step::Borders { ws: 5, focused: Some(w(2)) },
            Step::Do(Command::Focus { id: w(2) }),
        ]
    );
    // And back over the left edge, to the end of the workspace there.
    act(&mut manager, Action::MovePrev, vec![]);
    assert_eq!(ids(&manager, 0), vec![1, 2]);
    assert_eq!(ids(&manager, 5), vec![3]);
    assert_eq!(manager.focused_mon, 0);
}

#[test]
fn moves_are_eased_where_animations_are_on() {
    let mut animated = config();
    animated.animations.enabled = true;
    let mut manager = manager_with(animated, vec![LEFT, RIGHT]);
    place(&mut manager, 0, &[1, 2]);
    let steps = act(&mut manager, Action::MoveNext, vec![]);
    assert_eq!(steps[0], Step::AnimatedLayout { ws: 0, area: LEFT });
    let steps = act(&mut manager, Action::MoveNext, vec![]);
    assert_eq!(
        steps[0],
        Step::AnimatedPair { first: 0, first_area: LEFT, second: 5, second_area: RIGHT }
    );
    // The host system can switch animations off.
    let steps = manager.dispatch(Action::MoveNext, &vec![], false);
    assert_eq!(steps[0], Step::Layout { ws: 5, area: RIGHT });
}

#[test]
fn move_at_the_outer_edge_goes_around() {
    let mut manager = manager_with(config(), vec![LEFT]);
    place(&mut manager, 0, &[1, 2, 3]);
    act(&mut manager, Action::MovePrev, vec![]);
    assert_eq!(ids(&manager, 0), vec![3, 2, 1]);
}

#[test]
fn kill_closes_the_focused_window() {
    let mut manager = two_monitors();
    assert_eq!(act(&mut manager, Action::KillFocused, vec![]), vec![]);
    place(&mut manager, 0, &[4]);
    assert_eq!(
        act(&mut manager, Action::KillFocused, vec![]),
        vec![Step::Do(Command::Close { id: w(4) })]
    );
}

#[test]
fn float_is_toggled_by_what_the_window_is() {
    let mut manager = two_monitors();
    place(&mut manager, 0, &[4]);
    let steps = act(&mut manager, Action::ToggleFloat, vec![info(4)]);
    assert_eq!(
        steps,
        vec![
            Step::Do(Command::SetFloating { id: w(4), floating: true }),
            Step::Layout { ws: 0, area: LEFT },
            Step::Borders { ws: 0, focused: Some(w(4)) },
            Step::Broadcast,
        ]
    );
    let mut floating = info(4);
    floating.floating = true;
    let steps = act(&mut manager, Action::ToggleFloat, vec![floating]);
    assert_eq!(steps[0], Step::Do(Command::SetFloating { id: w(4), floating: false }));
}

#[test]
fn fullscreen_is_entered_and_left() {
    let mut manager = two_monitors();
    place(&mut manager, 0, &[4]);
    let steps = act(&mut manager, Action::ToggleFullscreen, vec![info(4)]);
    assert!(manager.workspaces[0].is_fullscreen(w(4)));
    assert_eq!(
        steps,
        vec![
            Step::Do(Command::SetTopmost { id: w(4), topmost: true }),
            Step::Do(Command::EnterFullscreen { id: w(4), rect: LEFT }),
            Step::Borders { ws: 0, focused: Some(w(4)) },
            Step::Broadcast,
        ]
    );
    let steps = act(&mut manager, Action::ToggleFullscreen, vec![info(4)]);
    assert!(!manager.workspaces[0].is_fullscreen(w(4)));
    assert_eq!(
        steps,
        vec![
            Step::Do(Command::SetTopmost { id: w(4), topmost: false }),
            Step::Layout { ws: 0, area: LEFT },
            Step::Borders { ws: 0, focused: Some(w(4)) },
            Step::Broadcast,
        ]
    );
}

#[test]
fn windows_without_a_tile_go_back_to_where_they_were() {
    let before = Rect::new(100, 100, 400, 300);
    let put_back = Step::Do(Command::SetGeometry { id: w(4), rect: before });
    // A floating window on a tiling workspace.
    let mut manager = two_monitors();
    place(&mut manager, 0, &[4]);
    let floating = |geometry: Rect| WindowInfo { floating: true, ..info_at(4, geometry) };
    act(&mut manager, Action::ToggleFullscreen, vec![floating(before)]);
    let steps = act(&mut manager, Action::ToggleFullscreen, vec![floating(LEFT)]);
    assert_eq!(
        steps,
        vec![
            Step::Do(Command::SetTopmost { id: w(4), topmost: true }),
            put_back,
            Step::Layout { ws: 0, area: LEFT },
            Step::Borders { ws: 0, focused: Some(w(4)) },
            Step::Broadcast,
        ]
    );
    // Any window where the layout has no tiles.
    for layout in [LayoutKind::Float, LayoutKind::Columns { count: 0 }] {
        let mut manager = two_monitors();
        place(&mut manager, 0, &[4]);
        manager.workspaces[0].layout = layout;
        act(&mut manager, Action::ToggleFullscreen, vec![info_at(4, before)]);
        let steps = act(&mut manager, Action::ToggleFullscreen, vec![info_at(4, LEFT)]);
        assert_eq!(steps[0], Step::Do(Command::SetTopmost { id: w(4), topmost: false }));
        assert_eq!(steps[1], put_back);
    }
    // A window that is gone is not moved.
    let mut manager = two_monitors();
    place(&mut manager, 0, &[4]);
    act(&mut manager, Action::ToggleFullscreen, vec![floating(before)]);
    let steps = act(&mut manager, Action::ToggleFullscreen, vec![]);
    assert!(!steps.contains(&put_back));
}

#[test]
fn fullscreen_slides_where_animations_are_on() {
    let mut animated = config();
    animated.animations.enabled = true;
    let mut manager = manager_with(animated, vec![LEFT]);
    place(&mut manager, 0, &[4]);
    let steps = act(&mut manager, Action::ToggleFullscreen, vec![info(4)]);
    assert_eq!(
        steps[1],
        Step::Slide { id: w(4), from: Rect::new(100, 100, 400, 300), to: LEFT }
    );
    // Nothing to fullscreen: the bar is told all the same.
    let mut empty = manager_with(config(), vec![LEFT]);
    assert_eq!(act(&mut empty, Action::ToggleFullscreen, vec![]), vec![Step::Broadcast]);
}

#[test]
fn set_layout_applies_to_the_current_workspace() {
    let mut manager = two_monitors();
    place(&mut manager, 0, &[4]);
    let steps = act(&mut manager, Action::SetLayout(LayoutKind::Monocle), vec![]);
    assert_eq!(manager.workspaces[0].layout, LayoutKind::Monocle);
    assert_eq!(manager.workspaces[5].layout, LayoutKind::Fibonacci);
    assert_eq!(
        steps,
        vec![
            Step::Layout { ws: 0, area: LEFT },
            Step::Borders { ws: 0, focused: Some(w(4)) },
            Step::Do(Command::Raise { id: w(4) }),
            Step::Broadcast,
        ]
    );
}

#[test]
fn switch_shows_a_workspace_on_its_own_monitor() {
    let mut manager = two_monitors();
    place(&mut manager, 0, &[1]);
    place(&mut manager, 5, &[2]);
    place(&mut manager, 6, &[3]);
    let steps = act(&mut manager, Action::SwitchWorkspace(7), vec![]);
    assert_eq!(manager.monitor_ws, vec![0, 6]);
    assert_eq!(manager.focused_mon, 1);
    assert_eq!(
        steps,
        vec![
            Step::Do(Command::Show { id: w(3) }),
            Step::Layout { ws: 6, area: RIGHT },
            Step::Borders { ws: 6, focused: Some(w(3)) },
            Step::Do(Command::Park { id: w(2) }),
            Step::SettleFocus { ws: 6 },
        ]
    );
    let steps = manager.settle_focus(6, &vec![info(3)]);
    assert_eq!(manager.workspaces[0].focused, None);
    assert_eq!(
        steps,
        vec![
            Step::Borders { ws: 0, focused: None },
            Step::Borders { ws: 6, focused: Some(w(3)) },
            Step::Do(Command::Focus { id: w(3) }),
            Step::Broadcast,
        ]
    );
    // Switching back shows what was there before.
    act(&mut manager, Action::SwitchWorkspace(6), vec![]);
    assert_eq!(manager.monitor_ws, vec![0, 5]);
}

#[test]
fn switch_fades_where_animations_are_on() {
    let mut animated = config();
    animated.animations.enabled = true;
    animated.taskbar_mode = TaskbarMode::Local;
    let mut manager = manager_with(animated, vec![LEFT]);
    place(&mut manager, 0, &[1]);
    place(&mut manager, 1, &[2]);
    let steps = act(&mut manager, Action::SwitchWorkspace(2), vec![]);
    assert_eq!(
        steps,
        vec![
            Step::Do(Command::SetAlpha { id: w(2), alpha: 0 }),
            Step::Do(Command::Show { id: w(2) }),
            Step::Layout { ws: 1, area: LEFT },
            Step::Borders { ws: 1, focused: Some(w(2)) },
            Step::Crossfade { outgoing: 0, incoming: 1 },
            Step::Do(Command::Hide { id: w(1) }),
            Step::Do(Command::ClearAlpha { id: w(1) }),
            Step::Do(Command::ClearAlpha { id: w(2) }),
            Step::SettleFocus { ws: 1 },
        ]
    );
}

#[test]
fn switch_to_what_is_shown_or_missing_does_nothing() {
    let mut manager = two_monitors();
    assert_eq!(act(&mut manager, Action::SwitchWorkspace(1), vec![]), vec![]);
    assert_eq!(act(&mut manager, Action::SwitchWorkspace(6), vec![]), vec![]);
    assert_eq!(act(&mut manager, Action::SwitchWorkspace(10), vec![]), vec![]);
    assert_eq!(manager.monitor_ws, vec![0, 5]);
}

#[test]
fn settling_picks_the_first_window_that_is_not_minimised() {
    let mut manager = two_monitors();
    place(&mut manager, 0, &[1, 2]);
    manager.workspaces[0].focused = None;
    let mut hidden = info(1);
    hidden.minimized = true;
    manager.settle_focus(0, &vec![hidden, info(2)]);
    assert_eq!(manager.workspaces[0].focused, Some(w(2)));

    let mut empty = two_monitors();
    assert_eq!(empty.settle_focus(0, &vec![]), vec![Step::Broadcast]);
}

#[test]
fn sent_window_goes_to_a_visible_workspace() {
    let mut manager = two_monitors();
    place(&mut manager, 0, &[1, 2]);
    let steps = act(&mut manager, Action::MoveFocusedToWorkspace(6), vec![]);
    assert_eq!(ids(&manager, 0), vec![2]);
    assert_eq!(ids(&manager, 5), vec![1]);
    assert_eq!(manager.monitor_ws, vec![0, 5]);
    assert_eq!(
        steps,
        vec![
            Step::Layout { ws: 0, area: LEFT },
            Step::Borders { ws: 0, focused: Some(w(2)) },
            Step::Layout { ws: 5, area: RIGHT },
            Step::Borders { ws: 5, focused: Some(w(1)) },
            Step::Broadcast,
        ]
    );
}

#[test]
fn sent_window_leaves_the_screen_with_a_hidden_workspace() {
    let mut manager = two_monitors();
    place(&mut manager, 0, &[1]);
    manager.workspaces[0].enter_fullscreen(w(1), LEFT);
    let steps = act(&mut manager, Action::MoveFocusedToWorkspace(2), vec![]);
    assert_eq!(ids(&manager, 1), vec![1]);
    assert!(!manager.workspaces[0].is_fullscreen(w(1)));
    assert_eq!(
        steps,
        vec![
            Step::Do(Command::Park { id: w(1) }),
            Step::Layout { ws: 0, area: LEFT },
            Step::Borders { ws: 0, focused: None },
            Step::Broadcast,
        ]
    );

    let mut local = config();
    local.taskbar_mode = TaskbarMode::Local;
    let mut manager = manager_with(local, vec![LEFT]);
    place(&mut manager, 0, &[1]);
    let steps = act(&mut manager, Action::MoveFocusedToWorkspace(2), vec![]);
    assert_eq!(steps[0], Step::Do(Command::Hide { id: w(1) }));
    assert_eq!(steps[1], Step::Do(Command::HideBorder { id: w(1) }));
}

#[test]
fn sending_nowhere_does_nothing() {
    let mut manager = two_monitors();
    assert_eq!(act(&mut manager, Action::MoveFocusedToWorkspace(2), vec![]), vec![]);
    place(&mut manager, 0, &[1]);
    assert_eq!(act(&mut manager, Action::MoveFocusedToWorkspace(1), vec![]), vec![]);
    assert_eq!(act(&mut manager, Action::MoveFocusedToWorkspace(10), vec![]), vec![]);
    assert_eq!(ids(&manager, 0), vec![1]);
}

#[test]
fn quitting_shows_all_windows_first() {
    let mut manager = two_monitors();
    let expected = vec![
        Step::Do(Command::Show { id: w(1) }),
        Step::Do(Command::Show { id: w(2) }),
        Step::Exit,
    ];
    assert_eq!(act(&mut manager, Action::Quit, vec![info(1), info(2)]), expected);
    assert_eq!(manager.handle(Event::Quit, facts(), &vec![info(1), info(2)]), expected);
}

#[test]
fn reload_takes_over_settings_and_keeps_windows() {
    let mut manager = two_monitors();
    place(&mut manager, 0, &[1]);
    place(&mut manager, 1, &[2]);
    assert_eq!(act(&mut manager, Action::ReloadConfig, vec![]), vec![Step::ReloadConfig]);
    let mut changed = Config::default();
    changed.gap = 20;
    changed.taskbar_mode = TaskbarMode::Local;
    let bindings = BindingMap::from_config(&[]).unwrap();
    assert!(manager.reload_is_ready(&changed));
    let steps = manager.reload(changed, bindings);
    assert_eq!(manager.config.gap, 20);
    assert!(manager.bindings.is_empty());
    assert_eq!(ids(&manager, 0), vec![1]);
    assert_eq!(ids(&manager, 1), vec![2]);
    assert_eq!(manager.monitor_ws, vec![0, 5]);
    assert_eq!(
        steps,
        vec![
            Step::Do(Command::Show { id: w(1) }),
            Step::Do(Command::Hide { id: w(2) }),
            Step::Layout { ws: 0, area: LEFT },
            Step::Borders { ws: 0, focused: Some(w(1)) },
            Step::Layout { ws: 5, area: RIGHT },
            Step::Borders { ws: 5, focused: None },
            Step::SettleFocus { ws: 0 },
        ]
    );
}

fn with_workspaces(names: &[&str]) -> Config {
    let mut config = Config::default();
    config.workspaces =
        names.iter().map(|n| WorkspaceConfig { name: n.to_string() }).collect();
    config
}

fn reload(manager: &mut Manager, config: Config) -> Vec<Step> {
    assert!(manager.reload_is_ready(&config));
    manager.reload(config, BindingMap::from_config(&[]).unwrap())
}

fn names(manager: &Manager) -> Vec<&str> {
    manager.workspaces.iter().map(|ws| ws.name.as_str()).collect()
}

#[test]
fn reload_renames_and_adds_workspaces() {
    let mut manager = two_monitors();
    let mut config = with_workspaces(&["web", "code", "chat", "4", "5", "6", "7", "8", "9", "10", "11"]);
    config.default_layout = LayoutKind::Bsp;
    place(&mut manager, 0, &[1]);
    manager.workspaces[1].layout = LayoutKind::Monocle;
    reload(&mut manager, config);
    assert_eq!(
        names(&manager),
        ["web", "code", "chat", "4", "5", "6", "7", "8", "9", "10", "11"]
    );
    assert!(manager.workspaces.iter().all(|ws| ws.layout == LayoutKind::Bsp));
    assert!(ids(&manager, 10).is_empty());
    assert_eq!(ids(&manager, 0), vec![1]);
    // Eleven workspaces make shares of six.
    assert_eq!(manager.ws_per_mon, 6);
    assert_eq!(manager.monitor_ws, vec![0, 6]);
    // The second time nothing changes.
    manager.workspaces[1].layout = LayoutKind::Monocle;
    let mut again = with_workspaces(&["web", "code", "chat", "4", "5", "6", "7", "8", "9", "10", "11"]);
    again.default_layout = LayoutKind::Bsp;
    reload(&mut manager, again);
    assert_eq!(manager.monitor_ws, vec![0, 6]);
    assert_eq!(manager.workspaces[1].layout, LayoutKind::Monocle);
}

#[test]
fn reload_gathers_the_windows_of_workspaces_given_up() {
    let mut manager = two_monitors();
    place(&mut manager, 0, &[1]);
    place(&mut manager, 2, &[2]);
    place(&mut manager, 5, &[3, 4]);
    manager.workspaces[5].enter_fullscreen(w(4), LEFT);
    place(&mut manager, 8, &[5]);
    manager.focused_mon = 1;
    let steps = reload(&mut manager, with_workspaces(&["a", "b", "c"]));
    assert_eq!(names(&manager), ["a", "b", "c"]);
    assert_eq!(ids(&manager, 0), vec![1]);
    assert_eq!(ids(&manager, 2), vec![2, 3, 4, 5]);
    assert!(manager.workspaces[2].is_fullscreen(w(4)));
    assert_eq!(manager.workspaces[2].focused, Some(w(2)));
    assert_eq!((manager.ws_per_mon, manager.focused_mon), (2, 1));
    assert_eq!(manager.monitor_ws, vec![0, 2]);
    for id in 1..=5 {
        assert!(steps.contains(&Step::Do(Command::Show { id: w(id) })));
    }
    assert_eq!(steps.last(), Some(&Step::SettleFocus { ws: 2 }));
    assert!(!manager.reload_is_ready(&with_workspaces(&[])));
}

#[test]
fn keybinding_event_performs_its_action() {
    let mut manager = two_monitors();
    place(&mut manager, 0, &[1]);
    let position = manager
        .config
        .keybindings
        .iter()
        .position(|kb| kb.action == "kill_focused")
        .unwrap();
    let event = Event::Keybinding(KeybindingId(position as u32));
    assert_eq!(
        manager.handle(event, facts(), &vec![]),
        vec![Step::Do(Command::Close { id: w(1) })]
    );
    let missing = Event::Keybinding(KeybindingId(1000));
    assert_eq!(manager.handle(missing, facts(), &vec![]), vec![]);
}

#[test]
fn dragging_to_another_monitor_migrates_the_window() {
    let mut manager = two_monitors();
    place(&mut manager, 0, &[1, 2]);
    let infos = vec![info_at(1, Rect::new(1800, 50, 400, 300)), info(2)];
    let event = Event::WindowMoved { id: w(1) };
    assert!(manager.event_is_ready(event, &facts(), &infos));
    let steps = manager.handle(event, facts(), &infos);
    assert_eq!(ids(&manager, 0), vec![2]);
    assert_eq!(ids(&manager, 5), vec![1]);
    assert_eq!(
        steps,
        vec![
            Step::Layout { ws: 0, area: LEFT },
            Step::Borders { ws: 0, focused: Some(w(2)) },
            Step::Layout { ws: 5, area: RIGHT },
            Step::Borders { ws: 5, focused: Some(w(1)) },
        ]
    );
}

#[test]
fn dragging_on_the_same_monitor_exchanges_the_nearest_tiles() {
    let mut manager = two_monitors();
    place(&mut manager, 0, &[1, 2, 3]);
    let infos = vec![
        info_at(1, Rect::new(500, 500, 100, 100)),
        info_at(2, Rect::new(0, 0, 100, 100)),
        info_at(3, Rect::new(600, 600, 100, 100)),
    ];
    let event = Event::WindowMoved { id: w(1) };
    let steps = manager.handle(event, facts(), &infos);
    assert_eq!(ids(&manager, 0), vec![3, 2, 1]);
    assert_eq!(
        steps,
        vec![
            Step::Layout { ws: 0, area: LEFT },
            Step::Borders { ws: 0, focused: Some(w(1)) },
        ]
    );
}

#[test]
fn floating_windows_are_dragged_freely() {
    let mut manager = two_monitors();
    place(&mut manager, 0, &[1, 2]);
    let mut floating = info_at(1, Rect::new(1800, 50, 400, 300));
    floating.floating = true;
    let infos = vec![floating, info(2)];
    assert_eq!(manager.handle(Event::WindowMoved { id: w(1) }, facts(), &infos), vec![]);
    assert_eq!(ids(&manager, 0), vec![1, 2]);
}

#[test]
fn drags_that_cannot_be_measured_are_not_ready() {
    let mut manager = two_monitors();
    place(&mut manager, 0, &[1, 2]);
    let infos = vec![info_at(1, Rect::new(0, i32::MAX, 400, 300)), info(2)];
    assert!(!manager.event_is_ready(Event::WindowMoved { id: w(1) }, &facts(), &infos));
    let far = vec![
        info_at(1, Rect::new(0, i32::MAX - 10, 2, 2)),
        info_at(2, Rect::new(0, i32::MIN, 2, 2)),
    ];
    assert!(!manager.event_is_ready(Event::WindowMoved { id: w(1) }, &facts(), &far));
}

#[test]
fn minimising_lays_out_and_resizing_only_repaints() {
    let mut manager = two_monitors();
    place(&mut manager, 5, &[2]);
    assert_eq!(
        manager.handle(Event::WindowMinimizeChanged { id: w(2) }, facts(), &vec![]),
        vec![
            Step::Layout { ws: 5, area: RIGHT },
            Step::Borders { ws: 5, focused: Some(w(2)) },
        ]
    );
    for event in [
        Event::WindowResized { id: w(2) },
        Event::WindowSizeChanged { id: w(2) },
    ] {
        assert_eq!(
            manager.handle(event, facts(), &vec![]),
            vec![Step::Borders { ws: 5, focused: Some(w(2)) }]
        );
    }
    assert_eq!(manager.handle(Event::WindowResized { id: w(9) }, facts(), &vec![]), vec![]);
}

#[test]
fn changed_work_areas_are_used_at_once() {
    let mut manager = two_monitors();
    let lower = Rect::new(0, 40, 1920, 1040);
    let mut seen = facts();
    seen.monitor_rects = vec![lower, RIGHT];
    assert!(manager.event_is_ready(Event::WorkAreaChanged, &seen, &vec![]));
    let steps = manager.handle(Event::WorkAreaChanged, seen, &vec![]);
    assert_eq!(manager.monitor_rects, vec![lower, RIGHT]);
    assert_eq!(steps[0], Step::Layout { ws: 0, area: lower });
    assert_eq!(steps.last(), Some(&Step::Broadcast));
    let mut fewer = facts();
    fewer.monitor_rects = vec![LEFT];
    assert!(!manager.event_is_ready(Event::WorkAreaChanged, &fewer, &vec![]));
}
