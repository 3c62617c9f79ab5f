use stm15::action::{execute_action, finish_health_check};
use stm15::app::{up_to_quit, Action, App, AppMode};
use stm15::config::TunnelConfig;
use stm15::form::FormScreen;
use stm15::key::{KeyCode, KeyEvent, KeyKind};
use stm15::manager::{Command, TunnelManager};
use stm15::picker::{ConfirmScreen, PickerScreen};
use stm15::run_loop::{LoopEvent, RunLoop};
use stm15::tunnel::TunnelStatus;

fn config(name: &str, enabled: bool) -> TunnelConfig {
    TunnelConfig {
        name: name.to_string(),
        tunnel_type: "local".to_string(),
        local_port: 1000,
        ssh_host: "gate".to_string(),
        ssh_port: 22,
        ssh_user: String::new(),
        ssh_key: String::new(),
        remote_host: "localhost".to_string(),
        remote_port: 80,
        enabled,
    }
}

fn two() -> TunnelManager {
    TunnelManager::new(Some(vec![config("a", true), config("b", false)]))
}

fn key(code: KeyCode) -> KeyEvent {
    KeyEvent { code, kind: KeyKind::Press, control: false, other_modifiers: false }
}

fn ch(c: char) -> KeyEvent {
    key(KeyCode::Char(c))
}

fn control(c: char) -> KeyEvent {
    KeyEvent { control: true, ..ch(c) }
}

fn press(app: &mut App, m: &TunnelManager, k: KeyEvent) {
    assert!(app.accepts_key(k));
    app.handle_key(k, m, "Host one\n", 7);
}

fn actions(app: &mut App) -> String {
    format!("{:?}", app.take_actions())
}

fn told(app: &App) -> &str {
    match &app.notification {
        Some((message, _)) => message.as_str(),
        None => "",
    }
}

fn names(m: &TunnelManager) -> Vec<String> {
    m.tunnels.iter().map(|t| t.config.name.clone()).collect()
}

#[test]
fn an_application_starts_with_its_first_row() {
    let mut app = App::new();
    assert_eq!(app.row, Some(0));
    assert!(matches!(app.mode, AppMode::Normal));
    assert!(app.take_actions().is_empty());
    assert_eq!(app.editing_index, None);
    assert_eq!(app.selected(&two()), Some(0));
    assert_eq!(app.selected(&TunnelManager::new(None)), None);
    app.set_row(Some(2));
    assert_eq!(app.selected(&two()), None);
    app.set_row(None);
    assert_eq!(app.selected(&two()), None);
}

#[test]
fn the_selection_moves_in_a_circle() {
    let m = two();
    let mut app = App::new();
    for (k, row) in [
        (ch('j'), 1),
        (ch('j'), 0),
        (key(KeyCode::Up), 1),
        (ch('k'), 0),
        (key(KeyCode::Down), 1),
    ] {
        press(&mut app, &m, k);
        assert_eq!(app.row, Some(row));
    }
    app.set_row(None);
    press(&mut app, &m, ch('j'));
    assert_eq!(app.row, Some(1));
    app.set_row(Some(usize::MAX - 1));
    press(&mut app, &m, ch('j'));
    assert_eq!(app.row, Some(0));
    let none = TunnelManager::new(None);
    press(&mut app, &none, ch('k'));
    assert_eq!(app.row, Some(0));
}

#[test]
fn keys_ask_for_actions_on_the_selected_tunnel() {
    let m = two();
    let mut app = App::new();
    app.set_row(Some(1));
    for (k, action, message) in [
        (ch('s'), "[Start(1)]", "Starting tunnel..."),
        (ch('K'), "[Stop(1)]", "Stopping tunnel..."),
        (ch('r'), "[Restart(1)]", "Restarting tunnel..."),
        (ch('h'), "[HealthCheck]", "Running health check..."),
        (control('A'), "[StartAll]", "Starting all enabled tunnels..."),
        (control('X'), "[StopAll]", "Stopping all tunnels..."),
    ] {
        press(&mut app, &m, k);
        assert_eq!(actions(&mut app), action);
        assert_eq!(told(&app), message);
    }
    press(&mut app, &m, ch('q'));
    let quit = app.take_actions();
    assert!(quit[0].is_quit());
    assert!(!Action::StopAll.is_quit());
    app.notification = None;
    for k in [ch('A'), ch('X'), ch('x'), key(KeyCode::Enter), key(KeyCode::Esc)] {
        press(&mut app, &m, k);
        assert_eq!(actions(&mut app), "[]");
        assert_eq!(told(&app), "");
    }
}

#[test]
fn without_a_selection_nothing_is_asked_for() {
    let m = TunnelManager::new(None);
    let mut app = App::new();
    for c in ['s', 'K', 'r', 'e', 'd'] {
        press(&mut app, &m, ch(c));
        assert_eq!(actions(&mut app), "[]");
        assert_eq!(told(&app), "");
        assert_eq!(app.editing_index, None);
    }
}

#[test]
fn actions_are_taken_in_their_order_and_once() {
    let m = two();
    let mut app = App::new();
    press(&mut app, &m, ch('s'));
    press(&mut app, &m, ch('h'));
    press(&mut app, &m, ch('q'));
    assert_eq!(actions(&mut app), "[Start(0), HealthCheck, Quit]");
    assert_eq!(actions(&mut app), "[]");
}

#[test]
fn keys_of_the_list_prepare_what_is_to_be_opened() {
    let m = two();
    let mut app = App::new();
    app.handle_normal(ch('a'), &m, "", 1);
    assert!(matches!(&app.mode, AppMode::Form(f) if f.title == "Add Tunnel"));
    let mut app = App::new();
    app.handle_normal(ch('e'), &m, "", 1);
    assert!(matches!(&app.mode, AppMode::Form(f) if f.fields[0].input.buffer == "a"));
    assert_eq!(app.editing_index, Some(0));
    let mut app = App::new();
    app.handle_normal(ch('d'), &m, "", 1);
    assert!(matches!(&app.mode, AppMode::Confirm(c) if c.message == "Delete tunnel 'a'?"));
    let mut app = App::new();
    app.handle_normal(ch('i'), &m, "Host one two\n", 1);
    assert!(matches!(&app.mode, AppMode::Picker(p) if p.items.len() == 2));
    let mut app = App::new();
    app.handle_normal(ch('i'), &m, "", 1);
    assert!(matches!(app.mode, AppMode::Normal));
    assert_eq!(told(&app), "No hosts in ~/.ssh/config");
}

#[test]
fn a_key_other_than_esc_leaves_open_what_is_open() {
    let m = two();
    let mut app = App::new();
    for c in ['a', 'i', 'e', 'd'] {
        press(&mut app, &m, ch(c));
        assert!(matches!(app.mode, AppMode::Normal));
    }
    assert_eq!(app.editing_index, Some(0));
    app.mode = AppMode::Confirm(ConfirmScreen::new("?"));
    for c in ['y', 'n', 'x'] {
        press(&mut app, &m, ch(c));
        assert!(matches!(&app.mode, AppMode::Confirm(c) if c.message == "?"));
    }
    app.mode = AppMode::Picker(PickerScreen::from_ssh_config("Host one two\n"));
    press(&mut app, &m, ch('j'));
    press(&mut app, &m, key(KeyCode::Enter));
    assert!(matches!(&app.mode, AppMode::Picker(p) if p.selected == 1));
    app.mode = AppMode::Form(FormScreen::new_add());
    press(&mut app, &m, ch('q'));
    press(&mut app, &m, key(KeyCode::Enter));
    assert!(matches!(&app.mode, AppMode::Form(f) if f.fields[0].input.buffer == "q"));
}

#[test]
fn esc_closes_what_is_open_and_nothing_else() {
    let m = two();
    let mut app = App::new();
    app.editing_index = Some(1);
    for mode in [
        AppMode::Form(FormScreen::new_add()),
        AppMode::Confirm(ConfirmScreen::new("?")),
        AppMode::Picker(PickerScreen::from_ssh_config("Host one\n")),
        AppMode::Normal,
    ] {
        app.mode = mode;
        press(&mut app, &m, key(KeyCode::Esc));
        assert!(matches!(app.mode, AppMode::Normal));
        assert_eq!(actions(&mut app), "[]");
        assert_eq!(app.editing_index, Some(1));
    }
}

#[test]
fn the_ssh_configuration_is_read_for_one_key() {
    let mut app = App::new();
    assert!(app.wants_ssh_config(ch('i')));
    assert!(!app.wants_ssh_config(ch('a')));
    app.mode = AppMode::Form(FormScreen::new_add());
    assert!(!app.wants_ssh_config(ch('i')));
}

#[test]
fn keys_of_the_form() {
    let mut app = App::new();
    let mut form = FormScreen::new_add();
    for k in [ch('a'), ch('b'), key(KeyCode::Left), ch('c'), key(KeyCode::Home), ch('d')] {
        app.handle_form(k, &mut form, 1);
    }
    assert_eq!(form.fields[0].input.buffer, "dacb");
    for k in [key(KeyCode::Delete), key(KeyCode::End), key(KeyCode::Backspace)] {
        app.handle_form(k, &mut form, 1);
    }
    assert_eq!(form.fields[0].input.buffer, "dc");
    app.handle_form(key(KeyCode::Left), &mut form, 1);
    app.handle_form(key(KeyCode::Right), &mut form, 1);
    assert_eq!(form.fields[0].input.cursor, 2);
    app.handle_form(ch(' '), &mut form, 1);
    assert_eq!(form.fields[0].input.buffer, "dc");
    app.handle_form(key(KeyCode::Tab), &mut form, 1);
    app.handle_form(ch(' '), &mut form, 1);
    assert_eq!(form.fields[1].input.buffer, "remote");
    app.handle_form(key(KeyCode::Down), &mut form, 1);
    assert_eq!(form.active, 2);
    app.handle_form(key(KeyCode::BackTab), &mut form, 1);
    app.handle_form(key(KeyCode::Up), &mut form, 1);
    assert_eq!(form.active, 0);
    app.handle_form(key(KeyCode::Other), &mut form, 1);
    assert_eq!(actions(&mut app), "[]");
}

#[test]
fn a_form_is_saved() {
    let m = two();
    let mut app = App::new();
    let mut form = FormScreen::new_add();
    app.handle_form(key(KeyCode::Enter), &mut form, 1);
    assert_eq!(told(&app), "Name is required");
    assert_eq!(actions(&mut app), "[]");
    app.handle_form(ch('x'), &mut form, 1);
    app.handle_form(key(KeyCode::Enter), &mut form, 1);
    let added = app.take_actions();
    assert!(matches!(&added[0], Action::AddTunnel(c) if c.name == "x" && c.enabled));
    app.handle_normal(ch('e'), &m, "", 1);
    let mut form = FormScreen::new_edit(&m.tunnels[0].config);
    app.handle_form(key(KeyCode::Enter), &mut form, 1);
    let edited = app.take_actions();
    assert_eq!(
        format!("{:?}", edited),
        format!("{:?}", vec![Action::EditTunnel(0, config("a", true))])
    );
    assert_eq!(app.editing_index, None);
    assert!(matches!(app.mode, AppMode::Normal));
}

#[test]
fn a_form_refuses_keys_that_would_cut_a_character() {
    let mut app = App::new();
    app.mode = AppMode::Form(FormScreen::new_edit(&config("é", true)));
    assert!(app.accepts_key(ch('x')));
    assert!(!app.accepts_key(key(KeyCode::Backspace)));
    press(&mut app, &two(), key(KeyCode::Left));
    assert!(!app.accepts_key(ch('x')));
    assert!(app.accepts_key(ch(' ')));
    assert!(!app.accepts_key(key(KeyCode::Delete)));
    assert!(app.accepts_key(key(KeyCode::Backspace)));
}

#[test]
fn a_deletion_is_confirmed() {
    let m = two();
    for (c, action) in [
        ('y', "[DeleteTunnel(1)]"),
        ('Y', "[DeleteTunnel(1)]"),
        ('n', "[]"),
        ('N', "[]"),
    ] {
        let mut app = App::new();
        app.set_row(Some(1));
        app.mode = AppMode::Confirm(ConfirmScreen::new("?"));
        app.handle_confirm(ch(c), &m);
        assert_eq!(actions(&mut app), action);
        assert!(matches!(app.mode, AppMode::Normal));
    }
    let mut app = App::new();
    app.mode = AppMode::Confirm(ConfirmScreen::new("?"));
    app.handle_confirm(ch('x'), &m);
    assert!(matches!(app.mode, AppMode::Confirm(_)));
}

#[test]
fn a_host_is_taken_over_into_a_form() {
    let text = "Host one\n  HostName h\n  User me\n  IdentityFile ~/.ssh/k\n  Port 2200\n";
    let mut picker = PickerScreen::from_ssh_config(text);
    let mut app = App::new();
    app.handle_picker(key(KeyCode::Enter), &mut picker);
    match &app.mode {
        AppMode::Form(form) => {
            assert_eq!(form.title, "Edit Tunnel");
            let c = form.to_config().unwrap();
            assert_eq!(c.name, "one");
            assert_eq!(c.ssh_host, "h");
            assert_eq!(c.ssh_user, "me");
            assert_eq!(c.ssh_key, "~/.ssh/k");
            assert_eq!(c.ssh_port, 2200);
            assert_eq!(c.remote_host, "localhost");
        },
        _ => panic!("no form"),
    }
    assert_eq!(app.editing_index, None);
    let mut none = PickerScreen::from_ssh_config("");
    let mut app = App::new();
    app.handle_picker(key(KeyCode::Enter), &mut none);
    assert!(matches!(app.mode, AppMode::Normal));
}

#[test]
fn notifications_are_taken_back_after_five_seconds() {
    let mut app = App::new();
    app.notify("x", 1_000);
    app.clear_notification(5_000_001_000);
    assert_eq!(told(&app), "x");
    app.clear_notification(0);
    assert_eq!(told(&app), "x");
    app.clear_notification(5_000_001_001);
    assert_eq!(app.notification, None);
    app.clear_notification(9);
    assert_eq!(app.notification, None);
}

#[test]
fn control_c_interrupts() {
    assert!(control('c').is_interrupt());
    assert!(!control('c').is_handled());
    assert!(!ch('c').is_interrupt());
    assert!(!KeyEvent { other_modifiers: true, ..control('c') }.is_interrupt());
    assert!(KeyEvent { kind: KeyKind::Repeat, ..control('c') }.is_interrupt());
    let released = KeyEvent { kind: KeyKind::Release, ..control('c') };
    assert!(!released.is_interrupt());
    assert!(!released.is_handled());
    assert!(ch('x').is_handled());
    assert!(KeyEvent { kind: KeyKind::Repeat, ..ch('x') }.is_handled());
}

#[test]
fn each_action_is_carried_out() {
    let mut m = two();
    let mut app = App::new();
    let mut run = |action, m: &mut TunnelManager| {
        let commands = execute_action(action, m, &mut app, 3);
        (commands, told(&app).to_string())
    };
    assert_eq!(
        run(Action::Start(1), &mut m),
        (vec![Command::Spawn { index: 1, task: 0 }], "Started: b".to_string())
    );
    assert_eq!(
        run(Action::Restart(1), &mut m),
        (
            vec![Command::Abort { task: 0 }, Command::Spawn { index: 1, task: 1 }],
            "Restarted: b".to_string()
        )
    );
    assert_eq!(
        run(Action::Stop(1), &mut m),
        (vec![Command::Abort { task: 1 }], "Stopped: b".to_string())
    );
    assert_eq!(run(Action::Stop(9), &mut m), (vec![], "Stopped: ".to_string()));
    assert_eq!(
        run(Action::AddTunnel(config("c", true)), &mut m),
        (vec![Command::Spawn { index: 2, task: 2 }], "Added: c".to_string())
    );
    assert_eq!(
        run(Action::AddTunnel(config("d", false)), &mut m),
        (vec![], "Added: d".to_string())
    );
    assert_eq!(
        run(Action::StartAll, &mut m),
        (
            vec![
                Command::Spawn { index: 0, task: 3 },
                Command::Abort { task: 2 },
                Command::Spawn { index: 2, task: 4 },
            ],
            "Started all enabled tunnels".to_string()
        )
    );
    assert_eq!(
        run(Action::StopAll, &mut m),
        (
            vec![Command::Abort { task: 3 }, Command::Abort { task: 4 }],
            "Stopped all tunnels".to_string()
        )
    );
    assert_eq!(run(Action::Quit, &mut m), (vec![], "Quitting...".to_string()));
    assert_eq!(
        run(Action::HealthCheck, &mut m),
        (vec![Command::Probe], "Quitting...".to_string())
    );
    assert_eq!(names(&m), vec!["a", "b", "c", "d"]);
}

#[test]
fn an_edit_is_saved_before_the_tunnel_is_started() {
    let mut m = two();
    let mut app = App::new();
    m.start(0);
    assert_eq!(
        execute_action(Action::EditTunnel(0, config("z", true)), &mut m, &mut app, 3),
        vec![Command::Abort { task: 0 }, Command::Save, Command::Spawn { index: 0, task: 1 }]
    );
    assert_eq!(told(&app), "Updated: z");
    assert_eq!(names(&m), vec!["z", "b"]);
    assert_eq!(
        execute_action(Action::EditTunnel(0, config("y", false)), &mut m, &mut app, 3),
        vec![Command::Abort { task: 1 }, Command::Save]
    );
    assert_eq!(m.snapshot(0).unwrap().0, TunnelStatus::Stopped);
    assert_eq!(
        execute_action(Action::EditTunnel(5, config("w", true)), &mut m, &mut app, 3),
        vec![Command::Save]
    );
    assert_eq!(told(&app), "Updated: w");
    assert_eq!(names(&m), vec!["y", "b"]);
}

#[test]
fn a_deletion_is_saved_and_leaves_the_task_alone() {
    let mut m = two();
    let mut app = App::new();
    m.start(0);
    assert_eq!(
        execute_action(Action::DeleteTunnel(0), &mut m, &mut app, 3),
        vec![Command::Save]
    );
    assert_eq!(told(&app), "Deleted: a");
    assert_eq!(names(&m), vec!["b"]);
    app.notification = None;
    assert_eq!(
        execute_action(Action::DeleteTunnel(1), &mut m, &mut app, 3),
        vec![Command::Save]
    );
    assert_eq!(app.notification, None);
}

#[test]
fn a_stop_is_not_undone_by_a_late_event() {
    let mut m = two();
    m.start(0);
    m.stop(0);
    let mut l = RunLoop::new();
    m.step_task(0, &mut l, LoopEvent::Spawned { now: 1 });
    assert_eq!(m.snapshot(0), Some((TunnelStatus::Stopped, None, String::new())));
}

#[test]
fn the_results_of_a_check_are_told() {
    let mut app = App::new();
    finish_health_check(&mut app, &vec![("a".to_string(), true)], 3);
    assert_eq!(app.notification, Some(("a: OK".to_string(), 3)));
    finish_health_check(&mut app, &Vec::new(), 4);
    assert_eq!(app.notification, Some(("No running tunnels".to_string(), 4)));
}

#[test]
fn nothing_is_carried_out_after_quitting() {
    let run = |actions| {
        let (kept, quit) = up_to_quit(actions);
        (format!("{kept:?}"), quit)
    };
    assert_eq!(run(vec![]), ("[]".to_string(), false));
    assert_eq!(
        run(vec![Action::Start(1), Action::StopAll]),
        ("[Start(1), StopAll]".to_string(), false)
    );
    assert_eq!(
        run(vec![Action::Start(1), Action::Quit, Action::StopAll, Action::Quit]),
        ("[Start(1), Quit]".to_string(), true)
    );
    assert_eq!(run(vec![Action::Quit]), ("[Quit]".to_string(), true));
}
