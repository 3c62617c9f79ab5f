use stm15::app::{App, AppMode};
use stm15::config::TunnelConfig;
use stm15::form::FormScreen;
use stm15::manager::TunnelManager;
use stm15::picker::{ConfirmScreen, PickerScreen};
use stm15::run_loop::{LoopEvent, RunLoop};
use stm15::screen::{Color, Constraint, Rect, Span, Style};
use stm15::tunnel::TunnelStatus;
use stm15::view::{show_duration, status_color, NANOS_PER_SEC};

fn config(name: &str) -> TunnelConfig {
    TunnelConfig {
        name: name.to_string(),
        tunnel_type: "local".to_string(),
        local_port: 8080,
        ssh_host: "gate".to_string(),
        ssh_port: 22,
        ssh_user: String::new(),
        ssh_key: String::new(),
        remote_host: "db".to_string(),
        remote_port: 5432,
        enabled: true,
    }
}

fn rect(x: u16, y: u16, width: u16, height: u16) -> Rect {
    Rect { x, y, width, height }
}

fn texts(line: &[Span]) -> Vec<&str> {
    line.iter().map(|s| s.text.as_str()).collect()
}

fn ink(c: Color) -> Style {
    Style { fg: Some(c), bg: None, bold: false, reversed: false }
}

const PLAIN: Style = Style { fg: None, bg: None, bold: false, reversed: false };
const BOLD: Style = Style { fg: None, bg: None, bold: true, reversed: false };

#[test]
fn durations() {
    for (secs, text) in [
        (0, "0s"),
        (59, "59s"),
        (60, "1m00s"),
        (61, "1m01s"),
        (3599, "59m59s"),
        (3600, "1h00m"),
        (3660, "1h01m"),
        (7325, "2h02m"),
        (360_000, "100h00m"),
    ] {
        assert_eq!(show_duration(secs), text);
    }
}

#[test]
fn colors_of_the_statuses() {
    assert_eq!(status_color(TunnelStatus::Running), Color::Green);
    assert_eq!(
        status_color(TunnelStatus::Reconnecting { failures: 0, backoff: 1 }),
        Color::Yellow
    );
    assert_eq!(status_color(TunnelStatus::Stopped), Color::DarkGray);
}

#[test]
fn the_rows_of_the_list() {
    let mut second = config("b");
    second.ssh_user = "me".to_string();
    second.remote_port = 0;
    let mut m = TunnelManager::new(Some(vec![config("a"), second]));
    m.start(0);
    let mut l = RunLoop::new();
    m.step_task(0, &mut l, LoopEvent::Spawned { now: 10 });
    m.tunnels[1].state.last_error = "x".repeat(50);
    let table = App::render_table(&m, 10 + 61 * NANOS_PER_SEC);
    assert_eq!(
        texts(&table.rows[0]),
        vec!["●", "a", "local", "8080", "db:5432", "gate", "1m01s", ""]
    );
    let error = "x".repeat(40);
    assert_eq!(
        texts(&table.rows[1]),
        vec!["◆", "b", "local", "8080", "-", "me@gate", "-", error.as_str()]
    );
    assert_eq!(table.rows.len(), 2);
    let styles: Vec<Style> = table.rows[0].iter().map(|s| s.style).collect();
    assert_eq!(
        styles,
        vec![
            ink(Color::Green),
            PLAIN,
            ink(Color::Cyan),
            PLAIN,
            PLAIN,
            PLAIN,
            PLAIN,
            ink(Color::Red),
        ]
    );
    assert_eq!(table.rows[1][0].style, ink(Color::DarkGray));
    assert_eq!(App::render_table(&m, 3).rows[0][6].text, "0s");
}

#[test]
fn the_frame_of_the_list() {
    let table = App::render_table(&TunnelManager::new(None), 0);
    assert!(table.rows.is_empty());
    assert_eq!(
        texts(&table.header),
        vec!["", " Name ", " Type ", " Local ", " Remote ", " SSH Host ", " Uptime ", " Error "]
    );
    assert_eq!(table.header[0].style, PLAIN);
    assert_eq!(table.header[7].style, BOLD);
    assert_eq!(
        table.widths,
        vec![
            Constraint::Length(1),
            Constraint::Percentage(20),
            Constraint::Length(9),
            Constraint::Length(7),
            Constraint::Percentage(18),
            Constraint::Percentage(22),
            Constraint::Length(8),
            Constraint::Percentage(24),
        ]
    );
    assert_eq!(
        table.highlight,
        Style { fg: Some(Color::Black), bg: Some(Color::Cyan), bold: true, reversed: false }
    );
}

#[test]
fn the_lines_around_the_list() {
    let header = App::render_header();
    assert_eq!(texts(&header), vec![" STM15 ", "─ SSH Tunnel Manager "]);
    assert_eq!(header[0].style, Style { bold: true, ..ink(Color::Cyan) });
    assert_eq!(header[1].style, ink(Color::DarkGray));
    let m = TunnelManager::new(Some(vec![config("a")]));
    let mut app = App::new();
    assert_eq!(texts(&app.render_status(&m)), vec![" Active: 0/1 "]);
    app.notify("hello", 1);
    let status = app.render_status(&m);
    assert_eq!(texts(&status), vec![" Active: 0/1 ", " | hello "]);
    assert_eq!(status[0].style, ink(Color::DarkGray));
    assert_eq!(status[1].style, ink(Color::Yellow));
}

#[test]
fn the_list_has_the_room_between_two_lines() {
    let m = TunnelManager::new(None);
    let mut app = App::new();
    for height in (5..300).chain([1000, 40_000, 65_000, 65_535]) {
        for (x, y) in [(0, 0), (3, 2)] {
            if y + height as u32 > 65_535 {
                continue;
            }
            let y = y as u16;
            let height = height as u16;
            let screen = app.render(&m, rect(x, y, 80, height), 0);
            assert_eq!(screen.header_area, rect(x, y, 80, 1));
            assert_eq!(screen.table_area, rect(x, y + 1, 80, height - 2));
            assert_eq!(screen.status_area, rect(x, y + height - 1, 80, 1));
        }
    }
}

#[test]
fn a_small_screen_is_not_left() {
    let m = TunnelManager::new(None);
    let mut app = App::new();
    for (y, height) in [(0, 0), (0, 1), (0, 2), (7, 3), (7, 4), (65_000, 1000)] {
        let area = rect(2, y, 10, height);
        let screen = app.render(&m, area, 0);
        let bottom = (y as u32 + height as u32).min(65_535);
        for part in [screen.header_area, screen.table_area, screen.status_area] {
            assert_eq!((part.x, part.width), (2, 10));
            assert!(part.y >= y);
            assert!(part.y as u32 + part.height as u32 <= bottom);
        }
    }
}

#[test]
fn the_screen_shows_what_is_open() {
    let m = TunnelManager::new(Some(vec![config("a")]));
    let area = rect(0, 0, 80, 24);
    let mut app = App::new();
    assert!(app.accepts_area(area));
    let screen = app.render(&m, area, 0);
    assert!(screen.popup.is_none());
    assert_eq!(screen.table.rows.len(), 1);
    assert_eq!(texts(&screen.header)[0], " STM15 ");
    app.mode = AppMode::Form(FormScreen::new_add());
    assert!(app.accepts_area(area));
    let popup = app.render(&m, area, 0).popup.unwrap();
    assert_eq!(popup.title.as_deref(), Some("Add Tunnel"));
    app.mode = AppMode::Confirm(ConfirmScreen::new("?"));
    assert!(app.accepts_area(area));
    assert_eq!(app.render(&m, area, 0).popup.unwrap().area, rect(19, 9, 42, 6));
    app.mode = AppMode::Picker(PickerScreen::from_ssh_config("Host one\n"));
    assert!(app.accepts_area(area));
    let popup = app.render(&m, area, 0).popup.unwrap();
    assert_eq!(popup.title.as_deref(), Some(" Import from SSH config "));
    assert!(matches!(app.mode, AppMode::Picker(_)));
}

#[test]
fn an_old_notification_is_not_drawn() {
    let m = TunnelManager::new(None);
    let mut app = App::new();
    app.notify("hello", 0);
    let screen = app.render(&m, rect(0, 0, 80, 24), 5 * NANOS_PER_SEC);
    assert_eq!(texts(&screen.status), vec![" Active: 0/0 ", " | hello "]);
    let screen = app.render(&m, rect(0, 0, 80, 24), 5 * NANOS_PER_SEC + 1);
    assert_eq!(texts(&screen.status), vec![" Active: 0/0 "]);
    assert_eq!(app.notification, None);
}

#[test]
fn on_a_small_screen_the_list_goes_first() {
    let m = TunnelManager::new(None);
    let mut app = App::new();
    for at in 0..300 {
        for height in 0..4 {
            let screen = app.render(&m, rect(at, at, 80, height), 0);
            assert_eq!(screen.header_area, rect(at, at, 80, 0));
            assert_eq!(screen.table_area, rect(at, at, 80, height));
            assert_eq!(screen.status_area, rect(at, at + height, 80, 0));
        }
        let screen = app.render(&m, rect(at, at, 80, 4), 0);
        let h = screen.header_area.height;
        assert!(h <= 1);
        assert_eq!(screen.header_area, rect(at, at, 80, h));
        assert_eq!(screen.table_area, rect(at, at + h, 80, 3));
        assert_eq!(screen.status_area, rect(at, at + h + 3, 80, 1 - h));
    }
}
