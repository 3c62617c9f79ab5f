use stm15::form::{center_fits, turn, FormScreen};
use stm15::picker::{describe, ConfirmScreen, PickerScreen};
use stm15::screen::{centered_rect, min_of, minus, Color, Content, Part, Rect, Span, Style};
use stm15::ssh_config::SshHost;

fn rect(x: u16, y: u16, width: u16, height: u16) -> Rect {
    Rect { x, y, width, height }
}

fn ink(c: Color) -> Style {
    Style { fg: Some(c), bg: None, bold: false, reversed: false }
}

fn lines(part: &Part) -> &Vec<Vec<Span>> {
    match &part.content {
        Content::Lines(lines) => lines,
        Content::Text(_) => panic!("a text"),
    }
}

fn texts(part: &Part) -> Vec<String> {
    lines(part).iter().map(|l| l.iter().map(|s| s.text.as_str()).collect()).collect()
}

const CONFIG: &str = "Host one\n  HostName 10.0.0.1\nHost two\n  User me\n  Port 2222\nHost three\n";

#[test]
fn areas_are_cut_off_where_the_coordinates_end() {
    for x in [0, 1, 7, 65534, 65535] {
        for width in [0, 1, 9, 65534, 65535] {
            let r = Rect::new(x, 3, width, 4);
            let expected = ratatui::layout::Rect::new(x, 3, width, 4);
            assert_eq!((r.x, r.y, r.width, r.height), (x, 3, expected.width, 4));
            let r = Rect::new(3, x, 4, width);
            let expected = ratatui::layout::Rect::new(3, x, 4, width);
            assert_eq!((r.x, r.y, r.width, r.height), (3, x, 4, expected.height));
        }
    }
    assert_eq!(Rect::new(65530, 0, 10, 1).width, 5);
}

#[test]
fn something_in_the_middle() {
    assert_eq!(centered_rect(rect(0, 0, 80, 24), 42, 6), rect(19, 9, 42, 6));
    assert_eq!(centered_rect(rect(3, 5, 11, 7), 4, 2), rect(6, 7, 4, 2));
    assert_eq!(centered_rect(rect(2, 2, 10, 4), 42, 6), rect(2, 2, 10, 4));
    assert!(center_fits(rect(0, 0, 65535, 65535), 0, 0));
    assert!(center_fits(rect(65535, 0, 1, 1), 0, 0));
    assert!(!center_fits(rect(65535, 0, 2, 1), 0, 0));
    assert!(!center_fits(rect(0, 65000, 1, 65000), 0, 0));
}

#[test]
fn differences_and_smaller_numbers() {
    assert_eq!(minus(5, 3), 2);
    assert_eq!(minus(3, 5), 0);
    assert_eq!(min_of(3, 5), 3);
    assert_eq!(min_of(5, 3), 3);
}

#[test]
fn a_ring_is_turned_and_turned_back() {
    assert_eq!(turn(0, 3, true), 1);
    assert_eq!(turn(2, 3, true), 0);
    assert_eq!(turn(0, 3, false), 2);
    assert_eq!(turn(2, 3, false), 1);
    assert_eq!(turn(0, 1, true), 0);
    assert_eq!(turn(0, 1, false), 0);
}

#[test]
fn the_form_is_drawn_in_the_middle() {
    let mut form = FormScreen::new_add();
    form.next_field();
    let area = rect(0, 0, 80, 24);
    assert!(form.accepts_area(area));
    let popup = form.render(area);
    assert_eq!(popup.area, rect(12, 4, 56, 15));
    assert_eq!(popup.title.as_deref(), Some("Add Tunnel"));
    assert_eq!(popup.border, ink(Color::Cyan));
    assert_eq!(popup.under.len(), 1);
    assert_eq!(popup.under[0].area, rect(13, 5, 54, 13));
    assert!(!popup.under[0].centered);
    assert_eq!(
        texts(&popup.under[0]),
        vec![
            "          Name:  ",
            "              : local",
            "    Local Port:  ",
            "      SSH Host:  ",
            "      SSH Port: 22",
            "      SSH User:  ",
            "       SSH Key:  ",
            "   Remote Host: localhost",
            "   Remote Port:  ",
            "              : true",
        ]
    );
    assert_eq!(lines(&popup.under[0])[0][0].style, ink(Color::White));
    assert!(lines(&popup.under[0])[1][0].style.reversed);
    assert_eq!(popup.over.len(), 1);
    assert_eq!(popup.over[0].area, rect(13, 18, 54, 1));
    assert!(popup.over[0].centered);
    assert_eq!(
        texts(&popup.over[0]),
        vec!["Tab/Up/Dn: next  |  Space: toggle  |  Enter: save  |  Esc: cancel"]
    );
    assert_eq!(lines(&popup.over[0])[0][0].style, ink(Color::DarkGray));
}

#[test]
fn the_form_on_a_small_screen() {
    let form = FormScreen::new_add();
    let area = rect(0, 0, 20, 6);
    assert!(form.accepts_area(area));
    let popup = form.render(area);
    assert_eq!(popup.area, rect(2, 0, 16, 6));
    assert_eq!(popup.under[0].area, rect(3, 1, 14, 4));
    assert_eq!(popup.over[0].area, rect(3, 14, 14, 1));
    assert_eq!(texts(&popup.under[0])[0], "          Name: …");
    assert!(form.accepts_area(rect(0, 0, 0, 0)));
    assert_eq!(form.render(rect(0, 0, 0, 0)).under[0].area, rect(0, 0, 0, 0));
    assert!(!form.accepts_area(rect(65535, 0, 1, 20)));
    assert!(!form.accepts_area(rect(0, 65530, 20, 5)));
}

#[test]
fn the_hosts_of_a_configuration_can_be_picked() {
    let mut picker = PickerScreen::from_ssh_config(CONFIG);
    let shown: Vec<&str> = picker.items.iter().map(|i| i.0.as_str()).collect();
    assert_eq!(
        shown,
        vec!["one  →  10.0.0.1:22", "two  →  me@two:2222", "three  →  three:22"]
    );
    assert_eq!(picker.selected_host().unwrap().name, "one");
    picker.up();
    assert_eq!(picker.selected_host().unwrap().name, "three");
    picker.down();
    assert_eq!(picker.selected_host().unwrap().name, "one");
    picker.down();
    assert_eq!(picker.selected_host().unwrap().name, "two");
    picker.up();
    assert_eq!(picker.selected, 0);
}

#[test]
fn a_picker_without_hosts() {
    let mut picker = PickerScreen::from_ssh_config("# nothing\n");
    assert!(picker.selected_host().is_none());
    picker.up();
    picker.down();
    assert_eq!(picker.selected, 0);
    let popup = picker.render(rect(0, 0, 80, 24));
    assert_eq!(popup.area, rect(10, 10, 60, 4));
    assert_eq!(texts(&popup.under[0]), vec![" No hosts found in ~/.ssh/config "]);
    assert_eq!(lines(&popup.under[0])[0][0].style, ink(Color::DarkGray));
}

#[test]
fn a_host_without_a_host_name_is_described_by_its_name() {
    let host = SshHost {
        name: "box".to_string(),
        hostname: None,
        port: 22,
        user: Some("me".to_string()),
        identity_file: None,
    };
    assert_eq!(describe(&host), "box");
}

#[test]
fn the_picker_is_drawn_in_the_middle() {
    let mut picker = PickerScreen::from_ssh_config(CONFIG);
    picker.down();
    let area = rect(0, 0, 80, 24);
    assert!(picker.accepts_area(area));
    let popup = picker.render(area);
    assert_eq!(popup.area, rect(10, 8, 60, 7));
    assert_eq!(popup.title.as_deref(), Some(" Import from SSH config "));
    assert_eq!(popup.border, ink(Color::Cyan));
    assert_eq!(popup.under[0].area, rect(11, 9, 58, 5));
    assert_eq!(
        texts(&popup.under[0]),
        vec![" one  →  10.0.0.1:22 ", " two  →  me@two:2222 ", " three  →  three:22 "]
    );
    assert_eq!(lines(&popup.under[0])[0][0].style, ink(Color::White));
    assert_eq!(
        lines(&popup.under[0])[1][0].style,
        Style { fg: Some(Color::Black), bg: Some(Color::Cyan), bold: true, reversed: false }
    );
    assert_eq!(popup.over[0].area, rect(11, 14, 58, 1));
    assert!(popup.over[0].centered);
    assert_eq!(texts(&popup.over[0]), vec![" j/k: navigate  |  Enter: select  |  Esc: cancel "]);
}

#[test]
fn the_picker_on_a_small_screen() {
    let picker = PickerScreen::from_ssh_config(CONFIG);
    assert!(picker.accepts_area(rect(0, 0, 30, 5)));
    let popup = picker.render(rect(0, 0, 30, 5));
    assert_eq!(popup.area, rect(0, 0, 30, 5));
    assert_eq!(popup.over[0].area, rect(1, 4, 28, 1));
    assert!(!picker.accepts_area(rect(0, 0, 30, 0)));
    assert!(picker.accepts_area(rect(0, 1, 30, 0)));
}

#[test]
fn the_question_is_drawn_in_the_middle() {
    let question = ConfirmScreen::new("Delete?");
    let area = rect(0, 0, 80, 24);
    assert!(ConfirmScreen::accepts_area(area));
    let popup = question.render(area);
    assert_eq!(popup.area, rect(19, 9, 42, 6));
    assert_eq!(popup.title, None);
    assert_eq!(popup.border, ink(Color::Yellow));
    assert_eq!(popup.under.len(), 2);
    assert_eq!(popup.under[0].area, rect(20, 10, 40, 2));
    assert!(matches!(&popup.under[0].content, Content::Text(t) if t == "Delete?"));
    assert!(popup.under[0].centered);
    assert_eq!(popup.under[0].style, ink(Color::White));
    assert_eq!(popup.under[1].area, rect(20, 12, 40, 1));
    assert_eq!(texts(&popup.under[1]), vec![" [Y]es    [N]o "]);
    let answers = &lines(&popup.under[1])[0];
    assert_eq!(
        answers[0].style,
        Style { fg: Some(Color::Red), bg: None, bold: true, reversed: false }
    );
    assert_eq!(
        answers[2].style,
        Style { fg: Some(Color::Green), bg: None, bold: true, reversed: false }
    );
    assert!(popup.over.is_empty());
    assert!(!ConfirmScreen::accepts_area(rect(0, 65533, 80, 2)));
}
