use stm15::config::TunnelConfig;
use stm15::form::{FieldType, FormScreen};

fn config() -> TunnelConfig {
    TunnelConfig {
        name: "db".to_string(),
        tunnel_type: "remote".to_string(),
        local_port: 5432,
        ssh_host: "gate".to_string(),
        ssh_port: 2200,
        ssh_user: "me".to_string(),
        ssh_key: "~/.ssh/id".to_string(),
        remote_host: "10.1.1.1".to_string(),
        remote_port: 15432,
        enabled: false,
    }
}

fn go_to(form: &mut FormScreen, label: &str) {
    for _ in 0..10 {
        if form.fields[form.active].label == label {
            return;
        }
        form.next_field();
    }
    panic!("no field {label}");
}

fn fill(form: &mut FormScreen, label: &str, text: &str) {
    go_to(form, label);
    while !form.fields[form.active].input.buffer.is_empty() {
        form.fields[form.active].input.backspace();
    }
    for c in text.chars() {
        form.handle_key(c);
    }
}

fn shown(form: &FormScreen, label: &str) -> String {
    form.fields.iter().find(|f| f.label == label).unwrap().input.buffer.clone()
}

fn index(form: &FormScreen, label: &str) -> usize {
    match &form.fields.iter().find(|f| f.label == label).unwrap().field_type {
        FieldType::Select { index, .. } => *index,
        FieldType::Text => panic!("a text field"),
    }
}

fn all(c: &TunnelConfig) -> String {
    format!("{c:?}")
}

#[test]
fn a_form_for_a_new_tunnel() {
    let form = FormScreen::new_add();
    assert_eq!(form.title, "Add Tunnel");
    assert_eq!(form.active, 0);
    let labels: Vec<&str> = form.fields.iter().map(|f| f.label.as_str()).collect();
    assert_eq!(
        labels,
        vec![
            "Name",
            "Type",
            "Local Port",
            "SSH Host",
            "SSH Port",
            "SSH User",
            "SSH Key",
            "Remote Host",
            "Remote Port",
            "Auto-start",
        ]
    );
    assert_eq!(shown(&form, "Type"), "local");
    assert_eq!(shown(&form, "Local Port"), "");
    assert_eq!(shown(&form, "SSH Port"), "22");
    assert_eq!(shown(&form, "Remote Host"), "localhost");
    assert_eq!(shown(&form, "Auto-start"), "true");
    assert!(form.to_config().is_none());
}

#[test]
fn a_form_that_is_not_touched_gives_the_configuration_back() {
    let form = FormScreen::new_edit(&config());
    assert_eq!(form.title, "Edit Tunnel");
    assert_eq!(all(&form.to_config().unwrap()), all(&config()));
    let mut c = config();
    c.tunnel_type = "dynamic".to_string();
    c.local_port = 0;
    c.ssh_port = 65535;
    c.remote_port = 0;
    c.enabled = true;
    assert_eq!(all(&FormScreen::new_edit(&c).to_config().unwrap()), all(&c));
}

#[test]
fn a_type_that_cannot_be_chosen_becomes_the_first_one() {
    let mut c = config();
    c.tunnel_type = "Remote".to_string();
    let form = FormScreen::new_edit(&c);
    assert_eq!(index(&form, "Type"), 0);
    assert_eq!(form.to_config().unwrap().tunnel_type, "local");
}

#[test]
fn what_was_filled_in_is_configured() {
    let mut form = FormScreen::new_add();
    fill(&mut form, "Name", "a b");
    fill(&mut form, "Local Port", "8080");
    fill(&mut form, "SSH Host", "host");
    fill(&mut form, "SSH Port", "x");
    fill(&mut form, "SSH User", "root");
    fill(&mut form, "SSH Key", "/k");
    fill(&mut form, "Remote Host", "");
    fill(&mut form, "Remote Port", "65536");
    fill(&mut form, "Auto-start", "yes");
    let c = form.to_config().unwrap();
    assert_eq!(c.name, "a b");
    assert_eq!(c.tunnel_type, "local");
    assert_eq!(c.local_port, 8080);
    assert_eq!(c.ssh_host, "host");
    assert_eq!(c.ssh_port, 22);
    assert_eq!(c.ssh_user, "root");
    assert_eq!(c.ssh_key, "/k");
    assert_eq!(c.remote_host, "");
    assert_eq!(c.remote_port, 0);
    assert!(!c.enabled);
}

#[test]
fn ports_are_read_like_numbers() {
    let mut form = FormScreen::new_edit(&config());
    for (text, port) in [("+80", 80), ("080", 80), ("", 0), ("-1", 0), (" 80", 0), ("99999", 0)] {
        fill(&mut form, "Local Port", text);
        assert_eq!(form.to_config().unwrap().local_port, port, "{text}");
    }
    fill(&mut form, "SSH Port", "0");
    assert_eq!(form.to_config().unwrap().ssh_port, 0);
    fill(&mut form, "SSH Port", "");
    assert_eq!(form.to_config().unwrap().ssh_port, 22);
}

#[test]
fn options_are_gone_through() {
    let mut form = FormScreen::new_add();
    go_to(&mut form, "Type");
    let mut seen = Vec::new();
    for _ in 0..4 {
        form.cycle_select(true);
        seen.push(shown(&form, "Type"));
        assert_eq!(form.fields[1].input.cursor, form.fields[1].input.buffer.len());
    }
    assert_eq!(seen, vec!["remote", "dynamic", "local", "remote"]);
    form.cycle_select(false);
    assert_eq!(shown(&form, "Type"), "local");
    form.cycle_select(false);
    assert_eq!(shown(&form, "Type"), "dynamic");
    assert_eq!(index(&form, "Type"), 2);
    go_to(&mut form, "Name");
    form.cycle_select(true);
    assert_eq!(shown(&form, "Name"), "");
}

#[test]
fn an_option_that_is_spelled_out_is_chosen() {
    let mut form = FormScreen::new_add();
    fill(&mut form, "Type", "dynami");
    assert_eq!(index(&form, "Type"), 0);
    form.handle_key('c');
    assert_eq!(index(&form, "Type"), 2);
    form.handle_key('x');
    assert_eq!(index(&form, "Type"), 2);
    assert_eq!(shown(&form, "Type"), "dynamicx");
    form.cycle_select(true);
    assert_eq!(shown(&form, "Type"), "local");
}

#[test]
fn fields_are_gone_through() {
    let mut form = FormScreen::new_add();
    form.prev_field();
    assert_eq!(form.active, 9);
    form.next_field();
    assert_eq!(form.active, 0);
    form.next_field();
    assert_eq!(form.active, 1);
    form.prev_field();
    assert_eq!(form.active, 0);
}
