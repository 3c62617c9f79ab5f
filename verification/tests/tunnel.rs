use stm15::config::{
    default_localhost, default_ssh_port, default_true, default_type, TunnelConfig, CONFIG_DIR,
    CONFIG_FILE,
};
use stm15::tunnel::{start_tunnel, stop_tunnel, Tunnel, TunnelStatus};

fn config() -> TunnelConfig {
    TunnelConfig {
        name: "web".to_string(),
        tunnel_type: "local".to_string(),
        local_port: 8080,
        ssh_host: "gate.example.org".to_string(),
        ssh_port: 22,
        ssh_user: String::new(),
        ssh_key: String::new(),
        remote_host: "localhost".to_string(),
        remote_port: 80,
        enabled: true,
    }
}

fn args(c: TunnelConfig) -> Vec<String> {
    Tunnel::from_config(c).ssh_args_with_home(&Some("/home/me".to_string()))
}

const COMMON: [&str; 9] = [
    "-N",
    "-o",
    "StrictHostKeyChecking=accept-new",
    "-o",
    "ServerAliveInterval=30",
    "-o",
    "ExitOnForwardFailure=yes",
    "-o",
    "BatchMode=yes",
];

fn with_common(rest: &[&str]) -> Vec<String> {
    COMMON.iter().chain(rest.iter()).map(|s| s.to_string()).collect()
}

#[test]
fn defaults_of_a_configuration() {
    assert_eq!(default_type(), "local");
    assert_eq!(default_ssh_port(), 22);
    assert_eq!(default_localhost(), "localhost");
    assert!(default_true());
    assert_eq!(CONFIG_DIR, ".config/stm15");
    assert_eq!(CONFIG_FILE, "tunnels.yaml");
}

#[test]
fn each_status_has_its_sign() {
    assert_eq!(TunnelStatus::Stopped.symbol(), "◆");
    assert_eq!(TunnelStatus::Running.symbol(), "●");
    assert_eq!(TunnelStatus::Reconnecting { failures: 3, backoff: 8 }.symbol(), "↻");
}

#[test]
fn arguments_of_a_local_tunnel() {
    assert_eq!(args(config()), with_common(&["-L", "8080:localhost:80", "gate.example.org"]));
}

#[test]
fn arguments_of_a_remote_tunnel() {
    let mut c = config();
    c.tunnel_type = "remote".to_string();
    c.ssh_user = "me".to_string();
    assert_eq!(args(c), with_common(&["-R", "8080:localhost:80", "me@gate.example.org"]));
}

#[test]
fn arguments_of_a_dynamic_tunnel() {
    let mut c = config();
    c.tunnel_type = "dynamic".to_string();
    c.local_port = 1080;
    assert_eq!(args(c), with_common(&["-D", "1080", "gate.example.org"]));
}

#[test]
fn a_type_that_is_not_known_forwards_nothing() {
    let mut c = config();
    c.tunnel_type = "Local".to_string();
    assert_eq!(args(c), with_common(&["gate.example.org"]));
}

#[test]
fn a_remote_port_that_is_not_set_is_left_out() {
    let mut c = config();
    c.remote_port = 0;
    c.remote_host = "/run/app.sock".to_string();
    assert_eq!(args(c), with_common(&["-L", "8080:/run/app.sock", "gate.example.org"]));
}

#[test]
fn key_and_port_are_given_when_they_are_set() {
    let mut c = config();
    c.ssh_port = 2222;
    c.ssh_key = "/keys/id".to_string();
    assert_eq!(
        args(c),
        with_common(&["-i", "/keys/id", "-p", "2222", "-L", "8080:localhost:80", "gate.example.org"])
    );
}

#[test]
fn the_tilde_stands_for_the_home_directory() {
    let mut c = config();
    c.ssh_key = "~/.ssh/id".to_string();
    let t = Tunnel::from_config(c);
    assert_eq!(t.ssh_args_with_home(&Some("/home/me".to_string()))[10], "/home/me/.ssh/id");
    assert_eq!(t.ssh_args_with_home(&None)[10], "~/.ssh/id");
    for key in ["~", "~me/id", "a~/id", "~\\id"] {
        let mut c = config();
        c.ssh_key = key.to_string();
        assert_eq!(args(c)[10], key);
    }
}

#[test]
fn the_home_directory_is_looked_up() {
    let mut c = config();
    c.ssh_key = "~/.ssh/id".to_string();
    let expected = match dirs::home_dir() {
        Some(home) => format!("{}/.ssh/id", home.to_string_lossy()),
        None => "~/.ssh/id".to_string(),
    };
    assert_eq!(Tunnel::from_config(c).build_ssh_args()[10], expected);
}

#[test]
fn arguments_without_a_tilde_do_not_depend_on_the_home_directory() {
    let mut c = config();
    c.ssh_key = "/keys/id".to_string();
    let t = Tunnel::from_config(c);
    assert_eq!(t.build_ssh_args(), t.ssh_args_with_home(&None));
    assert_eq!(t.build_ssh_args(), t.ssh_args_with_home(&Some("/x".to_string())));
}

#[test]
fn a_new_tunnel_is_stopped() {
    let t = Tunnel::from_config(config());
    assert_eq!(t.snapshot(), (TunnelStatus::Stopped, None, String::new()));
    assert_eq!(t.health_port, 0);
    assert_eq!(t.task, None);
    assert!(!t.stop_flag);
    assert_eq!(t.config.name, "web");
}

#[test]
fn a_start_and_a_stop() {
    let mut t = Tunnel::from_config(config());
    t.state.last_error = "old".to_string();
    t.state.start_time = Some(5);
    assert_eq!(start_tunnel(&mut t, 7), None);
    assert_eq!(
        t.snapshot(),
        (TunnelStatus::Reconnecting { failures: 0, backoff: 1 }, None, String::new())
    );
    assert_eq!(t.health_port, 8080);
    assert_eq!(t.task, Some(7));
    assert_eq!(start_tunnel(&mut t, 8), Some(7));
    assert_eq!(t.task, Some(8));
    assert_eq!(stop_tunnel(&mut t), Some(8));
    assert_eq!(t.snapshot(), (TunnelStatus::Stopped, None, String::new()));
    assert!(t.stop_flag);
    assert_eq!(t.health_port, 8080);
    assert_eq!(stop_tunnel(&mut t), None);
    assert_eq!(t.snapshot(), (TunnelStatus::Stopped, None, String::new()));
    assert_eq!(start_tunnel(&mut t, 9), None);
    assert!(!t.stop_flag);
}
