use stm15::config::TunnelConfig;
use stm15::health::{
    force_health_check, health_check_loop, health_report, HealthAction, HealthEvent, HealthLoop,
};
use stm15::manager::{Command, TunnelManager};
use stm15::run_loop::{LoopAction, LoopEvent, RunLoop};
use stm15::tunnel::TunnelStatus;

fn config(name: &str, port: u16, enabled: bool) -> TunnelConfig {
    TunnelConfig {
        name: name.to_string(),
        tunnel_type: "local".to_string(),
        local_port: port,
        ssh_host: "gate".to_string(),
        ssh_port: 22,
        ssh_user: String::new(),
        ssh_key: String::new(),
        remote_host: "localhost".to_string(),
        remote_port: 80,
        enabled,
    }
}

fn three() -> TunnelManager {
    TunnelManager::new(Some(vec![
        config("a", 1001, true),
        config("b", 1002, false),
        config("c", 1003, true),
    ]))
}

fn names(m: &TunnelManager) -> Vec<String> {
    m.tunnels.iter().map(|t| t.config.name.clone()).collect()
}

fn status(m: &TunnelManager, i: usize) -> TunnelStatus {
    m.snapshot(i).unwrap().0
}

const STARTING: TunnelStatus = TunnelStatus::Reconnecting { failures: 0, backoff: 1 };

fn run(m: &mut TunnelManager, task: u64) {
    let mut l = RunLoop::new();
    m.step_task(task, &mut l, LoopEvent::Spawned { now: 5 });
}

#[test]
fn a_manager_has_the_tunnels_that_were_read() {
    assert_eq!(names(&three()), vec!["a", "b", "c"]);
    assert!(TunnelManager::new(None).tunnels.is_empty());
    let mut m = three();
    m.load_config(None);
    assert_eq!(names(&m), vec!["a", "b", "c"]);
    m.load_config(Some(vec![config("x", 1, true)]));
    assert_eq!(names(&m), vec!["x"]);
}

#[test]
fn what_is_saved_is_loaded() {
    let mut m = three();
    m.start(0);
    let saved = m.save_config();
    assert_eq!(saved.len(), 3);
    assert_eq!(saved[1].name, "b");
    assert_eq!(saved[2].local_port, 1003);
    let again = TunnelManager::new(Some(saved));
    assert_eq!(names(&again), names(&m));
    assert!(!again.tunnels[1].config.enabled);
    assert_eq!(status(&again, 0), TunnelStatus::Stopped);
}

#[test]
fn tunnels_are_added_and_removed() {
    let mut m = three();
    m.add_tunnel(config("d", 4, true));
    assert_eq!(names(&m), vec!["a", "b", "c", "d"]);
    assert_eq!(m.remove_tunnel(3).unwrap().config.name, "d");
    assert_eq!(names(&m), vec!["a", "b", "c"]);
    assert_eq!(m.remove_tunnel(0).unwrap().config.name, "a");
    assert_eq!(names(&m), vec!["b", "c"]);
    assert!(m.remove_tunnel(2).is_none());
    assert_eq!(names(&m), vec!["b", "c"]);
    m.set_config(1, config("z", 9, false));
    m.set_config(2, config("y", 9, false));
    assert_eq!(names(&m), vec!["b", "z"]);
}

#[test]
fn a_start_spawns_and_a_second_one_aborts_too() {
    let mut m = three();
    assert_eq!(m.start(1), vec![Command::Spawn { index: 1, task: 0 }]);
    assert_eq!(status(&m, 1), STARTING);
    assert_eq!(status(&m, 0), TunnelStatus::Stopped);
    assert_eq!(
        m.start(1),
        vec![Command::Abort { task: 0 }, Command::Spawn { index: 1, task: 1 }]
    );
    assert!(m.start(3).is_empty());
}

#[test]
fn a_stop_aborts() {
    let mut m = three();
    assert!(m.stop(1).is_empty());
    m.start(1);
    assert_eq!(m.stop(1), vec![Command::Abort { task: 0 }]);
    assert_eq!(status(&m, 1), TunnelStatus::Stopped);
    assert!(m.stop(1).is_empty());
    assert!(m.stop(9).is_empty());
}

#[test]
fn a_restart_asks_for_what_a_start_asks_for() {
    let mut m = three();
    let mut n = three();
    assert_eq!(m.restart(0), n.start(0));
    assert_eq!(m.restart(0), n.start(0));
    assert_eq!(
        m.restart(0),
        vec![Command::Abort { task: 1 }, Command::Spawn { index: 0, task: 2 }]
    );
    assert!(m.restart(7).is_empty());
}

#[test]
fn enabled_tunnels_are_started() {
    let mut m = three();
    m.start(2);
    assert_eq!(
        m.start_all_enabled(),
        vec![
            Command::Spawn { index: 0, task: 1 },
            Command::Abort { task: 0 },
            Command::Spawn { index: 2, task: 2 },
        ]
    );
    assert_eq!(status(&m, 0), STARTING);
    assert_eq!(status(&m, 1), TunnelStatus::Stopped);
    assert_eq!(status(&m, 2), STARTING);
}

#[test]
fn all_tunnels_are_stopped() {
    let mut m = three();
    m.start(2);
    m.start(0);
    run(&mut m, 0);
    assert_eq!(m.status_summary(), "Active: 1/3");
    assert_eq!(m.stop_all(), vec![Command::Abort { task: 1 }, Command::Abort { task: 0 }]);
    for i in 0..3 {
        assert_eq!(status(&m, i), TunnelStatus::Stopped);
        assert_eq!(m.tunnels[i].task, None);
    }
    assert_eq!(m.status_summary(), "Active: 0/3");
}

#[test]
fn task_numbers_start_anew_behind_the_largest() {
    let mut m = three();
    m.next_task = u64::MAX;
    assert_eq!(m.start(0), vec![Command::Spawn { index: 0, task: u64::MAX }]);
    assert_eq!(m.start(1), vec![Command::Spawn { index: 1, task: 0 }]);
}

#[test]
fn events_reach_the_tunnel_of_their_task() {
    let mut m = three();
    m.start(0);
    m.start(2);
    let mut l = RunLoop::new();
    assert_eq!(m.step_task(1, &mut l, LoopEvent::Spawned { now: 5 }), LoopAction::Poll);
    assert_eq!(status(&m, 0), STARTING);
    assert_eq!(m.snapshot(2), Some((TunnelStatus::Running, Some(5), String::new())));
    m.stop(2);
    let event = LoopEvent::SpawnFailed { error: "late".to_string() };
    assert_eq!(m.step_task(1, &mut l, event), LoopAction::Sleep { secs: 1 });
    assert_eq!(l.failures, 1);
    assert_eq!(m.snapshot(2), Some((TunnelStatus::Stopped, None, String::new())));
    assert_eq!(m.snapshot(3), None);
}

#[test]
fn a_task_finds_its_tunnel_after_a_removal() {
    let mut m = three();
    m.start(2);
    m.remove_tunnel(0);
    run(&mut m, 0);
    assert_eq!(status(&m, 1), TunnelStatus::Running);
    m.remove_tunnel(1);
    run(&mut m, 0);
    assert_eq!(status(&m, 0), TunnelStatus::Stopped);
}

#[test]
fn the_summary_counts_running_tunnels() {
    let mut m = TunnelManager::new(None);
    assert_eq!(m.status_summary(), "Active: 0/0");
    for i in 0..12 {
        m.add_tunnel(config("t", i, true));
    }
    m.start_all_enabled();
    assert_eq!(m.status_summary(), "Active: 0/12");
    for task in 0..11 {
        run(&mut m, task);
    }
    assert_eq!(m.status_summary(), "Active: 11/12");
}

#[test]
fn a_round_of_checks() {
    let mut m = three();
    m.add_tunnel(config("no port", 0, true));
    let mut h = HealthLoop::new();
    assert_eq!(h.action(), HealthAction::Sleep { secs: 30 });
    assert!(health_check_loop(&mut h, &mut m, HealthEvent::Woke).is_empty());
    assert_eq!(h.action(), HealthAction::Sleep { secs: 30 });
    m.start_all_enabled();
    run(&mut m, 0);
    run(&mut m, 1);
    run(&mut m, 2);
    assert!(health_check_loop(&mut h, &mut m, HealthEvent::Woke).is_empty());
    assert_eq!(h.action(), HealthAction::Probe { port: 1001 });
    assert!(health_check_loop(&mut h, &mut m, HealthEvent::Probed { healthy: true }).is_empty());
    assert_eq!(status(&m, 0), TunnelStatus::Running);
    assert_eq!(h.action(), HealthAction::Probe { port: 1003 });
    assert_eq!(
        health_check_loop(&mut h, &mut m, HealthEvent::Probed { healthy: false }),
        vec![Command::Abort { task: 1 }, Command::Spawn { index: 2, task: 3 }]
    );
    assert_eq!(status(&m, 2), STARTING);
    assert_eq!(h.action(), HealthAction::Sleep { secs: 30 });
    assert!(health_check_loop(&mut h, &mut m, HealthEvent::Probed { healthy: false }).is_empty());
}

#[test]
fn a_tunnel_that_was_stopped_during_its_check_stays_stopped() {
    let mut m = three();
    m.start(0);
    run(&mut m, 0);
    let mut h = HealthLoop::new();
    health_check_loop(&mut h, &mut m, HealthEvent::Woke);
    m.stop(0);
    assert!(health_check_loop(&mut h, &mut m, HealthEvent::Probed { healthy: false }).is_empty());
    assert_eq!(status(&m, 0), TunnelStatus::Stopped);
    m.start(2);
    run(&mut m, 1);
    health_check_loop(&mut h, &mut m, HealthEvent::Woke);
    m.remove_tunnel(2);
    assert!(health_check_loop(&mut h, &mut m, HealthEvent::Probed { healthy: false }).is_empty());
}

#[test]
fn a_check_on_demand() {
    let mut m = three();
    assert!(force_health_check(&m).is_empty());
    m.start(2);
    run(&mut m, 0);
    m.start(0);
    assert_eq!(force_health_check(&m), vec![("c".to_string(), 1003)]);
    run(&mut m, 1);
    assert_eq!(force_health_check(&m), vec![("a".to_string(), 1001), ("c".to_string(), 1003)]);
}

#[test]
fn the_report_of_a_check() {
    assert_eq!(health_report(&Vec::new()), "No running tunnels");
    assert_eq!(health_report(&vec![("a".to_string(), true)]), "a: OK");
    assert_eq!(
        health_report(&vec![("a".to_string(), true), ("b".to_string(), false)]),
        "a: OK | b: FAIL"
    );
}
