//! How actions are carried out.
use crate::app::{Action, ActionView, App, AppView};
use crate::config::TunnelConfigView;
use crate::health::{health_report, report};
use crate::manager::{
    a_restart_is_a_start, a_start_replaces_the_task, abort_all, all_stopped,
    commands_agree_with_the_tunnels, every_enabled_tunnel_is_spawned,
    exactly_the_enabled_are_started, restart_at, start_at, start_enabled, stop_at,
    stopping_all_leaves_nothing_running, stopping_all_stops_each, tasks_are_distinct, Command,
    ManagerView, TunnelManager,
};
use crate::tunnel::{fresh, started, starts_and_stops_are_recorded, TunnelStatus, TunnelView};
use vstd::prelude::*;

verus! {

/// The name of the tunnel at `i`, or nothing.
pub open spec fn name_at(m: ManagerView, i: int) -> Seq<char> {
    if 0 <= i < m.tunnels.len() {
        m.tunnels[i].config.name
    } else {
        Seq::empty()
    }
}

/// The manager once the tunnel at `i`, if there is one, has another configuration.
pub open spec fn reconfigured(
    m: ManagerView,
    i: int,
    config: crate::config::TunnelConfigView,
) -> ManagerView {
    if 0 <= i < m.tunnels.len() {
        ManagerView {
            tunnels: m.tunnels.update(i, TunnelView { config, ..m.tunnels[i] }),
            ..m
        }
    } else {
        m
    }
}

/// The manager, the application and what is to be done outside, after an action.
pub open spec fn action_step(action: ActionView, m: ManagerView, a: AppView, now: u64) -> (
    ManagerView,
    AppView,
    Seq<Command>,
) {
    match action {
        ActionView::Start(i) => {
            let (after, commands) = start_at(m, i as int);
            (after, a.notified("Started: "@ + name_at(m, i as int), now), commands)
        },
        ActionView::Stop(i) => {
            let (after, commands) = stop_at(m, i as int);
            (after, a.notified("Stopped: "@ + name_at(m, i as int), now), commands)
        },
        ActionView::Restart(i) => {
            let (after, commands) = restart_at(m, i as int);
            (after, a.notified("Restarted: "@ + name_at(m, i as int), now), commands)
        },
        ActionView::AddTunnel(config) => {
            let added = ManagerView { tunnels: m.tunnels.push(fresh(config)), ..m };
            let (after, commands) = if config.enabled {
                start_at(added, m.tunnels.len() as int)
            } else {
                (added, Seq::empty())
            };
            (after, a.notified("Added: "@ + config.name, now), commands)
        },
        ActionView::EditTunnel(i, config) => {
            let (halted, aborts) = stop_at(m, i as int);
            let edited = reconfigured(halted, i as int, config);
            let (after, starts) = if config.enabled {
                start_at(edited, i as int)
            } else {
                (edited, Seq::empty())
            };
            (
                after,
                a.notified("Updated: "@ + config.name, now),
                aborts.push(Command::Save) + starts,
            )
        },
        ActionView::DeleteTunnel(i) => {
            let (after, told) = if i < m.tunnels.len() {
                (
                    ManagerView { tunnels: m.tunnels.remove(i as int), ..m },
                    a.notified("Deleted: "@ + name_at(m, i as int), now),
                )
            } else {
                (m, a)
            };
            (after, told, seq![Command::Save])
        },
        ActionView::StartAll => {
            let (after, commands) = start_enabled(m, m.tunnels.len() as int);
            (after, a.notified("Started all enabled tunnels"@, now), commands)
        },
        ActionView::StopAll => (
            ManagerView { tunnels: all_stopped(m.tunnels), ..m },
            a.notified("Stopped all tunnels"@, now),
            abort_all(m.tunnels),
        ),
        ActionView::HealthCheck => (m, a, seq![Command::Probe]),
        ActionView::Quit => (m, a.notified("Quitting..."@, now), Seq::empty()),
    }
}

fn tunnel_name(manager: &TunnelManager, index: usize) -> (name: String)
    ensures
        name@ == name_at(manager@, index as int),
{
    if index < manager.tunnels.len() {
        assert(manager@.tunnels[index as int] == manager.tunnels@[index as int]@);
        manager.tunnels[index].config.name.clone()
    } else {
        String::new()
    }
}

fn tell(app: &mut App, what: &str, name: &str, now: u64)
    ensures
        final(app)@ == old(app)@.notified(what@ + name@, now),
{
    let message = what.to_string().concat(name);
    app.notify(message.as_str(), now);
}

/// Carries out an action. Returns what is to be done outside, in that order.
pub fn execute_action(
    action: Action,
    manager: &mut TunnelManager,
    app: &mut App,
    now: u64,
) -> (commands: Vec<Command>)
    ensures
        (final(manager)@, final(app)@, commands@) == action_step(
            action@,
            old(manager)@,
            old(app)@,
            now,
        ),
{
    match action {
        Action::Start(i) => {
            let name = tunnel_name(manager, i);
            let commands = manager.start(i);
            tell(app, "Started: ", name.as_str(), now);
            commands
        },
        Action::Stop(i) => {
            let name = tunnel_name(manager, i);
            let commands = manager.stop(i);
            tell(app, "Stopped: ", name.as_str(), now);
            commands
        },
        Action::Restart(i) => {
            let name = tunnel_name(manager, i);
            let commands = manager.restart(i);
            tell(app, "Restarted: ", name.as_str(), now);
            commands
        },
        Action::AddTunnel(config) => {
            let name = config.name.clone();
            let enabled = config.enabled;
            let index = manager.tunnels.len();
            manager.add_tunnel(config);
            let commands = if enabled {
                manager.start(index)
            } else {
                Vec::new()
            };
            tell(app, "Added: ", name.as_str(), now);
            commands
        },
        Action::EditTunnel(i, config) => {
            let name = config.name.clone();
            let enabled = config.enabled;
            let mut commands = manager.stop(i);
            manager.set_config(i, config);
            commands.push(Command::Save);
            if enabled {
                let mut starts = manager.start(i);
                commands.append(&mut starts);
            }
            tell(app, "Updated: ", name.as_str(), now);
            commands
        },
        Action::DeleteTunnel(i) => {
            let removed = manager.remove_tunnel(i);
            if let Some(t) = removed {
                tell(app, "Deleted: ", t.config.name.as_str(), now);
            }
            let mut commands: Vec<Command> = Vec::new();
            commands.push(Command::Save);
            assert(commands@ == seq![Command::Save]);
            commands
        },
        Action::StartAll => {
            let commands = manager.start_all_enabled();
            app.notify("Started all enabled tunnels", now);
            commands
        },
        Action::StopAll => {
            let commands = manager.stop_all();
            app.notify("Stopped all tunnels", now);
            commands
        },
        Action::HealthCheck => {
            let mut commands: Vec<Command> = Vec::new();
            commands.push(Command::Probe);
            assert(commands@ == seq![Command::Probe]);
            commands
        },
        Action::Quit => {
            app.notify("Quitting...", now);
            Vec::new()
        },
    }
}

/// Tells the user what came of a health check.
pub fn finish_health_check(app: &mut App, results: &Vec<(String, bool)>, now: u64)
    ensures
        final(app)@ == old(app)@.notified(report(results@), now),
{
    let message = health_report(results);
    app.notify(message.as_str(), now);
}

// ── what holds of every action ──────────────────────────────────────────────
/// No action opens or closes anything on the screen, moves the selection, or
/// asks for another action: it changes the tunnels, and what the user is told.
pub proof fn an_action_leaves_the_screen_alone(
    action: ActionView,
    m: ManagerView,
    a: AppView,
    now: u64,
)
    ensures
        action_step(action, m, a, now).1 == (AppView {
            notification: action_step(action, m, a, now).1.notification,
            ..a
        }),
{
}

/// The configuration file is written when a tunnel was edited or deleted, and
/// at no other action.
pub proof fn edits_and_deletions_are_saved(
    action: ActionView,
    m: ManagerView,
    a: AppView,
    now: u64,
)
    ensures
        action_step(action, m, a, now).2.contains(Command::Save) <==> (action is EditTunnel
            || action is DeleteTunnel),
{
    let commands = action_step(action, m, a, now).2;
    match action {
        ActionView::EditTunnel(i, config) => {
            let (_, aborts) = stop_at(m, i as int);
            assert(commands[aborts.len() as int] == Command::Save);
        },
        ActionView::DeleteTunnel(i) => {
            assert(commands[0] == Command::Save);
        },
        ActionView::StartAll => {
            lemma_starts_do_not_save(m, m.tunnels.len() as int);
        },
        ActionView::StopAll => {
            lemma_aborts_do_not_save(m.tunnels);
        },
        _ => {},
    }
}

proof fn lemma_starts_do_not_save(m: ManagerView, n: int)
    ensures
        !start_enabled(m, n).1.contains(Command::Save),
    decreases n,
{
    if n > 0 {
        lemma_starts_do_not_save(m, n - 1);
        let before = start_enabled(m, n - 1);
        let more = start_at(before.0, n - 1).1;
        assert(!more.contains(Command::Save));
        let all = before.1 + more;
        if all.contains(Command::Save) {
            let k = all.index_of(Command::Save);
            if k < before.1.len() {
                assert(before.1[k] == Command::Save);
            } else {
                assert(more[k - before.1.len()] == Command::Save);
            }
        }
    }
}

proof fn lemma_aborts_do_not_save(tunnels: Seq<TunnelView>)
    ensures
        !abort_all(tunnels).contains(Command::Save),
    decreases tunnels.len(),
{
    if tunnels.len() > 0 {
        lemma_aborts_do_not_save(tunnels.drop_last());
        let before = abort_all(tunnels.drop_last());
        let all = abort_all(tunnels);
        if all.contains(Command::Save) {
            let k = all.index_of(Command::Save);
            if k < before.len() {
                assert(before[k] == Command::Save);
            }
        }
    }
}

/// A tunnel that was edited has the configuration that was given, is stopped if
/// that says it is not enabled, and is started anew otherwise.
pub proof fn an_edit_takes_effect(
    m: ManagerView,
    a: AppView,
    now: u64,
    i: usize,
    config: crate::config::TunnelConfigView,
)
    requires
        i < m.tunnels.len(),
    ensures
        ({
            let after = action_step(ActionView::EditTunnel(i, config), m, a, now).0;
            let t = after.tunnels[i as int];
            &&& after.tunnels.len() == m.tunnels.len()
            &&& t.config == config
            &&& !config.enabled ==> t.state == crate::tunnel::idle_state() && t.task is None
            &&& config.enabled ==> t == crate::tunnel::started(fresh(config), m.next_task)
            &&& forall|j: int|
                0 <= j < m.tunnels.len() && j != i ==> after.tunnels[j] == m.tunnels[j]
        }),
{
}

/// After a stop the tunnel is stopped and has no task, whatever it did before; the
/// task it had is to be aborted. No other tunnel changes. Where there is no such
/// tunnel, none does.
pub proof fn a_stop_stops(m: ManagerView, a: AppView, now: u64, i: usize)
    ensures
        ({
            let (after, _, commands) = action_step(ActionView::Stop(i), m, a, now);
            &&& after.tunnels.len() == m.tunnels.len()
            &&& i >= m.tunnels.len() ==> after == m && commands.len() == 0
            &&& i < m.tunnels.len() ==> {
                let t = after.tunnels[i as int];
                &&& t.config == m.tunnels[i as int].config
                &&& t.state.status == TunnelStatus::Stopped
                &&& t.state.start_time is None
                &&& t.state.last_error.len() == 0
                &&& t.task is None
                &&& m.tunnels[i as int].task is None ==> commands.len() == 0
                &&& m.tunnels[i as int].task matches Some(task) ==> commands == seq![
                    Command::Abort { task },
                ]
            }
            &&& forall|j: int|
                0 <= j < m.tunnels.len() && j != i ==> after.tunnels[j] == m.tunnels[j]
        }),
{
}

/// After a start or a restart the tunnel has a new task, which is to be started
/// for it; the task it had is to be aborted. No other tunnel changes. Where there
/// is no such tunnel, none does.
pub proof fn a_start_starts(
    m: ManagerView,
    a: AppView,
    now: u64,
    i: usize,
    action: ActionView,
)
    requires
        action == ActionView::Start(i) || action == ActionView::Restart(i),
    ensures
        ({
            let (after, _, commands) = action_step(action, m, a, now);
            let spawn = Command::Spawn { index: i, task: m.next_task };
            &&& after.tunnels.len() == m.tunnels.len()
            &&& i >= m.tunnels.len() ==> after == m && commands.len() == 0
            &&& i < m.tunnels.len() ==> {
                let t = after.tunnels[i as int];
                &&& t.config == m.tunnels[i as int].config
                &&& t.state.status == (TunnelStatus::Reconnecting { failures: 0, backoff: 1 })
                &&& t.state.start_time is None
                &&& t.state.last_error.len() == 0
                &&& t.health_port == t.config.local_port
                &&& t.task == Some(m.next_task)
                &&& m.tunnels[i as int].task is None ==> commands == seq![spawn]
                &&& m.tunnels[i as int].task matches Some(task) ==> commands == seq![
                    Command::Abort { task },
                    spawn,
                ]
            }
            &&& forall|j: int|
                0 <= j < m.tunnels.len() && j != i ==> after.tunnels[j] == m.tunnels[j]
        }),
{
    a_restart_is_a_start(m, i as int);
    a_start_replaces_the_task(m, i as int);
}

/// A tunnel that was added stands behind the others, with the configuration that
/// was given. It is started if that says it is enabled, and otherwise not. The
/// others are left alone.
pub proof fn an_added_tunnel_is_the_last(
    m: ManagerView,
    a: AppView,
    now: u64,
    config: TunnelConfigView,
)
    requires
        m.tunnels.len() < usize::MAX,
    ensures
        ({
            let (after, _, commands) = action_step(ActionView::AddTunnel(config), m, a, now);
            let t = after.tunnels.last();
            &&& after.tunnels.len() == m.tunnels.len() + 1
            &&& after.tunnels.drop_last() == m.tunnels
            &&& t.config == config
            &&& config.enabled ==> t.task == Some(m.next_task) && commands == seq![
                Command::Spawn { index: m.tunnels.len() as usize, task: m.next_task },
            ]
            &&& !config.enabled ==> t.task is None && t.state.status == TunnelStatus::Stopped
                && commands.len() == 0
        }),
{
    let added = ManagerView { tunnels: m.tunnels.push(fresh(config)), ..m };
    a_start_replaces_the_task(added, m.tunnels.len() as int);
    assert(action_step(ActionView::AddTunnel(config), m, a, now).0.tunnels.drop_last()
        == m.tunnels);
}

/// An edit aborts the task that the tunnel had, saves, and then starts the tunnel
/// if it is enabled. An edit of a tunnel that does not exist changes none.
pub proof fn an_edit_is_saved_before_the_start(
    m: ManagerView,
    a: AppView,
    now: u64,
    i: usize,
    config: TunnelConfigView,
)
    ensures
        ({
            let (after, _, commands) = action_step(ActionView::EditTunnel(i, config), m, a, now);
            let aborts = if i < m.tunnels.len() && m.tunnels[i as int].task is Some {
                seq![Command::Abort { task: m.tunnels[i as int].task->0 }]
            } else {
                Seq::empty()
            };
            let starts = if i < m.tunnels.len() && config.enabled {
                seq![Command::Spawn { index: i, task: m.next_task }]
            } else {
                Seq::empty()
            };
            &&& commands == aborts + seq![Command::Save] + starts
            &&& i >= m.tunnels.len() ==> after == m
            &&& i < m.tunnels.len() ==> {
                let t = after.tunnels[i as int];
                &&& t.config == config
                &&& !config.enabled ==> t.task is None && t.state.status == TunnelStatus::Stopped
                &&& config.enabled ==> t.task == Some(m.next_task) && t.health_port
                    == config.local_port
            }
        }),
{
}

/// A deletion takes the tunnel out and leaves the others as they are, in their
/// order. It is saved; no task is started or aborted.
pub proof fn a_deletion_takes_one_tunnel_out(m: ManagerView, a: AppView, now: u64, i: usize)
    ensures
        ({
            let (after, told, commands) = action_step(ActionView::DeleteTunnel(i), m, a, now);
            &&& commands == seq![Command::Save]
            &&& after.next_task == m.next_task
            &&& i >= m.tunnels.len() ==> after == m && told == a
            &&& i < m.tunnels.len() ==> {
                &&& after.tunnels.len() == m.tunnels.len() - 1
                &&& forall|j: int| 0 <= j < i ==> after.tunnels[j] == m.tunnels[j]
                &&& forall|j: int|
                    i <= j < m.tunnels.len() - 1 ==> after.tunnels[j] == m.tunnels[j + 1]
            }
        }),
{
}

/// To start all starts each tunnel that is enabled and leaves every other as it
/// was. To stop all leaves every tunnel stopped and without a task, and aborts the
/// tasks there were.
pub proof fn all_are_started_and_stopped(m: ManagerView, a: AppView, now: u64, j: int)
    requires
        tasks_are_distinct(m),
        m.tunnels.len() <= usize::MAX,
        m.next_task + m.tunnels.len() < u64::MAX,
        0 <= j < m.tunnels.len(),
    ensures
        ({
            let (after, _, commands) = action_step(ActionView::StartAll, m, a, now);
            let t = after.tunnels[j];
            &&& after.tunnels.len() == m.tunnels.len()
            &&& !m.tunnels[j].config.enabled ==> t == m.tunnels[j]
            &&& m.tunnels[j].config.enabled ==> {
                &&& t.config == m.tunnels[j].config
                &&& t.state.status == (TunnelStatus::Reconnecting { failures: 0, backoff: 1 })
                &&& t.task is Some
                &&& commands.contains(Command::Spawn { index: j as usize, task: t.task->0 })
                &&& m.tunnels[j].task matches Some(task) ==> commands.contains(
                    Command::Abort { task },
                )
            }
        }),
        ({
            let (after, _, commands) = action_step(ActionView::StopAll, m, a, now);
            let t = after.tunnels[j];
            &&& after.tunnels.len() == m.tunnels.len()
            &&& after.next_task == m.next_task
            &&& t.config == m.tunnels[j].config
            &&& t.state.status == TunnelStatus::Stopped
            &&& t.task is None
            &&& m.tunnels[j].task matches Some(task) ==> commands.contains(Command::Abort { task })
        }),
{
    let n = m.tunnels.len() as int;
    every_enabled_tunnel_is_spawned(m, j);
    exactly_the_enabled_are_started(m, n, j);
    commands_agree_with_the_tunnels(m, j, n);
    stopping_all_stops_each(m, j, 0);
    stopping_all_leaves_nothing_running(m);
    assert(all_stopped(m.tunnels)[j].task is None);
    let after = start_enabled(m, n).0;
    if m.tunnels[j].config.enabled {
        let task = choose|task: u64| after.tunnels[j] == #[trigger] started(m.tunnels[j], task);
        starts_and_stops_are_recorded(m.tunnels[j], task);
    }
}

/// A check and the end of the program change no tunnel; a check asks for the ports
/// to be checked.
pub proof fn checks_and_quitting_change_no_tunnel(m: ManagerView, a: AppView, now: u64)
    ensures
        action_step(ActionView::HealthCheck, m, a, now) == (m, a, seq![Command::Probe]),
        action_step(ActionView::Quit, m, a, now).0 == m,
        action_step(ActionView::Quit, m, a, now).2.len() == 0,
{
}

/// The user is told what was done, by the name of the tunnel, and since when.
pub proof fn what_was_done_is_told(
    m: ManagerView,
    a: AppView,
    now: u64,
    i: usize,
    config: TunnelConfigView,
)
    ensures
        i < m.tunnels.len() ==> {
            let name = m.tunnels[i as int].config.name;
            &&& action_step(ActionView::Start(i), m, a, now).1.notification == Some(
                ("Started: "@ + name, now),
            )
            &&& action_step(ActionView::Stop(i), m, a, now).1.notification == Some(
                ("Stopped: "@ + name, now),
            )
            &&& action_step(ActionView::Restart(i), m, a, now).1.notification == Some(
                ("Restarted: "@ + name, now),
            )
            &&& action_step(ActionView::DeleteTunnel(i), m, a, now).1.notification == Some(
                ("Deleted: "@ + name, now),
            )
        },
        i >= m.tunnels.len() ==> {
            &&& action_step(ActionView::Start(i), m, a, now).1.notification == Some(
                ("Started: "@ + Seq::empty(), now),
            )
            &&& action_step(ActionView::Stop(i), m, a, now).1.notification == Some(
                ("Stopped: "@ + Seq::empty(), now),
            )
            &&& action_step(ActionView::Restart(i), m, a, now).1.notification == Some(
                ("Restarted: "@ + Seq::empty(), now),
            )
        },
        action_step(ActionView::AddTunnel(config), m, a, now).1.notification == Some(
            ("Added: "@ + config.name, now),
        ),
        action_step(ActionView::EditTunnel(i, config), m, a, now).1.notification == Some(
            ("Updated: "@ + config.name, now),
        ),
        action_step(ActionView::StartAll, m, a, now).1.notification == Some(
            ("Started all enabled tunnels"@, now),
        ),
        action_step(ActionView::StopAll, m, a, now).1.notification == Some(
            ("Stopped all tunnels"@, now),
        ),
        action_step(ActionView::Quit, m, a, now).1.notification == Some(("Quitting..."@, now)),
{
}

} // verus!
