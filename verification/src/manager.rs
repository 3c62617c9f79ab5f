//! The tunnels that are managed, and what starting and stopping them asks for.
use crate::config::{config_views, TunnelConfig, TunnelConfigView};
use crate::number::{decimal, to_decimal};
use crate::run_loop::{is_failure, loop_step, LoopAction, LoopEvent, RunLoop};
use crate::tunnel::{
    fresh, idle_state, start_tunnel, started, stop_tunnel, stopped, Tunnel, TunnelState,
    TunnelStatus, TunnelView,
};
use vstd::prelude::*;

verus! {

/// What is to be done outside.
#[derive(Debug, Clone, Copy, PartialEq, Eq, Structural)]
pub enum Command {
    /// Abort a background task.
    Abort { task: u64 },
    /// Start a background task, which keeps the tunnel at `index` alive.
    Spawn { index: usize, task: u64 },
    /// Write the configurations to the configuration file.
    Save,
    /// Check the ports of the running tunnels.
    Probe,
}

/// The tunnels, and the number of the next background task.
#[derive(Debug)]
pub struct TunnelManager {
    pub tunnels: Vec<Tunnel>,
    pub next_task: u64,
}

#[verifier::ext_equal]
pub struct ManagerView {
    pub tunnels: Seq<TunnelView>,
    pub next_task: u64,
}

impl View for TunnelManager {
    type V = ManagerView;

    open spec fn view(&self) -> ManagerView {
        ManagerView { tunnels: tunnel_views(self.tunnels@), next_task: self.next_task }
    }
}

/// The views of a sequence of tunnels.
pub open spec fn tunnel_views(tunnels: Seq<Tunnel>) -> Seq<TunnelView> {
    tunnels.map_values(|t: Tunnel| t@)
}

// ── the rules ───────────────────────────────────────────────────────────────
/// Tunnels that were never started, one for each configuration.
pub open spec fn fresh_tunnels(configs: Seq<TunnelConfigView>) -> Seq<TunnelView> {
    configs.map_values(|c: TunnelConfigView| fresh(c))
}

/// The number after `n`. After the largest number, counting starts anew.
pub open spec fn following(n: u64) -> u64 {
    if n == u64::MAX {
        0
    } else {
        (n + 1) as u64
    }
}

/// The command that aborts a task, if there is one.
pub open spec fn abort(task: Option<u64>) -> Seq<Command> {
    match task {
        Some(task) => seq![Command::Abort { task }],
        None => Seq::empty(),
    }
}

/// The manager after a start of the tunnel at `i`, and what that asks for.
pub open spec fn start_at(m: ManagerView, i: int) -> (ManagerView, Seq<Command>) {
    if 0 <= i < m.tunnels.len() {
        let t = m.tunnels[i];
        (
            ManagerView {
                tunnels: m.tunnels.update(i, started(t, m.next_task)),
                next_task: following(m.next_task),
            },
            abort(t.task).push(Command::Spawn { index: i as usize, task: m.next_task }),
        )
    } else {
        (m, Seq::empty())
    }
}

/// The manager after a stop of the tunnel at `i`, and what that asks for.
pub open spec fn stop_at(m: ManagerView, i: int) -> (ManagerView, Seq<Command>) {
    if 0 <= i < m.tunnels.len() {
        let t = m.tunnels[i];
        (ManagerView { tunnels: m.tunnels.update(i, stopped(t)), ..m }, abort(t.task))
    } else {
        (m, Seq::empty())
    }
}

/// The manager after a stop and then a start of the tunnel at `i`.
pub open spec fn restart_at(m: ManagerView, i: int) -> (ManagerView, Seq<Command>) {
    let (halted, aborts) = stop_at(m, i);
    let (running, starts) = start_at(halted, i);
    (running, aborts + starts)
}

/// The manager after a start of the enabled ones among the first `n` tunnels, in
/// their order.
pub open spec fn start_enabled(m: ManagerView, n: int) -> (ManagerView, Seq<Command>)
    decreases n,
{
    if n <= 0 {
        (m, Seq::empty())
    } else {
        let (before, commands) = start_enabled(m, n - 1);
        if m.tunnels[n - 1].config.enabled {
            let (after, more) = start_at(before, n - 1);
            (after, commands + more)
        } else {
            (before, commands)
        }
    }
}

/// The commands that abort the tasks of the tunnels, in their order.
pub open spec fn abort_all(tunnels: Seq<TunnelView>) -> Seq<Command>
    decreases tunnels.len(),
{
    if tunnels.len() == 0 {
        Seq::empty()
    } else {
        abort_all(tunnels.drop_last()) + abort(tunnels.last().task)
    }
}

/// The tunnels, each of them stopped.
pub open spec fn all_stopped(tunnels: Seq<TunnelView>) -> Seq<TunnelView> {
    tunnels.map_values(|t: TunnelView| stopped(t))
}

/// The configurations of the tunnels.
pub open spec fn configs_of(tunnels: Seq<TunnelView>) -> Seq<TunnelConfigView> {
    tunnels.map_values(|t: TunnelView| t.config)
}

/// Whether the SSH process of a tunnel runs.
pub open spec fn is_running(t: TunnelView) -> bool {
    t.state.status == TunnelStatus::Running
}

/// How many of the tunnels are running.
pub open spec fn running_count(tunnels: Seq<TunnelView>) -> nat {
    tunnels.filter(|t: TunnelView| is_running(t)).len()
}

/// How many tunnels are active, out of how many.
pub open spec fn summary(m: ManagerView) -> Seq<char> {
    "Active: "@ + decimal(running_count(m.tunnels)) + "/"@ + decimal(m.tunnels.len())
}

/// The first tunnel that a task keeps alive, or the number of tunnels.
pub open spec fn tunnel_of(tunnels: Seq<TunnelView>, task: u64) -> int
    decreases tunnels.len(),
{
    if tunnels.len() == 0 || tunnels[0].task == Some(task) {
        0
    } else {
        1 + tunnel_of(tunnels.skip(1), task)
    }
}

/// The manager, the loop and the action after an event of a task. What happens
/// to a task that keeps no tunnel alive any more is recorded nowhere.
pub open spec fn task_step(m: ManagerView, task: u64, l: RunLoop, event: LoopEvent) -> (
    ManagerView,
    RunLoop,
    LoopAction,
) {
    let i = tunnel_of(m.tunnels, task);
    if i < m.tunnels.len() {
        let t = m.tunnels[i];
        let (next, state, action) = loop_step(l, t.state, event);
        (
            ManagerView { tunnels: m.tunnels.update(i, TunnelView { state, ..t }), ..m },
            next,
            action,
        )
    } else {
        let (next, _, action) = loop_step(l, idle_state(), event);
        (m, next, action)
    }
}

// ── the manager ─────────────────────────────────────────────────────────────
fn push_abort(commands: &mut Vec<Command>, task: Option<u64>)
    ensures
        final(commands)@ == old(commands)@ + abort(task),
{
    if let Some(task) = task {
        commands.push(Command::Abort { task });
    }
}

impl TunnelManager {
    /// A manager of the configurations that were read, or of none where there
    /// was no configuration file to be read.
    pub fn new(loaded: Option<Vec<TunnelConfig>>) -> (m: Self)
        ensures
            m@.next_task == 0,
            m@.tunnels == match loaded {
                Some(configs) => fresh_tunnels(config_views(configs@)),
                None => Seq::empty(),
            },
    {
        let mut m = TunnelManager { tunnels: Vec::new(), next_task: 0 };
        assert(m@.tunnels == Seq::<TunnelView>::empty());
        m.load_config(loaded);
        m
    }

    /// Takes over the configurations that were read. Without a configuration file
    /// to be read, everything stays as it is.
    pub fn load_config(&mut self, loaded: Option<Vec<TunnelConfig>>)
        ensures
            final(self)@ == match loaded {
                Some(configs) => ManagerView {
                    tunnels: fresh_tunnels(config_views(configs@)),
                    ..old(self)@
                },
                None => old(self)@,
            },
    {
        if let Some(configs) = loaded {
            let mut tunnels: Vec<Tunnel> = Vec::new();
            for i in 0..configs.len()
                invariant
                    tunnel_views(tunnels@) == fresh_tunnels(config_views(configs@)).take(i as int),
            {
                let ghost before = tunnels@;
                tunnels.push(Tunnel::from_config(configs[i].clone()));
                assert(tunnel_views(tunnels@) == tunnel_views(before).push(
                    fresh(configs@[i as int]@),
                ));
            }
            assert(fresh_tunnels(config_views(configs@)).take(configs@.len() as int)
                == fresh_tunnels(config_views(configs@)));
            self.tunnels = tunnels;
        }
    }

    /// The configurations that a save writes.
    pub fn save_config(&self) -> (configs: Vec<TunnelConfig>)
        ensures
            config_views(configs@) == configs_of(self@.tunnels),
    {
        let mut configs: Vec<TunnelConfig> = Vec::new();
        let ghost all = configs_of(self@.tunnels);
        for i in 0..self.tunnels.len()
            invariant
                all == configs_of(self@.tunnels),
                config_views(configs@) == all.take(i as int),
        {
            let ghost before = configs@;
            configs.push(self.tunnels[i].config.clone());
            assert(all[i as int] == self.tunnels@[i as int].config@);
            assert(config_views(configs@) == config_views(before).push(all[i as int]));
        }
        assert(all.take(all.len() as int) == all);
        configs
    }

    /// Adds a tunnel, which is not started.
    pub fn add_tunnel(&mut self, config: TunnelConfig)
        ensures
            final(self)@ == (ManagerView {
                tunnels: old(self)@.tunnels.push(fresh(config@)),
                ..old(self)@
            }),
    {
        self.tunnels.push(Tunnel::from_config(config));
        assert(self@.tunnels == old(self)@.tunnels.push(fresh(config@)));
    }

    /// Removes a tunnel. Its task, if it has one, is left alone.
    pub fn remove_tunnel(&mut self, index: usize) -> (removed: Option<Tunnel>)
        ensures
            match removed {
                Some(t) => {
                    &&& index < old(self)@.tunnels.len()
                    &&& t@ == old(self)@.tunnels[index as int]
                    &&& final(self)@ == (ManagerView {
                        tunnels: old(self)@.tunnels.remove(index as int),
                        ..old(self)@
                    })
                },
                None => index >= old(self)@.tunnels.len() && final(self)@ == old(self)@,
            },
    {
        if index < self.tunnels.len() {
            let removed = self.tunnels.remove(index);
            assert(self@.tunnels == old(self)@.tunnels.remove(index as int));
            Some(removed)
        } else {
            None
        }
    }

    /// Gives the tunnel at `index` another configuration.
    pub fn set_config(&mut self, index: usize, config: TunnelConfig)
        ensures
            final(self)@ == if index < old(self)@.tunnels.len() {
                ManagerView {
                    tunnels: old(self)@.tunnels.update(
                        index as int,
                        TunnelView { config: config@, ..old(self)@.tunnels[index as int] },
                    ),
                    ..old(self)@
                }
            } else {
                old(self)@
            },
    {
        if index < self.tunnels.len() {
            self.tunnels[index].config = config;
            assert(self@.tunnels == old(self)@.tunnels.update(
                index as int,
                TunnelView { config: config@, ..old(self)@.tunnels[index as int] },
            ));
        }
    }

    // ── lifecycle ───────────────────────────────────────────────────────────
    fn push_start(&mut self, index: usize, commands: &mut Vec<Command>)
        ensures
            final(self)@ == start_at(old(self)@, index as int).0,
            final(commands)@ == old(commands)@ + start_at(old(self)@, index as int).1,
    {
        if index < self.tunnels.len() {
            let task = self.next_task;
            let previous = start_tunnel(&mut self.tunnels[index], task);
            self.next_task = if task == u64::MAX {
                0
            } else {
                task + 1
            };
            push_abort(commands, previous);
            commands.push(Command::Spawn { index, task });
            assert(self@.tunnels == start_at(old(self)@, index as int).0.tunnels);
        }
    }

    fn push_stop(&mut self, index: usize, commands: &mut Vec<Command>)
        ensures
            final(self)@ == stop_at(old(self)@, index as int).0,
            final(commands)@ == old(commands)@ + stop_at(old(self)@, index as int).1,
    {
        if index < self.tunnels.len() {
            let previous = stop_tunnel(&mut self.tunnels[index]);
            push_abort(commands, previous);
            assert(self@.tunnels == stop_at(old(self)@, index as int).0.tunnels);
        }
    }

    /// Starts the tunnel at `index`, if there is one.
    pub fn start(&mut self, index: usize) -> (commands: Vec<Command>)
        ensures
            (final(self)@, commands@) == start_at(old(self)@, index as int),
    {
        let mut commands: Vec<Command> = Vec::new();
        self.push_start(index, &mut commands);
        commands
    }

    /// Stops the tunnel at `index`, if there is one.
    pub fn stop(&mut self, index: usize) -> (commands: Vec<Command>)
        ensures
            (final(self)@, commands@) == stop_at(old(self)@, index as int),
    {
        let mut commands: Vec<Command> = Vec::new();
        self.push_stop(index, &mut commands);
        commands
    }

    /// Stops the tunnel at `index`, if there is one, and starts it again.
    pub fn restart(&mut self, index: usize) -> (commands: Vec<Command>)
        ensures
            (final(self)@, commands@) == restart_at(old(self)@, index as int),
    {
        let mut commands: Vec<Command> = Vec::new();
        self.push_stop(index, &mut commands);
        self.push_start(index, &mut commands);
        commands
    }

    /// Starts every tunnel that is enabled.
    pub fn start_all_enabled(&mut self) -> (commands: Vec<Command>)
        ensures
            (final(self)@, commands@) == start_enabled(
                old(self)@,
                old(self)@.tunnels.len() as int,
            ),
    {
        let mut commands: Vec<Command> = Vec::new();
        let n = self.tunnels.len();
        for i in 0..n
            invariant
                n == old(self)@.tunnels.len(),
                (self@, commands@) == start_enabled(old(self)@, i as int),
        {
            proof {
                lemma_start_enabled_keeps_configs(old(self)@, i as int);
            }
            assert(self@.tunnels[i as int] == self.tunnels@[i as int]@);
            if self.tunnels[i].config.enabled {
                self.push_start(i, &mut commands);
            }
        }
        commands
    }

    /// Stops every tunnel.
    pub fn stop_all(&mut self) -> (commands: Vec<Command>)
        ensures
            final(self)@ == (ManagerView {
                tunnels: all_stopped(old(self)@.tunnels),
                ..old(self)@
            }),
            commands@ == abort_all(old(self)@.tunnels),
    {
        let mut commands: Vec<Command> = Vec::new();
        let n = self.tunnels.len();
        let ghost all = old(self)@.tunnels;
        assert(all.take(0) == Seq::<TunnelView>::empty());
        for i in 0..n
            invariant
                all == old(self)@.tunnels,
                n == all.len(),
                self@.next_task == old(self)@.next_task,
                self@.tunnels.len() == n,
                forall|j: int| 0 <= j < i ==> #[trigger] self@.tunnels[j] == stopped(all[j]),
                forall|j: int| i <= j < n ==> #[trigger] self@.tunnels[j] == all[j],
                commands@ == abort_all(all.take(i as int)),
        {
            assert(all.take(i + 1).drop_last() == all.take(i as int));
            self.push_stop(i, &mut commands);
        }
        assert(all.take(n as int) == all);
        assert(self@.tunnels == all_stopped(all));
        commands
    }

    /// Takes an event of a background task to its next action. What became of the
    /// SSH process is recorded in the tunnel that the task keeps alive.
    pub fn step_task(&mut self, task: u64, l: &mut RunLoop, event: LoopEvent) -> (action:
        LoopAction)
        requires
            old(l).wf(),
            is_failure(event) ==> old(l).failures < u32::MAX,
        ensures
            final(l).wf(),
            (final(self)@, *final(l), action) == task_step(old(self)@, task, *old(l), event),
    {
        let mut i: usize = 0;
        let n = self.tunnels.len();
        let ghost all = self@.tunnels;
        assert(all.skip(0) == all);
        while i < n && self.tunnels[i].task != Some(task)
            invariant
                self@ == old(self)@,
                all == self@.tunnels,
                n == all.len(),
                i <= n,
                tunnel_of(all, task) == i + tunnel_of(all.skip(i as int), task),
            decreases n - i,
        {
            assert(all.skip(i as int)[0] == self.tunnels@[i as int]@);
            assert(all.skip(i as int).skip(1) == all.skip(i + 1));
            i = i + 1;
        }
        if i < n {
            assert(all.skip(i as int)[0] == self.tunnels@[i as int]@);
            let action = l.step(event, &mut self.tunnels[i].state);
            assert(self@.tunnels == task_step(old(self)@, task, *old(l), event).0.tunnels);
            action
        } else {
            let mut unseen = TunnelState::idle();
            l.step(event, &mut unseen)
        }
    }

    // ── snapshot (for the screen) ───────────────────────────────────────────
    /// The status, the start time and the last error of the tunnel at `index`.
    pub fn snapshot(&self, index: usize) -> (r: Option<(TunnelStatus, Option<u64>, String)>)
        ensures
            match r {
                Some(s) => {
                    &&& index < self@.tunnels.len()
                    &&& s.0 == self@.tunnels[index as int].state.status
                    &&& s.1 == self@.tunnels[index as int].state.start_time
                    &&& s.2@ == self@.tunnels[index as int].state.last_error
                },
                None => index >= self@.tunnels.len(),
            },
    {
        if index < self.tunnels.len() {
            Some(self.tunnels[index].snapshot())
        } else {
            None
        }
    }

    /// How many tunnels are active, out of how many.
    pub fn status_summary(&self) -> (r: String)
        ensures
            r@ == summary(self@),
    {
        let mut running: usize = 0;
        let ghost all = self@.tunnels;
        let ghost pred = |t: TunnelView| is_running(t);
        assert(all.take(0).filter(pred).len() == 0) by {
            reveal(Seq::filter);
        }
        for i in 0..self.tunnels.len()
            invariant
                all == self@.tunnels,
                pred == (|t: TunnelView| is_running(t)),
                running == all.take(i as int).filter(pred).len(),
                running <= i,
        {
            proof {
                reveal(Seq::filter);
                assert(all.take(i + 1).drop_last() == all.take(i as int));
                assert(all[i as int] == self.tunnels@[i as int]@);
            }
            if self.tunnels[i].state.status == TunnelStatus::Running {
                running = running + 1;
            }
        }
        assert(all.take(all.len() as int) == all);
        "Active: ".to_string().concat(to_decimal(running as u64).as_str()).concat("/").concat(
            to_decimal(self.tunnels.len() as u64).as_str(),
        )
    }
}

// ── what holds of every manager ─────────────────────────────────────────────
proof fn lemma_start_enabled_keeps_configs(m: ManagerView, n: int)
    requires
        0 <= n <= m.tunnels.len(),
    ensures
        ({
            let after = start_enabled(m, n).0;
            &&& after.tunnels.len() == m.tunnels.len()
            &&& forall|j: int|
                0 <= j < m.tunnels.len() ==> (#[trigger] after.tunnels[j]).config
                    == m.tunnels[j].config
        }),
    decreases n,
{
    if n > 0 {
        lemma_start_enabled_keeps_configs(m, n - 1);
    }
}

/// What a save writes is what a load of it configures.
pub proof fn a_load_gives_back_a_save(m: ManagerView)
    ensures
        configs_of(fresh_tunnels(configs_of(m.tunnels))) == configs_of(m.tunnels),
{
}

/// Removing the tunnel that was just added leaves the manager as it was.
pub proof fn removing_undoes_adding(m: ManagerView, config: TunnelConfigView)
    ensures
        m.tunnels.push(fresh(config)).remove(m.tunnels.len() as int) == m.tunnels,
{
}

/// To start or to stop a tunnel touches no other tunnel and no configuration.
pub proof fn other_tunnels_are_left_alone(m: ManagerView, i: int, j: int)
    requires
        0 <= j < m.tunnels.len(),
    ensures
        start_at(m, i).0.tunnels.len() == m.tunnels.len(),
        stop_at(m, i).0.tunnels.len() == m.tunnels.len(),
        start_at(m, i).0.tunnels[j].config == m.tunnels[j].config,
        stop_at(m, i).0.tunnels[j].config == m.tunnels[j].config,
        j != i ==> start_at(m, i).0.tunnels[j] == m.tunnels[j],
        j != i ==> stop_at(m, i).0.tunnels[j] == m.tunnels[j],
{
}

/// A restart asks for what a start asks for.
pub proof fn a_restart_is_a_start(m: ManagerView, i: int)
    ensures
        restart_at(m, i) == start_at(m, i),
{
    if 0 <= i < m.tunnels.len() {
        let halted = stop_at(m, i).0;
        assert(halted.tunnels.update(i, started(halted.tunnels[i], m.next_task))
            == m.tunnels.update(i, started(m.tunnels[i], m.next_task)));
        assert(restart_at(m, i).1 == start_at(m, i).1);
    } else {
        assert(restart_at(m, i).1 == start_at(m, i).1);
    }
}

/// When all tunnels have been stopped, none is running and none has a task; each
/// task that there was has been aborted.
pub proof fn stopping_all_leaves_nothing_running(m: ManagerView)
    ensures
        running_count(all_stopped(m.tunnels)) == 0,
        forall|i: int|
            0 <= i < m.tunnels.len() ==> (#[trigger] all_stopped(m.tunnels)[i]).task is None,
        forall|i: int|
            0 <= i < m.tunnels.len() && (#[trigger] m.tunnels[i]).task is Some ==> abort_all(
                m.tunnels,
            ).contains(Command::Abort { task: m.tunnels[i].task->0 }),
{
    let halted = all_stopped(m.tunnels);
    let pred = |t: TunnelView| is_running(t);
    if halted.filter(pred).len() > 0 {
        halted.lemma_filter_pred(pred, 0);
        lemma_filtered_is_one_of(halted, pred, 0);
    }
    lemma_every_task_is_aborted(m.tunnels);
}

proof fn lemma_filtered_is_one_of(s: Seq<TunnelView>, pred: spec_fn(TunnelView) -> bool, i: int)
    requires
        0 <= i < s.filter(pred).len(),
    ensures
        exists|j: int| 0 <= j < s.len() && #[trigger] s[j] == s.filter(pred)[i],
    decreases s.len(),
{
    reveal(Seq::filter);
    if s.len() > 0 {
        let rest = s.drop_last();
        if i < rest.filter(pred).len() {
            lemma_filtered_is_one_of(rest, pred, i);
            let j = choose|j: int| 0 <= j < rest.len() && #[trigger] rest[j] == rest.filter(pred)[i];
            assert(s[j] == s.filter(pred)[i]);
        } else {
            assert(s[s.len() - 1] == s.filter(pred)[i]);
        }
    }
}

proof fn lemma_every_task_is_aborted(tunnels: Seq<TunnelView>)
    ensures
        forall|i: int|
            0 <= i < tunnels.len() && (#[trigger] tunnels[i]).task is Some ==> abort_all(
                tunnels,
            ).contains(Command::Abort { task: tunnels[i].task->0 }),
    decreases tunnels.len(),
{
    if tunnels.len() > 0 {
        let rest = tunnels.drop_last();
        lemma_every_task_is_aborted(rest);
        assert forall|i: int|
            0 <= i < tunnels.len() && (#[trigger] tunnels[i]).task is Some implies abort_all(
            tunnels,
        ).contains(Command::Abort { task: tunnels[i].task->0 }) by {
            let command = Command::Abort { task: tunnels[i].task->0 };
            let earlier = abort_all(rest);
            if i < rest.len() {
                assert(rest[i] == tunnels[i]);
                let k = earlier.index_of(command);
                assert(abort_all(tunnels)[k] == command);
            } else {
                assert(abort_all(tunnels)[earlier.len() as int] == command);
            }
        }
    }
}

/// To start all enabled tunnels starts each of them, and leaves every other
/// tunnel as it was.
pub proof fn exactly_the_enabled_are_started(m: ManagerView, n: int, j: int)
    requires
        0 <= n <= m.tunnels.len(),
        0 <= j < m.tunnels.len(),
    ensures
        start_enabled(m, n).0.tunnels.len() == m.tunnels.len(),
        j < n && m.tunnels[j].config.enabled ==> exists|task: u64|
            start_enabled(m, n).0.tunnels[j] == #[trigger] started(m.tunnels[j], task),
        j >= n || !m.tunnels[j].config.enabled ==> start_enabled(m, n).0.tunnels[j]
            == m.tunnels[j],
    decreases n,
{
    if n > 0 {
        exactly_the_enabled_are_started(m, n - 1, j);
        let before = start_enabled(m, n - 1).0;
        if j == n - 1 && m.tunnels[j].config.enabled {
            assert(start_enabled(m, n).0.tunnels[j] == started(before.tunnels[j], before.next_task));
            assert(before.tunnels[j] == m.tunnels[j]);
        }
    }
}

/// The tasks of the tunnels have numbers that were given out, each of them once.
pub open spec fn tasks_are_distinct(m: ManagerView) -> bool {
    &&& forall|i: int|
        0 <= i < m.tunnels.len() && (#[trigger] m.tunnels[i]).task is Some ==> m.tunnels[i].task->0
            < m.next_task
    &&& forall|i: int, j: int|
        0 <= i < j < m.tunnels.len() && (#[trigger] m.tunnels[i]).task is Some ==> m.tunnels[i].task
            != (#[trigger] m.tunnels[j]).task
}

/// No two tunnels ever share a task, as long as the numbers last.
pub proof fn tasks_stay_distinct(
    m: ManagerView,
    i: int,
    config: TunnelConfigView,
    task: u64,
    l: RunLoop,
    event: LoopEvent,
)
    requires
        tasks_are_distinct(m),
    ensures
        m.next_task < u64::MAX ==> tasks_are_distinct(start_at(m, i).0),
        tasks_are_distinct(stop_at(m, i).0),
        tasks_are_distinct(ManagerView { tunnels: m.tunnels.push(fresh(config)), ..m }),
        0 <= i < m.tunnels.len() ==> tasks_are_distinct(
            ManagerView { tunnels: m.tunnels.remove(i), ..m },
        ),
        tasks_are_distinct(task_step(m, task, l, event).0),
{
    if 0 <= i < m.tunnels.len() {
        let rest = m.tunnels.remove(i);
        assert forall|a: int, b: int|
            0 <= a < b < rest.len() && (#[trigger] rest[a]).task is Some implies rest[a].task != (
        #[trigger] rest[b]).task by {
            let a0 = if a < i { a } else { a + 1 };
            let b0 = if b < i { b } else { b + 1 };
            assert(rest[a] == m.tunnels[a0] && rest[b] == m.tunnels[b0]);
        }
        assert forall|a: int|
            0 <= a < rest.len() && (#[trigger] rest[a]).task is Some implies rest[a].task->0
            < m.next_task by {
            let a0 = if a < i { a } else { a + 1 };
            assert(rest[a] == m.tunnels[a0]);
        }
    }
    let after = task_step(m, task, l, event).0.tunnels;
    lemma_tunnel_of_is_in_range(m.tunnels, task);
    assert(forall|a: int| 0 <= a < after.len() ==> (#[trigger] after[a]).task == m.tunnels[a].task);
}

proof fn lemma_tunnel_of_is_in_range(tunnels: Seq<TunnelView>, task: u64)
    ensures
        0 <= tunnel_of(tunnels, task) <= tunnels.len(),
        tunnel_of(tunnels, task) < tunnels.len() ==> tunnels[tunnel_of(tunnels, task)].task
            == Some(task),
    decreases tunnels.len(),
{
    if tunnels.len() > 0 && tunnels[0].task != Some(task) {
        lemma_tunnel_of_is_in_range(tunnels.skip(1), task);
    }
}

/// Whether what is asked for agrees with the tunnels: a task that is to be started
/// is the one that keeps its tunnel alive, and a task that is to be aborted keeps
/// none alive.
pub open spec fn commands_agree(m: ManagerView, commands: Seq<Command>) -> bool {
    forall|k: int|
        0 <= k < commands.len() ==> match #[trigger] commands[k] {
            Command::Spawn { index, task } => index < m.tunnels.len()
                && m.tunnels[index as int].task == Some(task),
            Command::Abort { task } => forall|i: int|
                0 <= i < m.tunnels.len() ==> (#[trigger] m.tunnels[i]).task != Some(task),
            _ => true,
        }
}

/// Whether each task that a tunnel had before it still has, or is to be aborted.
pub open spec fn no_task_is_lost(
    before: ManagerView,
    after: ManagerView,
    commands: Seq<Command>,
) -> bool {
    forall|i: int|
        0 <= i < before.tunnels.len() && (#[trigger] before.tunnels[i]).task is Some
            ==> after.tunnels[i].task == before.tunnels[i].task || commands.contains(
            Command::Abort { task: before.tunnels[i].task->0 },
        )
}

proof fn lemma_start_agrees(m: ManagerView, i: int)
    requires
        tasks_are_distinct(m),
        m.next_task < u64::MAX,
        m.tunnels.len() <= usize::MAX,
    ensures
        commands_agree(start_at(m, i).0, start_at(m, i).1),
        no_task_is_lost(m, start_at(m, i).0, start_at(m, i).1),
{
    if 0 <= i < m.tunnels.len() {
        let (after, commands) = start_at(m, i);
        if m.tunnels[i].task is Some {
            assert(commands[0] == Command::Abort { task: m.tunnels[i].task->0 });
        }
        assert forall|k: int| 0 <= k < commands.len() implies match #[trigger] commands[k] {
            Command::Spawn { index, task } => index < after.tunnels.len()
                && after.tunnels[index as int].task == Some(task),
            Command::Abort { task } => forall|j: int|
                0 <= j < after.tunnels.len() ==> (#[trigger] after.tunnels[j]).task != Some(task),
            _ => true,
        } by {
            if let Command::Abort { task } = commands[k] {
                assert(m.tunnels[i].task == Some(task));
                assert forall|j: int| 0 <= j < after.tunnels.len() implies (
                #[trigger] after.tunnels[j]).task != Some(task) by {
                    if j != i {
                        assert(after.tunnels[j] == m.tunnels[j]);
                    }
                }
            }
        }
    }
}

proof fn lemma_start_enabled_agrees(m: ManagerView, n: int)
    requires
        tasks_are_distinct(m),
        0 <= n <= m.tunnels.len(),
        m.next_task + n < u64::MAX,
        m.tunnels.len() <= usize::MAX,
    ensures
        ({
            let (after, commands) = start_enabled(m, n);
            &&& tasks_are_distinct(after)
            &&& m.next_task <= after.next_task <= m.next_task + n
            &&& commands_agree(after, commands)
            &&& no_task_is_lost(m, after, commands)
            &&& forall|k: int|
                0 <= k < commands.len() ==> match #[trigger] commands[k] {
                    Command::Spawn { index, .. } => index < n,
                    Command::Abort { task } => task < m.next_task,
                    _ => true,
                }
        }),
    decreases n,
{
    if n > 0 {
        lemma_start_enabled_agrees(m, n - 1);
        lemma_start_enabled_keeps_configs(m, n - 1);
        exactly_the_enabled_are_started(m, n - 1, n - 1);
        if m.tunnels[n - 1].config.enabled {
            let (before, commands) = start_enabled(m, n - 1);
            let (after, more) = start_at(before, n - 1);
            let all = commands + more;
            tasks_stay_distinct(
                before,
                n - 1,
                m.tunnels[0].config,
                0,
                RunLoop { failures: 0, backoff: 0 },
                LoopEvent::DelayOver { stopped: true },
            );
            lemma_start_agrees(before, n - 1);
            assert forall|k: int| 0 <= k < all.len() implies match #[trigger] all[k] {
                Command::Spawn { index, task } => index < n && index < after.tunnels.len()
                    && after.tunnels[index as int].task == Some(task),
                Command::Abort { task } => task < m.next_task && forall|j: int|
                    0 <= j < after.tunnels.len() ==> (#[trigger] after.tunnels[j]).task != Some(
                        task,
                    ),
                _ => true,
            } by {
                if k < commands.len() {
                    assert(all[k] == commands[k]);
                    if let Command::Abort { task } = all[k] {
                        assert forall|j: int| 0 <= j < after.tunnels.len() implies (
                        #[trigger] after.tunnels[j]).task != Some(task) by {
                            assert(before.tunnels[j].task != Some(task));
                        }
                    }
                } else {
                    assert(all[k] == more[k - commands.len()]);
                }
            }
            assert forall|j: int|
                0 <= j < m.tunnels.len() && (
                #[trigger] m.tunnels[j]).task is Some implies after.tunnels[j].task
                == m.tunnels[j].task || all.contains(
                Command::Abort { task: m.tunnels[j].task->0 },
            ) by {
                let command = Command::Abort { task: m.tunnels[j].task->0 };
                if commands.contains(command) {
                    assert(all[commands.index_of(command)] == command);
                } else {
                    assert(before.tunnels[j].task == m.tunnels[j].task);
                    if more.contains(command) {
                        assert(all[commands.len() + more.index_of(command)] == command);
                    }
                }
            }
        }
    }
}

/// What a start or a stop asks for, of one tunnel or of many, agrees with the
/// tunnels, and no task is lost, as long as the numbers of the tasks last.
pub proof fn commands_agree_with_the_tunnels(m: ManagerView, i: int, n: int)
    requires
        tasks_are_distinct(m),
        0 <= n <= m.tunnels.len() <= usize::MAX,
        m.next_task + m.tunnels.len() < u64::MAX,
    ensures
        commands_agree(start_at(m, i).0, start_at(m, i).1),
        no_task_is_lost(m, start_at(m, i).0, start_at(m, i).1),
        commands_agree(stop_at(m, i).0, stop_at(m, i).1),
        no_task_is_lost(m, stop_at(m, i).0, stop_at(m, i).1),
        commands_agree(start_enabled(m, n).0, start_enabled(m, n).1),
        no_task_is_lost(m, start_enabled(m, n).0, start_enabled(m, n).1),
        ({
            let after = ManagerView { tunnels: all_stopped(m.tunnels), ..m };
            &&& commands_agree(after, abort_all(m.tunnels))
            &&& no_task_is_lost(m, after, abort_all(m.tunnels))
        }),
{
    lemma_start_agrees(m, i);
    if 0 <= i < m.tunnels.len() {
        let (after, commands) = stop_at(m, i);
        if m.tunnels[i].task is Some {
            assert(commands[0] == Command::Abort { task: m.tunnels[i].task->0 });
            assert forall|j: int| 0 <= j < after.tunnels.len() implies (
            #[trigger] after.tunnels[j]).task != m.tunnels[i].task by {
                if j != i {
                    assert(after.tunnels[j] == m.tunnels[j]);
                }
            }
        }
    }
    lemma_start_enabled_agrees(m, n);
    lemma_every_task_is_aborted(m.tunnels);
    lemma_only_aborts(m.tunnels);
}

proof fn lemma_only_aborts(tunnels: Seq<TunnelView>)
    ensures
        forall|k: int|
            0 <= k < abort_all(tunnels).len() ==> #[trigger] abort_all(tunnels)[k] is Abort,
    decreases tunnels.len(),
{
    if tunnels.len() > 0 {
        lemma_only_aborts(tunnels.drop_last());
        let before = abort_all(tunnels.drop_last());
        assert forall|k: int| 0 <= k < abort_all(tunnels).len() implies #[trigger] abort_all(
            tunnels,
        )[k] is Abort by {
            if k < before.len() {
                assert(abort_all(tunnels)[k] == before[k]);
            }
        }
    }
}

/// An event of a task reaches no tunnel but the one that the task keeps alive,
/// and there nothing but its state.
pub proof fn a_task_reaches_its_tunnel_only(
    m: ManagerView,
    task: u64,
    l: RunLoop,
    event: LoopEvent,
    j: int,
)
    requires
        0 <= j < m.tunnels.len(),
    ensures
        ({
            let after = task_step(m, task, l, event).0;
            &&& after.tunnels.len() == m.tunnels.len()
            &&& after.tunnels[j] == (TunnelView { state: after.tunnels[j].state, ..m.tunnels[j] })
            &&& m.tunnels[j].task != Some(task) ==> after.tunnels[j] == m.tunnels[j]
        }),
{
    lemma_tunnel_of_is_in_range(m.tunnels, task);
}

/// A tunnel that was stopped stays so, whatever its tasks still tell, until it is
/// started.
pub proof fn a_stop_is_kept(m: ManagerView, i: int, task: u64, l: RunLoop, event: LoopEvent)
    requires
        0 <= i < m.tunnels.len(),
    ensures
        task_step(stop_at(m, i).0, task, l, event).0.tunnels[i] == stopped(m.tunnels[i]),
{
    a_task_reaches_its_tunnel_only(stop_at(m, i).0, task, l, event, i);
}

/// A start gives the tunnel a new task, which is to be started for it, and aborts
/// the one it had. Where there is no such tunnel, nothing happens.
pub proof fn a_start_replaces_the_task(m: ManagerView, i: int)
    ensures
        ({
            let (after, commands) = start_at(m, i);
            &&& !(0 <= i < m.tunnels.len()) ==> after == m && commands.len() == 0
            &&& 0 <= i < m.tunnels.len() ==> {
                let spawn = Command::Spawn { index: i as usize, task: m.next_task };
                &&& after.tunnels[i].task == Some(m.next_task)
                &&& after.tunnels[i].state.status == (TunnelStatus::Reconnecting {
                    failures: 0,
                    backoff: 1,
                })
                &&& after.tunnels[i].health_port == m.tunnels[i].config.local_port
                &&& m.tunnels[i].task is None ==> commands == seq![spawn]
                &&& m.tunnels[i].task matches Some(task) ==> commands == seq![
                    Command::Abort { task },
                    spawn,
                ]
                &&& m.next_task < u64::MAX ==> after.next_task == m.next_task + 1
                &&& m.next_task == u64::MAX ==> after.next_task == 0
            }
        }),
{
}

/// A stop leaves the tunnel stopped and without a task, whatever it did before,
/// and aborts the one it had.
pub proof fn a_stop_aborts_the_task(m: ManagerView, i: int)
    ensures
        ({
            let (after, commands) = stop_at(m, i);
            &&& after.next_task == m.next_task
            &&& !(0 <= i < m.tunnels.len()) ==> after == m && commands.len() == 0
            &&& 0 <= i < m.tunnels.len() ==> {
                &&& after.tunnels[i].task is None
                &&& after.tunnels[i].state.status == TunnelStatus::Stopped
                &&& after.tunnels[i].state.start_time is None
                &&& m.tunnels[i].task is None ==> commands.len() == 0
                &&& m.tunnels[i].task matches Some(task) ==> commands == seq![
                    Command::Abort { task },
                ]
            }
        }),
{
}

/// To start all enabled tunnels asks for a start of the task of each of them.
pub proof fn every_enabled_tunnel_is_spawned(m: ManagerView, j: int)
    requires
        tasks_are_distinct(m),
        m.tunnels.len() <= usize::MAX,
        m.next_task + m.tunnels.len() < u64::MAX,
        0 <= j < m.tunnels.len(),
    ensures
        ({
            let (after, commands) = start_enabled(m, m.tunnels.len() as int);
            &&& m.tunnels[j].config.enabled ==> after.tunnels[j].task is Some
                && after.tunnels[j].task->0 >= m.next_task && commands.contains(
                Command::Spawn { index: j as usize, task: after.tunnels[j].task->0 },
            )
            &&& !m.tunnels[j].config.enabled ==> after.tunnels[j] == m.tunnels[j] && forall|k: int|
                0 <= k < commands.len() ==> !(#[trigger] commands[k] matches Command::Spawn {
                    index,
                    ..
                } && index == j)
        }),
{
    lemma_enabled_are_spawned(m, m.tunnels.len() as int, j);
    exactly_the_enabled_are_started(m, m.tunnels.len() as int, j);
}

proof fn lemma_enabled_are_spawned(m: ManagerView, n: int, j: int)
    requires
        tasks_are_distinct(m),
        m.tunnels.len() <= usize::MAX,
        m.next_task + m.tunnels.len() < u64::MAX,
        0 <= j < m.tunnels.len(),
        0 <= n <= m.tunnels.len(),
    ensures
        ({
            let (after, commands) = start_enabled(m, n);
            &&& j < n && m.tunnels[j].config.enabled ==> after.tunnels[j].task is Some
                && after.tunnels[j].task->0 >= m.next_task && commands.contains(
                Command::Spawn { index: j as usize, task: after.tunnels[j].task->0 },
            )
            &&& j >= n || !m.tunnels[j].config.enabled ==> forall|k: int|
                0 <= k < commands.len() ==> !(#[trigger] commands[k] matches Command::Spawn {
                    index,
                    ..
                } && index == j)
        }),
    decreases n,
{
    if n > 0 {
        lemma_enabled_are_spawned(m, n - 1, j);
        lemma_start_enabled_agrees(m, n - 1);
        lemma_start_enabled_keeps_configs(m, n - 1);
        let (before, commands) = start_enabled(m, n - 1);
        let (after, more) = start_at(before, n - 1);
        if m.tunnels[n - 1].config.enabled {
            let all = commands + more;
            if j < n && m.tunnels[j].config.enabled {
                let spawn = Command::Spawn { index: j as usize, task: after.tunnels[j].task->0 };
                if j < n - 1 {
                    assert(after.tunnels[j] == before.tunnels[j]);
                    assert(all[commands.index_of(spawn)] == spawn);
                } else {
                    assert(more.last() == spawn);
                    assert(all[all.len() - 1] == spawn);
                }
            } else {
                assert forall|k: int| 0 <= k < all.len() implies !(
                #[trigger] all[k] matches Command::Spawn { index, .. } && index == j) by {
                    if k < commands.len() {
                        assert(all[k] == commands[k]);
                    } else {
                        assert(all[k] == more[k - commands.len()]);
                    }
                }
            }
        }
    }
}

/// Stopping all tunnels leaves each of them stopped, with its configuration, and
/// aborts their tasks and no others.
pub proof fn stopping_all_stops_each(m: ManagerView, i: int, k: int)
    ensures
        all_stopped(m.tunnels).len() == m.tunnels.len(),
        0 <= i < m.tunnels.len() ==> {
            let t = all_stopped(m.tunnels)[i];
            &&& t.config == m.tunnels[i].config
            &&& t.task is None
            &&& t.state.status == TunnelStatus::Stopped
            &&& t.state.start_time is None
            &&& t.state.last_error.len() == 0
        },
        0 <= k < abort_all(m.tunnels).len() ==> exists|j: int|
            0 <= j < m.tunnels.len() && (#[trigger] m.tunnels[j]).task is Some && abort_all(
                m.tunnels,
            )[k] == (Command::Abort { task: m.tunnels[j].task->0 }),
{
    if 0 <= k < abort_all(m.tunnels).len() {
        lemma_aborts_are_of_tunnels(m.tunnels, k);
    }
}

proof fn lemma_aborts_are_of_tunnels(tunnels: Seq<TunnelView>, k: int)
    requires
        0 <= k < abort_all(tunnels).len(),
    ensures
        exists|j: int|
            0 <= j < tunnels.len() && (#[trigger] tunnels[j]).task is Some && abort_all(tunnels)[k]
                == (Command::Abort { task: tunnels[j].task->0 }),
    decreases tunnels.len(),
{
    let rest = tunnels.drop_last();
    if k < abort_all(rest).len() {
        lemma_aborts_are_of_tunnels(rest, k);
        let j = choose|j: int|
            0 <= j < rest.len() && (#[trigger] rest[j]).task is Some && abort_all(rest)[k] == (
            Command::Abort { task: rest[j].task->0 });
        assert(tunnels[j] == rest[j]);
        assert(abort_all(tunnels)[k] == abort_all(rest)[k]);
    } else {
        assert(tunnels[tunnels.len() - 1].task is Some);
    }
}

/// An event of a task is recorded in the tunnel that the task keeps alive, as its
/// loop says. What the task does next does not depend on the tunnels at all.
pub proof fn an_event_is_recorded_in_its_tunnel(
    m: ManagerView,
    task: u64,
    l: RunLoop,
    event: LoopEvent,
    j: int,
)
    requires
        tasks_are_distinct(m),
    ensures
        0 <= j < m.tunnels.len() && m.tunnels[j].task == Some(task) ==> task_step(
            m,
            task,
            l,
            event,
        ).0.tunnels[j].state == loop_step(l, m.tunnels[j].state, event).1,
        task_step(m, task, l, event).0.next_task == m.next_task,
        task_step(m, task, l, event).1 == loop_step(l, idle_state(), event).0,
        task_step(m, task, l, event).2 == loop_step(l, idle_state(), event).2,
{
    lemma_tunnel_of_is_in_range(m.tunnels, task);
    if 0 <= j < m.tunnels.len() && m.tunnels[j].task == Some(task) {
        lemma_tunnel_is_found(m.tunnels, task, j);
        let i = tunnel_of(m.tunnels, task);
        if i < j {
            assert(m.tunnels[i].task != m.tunnels[j].task);
        }
    }
}

proof fn lemma_tunnel_is_found(tunnels: Seq<TunnelView>, task: u64, j: int)
    requires
        0 <= j < tunnels.len(),
        tunnels[j].task == Some(task),
    ensures
        0 <= tunnel_of(tunnels, task) <= j,
    decreases tunnels.len(),
{
    if tunnels[0].task != Some(task) {
        assert(tunnels.skip(1)[j - 1] == tunnels[j]);
        lemma_tunnel_is_found(tunnels.skip(1), task, j - 1);
    }
}

/// A tunnel that is running, and no other, counts for the summary, which also
/// tells how many tunnels there are.
pub proof fn the_summary_counts_what_runs(m: ManagerView, t: TunnelView)
    ensures
        running_count(Seq::empty()) == 0,
        running_count(m.tunnels.push(t)) == running_count(m.tunnels) + if t.state.status
            == TunnelStatus::Running {
            1int
        } else {
            0int
        },
        running_count(m.tunnels) <= m.tunnels.len(),
        summary(m) == "Active: "@ + decimal(running_count(m.tunnels)) + "/"@ + decimal(
            m.tunnels.len(),
        ),
{
    reveal(Seq::filter);
    let pred = |t: TunnelView| is_running(t);
    assert(m.tunnels.push(t).drop_last() == m.tunnels);
    m.tunnels.lemma_filter_len(pred);
}

/// Tunnels that were loaded have the configurations that were read, in their
/// order, and are stopped.
pub proof fn a_load_starts_nothing(configs: Seq<TunnelConfigView>, i: int)
    ensures
        fresh_tunnels(configs).len() == configs.len(),
        0 <= i < configs.len() ==> {
            let t = fresh_tunnels(configs)[i];
            &&& t.config == configs[i]
            &&& t.task is None
            &&& t.state.status == TunnelStatus::Stopped
        },
{
}

/// A save writes the configuration of every tunnel, in their order, whatever the
/// tunnels do.
pub proof fn every_configuration_is_saved(m: ManagerView, i: int)
    ensures
        configs_of(m.tunnels).len() == m.tunnels.len(),
        0 <= i < m.tunnels.len() ==> configs_of(m.tunnels)[i] == m.tunnels[i].config,
{
}

/// The views of tunnels are those of each of them, in their order, and the view of
/// a tunnel holds all that is known of it.
pub proof fn a_view_holds_all_that_is_known(tunnels: Seq<Tunnel>, i: int)
    ensures
        tunnel_views(tunnels).len() == tunnels.len(),
        0 <= i < tunnels.len() ==> {
            let t = tunnels[i];
            let view = tunnel_views(tunnels)[i];
            &&& view.config == t.config@ && view.health_port == t.health_port
            &&& view.state.status == t.state.status
            &&& view.state.start_time == t.state.start_time
            &&& view.state.last_error == t.state.last_error@
            &&& view.stop_flag == t.stop_flag && view.task == t.task
        },
{
}

} // verus!
