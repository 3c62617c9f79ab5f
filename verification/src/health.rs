//! Health checks: whether the local ports of the running tunnels answer.
use crate::manager::{is_running, start_at, Command, ManagerView, TunnelManager};
use crate::text::{join, joined, joining_puts_the_separator_between, texts};
use crate::tunnel::{pair, TunnelStatus, TunnelView};
use vstd::prelude::*;

verus! {

/// The seconds between two rounds of checks.
pub const HEALTH_CHECK_INTERVAL_SECS: u64 = 30;

/// The seconds that a port has to answer.
pub const PROBE_TIMEOUT_SECS: u64 = 3;

/// Whether the port of a tunnel is checked.
pub open spec fn is_checked(t: TunnelView) -> bool {
    is_running(t) && t.health_port > 0
}

/// The tunnels whose ports are checked: the index and the port of each.
pub open spec fn checks_of(tunnels: Seq<TunnelView>) -> Seq<(usize, u16)>
    decreases tunnels.len(),
{
    if tunnels.len() == 0 {
        Seq::empty()
    } else {
        let checks = checks_of(tunnels.drop_last());
        let t = tunnels.last();
        if is_checked(t) {
            checks.push(((tunnels.len() - 1) as usize, t.health_port))
        } else {
            checks
        }
    }
}

/// The names and the ports of the tunnels whose ports are checked.
pub open spec fn named_checks_of(tunnels: Seq<TunnelView>) -> Seq<(Seq<char>, u16)>
    decreases tunnels.len(),
{
    if tunnels.len() == 0 {
        Seq::empty()
    } else {
        let checks = named_checks_of(tunnels.drop_last());
        let t = tunnels.last();
        if is_checked(t) {
            checks.push((t.config.name, t.health_port))
        } else {
            checks
        }
    }
}

pub open spec fn named_views(checks: Seq<(String, u16)>) -> Seq<(Seq<char>, u16)> {
    checks.map_values(|c: (String, u16)| (c.0@, c.1))
}

// ── the periodic check ──────────────────────────────────────────────────────
/// A round of checks, and how far it has come.
#[derive(Debug)]
pub struct HealthLoop {
    pub checks: Vec<(usize, u16)>,
    pub next: usize,
}

#[verifier::ext_equal]
pub struct HealthLoopView {
    pub checks: Seq<(usize, u16)>,
    pub next: int,
}

impl View for HealthLoop {
    type V = HealthLoopView;

    open spec fn view(&self) -> HealthLoopView {
        HealthLoopView { checks: self.checks@, next: self.next as int }
    }
}

/// What happened outside.
#[derive(Debug, Clone, Copy, PartialEq, Eq, Structural)]
pub enum HealthEvent {
    /// The time for another round has come.
    Woke,
    /// The port that was to be checked answered, or it did not.
    Probed { healthy: bool },
}

/// What to do next.
#[derive(Debug, Clone, Copy, PartialEq, Eq, Structural)]
pub enum HealthAction {
    /// Check a port.
    Probe { port: u16 },
    /// Wait for the next round.
    Sleep { secs: u64 },
}

/// The check that is due, or else the pause after the round.
pub open spec fn due(h: HealthLoopView) -> HealthAction {
    if h.next < h.checks.len() {
        HealthAction::Probe { port: h.checks[h.next].1 }
    } else {
        HealthAction::Sleep { secs: HEALTH_CHECK_INTERVAL_SECS }
    }
}

/// What a failed check of the tunnel at `i` does: the tunnel is started again,
/// unless it was stopped or removed in the meantime.
pub open spec fn revive(m: ManagerView, i: int) -> (ManagerView, Seq<Command>) {
    if 0 <= i < m.tunnels.len() && is_running(m.tunnels[i]) {
        start_at(m, i)
    } else {
        (m, Seq::empty())
    }
}

/// The round and the manager after an event, and what the event asks for.
pub open spec fn health_step(h: HealthLoopView, m: ManagerView, event: HealthEvent) -> (
    HealthLoopView,
    ManagerView,
    Seq<Command>,
) {
    match event {
        HealthEvent::Woke => (
            HealthLoopView { checks: checks_of(m.tunnels), next: 0 },
            m,
            Seq::empty(),
        ),
        HealthEvent::Probed { healthy } => if h.next < h.checks.len() {
            let (after, commands) = if healthy {
                (m, Seq::empty())
            } else {
                revive(m, h.checks[h.next].0 as int)
            };
            (HealthLoopView { next: h.next + 1, ..h }, after, commands)
        } else {
            (h, m, Seq::empty())
        },
    }
}

/// The tunnels whose ports are checked.
fn collect_checks(manager: &TunnelManager) -> (checks: Vec<(usize, u16)>)
    ensures
        checks@ == checks_of(manager@.tunnels),
{
    let mut checks: Vec<(usize, u16)> = Vec::new();
    let ghost all = manager@.tunnels;
    assert(all.take(0) == Seq::<TunnelView>::empty());
    for i in 0..manager.tunnels.len()
        invariant
            all == manager@.tunnels,
            checks@ == checks_of(all.take(i as int)),
    {
        assert(all.take(i + 1).drop_last() == all.take(i as int));
        assert(all[i as int] == manager.tunnels@[i as int]@);
        let t = &manager.tunnels[i];
        if t.state.status == TunnelStatus::Running && t.health_port > 0 {
            checks.push((i, t.health_port));
        }
    }
    assert(all.take(all.len() as int) == all);
    checks
}

impl HealthLoop {
    /// A loop that waits for its first round.
    pub fn new() -> (h: Self)
        ensures
            h@ == (HealthLoopView { checks: Seq::empty(), next: 0 }),
            due(h@) == (HealthAction::Sleep { secs: HEALTH_CHECK_INTERVAL_SECS }),
    {
        HealthLoop { checks: Vec::new(), next: 0 }
    }

    /// What to do next.
    pub fn action(&self) -> (action: HealthAction)
        ensures
            action == due(self@),
    {
        if self.next < self.checks.len() {
            HealthAction::Probe { port: self.checks[self.next].1 }
        } else {
            HealthAction::Sleep { secs: HEALTH_CHECK_INTERVAL_SECS }
        }
    }
}

/// One step of the loop that checks the tunnels from time to time, and starts
/// those anew that do not answer.
pub fn health_check_loop(
    health: &mut HealthLoop,
    manager: &mut TunnelManager,
    event: HealthEvent,
) -> (commands: Vec<Command>)
    ensures
        (final(health)@, final(manager)@, commands@) == health_step(
            old(health)@,
            old(manager)@,
            event,
        ),
{
    match event {
        HealthEvent::Woke => {
            health.checks = collect_checks(manager);
            health.next = 0;
            Vec::new()
        },
        HealthEvent::Probed { healthy } => {
            if health.next < health.checks.len() {
                let index = health.checks[health.next].0;
                health.next = health.next + 1;
                if !healthy && index < manager.tunnels.len() {
                    assert(manager@.tunnels[index as int] == manager.tunnels@[index as int]@);
                    // The tunnel may have been stopped while its port was checked.
                    if manager.tunnels[index].state.status == TunnelStatus::Running {
                        return manager.start(index);
                    }
                }
            }
            Vec::new()
        },
    }
}

// ── the check on demand ─────────────────────────────────────────────────────
/// The names and the ports to be checked when the user asks for it.
pub fn force_health_check(manager: &TunnelManager) -> (checks: Vec<(String, u16)>)
    ensures
        named_views(checks@) == named_checks_of(manager@.tunnels),
{
    let mut checks: Vec<(String, u16)> = Vec::new();
    let ghost all = manager@.tunnels;
    assert(all.take(0) == Seq::<TunnelView>::empty());
    assert(named_views(checks@) == Seq::<(Seq<char>, u16)>::empty());
    for i in 0..manager.tunnels.len()
        invariant
            all == manager@.tunnels,
            named_views(checks@) == named_checks_of(all.take(i as int)),
    {
        assert(all.take(i + 1).drop_last() == all.take(i as int));
        assert(all[i as int] == manager.tunnels@[i as int]@);
        let ghost before = checks@;
        let t = &manager.tunnels[i];
        if t.state.status == TunnelStatus::Running && t.health_port > 0 {
            checks.push((t.config.name.clone(), t.health_port));
            assert(named_views(checks@) == named_views(before).push((t@.config.name, t.health_port)));
        }
    }
    assert(all.take(all.len() as int) == all);
    checks
}

/// A name and whether its port answered.
pub open spec fn verdict(name: Seq<char>, healthy: bool) -> Seq<char> {
    name + ": "@ + if healthy {
        "OK"@
    } else {
        "FAIL"@
    }
}

pub open spec fn verdicts(results: Seq<(String, bool)>) -> Seq<Seq<char>> {
    results.map_values(|r: (String, bool)| verdict(r.0@, r.1))
}

/// What the user is told of the results.
pub open spec fn report(results: Seq<(String, bool)>) -> Seq<char> {
    if results.len() == 0 {
        "No running tunnels"@
    } else {
        joined(verdicts(results), " | "@)
    }
}

/// What the user is told of the results.
pub fn health_report(results: &Vec<(String, bool)>) -> (r: String)
    ensures
        r@ == report(results@),
{
    if results.len() == 0 {
        return "No running tunnels".to_string();
    }
    let mut parts: Vec<String> = Vec::new();
    for i in 0..results.len()
        invariant
            texts(parts@) == verdicts(results@).take(i as int),
    {
        let ghost before = parts@;
        let outcome = if results[i].1 {
            "OK"
        } else {
            "FAIL"
        };
        parts.push(pair(results[i].0.as_str(), ": ", outcome));
        assert(texts(parts@) == texts(before).push(verdicts(results@)[i as int]));
    }
    assert(verdicts(results@).take(results@.len() as int) == verdicts(results@));
    join(&parts, " | ")
}

// ── what holds of every check ───────────────────────────────────────────────
/// A round checks tunnels that are running and have a port, each with its port.
pub proof fn only_running_tunnels_are_checked(tunnels: Seq<TunnelView>, k: int)
    requires
        tunnels.len() <= usize::MAX,
        0 <= k < checks_of(tunnels).len(),
    ensures
        ({
            let (i, port) = checks_of(tunnels)[k];
            &&& i < tunnels.len()
            &&& is_running(tunnels[i as int])
            &&& port == tunnels[i as int].health_port
            &&& port > 0
        }),
    decreases tunnels.len(),
{
    let rest = tunnels.drop_last();
    if k < checks_of(rest).len() {
        only_running_tunnels_are_checked(rest, k);
        assert(rest[checks_of(rest)[k].0 as int] == tunnels[checks_of(rest)[k].0 as int]);
    }
}

/// A round leaves out no tunnel that is running and has a port.
pub proof fn every_running_tunnel_is_checked(tunnels: Seq<TunnelView>, i: int)
    requires
        0 <= i < tunnels.len(),
        is_checked(tunnels[i]),
    ensures
        checks_of(tunnels).contains((i as usize, tunnels[i].health_port)),
    decreases tunnels.len(),
{
    let rest = tunnels.drop_last();
    let check = (i as usize, tunnels[i].health_port);
    if i < rest.len() {
        every_running_tunnel_is_checked(rest, i);
        let k = checks_of(rest).index_of(check);
        assert(checks_of(tunnels)[k] == check);
    } else {
        assert(checks_of(tunnels)[checks_of(rest).len() as int] == check);
    }
}

/// A tunnel that the user has stopped is never started by a check.
pub proof fn a_stopped_tunnel_stays_stopped(
    h: HealthLoopView,
    m: ManagerView,
    event: HealthEvent,
    i: int,
)
    requires
        0 <= i < m.tunnels.len(),
        !is_running(m.tunnels[i]),
    ensures
        health_step(h, m, event).1.tunnels.len() == m.tunnels.len(),
        health_step(h, m, event).1.tunnels[i] == m.tunnels[i],
{
}

/// A tunnel that answers is left alone.
pub proof fn a_healthy_tunnel_is_left_alone(h: HealthLoopView, m: ManagerView)
    ensures
        health_step(h, m, HealthEvent::Probed { healthy: true }).1 == m,
        health_step(h, m, HealthEvent::Probed { healthy: true }).2 == Seq::<Command>::empty(),
{
}

/// A running tunnel that does not answer is started anew, wherever it stands in
/// the list: it gets a new task, and the one it had is aborted. The round goes on
/// with the next check.
pub proof fn a_tunnel_that_does_not_answer_is_started_anew(h: HealthLoopView, m: ManagerView)
    requires
        0 <= h.next < h.checks.len(),
        h.checks[h.next].0 < m.tunnels.len(),
        m.tunnels[h.checks[h.next].0 as int].state.status == TunnelStatus::Running,
    ensures
        ({
            let i = h.checks[h.next].0;
            let (next, after, commands) = health_step(
                h,
                m,
                HealthEvent::Probed { healthy: false },
            );
            let spawn = Command::Spawn { index: i, task: m.next_task };
            &&& (after, commands) == start_at(m, i as int)
            &&& after.tunnels[i as int].task == Some(m.next_task)
            &&& after.tunnels[i as int].state.status == (TunnelStatus::Reconnecting {
                failures: 0,
                backoff: 1,
            })
            &&& m.tunnels[i as int].task is None ==> commands == seq![spawn]
            &&& m.tunnels[i as int].task matches Some(task) ==> commands == seq![
                Command::Abort { task },
                spawn,
            ]
            &&& next.next == h.next + 1
            &&& next.checks == h.checks
        }),
{
    crate::manager::a_start_replaces_the_task(m, h.checks[h.next].0 as int);
}

/// A tunnel that does not answer but is not running any more, or is gone, is left
/// alone, and the round goes on.
pub proof fn what_does_not_run_is_not_started(h: HealthLoopView, m: ManagerView)
    requires
        0 <= h.next < h.checks.len(),
        h.checks[h.next].0 >= m.tunnels.len() || m.tunnels[h.checks[h.next].0 as int].state.status
            != TunnelStatus::Running,
    ensures
        health_step(h, m, HealthEvent::Probed { healthy: false }) == (
            HealthLoopView { next: h.next + 1, ..h },
            m,
            Seq::<Command>::empty(),
        ),
{
}

/// An answer takes the round on to the next check.
pub proof fn an_answer_takes_the_round_on(h: HealthLoopView, m: ManagerView, healthy: bool)
    ensures
        0 <= h.next < h.checks.len() ==> health_step(
            h,
            m,
            HealthEvent::Probed { healthy },
        ).0 == (HealthLoopView { next: h.next + 1, ..h }),
{
}

/// A round begins with its first check, and starts or stops nothing.
pub proof fn a_round_begins_with_its_first_check(h: HealthLoopView, m: ManagerView)
    ensures
        ({
            let (next, after, commands) = health_step(h, m, HealthEvent::Woke);
            &&& next.checks == checks_of(m.tunnels)
            &&& next.next == 0
            &&& after == m
            &&& commands.len() == 0
        }),
{
}

/// The checks of a round are made one after another, each on its port; then there
/// is a pause of thirty seconds.
pub proof fn checks_are_made_one_after_another(h: HealthLoopView)
    ensures
        0 <= h.next < h.checks.len() ==> due(h) == (HealthAction::Probe {
            port: h.checks[h.next].1,
        }),
        h.next >= h.checks.len() ==> due(h) == (HealthAction::Sleep { secs: 30 }),
{
}

/// A round checks exactly the tunnels that are shown as running and have a port:
/// each of them, once, in the order of the list, and no other.
pub proof fn exactly_what_runs_is_checked(tunnels: Seq<TunnelView>, i: int, k: int)
    requires
        tunnels.len() <= usize::MAX,
    ensures
        0 <= i < tunnels.len() && tunnels[i].state.status == TunnelStatus::Running
            && tunnels[i].health_port > 0 ==> checks_of(tunnels).contains(
            (i as usize, tunnels[i].health_port),
        ),
        0 <= k < checks_of(tunnels).len() ==> {
            let (index, port) = checks_of(tunnels)[k];
            &&& index < tunnels.len()
            &&& tunnels[index as int].state.status == TunnelStatus::Running
            &&& port == tunnels[index as int].health_port
            &&& port > 0
        },
        0 < k < checks_of(tunnels).len() ==> checks_of(tunnels)[k - 1].0 < checks_of(tunnels)[k].0,
{
    if 0 <= i < tunnels.len() && is_checked(tunnels[i]) {
        every_running_tunnel_is_checked(tunnels, i);
    }
    if 0 <= k < checks_of(tunnels).len() {
        only_running_tunnels_are_checked(tunnels, k);
    }
    if 0 < k < checks_of(tunnels).len() {
        lemma_checks_are_in_order(tunnels, k);
    }
}

proof fn lemma_checks_are_in_order(tunnels: Seq<TunnelView>, k: int)
    requires
        tunnels.len() <= usize::MAX,
        0 < k < checks_of(tunnels).len(),
    ensures
        checks_of(tunnels)[k - 1].0 < checks_of(tunnels)[k].0,
    decreases tunnels.len(),
{
    let rest = tunnels.drop_last();
    if k < checks_of(rest).len() {
        lemma_checks_are_in_order(rest, k);
    } else {
        only_running_tunnels_are_checked(rest, k - 1);
    }
}

/// What is checked on demand is what a round would check, by name and port.
pub proof fn a_check_on_demand_is_a_round(tunnels: Seq<TunnelView>, k: int)
    requires
        tunnels.len() <= usize::MAX,
    ensures
        named_checks_of(tunnels).len() == checks_of(tunnels).len(),
        0 <= k < checks_of(tunnels).len() ==> {
            let (index, port) = checks_of(tunnels)[k];
            named_checks_of(tunnels)[k] == (tunnels[index as int].config.name, port)
        },
    decreases tunnels.len(),
{
    if tunnels.len() > 0 {
        let rest = tunnels.drop_last();
        a_check_on_demand_is_a_round(rest, k);
        if 0 <= k < checks_of(rest).len() {
            only_running_tunnels_are_checked(rest, k);
            assert(rest[checks_of(rest)[k].0 as int] == tunnels[checks_of(rest)[k].0 as int]);
        }
    }
}

/// The report tells of each tunnel by its name whether it answered, one after
/// another.
pub proof fn the_report_tells_of_each(results: Seq<(String, bool)>, r: (String, bool))
    ensures
        report(Seq::empty()) == "No running tunnels"@,
        report(seq![r]) == r.0@ + ": "@ + if r.1 {
            "OK"@
        } else {
            "FAIL"@
        },
        results.len() > 0 ==> report(results.push(r)) == report(results) + " | "@ + report(seq![r]),
{
    joining_puts_the_separator_between(verdicts(results), " | "@, verdict(r.0@, r.1));
    assert(verdicts(seq![r]) == seq![verdict(r.0@, r.1)]);
    assert(verdicts(results.push(r)) == verdicts(results).push(verdict(r.0@, r.1)));
}

/// The views of checks are those of each of them, in their order.
pub proof fn every_check_has_its_view(checks: Seq<(String, u16)>, i: int)
    ensures
        named_views(checks).len() == checks.len(),
        0 <= i < checks.len() ==> named_views(checks)[i] == (checks[i].0@, checks[i].1),
{
}

} // verus!
