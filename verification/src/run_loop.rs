//! How a tunnel is kept alive: its SSH process is started, watched, and started
//! again when it ends, after a pause that grows with every failure.
use crate::ssh_config::all_white;
use crate::text::{
    a_text_without_line_feeds_is_one_line, clip, clipped, every_text_has_a_line, is_white,
    lemma_trimmed_end_drops, lemma_trimmed_start_of_joined, lines, lines_of, lines_of_joined_texts,
    texts, trim, trimmed, trimmed_start, trimming_takes_the_white_space_at_the_ends,
};
use crate::tunnel::{
    TunnelState, TunnelStateView, TunnelStatus, INITIAL_BACKOFF_SECS, MAX_BACKOFF_SECS,
};
use vstd::arithmetic::power2::pow2;
use vstd::prelude::*;

verus! {

/// The milliseconds that an earlier process has to release its port.
pub const START_DELAY_MILLIS: u64 = 300;

/// The milliseconds between two looks at a process, or at the stop flag.
pub const POLL_MILLIS: u64 = 100;

/// How many characters of an error are kept.
pub const MAX_ERROR_CHARS: usize = 200;

/// What the loop counts: the failures so far, and the seconds to wait after the
/// next one.
#[derive(Debug, Clone, Copy)]
pub struct RunLoop {
    pub failures: u32,
    pub backoff: u64,
}

/// What a look at the SSH process shows.
#[derive(Debug, Clone, Copy, PartialEq, Eq, Structural)]
pub enum ChildPoll {
    /// It has ended.
    Exited,
    /// It runs.
    Alive,
    /// Its state cannot be found out.
    Lost,
}

/// What happened outside.
#[derive(Debug)]
pub enum LoopEvent {
    /// The time is over that an earlier process had to release its port.
    DelayOver { stopped: bool },
    /// A process may be started now, unless the tunnel was stopped.
    Ready { stopped: bool },
    /// The process could not be started.
    SpawnFailed { error: String },
    /// The process was started at the given time.
    Spawned { now: u64 },
    /// The process was looked at.
    Polled { poll: ChildPoll, stopped: bool },
    /// The process is gone. Its exit status is known if it ended by itself; what
    /// it wrote to its standard error, unless reading it was given up.
    Ended { exit: Option<String>, stderr: Option<String>, stopped: bool },
}

/// What to do next.
#[derive(Debug, Clone, Copy, PartialEq, Eq, Structural)]
pub enum LoopAction {
    /// Start the process.
    Spawn,
    /// Look at the process.
    Poll,
    /// Look at the process again, after a moment.
    PollLater,
    /// Take all that it wrote to its standard error.
    Collect,
    /// Give up reading its standard error.
    Abandon,
    /// Kill it, and give up reading its standard error.
    Kill,
    /// Wait this many seconds, or until the tunnel is stopped.
    Sleep { secs: u64 },
    /// End the task.
    Finish,
    /// End the task, which has not begun its work.
    Leave,
}

// ── the rules ───────────────────────────────────────────────────────────────
/// The pause after a pause of `backoff` seconds.
pub open spec fn next_backoff(backoff: int) -> int {
    if backoff * 2 < MAX_BACKOFF_SECS {
        backoff * 2
    } else {
        MAX_BACKOFF_SECS as int
    }
}

/// The pause that is due once there were `failures` failures.
pub open spec fn backoff_after(failures: nat) -> int
    decreases failures,
{
    if failures == 0 {
        INITIAL_BACKOFF_SECS as int
    } else {
        next_backoff(backoff_after((failures - 1) as nat))
    }
}

impl RunLoop {
    /// The pause is the one that the failures call for.
    pub open spec fn wf(self) -> bool {
        self.backoff == backoff_after(self.failures as nat)
    }

    pub open spec fn failed_once_more(self) -> RunLoop {
        RunLoop {
            failures: (self.failures + 1) as u32,
            backoff: next_backoff(self.backoff as int) as u64,
        }
    }
}

/// Whether an event tells of a failure, which is counted.
pub open spec fn is_failure(event: LoopEvent) -> bool {
    match event {
        LoopEvent::SpawnFailed { .. } => true,
        LoopEvent::Ended { stopped, .. } => !stopped,
        _ => false,
    }
}

/// Why a process is gone: the last line that it wrote to its standard error,
/// or else its exit status.
pub open spec fn failure_message(exit: Option<String>, stderr: Option<String>) -> Seq<char> {
    let written = trimmed(
        match stderr {
            Some(stderr) => stderr@,
            None => Seq::empty(),
        },
    );
    match exit {
        Some(status) => if written.len() > 0 {
            lines_of(written).last()
        } else {
            "exit: "@ + status@
        },
        None => "killed"@,
    }
}

/// The loop, the state of the tunnel and the action after an event.
pub open spec fn loop_step(l: RunLoop, s: TunnelStateView, event: LoopEvent) -> (
    RunLoop,
    TunnelStateView,
    LoopAction,
) {
    let failed = l.failed_once_more();
    let retry = LoopAction::Sleep { secs: l.backoff };
    let reconnecting = TunnelStatus::Reconnecting {
        failures: failed.failures,
        backoff: l.backoff,
    };
    let finished = TunnelStateView { status: TunnelStatus::Stopped, start_time: None, ..s };
    match event {
        LoopEvent::DelayOver { stopped } => if stopped {
            (l, s, LoopAction::Leave)
        } else {
            (l, s, LoopAction::Spawn)
        },
        LoopEvent::Ready { stopped } => if stopped {
            (l, finished, LoopAction::Finish)
        } else {
            (l, s, LoopAction::Spawn)
        },
        LoopEvent::SpawnFailed { error } => {
            let state = TunnelStateView {
                status: reconnecting,
                last_error: "spawn: "@ + error@,
                ..s
            };
            (failed, state, retry)
        },
        LoopEvent::Spawned { now } => {
            let status = if l.failures == 0 {
                TunnelStatus::Running
            } else {
                TunnelStatus::Reconnecting { failures: l.failures, backoff: l.backoff }
            };
            let state = TunnelStateView { status, start_time: Some(now), last_error: Seq::empty() };
            (l, state, LoopAction::Poll)
        },
        LoopEvent::Polled { poll, stopped } => match poll {
            ChildPoll::Exited => (l, s, LoopAction::Collect),
            ChildPoll::Alive => if stopped {
                (l, s, LoopAction::Kill)
            } else {
                (l, s, LoopAction::PollLater)
            },
            ChildPoll::Lost => (l, s, LoopAction::Abandon),
        },
        LoopEvent::Ended { exit, stderr, stopped } => if stopped {
            (l, finished, LoopAction::Finish)
        } else {
            let state = TunnelStateView {
                status: reconnecting,
                last_error: clipped(failure_message(exit, stderr), MAX_ERROR_CHARS as int),
                ..s
            };
            (failed, state, retry)
        },
    }
}

// ── the loop ────────────────────────────────────────────────────────────────
proof fn lemma_backoff_bounds(failures: nat)
    ensures
        1 <= backoff_after(failures) <= MAX_BACKOFF_SECS,
    decreases failures,
{
    if failures > 0 {
        lemma_backoff_bounds((failures - 1) as nat);
    }
}

fn describe_failure(exit: &Option<String>, stderr: &Option<String>) -> (message: String)
    ensures
        message@ == failure_message(*exit, *stderr),
{
    match exit {
        Some(status) => {
            let written = match stderr {
                Some(stderr) => trim(stderr.as_str()),
                None => trim(""),
            };
            proof {
                reveal_strlit("");
                assert(""@ == Seq::<char>::empty());
            }
            if !written.as_str().is_empty() {
                let all = lines(written.as_str());
                proof {
                    every_text_has_a_line(written@);
                    assert(texts(all@).last() == all@.last()@);
                }
                all[all.len() - 1].clone()
            } else {
                "exit: ".to_string().concat(status.as_str())
            }
        },
        None => "killed".to_string(),
    }
}

impl RunLoop {
    /// A loop that has not failed yet.
    pub fn new() -> (l: Self)
        ensures
            l.wf(),
            l.failures == 0,
            l.backoff == INITIAL_BACKOFF_SECS,
    {
        RunLoop { failures: 0, backoff: INITIAL_BACKOFF_SECS }
    }

    fn count_failure(&mut self)
        requires
            old(self).wf(),
            old(self).failures < u32::MAX,
        ensures
            final(self).wf(),
            *final(self) == old(self).failed_once_more(),
    {
        proof {
            lemma_backoff_bounds(self.failures as nat);
        }
        self.failures = self.failures + 1;
        let doubled = self.backoff * 2;
        self.backoff = if doubled < MAX_BACKOFF_SECS {
            doubled
        } else {
            MAX_BACKOFF_SECS
        };
    }

    /// Takes an event to the next action, and records in the state of the tunnel
    /// what became of it.
    pub fn step(&mut self, event: LoopEvent, state: &mut TunnelState) -> (action: LoopAction)
        requires
            old(self).wf(),
            is_failure(event) ==> old(self).failures < u32::MAX,
        ensures
            final(self).wf(),
            (*final(self), final(state)@, action) == loop_step(*old(self), old(state)@, event),
    {
        match event {
            LoopEvent::DelayOver { stopped } => {
                if stopped {
                    LoopAction::Leave
                } else {
                    LoopAction::Spawn
                }
            },
            LoopEvent::Ready { stopped } => {
                if stopped {
                    state.status = TunnelStatus::Stopped;
                    state.start_time = None;
                    LoopAction::Finish
                } else {
                    LoopAction::Spawn
                }
            },
            LoopEvent::SpawnFailed { error } => {
                let backoff = self.backoff;
                self.count_failure();
                state.last_error = "spawn: ".to_string().concat(error.as_str());
                state.status = TunnelStatus::Reconnecting { failures: self.failures, backoff };
                LoopAction::Sleep { secs: backoff }
            },
            LoopEvent::Spawned { now } => {
                state.status = if self.failures == 0 {
                    TunnelStatus::Running
                } else {
                    TunnelStatus::Reconnecting { failures: self.failures, backoff: self.backoff }
                };
                state.start_time = Some(now);
                state.last_error = String::new();
                LoopAction::Poll
            },
            LoopEvent::Polled { poll, stopped } => {
                match poll {
                    ChildPoll::Exited => LoopAction::Collect,
                    ChildPoll::Alive => {
                        if stopped {
                            LoopAction::Kill
                        } else {
                            LoopAction::PollLater
                        }
                    },
                    ChildPoll::Lost => LoopAction::Abandon,
                }
            },
            LoopEvent::Ended { exit, stderr, stopped } => {
                if stopped {
                    state.status = TunnelStatus::Stopped;
                    state.start_time = None;
                    LoopAction::Finish
                } else {
                    let backoff = self.backoff;
                    self.count_failure();
                    let message = describe_failure(&exit, &stderr);
                    state.status = TunnelStatus::Reconnecting { failures: self.failures, backoff };
                    state.last_error = clip(message.as_str(), MAX_ERROR_CHARS);
                    LoopAction::Sleep { secs: backoff }
                }
            },
        }
    }
}

/// Whether a pause goes on: its end has not come, and the tunnel was not stopped.
pub fn keep_sleeping(now: u64, deadline: u64, stopped: bool) -> (r: bool)
    ensures
        r == (now < deadline && !stopped),
{
    now < deadline && !stopped
}

// ── what holds of every loop ────────────────────────────────────────────────
/// The pause doubles with every failure, from one second up to a minute.
pub proof fn pauses_double_up_to_a_minute(failures: nat)
    ensures
        failures < 6 ==> backoff_after(failures) == pow2(failures),
        failures >= 6 ==> backoff_after(failures) == MAX_BACKOFF_SECS,
    decreases failures,
{
    vstd::arithmetic::power2::lemma2_to64();
    if failures > 0 {
        pauses_double_up_to_a_minute((failures - 1) as nat);
    }
}

/// No event makes the pause shorter than a second, longer than a minute, or
/// shorter than it was.
pub proof fn pauses_stay_in_bounds(l: RunLoop, s: TunnelStateView, event: LoopEvent)
    requires
        l.wf(),
        is_failure(event) ==> l.failures < u32::MAX,
    ensures
        loop_step(l, s, event).0.wf(),
        l.backoff <= loop_step(l, s, event).0.backoff,
        1 <= loop_step(l, s, event).0.backoff <= MAX_BACKOFF_SECS,
{
    lemma_backoff_bounds(l.failures as nat);
    lemma_backoff_bounds(loop_step(l, s, event).0.failures as nat);
}

/// A tunnel is shown as running when its process is started without a failure
/// before it, and never once there was a failure.
pub proof fn running_means_no_failure(l: RunLoop, s: TunnelStateView, event: LoopEvent)
    requires
        s.status == TunnelStatus::Running ==> l.failures == 0,
        is_failure(event) ==> l.failures < u32::MAX,
    ensures
        ({
            let (next, state, _) = loop_step(l, s, event);
            &&& state.status == TunnelStatus::Running ==> next.failures == 0
            &&& event is Spawned && l.failures == 0 ==> state.status == TunnelStatus::Running
        }),
{
}

/// Exactly the failures are counted, one by one, and after each of them the
/// pause that was due is made.
pub proof fn failures_are_counted(l: RunLoop, s: TunnelStateView, event: LoopEvent)
    requires
        is_failure(event) ==> l.failures < u32::MAX,
    ensures
        ({
            let (next, state, action) = loop_step(l, s, event);
            &&& is_failure(event) ==> next.failures == l.failures + 1 && action
                == (LoopAction::Sleep { secs: l.backoff }) && state.status
                == (TunnelStatus::Reconnecting { failures: next.failures, backoff: l.backoff })
            &&& !is_failure(event) ==> next == l
        }),
{
}

/// A loop ends only when the tunnel was stopped. Its last error is then kept.
pub proof fn only_a_stop_ends_the_loop(l: RunLoop, s: TunnelStateView, event: LoopEvent)
    ensures
        ({
            let (_, state, action) = loop_step(l, s, event);
            &&& action is Leave ==> event == (LoopEvent::DelayOver { stopped: true }) && state == s
            &&& action is Finish ==> {
                &&& event is Ready || event is Ended
                &&& event matches LoopEvent::Ready { stopped } ==> stopped
                &&& event matches LoopEvent::Ended { stopped, .. } ==> stopped
                &&& state == (TunnelStateView {
                    status: TunnelStatus::Stopped,
                    start_time: None,
                    last_error: s.last_error,
                })
            }
        }),
{
}

/// A pause is made after a failure and never else: the process could not be
/// started, or it ended while nobody had stopped the tunnel.
pub proof fn only_a_failure_makes_a_pause(l: RunLoop, s: TunnelStateView, event: LoopEvent)
    ensures
        loop_step(l, s, event).2 is Sleep ==> event is SpawnFailed || event is Ended,
        event matches LoopEvent::Ended { stopped, .. } ==> (loop_step(l, s, event).2 is Sleep
            <==> !stopped),
        event is SpawnFailed ==> loop_step(l, s, event).2 is Sleep,
{
}

/// Once a pause is over, or the time that an earlier process had to release its
/// port, the process is started, however often it failed before, unless the
/// tunnel was stopped. Until it is, nothing is recorded.
pub proof fn what_is_not_stopped_is_started(l: RunLoop, s: TunnelStateView)
    ensures
        loop_step(l, s, LoopEvent::Ready { stopped: false }) == (l, s, LoopAction::Spawn),
        loop_step(l, s, LoopEvent::DelayOver { stopped: false }) == (l, s, LoopAction::Spawn),
        loop_step(l, s, LoopEvent::Ready { stopped: true }).2 == LoopAction::Finish,
        loop_step(l, s, LoopEvent::DelayOver { stopped: true }) == (l, s, LoopAction::Leave),
{
}

/// After every failure of a tunnel that nobody stops there is one pause, and then
/// the process is started again.
pub proof fn every_failure_is_followed_by_a_start(
    l: RunLoop,
    s: TunnelStateView,
    exit: Option<String>,
    stderr: Option<String>,
    error: String,
)
    ensures
        ({
            let (next, state, action) = loop_step(
                l,
                s,
                LoopEvent::Ended { exit, stderr, stopped: false },
            );
            &&& action == (LoopAction::Sleep { secs: l.backoff })
            &&& loop_step(next, state, LoopEvent::Ready { stopped: false }).2 == LoopAction::Spawn
        }),
        ({
            let (next, state, action) = loop_step(l, s, LoopEvent::SpawnFailed { error });
            &&& action == (LoopAction::Sleep { secs: l.backoff })
            &&& loop_step(next, state, LoopEvent::Ready { stopped: false }).2 == LoopAction::Spawn
        }),
{
}

/// A process is watched until it ends: it is looked at once it was started, and
/// again and again while it runs. It is killed when the tunnel is stopped, and
/// never else. A look at it changes nothing.
pub proof fn a_process_is_watched(l: RunLoop, s: TunnelStateView, now: u64, stopped: bool)
    ensures
        loop_step(l, s, LoopEvent::Spawned { now }).2 == LoopAction::Poll,
        loop_step(l, s, LoopEvent::Polled { poll: ChildPoll::Alive, stopped: false }) == (
            l,
            s,
            LoopAction::PollLater,
        ),
        loop_step(l, s, LoopEvent::Polled { poll: ChildPoll::Alive, stopped: true }) == (
            l,
            s,
            LoopAction::Kill,
        ),
        loop_step(l, s, LoopEvent::Polled { poll: ChildPoll::Exited, stopped }) == (
            l,
            s,
            LoopAction::Collect,
        ),
        loop_step(l, s, LoopEvent::Polled { poll: ChildPoll::Lost, stopped }) == (
            l,
            s,
            LoopAction::Abandon,
        ),
{
}

/// A process that was started is up since then, and its earlier error is
/// forgotten. It is shown as running if it never failed; otherwise the failures
/// and the pause that is due are shown.
pub proof fn a_start_is_recorded(l: RunLoop, s: TunnelStateView, now: u64)
    ensures
        ({
            let (next, state, _) = loop_step(l, s, LoopEvent::Spawned { now });
            &&& next == l
            &&& state.start_time == Some(now)
            &&& state.last_error.len() == 0
            &&& state.status is Stopped == false
            &&& state.status is Running <==> l.failures == 0
            &&& state.status matches TunnelStatus::Reconnecting { failures, backoff } ==> failures
                == l.failures && backoff == l.backoff
        }),
{
}

/// A failure leaves the start time as it was, counts one more failure, and shows
/// the pause that is made; the next pause is twice as long, up to a minute. The
/// error of a process that could not be started is told in full.
pub proof fn a_failure_is_recorded(
    l: RunLoop,
    s: TunnelStateView,
    exit: Option<String>,
    stderr: Option<String>,
    error: String,
)
    requires
        l.wf(),
        l.failures < u32::MAX,
    ensures
        ({
            let (next, state, _) = loop_step(l, s, LoopEvent::SpawnFailed { error });
            &&& next.failures == l.failures + 1
            &&& next.backoff == if 2 * l.backoff <= 60 {
                2 * l.backoff
            } else {
                60
            }
            &&& state == (TunnelStateView {
                status: TunnelStatus::Reconnecting {
                    failures: (l.failures + 1) as u32,
                    backoff: l.backoff,
                },
                start_time: s.start_time,
                last_error: "spawn: "@ + error@,
            })
        }),
        ({
            let (next, state, _) = loop_step(
                l,
                s,
                LoopEvent::Ended { exit, stderr, stopped: false },
            );
            &&& next.failures == l.failures + 1
            &&& next.backoff == if 2 * l.backoff <= 60 {
                2 * l.backoff
            } else {
                60
            }
            &&& state.start_time == s.start_time
            &&& state.status == (TunnelStatus::Reconnecting {
                failures: (l.failures + 1) as u32,
                backoff: l.backoff,
            })
            &&& state.last_error.len() <= 200
            &&& state.last_error.is_prefix_of(failure_message(exit, stderr))
            &&& state.last_error.len() < 200 ==> state.last_error == failure_message(exit, stderr)
        }),
{
    lemma_backoff_bounds(l.failures as nat);
}

/// A process whose end was not seen was killed, whatever it wrote. One that ended
/// by itself and wrote nothing but white space is told by its exit status.
pub proof fn a_silent_end_is_told_by_its_status(status: String, stderr: String)
    requires
        all_white(stderr@),
    ensures
        failure_message(Some(status), Some(stderr)) == "exit: "@ + status@,
        failure_message(Some(status), None) == "exit: "@ + status@,
        failure_message(None, Some(stderr)) == "killed"@,
        failure_message(None, None) == "killed"@,
{
    trimming_takes_the_white_space_at_the_ends(stderr@);
    trimming_takes_the_white_space_at_the_ends(Seq::empty());
    let (before, behind) = choose|before: Seq<char>, behind: Seq<char>|
        all_white(before) && all_white(behind) && stderr@ == #[trigger] (before + trimmed(stderr@)
            + behind);
    if trimmed(stderr@).len() > 0 {
        assert(stderr@[before.len() as int] == trimmed(stderr@)[0]);
        assert(is_white(stderr@[before.len() as int]));
    }
}

/// A process that ended by itself is told by the last line it wrote, whatever
/// stands before it, and without the white space behind it.
pub proof fn the_last_line_is_told(
    status: String,
    stderr: String,
    before: Seq<char>,
    line: Seq<char>,
    behind: Seq<char>,
)
    requires
        stderr@ == before.push('\n') + line + behind,
        !all_white(before),
        line.len() > 0,
        !is_white(line.last()),
        !line.contains('\n'),
        all_white(behind),
    ensures
        failure_message(Some(status), Some(stderr)) == line,
{
    let head = before.push('\n') + line;
    lemma_trimmed_end_drops(head, behind);
    lemma_trimmed_start_of_joined(before, '\n', line + behind);
    assert(before.push('\n') + (line + behind) == stderr@);
    let start = trimmed_start(before);
    assert(trimmed_start(stderr@) == start.push('\n') + line + behind);
    lemma_trimmed_end_drops(start.push('\n') + line, behind);
    assert((start.push('\n') + line).last() == line.last());
    assert(trimmed(stderr@) == start.push('\n') + line);
    lines_of_joined_texts(start, line);
    a_text_without_line_feeds_is_one_line(line);
}

} // verus!
