//! A tunnel: its configuration, how its SSH process is started, and its state.
use crate::config::{TunnelConfig, TunnelConfigView};
use crate::number::{decimal, to_decimal};
use crate::text::{chars_of, optional_text, same, string_of, texts};
use vstd::prelude::*;

verus! {

/// The seconds to wait after the first failure of a tunnel.
pub const INITIAL_BACKOFF_SECS: u64 = 1;

/// The seconds that are never exceeded between two attempts.
pub const MAX_BACKOFF_SECS: u64 = 60;

// ── status ──────────────────────────────────────────────────────────────────
/// What a tunnel is doing.
#[derive(Debug, Clone, Copy, PartialEq, Eq, Structural)]
pub enum TunnelStatus {
    Stopped,
    Running,
    Reconnecting { failures: u32, backoff: u64 },
}

impl TunnelStatus {
    /// The sign that stands for the status.
    pub open spec fn sign(self) -> Seq<char> {
        match self {
            TunnelStatus::Stopped => "◆"@,
            TunnelStatus::Running => "●"@,
            TunnelStatus::Reconnecting { .. } => "↻"@,
        }
    }

    /// The sign that stands for the status.
    pub fn symbol(&self) -> (r: &str)
        ensures
            r@ == self.sign(),
    {
        match self {
            TunnelStatus::Stopped => "◆",
            TunnelStatus::Running => "●",
            TunnelStatus::Reconnecting { .. } => "↻",
        }
    }
}

/// What is known of a tunnel's SSH process. The start time is in nanoseconds of
/// a clock that never goes back.
#[derive(Debug)]
pub struct TunnelState {
    pub status: TunnelStatus,
    pub start_time: Option<u64>,
    pub last_error: String,
}

#[verifier::ext_equal]
pub struct TunnelStateView {
    pub status: TunnelStatus,
    pub start_time: Option<u64>,
    pub last_error: Seq<char>,
}

impl View for TunnelState {
    type V = TunnelStateView;

    open spec fn view(&self) -> TunnelStateView {
        TunnelStateView {
            status: self.status,
            start_time: self.start_time,
            last_error: self.last_error@,
        }
    }
}

/// The state of a tunnel that nothing runs for.
pub open spec fn idle_state() -> TunnelStateView {
    TunnelStateView {
        status: TunnelStatus::Stopped,
        start_time: None,
        last_error: Seq::empty(),
    }
}

impl TunnelState {
    /// The state of a tunnel that nothing runs for.
    pub fn idle() -> (r: Self)
        ensures
            r@ == idle_state(),
    {
        TunnelState {
            status: TunnelStatus::Stopped,
            start_time: None,
            last_error: String::new(),
        }
    }
}

// ── tunnel ──────────────────────────────────────────────────────────────────
/// A tunnel. The background task that keeps its SSH process alive, if there is
/// one, is known by a number.
#[derive(Debug)]
pub struct Tunnel {
    pub config: TunnelConfig,
    pub health_port: u16,
    pub state: TunnelState,
    pub stop_flag: bool,
    pub task: Option<u64>,
}

#[verifier::ext_equal]
pub struct TunnelView {
    pub config: TunnelConfigView,
    pub health_port: u16,
    pub state: TunnelStateView,
    pub stop_flag: bool,
    pub task: Option<u64>,
}

impl View for Tunnel {
    type V = TunnelView;

    open spec fn view(&self) -> TunnelView {
        TunnelView {
            config: self.config@,
            health_port: self.health_port,
            state: self.state@,
            stop_flag: self.stop_flag,
            task: self.task,
        }
    }
}

/// A tunnel that was never started.
pub open spec fn fresh(config: TunnelConfigView) -> TunnelView {
    TunnelView { config, health_port: 0, state: idle_state(), stop_flag: false, task: None }
}

/// The tunnel once `task` has been set to keep it alive.
pub open spec fn started(t: TunnelView, task: u64) -> TunnelView {
    TunnelView {
        config: t.config,
        health_port: t.config.local_port,
        state: TunnelStateView {
            status: TunnelStatus::Reconnecting { failures: 0, backoff: INITIAL_BACKOFF_SECS },
            start_time: None,
            last_error: Seq::empty(),
        },
        stop_flag: false,
        task: Some(task),
    }
}

/// The tunnel once its task has been given up.
pub open spec fn stopped(t: TunnelView) -> TunnelView {
    TunnelView {
        config: t.config,
        health_port: t.health_port,
        state: idle_state(),
        stop_flag: true,
        task: None,
    }
}

// ── arguments of the SSH process ────────────────────────────────────────────
/// The options that every SSH process gets.
pub open spec fn common_options() -> Seq<Seq<char>> {
    seq![
        "-N"@,
        "-o"@,
        "StrictHostKeyChecking=accept-new"@,
        "-o"@,
        "ServerAliveInterval=30"@,
        "-o"@,
        "ExitOnForwardFailure=yes"@,
        "-o"@,
        "BatchMode=yes"@,
    ]
}

/// Whether a path is given relative to the home directory.
pub open spec fn is_below_home(path: Seq<char>) -> bool {
    path.len() >= 2 && path[0] == '~' && path[1] == '/'
}

/// A path with the home directory, where it is known, in place of the tilde.
pub open spec fn expanded(path: Seq<char>, home: Option<Seq<char>>) -> Seq<char> {
    if is_below_home(path) && home is Some {
        home->0 + path.skip(1)
    } else {
        path
    }
}

/// The options that name the key, if one is configured.
pub open spec fn key_options(c: TunnelConfigView, home: Option<Seq<char>>) -> Seq<Seq<char>> {
    if c.ssh_key.len() == 0 {
        Seq::empty()
    } else {
        seq!["-i"@, expanded(c.ssh_key, home)]
    }
}

/// The options that name the port of the server, if it is not the usual one.
pub open spec fn port_options(c: TunnelConfigView) -> Seq<Seq<char>> {
    if c.ssh_port == 22 {
        Seq::empty()
    } else {
        seq!["-p"@, decimal(c.ssh_port as nat)]
    }
}

/// What a tunnel leads to.
pub open spec fn target(c: TunnelConfigView) -> Seq<char> {
    if c.remote_port > 0 {
        c.remote_host + ":"@ + decimal(c.remote_port as nat)
    } else {
        c.remote_host
    }
}

/// A port and what it is forwarded to.
pub open spec fn forwarding(c: TunnelConfigView) -> Seq<char> {
    decimal(c.local_port as nat) + ":"@ + target(c)
}

/// The options that set up the forwarding. A type that is not known sets up none.
pub open spec fn forward_options(c: TunnelConfigView) -> Seq<Seq<char>> {
    if c.tunnel_type == "local"@ {
        seq!["-L"@, forwarding(c)]
    } else if c.tunnel_type == "remote"@ {
        seq!["-R"@, forwarding(c)]
    } else if c.tunnel_type == "dynamic"@ {
        seq!["-D"@, decimal(c.local_port as nat)]
    } else {
        Seq::empty()
    }
}

/// The server to connect to, with the user where one is configured.
pub open spec fn destination(c: TunnelConfigView) -> Seq<char> {
    if c.ssh_user.len() == 0 {
        c.ssh_host
    } else {
        c.ssh_user + "@"@ + c.ssh_host
    }
}

/// The arguments of the SSH process, given the home directory.
pub open spec fn ssh_args(c: TunnelConfigView, home: Option<Seq<char>>) -> Seq<Seq<char>> {
    common_options() + key_options(c, home) + port_options(c) + forward_options(c) + seq![
        destination(c),
    ]
}

/// The home directory of the current user, as `dirs::home_dir` finds it, with
/// what is not Unicode replaced. It depends on the environment of the process
/// and on the user database, so nothing is claimed of it.
#[verifier::external_body]
fn home_dir() -> (home: Option<String>) {
    dirs::home_dir().map(|home| home.to_string_lossy().into_owned())
}

fn push_text(v: &mut Vec<String>, s: &str)
    ensures
        texts(final(v)@) == texts(old(v)@).push(s@),
{
    v.push(s.to_string());
    assert(texts(v@) == texts(old(v)@).push(s@));
}

/// Two texts with a separator between them.
pub fn pair(a: &str, separator: &str, b: &str) -> (r: String)
    ensures
        r@ == a@ + separator@ + b@,
{
    a.to_string().concat(separator).concat(b)
}

fn below_home(path: &str) -> (r: bool)
    ensures
        r == is_below_home(path@),
{
    let chars = chars_of(path);
    chars.len() >= 2 && chars[0] == '~' && chars[1] == '/'
}

fn expand(path: &str, home: &Option<String>) -> (r: String)
    ensures
        r@ == expanded(path@, optional_text(*home)),
{
    if below_home(path) {
        if let Some(home) = home {
            let chars = chars_of(path);
            let rest = string_of(&chars, 1, chars.len());
            assert(rest@ == path@.skip(1));
            return home.clone().concat(rest.as_str());
        }
    }
    path.to_string()
}

/// The server to connect to, with the user where one is configured.
pub fn ssh_destination(c: &TunnelConfig) -> (r: String)
    ensures
        r@ == destination(c@),
{
    if c.ssh_user.as_str().is_empty() {
        c.ssh_host.clone()
    } else {
        pair(c.ssh_user.as_str(), "@", c.ssh_host.as_str())
    }
}

fn forward_target(c: &TunnelConfig) -> (r: String)
    ensures
        r@ == forwarding(c@),
{
    let target = if c.remote_port > 0 {
        pair(c.remote_host.as_str(), ":", to_decimal(c.remote_port as u64).as_str())
    } else {
        c.remote_host.clone()
    };
    pair(to_decimal(c.local_port as u64).as_str(), ":", target.as_str())
}

impl Tunnel {
    /// A tunnel that was never started.
    pub fn from_config(config: TunnelConfig) -> (t: Self)
        ensures
            t@ == fresh(config@),
            t.config == config,
    {
        Tunnel {
            config,
            health_port: 0,
            state: TunnelState::idle(),
            stop_flag: false,
            task: None,
        }
    }

    /// The status, the start time and the last error.
    pub fn snapshot(&self) -> (r: (TunnelStatus, Option<u64>, String))
        ensures
            r.0 == self@.state.status,
            r.1 == self@.state.start_time,
            r.2@ == self@.state.last_error,
    {
        (self.state.status, self.state.start_time, self.state.last_error.clone())
    }

    /// The arguments of the SSH process, given the home directory.
    pub fn ssh_args_with_home(&self, home: &Option<String>) -> (args: Vec<String>)
        ensures
            texts(args@) == ssh_args(self.config@, optional_text(*home)),
    {
        let c = &self.config;
        let mut args: Vec<String> = Vec::new();
        push_text(&mut args, "-N");
        push_text(&mut args, "-o");
        push_text(&mut args, "StrictHostKeyChecking=accept-new");
        push_text(&mut args, "-o");
        push_text(&mut args, "ServerAliveInterval=30");
        push_text(&mut args, "-o");
        push_text(&mut args, "ExitOnForwardFailure=yes");
        push_text(&mut args, "-o");
        push_text(&mut args, "BatchMode=yes");
        assert(texts(args@) == common_options());
        let ghost so_far = texts(args@);
        if !c.ssh_key.as_str().is_empty() {
            push_text(&mut args, "-i");
            push_text(&mut args, expand(c.ssh_key.as_str(), home).as_str());
        }
        assert(texts(args@) == so_far + key_options(c@, optional_text(*home)));
        let ghost so_far = texts(args@);
        if c.ssh_port != 22 {
            push_text(&mut args, "-p");
            push_text(&mut args, to_decimal(c.ssh_port as u64).as_str());
        }
        assert(texts(args@) == so_far + port_options(c@));
        let ghost so_far = texts(args@);
        if same(c.tunnel_type.as_str(), "local") {
            push_text(&mut args, "-L");
            push_text(&mut args, forward_target(c).as_str());
        } else if same(c.tunnel_type.as_str(), "remote") {
            push_text(&mut args, "-R");
            push_text(&mut args, forward_target(c).as_str());
        } else if same(c.tunnel_type.as_str(), "dynamic") {
            push_text(&mut args, "-D");
            push_text(&mut args, to_decimal(c.local_port as u64).as_str());
        }
        assert(texts(args@) == so_far + forward_options(c@));
        let ghost so_far = texts(args@);
        push_text(&mut args, ssh_destination(c).as_str());
        assert(texts(args@) == so_far + seq![destination(c@)]);
        args
    }

    /// The arguments of the SSH process. The home directory is looked up where
    /// the key is given relative to it.
    pub fn build_ssh_args(&self) -> (args: Vec<String>)
        ensures
            exists|home: Option<Seq<char>>|
                texts(args@) == #[trigger] ssh_args(self.config@, home),
            !is_below_home(self.config@.ssh_key) ==> texts(args@) == ssh_args(self.config@, None),
    {
        let home = if below_home(self.config.ssh_key.as_str()) {
            home_dir()
        } else {
            None
        };
        self.ssh_args_with_home(&home)
    }
}

// ── start and stop ──────────────────────────────────────────────────────────
/// Sets `task` to keep the tunnel alive. Returns the task that did so before,
/// which is to be aborted.
pub fn start_tunnel(t: &mut Tunnel, task: u64) -> (previous: Option<u64>)
    ensures
        final(t)@ == started(old(t)@, task),
        previous == old(t)@.task,
{
    let previous = t.task;
    t.stop_flag = false;
    t.state = TunnelState {
        status: TunnelStatus::Reconnecting { failures: 0, backoff: INITIAL_BACKOFF_SECS },
        start_time: None,
        last_error: String::new(),
    };
    t.health_port = t.config.local_port;
    t.task = Some(task);
    previous
}

/// Gives up the task of the tunnel. Returns it: it is to be aborted.
pub fn stop_tunnel(t: &mut Tunnel) -> (previous: Option<u64>)
    ensures
        final(t)@ == stopped(old(t)@),
        previous == old(t)@.task,
{
    let previous = t.task;
    t.stop_flag = true;
    t.task = None;
    t.state = TunnelState::idle();
    previous
}

// ── what holds of every tunnel ──────────────────────────────────────────────
/// The arguments depend on the home directory only for a key that is given
/// relative to it.
pub proof fn home_matters_for_keys_below_it(
    c: TunnelConfigView,
    home: Option<Seq<char>>,
    other: Option<Seq<char>>,
)
    requires
        !is_below_home(c.ssh_key),
    ensures
        ssh_args(c, home) == ssh_args(c, other),
{
}

/// The arguments start with the common options and end with the server.
pub proof fn arguments_end_with_the_server(c: TunnelConfigView, home: Option<Seq<char>>)
    ensures
        common_options().is_prefix_of(ssh_args(c, home)),
        ssh_args(c, home).last() == destination(c),
{
}

/// Stopping a tunnel that is stopped changes nothing.
pub proof fn stopping_twice_is_stopping_once(t: TunnelView)
    ensures
        stopped(stopped(t)) == stopped(t),
{
}

/// A start does not depend on what the tunnel did before.
pub proof fn a_start_forgets_the_past(t: TunnelView, earlier: u64, task: u64)
    ensures
        started(stopped(t), task) == started(t, task),
        started(started(t, earlier), task) == started(t, task),
        started(fresh(t.config), task) == started(t, task),
{
}

/// Whether a type of tunnel forwards anything.
pub open spec fn is_known(tunnel_type: Seq<char>) -> bool {
    tunnel_type == "local"@ || tunnel_type == "remote"@ || tunnel_type == "dynamic"@
}

/// The arguments are, in this order: the options that every process gets; the key,
/// if one is configured; the port of the server, unless it is 22; what is to be
/// forwarded, for a type that is known; and the server. Nothing else is among them.
pub proof fn arguments_say_what_is_configured(c: TunnelConfigView, home: Option<Seq<char>>)
    ensures
        ({
            let args = ssh_args(c, home);
            let key: int = if c.ssh_key.len() > 0 { 2 } else { 0 };
            let port: int = if c.ssh_port != 22 { 2 } else { 0 };
            let forward: int = if is_known(c.tunnel_type) { 2 } else { 0 };
            let server = 9 + key + port + forward;
            &&& args.len() == server + 1
            &&& args.take(9) == seq![
                "-N"@,
                "-o"@,
                "StrictHostKeyChecking=accept-new"@,
                "-o"@,
                "ServerAliveInterval=30"@,
                "-o"@,
                "ExitOnForwardFailure=yes"@,
                "-o"@,
                "BatchMode=yes"@,
            ]
            &&& c.ssh_key.len() > 0 ==> args[9] == "-i"@
            &&& c.ssh_port != 22 ==> args[9 + key] == "-p"@ && args[10 + key] == decimal(
                c.ssh_port as nat,
            )
            &&& c.tunnel_type == "local"@ ==> args[9 + key + port] == "-L"@
            &&& c.tunnel_type == "remote"@ ==> args[9 + key + port] == "-R"@
            &&& c.tunnel_type == "dynamic"@ ==> args[9 + key + port] == "-D"@
                && args[10 + key + port] == decimal(c.local_port as nat)
            &&& c.ssh_user.len() == 0 ==> args[server] == c.ssh_host
            &&& c.ssh_user.len() > 0 ==> args[server] == c.ssh_user + "@"@ + c.ssh_host
        }),
{
    types_differ();
}

proof fn types_differ()
    ensures
        "local"@ != "remote"@,
        "local"@ != "dynamic"@,
        "remote"@ != "dynamic"@,
{
    reveal_strlit("local");
    reveal_strlit("remote");
    reveal_strlit("dynamic");
    assert("local"@[0] == 'l' && "remote"@[0] == 'r' && "dynamic"@[0] == 'd');
}

/// A local or a remote tunnel forwards its local port to the remote host that is
/// configured, and to the remote port there, if one is. This is the argument
/// before the server.
pub proof fn a_tunnel_leads_to_the_remote_host(c: TunnelConfigView, home: Option<Seq<char>>)
    requires
        c.tunnel_type == "local"@ || c.tunnel_type == "remote"@,
    ensures
        ({
            let args = ssh_args(c, home);
            let leads_to = args[args.len() - 2];
            &&& args.len() >= 12
            &&& c.remote_port > 0 ==> leads_to == decimal(c.local_port as nat) + ":"@
                + c.remote_host + ":"@ + decimal(c.remote_port as nat)
            &&& c.remote_port == 0 ==> leads_to == decimal(c.local_port as nat) + ":"@
                + c.remote_host
        }),
{
    types_differ();
    let args = ssh_args(c, home);
    assert(args[args.len() - 2] == forward_options(c)[1]);
    if c.remote_port > 0 {
        assert(forward_options(c)[1] == decimal(c.local_port as nat) + ":"@ + c.remote_host + ":"@
            + decimal(c.remote_port as nat));
    }
}

/// Local or remote tunnels that lead to different hosts, and are else configured
/// alike, get different arguments.
pub proof fn hosts_are_told_apart(
    c: TunnelConfigView,
    remote_host: Seq<char>,
    home: Option<Seq<char>>,
)
    requires
        c.tunnel_type == "local"@ || c.tunnel_type == "remote"@,
        remote_host != c.remote_host,
    ensures
        ssh_args(TunnelConfigView { remote_host, ..c }, home) != ssh_args(c, home),
{
    let other = TunnelConfigView { remote_host, ..c };
    a_tunnel_leads_to_the_remote_host(c, home);
    a_tunnel_leads_to_the_remote_host(other, home);
    if ssh_args(other, home) == ssh_args(c, home) {
        let args = ssh_args(c, home);
        let leads_to = args[args.len() - 2];
        let head = decimal(c.local_port as nat) + ":"@;
        let tail = if c.remote_port > 0 {
            ":"@ + decimal(c.remote_port as nat)
        } else {
            Seq::empty()
        };
        assert(leads_to == head + c.remote_host + tail);
        assert(leads_to == head + remote_host + tail);
        assert(c.remote_host.len() == remote_host.len());
        assert forall|i: int| 0 <= i < remote_host.len() implies remote_host[i]
            == c.remote_host[i] by {
            assert(leads_to[head.len() + i] == remote_host[i]);
            assert(leads_to[head.len() + i] == c.remote_host[i]);
        }
        assert(remote_host == c.remote_host);
    }
}

/// A key is named as it is configured, but that the home directory, where it is
/// known, stands in place of a tilde with a slash behind it.
pub proof fn a_key_is_named_in_full(c: TunnelConfigView, below: Seq<char>, home: Seq<char>)
    ensures
        c.ssh_key == seq!['~', '/'] + below ==> ssh_args(c, Some(home))[10] == home + (seq!['/']
            + below),
        c.ssh_key.len() > 0 ==> ssh_args(c, None)[10] == c.ssh_key,
        c.ssh_key.len() == 1 ==> ssh_args(c, Some(home))[10] == c.ssh_key,
        c.ssh_key.len() > 1 && (c.ssh_key[0] != '~' || c.ssh_key[1] != '/') ==> ssh_args(
            c,
            Some(home),
        )[10] == c.ssh_key,
{
    if c.ssh_key == seq!['~', '/'] + below {
        assert(c.ssh_key.skip(1) == seq!['/'] + below);
    }
}

/// What a start and a stop leave of a tunnel, and what a tunnel is before them.
/// Its configuration stays as it is.
pub proof fn starts_and_stops_are_recorded(t: TunnelView, task: u64)
    ensures
        started(t, task).config == t.config,
        started(t, task).task == Some(task),
        started(t, task).health_port == t.config.local_port,
        !started(t, task).stop_flag,
        started(t, task).state.status == (TunnelStatus::Reconnecting { failures: 0, backoff: 1 }),
        started(t, task).state.start_time is None,
        started(t, task).state.last_error.len() == 0,
        stopped(t).config == t.config,
        stopped(t).task is None,
        stopped(t).health_port == t.health_port,
        stopped(t).stop_flag,
        stopped(t).state.status == TunnelStatus::Stopped,
        stopped(t).state.start_time is None,
        stopped(t).state.last_error.len() == 0,
        fresh(t.config).config == t.config,
        fresh(t.config).task is None,
        fresh(t.config).health_port == 0,
        !fresh(t.config).stop_flag,
        fresh(t.config).state == stopped(t).state,
{
}

/// Each status has a sign of its own.
pub proof fn a_sign_tells_the_status(status: TunnelStatus)
    ensures
        status is Stopped <==> status.sign() == "◆"@,
        status is Running <==> status.sign() == "●"@,
        status is Reconnecting <==> status.sign() == "↻"@,
{
    reveal_strlit("◆");
    reveal_strlit("●");
    reveal_strlit("↻");
    assert("◆"@[0] == '◆' && "●"@[0] == '●' && "↻"@[0] == '↻');
}

} // verus!
