//! The application: what the keys do, what is to be done, what the user is told.
use crate::config::{TunnelConfig, TunnelConfigView};
use crate::form::{blank_config, form_of, FormFieldView, FormScreen, FormScreenView};
use crate::input::InputFieldView;
use crate::key::{KeyCode, KeyEvent};
use crate::manager::{ManagerView, TunnelManager};
use crate::picker::{
    picker_of, ConfirmScreen, ConfirmScreenView, PickerScreen, PickerScreenView,
};
use crate::ssh_config::{hosts_of, SshHostView};
use vstd::prelude::*;

verus! {

/// The nanoseconds for which a notification is shown.
pub const NOTIFICATION_NANOS: u64 = 5_000_000_000;

// ── actions ─────────────────────────────────────────────────────────────────
/// What the user asks for.
#[derive(Debug)]
pub enum Action {
    Start(usize),
    Stop(usize),
    Restart(usize),
    AddTunnel(TunnelConfig),
    EditTunnel(usize, TunnelConfig),
    DeleteTunnel(usize),
    StartAll,
    StopAll,
    HealthCheck,
    Quit,
}

#[verifier::ext_equal]
pub enum ActionView {
    Start(usize),
    Stop(usize),
    Restart(usize),
    AddTunnel(TunnelConfigView),
    EditTunnel(usize, TunnelConfigView),
    DeleteTunnel(usize),
    StartAll,
    StopAll,
    HealthCheck,
    Quit,
}

impl View for Action {
    type V = ActionView;

    open spec fn view(&self) -> ActionView {
        match self {
            Action::Start(i) => ActionView::Start(*i),
            Action::Stop(i) => ActionView::Stop(*i),
            Action::Restart(i) => ActionView::Restart(*i),
            Action::AddTunnel(config) => ActionView::AddTunnel(config@),
            Action::EditTunnel(i, config) => ActionView::EditTunnel(*i, config@),
            Action::DeleteTunnel(i) => ActionView::DeleteTunnel(*i),
            Action::StartAll => ActionView::StartAll,
            Action::StopAll => ActionView::StopAll,
            Action::HealthCheck => ActionView::HealthCheck,
            Action::Quit => ActionView::Quit,
        }
    }
}

pub open spec fn action_views(actions: Seq<Action>) -> Seq<ActionView> {
    actions.map_values(|a: Action| a@)
}

impl Action {
    /// Whether the action ends the program.
    pub fn is_quit(&self) -> (r: bool)
        ensures
            r == (self@ == ActionView::Quit),
    {
        matches!(self, Action::Quit)
    }
}

/// The actions that are carried out: all of them up to the first one that ends
/// the program, that one among them.
pub open spec fn carried_out(actions: Seq<ActionView>) -> Seq<ActionView> {
    match actions.index_of_first(ActionView::Quit) {
        Some(i) => actions.take(i + 1),
        None => actions,
    }
}

/// The actions that are carried out, and whether they end the program.
pub fn up_to_quit(actions: Vec<Action>) -> (r: (Vec<Action>, bool))
    ensures
        action_views(r.0@) == carried_out(action_views(actions@)),
        r.1 == action_views(actions@).contains(ActionView::Quit),
{
    let ghost all = action_views(actions@);
    proof {
        all.index_of_first_ensures(ActionView::Quit);
    }
    let mut kept = actions;
    let n = kept.len();
    for i in 0..n
        invariant
            n == kept@.len(),
            all == action_views(actions@),
            action_views(kept@) == all,
            forall|j: int| 0 <= j < i ==> #[trigger] all[j] != ActionView::Quit,
            match all.index_of_first(ActionView::Quit) {
                Some(k) => {
                    &&& 0 <= k < all.len()
                    &&& all[k] == ActionView::Quit
                    &&& forall|j: int| 0 <= j < k ==> all[j] != ActionView::Quit
                },
                None => !all.contains(ActionView::Quit),
            },
    {
        assert(all[i as int] == kept@[i as int]@);
        if kept[i].is_quit() {
            assert(all.contains(all[i as int]));
            kept.truncate(i + 1);
            assert(action_views(kept@) == all.take(i + 1));
            return (kept, true);
        }
    }
    (kept, false)
}

// ── the application ─────────────────────────────────────────────────────────
/// What is open over the list of tunnels.
#[derive(Debug)]
pub enum AppMode {
    Normal,
    Form(FormScreen),
    Confirm(ConfirmScreen),
    Picker(PickerScreen),
}

#[verifier::ext_equal]
pub enum AppModeView {
    Normal,
    Form(FormScreenView),
    Confirm(ConfirmScreenView),
    Picker(PickerScreenView),
}

impl View for AppMode {
    type V = AppModeView;

    open spec fn view(&self) -> AppModeView {
        match self {
            AppMode::Normal => AppModeView::Normal,
            AppMode::Form(form) => AppModeView::Form(form@),
            AppMode::Confirm(confirm) => AppModeView::Confirm(confirm@),
            AppMode::Picker(picker) => AppModeView::Picker(picker@),
        }
    }
}

/// The application: the row of the list that is selected, what is open over the
/// list, what the user is told and since when, what is still to be done, and the
/// tunnel whose configuration is being edited. Times are in nanoseconds of a
/// clock that never goes back.
#[derive(Debug)]
pub struct App {
    pub row: Option<usize>,
    pub mode: AppMode,
    pub notification: Option<(String, u64)>,
    pub pending_actions: Vec<Action>,
    pub editing_index: Option<usize>,
}

#[verifier::ext_equal]
pub struct AppView {
    pub row: Option<usize>,
    pub mode: AppModeView,
    pub notification: Option<(Seq<char>, u64)>,
    pub pending_actions: Seq<ActionView>,
    pub editing_index: Option<usize>,
}

impl View for App {
    type V = AppView;

    open spec fn view(&self) -> AppView {
        AppView {
            row: self.row,
            mode: self.mode@,
            notification: match self.notification {
                Some(n) => Some((n.0@, n.1)),
                None => None,
            },
            pending_actions: action_views(self.pending_actions@),
            editing_index: self.editing_index,
        }
    }
}

// ── the rules ───────────────────────────────────────────────────────────────
/// The application as it starts.
pub open spec fn initial_app() -> AppView {
    AppView {
        row: Some(0),
        mode: AppModeView::Normal,
        notification: None,
        pending_actions: Seq::empty(),
        editing_index: None,
    }
}

impl AppView {
    pub open spec fn wf(self) -> bool {
        match self.mode {
            AppModeView::Form(form) => form.wf(),
            AppModeView::Picker(picker) => picker.wf(),
            _ => true,
        }
    }

    /// The tunnel that is selected: the one in the selected row, if that row has
    /// one.
    pub open spec fn selection(self, m: ManagerView) -> Option<usize> {
        match self.row {
            Some(i) => if i < m.tunnels.len() {
                Some(i)
            } else {
                None
            },
            None => None,
        }
    }

    /// The user has been told something.
    pub open spec fn notified(self, message: Seq<char>, now: u64) -> AppView {
        AppView { notification: Some((message, now)), ..self }
    }

    /// Something is to be done.
    pub open spec fn asked(self, action: ActionView) -> AppView {
        AppView { pending_actions: self.pending_actions.push(action), ..self }
    }

    pub open spec fn in_mode(self, mode: AppModeView) -> AppView {
        AppView { mode, ..self }
    }

    pub open spec fn at_row(self, i: int) -> AppView {
        AppView { row: Some(i as usize), ..self }
    }
}

/// The selected row, or the first one.
pub open spec fn row_or_first(a: AppView) -> int {
    match a.row {
        Some(i) => i as int,
        None => 0,
    }
}

/// The row after `i`, or the first one, among `n` rows.
pub open spec fn row_below(i: int, n: int) -> int {
    if i + 1 < n {
        i + 1
    } else {
        0
    }
}

/// The row before `i`, or the last one, among `n` rows.
pub open spec fn row_above(i: int, n: int) -> int {
    if i > 0 {
        i - 1
    } else {
        n - 1
    }
}

/// What is asked before a tunnel is deleted.
pub open spec fn deletion_question(name: Seq<char>) -> Seq<char> {
    "Delete tunnel '"@ + name + "'?"@
}

/// What a key does to the list of tunnels. `ssh_config` is the text of the SSH
/// client configuration.
pub open spec fn normal_step(
    a: AppView,
    key: KeyEvent,
    m: ManagerView,
    ssh_config: Seq<char>,
    now: u64,
) -> AppView {
    let n = m.tunnels.len() as int;
    let selection = a.selection(m);
    match key.code {
        KeyCode::Char('q') => a.asked(ActionView::Quit),
        KeyCode::Char('j') | KeyCode::Down => if n > 0 {
            a.at_row(row_below(row_or_first(a), n))
        } else {
            a
        },
        KeyCode::Char('k') | KeyCode::Up => if n > 0 {
            a.at_row(row_above(row_or_first(a), n))
        } else {
            a
        },
        KeyCode::Char('s') => match selection {
            Some(i) => a.asked(ActionView::Start(i)).notified("Starting tunnel..."@, now),
            None => a,
        },
        KeyCode::Char('K') => match selection {
            Some(i) => a.asked(ActionView::Stop(i)).notified("Stopping tunnel..."@, now),
            None => a,
        },
        KeyCode::Char('r') => match selection {
            Some(i) => a.asked(ActionView::Restart(i)).notified("Restarting tunnel..."@, now),
            None => a,
        },
        KeyCode::Char('a') => a.in_mode(
            AppModeView::Form(form_of("Add Tunnel"@, blank_config())),
        ),
        KeyCode::Char('i') => if picker_of(ssh_config).items.len() == 0 {
            a.notified("No hosts in ~/.ssh/config"@, now)
        } else {
            a.in_mode(AppModeView::Picker(picker_of(ssh_config)))
        },
        KeyCode::Char('e') => match selection {
            Some(i) => AppView {
                editing_index: Some(i),
                mode: AppModeView::Form(form_of("Edit Tunnel"@, m.tunnels[i as int].config)),
                ..a
            },
            None => a,
        },
        KeyCode::Char('d') => match selection {
            Some(i) => a.in_mode(
                AppModeView::Confirm(
                    ConfirmScreenView {
                        message: deletion_question(m.tunnels[i as int].config.name),
                    },
                ),
            ),
            None => a,
        },
        KeyCode::Char('h') => a.asked(ActionView::HealthCheck).notified(
            "Running health check..."@,
            now,
        ),
        KeyCode::Char('A') => if key.control {
            a.asked(ActionView::StartAll).notified("Starting all enabled tunnels..."@, now)
        } else {
            a
        },
        KeyCode::Char('X') => if key.control {
            a.asked(ActionView::StopAll).notified("Stopping all tunnels..."@, now)
        } else {
            a
        },
        _ => a,
    }
}

/// What a key does to the form. The form is handed back beside the application:
/// whether it stays open is decided elsewhere.
pub open spec fn form_step(a: AppView, form: FormScreenView, key: KeyEvent, now: u64) -> (
    AppView,
    FormScreenView,
) {
    let input = form.active_field().input;
    match key.code {
        KeyCode::Enter => match form.config() {
            Some(config) => {
                let action = match a.editing_index {
                    Some(i) => ActionView::EditTunnel(i, config),
                    None => ActionView::AddTunnel(config),
                };
                (AppView { editing_index: None, mode: AppModeView::Normal, ..a.asked(action) }, form)
            },
            None => (a.notified("Name is required"@, now), form),
        },
        KeyCode::Tab | KeyCode::Down => (a, form.moved(true)),
        KeyCode::BackTab | KeyCode::Up => (a, form.moved(false)),
        KeyCode::Char(' ') => (a, form.cycled(true)),
        KeyCode::Backspace => (a, form.with_input(input.backspaced())),
        KeyCode::Delete => (a, form.with_input(input.deleted())),
        KeyCode::Left => (a, form.with_input(input.moved_left())),
        KeyCode::Right => (a, form.with_input(input.moved_right())),
        KeyCode::Home => (a, form.with_input(input.moved_home())),
        KeyCode::End => (a, form.with_input(input.moved_to_end())),
        KeyCode::Char(c) => (a, form.typed(c)),
        _ => (a, form),
    }
}

/// Whether a form can take a key: a character is not cut in two by it.
pub open spec fn form_accepts(form: FormScreenView, key: KeyEvent) -> bool {
    let input = form.active_field().input;
    match key.code {
        KeyCode::Backspace => input.can_backspace(),
        KeyCode::Delete => input.can_delete(),
        KeyCode::Char(c) => c == ' ' || input.can_type(),
        _ => true,
    }
}

/// What a key does to the question before a deletion.
pub open spec fn confirm_step(a: AppView, key: KeyEvent, m: ManagerView) -> AppView {
    match key.code {
        KeyCode::Char('y') | KeyCode::Char('Y') => match a.selection(m) {
            Some(i) => a.asked(ActionView::DeleteTunnel(i)).in_mode(AppModeView::Normal),
            None => a.in_mode(AppModeView::Normal),
        },
        KeyCode::Char('n') | KeyCode::Char('N') => a.in_mode(AppModeView::Normal),
        _ => a,
    }
}

pub open spec fn or_empty(s: Option<Seq<char>>) -> Seq<char> {
    match s {
        Some(s) => s,
        None => Seq::empty(),
    }
}

/// The configuration of a tunnel to a host.
pub open spec fn config_for(host: SshHostView) -> TunnelConfigView {
    TunnelConfigView {
        name: host.name,
        ssh_host: or_empty(host.hostname),
        ssh_port: host.port,
        ssh_user: or_empty(host.user),
        ssh_key: or_empty(host.identity_file),
        ..blank_config()
    }
}

/// What a key does to the picker.
pub open spec fn picker_step(a: AppView, picker: PickerScreenView, key: KeyEvent) -> (
    AppView,
    PickerScreenView,
) {
    match key.code {
        KeyCode::Enter => match picker.selection() {
            Some(host) => (
                a.in_mode(AppModeView::Form(form_of("Edit Tunnel"@, config_for(host)))),
                picker,
            ),
            None => (a, picker),
        },
        KeyCode::Char('j') | KeyCode::Down => (a, picker.moved(true)),
        KeyCode::Char('k') | KeyCode::Up => (a, picker.moved(false)),
        _ => (a, picker),
    }
}

/// What a key does. Esc closes what is open over the list; after any other key
/// the same thing is open as before.
pub open spec fn key_step(
    a: AppView,
    key: KeyEvent,
    m: ManagerView,
    ssh_config: Seq<char>,
    now: u64,
) -> AppView {
    let listing = a.in_mode(AppModeView::Normal);
    if key.code == KeyCode::Esc && a.mode != AppModeView::Normal {
        listing
    } else {
        match a.mode {
            AppModeView::Form(form) => {
                let (after, form) = form_step(listing, form, key, now);
                after.in_mode(AppModeView::Form(form))
            },
            AppModeView::Confirm(confirm) => confirm_step(listing, key, m).in_mode(
                AppModeView::Confirm(confirm),
            ),
            AppModeView::Picker(picker) => {
                let (after, picker) = picker_step(listing, picker, key);
                after.in_mode(AppModeView::Picker(picker))
            },
            AppModeView::Normal => normal_step(listing, key, m, ssh_config, now).in_mode(
                AppModeView::Normal,
            ),
        }
    }
}

/// Whether a key can be handled.
pub open spec fn app_accepts(a: AppView, key: KeyEvent) -> bool {
    a.mode matches AppModeView::Form(form) ==> form_accepts(form, key)
}

/// The notification, unless it has been shown for long enough.
pub open spec fn still_shown(notification: Option<(Seq<char>, u64)>, now: u64) -> Option<
    (Seq<char>, u64),
> {
    match notification {
        Some((message, since)) => if now - since > NOTIFICATION_NANOS {
            None
        } else {
            Some((message, since))
        },
        None => None,
    }
}

// ── key handling ────────────────────────────────────────────────────────────
impl App {
    /// The application as it starts.
    pub fn new() -> (app: Self)
        ensures
            app@ == initial_app(),
            app@.wf(),
    {
        let app = App {
            row: Some(0),
            mode: AppMode::Normal,
            notification: None,
            pending_actions: Vec::new(),
            editing_index: None,
        };
        assert(app@.pending_actions == Seq::<ActionView>::empty());
        app
    }

    /// The tunnel that is selected, if there is one.
    pub fn selected(&self, manager: &TunnelManager) -> (r: Option<usize>)
        ensures
            r == self@.selection(manager@),
    {
        match self.row {
            Some(i) => if i < manager.tunnels.len() {
                Some(i)
            } else {
                None
            },
            None => None,
        }
    }

    /// Takes over the row that is selected on the screen: what shows the list
    /// may have had to move the selection.
    pub fn set_row(&mut self, row: Option<usize>)
        ensures
            final(self)@ == (AppView { row, ..old(self)@ }),
    {
        self.row = row;
    }

    /// Tells the user something.
    pub fn notify(&mut self, message: &str, now: u64)
        ensures
            final(self)@ == old(self)@.notified(message@, now),
    {
        self.notification = Some((message.to_string(), now));
    }

    fn ask(&mut self, action: Action)
        ensures
            final(self)@ == old(self)@.asked(action@),
    {
        self.pending_actions.push(action);
        assert(self@.pending_actions == old(self)@.pending_actions.push(action@));
    }

    /// Takes what is to be done, all of it.
    pub fn take_actions(&mut self) -> (actions: Vec<Action>)
        ensures
            action_views(actions@) == old(self)@.pending_actions,
            final(self)@ == (AppView { pending_actions: Seq::empty(), ..old(self)@ }),
    {
        let mut actions: Vec<Action> = Vec::new();
        std::mem::swap(&mut actions, &mut self.pending_actions);
        assert(self@.pending_actions == Seq::<ActionView>::empty());
        actions
    }

    /// Takes back a notification that has been shown for long enough.
    pub fn clear_notification(&mut self, now: u64)
        ensures
            final(self)@ == (AppView {
                notification: still_shown(old(self)@.notification, now),
                ..old(self)@
            }),
    {
        let expired = match &self.notification {
            Some((_, since)) => now > *since && now - *since > NOTIFICATION_NANOS,
            None => false,
        };
        if expired {
            self.notification = None;
        }
    }

    /// Whether the key is one for which the SSH client configuration is read.
    pub fn wants_ssh_config(&self, key: KeyEvent) -> (r: bool)
        ensures
            r == (self@.mode == AppModeView::Normal && key.code == KeyCode::Char('i')),
    {
        matches!(self.mode, AppMode::Normal) && key.code == KeyCode::Char('i')
    }

    /// Whether a key can be handled.
    pub fn accepts_key(&self, key: KeyEvent) -> (r: bool)
        requires
            self@.wf(),
        ensures
            r == app_accepts(self@, key),
    {
        match &self.mode {
            AppMode::Form(form) => {
                let input = &form.fields[form.active].input;
                assert(form@.active_field() == form.fields@[form.active as int]@);
                match key.code {
                    KeyCode::Backspace => input.accepts_backspace(),
                    KeyCode::Delete => input.accepts_delete(),
                    KeyCode::Char(c) => c == ' ' || input.accepts_char(),
                    _ => true,
                }
            },
            _ => true,
        }
    }

    /// Handles a key. `ssh_config` is the text of the SSH client configuration,
    /// or empty where there is none to be read; only the key for which
    /// `wants_ssh_config` holds depends on it.
    pub fn handle_key(
        &mut self,
        key: KeyEvent,
        manager: &TunnelManager,
        ssh_config: &str,
        now: u64,
    )
        requires
            old(self)@.wf(),
            app_accepts(old(self)@, key),
        ensures
            final(self)@ == key_step(old(self)@, key, manager@, ssh_config@, now),
            final(self)@.wf(),
    {
        // Esc always closes what is open over the list.
        if key.code == KeyCode::Esc {
            if !matches!(self.mode, AppMode::Normal) {
                self.mode = AppMode::Normal;
                return;
            }
        }
        let mut mode = AppMode::Normal;
        std::mem::swap(&mut mode, &mut self.mode);
        let mode = match mode {
            AppMode::Form(form) => {
                let mut form = form;
                self.handle_form(key, &mut form, now);
                AppMode::Form(form)
            },
            AppMode::Confirm(confirm) => {
                self.handle_confirm(key, manager);
                AppMode::Confirm(confirm)
            },
            AppMode::Picker(picker) => {
                let mut picker = picker;
                self.handle_picker(key, &mut picker);
                AppMode::Picker(picker)
            },
            AppMode::Normal => {
                self.handle_normal(key, manager, ssh_config, now);
                AppMode::Normal
            },
        };
        self.mode = mode;
    }

    /// Handles a key for the list of tunnels.
    pub fn handle_normal(
        &mut self,
        key: KeyEvent,
        manager: &TunnelManager,
        ssh_config: &str,
        now: u64,
    )
        ensures
            final(self)@ == normal_step(old(self)@, key, manager@, ssh_config@, now),
            old(self)@.wf() ==> final(self)@.wf(),
    {
        let n = manager.tunnels.len();
        match key.code {
            KeyCode::Char('q') => {
                self.ask(Action::Quit);
            },
            KeyCode::Char('j') | KeyCode::Down => {
                if n > 0 {
                    let i: usize = match self.row {
                        Some(i) => i,
                        None => 0,
                    };
                    self.row = Some(
                        if i < n - 1 {
                            i + 1
                        } else {
                            0
                        },
                    );
                }
            },
            KeyCode::Char('k') | KeyCode::Up => {
                if n > 0 {
                    let i: usize = match self.row {
                        Some(i) => i,
                        None => 0,
                    };
                    self.row = Some(
                        if i > 0 {
                            i - 1
                        } else {
                            n - 1
                        },
                    );
                }
            },
            KeyCode::Char('s') => {
                if let Some(i) = self.selected(manager) {
                    self.ask(Action::Start(i));
                    self.notify("Starting tunnel...", now);
                }
            },
            KeyCode::Char('K') => {
                if let Some(i) = self.selected(manager) {
                    self.ask(Action::Stop(i));
                    self.notify("Stopping tunnel...", now);
                }
            },
            KeyCode::Char('r') => {
                if let Some(i) = self.selected(manager) {
                    self.ask(Action::Restart(i));
                    self.notify("Restarting tunnel...", now);
                }
            },
            KeyCode::Char('a') => {
                self.mode = AppMode::Form(FormScreen::new_add());
            },
            KeyCode::Char('i') => {
                let picker = PickerScreen::from_ssh_config(ssh_config);
                if picker.items.len() == 0 {
                    self.notify("No hosts in ~/.ssh/config", now);
                } else {
                    self.mode = AppMode::Picker(picker);
                }
            },
            KeyCode::Char('e') => {
                if let Some(i) = self.selected(manager) {
                    assert(manager@.tunnels[i as int] == manager.tunnels@[i as int]@);
                    self.editing_index = Some(i);
                    self.mode = AppMode::Form(FormScreen::new_edit(&manager.tunnels[i].config));
                }
            },
            KeyCode::Char('d') => {
                if let Some(i) = self.selected(manager) {
                    assert(manager@.tunnels[i as int] == manager.tunnels@[i as int]@);
                    let question = "Delete tunnel '".to_string().concat(
                        manager.tunnels[i].config.name.as_str(),
                    ).concat("'?");
                    self.mode = AppMode::Confirm(ConfirmScreen::new(question.as_str()));
                }
            },
            KeyCode::Char('h') => {
                self.ask(Action::HealthCheck);
                self.notify("Running health check...", now);
            },
            KeyCode::Char('A') => {
                if key.control {
                    self.ask(Action::StartAll);
                    self.notify("Starting all enabled tunnels...", now);
                }
            },
            KeyCode::Char('X') => {
                if key.control {
                    self.ask(Action::StopAll);
                    self.notify("Stopping all tunnels...", now);
                }
            },
            _ => {},
        }
    }

    /// Handles a key for the form.
    pub fn handle_form(&mut self, key: KeyEvent, form: &mut FormScreen, now: u64)
        requires
            old(form)@.wf(),
            form_accepts(old(form)@, key),
        ensures
            (final(self)@, final(form)@) == form_step(old(self)@, old(form)@, key, now),
            final(form)@.wf(),
            old(self)@.wf() ==> final(self)@.wf(),
    {
        let active = form.active;
        assert(form@.active_field() == form.fields@[active as int]@);
        assert(form@.fields[active as int].wf());
        match key.code {
            KeyCode::Enter => {
                if let Some(config) = form.to_config() {
                    if let Some(i) = self.editing_index.take() {
                        self.ask(Action::EditTunnel(i, config));
                    } else {
                        self.ask(Action::AddTunnel(config));
                    }
                    self.mode = AppMode::Normal;
                } else {
                    self.notify("Name is required", now);
                }
            },
            KeyCode::Tab | KeyCode::Down => {
                form.next_field();
            },
            KeyCode::BackTab | KeyCode::Up => {
                form.prev_field();
            },
            KeyCode::Char(' ') => {
                form.cycle_select(true);
            },
            KeyCode::Backspace => {
                form.fields[active].input.backspace();
                assert(form@.fields == old(form)@.with_input(
                    old(form)@.active_field().input.backspaced(),
                ).fields);
            },
            KeyCode::Delete => {
                form.fields[active].input.delete();
                assert(form@.fields == old(form)@.with_input(
                    old(form)@.active_field().input.deleted(),
                ).fields);
            },
            KeyCode::Left => {
                form.fields[active].input.cursor_left();
                assert(form@.fields == old(form)@.with_input(
                    old(form)@.active_field().input.moved_left(),
                ).fields);
            },
            KeyCode::Right => {
                form.fields[active].input.cursor_right();
                assert(form@.fields == old(form)@.with_input(
                    old(form)@.active_field().input.moved_right(),
                ).fields);
            },
            KeyCode::Home => {
                form.fields[active].input.home();
                assert(form@.fields == old(form)@.with_input(
                    old(form)@.active_field().input.moved_home(),
                ).fields);
            },
            KeyCode::End => {
                form.fields[active].input.end();
                assert(form@.fields == old(form)@.with_input(
                    old(form)@.active_field().input.moved_to_end(),
                ).fields);
            },
            KeyCode::Char(c) => {
                form.handle_key(c);
            },
            _ => {},
        }
    }

    /// Handles a key for the question before a deletion.
    pub fn handle_confirm(&mut self, key: KeyEvent, manager: &TunnelManager)
        ensures
            final(self)@ == confirm_step(old(self)@, key, manager@),
            old(self)@.wf() ==> final(self)@.wf(),
    {
        match key.code {
            KeyCode::Char('y') | KeyCode::Char('Y') => {
                if let Some(i) = self.selected(manager) {
                    self.ask(Action::DeleteTunnel(i));
                }
                self.mode = AppMode::Normal;
            },
            KeyCode::Char('n') | KeyCode::Char('N') => {
                self.mode = AppMode::Normal;
            },
            _ => {},
        }
    }

    /// Handles a key for the picker.
    pub fn handle_picker(&mut self, key: KeyEvent, picker: &mut PickerScreen)
        requires
            old(picker)@.wf(),
        ensures
            (final(self)@, final(picker)@) == picker_step(old(self)@, old(picker)@, key),
            final(picker)@.wf(),
            old(self)@.wf() ==> final(self)@.wf(),
    {
        match key.code {
            KeyCode::Enter => {
                if let Some(host) = picker.selected_host() {
                    let config = TunnelConfig {
                        name: host.name.clone(),
                        tunnel_type: "local".to_string(),
                        local_port: 0,
                        ssh_host: text_or_empty(&host.hostname),
                        ssh_port: host.port,
                        ssh_user: text_or_empty(&host.user),
                        ssh_key: text_or_empty(&host.identity_file),
                        remote_host: "localhost".to_string(),
                        remote_port: 0,
                        enabled: true,
                    };
                    assert(config@ == config_for(host@));
                    self.mode = AppMode::Form(FormScreen::new_edit(&config));
                }
            },
            KeyCode::Char('j') | KeyCode::Down => {
                picker.down();
            },
            KeyCode::Char('k') | KeyCode::Up => {
                picker.up();
            },
            _ => {},
        }
    }
}

fn text_or_empty(s: &Option<String>) -> (r: String)
    ensures
        r@ == or_empty(crate::text::optional_text(*s)),
{
    match s {
        Some(s) => s.clone(),
        None => String::new(),
    }
}

// ── what holds of every application ─────────────────────────────────────────
/// Esc closes what is open over the list, and does nothing else.
pub proof fn esc_closes_what_is_open(
    a: AppView,
    key: KeyEvent,
    m: ManagerView,
    ssh_config: Seq<char>,
    now: u64,
)
    requires
        key.code == KeyCode::Esc,
    ensures
        app_accepts(a, key),
        key_step(a, key, m, ssh_config, now) == a.in_mode(AppModeView::Normal),
{
}

/// After any other key the same thing is open as before. In particular the list
/// stays what the keys are for, if nothing is open over it.
pub proof fn other_keys_leave_open_what_is_open(
    a: AppView,
    key: KeyEvent,
    m: ManagerView,
    ssh_config: Seq<char>,
    now: u64,
)
    requires
        key.code != KeyCode::Esc,
    ensures
        ({
            let after = key_step(a, key, m, ssh_config, now);
            &&& after.mode is Normal <==> a.mode is Normal
            &&& after.mode is Form <==> a.mode is Form
            &&& after.mode is Picker <==> a.mode is Picker
            &&& a.mode is Confirm ==> after.mode == a.mode
        }),
{
}

/// A key adds at most one action to those that are to be done, behind them.
pub proof fn actions_are_kept_in_order(
    a: AppView,
    key: KeyEvent,
    m: ManagerView,
    ssh_config: Seq<char>,
    now: u64,
)
    ensures
        ({
            let after = key_step(a, key, m, ssh_config, now).pending_actions;
            after == a.pending_actions || (after.len() == a.pending_actions.len() + 1
                && after.drop_last() == a.pending_actions)
        }),
{
    let after = key_step(a, key, m, ssh_config, now).pending_actions;
    if after.len() == a.pending_actions.len() + 1 {
        assert(after.drop_last() == a.pending_actions);
    }
}

/// What a key asks to be started, stopped, restarted or deleted is a tunnel that
/// exists, the one that is selected.
pub proof fn actions_are_on_the_selected_tunnel(
    a: AppView,
    key: KeyEvent,
    m: ManagerView,
    ssh_config: Seq<char>,
    now: u64,
)
    requires
        key_step(a, key, m, ssh_config, now).pending_actions != a.pending_actions,
    ensures
        match key_step(a, key, m, ssh_config, now).pending_actions.last() {
            ActionView::Start(i) => a.selection(m) == Some(i) && i < m.tunnels.len(),
            ActionView::Stop(i) => a.selection(m) == Some(i) && i < m.tunnels.len(),
            ActionView::Restart(i) => a.selection(m) == Some(i) && i < m.tunnels.len(),
            ActionView::DeleteTunnel(i) => a.selection(m) == Some(i) && i < m.tunnels.len(),
            _ => true,
        },
{
}

/// Moving the selection down and up again, or up and down, leads back to the
/// same row, and never off the list.
pub proof fn the_selection_moves_in_a_ring(i: int, n: int)
    requires
        0 <= i < n,
    ensures
        0 <= row_below(i, n) < n,
        0 <= row_above(i, n) < n,
        row_above(row_below(i, n), n) == i,
        row_below(row_above(i, n), n) == i,
{
}

/// A form that is opened on a tunnel and saved at once asks for an edit of that
/// tunnel that changes nothing of it, if its type is one that can be chosen.
pub proof fn saving_an_unedited_form_changes_nothing(
    a: AppView,
    m: ManagerView,
    now: u64,
    i: usize,
    edit: KeyEvent,
    save: KeyEvent,
    ssh_config: Seq<char>,
)
    requires
        a.selection(m) == Some(i),
        edit.code == KeyCode::Char('e'),
        save.code == KeyCode::Enter,
        m.tunnels[i as int].config.name.len() > 0,
        crate::form::type_options().contains(m.tunnels[i as int].config.tunnel_type),
    ensures
        ({
            let config = m.tunnels[i as int].config;
            let opened = normal_step(a, edit, m, ssh_config, now);
            &&& opened.mode matches AppModeView::Form(form)
            &&& form_step(opened, form, save, now).0 == (AppView {
                mode: AppModeView::Normal,
                editing_index: None,
                ..a.asked(ActionView::EditTunnel(i, config))
            })
        }),
{
    let config = m.tunnels[i as int].config;
    crate::form::an_unedited_form_gives_the_configuration_back("Edit Tunnel"@, config);
}

/// A notification is shown for five seconds, and no longer.
pub proof fn notifications_are_shown_for_five_seconds(
    a: AppView,
    message: Seq<char>,
    since: u64,
    now: u64,
)
    ensures
        now <= since + 5_000_000_000 ==> still_shown(
            a.notified(message, since).notification,
            now,
        ) == Some((message, since)),
        now > since + 5_000_000_000 ==> still_shown(
            a.notified(message, since).notification,
            now,
        ) is None,
{
}

/// What is carried out are the first of the actions, none of them but the last
/// ends the program, and nothing is left out unless the last one does.
pub proof fn nothing_is_done_after_quitting(actions: Seq<ActionView>)
    ensures
        carried_out(actions).is_prefix_of(actions),
        forall|i: int|
            0 <= i < carried_out(actions).len() - 1 ==> #[trigger] carried_out(actions)[i]
                != ActionView::Quit,
        carried_out(actions) == actions || carried_out(actions).last() == ActionView::Quit,
{
    actions.index_of_first_ensures(ActionView::Quit);
    if !actions.contains(ActionView::Quit) {
        assert forall|i: int| 0 <= i < actions.len() implies #[trigger] actions[i]
            != ActionView::Quit by {
            if actions[i] == ActionView::Quit {
                assert(actions.contains(actions[i]));
            }
        }
    }
}

/// The selected tunnel is the one in the selected row, and there is none where the
/// row has none.
pub proof fn the_selection_is_the_row(a: AppView, m: ManagerView, i: usize)
    ensures
        a.selection(m) == Some(i) <==> a.row == Some(i) && i < m.tunnels.len(),
        a.row matches Some(i) && i >= m.tunnels.len() ==> a.selection(m) is None,
        a.row is None ==> a.selection(m) is None,
{
}

/// Down and `j` move the selection to the next row of the list, up and `k` to the
/// one before; at the ends they go round. With no tunnels nothing moves.
pub proof fn keys_move_the_selection(
    a: AppView,
    key: KeyEvent,
    m: ManagerView,
    ssh_config: Seq<char>,
    now: u64,
    i: usize,
)
    requires
        a.mode is Normal,
        a.row == Some(i),
        i < m.tunnels.len() <= usize::MAX,
    ensures
        ({
            let after = key_step(a, key, m, ssh_config, now);
            let n = m.tunnels.len() as int;
            let at = |row: int| AppView { row: Some(row as usize), ..a };
            &&& key.code == KeyCode::Char('j') || key.code == KeyCode::Down ==> after == at(
                (i + 1) % n,
            )
            &&& key.code == KeyCode::Char('k') || key.code == KeyCode::Up ==> after == at(
                (i + n - 1) % n,
            )
        }),
{
    crate::form::turning_back_undoes_turning(i as int, m.tunnels.len() as int, true);
}

/// Where no row is selected, the first one counts as selected; one that does not
/// exist is left for the first one on the way down, and for the one before it on
/// the way up. Without tunnels nothing moves.
pub proof fn keys_lead_back_to_the_list(
    a: AppView,
    key: KeyEvent,
    m: ManagerView,
    ssh_config: Seq<char>,
    now: u64,
)
    requires
        a.mode is Normal,
        m.tunnels.len() <= usize::MAX,
    ensures
        ({
            let after = key_step(a, key, m, ssh_config, now);
            let down = key.code == KeyCode::Char('j') || key.code == KeyCode::Down;
            let up = key.code == KeyCode::Char('k') || key.code == KeyCode::Up;
            let n = m.tunnels.len() as int;
            let at = |row: int| AppView { row: Some(row as usize), ..a };
            &&& n == 0 && (down || up) ==> after == a
            &&& n > 0 && down && a.row is None ==> after == at(1int % n)
            &&& n > 0 && up && a.row is None ==> after == at(n - 1)
            &&& n > 0 && down && a.row is Some && a.row->0 >= n ==> after == at(0)
            &&& n > 0 && up && a.row is Some && a.row->0 >= n ==> after == at(a.row->0 - 1)
        }),
{
    if m.tunnels.len() > 0 {
        crate::form::turning_back_undoes_turning(0, m.tunnels.len() as int, true);
    }
}

/// A key of the list that has no meaning does nothing.
pub proof fn other_keys_of_the_list_do_nothing(
    a: AppView,
    key: KeyEvent,
    m: ManagerView,
    ssh_config: Seq<char>,
    now: u64,
)
    requires
        a.mode is Normal,
        key.code != KeyCode::Up && key.code != KeyCode::Down,
        key.code matches KeyCode::Char(c) ==> c != 'q' && c != 'j' && c != 'k' && c != 's' && c
            != 'K' && c != 'r' && c != 'a' && c != 'i' && c != 'e' && c != 'd' && c != 'h' && c
            != 'A' && c != 'X',
    ensures
        key_step(a, key, m, ssh_config, now) == a,
        normal_step(a, key, m, ssh_config, now) == a,
{
}

/// The keys of the list ask for their actions on the selected tunnel, and tell the
/// user so. Without a selection they do nothing.
pub proof fn keys_ask_for_actions(
    a: AppView,
    key: KeyEvent,
    m: ManagerView,
    ssh_config: Seq<char>,
    now: u64,
    i: usize,
)
    requires
        a.mode is Normal,
    ensures
        ({
            let after = key_step(a, key, m, ssh_config, now);
            let does = |action: ActionView, message: Seq<char>|
                AppView {
                    pending_actions: a.pending_actions.push(action),
                    notification: Some((message, now)),
                    ..a
                };
            let selected = a.row == Some(i) && i < m.tunnels.len();
            let nothing = a.row is None || a.row->0 >= m.tunnels.len();
            &&& selected && key.code == KeyCode::Char('s') ==> after == does(
                ActionView::Start(i),
                "Starting tunnel..."@,
            )
            &&& selected && key.code == KeyCode::Char('K') ==> after == does(
                ActionView::Stop(i),
                "Stopping tunnel..."@,
            )
            &&& selected && key.code == KeyCode::Char('r') ==> after == does(
                ActionView::Restart(i),
                "Restarting tunnel..."@,
            )
            &&& nothing && (key.code == KeyCode::Char('s') || key.code == KeyCode::Char('K')
                || key.code == KeyCode::Char('r') || key.code == KeyCode::Char('e') || key.code
                == KeyCode::Char('d')) ==> after == a
            &&& key.code == KeyCode::Char('h') ==> after == does(
                ActionView::HealthCheck,
                "Running health check..."@,
            )
            &&& key.code == KeyCode::Char('A') && key.control ==> after == does(
                ActionView::StartAll,
                "Starting all enabled tunnels..."@,
            )
            &&& key.code == KeyCode::Char('X') && key.control ==> after == does(
                ActionView::StopAll,
                "Stopping all tunnels..."@,
            )
            &&& (key.code == KeyCode::Char('A') || key.code == KeyCode::Char('X')) && !key.control
                ==> after == a
            &&& key.code == KeyCode::Char('q') ==> after == (AppView {
                pending_actions: a.pending_actions.push(ActionView::Quit),
                ..a
            })
        }),
{
}

/// The other keys of the list lead to a form, to the list of hosts or to a question,
/// which show what they are about: a new tunnel, the selected one, or the hosts of
/// the configuration. The tunnel that is edited is remembered.
pub proof fn keys_prepare_what_is_opened(
    a: AppView,
    key: KeyEvent,
    m: ManagerView,
    ssh_config: Seq<char>,
    now: u64,
    i: usize,
)
    ensures
        ({
            let after = normal_step(a, key, m, ssh_config, now);
            let selected = a.row == Some(i) && i < m.tunnels.len();
            let config = m.tunnels[i as int].config;
            &&& key.code == KeyCode::Char('a') ==> {
                &&& after == (AppView { mode: after.mode, ..a })
                &&& after.mode matches AppModeView::Form(form)
                &&& form.title == "Add Tunnel"@
                &&& form.fields == form_of("Add Tunnel"@, blank_config()).fields
                &&& form.active == 0
            }
            &&& selected && key.code == KeyCode::Char('e') ==> after == (AppView {
                editing_index: Some(i),
                mode: AppModeView::Form(form_of("Edit Tunnel"@, config)),
                ..a
            })
            &&& selected && key.code == KeyCode::Char('d') ==> after == (AppView {
                mode: AppModeView::Confirm(
                    ConfirmScreenView { message: "Delete tunnel '"@ + config.name + "'?"@ },
                ),
                ..a
            })
            &&& key.code == KeyCode::Char('i') ==> {
                &&& hosts_of(ssh_config).len() == 0 ==> after == (AppView {
                    notification: Some(("No hosts in ~/.ssh/config"@, now)),
                    ..a
                })
                &&& hosts_of(ssh_config).len() > 0 ==> after == (AppView {
                    mode: AppModeView::Picker(picker_of(ssh_config)),
                    ..a
                })
            }
        }),
{
}

/// A new tunnel is configured as a local one on no port, to port 22 of no server
/// yet, for `localhost`, and enabled.
pub proof fn a_new_tunnel_is_blank()
    ensures
        ({
            let c = blank_config();
            &&& c.name.len() == 0 && c.ssh_host.len() == 0
            &&& c.ssh_user.len() == 0 && c.ssh_key.len() == 0
            &&& c.tunnel_type == "local"@ && c.remote_host == "localhost"@
            &&& c.local_port == 0 && c.remote_port == 0 && c.ssh_port == 22
            &&& c.enabled
        }),
{
}

/// Enter saves what was filled in: as an edit of the tunnel that is being edited,
/// and else as a new tunnel. Without a name the user is told that it is missing.
pub proof fn enter_saves_the_form(a: AppView, form: FormScreenView, key: KeyEvent, now: u64)
    requires
        key.code == KeyCode::Enter,
    ensures
        ({
            let (after, kept) = form_step(a, form, key, now);
            &&& kept == form
            &&& form.config() is None ==> after == (AppView {
                notification: Some(("Name is required"@, now)),
                ..a
            })
            &&& form.config() matches Some(config) ==> {
                &&& after.editing_index is None
                &&& after.mode is Normal
                &&& after.row == a.row && after.notification == a.notification
                &&& a.editing_index matches Some(i) ==> after.pending_actions
                    == a.pending_actions.push(ActionView::EditTunnel(i, config))
                &&& a.editing_index is None ==> after.pending_actions == a.pending_actions.push(
                    ActionView::AddTunnel(config),
                )
            }
        }),
{
}

/// Every other key of the form changes the form alone: it goes to another field,
/// chooses the next option, or edits the field that is active.
pub proof fn other_keys_edit_the_form(a: AppView, form: FormScreenView, key: KeyEvent, now: u64)
    requires
        key.code != KeyCode::Enter,
    ensures
        ({
            let (after, edited) = form_step(a, form, key, now);
            let input = form.active_field().input;
            &&& after == a
            &&& key.code == KeyCode::Tab || key.code == KeyCode::Down ==> edited == form.moved(true)
            &&& key.code == KeyCode::BackTab || key.code == KeyCode::Up ==> edited == form.moved(
                false,
            )
            &&& key.code == KeyCode::Char(' ') ==> edited == form.cycled(true)
            &&& key.code matches KeyCode::Char(c) ==> c != ' ' ==> edited == form.typed(c)
            &&& key.code == KeyCode::Backspace ==> edited == form.with_input(input.backspaced())
            &&& key.code == KeyCode::Delete ==> edited == form.with_input(input.deleted())
            &&& key.code == KeyCode::Left ==> edited == form.with_input(input.moved_left())
            &&& key.code == KeyCode::Right ==> edited == form.with_input(input.moved_right())
            &&& key.code == KeyCode::Home ==> edited == form.with_input(input.moved_home())
            &&& key.code == KeyCode::End ==> edited == form.with_input(input.moved_to_end())
            &&& key.code == KeyCode::Esc || key.code == KeyCode::Other ==> edited == form
        }),
{
}

/// The input of the active field is replaced, and nothing else of the form.
pub proof fn an_edit_reaches_the_active_field(form: FormScreenView, input: InputFieldView, j: int)
    requires
        form.wf(),
        0 <= j < form.fields.len(),
    ensures
        ({
            let edited = form.with_input(input);
            &&& edited.title == form.title && edited.active == form.active
            &&& edited.fields.len() == form.fields.len()
            &&& j == form.active ==> edited.fields[j] == (FormFieldView {
                label: form.fields[j].label,
                input,
                field_type: form.fields[j].field_type,
            })
            &&& j != form.active ==> edited.fields[j] == form.fields[j]
        }),
{
}

/// A deletion is asked for by `y`, of the selected tunnel; `n` asks for nothing,
/// and neither does any other key.
pub proof fn only_a_yes_deletes(a: AppView, key: KeyEvent, m: ManagerView, i: usize)
    ensures
        ({
            let after = confirm_step(a, key, m);
            let yes = key.code == KeyCode::Char('y') || key.code == KeyCode::Char('Y');
            let no = key.code == KeyCode::Char('n') || key.code == KeyCode::Char('N');
            let selected = a.row == Some(i) && i < m.tunnels.len();
            &&& yes && selected ==> after == (AppView {
                pending_actions: a.pending_actions.push(ActionView::DeleteTunnel(i)),
                mode: AppModeView::Normal,
                ..a
            })
            &&& yes && (a.row is None || a.row->0 >= m.tunnels.len()) ==> after == (AppView {
                mode: AppModeView::Normal,
                ..a
            })
            &&& no ==> after == (AppView { mode: AppModeView::Normal, ..a })
            &&& !yes && !no ==> after == a
        }),
{
}

/// The keys of the list of hosts go through it; Enter takes the selected host over
/// into a form, with its name, address, port, user and key.
pub proof fn a_host_is_taken_over(a: AppView, picker: PickerScreenView, key: KeyEvent)
    requires
        picker.wf(),
    ensures
        ({
            let (after, moved) = picker_step(a, picker, key);
            &&& key.code == KeyCode::Char('j') || key.code == KeyCode::Down ==> (after, moved) == (
                a,
                picker.moved(true),
            )
            &&& key.code == KeyCode::Char('k') || key.code == KeyCode::Up ==> (after, moved) == (
                a,
                picker.moved(false),
            )
            &&& key.code == KeyCode::Enter ==> moved == picker
            &&& key.code == KeyCode::Enter && picker.items.len() == 0 ==> after == a
            &&& key.code == KeyCode::Enter && picker.items.len() > 0 ==> {
                let host = picker.items[picker.selected].1;
                after == (AppView {
                    mode: AppModeView::Form(
                        form_of(
                            "Edit Tunnel"@,
                            TunnelConfigView {
                                name: host.name,
                                tunnel_type: "local"@,
                                local_port: 0,
                                ssh_host: match host.hostname {
                                    Some(hostname) => hostname,
                                    None => Seq::empty(),
                                },
                                ssh_port: host.port,
                                ssh_user: match host.user {
                                    Some(user) => user,
                                    None => Seq::empty(),
                                },
                                ssh_key: match host.identity_file {
                                    Some(key) => key,
                                    None => Seq::empty(),
                                },
                                remote_host: "localhost"@,
                                remote_port: 0,
                                enabled: true,
                            },
                        ),
                    ),
                    ..a
                })
            }
            &&& key.code == KeyCode::Esc || key.code == KeyCode::Other ==> (after, moved) == (
                a,
                picker,
            )
        }),
{
}

/// What is open takes the keys: the form, the question or the list of hosts, and
/// the list of tunnels when nothing is open over it. It does with them what it
/// does by itself, and stays open.
pub proof fn what_is_open_takes_the_keys(
    a: AppView,
    key: KeyEvent,
    m: ManagerView,
    ssh_config: Seq<char>,
    now: u64,
)
    requires
        key.code != KeyCode::Esc,
    ensures
        ({
            let after = key_step(a, key, m, ssh_config, now);
            let list = AppView { mode: AppModeView::Normal, ..a };
            &&& a.mode matches AppModeView::Form(form) ==> {
                let (done, edited) = form_step(list, form, key, now);
                after == (AppView { mode: AppModeView::Form(edited), ..done })
            }
            &&& a.mode matches AppModeView::Picker(picker) ==> after == (AppView {
                mode: AppModeView::Picker(picker_step(list, picker, key).1),
                ..a
            })
            &&& a.mode is Confirm ==> after == (AppView {
                mode: a.mode,
                ..confirm_step(list, key, m)
            })
            &&& a.mode is Normal ==> after == (AppView {
                mode: AppModeView::Normal,
                ..normal_step(a, key, m, ssh_config, now)
            })
        }),
{
}

/// An application starts with its first row, with nothing open, nothing told and
/// nothing to be done.
pub proof fn an_application_starts_with_nothing_to_do()
    ensures
        initial_app().row == Some(0usize),
        initial_app().mode is Normal,
        initial_app().notification is None,
        initial_app().pending_actions.len() == 0,
        initial_app().editing_index is None,
{
}

/// Esc closes what is open over the list, whatever that is, and changes nothing
/// else; with nothing open it does nothing.
pub proof fn esc_changes_nothing_else(
    a: AppView,
    key: KeyEvent,
    m: ManagerView,
    ssh_config: Seq<char>,
    now: u64,
)
    requires
        key.code == KeyCode::Esc,
    ensures
        key_step(a, key, m, ssh_config, now) == (AppView { mode: AppModeView::Normal, ..a }),
{
}

/// A key is refused by a form only, and there only where it would cut a character
/// in two: in ASCII text none is.
pub proof fn ascii_text_takes_every_key(a: AppView, key: KeyEvent)
    requires
        a.wf(),
        a.mode matches AppModeView::Form(form) ==> vstd::utf8::is_ascii_chars(
            form.active_field().input.buffer,
        ),
    ensures
        app_accepts(a, key),
{
    if let AppModeView::Form(form) = a.mode {
        assert(form.fields[form.active].wf());
        crate::input::ascii_fields_take_every_key(form.active_field().input, ' ');
    }
}

/// The views of actions are those of each of them, in their order.
pub proof fn every_action_has_its_view(actions: Seq<Action>, i: int)
    ensures
        action_views(actions).len() == actions.len(),
        0 <= i < actions.len() ==> action_views(actions)[i] == actions[i]@,
{
}

} // verus!
