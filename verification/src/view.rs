//! The screen: the list of tunnels, a line above and a line below it, and what
//! is open over it.
use crate::app::{still_shown, App, AppMode, AppModeView, AppView};
use crate::manager::{summary, ManagerView, TunnelManager};
use crate::number::{decimal, to_decimal, to_two_digits, two_digits};
use crate::picker::{ConfirmScreen, ConfirmScreenView};
use crate::screen::{
    bold, bold_ink, fixed_cells, ink, is_row_of, is_settled, less, line_view, lines_view, marked,
    plain, push_line, push_span, span_of, split_rows, Color, Constraint, Popup, PopupView, Rect, Span,
    SpanView, Style,
};
use crate::text::{clip, clipped};
use crate::tunnel::{destination, pair, ssh_destination, Tunnel, TunnelStatus, TunnelView};
use vstd::prelude::*;

verus! {

/// The nanoseconds of a second.
pub const NANOS_PER_SEC: u64 = 1_000_000_000;

/// How many characters of an error are shown in the list.
pub const SHOWN_ERROR_CHARS: usize = 40;

// ── the list ────────────────────────────────────────────────────────────────
/// A table: its header, its rows, the widths of its columns, and the style of
/// the selected row.
#[derive(Debug)]
pub struct TableContent {
    pub header: Vec<Span>,
    pub rows: Vec<Vec<Span>>,
    pub widths: Vec<Constraint>,
    pub highlight: Style,
}

#[verifier::ext_equal]
pub struct TableContentView {
    pub header: Seq<SpanView>,
    pub rows: Seq<Seq<SpanView>>,
    pub widths: Seq<Constraint>,
    pub highlight: Style,
}

impl View for TableContent {
    type V = TableContentView;

    open spec fn view(&self) -> TableContentView {
        TableContentView {
            header: line_view(self.header@),
            rows: lines_view(self.rows@),
            widths: self.widths@,
            highlight: self.highlight,
        }
    }
}

/// The color of a status.
#[verifier::allow_in_spec]
pub fn status_color(status: TunnelStatus) -> Color
    returns
        (match status {
            TunnelStatus::Running => Color::Green,
            TunnelStatus::Reconnecting { .. } => Color::Yellow,
            TunnelStatus::Stopped => Color::DarkGray,
        }),
{
    match status {
        TunnelStatus::Running => Color::Green,
        TunnelStatus::Reconnecting { .. } => Color::Yellow,
        TunnelStatus::Stopped => Color::DarkGray,
    }
}

/// A number of seconds as it is shown: in hours and minutes, in minutes and
/// seconds, or in seconds, by how many there are.
pub open spec fn duration_text(secs: nat) -> Seq<char> {
    if secs >= 3600 {
        decimal(secs / 3600) + "h"@ + two_digits((secs % 3600) / 60) + "m"@
    } else if secs >= 60 {
        decimal(secs / 60) + "m"@ + two_digits(secs % 60) + "s"@
    } else {
        decimal(secs) + "s"@
    }
}

/// For how long a tunnel has been up.
pub open spec fn uptime(start: Option<u64>, now: u64) -> Seq<char> {
    match start {
        Some(start) => duration_text((less(now as int, start as int) / NANOS_PER_SEC as int) as nat),
        None => "-"@,
    }
}

/// What is shown of the remote end.
pub open spec fn shown_remote(t: TunnelView) -> Seq<char> {
    if t.config.remote_port > 0 {
        t.config.remote_host + ":"@ + decimal(t.config.remote_port as nat)
    } else {
        "-"@
    }
}

/// The row of a tunnel.
pub open spec fn table_row(t: TunnelView, now: u64) -> Seq<SpanView> {
    seq![
        span_of(t.state.status.sign(), ink(status_color(t.state.status))),
        span_of(t.config.name, plain()),
        span_of(t.config.tunnel_type, ink(Color::Cyan)),
        span_of(decimal(t.config.local_port as nat), plain()),
        span_of(shown_remote(t), plain()),
        span_of(destination(t.config), plain()),
        span_of(uptime(t.state.start_time, now), plain()),
        span_of(clipped(t.state.last_error, SHOWN_ERROR_CHARS as int), ink(Color::Red)),
    ]
}

pub open spec fn table_header() -> Seq<SpanView> {
    seq![
        span_of(""@, plain()),
        span_of(" Name "@, bold()),
        span_of(" Type "@, bold()),
        span_of(" Local "@, bold()),
        span_of(" Remote "@, bold()),
        span_of(" SSH Host "@, bold()),
        span_of(" Uptime "@, bold()),
        span_of(" Error "@, bold()),
    ]
}

pub open spec fn table_widths() -> Seq<Constraint> {
    seq![
        Constraint::Length(1),
        Constraint::Percentage(20),
        Constraint::Length(9),
        Constraint::Length(7),
        Constraint::Percentage(18),
        Constraint::Percentage(22),
        Constraint::Length(8),
        Constraint::Percentage(24),
    ]
}

/// The list of tunnels, as it is drawn.
pub open spec fn drawn_table(m: ManagerView, now: u64) -> TableContentView {
    TableContentView {
        header: table_header(),
        rows: m.tunnels.map_values(|t: TunnelView| table_row(t, now)),
        widths: table_widths(),
        highlight: marked(Color::Cyan),
    }
}

/// A number of seconds as it is shown.
pub fn show_duration(secs: u64) -> (r: String)
    ensures
        r@ == duration_text(secs as nat),
{
    if secs >= 3600 {
        to_decimal(secs / 3600).concat("h").concat(to_two_digits((secs % 3600) / 60).as_str()).concat(
            "m",
        )
    } else if secs >= 60 {
        to_decimal(secs / 60).concat("m").concat(to_two_digits(secs % 60).as_str()).concat("s")
    } else {
        to_decimal(secs).concat("s")
    }
}

fn show_uptime(start: Option<u64>, now: u64) -> (r: String)
    ensures
        r@ == uptime(start, now),
{
    match start {
        Some(start) => {
            let elapsed: u64 = if now > start {
                now - start
            } else {
                0
            };
            show_duration(elapsed / NANOS_PER_SEC)
        },
        None => "-".to_string(),
    }
}

fn render_row(t: &Tunnel, now: u64) -> (row: Vec<Span>)
    ensures
        line_view(row@) == table_row(t@, now),
{
    let (status, start, error) = t.snapshot();
    let config = &t.config;
    let remote = if config.remote_port > 0 {
        pair(config.remote_host.as_str(), ":", to_decimal(config.remote_port as u64).as_str())
    } else {
        "-".to_string()
    };
    let mut row: Vec<Span> = Vec::new();
    push_span(&mut row, status.symbol(), ink(status_color(status)));
    push_span(&mut row, config.name.as_str(), plain());
    push_span(&mut row, config.tunnel_type.as_str(), ink(Color::Cyan));
    push_span(&mut row, to_decimal(config.local_port as u64).as_str(), plain());
    push_span(&mut row, remote.as_str(), plain());
    push_span(&mut row, ssh_destination(config).as_str(), plain());
    push_span(&mut row, show_uptime(start, now).as_str(), plain());
    push_span(&mut row, clip(error.as_str(), SHOWN_ERROR_CHARS).as_str(), ink(Color::Red));
    assert(line_view(row@) == table_row(t@, now));
    row
}

fn render_table_header() -> (header: Vec<Span>)
    ensures
        line_view(header@) == table_header(),
{
    let mut header: Vec<Span> = Vec::new();
    push_span(&mut header, "", plain());
    push_span(&mut header, " Name ", bold());
    push_span(&mut header, " Type ", bold());
    push_span(&mut header, " Local ", bold());
    push_span(&mut header, " Remote ", bold());
    push_span(&mut header, " SSH Host ", bold());
    push_span(&mut header, " Uptime ", bold());
    push_span(&mut header, " Error ", bold());
    assert(line_view(header@) == table_header());
    header
}

impl App {
    /// The list of tunnels.
    pub fn render_table(manager: &TunnelManager, now: u64) -> (table: TableContent)
        ensures
            table@ == drawn_table(manager@, now),
    {
        let mut rows: Vec<Vec<Span>> = Vec::new();
        let ghost all = drawn_table(manager@, now).rows;
        for i in 0..manager.tunnels.len()
            invariant
                all == drawn_table(manager@, now).rows,
                lines_view(rows@) == all.take(i as int),
        {
            push_line(&mut rows, render_row(&manager.tunnels[i], now));
            assert(all[i as int] == table_row(manager.tunnels@[i as int]@, now));
            assert(all.take(i + 1) == all.take(i as int).push(all[i as int]));
        }
        assert(all.take(all.len() as int) == all);
        let widths: Vec<Constraint> = vec![
            Constraint::Length(1),
            Constraint::Percentage(20),
            Constraint::Length(9),
            Constraint::Length(7),
            Constraint::Percentage(18),
            Constraint::Percentage(22),
            Constraint::Length(8),
            Constraint::Percentage(24),
        ];
        assert(widths@ == table_widths());
        TableContent { header: render_table_header(), rows, widths, highlight: marked(Color::Cyan) }
    }
}

// ── the lines above and below ───────────────────────────────────────────────
pub open spec fn drawn_header() -> Seq<SpanView> {
    seq![
        span_of(" STM15 "@, bold_ink(Color::Cyan)),
        span_of("─ SSH Tunnel Manager "@, ink(Color::DarkGray)),
    ]
}

/// The line below the list: how many tunnels are active, and the notification.
pub open spec fn drawn_status(m: ManagerView, notification: Option<(Seq<char>, u64)>) -> Seq<
    SpanView,
> {
    let active = span_of(" "@ + summary(m) + " "@, ink(Color::DarkGray));
    match notification {
        Some((message, _)) => seq![active, span_of(" | "@ + message + " "@, ink(Color::Yellow))],
        None => seq![active],
    }
}

impl App {
    /// The line above the list.
    pub fn render_header() -> (line: Vec<Span>)
        ensures
            line_view(line@) == drawn_header(),
    {
        let mut line: Vec<Span> = Vec::new();
        push_span(&mut line, " STM15 ", bold_ink(Color::Cyan));
        push_span(&mut line, "─ SSH Tunnel Manager ", ink(Color::DarkGray));
        assert(line_view(line@) == drawn_header());
        line
    }
}

// ── the screen ──────────────────────────────────────────────────────────────
/// Everything that is drawn, and where.
#[derive(Debug)]
pub struct Screen {
    pub header_area: Rect,
    pub header: Vec<Span>,
    pub table_area: Rect,
    pub table: TableContent,
    pub status_area: Rect,
    pub status: Vec<Span>,
    pub popup: Option<Popup>,
}

/// How the line above the list, the list and the line below it share an area. The
/// list has the room between the two lines. Where there is no room for three
/// lines of the list beside them, it goes before them: of four lines one of the
/// two gets the one that is left, which of them is open, and of fewer neither
/// gets any.
pub open spec fn shares(area: Rect, header: Rect, table: Rect, status: Rect) -> bool {
    let lines = |from: int, n: int| Rect { y: (area.y + from) as u16, height: n as u16, ..area };
    let h = area.height as int;
    if h >= 5 {
        header == lines(0, 1) && table == lines(1, h - 2) && status == lines(h - 1, 1)
    } else if h == 4 {
        ||| header == lines(0, 1) && table == lines(1, 3) && status == lines(4, 0)
        ||| header == lines(0, 0) && table == lines(0, 3) && status == lines(3, 1)
    } else {
        header == lines(0, 0) && table == lines(0, h) && status == lines(h, 0)
    }
}

proof fn lemma_screen_constraints(area: Rect, constraints: Seq<Constraint>)
    requires
        constraints == seq![Constraint::Length(1), Constraint::Min(3), Constraint::Length(1)],
    ensures
        area.y + area.height <= u16::MAX ==> is_settled(area, constraints),
        fixed_cells(constraints) == 2,
{
    reveal_with_fuel(fixed_cells, 4);
    assert(constraints[1] is Min);
    assert(constraints.drop_last().drop_last().drop_last() == Seq::<Constraint>::empty());
}

impl AppView {
    /// Whether what is open over the list can be drawn.
    pub open spec fn can_render(self, area: Rect) -> bool {
        match self.mode {
            AppModeView::Form(form) => form.can_render(area),
            AppModeView::Confirm(_) => ConfirmScreenView::can_render(area),
            AppModeView::Picker(picker) => picker.can_render(area),
            AppModeView::Normal => true,
        }
    }

    /// What is open over the list, as it is drawn.
    pub open spec fn drawn_popup(self, area: Rect) -> Option<PopupView> {
        match self.mode {
            AppModeView::Form(form) => Some(form.drawn(area)),
            AppModeView::Confirm(confirm) => Some(confirm.drawn(area)),
            AppModeView::Picker(picker) => Some(picker.drawn(area)),
            AppModeView::Normal => None,
        }
    }
}

impl App {
    /// Whether what is open over the list can be drawn.
    pub fn accepts_area(&self, area: Rect) -> (r: bool)
        requires
            self@.wf(),
        ensures
            r == self@.can_render(area),
    {
        match &self.mode {
            AppMode::Form(form) => form.accepts_area(area),
            AppMode::Confirm(_) => ConfirmScreen::accepts_area(area),
            AppMode::Picker(picker) => picker.accepts_area(area),
            AppMode::Normal => true,
        }
    }

    /// The line below the list.
    pub fn render_status(&self, manager: &TunnelManager) -> (line: Vec<Span>)
        ensures
            line_view(line@) == drawn_status(manager@, self@.notification),
    {
        let text = " ".to_string().concat(manager.status_summary().as_str()).concat(" ");
        let mut line: Vec<Span> = Vec::new();
        push_span(&mut line, text.as_str(), ink(Color::DarkGray));
        if let Some((message, _)) = &self.notification {
            let text = " | ".to_string().concat(message.as_str()).concat(" ");
            push_span(&mut line, text.as_str(), ink(Color::Yellow));
        }
        assert(line_view(line@) == drawn_status(manager@, self@.notification));
        line
    }

    /// The screen. A notification that has been shown for long enough is taken
    /// back first. The list and the lines around it share the area.
    pub fn render(&mut self, manager: &TunnelManager, area: Rect, now: u64) -> (screen: Screen)
        requires
            old(self)@.wf(),
            old(self)@.can_render(area),
        ensures
            final(self)@ == (AppView {
                notification: still_shown(old(self)@.notification, now),
                ..old(self)@
            }),
            line_view(screen.header@) == drawn_header(),
            screen.table@ == drawn_table(manager@, now),
            line_view(screen.status@) == drawn_status(manager@, final(self)@.notification),
            match screen.popup {
                Some(popup) => old(self)@.drawn_popup(area) == Some(popup@),
                None => old(self)@.drawn_popup(area) is None,
            },
            is_row_of(screen.header_area, area),
            is_row_of(screen.table_area, area),
            is_row_of(screen.status_area, area),
            area.y + area.height <= u16::MAX ==> shares(
                area,
                screen.header_area,
                screen.table_area,
                screen.status_area,
            ),
    {
        self.clear_notification(now);
        let constraints: Vec<Constraint> = vec![
            Constraint::Length(1),
            Constraint::Min(3),
            Constraint::Length(1),
        ];
        let rows = split_rows(area, &constraints);
        proof {
            lemma_screen_constraints(area, constraints@);
            if area.y + area.height <= u16::MAX {
                assert(rows@[1].y == rows@[0].y + rows@[0].height);
                assert(rows@[2].y == rows@[1].y + rows@[1].height);
                assert(rows@[0].height <= 1 && rows@[2].height <= 1);
                assert(shares(area, rows@[0], rows@[1], rows@[2]));
            }
        }
        let popup = match &self.mode {
            AppMode::Form(form) => Some(form.render(area)),
            AppMode::Confirm(confirm) => Some(confirm.render(area)),
            AppMode::Picker(picker) => Some(picker.render(area)),
            AppMode::Normal => None,
        };
        Screen {
            header_area: rows[0],
            header: App::render_header(),
            table_area: rows[1],
            table: App::render_table(manager, now),
            status_area: rows[2],
            status: self.render_status(manager),
            popup,
        }
    }
}

// ── what holds of every screen ──────────────────────────────────────────────
/// A duration is told in whole hours and minutes, in minutes and seconds, or in
/// seconds: never more than it is, and less than one of the smaller unit off.
pub proof fn durations_are_told_in_two_units(secs: nat, whole: nat, part: nat)
    requires
        part < 60,
    ensures
        whole > 0 && whole * 3600 + part * 60 <= secs < whole * 3600 + (part + 1) * 60
            ==> duration_text(secs) == decimal(whole) + "h"@ + two_digits(part) + "m"@,
        0 < whole < 60 && secs == whole * 60 + part ==> duration_text(secs) == decimal(whole)
            + "m"@ + two_digits(part) + "s"@,
        secs < 60 ==> duration_text(secs) == decimal(secs) + "s"@,
{
    if whole > 0 && whole * 3600 + part * 60 <= secs < whole * 3600 + (part + 1) * 60 {
        assert(secs / 3600 == whole);
        assert(secs % 3600 == secs - whole * 3600);
        assert((secs % 3600) / 60 == part);
    }
    if 0 < whole < 60 && secs == whole * 60 + part {
        assert(secs / 60 == whole);
        assert(secs % 60 == part);
    }
}

/// A tunnel is up for the whole seconds since its start; one that was not started
/// is not up.
pub proof fn uptime_is_the_time_since_the_start(start: u64, now: u64, secs: nat)
    ensures
        uptime(None, now) == "-"@,
        now >= start && secs * 1_000_000_000 <= now - start < (secs + 1) * 1_000_000_000
            ==> uptime(Some(start), now) == duration_text(secs),
        now < start ==> uptime(Some(start), now) == duration_text(0),
{
    if now >= start && secs * 1_000_000_000 <= now - start < (secs + 1) * 1_000_000_000 {
        assert((now - start) / 1_000_000_000 == secs);
    }
}

/// The row of a tunnel shows its status, name, type, local port, remote end,
/// server, uptime and error, each in its column.
pub proof fn a_row_shows_its_tunnel(t: TunnelView, now: u64)
    ensures
        ({
            let row = table_row(t, now);
            &&& row.len() == 8
            &&& t.state.status is Running ==> row[0] == span_of("●"@, ink(Color::Green))
            &&& t.state.status is Reconnecting ==> row[0] == span_of("↻"@, ink(Color::Yellow))
            &&& t.state.status is Stopped ==> row[0] == span_of("◆"@, ink(Color::DarkGray))
            &&& row[1] == span_of(t.config.name, plain())
            &&& row[2] == span_of(t.config.tunnel_type, ink(Color::Cyan))
            &&& row[3] == span_of(decimal(t.config.local_port as nat), plain())
            &&& row[4].style == plain()
            &&& t.config.remote_port > 0 ==> row[4].text == t.config.remote_host + ":"@ + decimal(
                t.config.remote_port as nat,
            )
            &&& t.config.remote_port == 0 ==> row[4].text == "-"@
            &&& row[5].style == plain()
            &&& t.config.ssh_user.len() == 0 ==> row[5].text == t.config.ssh_host
            &&& t.config.ssh_user.len() > 0 ==> row[5].text == t.config.ssh_user + "@"@
                + t.config.ssh_host
            &&& row[6] == span_of(uptime(t.state.start_time, now), plain())
            &&& row[7].style == ink(Color::Red)
            &&& row[7].text.is_prefix_of(t.state.last_error)
            &&& t.state.last_error.len() <= 40 ==> row[7].text == t.state.last_error
            &&& t.state.last_error.len() > 40 ==> row[7].text.len() == 40
        }),
{
}

/// The list has a row for each tunnel, in their order, under the names of the
/// columns.
pub proof fn every_tunnel_has_its_row(m: ManagerView, now: u64, i: int)
    ensures
        drawn_table(m, now).rows.len() == m.tunnels.len(),
        0 <= i < m.tunnels.len() ==> drawn_table(m, now).rows[i] == table_row(m.tunnels[i], now),
        drawn_table(m, now).header == seq![
            span_of(""@, plain()),
            span_of(" Name "@, bold()),
            span_of(" Type "@, bold()),
            span_of(" Local "@, bold()),
            span_of(" Remote "@, bold()),
            span_of(" SSH Host "@, bold()),
            span_of(" Uptime "@, bold()),
            span_of(" Error "@, bold()),
        ],
        drawn_table(m, now).widths == seq![
            Constraint::Length(1),
            Constraint::Percentage(20),
            Constraint::Length(9),
            Constraint::Length(7),
            Constraint::Percentage(18),
            Constraint::Percentage(22),
            Constraint::Length(8),
            Constraint::Percentage(24),
        ],
        drawn_table(m, now).highlight == marked(Color::Cyan),
{
}

/// The line below the list tells how many tunnels are active, and the notification
/// if there is one.
pub proof fn the_status_tells_the_notification(m: ManagerView, message: Seq<char>, since: u64)
    ensures
        drawn_status(m, None) == seq![span_of(" "@ + summary(m) + " "@, ink(Color::DarkGray))],
        drawn_status(m, Some((message, since))) == drawn_status(m, None).push(
            span_of(" | "@ + message + " "@, ink(Color::Yellow)),
        ),
{
}

/// Whatever is open is drawn, and nothing else is.
pub proof fn what_is_open_is_drawn(a: AppView, area: Rect)
    ensures
        a.drawn_popup(area) is None <==> a.mode is Normal,
        a.mode matches AppModeView::Form(form) ==> a.drawn_popup(area) == Some(form.drawn(area)),
        a.mode matches AppModeView::Confirm(confirm) ==> a.drawn_popup(area) == Some(
            confirm.drawn(area),
        ),
        a.mode matches AppModeView::Picker(picker) ==> a.drawn_popup(area) == Some(
            picker.drawn(area),
        ),
{
}

/// The list and the lines around it stand one below the other and fill the area.
/// The list has all but two lines of it, but three of them first, as far as there
/// are three.
pub proof fn the_list_goes_first(area: Rect, header: Rect, table: Rect, status: Rect)
    requires
        area.y + area.height <= u16::MAX,
        shares(area, header, table, status),
    ensures
        header.y == area.y,
        table.y == header.y + header.height,
        status.y == table.y + table.height,
        status.y + status.height == area.y + area.height,
        header.height <= 1 && status.height <= 1,
        area.height >= 5 ==> header.height == 1 && status.height == 1,
        area.height >= 3 ==> table.height >= 3,
        area.height <= 3 ==> table.height == area.height,
{
}

/// The line above the list names the program.
pub proof fn the_header_names_the_program()
    ensures
        drawn_header() == seq![
            span_of(
                " STM15 "@,
                Style { fg: Some(Color::Cyan), bg: None, bold: true, reversed: false },
            ),
            span_of(
                "─ SSH Tunnel Manager "@,
                Style { fg: Some(Color::DarkGray), bg: None, bold: false, reversed: false },
            ),
        ],
{
}

} // verus!
