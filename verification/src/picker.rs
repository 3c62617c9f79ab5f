//! The list from which a host of the SSH client configuration is chosen, and the
//! question that is asked before a tunnel is deleted.
use crate::form::{center_fits, turn, turned};
use crate::number::{decimal, to_decimal};
use crate::screen::{
    bold_ink, bordered_inner, centered, centered_rect, has_center, ink, inside, less, line_view,
    lines_view, marked, min_of, minus, only, only_line, plain, push_line, push_span,
    rect_at, single, smaller, span_of, Color, Content, ContentView, Part, PartView, Popup,
    PopupView, Rect, Span, SpanView, Style,
};
use crate::ssh_config::{host_views, hosts_of, parse_ssh_config, SshHost, SshHostView};
use vstd::prelude::*;

verus! {

// ── picker ──────────────────────────────────────────────────────────────────
/// Hosts with their descriptions, and the one that is selected.
#[derive(Debug)]
pub struct PickerScreen {
    pub items: Vec<(String, SshHost)>,
    pub selected: usize,
}

#[verifier::ext_equal]
pub struct PickerScreenView {
    pub items: Seq<(Seq<char>, SshHostView)>,
    pub selected: int,
}

impl View for PickerScreen {
    type V = PickerScreenView;

    open spec fn view(&self) -> PickerScreenView {
        PickerScreenView { items: item_views(self.items@), selected: self.selected as int }
    }
}

pub open spec fn item_views(items: Seq<(String, SshHost)>) -> Seq<(Seq<char>, SshHostView)> {
    items.map_values(|i: (String, SshHost)| (i.0@, i.1@))
}

/// How a host is described: its name, and where and as whom it is reached.
pub open spec fn description(host: SshHostView) -> Seq<char> {
    match host.hostname {
        Some(hostname) => {
            let address = hostname + ":"@ + decimal(host.port as nat);
            match host.user {
                Some(user) => host.name + "  →  "@ + user + "@"@ + address,
                None => host.name + "  →  "@ + address,
            }
        },
        None => host.name,
    }
}

pub open spec fn described(hosts: Seq<SshHostView>) -> Seq<(Seq<char>, SshHostView)> {
    hosts.map_values(|h: SshHostView| (description(h), h))
}

/// The picker for the hosts of a configuration.
pub open spec fn picker_of(text: Seq<char>) -> PickerScreenView {
    PickerScreenView { items: described(hosts_of(text)), selected: 0 }
}

impl PickerScreenView {
    /// The selection is one of the items, if there are any.
    pub open spec fn wf(self) -> bool {
        self.items.len() > 0 ==> 0 <= self.selected < self.items.len()
    }

    /// The host that is selected.
    pub open spec fn selection(self) -> Option<SshHostView> {
        if 0 <= self.selected < self.items.len() {
            Some(self.items[self.selected].1)
        } else {
            None
        }
    }

    /// The picker once the selection has moved to the next item, or to the one
    /// before.
    pub open spec fn moved(self, forward: bool) -> PickerScreenView {
        if self.items.len() > 0 {
            PickerScreenView {
                selected: turned(self.selected, self.items.len() as int, forward),
                ..self
            }
        } else {
            self
        }
    }
}

/// How a host is described.
pub fn describe(host: &SshHost) -> (r: String)
    ensures
        r@ == description(host@),
{
    match &host.hostname {
        Some(hostname) => {
            let port = to_decimal(host.port as u64);
            let address = hostname.clone().concat(":").concat(port.as_str());
            let name = host.name.clone().concat("  →  ");
            match &host.user {
                Some(user) => name.concat(user.as_str()).concat("@").concat(address.as_str()),
                None => name.concat(address.as_str()),
            }
        },
        None => host.name.clone(),
    }
}

impl PickerScreen {
    /// The picker for the hosts of an SSH client configuration, given its text.
    pub fn from_ssh_config(content: &str) -> (picker: Self)
        ensures
            picker@ == picker_of(content@),
            picker@.wf(),
    {
        let hosts = parse_ssh_config(content);
        let mut items: Vec<(String, SshHost)> = Vec::new();
        let ghost all = described(host_views(hosts@));
        for i in 0..hosts.len()
            invariant
                all == described(host_views(hosts@)),
                item_views(items@) == all.take(i as int),
        {
            let ghost before = items@;
            items.push((describe(&hosts[i]), hosts[i].clone()));
            assert(all[i as int] == (description(hosts@[i as int]@), hosts@[i as int]@));
            assert(item_views(items@) == item_views(before).push(all[i as int]));
            assert(all.take(i + 1) == all.take(i as int).push(all[i as int]));
        }
        assert(all.take(all.len() as int) == all);
        PickerScreen { items, selected: 0 }
    }

    /// The host that is selected, if there is one.
    pub fn selected_host(&self) -> (host: Option<&SshHost>)
        ensures
            match host {
                Some(host) => self@.selection() == Some(host@),
                None => self@.selection() is None,
            },
    {
        if self.selected < self.items.len() {
            assert(self@.items[self.selected as int].1 == self.items@[self.selected as int].1@);
            Some(&self.items[self.selected].1)
        } else {
            None
        }
    }

    pub fn up(&mut self)
        requires
            old(self)@.wf(),
        ensures
            final(self)@ == old(self)@.moved(false),
            final(self)@.wf(),
    {
        if self.items.len() > 0 {
            self.selected = turn(self.selected, self.items.len(), false);
        }
    }

    pub fn down(&mut self)
        requires
            old(self)@.wf(),
        ensures
            final(self)@ == old(self)@.moved(true),
            final(self)@.wf(),
    {
        if self.items.len() > 0 {
            self.selected = turn(self.selected, self.items.len(), true);
        }
    }
}

// ── drawing the picker ──────────────────────────────────────────────────────
/// The style of an item, by whether it is selected.
#[verifier::allow_in_spec]
pub fn item_style(selected: bool) -> Style
    returns
        (if selected {
            marked(Color::Cyan)
        } else {
            ink(Color::White)
        }),
{
    if selected {
        marked(Color::Cyan)
    } else {
        ink(Color::White)
    }
}

impl PickerScreenView {
    /// The number of items, as a number of cells.
    pub open spec fn item_cells(self) -> u16 {
        #[verifier::truncate]
        (self.items.len() as u16)
    }

    pub open spec fn window_height(self, area: Rect) -> int {
        smaller(self.item_cells() as int, less(area.height as int, 4)) + 4
    }

    pub open spec fn window_width(area: Rect) -> int {
        smaller(60, area.width as int)
    }

    pub open spec fn window(self, area: Rect) -> Rect {
        centered(area, Self::window_width(area), self.window_height(area))
    }

    /// Whether the picker can be drawn in an area.
    pub open spec fn can_render(self, area: Rect) -> bool {
        &&& has_center(area, Self::window_width(area), self.window_height(area))
        &&& self.window(area).x + 1 <= u16::MAX
        &&& self.window(area).y + self.window(area).height > 0
    }

    /// The items as they are drawn.
    pub open spec fn drawn_items(self) -> Seq<Seq<SpanView>> {
        if self.items.len() == 0 {
            seq![seq![span_of(" No hosts found in ~/.ssh/config "@, ink(Color::DarkGray))]]
        } else {
            Seq::new(
                self.items.len(),
                |i: int|
                    seq![
                        span_of(
                            " "@ + self.items[i].0 + " "@,
                            item_style(i == self.selected),
                        ),
                    ],
            )
        }
    }

    /// The picker as it is drawn.
    pub open spec fn drawn(self, area: Rect) -> PopupView {
        let window = self.window(area);
        PopupView {
            area: window,
            title: Some(" Import from SSH config "@),
            border: ink(Color::Cyan),
            under: seq![
                PartView {
                    area: inside(window),
                    content: ContentView::Lines(self.drawn_items()),
                    centered: false,
                    style: plain(),
                },
            ],
            over: seq![
                PartView {
                    area: rect_at(
                        window.x + 1,
                        window.y + window.height - 1,
                        less(window.width as int, 2),
                        1,
                    ),
                    content: ContentView::Lines(
                        seq![
                            seq![
                                span_of(
                                    " j/k: navigate  |  Enter: select  |  Esc: cancel "@,
                                    ink(Color::DarkGray),
                                ),
                            ],
                        ],
                    ),
                    centered: true,
                    style: plain(),
                },
            ],
        }
    }
}

impl PickerScreen {
    fn height_in(&self, area: Rect) -> (h: u16)
        ensures
            h == self@.window_height(area),
    {
        let count: u16 = #[verifier::truncate]
        (self.items.len() as u16);
        min_of(count, minus(area.height, 4)) + 4
    }

    /// Whether the picker can be drawn in an area.
    pub fn accepts_area(&self, area: Rect) -> (r: bool)
        ensures
            r == self@.can_render(area),
    {
        let h = self.height_in(area);
        let width = min_of(60, area.width);
        if !center_fits(area, width, h) {
            return false;
        }
        let window = centered_rect(area, width, h);
        window.x < u16::MAX && (window.y > 0 || window.height > 0)
    }

    /// The picker, drawn in an area.
    pub fn render(&self, area: Rect) -> (popup: Popup)
        requires
            self@.can_render(area),
        ensures
            popup@ == self@.drawn(area),
    {
        let h = self.height_in(area);
        let window = centered_rect(area, min_of(60, area.width), h);
        let inner = bordered_inner(window);
        let mut lines: Vec<Vec<Span>> = Vec::new();
        if self.items.len() == 0 {
            push_line(
                &mut lines,
                single(" No hosts found in ~/.ssh/config ", ink(Color::DarkGray)),
            );
        } else {
            let ghost all = self@.drawn_items();
            for i in 0..self.items.len()
                invariant
                    self@.items.len() > 0,
                    all == self@.drawn_items(),
                    lines_view(lines@) == all.take(i as int),
            {
                let text = " ".to_string().concat(self.items[i].0.as_str()).concat(" ");
                assert(self@.items[i as int].0 == self.items@[i as int].0@);
                push_line(&mut lines, single(text.as_str(), item_style(i == self.selected)));
                assert(all.take(i + 1) == all.take(i as int).push(all[i as int]));
            }
            assert(all.take(all.len() as int) == all);
        }
        assert(lines_view(lines@) == self@.drawn_items());
        let help = single(
            " j/k: navigate  |  Enter: select  |  Esc: cancel ",
            ink(Color::DarkGray),
        );
        let help_area = Rect::new(
            window.x + 1,
            window.y + window.height - 1,
            minus(window.width, 2),
            1,
        );
        let popup = Popup {
            area: window,
            title: Some(" Import from SSH config ".to_string()),
            border: ink(Color::Cyan),
            under: only(
                Part {
                    area: inner,
                    content: Content::Lines(lines),
                    centered: false,
                    style: plain(),
                },
            ),
            over: only(
                Part {
                    area: help_area,
                    content: Content::Lines(only_line(help)),
                    centered: true,
                    style: plain(),
                },
            ),
        };
        assert(popup@ == self@.drawn(area));
        popup
    }
}

// ── confirmation ────────────────────────────────────────────────────────────
/// A question that is answered with yes or no.
#[derive(Debug)]
pub struct ConfirmScreen {
    pub message: String,
}

#[verifier::ext_equal]
pub struct ConfirmScreenView {
    pub message: Seq<char>,
}

impl View for ConfirmScreen {
    type V = ConfirmScreenView;

    open spec fn view(&self) -> ConfirmScreenView {
        ConfirmScreenView { message: self.message@ }
    }
}

impl ConfirmScreenView {
    pub open spec fn window(area: Rect) -> Rect {
        centered(area, 42, 6)
    }

    /// Whether the question can be drawn in an area.
    pub open spec fn can_render(area: Rect) -> bool {
        has_center(area, 42, 6) && inside(Self::window(area)).y + 2 <= u16::MAX
    }

    /// The question as it is drawn.
    pub open spec fn drawn(self, area: Rect) -> PopupView {
        let window = Self::window(area);
        let inner = inside(window);
        PopupView {
            area: window,
            title: None,
            border: ink(Color::Yellow),
            under: seq![
                PartView {
                    area: rect_at(inner.x as int, inner.y as int, inner.width as int, 2),
                    content: ContentView::Text(self.message),
                    centered: true,
                    style: ink(Color::White),
                },
                PartView {
                    area: rect_at(inner.x as int, inner.y + 2, inner.width as int, 1),
                    content: ContentView::Lines(
                        seq![
                            seq![
                                span_of(" [Y]es "@, bold_ink(Color::Red)),
                                span_of("  "@, plain()),
                                span_of(" [N]o "@, bold_ink(Color::Green)),
                            ],
                        ],
                    ),
                    centered: true,
                    style: plain(),
                },
            ],
            over: Seq::empty(),
        }
    }
}

impl ConfirmScreen {
    /// A question.
    pub fn new(message: &str) -> (r: Self)
        ensures
            r@.message == message@,
    {
        ConfirmScreen { message: message.to_string() }
    }

    /// Whether the question can be drawn in an area.
    pub fn accepts_area(area: Rect) -> (r: bool)
        ensures
            r == ConfirmScreenView::can_render(area),
    {
        if !center_fits(area, 42, 6) {
            return false;
        }
        bordered_inner(centered_rect(area, 42, 6)).y <= u16::MAX - 2
    }

    /// The question, drawn in an area.
    pub fn render(&self, area: Rect) -> (popup: Popup)
        requires
            ConfirmScreenView::can_render(area),
        ensures
            popup@ == self@.drawn(area),
    {
        let window = centered_rect(area, 42, 6);
        let inner = bordered_inner(window);
        let mut answers: Vec<Span> = Vec::new();
        push_span(&mut answers, " [Y]es ", bold_ink(Color::Red));
        push_span(&mut answers, "  ", plain());
        push_span(&mut answers, " [N]o ", bold_ink(Color::Green));
        let ghost drawn_answers = line_view(answers@);
        let mut under: Vec<Part> = Vec::new();
        under.push(
            Part {
                area: Rect::new(inner.x, inner.y, inner.width, 2),
                content: Content::Text(self.message.clone()),
                centered: true,
                style: ink(Color::White),
            },
        );
        under.push(
            Part {
                area: Rect::new(inner.x, inner.y + 2, inner.width, 1),
                content: Content::Lines(only_line(answers)),
                centered: true,
                style: plain(),
            },
        );
        let popup = Popup {
            area: window,
            title: None,
            border: ink(Color::Yellow),
            under,
            over: Vec::new(),
        };
        proof {
            let expected = self@.drawn(area);
            assert(drawn_answers == seq![
                span_of(" [Y]es "@, bold_ink(Color::Red)),
                span_of("  "@, plain()),
                span_of(" [N]o "@, bold_ink(Color::Green)),
            ]);
            assert(popup@.under == expected.under);
            assert(popup@.over == expected.over);
        }
        popup
    }
}

// ── what holds of every picker ──────────────────────────────────────────────
/// Moving the selection down and up again, or up and down, changes nothing.
pub proof fn moving_back_undoes_moving(picker: PickerScreenView, forward: bool)
    requires
        picker.wf(),
    ensures
        picker.moved(forward).moved(!forward) == picker,
{
    if picker.items.len() > 0 {
        crate::form::turning_back_undoes_turning(
            picker.selected,
            picker.items.len() as int,
            forward,
        );
    }
}

/// A picker with hosts has one selected.
pub proof fn a_host_is_selected(picker: PickerScreenView)
    requires
        picker.wf(),
        picker.items.len() > 0,
    ensures
        picker.selection() is Some,
{
}

/// A host is described by its name, and by where and as whom it is reached.
pub proof fn a_host_is_described(host: SshHostView)
    ensures
        host.hostname is None ==> description(host) == host.name,
        host.hostname is Some && host.user is None ==> description(host) == host.name + "  →  "@
            + host.hostname->0 + ":"@ + decimal(host.port as nat),
        host.hostname is Some && host.user is Some ==> description(host) == host.name + "  →  "@
            + host.user->0 + "@"@ + host.hostname->0 + ":"@ + decimal(host.port as nat),
{
    if let Some(hostname) = host.hostname {
        let port = decimal(host.port as nat);
        match host.user {
            Some(user) => {
                assert(host.name + "  →  "@ + user + "@"@ + (hostname + ":"@ + port) == host.name
                    + "  →  "@ + user + "@"@ + hostname + ":"@ + port);
            },
            None => {
                assert(host.name + "  →  "@ + (hostname + ":"@ + port) == host.name + "  →  "@
                    + hostname + ":"@ + port);
            },
        }
    }
}

/// The picker offers every host of the configuration, in their order, under its
/// description, and begins with the first.
pub proof fn every_host_is_offered(text: Seq<char>, i: int)
    ensures
        picker_of(text).items.len() == hosts_of(text).len(),
        0 <= i < hosts_of(text).len() ==> picker_of(text).items[i] == (
            description(hosts_of(text)[i]),
            hosts_of(text)[i],
        ),
        picker_of(text).selected == 0,
        hosts_of(text).len() > 0 ==> picker_of(text).selection() == Some(hosts_of(text)[0]),
        hosts_of(text).len() == 0 ==> picker_of(text).selection() is None,
{
}

/// The hosts are gone through in a ring, and the items stay as they are.
pub proof fn hosts_are_gone_through_in_a_ring(picker: PickerScreenView)
    requires
        picker.wf(),
    ensures
        ({
            let n = picker.items.len() as int;
            &&& n > 0 ==> picker.moved(true).selected == (picker.selected + 1) % n
                && picker.moved(false).selected == (picker.selected + n - 1) % n
            &&& n == 0 ==> picker.moved(true) == picker && picker.moved(false) == picker
        }),
        picker.moved(true).items == picker.items,
        picker.moved(false).items == picker.items,
        picker.items.len() > 0 ==> picker.selection() == Some(
            picker.items[picker.selected].1,
        ),
{
    if picker.items.len() > 0 {
        crate::form::turning_back_undoes_turning(
            picker.selected,
            picker.items.len() as int,
            true,
        );
    }
}

/// Every item is drawn by its description, and the selected one is marked; without
/// items it is said so.
pub proof fn every_item_is_drawn(picker: PickerScreenView, i: int)
    ensures
        picker.items.len() == 0 ==> picker.drawn_items() == seq![
            seq![span_of(" No hosts found in ~/.ssh/config "@, ink(Color::DarkGray))],
        ],
        picker.items.len() > 0 ==> picker.drawn_items().len() == picker.items.len(),
        0 <= i < picker.items.len() ==> picker.drawn_items()[i] == seq![
            span_of(
                " "@ + picker.items[i].0 + " "@,
                if i == picker.selected {
                    marked(Color::Cyan)
                } else {
                    ink(Color::White)
                },
            ),
        ],
{
}

/// The picker is drawn in the middle of the area, with a line for each item and
/// four around them, as far as there is room: a border with the title around the
/// items, and the help over its last line.
pub proof fn a_picker_is_drawn_in_the_middle(picker: PickerScreenView, area: Rect)
    requires
        area.x + area.width <= u16::MAX,
        area.y + area.height <= u16::MAX,
        picker.items.len() <= u16::MAX,
    ensures
        ({
            let popup = picker.drawn(area);
            let n = picker.items.len() as int;
            let height: int = if n + 4 < area.height { n + 4 } else { area.height as int };
            let width: int = if area.width < 60 { area.width as int } else { 60 };
            &&& popup.area.width == width
            &&& popup.area.height == height
            &&& popup.area.x == area.x + (area.width - width) / 2
            &&& popup.area.y == area.y + (area.height - height) / 2
            &&& popup.title == Some(" Import from SSH config "@)
            &&& popup.border == ink(Color::Cyan)
            &&& popup.under.len() == 1 && popup.over.len() == 1
            &&& popup.under[0].area == inside(popup.area)
            &&& popup.under[0].content == ContentView::Lines(picker.drawn_items())
            &&& !popup.under[0].centered && popup.under[0].style == plain()
            &&& popup.over[0].style == plain()
            &&& width >= 2 ==> popup.over[0].area.x == popup.area.x + 1
                && popup.over[0].area.width == width - 2
            &&& popup.area.height > 0 ==> popup.over[0].area.y == popup.area.y + popup.area.height - 1
                && popup.over[0].area.height == 1
            &&& popup.over[0].centered
            &&& popup.over[0].content == ContentView::Lines(
                seq![
                    seq![
                        span_of(
                            " j/k: navigate  |  Enter: select  |  Esc: cancel "@,
                            ink(Color::DarkGray),
                        ),
                    ],
                ],
            )
        }),
{
    assert(picker.items.len() <= u16::MAX ==> picker.item_cells() == picker.items.len());
}

/// The question is drawn in the middle of the area, with its answers below it.
pub proof fn a_question_is_drawn_in_the_middle(question: ConfirmScreenView, area: Rect)
    requires
        area.x + area.width <= u16::MAX,
        area.y + area.height <= u16::MAX,
    ensures
        ({
            let popup = question.drawn(area);
            let width: int = if area.width < 42 { area.width as int } else { 42 };
            let height: int = if area.height < 6 { area.height as int } else { 6 };
            let x = area.x + (area.width - width) / 2;
            let y = area.y + (area.height - height) / 2;
            &&& popup.area == (Rect {
                x: x as u16,
                y: y as u16,
                width: width as u16,
                height: height as u16,
            })
            &&& popup.title is None
            &&& popup.border == ink(Color::Yellow)
            &&& popup.under.len() == 2 && popup.over.len() == 0
            &&& width == 42 && height == 6 ==> popup.under[0].area == (Rect {
                x: (x + 1) as u16,
                y: (y + 1) as u16,
                width: 40,
                height: 2,
            })
            &&& popup.under[0].content == ContentView::Text(question.message)
            &&& popup.under[0].centered && popup.under[1].centered
            &&& popup.under[0].style == ink(Color::White) && popup.under[1].style == plain()
            &&& width == 42 && height == 6 ==> popup.under[1].area == (Rect {
                x: (x + 1) as u16,
                y: (y + 3) as u16,
                width: 40,
                height: 1,
            })
            &&& popup.under[1].content == ContentView::Lines(
                seq![
                    seq![
                        span_of(" [Y]es "@, bold_ink(Color::Red)),
                        span_of("  "@, plain()),
                        span_of(" [N]o "@, bold_ink(Color::Green)),
                    ],
                ],
            )
        }),
{
}

/// The picker and the question can be drawn in every area that is not empty and
/// that the coordinates have room for.
pub proof fn pickers_and_questions_can_be_drawn(picker: PickerScreenView, area: Rect)
    requires
        area.x + area.width < u16::MAX,
        area.y + area.height < u16::MAX - 3,
        area.height > 0,
    ensures
        picker.can_render(area),
        ConfirmScreenView::can_render(area),
{
}

/// The views of items are those of each of them, in their order.
pub proof fn every_item_has_its_view(items: Seq<(String, SshHost)>, i: int)
    ensures
        item_views(items).len() == items.len(),
        0 <= i < items.len() ==> item_views(items)[i] == (items[i].0@, items[i].1@),
{
}

} // verus!
