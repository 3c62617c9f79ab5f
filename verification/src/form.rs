//! The form in which a tunnel is configured.
use crate::config::{TunnelConfig, TunnelConfigView};
use crate::edit::{byte_len, length};
use crate::input::{new_input, InputField, InputFieldView};
use crate::number::{decimal, parse_port, port_in, port_is_read_back, port_or, to_decimal};
use crate::screen::{
    bordered_inner, centered, centered_rect, has_center, ink, inside, less, lines_view,
    minus, min_of, only, only_line, plain, push_line, rect_at, single, smaller, span_of, Color,
    Content, ContentView, Part, PartView, Popup, PopupView, Rect, Span, SpanView,
};
use crate::text::{same, texts};
use vstd::prelude::*;

verus! {

// ── fields ──────────────────────────────────────────────────────────────────
/// How a field is filled in.
#[derive(Debug)]
pub enum FieldType {
    /// Freely.
    Text,
    /// With one of the options, the one at `index`.
    Select { options: Vec<String>, index: usize },
}

#[verifier::ext_equal]
pub enum FieldTypeView {
    Text,
    Select { options: Seq<Seq<char>>, index: int },
}

impl View for FieldType {
    type V = FieldTypeView;

    open spec fn view(&self) -> FieldTypeView {
        match self {
            FieldType::Text => FieldTypeView::Text,
            FieldType::Select { options, index } => FieldTypeView::Select {
                options: texts(options@),
                index: *index as int,
            },
        }
    }
}

/// A field of the form.
#[derive(Debug)]
pub struct FormField {
    pub label: String,
    pub input: InputField,
    pub field_type: FieldType,
}

#[verifier::ext_equal]
pub struct FormFieldView {
    pub label: Seq<char>,
    pub input: InputFieldView,
    pub field_type: FieldTypeView,
}

impl View for FormField {
    type V = FormFieldView;

    open spec fn view(&self) -> FormFieldView {
        FormFieldView {
            label: self.label@,
            input: self.input@,
            field_type: self.field_type@,
        }
    }
}

/// The form: its fields, and the one that is being edited.
#[derive(Debug)]
pub struct FormScreen {
    pub title: String,
    pub fields: Vec<FormField>,
    pub active: usize,
}

#[verifier::ext_equal]
pub struct FormScreenView {
    pub title: Seq<char>,
    pub fields: Seq<FormFieldView>,
    pub active: int,
}

impl View for FormScreen {
    type V = FormScreenView;

    open spec fn view(&self) -> FormScreenView {
        FormScreenView {
            title: self.title@,
            fields: field_views(self.fields@),
            active: self.active as int,
        }
    }
}

pub open spec fn field_views(fields: Seq<FormField>) -> Seq<FormFieldView> {
    fields.map_values(|f: FormField| f@)
}

// ── the rules ───────────────────────────────────────────────────────────────
/// The index of the first option that equals `value`, or `default`.
pub open spec fn option_index(options: Seq<Seq<char>>, value: Seq<char>, default: int) -> int {
    match options.index_of_first(value) {
        Some(index) => index,
        None => default,
    }
}

/// A field for a text.
pub open spec fn text_field(label: Seq<char>, value: Seq<char>) -> FormFieldView {
    FormFieldView { label, input: new_input(label, value), field_type: FieldTypeView::Text }
}

/// A field for one of several options. It shows the first option where the value
/// is none of them.
pub open spec fn select_field(
    label: Seq<char>,
    options: Seq<Seq<char>>,
    value: Seq<char>,
) -> FormFieldView {
    let index = option_index(options, value, 0);
    FormFieldView {
        label,
        input: new_input(Seq::empty(), options[index]),
        field_type: FieldTypeView::Select { options, index },
    }
}

/// The types of tunnels that can be chosen.
pub open spec fn type_options() -> Seq<Seq<char>> {
    seq!["local"@, "remote"@, "dynamic"@]
}

pub open spec fn switch_options() -> Seq<Seq<char>> {
    seq!["true"@, "false"@]
}

pub open spec fn switch(on: bool) -> Seq<char> {
    if on {
        "true"@
    } else {
        "false"@
    }
}

/// A port as it is shown. One that is not set is not shown.
pub open spec fn shown_port(port: u16) -> Seq<char> {
    if port > 0 {
        decimal(port as nat)
    } else {
        Seq::empty()
    }
}

/// The form that shows a configuration.
pub open spec fn form_of(title: Seq<char>, c: TunnelConfigView) -> FormScreenView {
    FormScreenView {
        title,
        fields: seq![
            text_field("Name"@, c.name),
            select_field("Type"@, type_options(), c.tunnel_type),
            text_field("Local Port"@, shown_port(c.local_port)),
            text_field("SSH Host"@, c.ssh_host),
            text_field("SSH Port"@, decimal(c.ssh_port as nat)),
            text_field("SSH User"@, c.ssh_user),
            text_field("SSH Key"@, c.ssh_key),
            text_field("Remote Host"@, c.remote_host),
            text_field("Remote Port"@, shown_port(c.remote_port)),
            select_field("Auto-start"@, switch_options(), switch(c.enabled)),
        ],
        active: 0,
    }
}

/// The configuration that a new tunnel starts from.
pub open spec fn blank_config() -> TunnelConfigView {
    TunnelConfigView {
        name: Seq::empty(),
        tunnel_type: "local"@,
        local_port: 0,
        ssh_host: Seq::empty(),
        ssh_port: 22,
        ssh_user: Seq::empty(),
        ssh_key: Seq::empty(),
        remote_host: "localhost"@,
        remote_port: 0,
        enabled: true,
    }
}

impl FormFieldView {
    pub open spec fn wf(self) -> bool {
        &&& self.input.wf()
        &&& self.field_type matches FieldTypeView::Select { options, index } ==> 0 <= index
            < options.len()
    }

    /// The field once a character was typed. An option that is spelled out is
    /// chosen.
    pub open spec fn typed(self, c: char) -> FormFieldView {
        let input = self.input.typed(c);
        FormFieldView {
            input,
            field_type: match self.field_type {
                FieldTypeView::Text => FieldTypeView::Text,
                FieldTypeView::Select { options, index } => FieldTypeView::Select {
                    options,
                    index: option_index(options, input.buffer, index),
                },
            },
            ..self
        }
    }

    /// The field once the next option, or the one before, was chosen. A field
    /// without options stays as it is.
    pub open spec fn cycled(self, forward: bool) -> FormFieldView {
        match self.field_type {
            FieldTypeView::Text => self,
            FieldTypeView::Select { options, index } => {
                let next = turned(index, options.len() as int, forward);
                FormFieldView {
                    input: InputFieldView {
                        label: self.input.label,
                        buffer: options[next],
                        cursor: byte_len(options[next]) as int,
                    },
                    field_type: FieldTypeView::Select { options, index: next },
                    ..self
                }
            },
        }
    }
}

/// The number after `i`, or the one before, among the numbers below `n`; they
/// are arranged in a ring.
pub open spec fn turned(i: int, n: int, forward: bool) -> int {
    if forward {
        if i + 1 < n {
            i + 1
        } else {
            0
        }
    } else if i > 0 {
        i - 1
    } else {
        n - 1
    }
}

/// What the field with the given label holds.
pub open spec fn value_in(fields: Seq<FormFieldView>, label: Seq<char>) -> Seq<char> {
    match labels_of(fields).index_of_first(label) {
        Some(i) => fields[i].input.buffer,
        None => Seq::empty(),
    }
}

pub open spec fn labels_of(fields: Seq<FormFieldView>) -> Seq<Seq<char>> {
    fields.map_values(|f: FormFieldView| f.label)
}

impl FormScreenView {
    pub open spec fn wf(self) -> bool {
        &&& self.fields.len() == 10
        &&& 0 <= self.active < self.fields.len()
        &&& forall|i: int| 0 <= i < self.fields.len() ==> (#[trigger] self.fields[i]).wf()
    }

    /// The field that is being edited.
    pub open spec fn active_field(self) -> FormFieldView {
        self.fields[self.active]
    }

    pub open spec fn with_active_field(self, field: FormFieldView) -> FormScreenView {
        FormScreenView { fields: self.fields.update(self.active, field), ..self }
    }

    /// The form once the input of the field that is being edited is `input`.
    pub open spec fn with_input(self, input: InputFieldView) -> FormScreenView {
        self.with_active_field(FormFieldView { input, ..self.active_field() })
    }

    pub open spec fn typed(self, c: char) -> FormScreenView {
        self.with_active_field(self.active_field().typed(c))
    }

    pub open spec fn cycled(self, forward: bool) -> FormScreenView {
        self.with_active_field(self.active_field().cycled(forward))
    }

    pub open spec fn moved(self, forward: bool) -> FormScreenView {
        FormScreenView {
            active: turned(self.active, self.fields.len() as int, forward),
            ..self
        }
    }

    /// The configuration that was filled in. Without a name there is none; a port
    /// that cannot be read is the usual one, or none.
    pub open spec fn config(self) -> Option<TunnelConfigView> {
        let value = |label: Seq<char>| value_in(self.fields, label);
        if value("Name"@).len() == 0 {
            None
        } else {
            Some(
                TunnelConfigView {
                    name: value("Name"@),
                    tunnel_type: value("Type"@),
                    local_port: port_or(value("Local Port"@), 0),
                    ssh_host: value("SSH Host"@),
                    ssh_port: port_or(value("SSH Port"@), 22),
                    ssh_user: value("SSH User"@),
                    ssh_key: value("SSH Key"@),
                    remote_host: value("Remote Host"@),
                    remote_port: port_or(value("Remote Port"@), 0),
                    enabled: value("Auto-start"@) == "true"@,
                },
            )
        }
    }
}

// ── the form ────────────────────────────────────────────────────────────────
fn find_option(options: &Vec<String>, value: &str, default: usize) -> (index: usize)
    ensures
        index == option_index(texts(options@), value@, default as int),
        index == default || index < options@.len(),
{
    proof {
        texts(options@).index_of_first_ensures(value@);
    }
    for i in 0..options.len()
        invariant
            forall|j: int| 0 <= j < i ==> texts(options@)[j] != value@,
            match texts(options@).index_of_first(value@) {
                Some(index) => {
                    &&& 0 <= index < options@.len()
                    &&& texts(options@)[index] == value@
                    &&& forall|j: int| 0 <= j < index ==> texts(options@)[j] != value@
                },
                None => !texts(options@).contains(value@),
            },
    {
        assert(texts(options@)[i as int] == options@[i as int]@);
        if same(options[i].as_str(), value) {
            assert(texts(options@).contains(value@));
            return i;
        }
    }
    default
}

fn make_text(label: &str, value: &str) -> (field: FormField)
    ensures
        field@ == text_field(label@, value@),
{
    FormField {
        label: label.to_string(),
        input: InputField::new(label, value),
        field_type: FieldType::Text,
    }
}

fn make_select(label: &str, options: Vec<String>, value: &str) -> (field: FormField)
    requires
        options@.len() > 0,
    ensures
        field@ == select_field(label@, texts(options@), value@),
{
    let index = find_option(&options, value, 0);
    proof {
        reveal_strlit("");
        assert(""@ == Seq::<char>::empty());
        assert(texts(options@)[index as int] == options@[index as int]@);
    }
    FormField {
        label: label.to_string(),
        input: InputField::new("", options[index].as_str()),
        field_type: FieldType::Select { options, index },
    }
}

fn port_text(port: u16) -> (r: String)
    ensures
        r@ == shown_port(port),
{
    if port > 0 {
        to_decimal(port as u64)
    } else {
        String::new()
    }
}

proof fn lemma_new_fields_are_wf(title: Seq<char>, c: TunnelConfigView)
    ensures
        form_of(title, c).wf(),
{
    type_options().index_of_first_ensures(c.tunnel_type);
    switch_options().index_of_first_ensures(switch(c.enabled));
}

impl FormScreen {
    /// The form for a new tunnel.
    pub fn new_add() -> (form: Self)
        ensures
            form@ == form_of("Add Tunnel"@, blank_config()),
            form@.wf(),
    {
        let config = TunnelConfig {
            name: String::new(),
            tunnel_type: "local".to_string(),
            local_port: 0,
            ssh_host: String::new(),
            ssh_port: 22,
            ssh_user: String::new(),
            ssh_key: String::new(),
            remote_host: "localhost".to_string(),
            remote_port: 0,
            enabled: true,
        };
        assert(config@ == blank_config());
        FormScreen::from_config("Add Tunnel", &config)
    }

    /// The form for a tunnel that exists.
    pub fn new_edit(config: &TunnelConfig) -> (form: Self)
        ensures
            form@ == form_of("Edit Tunnel"@, config@),
            form@.wf(),
    {
        FormScreen::from_config("Edit Tunnel", config)
    }

    /// The form that shows a configuration.
    pub fn from_config(title: &str, c: &TunnelConfig) -> (form: Self)
        ensures
            form@ == form_of(title@, c@),
            form@.wf(),
    {
        let types: Vec<String> = vec!["local".to_string(), "remote".to_string(), "dynamic".to_string()];
        assert(texts(types@) == type_options());
        let switches: Vec<String> = vec!["true".to_string(), "false".to_string()];
        assert(texts(switches@) == switch_options());
        let enabled = if c.enabled {
            "true"
        } else {
            "false"
        };
        let mut fields: Vec<FormField> = Vec::new();
        fields.push(make_text("Name", c.name.as_str()));
        fields.push(make_select("Type", types, c.tunnel_type.as_str()));
        fields.push(make_text("Local Port", port_text(c.local_port).as_str()));
        fields.push(make_text("SSH Host", c.ssh_host.as_str()));
        fields.push(make_text("SSH Port", to_decimal(c.ssh_port as u64).as_str()));
        fields.push(make_text("SSH User", c.ssh_user.as_str()));
        fields.push(make_text("SSH Key", c.ssh_key.as_str()));
        fields.push(make_text("Remote Host", c.remote_host.as_str()));
        fields.push(make_text("Remote Port", port_text(c.remote_port).as_str()));
        fields.push(make_select("Auto-start", switches, enabled));
        let form = FormScreen { title: title.to_string(), fields, active: 0 };
        proof {
            lemma_new_fields_are_wf(title@, c@);
            assert(form@.fields == form_of(title@, c@).fields);
        }
        form
    }

    /// Types a character into the field that is being edited.
    pub fn handle_key(&mut self, c: char)
        requires
            old(self)@.wf(),
            old(self)@.active_field().input.can_type(),
        ensures
            final(self)@ == old(self)@.typed(c),
            final(self)@.wf(),
    {
        let i = self.active;
        assert(self@.fields[i as int] == self.fields@[i as int]@);
        assert(self@.fields[i as int].wf());
        self.fields[i].input.handle_key(c);
        let chosen: Option<usize> = match &self.fields[i].field_type {
            FieldType::Select { options, index } => Some(
                find_option(options, self.fields[i].input.buffer.as_str(), *index),
            ),
            FieldType::Text => None,
        };
        if let Some(chosen) = chosen {
            self.choose_index(i, chosen);
        }
        assert(self@.fields == old(self)@.typed(c).fields);
    }

    fn choose_index(&mut self, i: usize, chosen: usize)
        requires
            i < old(self).fields@.len(),
            old(self).fields@[i as int].field_type is Select,
        ensures
            final(self)@.title == old(self)@.title,
            final(self)@.active == old(self)@.active,
            final(self).fields@.len() == old(self).fields@.len(),
            final(self)@.fields == old(self)@.fields.update(
                i as int,
                FormFieldView {
                    field_type: FieldTypeView::Select {
                        options: old(self)@.fields[i as int].field_type->options,
                        index: chosen as int,
                    },
                    ..old(self)@.fields[i as int]
                },
            ),
    {
        if let FieldType::Select { options: _, index } = &mut self.fields[i].field_type {
            *index = chosen;
        }
        assert(self@.fields == old(self)@.fields.update(
            i as int,
            FormFieldView {
                field_type: FieldTypeView::Select {
                    options: old(self)@.fields[i as int].field_type->options,
                    index: chosen as int,
                },
                ..old(self)@.fields[i as int]
            },
        ));
    }

    /// Chooses the next option of the field that is being edited, or the one
    /// before.
    pub fn cycle_select(&mut self, forward: bool)
        requires
            old(self)@.wf(),
        ensures
            final(self)@ == old(self)@.cycled(forward),
            final(self)@.wf(),
    {
        let i = self.active;
        assert(self@.fields[i as int] == self.fields@[i as int]@);
        assert(self@.fields[i as int].wf());
        let chosen: Option<(usize, String)> = match &self.fields[i].field_type {
            FieldType::Select { options, index } => {
                let next: usize = turn(*index, options.len(), forward);
                assert(texts(options@)[next as int] == options@[next as int]@);
                Some((next, options[next].clone()))
            },
            FieldType::Text => None,
        };
        if let Some((next, text)) = chosen {
            self.choose_index(i, next);
            let ghost chosen = self@.fields;
            assert(chosen[i as int] == self.fields@[i as int]@);
            self.fields[i].input.cursor = length(text.as_str());
            self.fields[i].input.buffer = text;
            assert(self@.fields == chosen.update(
                i as int,
                FormFieldView { input: self.fields@[i as int].input@, ..chosen[i as int] },
            ));
        }
        assert(self@.fields == old(self)@.cycled(forward).fields);
    }

    /// Goes on to the next field.
    pub fn next_field(&mut self)
        requires
            old(self)@.wf(),
        ensures
            final(self)@ == old(self)@.moved(true),
            final(self)@.wf(),
    {
        self.active = turn(self.active, self.fields.len(), true);
    }

    /// Goes back to the field before.
    pub fn prev_field(&mut self)
        requires
            old(self)@.wf(),
        ensures
            final(self)@ == old(self)@.moved(false),
            final(self)@.wf(),
    {
        self.active = turn(self.active, self.fields.len(), false);
    }

    fn get(&self, label: &str) -> (value: String)
        ensures
            value@ == value_in(self@.fields, label@),
    {
        let ghost labels = labels_of(self@.fields);
        proof {
            labels.index_of_first_ensures(label@);
        }
        for i in 0..self.fields.len()
            invariant
                labels == labels_of(self@.fields),
                forall|j: int| 0 <= j < i ==> labels[j] != label@,
                match labels.index_of_first(label@) {
                    Some(index) => {
                        &&& 0 <= index < labels.len()
                        &&& labels[index] == label@
                        &&& forall|j: int| 0 <= j < index ==> labels[j] != label@
                    },
                    None => !labels.contains(label@),
                },
        {
            assert(labels[i as int] == self.fields@[i as int].label@);
            if same(self.fields[i].label.as_str(), label) {
                assert(labels.contains(label@));
                return self.fields[i].input.buffer.clone();
            }
        }
        String::new()
    }

    /// The configuration that was filled in, if there is a name.
    pub fn to_config(&self) -> (config: Option<TunnelConfig>)
        ensures
            match config {
                Some(config) => self@.config() == Some(config@),
                None => self@.config() is None,
            },
    {
        let name = self.get("Name");
        if name.as_str().is_empty() {
            return None;
        }
        Some(
            TunnelConfig {
                name,
                tunnel_type: self.get("Type"),
                local_port: read_port(self.get("Local Port").as_str(), 0),
                ssh_host: self.get("SSH Host"),
                ssh_port: read_port(self.get("SSH Port").as_str(), 22),
                ssh_user: self.get("SSH User"),
                ssh_key: self.get("SSH Key"),
                remote_host: self.get("Remote Host"),
                remote_port: read_port(self.get("Remote Port").as_str(), 0),
                enabled: same(self.get("Auto-start").as_str(), "true"),
            },
        )
    }
}

fn read_port(text: &str, default: u16) -> (port: u16)
    ensures
        port == port_or(text@, default),
{
    match parse_port(text) {
        Some(port) => port,
        None => default,
    }
}

/// The number after `i`, or the one before, in a ring of `n` numbers.
pub fn turn(i: usize, n: usize, forward: bool) -> (r: usize)
    requires
        i < n,
    ensures
        r == turned(i as int, n as int, forward),
        r < n,
{
    if forward {
        if i + 1 < n {
            i + 1
        } else {
            0
        }
    } else if i > 0 {
        i - 1
    } else {
        n - 1
    }
}

// ── drawing ─────────────────────────────────────────────────────────────────
impl FormScreenView {
    /// The height of the window: a line for each field, one for the help, and
    /// room around them.
    pub open spec fn window_height() -> int {
        15
    }

    pub open spec fn window_width(area: Rect) -> int {
        smaller(less(area.width as int, 4), 56)
    }

    pub open spec fn window(area: Rect) -> Rect {
        centered(area, Self::window_width(area), Self::window_height())
    }

    /// Whether the form can be drawn in an area.
    pub open spec fn can_render(self, area: Rect) -> bool {
        &&& has_center(area, Self::window_width(area), Self::window_height())
        &&& Self::window(area).x + 1 <= u16::MAX
        &&& Self::window(area).y + Self::window_height() <= u16::MAX
        &&& forall|i: int|
            0 <= i < self.fields.len() ==> (#[trigger] self.fields[i]).input.can_render(
                inside(Self::window(area)).width,
            )
    }

    /// The fields as they are drawn.
    pub open spec fn drawn_rows(self, width: u16) -> Seq<Seq<SpanView>> {
        Seq::new(
            self.fields.len(),
            |i: int| self.fields[i].input.drawn(width, i == self.active),
        )
    }

    /// The form as it is drawn.
    pub open spec fn drawn(self, area: Rect) -> PopupView {
        let window = Self::window(area);
        PopupView {
            area: window,
            title: Some(self.title),
            border: ink(Color::Cyan),
            under: seq![
                PartView {
                    area: inside(window),
                    content: ContentView::Lines(self.drawn_rows(inside(window).width)),
                    centered: false,
                    style: plain(),
                },
            ],
            over: seq![
                PartView {
                    area: rect_at(
                        window.x + 1,
                        window.y + Self::window_height() - 1,
                        less(window.width as int, 2),
                        1,
                    ),
                    content: ContentView::Lines(
                        seq![
                            seq![
                                span_of(
                                    "Tab/Up/Dn: next  |  Space: toggle  |  Enter: save  |  Esc: cancel"@,
                                    ink(Color::DarkGray),
                                ),
                            ],
                        ],
                    ),
                    centered: true,
                    style: plain(),
                },
            ],
        }
    }
}

/// Whether an area of the given size has a place in the middle of `area`.
pub fn center_fits(area: Rect, width: u16, height: u16) -> (r: bool)
    ensures
        r == has_center(area, width as int, height as int),
{
    minus(area.width, width) / 2 <= u16::MAX - area.x && minus(area.height, height) / 2 <= u16::MAX
        - area.y
}

impl FormScreen {
    /// Whether the form can be drawn in an area.
    pub fn accepts_area(&self, area: Rect) -> (r: bool)
        requires
            self@.wf(),
        ensures
            r == self@.can_render(area),
    {
        let width = min_of(minus(area.width, 4), 56);
        if !center_fits(area, width, 15) {
            return false;
        }
        let window = centered_rect(area, width, 15);
        if window.x == u16::MAX || window.y > u16::MAX - 15 {
            return false;
        }
        let inner = bordered_inner(window);
        for i in 0..self.fields.len()
            invariant
                self@.wf(),
                inner == inside(FormScreenView::window(area)),
                forall|j: int|
                    0 <= j < i ==> (#[trigger] self@.fields[j]).input.can_render(inner.width),
        {
            assert(self@.fields[i as int] == self.fields@[i as int]@);
            assert(self@.fields[i as int].wf());
            if !self.fields[i].input.accepts_width(inner.width) {
                return false;
            }
        }
        true
    }

    /// The form, drawn in an area.
    pub fn render(&self, area: Rect) -> (popup: Popup)
        requires
            self@.wf(),
            self@.can_render(area),
        ensures
            popup@ == self@.drawn(area),
    {
        let width = minus(area.width, 4);
        let content_height: u16 = self.fields.len() as u16 + 2;
        let popup_height: u16 = content_height + 3;
        let popup_width = min_of(width, 56);
        let window = centered_rect(area, popup_width, popup_height);
        let inner = bordered_inner(window);
        let mut rows: Vec<Vec<Span>> = Vec::new();
        let ghost all = self@.drawn_rows(inner.width);
        for i in 0..self.fields.len()
            invariant
                self@.wf(),
                self@.can_render(area),
                inner == inside(FormScreenView::window(area)),
                all == self@.drawn_rows(inner.width),
                lines_view(rows@) == all.take(i as int),
        {
            assert(self@.fields[i as int] == self.fields@[i as int]@);
            assert(self@.fields[i as int].wf());
            push_line(&mut rows, self.fields[i].input.render(inner.width, i == self.active));
            assert(all.take(i + 1) == all.take(i as int).push(all[i as int]));
        }
        assert(all.take(all.len() as int) == all);
        let help = single(
            "Tab/Up/Dn: next  |  Space: toggle  |  Enter: save  |  Esc: cancel",
            ink(Color::DarkGray),
        );
        let help_area = Rect::new(
            window.x + 1,
            window.y + popup_height - 1,
            minus(window.width, 2),
            1,
        );
        let popup = Popup {
            area: window,
            title: Some(self.title.clone()),
            border: ink(Color::Cyan),
            under: only(
                Part { area: inner, content: Content::Lines(rows), centered: false, style: plain() },
            ),
            over: only(
                Part {
                    area: help_area,
                    content: Content::Lines(only_line(help)),
                    centered: true,
                    style: plain(),
                },
            ),
        };
        assert(popup@ == self@.drawn(area));
        popup
    }
}

// ── what holds of every form ────────────────────────────────────────────────
/// The type of a tunnel as the form knows it: one that cannot be chosen becomes
/// the first one that can.
pub open spec fn known_type(tunnel_type: Seq<char>) -> Seq<char> {
    if type_options().contains(tunnel_type) {
        tunnel_type
    } else {
        "local"@
    }
}

proof fn lemma_value_at(fields: Seq<FormFieldView>, label: Seq<char>, i: int)
    requires
        0 <= i < fields.len(),
        fields[i].label == label,
        forall|j: int| 0 <= j < fields.len() && j != i ==> (#[trigger] fields[j]).label != label,
    ensures
        value_in(fields, label) == fields[i].input.buffer,
{
    let labels = labels_of(fields);
    labels.index_of_first_ensures(label);
    assert(labels[i] == label);
    assert(labels.contains(label));
    let k = labels.index_of_first(label)->0;
    assert(labels[k] == fields[k].label);
}

proof fn lemma_labels_differ()
    ensures
        ({
            let labels = seq![
                "Name"@,
                "Type"@,
                "Local Port"@,
                "SSH Host"@,
                "SSH Port"@,
                "SSH User"@,
                "SSH Key"@,
                "Remote Host"@,
                "Remote Port"@,
                "Auto-start"@,
            ];
            forall|i: int, j: int|
                0 <= i < labels.len() && 0 <= j < labels.len() && i != j ==> #[trigger] labels[i]
                    != #[trigger] labels[j]
        }),
{
    reveal_strlit("Name");
    reveal_strlit("Type");
    reveal_strlit("Local Port");
    reveal_strlit("SSH Host");
    reveal_strlit("SSH Port");
    reveal_strlit("SSH User");
    reveal_strlit("SSH Key");
    reveal_strlit("Remote Host");
    reveal_strlit("Remote Port");
    reveal_strlit("Auto-start");
    assert("Name"@[0] == 'N' && "Type"@[0] == 'T');
    assert("Local Port"@[0] == 'L' && "Auto-start"@[0] == 'A');
    assert("SSH Host"@[4] == 'H' && "SSH Port"@[4] == 'P' && "SSH User"@[4] == 'U');
    assert("SSH Host"@[0] == 'S' && "SSH Port"@[0] == 'S' && "SSH User"@[0] == 'S');
    assert("SSH Key"@[0] == 'S' && "SSH Key"@[4] == 'K');
    assert("Remote Host"@[0] == 'R' && "Remote Host"@[7] == 'H');
    assert("Remote Port"@[0] == 'R' && "Remote Port"@[7] == 'P');
}

/// A form that is opened on a configuration and saved at once gives the
/// configuration back: all of it, but that a type that cannot be chosen becomes
/// the first one that can. Without a name nothing is saved.
pub proof fn an_unedited_form_gives_the_configuration_back(
    title: Seq<char>,
    c: TunnelConfigView,
)
    ensures
        c.name.len() == 0 ==> form_of(title, c).config() is None,
        c.name.len() > 0 ==> form_of(title, c).config() == Some(
            TunnelConfigView { tunnel_type: known_type(c.tunnel_type), ..c },
        ),
{
    let fields = form_of(title, c).fields;
    let labels = seq![
        "Name"@,
        "Type"@,
        "Local Port"@,
        "SSH Host"@,
        "SSH Port"@,
        "SSH User"@,
        "SSH Key"@,
        "Remote Host"@,
        "Remote Port"@,
        "Auto-start"@,
    ];
    lemma_labels_differ();
    assert forall|i: int| 0 <= i < 10 implies #[trigger] value_in(fields, labels[i])
        == fields[i].input.buffer by {
        assert forall|j: int| 0 <= j < fields.len() && j != i implies (#[trigger] fields[j]).label
            != labels[i] by {
            assert(fields[j].label == labels[j]);
        }
        lemma_value_at(fields, labels[i], i);
    }
    assert(value_in(fields, labels[0]) == c.name);
    assert(value_in(fields, labels[3]) == c.ssh_host);
    assert(value_in(fields, labels[5]) == c.ssh_user);
    assert(value_in(fields, labels[6]) == c.ssh_key);
    assert(value_in(fields, labels[7]) == c.remote_host);
    assert(value_in(fields, labels[1]) == known_type(c.tunnel_type)) by {
        type_options().index_of_first_ensures(c.tunnel_type);
        assert(value_in(fields, labels[1]) == fields[1].input.buffer);
    }
    assert(value_in(fields, labels[9]) == switch(c.enabled)) by {
        switch_options().index_of_first_ensures(switch(c.enabled));
        assert(switch_options()[0] == "true"@ && switch_options()[1] == "false"@);
        assert(switch_options().contains(switch(c.enabled)));
        assert(value_in(fields, labels[9]) == fields[9].input.buffer);
    }
    assert("true"@ != "false"@) by {
        reveal_strlit("true");
        reveal_strlit("false");
        assert("true"@.len() == 4 && "false"@.len() == 5);
    }
    assert(port_in(Seq::<char>::empty()) is None);
    assert(port_or(value_in(fields, labels[2]), 0) == c.local_port) by {
        port_is_read_back(c.local_port);
        assert(value_in(fields, labels[2]) == fields[2].input.buffer);
    }
    assert(port_or(value_in(fields, labels[4]), 22) == c.ssh_port) by {
        port_is_read_back(c.ssh_port);
        assert(value_in(fields, labels[4]) == fields[4].input.buffer);
    }
    assert(port_or(value_in(fields, labels[8]), 0) == c.remote_port) by {
        port_is_read_back(c.remote_port);
        assert(value_in(fields, labels[8]) == fields[8].input.buffer);
    }
}

/// To turn a ring forth and back, or back and forth, leads nowhere; and every
/// number can be left and reached.
pub proof fn turning_back_undoes_turning(i: int, n: int, forward: bool)
    requires
        0 <= i < n,
    ensures
        0 <= turned(i, n, forward) < n,
        turned(turned(i, n, forward), n, !forward) == i,
        turned(i, n, true) == (i + 1) % n,
        turned(i, n, false) == (i + n - 1) % n,
{
    assert(turned(i, n, true) == (i + 1) % n) by {
        if i + 1 < n {
            vstd::arithmetic::div_mod::lemma_small_mod((i + 1) as nat, n as nat);
        } else {
            vstd::arithmetic::div_mod::lemma_mod_self_0(n);
        }
    }
    assert(turned(i, n, false) == (i + n - 1) % n) by {
        if i > 0 {
            vstd::arithmetic::div_mod::lemma_mod_add_multiples_vanish(i - 1, n);
            vstd::arithmetic::div_mod::lemma_small_mod((i - 1) as nat, n as nat);
        } else {
            vstd::arithmetic::div_mod::lemma_small_mod((n - 1) as nat, n as nat);
        }
    }
}

/// Moving to the next field and back again changes nothing.
pub proof fn moving_back_undoes_moving(form: FormScreenView, forward: bool)
    requires
        form.wf(),
    ensures
        form.moved(forward).moved(!forward) == form,
{
    turning_back_undoes_turning(form.active, form.fields.len() as int, forward);
}

/// A field that shows the option it has chosen shows it again after the next
/// option and back.
pub proof fn cycling_back_undoes_cycling(field: FormFieldView, forward: bool)
    requires
        field.wf(),
        field.field_type matches FieldTypeView::Select { options, index } ==> field.input
            == new_input(field.input.label, options[index]),
    ensures
        field.cycled(forward).cycled(!forward) == field,
{
    if let FieldTypeView::Select { options, index } = field.field_type {
        turning_back_undoes_turning(index, options.len() as int, forward);
    }
}

/// What is typed in one field changes no other field.
pub proof fn other_fields_are_left_alone(form: FormScreenView, c: char, forward: bool, j: int)
    requires
        form.wf(),
        0 <= j < form.fields.len(),
        j != form.active,
    ensures
        form.typed(c).fields[j] == form.fields[j],
        form.cycled(forward).fields[j] == form.fields[j],
{
}

/// The labels of the form, in their order.
pub open spec fn form_labels() -> Seq<Seq<char>> {
    seq![
        "Name"@,
        "Type"@,
        "Local Port"@,
        "SSH Host"@,
        "SSH Port"@,
        "SSH User"@,
        "SSH Key"@,
        "Remote Host"@,
        "Remote Port"@,
        "Auto-start"@,
    ]
}

/// A form shows each part of the configuration under its label: the texts as they
/// are, the ports in decimal notation, and those that may be left out not at all
/// where they are not set. The type and the switch are chosen from their options.
/// The first field is the one that is edited.
pub proof fn a_form_shows_the_configuration(title: Seq<char>, c: TunnelConfigView)
    ensures
        ({
            let form = form_of(title, c);
            let shown = |i: int| form.fields[i].input.buffer;
            &&& form.title == title
            &&& form.active == 0
            &&& labels_of(form.fields) == form_labels()
            &&& shown(0) == c.name
            &&& type_options().contains(c.tunnel_type) ==> shown(1) == c.tunnel_type
            &&& !type_options().contains(c.tunnel_type) ==> shown(1) == "local"@
            &&& c.local_port > 0 ==> shown(2) == decimal(c.local_port as nat)
            &&& c.local_port == 0 ==> shown(2).len() == 0
            &&& shown(3) == c.ssh_host
            &&& shown(4) == decimal(c.ssh_port as nat)
            &&& shown(5) == c.ssh_user
            &&& shown(6) == c.ssh_key
            &&& shown(7) == c.remote_host
            &&& c.remote_port > 0 ==> shown(8) == decimal(c.remote_port as nat)
            &&& c.remote_port == 0 ==> shown(8).len() == 0
            &&& c.enabled ==> shown(9) == "true"@
            &&& !c.enabled ==> shown(9) == "false"@
            &&& form.fields[1].field_type matches FieldTypeView::Select { options, .. } && options
                == seq!["local"@, "remote"@, "dynamic"@]
            &&& form.fields[9].field_type matches FieldTypeView::Select { options, .. } && options
                == seq!["true"@, "false"@]
        }),
        forall|i: int|
            0 <= i < 10 ==> {
                let field = #[trigger] form_of(title, c).fields[i];
                &&& field.input.cursor == byte_len(field.input.buffer)
                &&& field.field_type is Text <==> i != 1 && i != 9
                &&& field.field_type is Text ==> field.input.label == field.label
                &&& field.field_type matches FieldTypeView::Select { options, index }
                    ==> field.input.buffer == options[index] && field.input.label.len() == 0
            },
{
    lemma_new_fields_are_wf(title, c);
    let form = form_of(title, c);
    assert(labels_of(form.fields) == form_labels());
    type_options().index_of_first_ensures(c.tunnel_type);
    switch_options().index_of_first_ensures(switch(c.enabled));
    assert(switch_options()[0] == "true"@ && switch_options()[1] == "false"@);
    assert(switch_options().contains(switch(c.enabled)));
}

/// A form is read field by field, by the labels: texts as they are, ports as
/// numbers, with 22 for a server's port and none for the others where there is
/// no number, and enabled for `true` alone. Without a name nothing is read.
pub proof fn a_form_is_read_field_by_field(form: FormScreenView)
    requires
        labels_of(form.fields) == form_labels(),
    ensures
        ({
            let filled = |i: int| form.fields[i].input.buffer;
            &&& filled(0).len() == 0 ==> form.config() is None
            &&& filled(0).len() > 0 ==> {
                &&& form.config() matches Some(c)
                &&& c.name == filled(0)
                &&& c.tunnel_type == filled(1)
                &&& c.ssh_host == filled(3)
                &&& c.ssh_user == filled(5)
                &&& c.ssh_key == filled(6)
                &&& c.remote_host == filled(7)
                &&& c.enabled <==> filled(9) == "true"@
                &&& port_in(filled(2)) matches Some(port) ==> c.local_port == port
                &&& port_in(filled(2)) is None ==> c.local_port == 0
                &&& port_in(filled(4)) matches Some(port) ==> c.ssh_port == port
                &&& port_in(filled(4)) is None ==> c.ssh_port == 22
                &&& port_in(filled(8)) matches Some(port) ==> c.remote_port == port
                &&& port_in(filled(8)) is None ==> c.remote_port == 0
            }
        }),
{
    let fields = form.fields;
    let labels = form_labels();
    assert(labels_of(fields).len() == fields.len());
    lemma_labels_differ();
    assert forall|i: int| 0 <= i < 10 implies #[trigger] value_in(fields, labels[i])
        == fields[i].input.buffer by {
        assert forall|j: int| 0 <= j < fields.len() implies (#[trigger] fields[j]).label
            == labels[j] by {
            assert(labels_of(fields)[j] == fields[j].label);
        }
        lemma_value_at(fields, labels[i], i);
    }
    assert(value_in(fields, labels[0]) == fields[0].input.buffer);
    assert(value_in(fields, labels[1]) == fields[1].input.buffer);
    assert(value_in(fields, labels[2]) == fields[2].input.buffer);
    assert(value_in(fields, labels[3]) == fields[3].input.buffer);
    assert(value_in(fields, labels[4]) == fields[4].input.buffer);
    assert(value_in(fields, labels[5]) == fields[5].input.buffer);
    assert(value_in(fields, labels[6]) == fields[6].input.buffer);
    assert(value_in(fields, labels[7]) == fields[7].input.buffer);
    assert(value_in(fields, labels[8]) == fields[8].input.buffer);
    assert(value_in(fields, labels[9]) == fields[9].input.buffer);
}

/// Editing a form never changes its title, its labels or the number of its
/// fields.
pub proof fn editing_keeps_the_labels(
    form: FormScreenView,
    c: char,
    forward: bool,
    input: InputFieldView,
)
    requires
        form.wf(),
    ensures
        labels_of(form.typed(c).fields) == labels_of(form.fields),
        labels_of(form.cycled(forward).fields) == labels_of(form.fields),
        labels_of(form.with_input(input).fields) == labels_of(form.fields),
        form.typed(c).title == form.title && form.typed(c).active == form.active,
        form.cycled(forward).title == form.title && form.cycled(forward).active == form.active,
        form.moved(forward) == (FormScreenView { active: form.moved(forward).active, ..form }),
{
    assert(labels_of(form.typed(c).fields) == labels_of(form.fields));
    assert(labels_of(form.cycled(forward).fields) == labels_of(form.fields));
    assert(labels_of(form.with_input(input).fields) == labels_of(form.fields));
}

/// What is typed goes to the field that is being edited. An option that is then
/// spelled out is chosen; otherwise the choice stays.
pub proof fn typing_reaches_the_active_field(form: FormScreenView, c: char)
    requires
        form.wf(),
    ensures
        ({
            let before = form.active_field();
            let after = form.typed(c).active_field();
            &&& after.input == before.input.typed(c)
            &&& before.field_type is Text ==> after.field_type is Text
            &&& before.field_type matches FieldTypeView::Select { options, index } ==> {
                &&& after.field_type matches FieldTypeView::Select { options: kept, index: chosen }
                &&& kept == options
                &&& options.contains(after.input.buffer) ==> 0 <= chosen < options.len()
                    && options[chosen] == after.input.buffer
                &&& !options.contains(after.input.buffer) ==> chosen == index
            }
        }),
{
    if let FieldTypeView::Select { options, index } = form.active_field().field_type {
        options.index_of_first_ensures(form.active_field().input.typed(c).buffer);
    }
}

/// The options of a field are gone through in a ring, forth or back, and the one
/// that is chosen is shown, with the cursor behind it. A field without options
/// stays as it is.
pub proof fn options_are_gone_through_in_a_ring(form: FormScreenView, forward: bool)
    requires
        form.wf(),
    ensures
        ({
            let before = form.active_field();
            let after = form.cycled(forward).active_field();
            &&& before.field_type is Text ==> after == before
            &&& before.field_type matches FieldTypeView::Select { options, index } ==> {
                let n = options.len() as int;
                let chosen = if forward { (index + 1) % n } else { (index + n - 1) % n };
                &&& after.field_type == (FieldTypeView::Select { options, index: chosen })
                &&& after.input.buffer == options[chosen]
                &&& after.input.cursor == byte_len(options[chosen])
                &&& after.label == before.label && after.input.label == before.input.label
            }
        }),
{
    let before = form.active_field();
    assert(before.wf());
    if let FieldTypeView::Select { options, index } = before.field_type {
        turning_back_undoes_turning(index, options.len() as int, forward);
    }
}

/// The fields are gone through in a ring, forth or back.
pub proof fn fields_are_gone_through_in_a_ring(form: FormScreenView)
    requires
        form.wf(),
    ensures
        form.moved(true).active == (form.active + 1) % 10,
        form.moved(false).active == (form.active + 9) % 10,
{
    turning_back_undoes_turning(form.active, 10, true);
}

/// A form is drawn in the middle of the area, no wider than 56 cells and 15 lines
/// high as far as there is room: a border with the title around a line for each
/// field, and the help over the last line of the border.
pub proof fn a_form_is_drawn_in_the_middle(form: FormScreenView, area: Rect, i: int)
    requires
        area.x + area.width <= u16::MAX,
        area.y + area.height + 15 <= u16::MAX,
        form.wf(),
    ensures
        ({
            let popup = form.drawn(area);
            let width: int = if area.width < 4 {
                0
            } else if area.width < 60 {
                area.width - 4
            } else {
                56
            };
            let height: int = if area.height < 15 { area.height as int } else { 15 };
            &&& popup.area.width == width
            &&& popup.area.height == height
            &&& popup.area.x == area.x + (area.width - width) / 2
            &&& popup.area.y == area.y + (area.height - height) / 2
            &&& popup.title == Some(form.title)
            &&& popup.border == ink(Color::Cyan)
            &&& popup.under.len() == 1 && popup.over.len() == 1
            &&& popup.under[0].area == inside(popup.area)
            &&& popup.under[0].content matches ContentView::Lines(rows) && rows.len() == 10 && (
            0 <= i < 10 ==> rows[i] == form.fields[i].input.drawn(
                inside(popup.area).width,
                i == form.active,
            ))
            &&& !popup.under[0].centered && popup.under[0].style == plain()
            &&& popup.over[0].style == plain()
            &&& popup.area.x < u16::MAX && width >= 2 ==> popup.over[0].area.x == popup.area.x + 1
                && popup.over[0].area.width == width - 2
            &&& popup.over[0].area.y == popup.area.y + 14
            &&& popup.over[0].area.height == 1
            &&& popup.over[0].centered
            &&& popup.over[0].content == ContentView::Lines(
                seq![
                    seq![
                        span_of(
                            "Tab/Up/Dn: next  |  Space: toggle  |  Enter: save  |  Esc: cancel"@,
                            ink(Color::DarkGray),
                        ),
                    ],
                ],
            )
        }),
{
}

/// A form in ASCII can be drawn in every area that the coordinates have room for.
pub proof fn ascii_forms_can_be_drawn(form: FormScreenView, area: Rect)
    requires
        form.wf(),
        area.x + area.width < u16::MAX,
        area.y + area.height + 15 <= u16::MAX,
        forall|i: int|
            0 <= i < form.fields.len() ==> {
                let input = (#[trigger] form.fields[i]).input;
                &&& vstd::utf8::is_ascii_chars(input.buffer)
                &&& vstd::utf8::is_ascii_chars(input.label)
                &&& input.label.len() <= 1000
            },
    ensures
        form.can_render(area),
{
    assert forall|i: int| 0 <= i < form.fields.len() implies (
    #[trigger] form.fields[i]).input.can_render(inside(FormScreenView::window(area)).width) by {
        assert(form.fields[i].wf());
        crate::input::ascii_fields_can_be_drawn(
            form.fields[i].input,
            inside(FormScreenView::window(area)).width,
        );
    }
}

/// The views of fields are those of each of them, in their order.
pub proof fn every_field_has_its_view(fields: Seq<FormField>, i: int)
    ensures
        field_views(fields).len() == fields.len(),
        0 <= i < fields.len() ==> {
            let field = fields[i];
            let view = field_views(fields)[i];
            &&& view.label == field.label@
            &&& view.input.label == field.input.label@
            &&& view.input.buffer == field.input.buffer@
            &&& view.input.cursor == field.input.cursor
            &&& view.field_type == field.field_type@
        },
{
}

} // verus!
