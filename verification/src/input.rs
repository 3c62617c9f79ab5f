//! A line of text that is edited.
use crate::edit::{
    between, byte_len, lemma_char_len, lemma_ends, lemma_lengths, length, on_boundary,
    slice, with_char, without_char,
};
use crate::screen::{
    ink, line_view, marked, push_span, span_of, Color, Span, SpanView, Style,
};
use crate::text::{align_right, chars_of, right_aligned};
use vstd::prelude::*;

verus! {

/// A labelled text with a cursor, which is a byte offset.
#[derive(Debug)]
pub struct InputField {
    pub label: String,
    pub buffer: String,
    pub cursor: usize,
}

#[verifier::ext_equal]
pub struct InputFieldView {
    pub label: Seq<char>,
    pub buffer: Seq<char>,
    pub cursor: int,
}

impl View for InputField {
    type V = InputFieldView;

    open spec fn view(&self) -> InputFieldView {
        InputFieldView {
            label: self.label@,
            buffer: self.buffer@,
            cursor: self.cursor as int,
        }
    }
}

// ── editing ─────────────────────────────────────────────────────────────────
/// A field that holds `value`, with the cursor behind it.
pub open spec fn new_input(label: Seq<char>, value: Seq<char>) -> InputFieldView {
    InputFieldView { label, buffer: value, cursor: byte_len(value) as int }
}

impl InputFieldView {
    /// The cursor does not stand behind the end.
    pub open spec fn wf(self) -> bool {
        0 <= self.cursor <= byte_len(self.buffer)
    }

    /// Whether a character can be put in at the cursor.
    pub open spec fn can_type(self) -> bool {
        on_boundary(self.buffer, self.cursor)
    }

    /// Whether the byte before the cursor, if there is one, starts a character.
    pub open spec fn can_backspace(self) -> bool {
        self.cursor > 0 ==> on_boundary(self.buffer, self.cursor - 1)
    }

    /// Whether the byte at the cursor, if there is one, starts a character.
    pub open spec fn can_delete(self) -> bool {
        self.cursor < byte_len(self.buffer) ==> on_boundary(self.buffer, self.cursor)
    }

    /// A character is put in at the cursor, which moves on by one byte.
    pub open spec fn typed(self, c: char) -> InputFieldView {
        InputFieldView {
            buffer: with_char(self.buffer, self.cursor, c),
            cursor: self.cursor + 1,
            ..self
        }
    }

    /// The cursor moves back by one byte, and the character there is taken out.
    pub open spec fn backspaced(self) -> InputFieldView {
        if self.cursor > 0 {
            InputFieldView {
                buffer: without_char(self.buffer, self.cursor - 1),
                cursor: self.cursor - 1,
                ..self
            }
        } else {
            self
        }
    }

    /// The character at the cursor is taken out.
    pub open spec fn deleted(self) -> InputFieldView {
        if self.cursor < byte_len(self.buffer) {
            InputFieldView { buffer: without_char(self.buffer, self.cursor), ..self }
        } else {
            self
        }
    }

    pub open spec fn moved_left(self) -> InputFieldView {
        if self.cursor > 0 {
            InputFieldView { cursor: self.cursor - 1, ..self }
        } else {
            self
        }
    }

    pub open spec fn moved_right(self) -> InputFieldView {
        if self.cursor < byte_len(self.buffer) {
            InputFieldView { cursor: self.cursor + 1, ..self }
        } else {
            self
        }
    }

    pub open spec fn moved_home(self) -> InputFieldView {
        InputFieldView { cursor: 0, ..self }
    }

    pub open spec fn moved_to_end(self) -> InputFieldView {
        InputFieldView { cursor: byte_len(self.buffer) as int, ..self }
    }
}

// ── drawing ─────────────────────────────────────────────────────────────────
/// The style of a field, by whether it is being edited.
#[verifier::allow_in_spec]
pub fn field_style(active: bool) -> Style
    returns
        (if active {
            Style { fg: Some(Color::Yellow), bg: None, bold: false, reversed: true }
        } else {
            ink(Color::White)
        }),
{
    if active {
        Style { fg: Some(Color::Yellow), bg: None, bold: false, reversed: true }
    } else {
        ink(Color::White)
    }
}

impl InputFieldView {
    /// The label as it is drawn.
    pub open spec fn drawn_label(self) -> Seq<char> {
        right_aligned(self.label, 14) + ": "@
    }

    /// The length of the drawn label in bytes, as a number of cells.
    pub open spec fn label_cells(self) -> u16 {
        #[verifier::truncate]
        (byte_len(self.drawn_label()) as u16)
    }

    /// How many bytes of the text are shown when the field is `width` cells wide.
    pub open spec fn window_len(self, width: u16) -> int {
        crate::screen::less(width as int, self.label_cells() + 2)
    }

    /// The first byte of the text that is shown. The text moves when the cursor
    /// would leave the window.
    pub open spec fn window_start(self, width: u16) -> int {
        let cells: u16 = #[verifier::truncate]
        (self.cursor as u16);
        if cells >= self.window_len(width) {
            crate::screen::less(self.cursor, self.window_len(width) - 1)
        } else {
            0
        }
    }

    /// The byte behind the last one that is shown.
    pub open spec fn window_end(self, width: u16) -> int {
        crate::screen::smaller(
            self.window_start(width) + self.window_len(width),
            byte_len(self.buffer) as int,
        )
    }

    /// Whether the field can be drawn: the width of its label is a number of
    /// cells, and the window cuts no character in two.
    pub open spec fn can_render(self, width: u16) -> bool {
        &&& self.label_cells() + 2 <= u16::MAX
        &&& self.window_len(width) > 0 ==> {
            &&& on_boundary(self.buffer, self.window_start(width))
            &&& on_boundary(self.buffer, self.window_end(width))
        }
    }

    /// The texts that make up the drawn field.
    pub open spec fn drawn(self, width: u16, active: bool) -> Seq<SpanView> {
        let style = field_style(active);
        let label = span_of(self.drawn_label(), style);
        if self.window_len(width) == 0 {
            seq![label, span_of("…"@, ink(Color::DarkGray))]
        } else {
            let start = self.window_start(width);
            let shown = between(self.buffer, start, self.window_end(width));
            let body = if shown.len() == 0 {
                seq![span_of(" "@, style)]
            } else {
                drawn_chars(shown, active, self.cursor - start)
            };
            let tail = if active && self.cursor >= start + self.window_len(width) {
                seq![span_of(" "@, marked(Color::Yellow))]
            } else {
                Seq::empty()
            };
            seq![label] + body + tail
        }
    }
}

/// Characters as they are drawn, each by itself. The one at the cursor of an
/// active field is marked.
pub open spec fn drawn_chars(shown: Seq<char>, active: bool, cursor: int) -> Seq<SpanView> {
    Seq::new(
        shown.len(),
        |i: int|
            span_of(
                seq![shown[i]],
                if active && i == cursor {
                    marked(Color::Yellow)
                } else {
                    field_style(active)
                },
            ),
    )
}

// ── the field ───────────────────────────────────────────────────────────────
impl InputField {
    /// A field that holds `value`, with the cursor behind it.
    pub fn new(label: &str, value: &str) -> (r: Self)
        ensures
            r@ == new_input(label@, value@),
            r@.wf(),
    {
        InputField { label: label.to_string(), buffer: value.to_string(), cursor: length(value) }
    }

    /// Whether a character can be put in at the cursor.
    pub fn accepts_char(&self) -> (r: bool)
        ensures
            r == self@.can_type(),
    {
        self.buffer.as_str().is_char_boundary(self.cursor)
    }

    /// Whether a backspace can be handled.
    pub fn accepts_backspace(&self) -> (r: bool)
        ensures
            r == self@.can_backspace(),
    {
        self.cursor == 0 || self.buffer.as_str().is_char_boundary(self.cursor - 1)
    }

    /// Whether a deletion can be handled.
    pub fn accepts_delete(&self) -> (r: bool)
        ensures
            r == self@.can_delete(),
    {
        self.cursor >= length(self.buffer.as_str()) || self.buffer.as_str().is_char_boundary(
            self.cursor,
        )
    }

    /// Puts a character in at the cursor.
    pub fn handle_key(&mut self, c: char)
        requires
            old(self)@.wf(),
            old(self)@.can_type(),
        ensures
            final(self)@ == old(self)@.typed(c),
            final(self)@.wf(),
    {
        proof {
            lemma_lengths(self@.buffer, self@.cursor, c);
            lemma_char_len(c);
        }
        self.buffer.insert(self.cursor, c);
        let end = length(self.buffer.as_str());
        assert(self.cursor < end);
        self.cursor = self.cursor + 1;
    }

    /// Takes out the character before the cursor.
    pub fn backspace(&mut self)
        requires
            old(self)@.wf(),
            old(self)@.can_backspace(),
        ensures
            final(self)@ == old(self)@.backspaced(),
            final(self)@.wf(),
    {
        if self.cursor > 0 {
            self.cursor = self.cursor - 1;
            proof {
                lemma_lengths(self@.buffer, self@.cursor, ' ');
            }
            self.buffer.remove(self.cursor);
        }
    }

    /// Takes out the character at the cursor.
    pub fn delete(&mut self)
        requires
            old(self)@.wf(),
            old(self)@.can_delete(),
        ensures
            final(self)@ == old(self)@.deleted(),
            final(self)@.wf(),
    {
        if self.cursor < length(self.buffer.as_str()) {
            proof {
                lemma_lengths(self@.buffer, self@.cursor, ' ');
            }
            self.buffer.remove(self.cursor);
        }
    }

    pub fn cursor_left(&mut self)
        requires
            old(self)@.wf(),
        ensures
            final(self)@ == old(self)@.moved_left(),
            final(self)@.wf(),
    {
        if self.cursor > 0 {
            self.cursor = self.cursor - 1;
        }
    }

    pub fn cursor_right(&mut self)
        requires
            old(self)@.wf(),
        ensures
            final(self)@ == old(self)@.moved_right(),
            final(self)@.wf(),
    {
        if self.cursor < length(self.buffer.as_str()) {
            self.cursor = self.cursor + 1;
        }
    }

    pub fn home(&mut self)
        ensures
            final(self)@ == old(self)@.moved_home(),
            final(self)@.wf(),
    {
        self.cursor = 0;
    }

    pub fn end(&mut self)
        ensures
            final(self)@ == old(self)@.moved_to_end(),
            final(self)@.wf(),
    {
        self.cursor = length(self.buffer.as_str());
    }

    /// The label as it is drawn.
    fn label_text(&self) -> (r: String)
        ensures
            r@ == self@.drawn_label(),
    {
        align_right(self.label.as_str(), 14).concat(": ")
    }

    /// Whether the field can be drawn.
    pub fn accepts_width(&self, width: u16) -> (r: bool)
        requires
            self@.wf(),
        ensures
            r == self@.can_render(width),
    {
        let label = self.label_text();
        let cells: u16 = #[verifier::truncate]
        (length(label.as_str()) as u16);
        if cells > u16::MAX - 2 {
            return false;
        }
        let visible = crate::screen::minus(width, cells + 2);
        if visible == 0 {
            return true;
        }
        let (start, end) = self.window(visible, width);
        self.buffer.as_str().is_char_boundary(start) && self.buffer.as_str().is_char_boundary(end)
    }

    /// The bytes that are shown in a window of `visible` bytes.
    fn window(&self, visible: u16, width: u16) -> (r: (usize, usize))
        requires
            self@.wf(),
            visible > 0,
            visible == self@.window_len(width),
        ensures
            r.0 == self@.window_start(width),
            r.1 == self@.window_end(width),
            r.0 <= r.1 <= byte_len(self@.buffer),
            r.0 <= self.cursor,
    {
        let cells: u16 = #[verifier::truncate]
        (self.cursor as u16);
        let back: usize = visible as usize - 1;
        let start: usize = if cells >= visible && self.cursor > back {
            self.cursor - back
        } else {
            0
        };
        let len = length(self.buffer.as_str());
        let end: usize = if len - start <= visible as usize {
            len
        } else {
            start + visible as usize
        };
        (start, end)
    }

    /// The field, drawn `width` cells wide.
    pub fn render(&self, width: u16, active: bool) -> (line: Vec<Span>)
        requires
            self@.wf(),
            self@.can_render(width),
        ensures
            line_view(line@) == self@.drawn(width, active),
    {
        let style = field_style(active);
        let label = self.label_text();
        let cells: u16 = #[verifier::truncate]
        (length(label.as_str()) as u16);
        let visible = crate::screen::minus(width, cells + 2);
        let mut line: Vec<Span> = Vec::new();
        push_span(&mut line, label.as_str(), style);
        if visible == 0 {
            push_span(&mut line, "…", ink(Color::DarkGray));
            assert(line_view(line@) == self@.drawn(width, active));
            return line;
        }
        let (start, end) = self.window(visible, width);
        let shown = chars_of(slice(self.buffer.as_str(), start, end));
        let cursor: usize = self.cursor - start;
        let ghost head = line_view(line@);
        if shown.len() == 0 {
            push_span(&mut line, " ", style);
            assert(line_view(line@) == head + seq![span_of(" "@, style)]);
        } else {
            let ghost body = drawn_chars(shown@, active, cursor as int);
            for i in 0..shown.len()
                invariant
                    body == drawn_chars(shown@, active, cursor as int),
                    style == field_style(active),
                    line_view(line@) == head + body.take(i as int),
            {
                let mut text = String::new();
                text.push(shown[i]);
                assert(text@ == seq![shown@[i as int]]);
                let look = if active && i == cursor {
                    marked(Color::Yellow)
                } else {
                    style
                };
                push_span(&mut line, text.as_str(), look);
                assert(body.take(i + 1) == body.take(i as int).push(body[i as int]));
            }
            assert(body.take(shown@.len() as int) == body);
        }
        if active && cursor >= visible as usize {
            push_span(&mut line, " ", marked(Color::Yellow));
        }
        assert(line_view(line@) == self@.drawn(width, active));
        line
    }
}

// ── what holds of every field ───────────────────────────────────────────────
/// Backspace undoes typing, whatever the character.
pub proof fn backspace_undoes_typing(f: InputFieldView, c: char)
    requires
        f.wf(),
        f.can_type(),
    ensures
        f.typed(c).can_backspace(),
        f.typed(c).backspaced() == f,
{
    crate::edit::removal_undoes_insertion(f.buffer, f.cursor, c);
}

/// A character typed in front of the cursor is the one that a deletion takes out.
pub proof fn deletion_undoes_typing(f: InputFieldView, c: char)
    requires
        f.wf(),
        f.can_type(),
    ensures
        f.typed(c).moved_left().can_delete(),
        f.typed(c).moved_left().deleted() == f,
{
    crate::edit::removal_undoes_insertion(f.buffer, f.cursor, c);
    lemma_lengths(f.buffer, f.cursor, c);
    lemma_char_len(c);
}

/// In ASCII text every key can be handled, the cursor counts characters, and
/// typing ASCII keeps it so.
pub proof fn ascii_fields_take_every_key(f: InputFieldView, c: char)
    requires
        f.wf(),
        vstd::utf8::is_ascii_chars(f.buffer),
        c <= '\u{7f}',
    ensures
        f.can_type(),
        f.can_backspace(),
        f.can_delete(),
        f.typed(c).buffer == f.buffer.insert(f.cursor, c),
        vstd::utf8::is_ascii_chars(f.typed(c).buffer),
        f.cursor > 0 ==> f.backspaced().buffer == f.buffer.remove(f.cursor - 1),
        f.cursor < f.buffer.len() ==> f.deleted().buffer == f.buffer.remove(f.cursor),
        vstd::utf8::is_ascii_chars(f.backspaced().buffer),
        vstd::utf8::is_ascii_chars(f.deleted().buffer),
{
    vstd::utf8::is_ascii_chars_encode_utf8(f.buffer);
    crate::edit::in_ascii_bytes_are_characters(f.buffer, f.cursor, c);
    if f.cursor > 0 {
        crate::edit::in_ascii_bytes_are_characters(f.buffer, f.cursor - 1, c);
    }
    lemma_ends(f.buffer);
}

/// The ends of the text are places where a character can be typed.
pub proof fn the_ends_take_every_character(f: InputFieldView)
    ensures
        f.moved_home().can_type(),
        f.moved_to_end().can_type(),
{
    lemma_ends(f.buffer);
}

/// A character is typed between what stands before the cursor and what stands
/// behind it, and the cursor moves on by one.
pub proof fn typing_puts_a_character_at_the_cursor(
    label: Seq<char>,
    before: Seq<char>,
    behind: Seq<char>,
    c: char,
)
    ensures
        ({
            let f = InputFieldView {
                label,
                buffer: before + behind,
                cursor: byte_len(before) as int,
            };
            &&& f.can_type()
            &&& f.typed(c) == (InputFieldView {
                label,
                buffer: before.push(c) + behind,
                cursor: byte_len(before) as int + 1,
            })
        }),
{
    crate::edit::lemma_meet(before, behind);
    crate::edit::insertion_keeps_both_sides(before, behind, c);
}

/// Deletion takes out the character behind the cursor and leaves the cursor where
/// it is; backspace does the same one byte before it. At the ends there is
/// nothing to take out.
pub proof fn deletion_takes_out_one_character(
    label: Seq<char>,
    before: Seq<char>,
    c: char,
    behind: Seq<char>,
)
    ensures
        ({
            let at = byte_len(before) as int;
            let buffer = before + seq![c] + behind;
            let f = InputFieldView { label, buffer, cursor: at };
            let g = InputFieldView { label, buffer, cursor: at + 1 };
            let after = InputFieldView { label, buffer: before + behind, cursor: at };
            &&& f.can_delete()
            &&& f.deleted() == after
            &&& g.can_backspace()
            &&& g.backspaced() == after
        }),
        ({
            let f = InputFieldView { label, buffer: before, cursor: 0 };
            let g = InputFieldView { label, buffer: before, cursor: byte_len(before) as int };
            &&& f.backspaced() == f
            &&& g.deleted() == g
        }),
{
    crate::edit::lemma_meet(before, seq![c] + behind);
    crate::edit::lemma_meet(seq![c], behind);
    assert(before + (seq![c] + behind) == before + seq![c] + behind);
    crate::edit::insertion_keeps_both_sides(before, behind, c);
    lemma_char_len(c);
}

/// The cursor moves by one, and never off the text; the text stays as it is.
pub proof fn the_cursor_moves_by_one(f: InputFieldView)
    requires
        f.wf(),
    ensures
        ({
            let n = byte_len(f.buffer) as int;
            let at = |cursor: int| InputFieldView { label: f.label, buffer: f.buffer, cursor };
            &&& f.cursor > 0 ==> f.moved_left() == at(f.cursor - 1)
            &&& f.cursor == 0 ==> f.moved_left() == f
            &&& f.cursor < n ==> f.moved_right() == at(f.cursor + 1)
            &&& f.cursor == n ==> f.moved_right() == f
            &&& f.moved_home() == at(0)
            &&& f.moved_to_end() == at(n)
        }),
{
}

/// The window is what the label and two cells leave of the width. It starts at the
/// start of the text as long as the cursor is in it, moves with the cursor, and
/// never shows more than there is.
pub proof fn the_window_follows_the_cursor(f: InputFieldView, width: u16)
    requires
        f.wf(),
        f.cursor < 65536,
        f.window_len(width) > 0,
    ensures
        f.window_len(width) == width - f.label_cells() - 2,
        0 <= f.window_start(width) <= f.cursor,
        f.cursor < f.window_start(width) + f.window_len(width),
        f.cursor < f.window_len(width) ==> f.window_start(width) == 0,
        f.cursor >= f.window_len(width) ==> f.cursor == f.window_start(width) + f.window_len(width)
            - 1,
        f.window_end(width) <= byte_len(f.buffer),
        f.window_end(width) <= f.window_start(width) + f.window_len(width),
        f.window_end(width) == byte_len(f.buffer) || f.window_end(width) == f.window_start(width)
            + f.window_len(width),
{
    let cursor = f.cursor;
    assert(0 <= cursor < 65536 ==> #[verifier::truncate]
    (cursor as u16) == cursor);
}

/// The label of a field stands to the left of its window, in fourteen cells and
/// before a colon.
pub proof fn the_label_is_drawn_first(f: InputFieldView, width: u16, active: bool)
    ensures
        f.drawn(width, active).len() >= 2,
        f.drawn(width, active)[0] == span_of(right_aligned(f.label, 14) + ": "@, field_style(active)),
        f.window_len(width) == 0 ==> f.drawn(width, active) == seq![
            f.drawn(width, active)[0],
            span_of("…"@, ink(Color::DarkGray)),
        ],
{
}

/// In ASCII text the characters in the window are drawn one by one; the one at the
/// cursor of the field that is being edited is marked, and no other.
pub proof fn the_text_is_drawn_with_its_cursor(
    f: InputFieldView,
    width: u16,
    active: bool,
    i: int,
)
    requires
        f.wf(),
        vstd::utf8::is_ascii_chars(f.buffer),
        f.cursor < 65536,
        f.window_len(width) > 0,
        f.window_start(width) <= i < f.window_end(width),
    ensures
        ({
            let drawn = f.drawn(width, active);
            let start = f.window_start(width);
            &&& drawn.len() == 1 + f.window_end(width) - start
            &&& drawn[1 + i - start].text == seq![f.buffer[i]]
            &&& active && i == f.cursor ==> drawn[1 + i - start].style == marked(Color::Yellow)
            &&& !active || i != f.cursor ==> drawn[1 + i - start].style == field_style(active)
        }),
{
    vstd::utf8::is_ascii_chars_encode_utf8(f.buffer);
    the_window_follows_the_cursor(f, width);
    crate::edit::in_ascii_a_slice_counts_characters(
        f.buffer,
        f.window_start(width),
        f.window_end(width),
    );
}

/// Where nothing of the text is in the window, a blank is drawn.
pub proof fn an_empty_field_is_drawn_blank(label: Seq<char>, width: u16, active: bool)
    ensures
        ({
            let f = InputFieldView { label, buffer: Seq::empty(), cursor: 0 };
            f.window_len(width) > 0 ==> f.drawn(width, active) == seq![
                span_of(right_aligned(label, 14) + ": "@, field_style(active)),
                span_of(" "@, field_style(active)),
            ]
        }),
{
    let f = InputFieldView { label, buffer: Seq::empty(), cursor: 0 };
    if f.window_len(width) > 0 {
        vstd::utf8::is_ascii_chars_encode_utf8(f.buffer);
        the_window_follows_the_cursor(f, width);
        crate::edit::in_ascii_a_slice_counts_characters(f.buffer, 0, 0);
    }
}

/// A field that is being edited is drawn in reversed yellow, any other in white.
pub proof fn the_field_that_is_edited_stands_out()
    ensures
        field_style(true) == (Style {
            fg: Some(Color::Yellow),
            bg: None,
            bold: false,
            reversed: true,
        }),
        field_style(false) == (Style {
            fg: Some(Color::White),
            bg: None,
            bold: false,
            reversed: false,
        }),
{
}

/// A new field holds the value, with the cursor behind it.
pub proof fn a_new_field_holds_its_value(label: Seq<char>, value: Seq<char>)
    ensures
        new_input(label, value).label == label,
        new_input(label, value).buffer == value,
        new_input(label, value).moved_to_end() == new_input(label, value),
{
}

/// The cells of the label are the bytes of what is drawn of it.
pub proof fn a_label_takes_its_bytes(f: InputFieldView, width: u16)
    ensures
        ({
            let n = byte_len(right_aligned(f.label, 14) + ": "@) as int;
            &&& n <= u16::MAX ==> f.label_cells() == n
            &&& n <= u16::MAX && n + 2 < width ==> f.window_len(width) == width - (n + 2)
            &&& n <= u16::MAX && n + 2 >= width ==> f.window_len(width) == 0
        }),
{
}

/// A field with ASCII text and an ASCII label of ordinary length can be drawn at
/// any width.
pub proof fn ascii_fields_can_be_drawn(f: InputFieldView, width: u16)
    requires
        f.wf(),
        vstd::utf8::is_ascii_chars(f.buffer),
        vstd::utf8::is_ascii_chars(f.label),
        f.label.len() <= 1000,
    ensures
        f.can_render(width),
{
    let label = right_aligned(f.label, 14) + ": "@;
    reveal_strlit(": ");
    let gap = right_aligned(f.label, 14).len() - f.label.len();
    assert forall|i: int| 0 <= i < label.len() implies '\0' <= #[trigger] label[i] <= '\u{7f}' by {
        if gap <= i < gap + f.label.len() {
            assert(label[i] == f.label[i - gap]);
        }
    }
    vstd::utf8::is_ascii_chars_encode_utf8(label);
    vstd::utf8::is_ascii_chars_encode_utf8(f.buffer);
    if f.window_len(width) > 0 {
        crate::edit::in_ascii_bytes_are_characters(f.buffer, f.window_start(width), ' ');
        crate::edit::in_ascii_bytes_are_characters(f.buffer, f.window_end(width), ' ');
    }
}

} // verus!
