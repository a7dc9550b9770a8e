use crate::grid::{
    cell_index, down_row, down_spec, grid_rows, left_col, left_spec, next_cell, next_spec, pos_spec,
    previous_cell, previous_spec, right_col, right_spec, rows_spec, up_row, up_spec, valid_cursor,
};
use crate::layout::{
    any_description, has_description, lemma_widest_cell, longest_value, longest_value_len,
    padded_len, widest_cell, widest_cell_len,
};
use crate::style::{reset_code, reset_spec, style_prefix, to_upper, upper_of, MenuTextStyle};
use crate::text::{
    clamp_end, clamp_span, flatten_spec, clamp_start, complete_partially, flatten_newlines, partial_applies,
    partial_point, sat_add, sat_sub, shares_prefix, shared_prefix, splice, string_difference,
    Completer, Editor, Suggestion,
};
use nu_ansi_term::Style;
use vstd::prelude::*;
use vstd::string::*;

verus! {

/// Layout asked for when the menu is built; the working layout is derived
/// from it on every update.
pub struct DefaultColumnDetails {
    /// Number of columns asked for
    pub columns: u16,
    /// Fixed column width, if any
    pub col_width: Option<usize>,
    /// Space kept after each value
    pub col_padding: usize,
}

impl Default for DefaultColumnDetails {
    fn default() -> (r: Self)
        ensures
            r.columns == 4,
            r.col_width.is_none(),
            r.col_padding == 2,
    {
        DefaultColumnDetails { columns: 4, col_width: None, col_padding: 2 }
    }
}

/// Layout in force, recomputed from the values and the screen width.
pub struct ColumnDetails {
    /// Number of columns, at least one once computed
    pub columns: u16,
    /// Width of one column
    pub col_width: usize,
}

/// Commands that the host sends to the menu.
pub enum MenuEvent {
    /// The menu opens; `true` when the values are already up to date
    Activate(bool),
    /// The menu closes
    Deactivate,
    /// The line was edited; `true` when the values are already up to date
    Edit(bool),
    NextElement,
    PreviousElement,
    MoveUp,
    MoveDown,
    MoveLeft,
    MoveRight,
    PreviousPage,
    NextPage,
}

/// Menu that shows suggestions in columns, with their descriptions when
/// any suggestion has one.
pub struct ColumnarMenu {
    name: String,
    active: bool,
    color: MenuTextStyle,
    default_details: DefaultColumnDetails,
    /// Rows shown at least when the menu needs more lines than there are
    min_rows: u16,
    working_details: ColumnDetails,
    values: Vec<Suggestion>,
    /// Column of the cursor, from 0
    col_pos: usize,
    /// Row of the cursor, from 0
    row_pos: usize,
    marker: String,
    event: Option<MenuEvent>,
    /// Length of the longest value, for aligning descriptions
    longest_suggestion: usize,
    /// The line as it was when the menu opened, in delta mode
    input: Option<String>,
    /// Ask the completer only about what was typed since the menu opened
    only_buffer_difference: bool,
}

impl ColumnarMenu {
    pub closed spec fn values_spec(&self) -> Seq<Suggestion> {
        self.values@
    }

    pub closed spec fn name_spec(&self) -> Seq<char> {
        self.name@
    }

    pub closed spec fn text_style(&self) -> Style {
        self.color.text_style
    }

    pub closed spec fn selected_style(&self) -> Style {
        self.color.selected_text_style
    }

    pub closed spec fn description_style(&self) -> Style {
        self.color.description_style
    }

    pub closed spec fn default_columns(&self) -> u16 {
        self.default_details.columns
    }

    pub closed spec fn default_col_width(&self) -> Option<usize> {
        self.default_details.col_width
    }

    pub closed spec fn padding(&self) -> usize {
        self.default_details.col_padding
    }

    pub closed spec fn delta_mode(&self) -> bool {
        self.only_buffer_difference
    }

    /// `other` is this menu but for its name.
    pub closed spec fn same_but_name(self, other: Self) -> bool {
        other == ColumnarMenu { name: other.name, ..self }
    }

    /// This menu with its styles replaced.
    pub closed spec fn styled(self, text: Style, selected: Style, description: Style) -> Self {
        ColumnarMenu {
            color: MenuTextStyle {
                text_style: text,
                selected_text_style: selected,
                description_style: description,
            },
            ..self
        }
    }

    /// This menu with its requested layout replaced.
    pub closed spec fn configured(self, columns: u16, col_width: Option<usize>, col_padding: usize) -> Self {
        ColumnarMenu { default_details: DefaultColumnDetails { columns, col_width, col_padding }, ..self }
    }

    /// This menu with its marker replaced.
    pub closed spec fn marked(self, marker: String) -> Self {
        ColumnarMenu { marker, ..self }
    }

    /// This menu with delta completion switched on or off.
    pub closed spec fn delta_mode_set(self, on: bool) -> Self {
        ColumnarMenu { only_buffer_difference: on, ..self }
    }

    pub closed spec fn cursor(&self) -> (nat, nat) {
        (self.col_pos as nat, self.row_pos as nat)
    }

    /// Columns in force; never zero.
    pub closed spec fn cols_spec(&self) -> nat {
        if self.working_details.columns >= 1 { self.working_details.columns as nat } else { 1 }
    }

    pub closed spec fn rows(&self) -> nat {
        rows_spec(self.values@.len(), self.cols_spec())
    }

    pub closed spec fn index_spec(&self) -> nat {
        pos_spec(self.col_pos as nat, self.row_pos as nat, self.cols_spec())
    }

    pub closed spec fn col_width_spec(&self) -> nat {
        self.working_details.col_width as nat
    }

    /// Column width that the requested layout gives on a screen `width` wide.
    pub closed spec fn default_width(&self, width: u16) -> nat {
        match self.default_details.col_width {
            Some(w) => w as nat,
            None => width as nat / (if self.default_details.columns >= 1 {
                self.default_details.columns as nat
            } else {
                1
            }),
        }
    }

    /// Column width of the layout for a screen `width` wide.
    pub closed spec fn layout_width(&self, width: u16) -> nat {
        if has_description(self.values@) {
            width as nat
        } else {
            let widest = widest_cell(self.values@, self.default_details.col_padding as nat);
            let dw = self.default_width(width);
            if widest > dw { widest } else { dw }
        }
    }

    /// Number of columns of the layout for a screen `width` wide.
    pub closed spec fn layout_columns(&self, width: u16) -> nat {
        let asked = if self.default_details.columns >= 1 { self.default_details.columns as nat } else { 1 };
        if has_description(self.values@) {
            1
        } else {
            let w = self.layout_width(width);
            if w == 0 || width as nat / w > asked {
                asked
            } else if width as nat / w >= 1 {
                width as nat / w
            } else {
                1
            }
        }
    }

    /// This menu with the layout recomputed for a screen `width` wide.
    pub closed spec fn laid_out(self, width: u16) -> Self {
        ColumnarMenu {
            working_details: ColumnDetails {
                columns: self.layout_columns(width) as u16,
                col_width: self.layout_width(width) as usize,
            },
            longest_suggestion: if has_description(self.values@) {
                longest_value(self.values@) as usize
            } else {
                self.longest_suggestion
            },
            ..self
        }
    }

    pub closed spec fn snapshot(&self) -> Option<Seq<char>> {
        match self.input {
            Some(s) => Some(s@),
            None => None,
        }
    }

    pub closed spec fn pending(&self) -> Option<MenuEvent> {
        self.event
    }

    /// `other` is this menu with other values and the cursor at the origin.
    pub closed spec fn refreshed_into(self, other: Self) -> bool {
        other == ColumnarMenu { values: other.values, col_pos: 0, row_pos: 0, ..self }
    }

    /// This menu after the command `e` was queued.
    pub closed spec fn queued(self, e: MenuEvent) -> Self {
        ColumnarMenu {
            active: match e {
                MenuEvent::Activate(_) => true,
                MenuEvent::Deactivate => false,
                _ => self.active,
            },
            input: match e {
                MenuEvent::Deactivate => None,
                _ => self.input,
            },
            event: Some(e),
            ..self
        }
    }

    /// This menu after a navigation or paging command, or a deactivation.
    pub closed spec fn moved(self, e: MenuEvent) -> Self {
        let cols = self.cols_spec();
        let len = self.values@.len();
        let c = self.col_pos as nat;
        let r = self.row_pos as nat;
        match e {
            MenuEvent::NextElement => ColumnarMenu {
                col_pos: next_spec(cols, len, c, r).0 as usize,
                row_pos: next_spec(cols, len, c, r).1 as usize,
                ..self
            },
            MenuEvent::PreviousElement => ColumnarMenu {
                col_pos: previous_spec(cols, len, c, r).0 as usize,
                row_pos: previous_spec(cols, len, c, r).1 as usize,
                ..self
            },
            MenuEvent::MoveUp => ColumnarMenu { row_pos: up_spec(cols, len, c, r) as usize, ..self },
            MenuEvent::MoveDown => ColumnarMenu { row_pos: down_spec(cols, len, c, r) as usize, ..self },
            MenuEvent::MoveLeft => ColumnarMenu { col_pos: left_spec(cols, len, c, r) as usize, ..self },
            MenuEvent::MoveRight => ColumnarMenu { col_pos: right_spec(cols, len, c, r) as usize, ..self },
            MenuEvent::Deactivate => ColumnarMenu { active: false, ..self },
            _ => self,
        }
    }

    /// The suggestion under the cursor, if any.
    pub closed spec fn selected(&self) -> Option<Suggestion> {
        if self.index_spec() < self.values@.len() {
            Some(self.values@[self.index_spec() as int])
        } else {
            None
        }
    }

    pub closed spec fn marker_spec(&self) -> Seq<char> {
        self.marker@
    }

    pub closed spec fn min_rows_spec(&self) -> u16 {
        self.min_rows
    }

    /// This menu with no command queued.
    pub closed spec fn with_no_event(self) -> Self {
        ColumnarMenu { event: None, ..self }
    }

    /// This menu with the cursor at the origin.
    pub closed spec fn refreshed_at_origin(self) -> Self {
        ColumnarMenu { col_pos: 0, row_pos: 0, ..self }
    }

    pub closed spec fn active_spec(&self) -> bool {
        self.active
    }

    /// The cursor names an existing value.
    pub closed spec fn cursor_valid(&self) -> bool {
        valid_cursor(self.cols_spec(), self.values@.len(), self.col_pos as nat, self.row_pos as nat)
    }
}

impl Default for ColumnarMenu {
    fn default() -> (r: Self)
        ensures
            r.values_spec().len() == 0,
            r.cursor() == (0nat, 0nat),
            !r.active_spec(),
    {
        let name = String::from_str("columnar_menu");
        let marker = String::from_str("| ");
        ColumnarMenu {
            name,
            active: false,
            color: MenuTextStyle::default(),
            default_details: DefaultColumnDetails::default(),
            min_rows: 3,
            working_details: ColumnDetails { columns: 0, col_width: 0 },
            values: Vec::new(),
            col_pos: 0,
            row_pos: 0,
            marker,
            event: None,
            longest_suggestion: 0,
            input: None,
            only_buffer_difference: false,
        }
    }
}

// Builders
impl ColumnarMenu {
    /// Menu builder with a new name
    pub fn with_name(self, name: &str) -> (r: Self)
        ensures
            r.name_spec() == name@,
            self.same_but_name(r),
    {
        ColumnarMenu { name: String::from_str(name), ..self }
    }

    /// Menu builder with a new style for the suggestions
    pub fn with_text_style(self, text_style: Style) -> (r: Self)
        ensures
            r == self.styled(text_style, self.selected_style(), self.description_style()),
    {
        let mut m = self;
        m.color.text_style = text_style;
        m
    }

    /// Menu builder with a new style for the selected suggestion
    pub fn with_selected_text_style(self, selected_text_style: Style) -> (r: Self)
        ensures
            r == self.styled(self.text_style(), selected_text_style, self.description_style()),
    {
        let mut m = self;
        m.color.selected_text_style = selected_text_style;
        m
    }

    /// Menu builder with a new style for the descriptions
    pub fn with_description_text_style(self, description_text_style: Style) -> (r: Self)
        ensures
            r == self.styled(self.text_style(), self.selected_style(), description_text_style),
    {
        let mut m = self;
        m.color.description_style = description_text_style;
        m
    }

    /// Menu builder with a new number of columns
    pub fn with_columns(self, columns: u16) -> (r: Self)
        ensures
            r == self.configured(columns, self.default_col_width(), self.padding()),
    {
        let mut m = self;
        m.default_details.columns = columns;
        m
    }

    /// Menu builder with a new column width
    pub fn with_column_width(self, col_width: Option<usize>) -> (r: Self)
        ensures
            r == self.configured(self.default_columns(), col_width, self.padding()),
    {
        let mut m = self;
        m.default_details.col_width = col_width;
        m
    }

    /// Menu builder with a new column padding
    pub fn with_column_padding(self, col_padding: usize) -> (r: Self)
        ensures
            r == self.configured(self.default_columns(), self.default_col_width(), col_padding),
    {
        let mut m = self;
        m.default_details.col_padding = col_padding;
        m
    }

    /// Menu builder with a new marker
    pub fn with_marker(self, marker: String) -> (r: Self)
        ensures
            r == self.marked(marker),
    {
        ColumnarMenu { marker, ..self }
    }

    /// Menu builder with delta completion on or off
    pub fn with_only_buffer_difference(self, only_buffer_difference: bool) -> (r: Self)
        ensures
            r == self.delta_mode_set(only_buffer_difference),
    {
        ColumnarMenu { only_buffer_difference, ..self }
    }
}

// Grid and cursor
impl ColumnarMenu {
    /// Columns in force, at least one
    fn get_cols(&self) -> (r: usize)
        ensures
            r == self.cols_spec(),
            1 <= r <= 65535,
    {
        if self.working_details.columns >= 1 {
            self.working_details.columns as usize
        } else {
            1
        }
    }

    /// Rows that the menu takes
    fn get_rows(&self) -> (r: usize)
        ensures
            r == self.rows(),
            r >= 1,
    {
        grid_rows(self.values.len(), self.get_cols())
    }

    /// Width of a column in force
    fn get_width(&self) -> (r: usize)
        ensures
            r == self.col_width_spec(),
    {
        self.working_details.col_width
    }

    /// Index of the value under the cursor, or the largest `usize` when that
    /// index does not fit.
    fn index(&self) -> (r: usize)
        ensures
            r == if self.index_spec() <= usize::MAX { self.index_spec() } else { usize::MAX as nat },
    {
        let i = cell_index(self.col_pos, self.row_pos, self.get_cols());
        if i > usize::MAX as u128 {
            usize::MAX
        } else {
            i as usize
        }
    }

    /// The value under the cursor, if there is one
    fn get_value(&self) -> (r: Option<&Suggestion>)
        ensures
            r == if self.index_spec() < self.values@.len() {
                Some(&self.values@[self.index_spec() as int])
            } else {
                None::<&Suggestion>
            },
    {
        let i = self.index();
        if i < self.values.len() {
            Some(&self.values[i])
        } else {
            None
        }
    }

    /// Moves the cursor to the first cell
    fn reset_position(&mut self)
        ensures
            *final(self) == (ColumnarMenu { col_pos: 0, row_pos: 0, ..*old(self) }),
    {
        self.col_pos = 0;
        self.row_pos = 0;
    }

    /// Line end after the last column of a row
    fn end_of_line(&self, column: usize) -> (r: &str)
        ensures
            r@ == eol_spec(column as nat, self.cols_spec()),
    {
        proof {
            reveal_strlit("\r\n");
            reveal_strlit("");
        }
        if column == self.get_cols() - 1 {
            "\r\n"
        } else {
            ""
        }
    }

    fn move_next(&mut self)
        ensures
            ({
                let (c, r) = next_spec(
                    old(self).cols_spec(),
                    old(self).values@.len(),
                    old(self).col_pos as nat,
                    old(self).row_pos as nat,
                );
                *final(self) == (ColumnarMenu { col_pos: c as usize, row_pos: r as usize, ..*old(self) })
            }),
    {
        let (c, r) = next_cell(self.get_cols(), self.values.len(), self.col_pos, self.row_pos);
        self.col_pos = c;
        self.row_pos = r;
    }

    fn move_previous(&mut self)
        ensures
            ({
                let (c, r) = previous_spec(
                    old(self).cols_spec(),
                    old(self).values@.len(),
                    old(self).col_pos as nat,
                    old(self).row_pos as nat,
                );
                *final(self) == (ColumnarMenu { col_pos: c as usize, row_pos: r as usize, ..*old(self) })
            }),
    {
        let (c, r) = previous_cell(self.get_cols(), self.values.len(), self.col_pos, self.row_pos);
        self.col_pos = c;
        self.row_pos = r;
    }

    fn move_up(&mut self)
        ensures
            *final(self) == (ColumnarMenu {
                row_pos: up_spec(
                    old(self).cols_spec(),
                    old(self).values@.len(),
                    old(self).col_pos as nat,
                    old(self).row_pos as nat,
                ) as usize,
                ..*old(self)
            }),
    {
        self.row_pos = up_row(self.get_cols(), self.values.len(), self.col_pos, self.row_pos);
    }

    fn move_down(&mut self)
        ensures
            *final(self) == (ColumnarMenu {
                row_pos: down_spec(
                    old(self).cols_spec(),
                    old(self).values@.len(),
                    old(self).col_pos as nat,
                    old(self).row_pos as nat,
                ) as usize,
                ..*old(self)
            }),
    {
        self.row_pos = down_row(self.get_cols(), self.values.len(), self.col_pos, self.row_pos);
    }

    fn move_left(&mut self)
        ensures
            *final(self) == (ColumnarMenu {
                col_pos: left_spec(
                    old(self).cols_spec(),
                    old(self).values@.len(),
                    old(self).col_pos as nat,
                    old(self).row_pos as nat,
                ) as usize,
                ..*old(self)
            }),
    {
        self.col_pos = left_col(self.get_cols(), self.values.len(), self.col_pos, self.row_pos);
    }

    fn move_right(&mut self)
        ensures
            *final(self) == (ColumnarMenu {
                col_pos: right_spec(
                    old(self).cols_spec(),
                    old(self).values@.len(),
                    old(self).col_pos as nat,
                    old(self).row_pos as nat,
                ) as usize,
                ..*old(self)
            }),
    {
        self.col_pos = right_col(self.get_cols(), self.values.len(), self.col_pos, self.row_pos);
    }
}

// Layout
impl ColumnarMenu {
    /// Recomputes the columns and their width from the values and the
    /// screen width.
    fn update_layout(&mut self, screen_width: u16)
        ensures
            *final(self) == old(self).laid_out(screen_width),
    {
        if any_description(&self.values) {
            self.working_details.columns = 1;
            self.working_details.col_width = screen_width as usize;
            self.longest_suggestion = longest_value_len(&self.values);
        } else {
            let max_width = widest_cell_len(&self.values, self.default_details.col_padding);
            let asked: u16 = if self.default_details.columns >= 1 {
                self.default_details.columns
            } else {
                1
            };
            let default_width = match self.default_details.col_width {
                Some(w) => w,
                None => (screen_width / asked) as usize,
            };
            let col_width = if max_width > default_width {
                max_width
            } else {
                default_width
            };
            self.working_details.col_width = col_width;
            if col_width == 0 || screen_width as usize / col_width > asked as usize {
                self.working_details.columns = asked;
            } else if screen_width as usize / col_width >= 1 {
                self.working_details.columns = (screen_width as usize / col_width) as u16;
            } else {
                self.working_details.columns = 1;
            }
        }
    }
}

impl ColumnarMenu {
    /// With a description among the values, the layout is one column as wide
    /// as the screen, whatever was asked for.
    pub proof fn lemma_description_layout(self, width: u16)
        requires
            has_description(self.values_spec()),
        ensures
            self.laid_out(width).cols_spec() == 1,
            self.laid_out(width).col_width_spec() == width,
    {
    }

    /// Without descriptions, the column width is the default width unless a
    /// value needs more; then it is the padded length of the widest value.
    pub proof fn lemma_column_width(self, width: u16)
        requires
            !has_description(self.values_spec()),
        ensures
            (forall|k: int| 0 <= k < self.values_spec().len() ==> padded_len(
                #[trigger] self.values_spec()[k],
                self.padding() as nat,
            ) <= self.default_width(width)) ==> self.laid_out(width).col_width_spec()
                == self.default_width(width),
            (exists|k: int| 0 <= k < self.values_spec().len() && padded_len(
                #[trigger] self.values_spec()[k],
                self.padding() as nat,
            ) > self.default_width(width)) ==> exists|j: int| 0 <= j < self.values_spec().len()
                && self.laid_out(width).col_width_spec() == padded_len(
                #[trigger] self.values_spec()[j],
                self.padding() as nat,
            ) && forall|k: int| 0 <= k < self.values_spec().len() ==> padded_len(
                #[trigger] self.values_spec()[k],
                self.padding() as nat,
            ) <= self.laid_out(width).col_width_spec(),
    {
        lemma_widest_cell(self.values@, self.default_details.col_padding as nat);
    }
}

/// Text that accepting `s` puts into the line.
pub open spec fn inserted_text(s: Suggestion) -> Seq<char> {
    if s.append_whitespace { s.value@.push(' ') } else { s.value@ }
}

// Completion
impl ColumnarMenu {
    /// Asks the completer for new values. In delta mode only what was typed
    /// since the menu opened is sent, and nothing changes when nothing was.
    pub fn update_values<C: Completer>(&mut self, editor: &Editor, completer: &mut C)
        ensures
            !old(self).delta_mode() ==> old(self).refreshed_into(*final(self)),
            old(self).delta_mode() && old(self).snapshot() is None ==> *final(self) == *old(self),
            old(self).delta_mode() && old(self).snapshot() is Some ==> if shares_prefix(
                editor.buffer@,
                old(self).snapshot()->0,
                editor.buffer@.len(),
            ) {
                *final(self) == *old(self)
            } else {
                old(self).refreshed_into(*final(self))
            },
    {
        if self.only_buffer_difference {
            match &self.input {
                Some(old_string) => {
                    let (start, input) = string_difference(editor.get_buffer(), old_string.as_str());
                    proof {
                        let a = editor.buffer@;
                        let b = old_string@;
                        if shares_prefix(a, b, a.len()) && start < a.len() {
                            assert(a[start as int] == a.subrange(0, a.len() as int)[start as int]);
                            assert(b[start as int] == b.subrange(0, a.len() as int)[start as int]);
                        }
                    }
                    if input.as_str().unicode_len() > 0 {
                        self.values = completer.complete(input.as_str(), start);
                        self.reset_position();
                    }
                },
                None => {},
            }
        } else {
            let flat = flatten_newlines(editor.get_buffer());
            self.values = completer.complete(flat.as_str(), editor.insertion_point());
            self.reset_position();
        }
    }

    /// Replaces the part of the line under the first suggestion's span by the
    /// prefix that all suggestions share, when it extends what was typed; then
    /// the values are asked for again, as their spans are stale.
    pub fn can_partially_complete<C: Completer>(
        &mut self,
        values_updated: bool,
        editor: &mut Editor,
        completer: &mut C,
    ) -> (r: bool)
        ensures
            values_updated ==> r == partial_applies(old(self).values_spec(), old(editor).buffer@),
            values_updated && r ==> ({
                let vals = old(self).values_spec();
                let text = old(editor).buffer@;
                let s = clamp_start(vals[0].span, text.len());
                let e = clamp_end(vals[0].span, text.len());
                final(editor).buffer@ == splice(text, s as int, e as int, shared_prefix(vals))
                    && final(editor).insertion_point == partial_point(
                    old(editor).insertion_point as nat,
                    (e - s) as nat,
                    shared_prefix(vals).len(),
                )
            }),
            !r ==> final(editor).buffer@ == old(editor).buffer@ && final(editor).insertion_point
                == old(editor).insertion_point,
    {
        if !values_updated {
            self.update_values(editor, completer);
        }
        let done = complete_partially(&self.values, editor);
        if done {
            self.update_values(editor, completer);
        }
        done
    }

    /// Puts the selected suggestion into the line in place of its span, and
    /// the insertion point after it.
    pub fn replace_in_buffer(&self, editor: &mut Editor)
        ensures
            self.selected() is None ==> final(editor).buffer@ == old(editor).buffer@
                && final(editor).insertion_point == old(editor).insertion_point,
            self.selected() is Some ==> ({
                let sel = self.selected()->0;
                let text = old(editor).buffer@;
                let s = clamp_start(sel.span, text.len());
                let e = clamp_end(sel.span, text.len());
                final(editor).buffer@ == splice(text, s as int, e as int, inserted_text(sel))
                    && final(editor).insertion_point == sat_sub(
                    sat_add(old(editor).insertion_point as nat, inserted_text(sel).len()),
                    (e - s) as nat,
                )
            }),
    {
        match self.get_value() {
            Some(sel) => {
                let len = editor.len();
                let (start, end) = clamp_span(sel.span, len);
                let mut value = String::from_str(sel.value.as_str());
                if sel.append_whitespace {
                    proof {
                        reveal_strlit(" ");
                    }
                    value.append(" ");
                }
                let n = value.as_str().unicode_len();
                editor.replace_range(start, end, value.as_str());
                let offset = editor.insertion_point().saturating_add(n).saturating_sub(end - start);
                editor.set_insertion_point(offset);
            },
            None => {},
        }
    }

    /// Committing a suggestion whose span ends at the insertion point leaves
    /// the insertion point right after the inserted text; when the span ran to
    /// the end of the line, the insertion point is at the end of the new line.
    pub proof fn lemma_commit_ends_after_value(self, text: Seq<char>, ip: nat)
        requires
            self.selected() is Some,
            ip == clamp_end(self.selected()->0.span, text.len()),
            text.len() + inserted_text(self.selected()->0).len() <= usize::MAX,
        ensures
            ({
                let sel = self.selected()->0;
                let s = clamp_start(sel.span, text.len());
                let e = clamp_end(sel.span, text.len());
                let new_ip = sat_sub(sat_add(ip, inserted_text(sel).len()), (e - s) as nat);
                &&& new_ip == s + inserted_text(sel).len()
                &&& splice(text, s as int, e as int, inserted_text(sel)).subrange(s as int, new_ip as int)
                    == inserted_text(sel)
                &&& e == text.len() ==> new_ip == splice(text, s as int, e as int, inserted_text(sel)).len()
            }),
    {
        let sel = self.selected()->0;
        let s = clamp_start(sel.span, text.len());
        let e = clamp_end(sel.span, text.len());
        let t = inserted_text(sel);
        let out = splice(text, s as int, e as int, t);
        assert(out.subrange(s as int, (s + t.len()) as int) =~= t);
    }
}

// Commands
impl ColumnarMenu {
    /// Queues a command for the next update; opening and closing take effect
    /// at once.
    pub fn menu_event(&mut self, event: MenuEvent)
        ensures
            *final(self) == old(self).queued(event),
    {
        match &event {
            MenuEvent::Activate(_) => self.active = true,
            MenuEvent::Deactivate => {
                self.active = false;
                self.input = None;
            },
            _ => {},
        }
        self.event = Some(event);
    }

    /// Takes the queued command, if any: recomputes the layout for a screen
    /// `screen_width` wide, then carries the command out.
    pub fn update_working_details<C: Completer>(
        &mut self,
        editor: &mut Editor,
        completer: &mut C,
        screen_width: u16,
    )
        ensures
            old(self).pending() is None ==> *final(self) == *old(self),
            final(editor).buffer@ == old(editor).buffer@,
            final(editor).insertion_point == old(editor).insertion_point,
            old(self).pending() is Some ==> ({
                let e = old(self).pending()->0;
                let laid = old(self).laid_out(screen_width);
                let m = laid.with_no_event();
                match e {
                    MenuEvent::Activate(updated) => {
                        &&& final(self).active_spec()
                        &&& final(self).cursor() == (0nat, 0nat)
                        &&& final(self).pending() is None
                        &&& final(self).cols_spec() == laid.cols_spec()
                        &&& final(self).col_width_spec() == laid.col_width_spec()
                        &&& (m.delta_mode() ==> final(self).snapshot() == Some(old(editor).buffer@))
                        &&& (!m.delta_mode() ==> final(self).snapshot() is None)
                        &&& (updated ==> final(self).values_spec() == m.values_spec())
                    },
                    MenuEvent::Edit(updated) => {
                        &&& final(self).cursor() == (0nat, 0nat)
                        &&& final(self).pending() is None
                        &&& final(self).active_spec() == m.active_spec()
                        &&& final(self).cols_spec() == laid.cols_spec()
                        &&& final(self).col_width_spec() == laid.col_width_spec()
                        &&& (updated ==> *final(self) == (m.refreshed_at_origin()))
                    },
                    _ => *final(self) == m.moved(e),
                }
            }),
    {
        let mut taken: Option<MenuEvent> = None;
        std::mem::swap(&mut self.event, &mut taken);
        match taken {
            Some(event) => {
                self.update_layout(screen_width);
                match event {
                    MenuEvent::Activate(updated) => {
                        self.active = true;
                        self.reset_position();
                        self.input = if self.only_buffer_difference {
                            Some(String::from_str(editor.get_buffer()))
                        } else {
                            None
                        };
                        if !updated {
                            self.update_values(editor, completer);
                        }
                    },
                    MenuEvent::Deactivate => self.active = false,
                    MenuEvent::Edit(updated) => {
                        self.reset_position();
                        if !updated {
                            self.update_values(editor, completer);
                        }
                    },
                    MenuEvent::NextElement => self.move_next(),
                    MenuEvent::PreviousElement => self.move_previous(),
                    MenuEvent::MoveUp => self.move_up(),
                    MenuEvent::MoveDown => self.move_down(),
                    MenuEvent::MoveLeft => self.move_left(),
                    MenuEvent::MoveRight => self.move_right(),
                    MenuEvent::PreviousPage | MenuEvent::NextPage => {},
                }
            },
            None => {},
        }
    }
}

// Queries
impl ColumnarMenu {
    /// Menu name
    pub fn name(&self) -> (r: &str)
        ensures
            r@ == self.name_spec(),
    {
        self.name.as_str()
    }

    /// Text shown before the line while the menu is open
    pub fn indicator(&self) -> (r: &str)
        ensures
            r@ == self.marker_spec(),
    {
        self.marker.as_str()
    }

    pub fn is_active(&self) -> (r: bool)
        ensures
            r == self.active_spec(),
    {
        self.active
    }

    /// A single value can always be taken at once
    pub fn can_quick_complete(&self) -> (r: bool)
        ensures
            r,
    {
        true
    }

    /// Rows shown at least: the configured floor, or fewer when the menu
    /// needs fewer
    pub fn min_rows(&self) -> (r: u16)
        ensures
            r == if self.rows() <= self.min_rows_spec() { self.rows() } else { self.min_rows_spec() as nat },
    {
        let rows = self.get_rows();
        if rows <= self.min_rows as usize {
            rows as u16
        } else {
            self.min_rows
        }
    }

    pub fn get_values(&self) -> (r: &Vec<Suggestion>)
        ensures
            r@ == self.values_spec(),
    {
        &self.values
    }

    /// Lines that the menu needs: one per row
    pub fn menu_required_lines(&self, _terminal_columns: u16) -> (r: usize)
        ensures
            r == self.rows(),
    {
        self.get_rows()
    }
}

/// Escape codes put around the parts of a rendered menu.
pub struct Palette {
    /// Before the selected suggestion
    pub selected: String,
    /// Before the other suggestions
    pub text: String,
    /// Before descriptions
    pub description: String,
    /// After styled text
    pub reset: String,
}

/// What a palette holds, as character sequences.
pub ghost struct PaletteView {
    pub selected: Seq<char>,
    pub text: Seq<char>,
    pub description: Seq<char>,
    pub reset: Seq<char>,
}

impl View for Palette {
    type V = PaletteView;

    open spec fn view(&self) -> PaletteView {
        PaletteView {
            selected: self.selected@,
            text: self.text@,
            description: self.description@,
            reset: self.reset@,
        }
    }
}

/// `n` spaces.
pub open spec fn spaces(n: nat) -> Seq<char> {
    Seq::new(n, |i: int| ' ')
}

/// `v` followed by spaces up to `w` characters; `v` itself when it is as long.
pub open spec fn pad_to(v: Seq<char>, w: nat) -> Seq<char> {
    if v.len() < w { v + spaces((w - v.len()) as nat) } else { v }
}

/// The first `n` characters of `s`, or all of it when it is shorter.
pub open spec fn take_chars(s: Seq<char>, n: nat) -> Seq<char> {
    if n < s.len() { s.subrange(0, n as int) } else { s }
}

/// Rows hidden above the window so that row `row` shows in `avail` lines.
pub open spec fn skipped_rows(row: nat, avail: nat) -> nat {
    if row >= avail { (row - avail + 1) as nat } else { 0 }
}

/// The window of rows that are rendered starts at or above the cursor's row
/// and holds it.
pub proof fn lemma_window_holds_row(row: nat, avail: nat)
    requires
        avail >= 1,
    ensures
        skipped_rows(row, avail) <= row,
        row < skipped_rows(row, avail) + avail,
{
}

fn push_spaces(out: &mut String, n: usize)
    ensures
        final(out)@ == old(out)@ + spaces(n as nat),
{
    let mut i: usize = 0;
    proof {
        reveal_strlit(" ");
    }
    assert(old(out)@ + spaces(0) =~= old(out)@);
    while i < n
        invariant
            i <= n,
            out@ == old(out)@ + spaces(i as nat),
        decreases n - i,
    {
        proof {
            reveal_strlit(" ");
        }
        out.append(" ");
        assert(old(out)@ + spaces((i + 1) as nat) =~= old(out)@ + spaces(i as nat) + seq![' ']);
        i = i + 1;
    }
}

fn push_padded(out: &mut String, v: &str, w: usize)
    ensures
        final(out)@ == old(out)@ + pad_to(v@, w as nat),
{
    out.append(v);
    let l = v.unicode_len();
    if l < w {
        push_spaces(out, w - l);
    }
}

/// The first `n` characters of `d`, with line feeds turned into spaces.
fn description_part(d: &str, n: usize) -> (r: String)
    ensures
        r@ == flatten_spec(take_chars(d@, n as nat)),
{
    let l = d.unicode_len();
    let k = if n < l { n } else { l };
    assert(d@.subrange(0, l as int) == d@);
    flatten_newlines(d.substring_char(0, k))
}

// Rendering
impl ColumnarMenu {
    /// Rendered text of the suggestion at `k`.
    pub closed spec fn cell(&self, pal: PaletteView, k: nat, ansi: bool) -> Seq<char> {
        let s = self.values@[k as int];
        let v = s.value@;
        let selected = k == self.index_spec();
        let cols = self.cols_spec();
        let eol = eol_spec(k % cols, cols);
        let width = self.working_details.col_width as nat;
        let empty = sat_sub(width, v.len());
        let left = sat_add(self.longest_suggestion as nat, self.default_details.col_padding as nat);
        if ansi {
            match s.description {
                Some(d) => {
                    let dtxt = flatten_spec(take_chars(d@, sat_sub(width, left)));
                    if selected {
                        pal.selected + pad_to(v, left) + dtxt + pal.reset + eol
                    } else {
                        pal.text + pad_to(v, left) + pal.reset + pal.description + dtxt + pal.reset + eol
                    }
                },
                None => if selected {
                    pal.selected + v + pal.reset + spaces(empty) + eol
                } else {
                    pal.text + v + pal.reset + pal.description + spaces(empty) + pal.reset + eol
                },
            }
        } else {
            let marker: Seq<char> = if selected { seq!['>'] } else { Seq::empty() };
            let line = match s.description {
                Some(d) => marker + pad_to(
                    v,
                    sat_add(
                        self.longest_suggestion as nat,
                        sat_sub(self.default_details.col_padding as nat, marker.len()),
                    ),
                ) + flatten_spec(take_chars(d@, empty)) + eol,
                None => marker + v + spaces(sat_sub(empty, marker.len())) + eol,
            };
            if selected { upper_of(line) } else { line }
        }
    }

    /// Rendered text of the suggestions from `from` up to `to`.
    pub closed spec fn cells(&self, pal: PaletteView, ansi: bool, from: nat, to: nat) -> Seq<char>
        decreases to,
    {
        if to <= from {
            Seq::empty()
        } else {
            self.cells(pal, ansi, from, (to - 1) as nat) + self.cell(pal, (to - 1) as nat, ansi)
        }
    }

    /// First suggestion shown in `avail` lines.
    pub closed spec fn window_start(&self, avail: nat) -> nat {
        let first = skipped_rows(self.row_pos as nat, avail) * self.cols_spec();
        if first <= self.values@.len() { first } else { self.values@.len() }
    }

    /// End of the suggestions shown in `avail` lines.
    pub closed spec fn window_end(&self, avail: nat) -> nat {
        let last = (skipped_rows(self.row_pos as nat, avail) + avail) * self.cols_spec();
        if last <= self.values@.len() { last } else { self.values@.len() }
    }

    /// The whole menu as rendered in `avail` lines.
    pub closed spec fn menu_text(&self, pal: PaletteView, avail: nat, ansi: bool) -> Seq<char> {
        if self.values@.len() == 0 {
            if ansi {
                pal.selected + "NO RECORDS FOUND"@ + pal.reset
            } else {
                "NO RECORDS FOUND"@
            }
        } else {
            self.cells(pal, ansi, self.window_start(avail), self.window_end(avail))
        }
    }

    /// The window of `avail` lines starts at a whole row at or above the
    /// cursor's row and shows the selected suggestion.
    pub proof fn lemma_scroll_window(self, avail: nat)
        requires
            avail >= 1,
            self.cursor_valid(),
        ensures
            self.window_start(avail) == skipped_rows(self.cursor().1, avail) * self.cols_spec(),
            skipped_rows(self.cursor().1, avail) <= self.cursor().1,
            self.window_start(avail) <= self.index_spec() < self.window_end(avail),
    {
        let row = self.row_pos as nat;
        let cols = self.cols_spec();
        let skip = skipped_rows(row, avail);
        lemma_window_holds_row(row, avail);
        assert(skip * cols <= row * cols) by (nonlinear_arith)
            requires
                skip <= row,
        ;
        assert(row * cols + cols <= (skip + avail) * cols) by (nonlinear_arith)
            requires
                row + 1 <= skip + avail,
        ;
    }

    fn no_records_msg(&self, pal: &Palette, use_ansi_coloring: bool) -> (r: String)
        ensures
            r@ == if use_ansi_coloring {
                pal@.selected + "NO RECORDS FOUND"@ + pal@.reset
            } else {
                "NO RECORDS FOUND"@
            },
    {
        if use_ansi_coloring {
            let mut out = String::from_str(pal.selected.as_str());
            out.append("NO RECORDS FOUND");
            out.append(pal.reset.as_str());
            out
        } else {
            String::from_str("NO RECORDS FOUND")
        }
    }

    /// Renders the suggestion at `index`.
    fn create_string(&self, pal: &Palette, index: usize, use_ansi_coloring: bool) -> (r: String)
        requires
            index < self.values@.len(),
        ensures
            r@ == self.cell(pal@, index as nat, use_ansi_coloring),
    {
        let s = &self.values[index];
        let v = s.value.as_str();
        let count = self.values.len();
        // the cursor index is capped at `usize::MAX`, which no index below `count` reaches
        let selected = index == self.index() && index < count;
        let cols = self.get_cols();
        let eol = self.end_of_line(index % cols);
        let width = self.get_width();
        let empty = width.saturating_sub(v.unicode_len());
        let left = self.longest_suggestion.saturating_add(self.default_details.col_padding);
        if use_ansi_coloring {
            match &s.description {
                Some(d) => {
                    let dtxt = description_part(d.as_str(), width.saturating_sub(left));
                    let mut out = String::from_str(
                        if selected {
                            pal.selected.as_str()
                        } else {
                            pal.text.as_str()
                        },
                    );
                    if selected {
                        push_padded(&mut out, v, left);
                        out.append(dtxt.as_str());
                    } else {
                        push_padded(&mut out, v, left);
                        out.append(pal.reset.as_str());
                        out.append(pal.description.as_str());
                        out.append(dtxt.as_str());
                    }
                    out.append(pal.reset.as_str());
                    out.append(eol);
                    out
                },
                None => {
                    let mut out = String::from_str(
                        if selected {
                            pal.selected.as_str()
                        } else {
                            pal.text.as_str()
                        },
                    );
                    if selected {
                        out.append(v);
                        out.append(pal.reset.as_str());
                        push_spaces(&mut out, empty);
                    } else {
                        out.append(v);
                        out.append(pal.reset.as_str());
                        out.append(pal.description.as_str());
                        push_spaces(&mut out, empty);
                        out.append(pal.reset.as_str());
                    }
                    out.append(eol);
                    out
                },
            }
        } else {
            proof {
                reveal_strlit(">");
                reveal_strlit("");
                assert(">"@ =~= seq!['>']);
                assert(""@ =~= Seq::<char>::empty());
            }
            let mut line = String::from_str(
                if selected {
                    ">"
                } else {
                    ""
                },
            );
            let marker_len: usize = if selected {
                1
            } else {
                0
            };
            match &s.description {
                Some(d) => {
                    push_padded(
                        &mut line,
                        v,
                        self.longest_suggestion.saturating_add(
                            self.default_details.col_padding.saturating_sub(marker_len),
                        ),
                    );
                    let dtxt = description_part(d.as_str(), empty);
                    line.append(dtxt.as_str());
                },
                None => {
                    line.append(v);
                    push_spaces(&mut line, empty.saturating_sub(marker_len));
                },
            }
            line.append(eol);
            if selected {
                to_upper(line.as_str())
            } else {
                line
            }
        }
    }

    /// Renders the menu in `available_lines` lines with the codes of `pal`:
    /// the rows around the cursor, or a "no records" line when there are no
    /// values.
    pub fn render_with(&self, pal: &Palette, available_lines: u16, use_ansi_coloring: bool) -> (r: String)
        ensures
            r@ == self.menu_text(pal@, available_lines as nat, use_ansi_coloring),
    {
        if self.values.len() == 0 {
            return self.no_records_msg(pal, use_ansi_coloring);
        }
        let cols = self.get_cols();
        let len = self.values.len();
        let avail = available_lines as usize;
        let skip_rows: u128 = if self.row_pos >= avail {
            (self.row_pos - avail) as u128 + 1
        } else {
            0
        };
        proof {
            assert(skip_rows * cols <= 0x1_0000_0000_0000_0000 * 65535) by (nonlinear_arith)
                requires
                    skip_rows <= 0x1_0000_0000_0000_0000,
                    cols <= 65535,
            ;
            assert((skip_rows + avail) * cols <= 0x1_0000_0000_0001_0000 * 65535) by (nonlinear_arith)
                requires
                    skip_rows <= 0x1_0000_0000_0000_0000,
                    avail <= 65535,
                    cols <= 65535,
            ;
        }
        proof {
            assert(skip_rows * cols <= (skip_rows + avail) * cols) by (nonlinear_arith);
        }
        let first = skip_rows * cols as u128;
        let last = (skip_rows + avail as u128) * cols as u128;
        let start: usize = if first <= len as u128 { first as usize } else { len };
        let end: usize = if last <= len as u128 { last as usize } else { len };
        let mut out = String::new();
        let mut k: usize = start;
        while k < end
            invariant
                start <= end <= self.values@.len(),
                start <= k <= end,
                start == self.window_start(available_lines as nat),
                end == self.window_end(available_lines as nat),
                out@ == self.cells(pal@, use_ansi_coloring, start as nat, k as nat),
            decreases end - k,
        {
            let cell = self.create_string(pal, k, use_ansi_coloring);
            out.append(cell.as_str());
            k = k + 1;
        }
        out
    }

    /// Renders the menu in `available_lines` lines, coloured with the
    /// menu's styles or in plain text.
    pub fn menu_string(&self, available_lines: u16, use_ansi_coloring: bool) -> (r: String)
        ensures
            use_ansi_coloring ==> exists|pal: PaletteView|
                pal.reset == reset_spec() && r@ == #[trigger] self.menu_text(pal, available_lines as nat, true),
            !use_ansi_coloring ==> r@ == self.menu_text(
                PaletteView {
                    selected: Seq::empty(),
                    text: Seq::empty(),
                    description: Seq::empty(),
                    reset: Seq::empty(),
                },
                available_lines as nat,
                false,
            ),
    {
        let pal = if use_ansi_coloring {
            Palette {
                selected: style_prefix(&self.color.selected_text_style),
                text: style_prefix(&self.color.text_style),
                description: style_prefix(&self.color.description_style),
                reset: reset_code(),
            }
        } else {
            Palette {
                selected: String::new(),
                text: String::new(),
                description: String::new(),
                reset: String::new(),
            }
        };
        proof {
            if !use_ansi_coloring {
                assert(pal@ == PaletteView {
                    selected: Seq::empty(),
                    text: Seq::empty(),
                    description: Seq::empty(),
                    reset: Seq::empty(),
                });
            }
        }
        self.render_with(&pal, available_lines, use_ansi_coloring)
    }
}

/// `"\r\n"` after a cell in the last column, nothing after the others.
pub open spec fn eol_spec(column: nat, cols: nat) -> Seq<char> {
    if column + 1 == cols { seq!['\r', '\n'] } else { Seq::empty() }
}

} // verus!
