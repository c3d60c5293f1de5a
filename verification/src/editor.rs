//! The grid state store: the character grid, the style registry, the default
//! colours and the cursor position that redraw events act on.

use crate::color::Color;
use std::collections::HashMap;
use vstd::prelude::*;

verus! {

/// Optional foreground, background and special (decoration) colours.
#[derive(Clone, Copy, Debug, PartialEq, Eq, Structural)]
pub struct Colors {
    pub foreground: Option<Color>,
    pub background: Option<Color>,
    pub special: Option<Color>,
}

impl Colors {
    pub fn new(
        foreground: Option<Color>,
        background: Option<Color>,
        special: Option<Color>,
    ) -> (colors: Colors)
        ensures
            colors == (Colors { foreground, background, special }),
    {
        Colors { foreground, background, special }
    }

    /// No channel set.
    pub open spec fn unset() -> Colors {
        Colors { foreground: None, background: None, special: None }
    }

    /// Each channel of `self` where it is set, else that channel of `defaults`.
    pub open spec fn spec_or(self, defaults: Colors) -> Colors {
        Colors {
            foreground: if self.foreground is Some {
                self.foreground
            } else {
                defaults.foreground
            },
            background: if self.background is Some {
                self.background
            } else {
                defaults.background
            },
            special: if self.special is Some {
                self.special
            } else {
                defaults.special
            },
        }
    }

    /// Fills every channel that is not set from `defaults`.
    pub fn or(&self, defaults: &Colors) -> (colors: Colors)
        ensures
            colors == self.spec_or(*defaults),
    {
        Colors {
            foreground: if self.foreground.is_some() {
                self.foreground
            } else {
                defaults.foreground
            },
            background: if self.background.is_some() {
                self.background
            } else {
                defaults.background
            },
            special: if self.special.is_some() {
                self.special
            } else {
                defaults.special
            },
        }
    }
}

/// A highlight style, registered under a numeric id.
#[derive(Clone, Copy, Debug, PartialEq, Eq, Structural)]
pub struct Style {
    pub colors: Colors,
}

impl Style {
    pub fn new(colors: Colors) -> (style: Style)
        ensures
            style.colors == colors,
    {
        Style { colors }
    }
}

/// The outline that the cursor is drawn with.
#[derive(Clone, Copy, Debug, PartialEq, Eq, Structural)]
pub enum CursorShape {
    /// The whole cell.
    Block,
    /// A bar at the cell's left edge.
    Vertical,
    /// A strip at the cell's bottom edge.
    Horizontal,
}

/// What one grid position holds: nothing (a blank in the default style), or a
/// character with the highlight id it was drawn with.
pub type GridCell = Option<(char, Option<u64>)>;

/// A run of text to be written into one grid row, starting at `col_start`;
/// each character takes one column.
#[derive(Debug)]
pub struct GridLineCell {
    pub grid_id: u64,
    pub text: String,
    pub row: u64,
    pub col_start: u64,
    pub style_id: Option<u64>,
}

/// The mathematical content of a `GridLineCell`.
pub struct CellRun {
    pub grid_id: u64,
    pub text: Seq<char>,
    pub row: u64,
    pub col_start: u64,
    pub style_id: Option<u64>,
}

impl View for GridLineCell {
    type V = CellRun;

    open spec fn view(&self) -> CellRun {
        CellRun {
            grid_id: self.grid_id,
            text: self.text@,
            row: self.row,
            col_start: self.col_start,
            style_id: self.style_id,
        }
    }
}

impl GridLineCell {
    pub fn new(grid_id: u64, text: String, row: u64, col_start: u64, style_id: Option<u64>) -> (cell:
        GridLineCell)
        ensures
            cell@ == (CellRun { grid_id, text: text@, row, col_start, style_id }),
    {
        GridLineCell { grid_id, text, row, col_start, style_id }
    }
}

/// Why the store refused a mutation.
#[derive(Clone, Copy, Debug, PartialEq, Eq, Structural)]
pub enum GridError {
    /// The mutation addresses a position outside the grid.
    OutOfRange,
}

/// `row` with `text` written over the columns from `col` on, in style `style_id`.
pub open spec fn drawn_row(row: Seq<GridCell>, col: int, text: Seq<char>, style_id: Option<u64>) -> Seq<
    GridCell,
> {
    Seq::new(
        row.len(),
        |j: int|
            if col <= j < col + text.len() {
                Some((text[j - col], style_id))
            } else {
                row[j]
            },
    )
}

/// Whether the whole run lies inside a grid of `height` rows and `width` columns.
pub open spec fn fits(width: nat, height: nat, run: CellRun) -> bool {
    &&& run.row < height
    &&& run.col_start + run.text.len() <= width
}

/// Whether the run writes to the position (`row`, `col`).
pub open spec fn covers(run: CellRun, row: int, col: int) -> bool {
    run.row == row && run.col_start <= col < run.col_start + run.text.len()
}

/// A row of `width` blanks.
pub open spec fn blank_row(width: nat) -> Seq<GridCell> {
    Seq::new(width, |j: int| None)
}

/// The state of the store as mathematics.
pub struct EditorState {
    pub width: nat,
    pub height: nat,
    /// Row-major: `grid[row][col]`.
    pub grid: Seq<Seq<GridCell>>,
    pub styles: Map<u64, Style>,
    pub default_colors: Colors,
    /// Cursor position as (column, row).
    pub cursor: (u64, u64),
}

impl EditorState {
    /// The grid has `height` rows of `width` columns each.
    pub open spec fn well_formed(self) -> bool {
        &&& self.grid.len() == self.height
        &&& forall|r: int| 0 <= r < self.height ==> (#[trigger] self.grid[r]).len() == self.width
    }

    /// A fresh store: blank grid, no style, no default colour, cursor at the origin.
    pub open spec fn initial(width: nat, height: nat) -> EditorState {
        EditorState {
            width,
            height,
            grid: Seq::new(height, |r: int| blank_row(width)),
            styles: Map::empty(),
            default_colors: Colors::unset(),
            cursor: (0, 0),
        }
    }

    /// Whether the whole run lies inside the grid.
    pub open spec fn admits(self, run: CellRun) -> bool {
        fits(self.width, self.height, run)
    }

    /// The state after writing the run into its row.
    pub open spec fn draw(self, run: CellRun) -> EditorState {
        EditorState {
            grid: self.grid.update(
                run.row as int,
                drawn_row(self.grid[run.row as int], run.col_start as int, run.text, run.style_id),
            ),
            ..self
        }
    }

    /// The state after blanking the whole grid.
    pub open spec fn clear(self) -> EditorState {
        EditorState { grid: Seq::new(self.height, |r: int| blank_row(self.width)), ..self }
    }

    pub open spec fn jump_cursor_to(self, col: u64, row: u64) -> EditorState {
        EditorState { cursor: (col, row), ..self }
    }

    pub open spec fn set_default_colors(self, colors: Colors) -> EditorState {
        EditorState { default_colors: colors, ..self }
    }

    /// The state after registering `style` under `id`, in place of whatever
    /// was registered there.
    pub open spec fn define_style(self, id: u64, style: Style) -> EditorState {
        EditorState { styles: self.styles.insert(id, style), ..self }
    }

    /// What the position holds; nothing outside the grid.
    pub open spec fn cell_at(self, col: u64, row: u64) -> GridCell {
        if row < self.height && col < self.width {
            self.grid[row as int][col as int]
        } else {
            None
        }
    }

    /// The colours that text with highlight id `style_id` is shown in: the
    /// registered style's, each channel falling back to the default colours;
    /// the default colours alone where there is no id or none is registered.
    pub open spec fn resolved_colors(self, style_id: Option<u64>) -> Colors {
        match style_id {
            Some(id) if self.styles.contains_key(id) => self.styles[id].colors.spec_or(
                self.default_colors,
            ),
            _ => self.default_colors,
        }
    }
}

/// The grid state store.
pub struct Editor {
    width: usize,
    height: usize,
    grid: Vec<Vec<GridCell>>,
    styles: HashMap<u64, Style>,
    default_colors: Colors,
    cursor_pos: (u64, u64),
}

impl View for Editor {
    type V = EditorState;

    closed spec fn view(&self) -> EditorState {
        EditorState {
            width: self.width as nat,
            height: self.height as nat,
            grid: Seq::new(self.grid@.len(), |r: int| self.grid@[r]@),
            styles: self.styles@,
            default_colors: self.default_colors,
            cursor: self.cursor_pos,
        }
    }
}

fn make_blank_row(width: usize) -> (row: Vec<GridCell>)
    ensures
        row@ == blank_row(width as nat),
{
    let mut row: Vec<GridCell> = Vec::new();
    let mut j: usize = 0;
    while j < width
        invariant
            j <= width,
            row@.len() == j,
            forall|k: int| 0 <= k < j ==> row@[k] == None::<(char, Option<u64>)>,
        decreases width - j,
    {
        row.push(None);
        j += 1;
    }
    assert(row@ =~= blank_row(width as nat));
    row
}

fn make_blank_grid(width: usize, height: usize) -> (grid: Vec<Vec<GridCell>>)
    ensures
        grid@.len() == height,
        forall|r: int| 0 <= r < height ==> (#[trigger] grid@[r])@ == blank_row(width as nat),
{
    let mut grid: Vec<Vec<GridCell>> = Vec::new();
    let mut r: usize = 0;
    while r < height
        invariant
            r <= height,
            grid@.len() == r,
            forall|k: int| 0 <= k < r ==> (#[trigger] grid@[k])@ == blank_row(width as nat),
        decreases height - r,
    {
        grid.push(make_blank_row(width));
        r += 1;
    }
    grid
}

impl Editor {
    /// The store's invariant: the grid has `height` rows of `width` columns.
    pub closed spec fn wf(&self) -> bool {
        &&& self.grid@.len() == self.height
        &&& forall|r: int| 0 <= r < self.height ==> (#[trigger] self.grid@[r])@.len() == self.width
    }

    /// A well-formed store has a well-formed state.
    pub proof fn lemma_wf_state(&self)
        requires
            self.wf(),
        ensures
            self@.well_formed(),
    {
    }

    /// A store with a blank grid of the given size.
    pub fn new(width: usize, height: usize) -> (editor: Editor)
        ensures
            editor.wf(),
            editor@ == EditorState::initial(width as nat, height as nat),
    {
        broadcast use vstd::std_specs::hash::group_hash_axioms;

        let editor = Editor {
            width,
            height,
            grid: make_blank_grid(width, height),
            styles: HashMap::new(),
            default_colors: Colors { foreground: None, background: None, special: None },
            cursor_pos: (0, 0),
        };
        assert(editor@.grid =~= EditorState::initial(width as nat, height as nat).grid);
        editor
    }

    pub fn width(&self) -> (width: usize)
        ensures
            width == self@.width,
    {
        self.width
    }

    pub fn height(&self) -> (height: usize)
        ensures
            height == self@.height,
    {
        self.height
    }

    /// The cursor position as (column, row).
    pub fn cursor_position(&self) -> (position: (u64, u64))
        ensures
            position == self@.cursor,
    {
        self.cursor_pos
    }

    pub fn default_colors(&self) -> (colors: Colors)
        ensures
            colors == self@.default_colors,
    {
        self.default_colors
    }

    /// The style registered under `id`, if any.
    pub fn style(&self, id: u64) -> (style: Option<Style>)
        ensures
            style == (if self@.styles.contains_key(id) {
                Some(self@.styles[id])
            } else {
                None
            }),
    {
        broadcast use vstd::std_specs::hash::group_hash_axioms;

        match self.styles.get(&id) {
            Some(style) => Some(*style),
            None => None,
        }
    }

    /// The colours for text drawn with highlight id `style_id`.
    pub fn resolved_colors(&self, style_id: Option<u64>) -> (colors: Colors)
        ensures
            colors == self@.resolved_colors(style_id),
    {
        match style_id {
            Some(id) => match self.style(id) {
                Some(style) => style.colors.or(&self.default_colors),
                None => self.default_colors,
            },
            None => self.default_colors,
        }
    }

    /// What the grid holds at (`col`, `row`); nothing outside the grid.
    pub fn cell_at(&self, col: u64, row: u64) -> (cell: GridCell)
        requires
            self.wf(),
        ensures
            cell == self@.cell_at(col, row),
    {
        if row < self.height as u64 && col < self.width as u64 {
            self.grid[row as usize][col as usize]
        } else {
            None
        }
    }

    /// The character to show at (`col`, `row`): a space where the grid holds
    /// nothing there.
    pub fn character_at(&self, col: u64, row: u64) -> (character: char)
        requires
            self.wf(),
        ensures
            character == (match self@.cell_at(col, row) {
                Some((shown, _)) => shown,
                None => ' ',
            }),
    {
        match self.cell_at(col, row) {
            Some((shown, _)) => shown,
            None => ' ',
        }
    }

    /// The character to paint over a cursor of the given shape: a block
    /// cursor covers its cell and shows the cell's character again, the
    /// other shapes leave the cell's own text visible.
    pub fn cursor_character(&self, shape: CursorShape) -> (character: Option<char>)
        requires
            self.wf(),
        ensures
            character == (match shape {
                CursorShape::Block => Some(
                    match self@.cell_at(self@.cursor.0, self@.cursor.1) {
                        Some((shown, _)) => shown,
                        None => ' ',
                    },
                ),
                _ => None,
            }),
    {
        match shape {
            CursorShape::Block => Some(self.character_at(self.cursor_pos.0, self.cursor_pos.1)),
            _ => None,
        }
    }

    /// Writes the run into the grid, one character per column. A run that
    /// does not lie inside the grid is refused and nothing changes.
    pub fn draw(&mut self, cell: &GridLineCell) -> (result: Result<(), GridError>)
        requires
            old(self).wf(),
        ensures
            final(self).wf(),
            old(self)@.admits(cell@) ==> result is Ok && final(self)@ == old(self)@.draw(cell@),
            !old(self)@.admits(cell@) ==> result == Err::<(), GridError>(GridError::OutOfRange)
                && final(self)@ == old(self)@,
    {
        let length: usize = cell.text.as_str().unicode_len();
        if cell.row >= self.height as u64 || cell.col_start > self.width as u64 {
            return Err(GridError::OutOfRange);
        }
        let row: usize = cell.row as usize;
        let col: usize = cell.col_start as usize;
        if length > self.width - col {
            return Err(GridError::OutOfRange);
        }
        let mut line: Vec<GridCell> = Vec::new();
        let mut j: usize = 0;
        while j < self.width
            invariant
                self.wf(),
                *self == *old(self),
                row < self.height,
                col + length <= self.width,
                length == cell.text@.len(),
                j <= self.width,
                line@.len() == j,
                forall|k: int|
                    0 <= k < j ==> line@[k] == drawn_row(
                        self.grid@[row as int]@,
                        col as int,
                        cell.text@,
                        cell.style_id,
                    )[k],
            decreases self.width - j,
        {
            if col <= j && j - col < length {
                line.push(Some((cell.text.as_str().get_char(j - col), cell.style_id)));
            } else {
                line.push(self.grid[row][j]);
            }
            j += 1;
        }
        assert(line@ =~= drawn_row(
            self.grid@[row as int]@,
            col as int,
            cell.text@,
            cell.style_id,
        ));
        self.grid.set(row, line);
        assert(self@.grid =~= old(self)@.draw(cell@).grid);
        Ok(())
    }

    /// Blanks the whole grid.
    pub fn clear(&mut self)
        requires
            old(self).wf(),
        ensures
            final(self).wf(),
            final(self)@ == old(self)@.clear(),
    {
        self.grid = make_blank_grid(self.width, self.height);
        assert(self@.grid =~= old(self)@.clear().grid);
    }

    /// Moves the cursor to (`col`, `row`).
    pub fn jump_cursor_to(&mut self, col: u64, row: u64)
        ensures
            final(self).wf() == old(self).wf(),
            final(self)@ == old(self)@.jump_cursor_to(col, row),
    {
        self.cursor_pos = (col, row);
    }

    /// Installs the colours used wherever a style leaves a channel unset.
    pub fn set_default_colors(&mut self, foreground: Color, background: Color, special: Color)
        ensures
            final(self).wf() == old(self).wf(),
            final(self)@ == old(self)@.set_default_colors(
                Colors {
                    foreground: Some(foreground),
                    background: Some(background),
                    special: Some(special),
                },
            ),
    {
        self.default_colors =
        Colors {
            foreground: Some(foreground),
            background: Some(background),
            special: Some(special),
        };
    }

    /// Registers `style` under `id`, replacing any style registered there.
    pub fn define_style(&mut self, id: u64, style: Style)
        ensures
            final(self).wf() == old(self).wf(),
            final(self)@ == old(self)@.define_style(id, style),
    {
        broadcast use vstd::std_specs::hash::group_hash_axioms;

        self.styles.insert(id, style);
    }
}

} // verus!
