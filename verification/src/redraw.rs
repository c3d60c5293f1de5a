//! The redraw command decoder: validates each redraw event and applies it to
//! the grid state store.

use crate::color::{unpack_color, unpacked};
use crate::editor::{CellRun, Colors, Editor, EditorState, GridError, GridLineCell, Style};
use crate::value::{text_is, Value};
use vstd::prelude::*;

verus! {

/// What became of one redraw call.
#[derive(Clone, Copy, Debug, PartialEq, Eq, Structural)]
pub enum Outcome {
    /// The call was decoded and the store changed accordingly.
    Applied,
    /// A known call that is deliberately not acted on.
    Ignored,
    /// A call whose name the decoder does not know.
    Unhandled,
    /// The call's arguments do not have the expected shape. Only a
    /// `grid_line` may have changed the store before that was found.
    Malformed,
    /// The call addresses a position outside the grid: store and editor
    /// disagree about the grid, and decoding stops here.
    OutOfRange,
}

/// The default colours that the arguments of `default_colors_set` carry:
/// five integers, of which the first three are packed colours.
pub open spec fn default_colors_of(args: Seq<Value>) -> Option<Colors> {
    if args.len() == 5 && args[0].spec_as_u64() is Some && args[1].spec_as_u64() is Some
        && args[2].spec_as_u64() is Some && args[3] is Integer && args[4] is Integer {
        Some(
            Colors {
                foreground: Some(unpacked(args[0].spec_as_u64().unwrap())),
                background: Some(unpacked(args[1].spec_as_u64().unwrap())),
                special: Some(unpacked(args[2].spec_as_u64().unwrap())),
            },
        )
    } else {
        None
    }
}

/// What `default_colors_set` does to the store.
pub open spec fn default_colors_effect(state: EditorState, args: Seq<Value>) -> (EditorState, Outcome) {
    match default_colors_of(args) {
        Some(colors) => (state.set_default_colors(colors), Outcome::Applied),
        None => (state, Outcome::Malformed),
    }
}

/// Applies `default_colors_set`: installs the three decoded colours, or
/// leaves the store untouched where the arguments are malformed.
pub fn handle_default_colors(default_colors_arguments: &Vec<Value>, editor: &mut Editor) -> (outcome:
    Outcome)
    ensures
        final(editor).wf() == old(editor).wf(),
        (final(editor)@, outcome) == default_colors_effect(old(editor)@, default_colors_arguments@),
{
    let args = default_colors_arguments;
    if args.len() != 5 {
        return Outcome::Malformed;
    }
    match (args[0].as_u64(), args[1].as_u64(), args[2].as_u64(), &args[3], &args[4]) {
        (
            Some(foreground),
            Some(background),
            Some(special),
            Value::Integer(_),
            Value::Integer(_),
        ) => {
            editor.set_default_colors(
                unpack_color(foreground),
                unpack_color(background),
                unpack_color(special),
            );
            Outcome::Applied
        },
        _ => Outcome::Malformed,
    }
}

/// The cursor position, as (column, row), that the arguments of
/// `grid_cursor_goto` carry: a grid id, a row and a column.
pub open spec fn cursor_goto_of(args: Seq<Value>) -> Option<(u64, u64)> {
    if args.len() == 3 && args[0] is Integer && args[1].spec_as_u64() is Some
        && args[2].spec_as_u64() is Some {
        Some((args[2].spec_as_u64().unwrap(), args[1].spec_as_u64().unwrap()))
    } else {
        None
    }
}

/// What `grid_cursor_goto` does to the store.
pub open spec fn cursor_goto_effect(state: EditorState, args: Seq<Value>) -> (EditorState, Outcome) {
    match cursor_goto_of(args) {
        Some((col, row)) => (state.jump_cursor_to(col, row), Outcome::Applied),
        None => (state, Outcome::Malformed),
    }
}

/// Applies `grid_cursor_goto`: the cursor position is overwritten.
pub fn handle_cursor_goto(cursor_goto_arguments: &Vec<Value>, editor: &mut Editor) -> (outcome:
    Outcome)
    ensures
        final(editor).wf() == old(editor).wf(),
        (final(editor)@, outcome) == cursor_goto_effect(old(editor)@, cursor_goto_arguments@),
{
    let args = cursor_goto_arguments;
    if args.len() != 3 {
        return Outcome::Malformed;
    }
    match (&args[0], args[1].as_u64(), args[2].as_u64()) {
        (Value::Integer(_), Some(row), Some(column)) => {
            editor.jump_cursor_to(column, row);
            Outcome::Applied
        },
        _ => Outcome::Malformed,
    }
}

/// Applies `grid_clear`: every grid position becomes blank, whatever the
/// arguments are.
pub fn handle_clear(_clear_arguments: &Vec<Value>, editor: &mut Editor) -> (outcome: Outcome)
    requires
        old(editor).wf(),
    ensures
        final(editor).wf(),
        final(editor)@ == old(editor)@.clear(),
        outcome == Outcome::Applied,
{
    editor.clear();
    Outcome::Applied
}

/// `colors` after one attribute of a style definition: the three recognised
/// names set their channel from a packed colour, anything else changes nothing.
pub open spec fn with_attribute(colors: Colors, name: Value, value: Value) -> Colors {
    match (name, value.spec_as_u64()) {
        (Value::Text(key), Some(packed)) => if key@ == "foreground"@ {
            Colors { foreground: Some(unpacked(packed)), ..colors }
        } else if key@ == "background"@ {
            Colors { background: Some(unpacked(packed)), ..colors }
        } else if key@ == "special"@ {
            Colors { special: Some(unpacked(packed)), ..colors }
        } else {
            colors
        },
        _ => colors,
    }
}

/// The colours that a map of attributes defines, starting from no channel
/// set and taking the attributes in order.
pub open spec fn colors_of_attributes(attributes: Seq<(Value, Value)>) -> Colors
    decreases attributes.len(),
{
    if attributes.len() == 0 {
        Colors::unset()
    } else {
        with_attribute(
            colors_of_attributes(attributes.drop_last()),
            attributes.last().0,
            attributes.last().1,
        )
    }
}

/// The id and style that the arguments of `hl_attr_define` carry: an id, a
/// map of attributes, a map of terminal attributes and an array.
pub open spec fn style_definition_of(args: Seq<Value>) -> Option<(u64, Style)> {
    if args.len() == 4 && args[0].spec_as_u64() is Some && args[2] is Table && args[3] is Array {
        match args[1] {
            Value::Table(attributes) => Some(
                (
                    args[0].spec_as_u64().unwrap(),
                    Style { colors: colors_of_attributes(attributes@) },
                ),
            ),
            _ => None,
        }
    } else {
        None
    }
}

/// What `hl_attr_define` does to the store.
pub open spec fn hl_attr_define_effect(state: EditorState, args: Seq<Value>) -> (EditorState, Outcome) {
    match style_definition_of(args) {
        Some((id, style)) => (state.define_style(id, style), Outcome::Applied),
        None => (state, Outcome::Malformed),
    }
}

fn apply_attribute(colors: Colors, name: &Value, value: &Value) -> (updated: Colors)
    ensures
        updated == with_attribute(colors, *name, *value),
{
    match (name, value.as_u64()) {
        (Value::Text(key), Some(packed)) => {
            if text_is(key.as_str(), "foreground") {
                Colors { foreground: Some(unpack_color(packed)), ..colors }
            } else if text_is(key.as_str(), "background") {
                Colors { background: Some(unpack_color(packed)), ..colors }
            } else if text_is(key.as_str(), "special") {
                Colors { special: Some(unpack_color(packed)), ..colors }
            } else {
                colors
            }
        },
        _ => colors,
    }
}

/// Builds the colours of a style from its attribute map.
pub fn decode_attributes(attributes: &Vec<(Value, Value)>) -> (colors: Colors)
    ensures
        colors == colors_of_attributes(attributes@),
{
    let mut colors = Colors { foreground: None, background: None, special: None };
    let mut i: usize = 0;
    while i < attributes.len()
        invariant
            i <= attributes@.len(),
            colors == colors_of_attributes(attributes@.take(i as int)),
        decreases attributes@.len() - i,
    {
        assert(attributes@.take(i + 1).drop_last() =~= attributes@.take(i as int));
        colors = apply_attribute(colors, &attributes[i].0, &attributes[i].1);
        i += 1;
    }
    assert(attributes@.take(i as int) =~= attributes@);
    colors
}

/// Applies `hl_attr_define`: the style built from the attributes alone is
/// registered under the id, in place of any earlier style of that id.
pub fn handle_hl_attr_define(hl_attr_define_arguments: &Vec<Value>, editor: &mut Editor) -> (outcome:
    Outcome)
    ensures
        final(editor).wf() == old(editor).wf(),
        (final(editor)@, outcome) == hl_attr_define_effect(old(editor)@, hl_attr_define_arguments@),
{
    let args = hl_attr_define_arguments;
    if args.len() != 4 {
        return Outcome::Malformed;
    }
    match (args[0].as_u64(), &args[1], &args[2], &args[3]) {
        (Some(id), Value::Table(attributes), Value::Table(_), Value::Array(_)) => {
            let style = Style::new(decode_attributes(attributes));
            editor.define_style(id, style);
            Outcome::Applied
        },
        _ => Outcome::Malformed,
    }
}

/// `text` written `count` times in a row.
pub open spec fn repeated(text: Seq<char>, count: nat) -> Seq<char>
    decreases count,
{
    if count == 0 {
        Seq::empty()
    } else {
        repeated(text, (count - 1) as nat) + text
    }
}

/// Repeating a text multiplies its character count.
pub proof fn lemma_repeated_len(text: Seq<char>, count: nat)
    ensures
        repeated(text, count).len() == count * text.len(),
    decreases count,
{
    if count > 0 {
        lemma_repeated_len(text, (count - 1) as nat);
        assert(count * text.len() == (count - 1) * text.len() + text.len()) by (nonlinear_arith);
    } else {
        assert(count * text.len() == 0) by (nonlinear_arith)
            requires
                count == 0,
        ;
    }
}

/// The text of a `grid_line` cell: its first entry, which must be a string.
pub open spec fn cell_text(cell: Seq<Value>) -> Option<Seq<char>> {
    if cell.len() > 0 {
        match cell[0] {
            Value::Text(text) => Some(text@),
            _ => None,
        }
    } else {
        None
    }
}

/// The highlight id that a cell names itself: its second entry, where that
/// is a non-negative integer.
pub open spec fn cell_style(cell: Seq<Value>) -> Option<u64> {
    if cell.len() > 1 {
        cell[1].spec_as_u64()
    } else {
        None
    }
}

/// How often a cell's text is repeated: its third entry where that is a
/// non-negative integer, else once.
pub open spec fn cell_repeat(cell: Seq<Value>) -> u64 {
    if cell.len() > 2 {
        match cell[2].spec_as_u64() {
            Some(count) => count,
            None => 1,
        }
    } else {
        1
    }
}

/// How far the decoding of a line's cells got.
#[derive(Clone, Copy, Debug, PartialEq, Eq, Structural)]
pub enum LineStatus {
    /// Every cell was decoded, or skipped for not being an array.
    Complete,
    /// Decoding stopped at a cell without a text.
    MalformedCell,
    /// Decoding stopped at a cell that ends beyond the last column a `u64` can number.
    ColumnOverflow,
}

/// The decoded cells of a line event, as mathematics.
pub struct LineProgress {
    /// The runs of text to draw, left to right.
    pub runs: Seq<CellRun>,
    /// The column after the last run.
    pub end_col: u64,
    /// The highlight id in force after the last run.
    pub style_id: Option<u64>,
    pub status: LineStatus,
}

/// The progress after one more cell. A cell that is not an array is skipped.
/// A cell without an id of its own takes the id in force, which is the last
/// one that a cell of the same line named.
pub open spec fn line_step(progress: LineProgress, grid_id: u64, row: u64, cell: Value) -> LineProgress {
    if progress.status != LineStatus::Complete {
        progress
    } else {
        match cell {
            Value::Array(entries) => match cell_text(entries@) {
                None => LineProgress { status: LineStatus::MalformedCell, ..progress },
                Some(text) => {
                    let expanded = repeated(text, cell_repeat(entries@) as nat);
                    let style_id = match cell_style(entries@) {
                        Some(id) => Some(id),
                        None => progress.style_id,
                    };
                    if progress.end_col + expanded.len() > u64::MAX {
                        LineProgress { status: LineStatus::ColumnOverflow, ..progress }
                    } else {
                        LineProgress {
                            runs: progress.runs.push(
                                CellRun {
                                    grid_id,
                                    text: expanded,
                                    row,
                                    col_start: progress.end_col,
                                    style_id,
                                },
                            ),
                            end_col: (progress.end_col + expanded.len()) as u64,
                            style_id,
                            status: LineStatus::Complete,
                        }
                    }
                },
            },
            _ => progress,
        }
    }
}

/// The progress after all of `cells`, taken left to right from `col_start`.
pub open spec fn line_progress(cells: Seq<Value>, grid_id: u64, row: u64, col_start: u64) -> LineProgress
    decreases cells.len(),
{
    if cells.len() == 0 {
        LineProgress {
            runs: Seq::empty(),
            end_col: col_start,
            style_id: None,
            status: LineStatus::Complete,
        }
    } else {
        line_step(line_progress(cells.drop_last(), grid_id, row, col_start), grid_id, row, cells.last())
    }
}

/// The decoded content of the arguments of `grid_line`: a grid id, a row, a
/// start column and an array of cells.
pub open spec fn grid_line_of(args: Seq<Value>) -> Option<LineProgress> {
    if args.len() == 4 && args[0].spec_as_u64() is Some && args[1].spec_as_u64() is Some
        && args[2].spec_as_u64() is Some {
        match args[3] {
            Value::Array(cells) => Some(
                line_progress(
                    cells@,
                    args[0].spec_as_u64().unwrap(),
                    args[1].spec_as_u64().unwrap(),
                    args[2].spec_as_u64().unwrap(),
                ),
            ),
            _ => None,
        }
    } else {
        None
    }
}

/// The number of characters in all of `runs`.
pub open spec fn total_chars(runs: Seq<CellRun>) -> nat
    decreases runs.len(),
{
    if runs.len() == 0 {
        0
    } else {
        total_chars(runs.drop_last()) + runs.last().text.len()
    }
}

/// The column pointer of a line ends exactly as many columns after its start
/// as the decoded runs have characters; every run lies in the line's row and
/// starts where the runs before it end.
pub proof fn lemma_line_advance(cells: Seq<Value>, grid_id: u64, row: u64, col_start: u64)
    ensures
        ({
            let progress = line_progress(cells, grid_id, row, col_start);
            &&& progress.end_col == col_start + total_chars(progress.runs)
            &&& forall|i: int|
                0 <= i < progress.runs.len() ==> {
                    &&& (#[trigger] progress.runs[i]).row == row
                    &&& progress.runs[i].grid_id == grid_id
                    &&& progress.runs[i].col_start == col_start + total_chars(
                        progress.runs.take(i),
                    )
                }
        }),
    decreases cells.len(),
{
    let progress = line_progress(cells, grid_id, row, col_start);
    if cells.len() > 0 {
        let before = line_progress(cells.drop_last(), grid_id, row, col_start);
        lemma_line_advance(cells.drop_last(), grid_id, row, col_start);
        assert(progress == line_step(before, grid_id, row, cells.last()));
        if progress.runs.len() == before.runs.len() + 1 {
            assert(progress.runs.drop_last() =~= before.runs);
            assert forall|i: int| 0 <= i < progress.runs.len() implies {
                &&& (#[trigger] progress.runs[i]).row == row
                &&& progress.runs[i].grid_id == grid_id
                &&& progress.runs[i].col_start == col_start + total_chars(progress.runs.take(i))
            } by {
                if i < before.runs.len() {
                    assert(progress.runs[i] == before.runs[i]);
                    assert(progress.runs.take(i) =~= before.runs.take(i));
                } else {
                    assert(progress.runs.take(i) =~= before.runs);
                }
            }
        } else {
            assert(progress.runs == before.runs);
        }
    }
}

/// The runs that a list of cells stands for.
pub open spec fn runs_of(cells: Seq<GridLineCell>) -> Seq<CellRun> {
    Seq::new(cells.len(), |i: int| cells[i]@)
}

/// The decoded cells of one `grid_line` event.
#[derive(Debug)]
pub struct GridLine {
    /// The runs of text to draw, left to right.
    pub cells: Vec<GridLineCell>,
    /// The column after the last run.
    pub end_col: u64,
    /// The highlight id in force after the last run.
    pub style_id: Option<u64>,
    pub status: LineStatus,
}

impl View for GridLine {
    type V = LineProgress;

    open spec fn view(&self) -> LineProgress {
        LineProgress {
            runs: runs_of(self.cells@),
            end_col: self.end_col,
            style_id: self.style_id,
            status: self.status,
        }
    }
}

/// Writes `text` out `count` times.
pub fn expand_text(text: &str, count: u64) -> (expanded: String)
    ensures
        expanded@ == repeated(text@, count as nat),
{
    let mut expanded = String::new();
    if text.unicode_len() == 0 {
        proof {
            lemma_repeated_len(text@, count as nat);
            assert(0 * count == 0 && count * 0 == 0) by (nonlinear_arith);
            assert(repeated(text@, count as nat) =~= Seq::<char>::empty());
        }
        return expanded;
    }
    let mut done: u64 = 0;
    while done < count
        invariant
            done <= count,
            expanded@ == repeated(text@, done as nat),
        decreases count - done,
    {
        expanded.append(text);
        done += 1;
    }
    expanded
}

/// Decodes one more cell into `line`.
fn decode_cell(line: &mut GridLine, grid_id: u64, row: u64, cell: &Value)
    ensures
        final(line)@ == line_step(old(line)@, grid_id, row, *cell),
{
    if line.status != LineStatus::Complete {
        return ;
    }
    if let Value::Array(entries) = cell {
        if entries.len() == 0 {
            line.status = LineStatus::MalformedCell;
            assert(line@.runs =~= old(line)@.runs);
            return ;
        }
        if let Value::Text(text) = &entries[0] {
            let count: u64 = if entries.len() > 2 {
                match entries[2].as_u64() {
                    Some(count) => count,
                    None => 1,
                }
            } else {
                1
            };
            let named: Option<u64> = if entries.len() > 1 {
                entries[1].as_u64()
            } else {
                None
            };
            let style_id = match named {
                Some(id) => Some(id),
                None => line.style_id,
            };
            let expanded = expand_text(text.as_str(), count);
            let length: usize = expanded.as_str().unicode_len();
            match line.end_col.checked_add(length as u64) {
                Some(end_col) => {
                    line.cells.push(GridLineCell::new(grid_id, expanded, row, line.end_col, style_id));
                    line.end_col = end_col;
                    line.style_id = style_id;
                    assert(line@.runs =~= line_step(old(line)@, grid_id, row, *cell).runs);
                },
                None => {
                    line.status = LineStatus::ColumnOverflow;
                    assert(line@.runs =~= old(line)@.runs);
                },
            }
        } else {
            line.status = LineStatus::MalformedCell;
            assert(line@.runs =~= old(line)@.runs);
        }
    }
}

/// Decodes the arguments of `grid_line` into the runs of text it draws.
/// `None` where the arguments as a whole are malformed.
pub fn decode_grid_line(grid_line_arguments: &Vec<Value>) -> (line: Option<GridLine>)
    ensures
        match grid_line_of(grid_line_arguments@) {
            Some(progress) => line is Some && line.unwrap()@ == progress,
            None => line is None,
        },
        line matches Some(decoded) ==> decoded.end_col == grid_line_arguments@[2].spec_as_u64().unwrap()
            + total_chars(decoded@.runs),
{
    let args = grid_line_arguments;
    if args.len() != 4 {
        return None;
    }
    match (args[0].as_u64(), args[1].as_u64(), args[2].as_u64(), &args[3]) {
        (Some(grid_id), Some(row), Some(col_start), Value::Array(cells)) => {
            let mut line = GridLine {
                cells: Vec::new(),
                end_col: col_start,
                style_id: None,
                status: LineStatus::Complete,
            };
            assert(line@.runs =~= Seq::empty());
            assert(cells@.take(0).len() == 0);
            let mut i: usize = 0;
            while i < cells.len()
                invariant
                    i <= cells@.len(),
                    line@ == line_progress(cells@.take(i as int), grid_id, row, col_start),
                decreases cells@.len() - i,
            {
                assert(cells@.take(i + 1).drop_last() =~= cells@.take(i as int));
                decode_cell(&mut line, grid_id, row, &cells[i]);
                i += 1;
            }
            assert(cells@.take(i as int) =~= cells@);
            proof {
                lemma_line_advance(cells@, grid_id, row, col_start);
            }
            Some(line)
        },
        _ => None,
    }
}

/// The state after drawing `runs` in order, and whether all of them were
/// drawn. Drawing stops before the first run that does not lie in the grid.
pub open spec fn draw_runs(state: EditorState, runs: Seq<CellRun>) -> (EditorState, bool)
    decreases runs.len(),
{
    if runs.len() == 0 {
        (state, true)
    } else {
        let (drawn, complete) = draw_runs(state, runs.drop_last());
        if complete && drawn.admits(runs.last()) {
            (drawn.draw(runs.last()), true)
        } else {
            (drawn, false)
        }
    }
}

/// Draws the cells in order, up to the first that does not lie in the grid.
pub fn draw_cells(cells: &Vec<GridLineCell>, editor: &mut Editor) -> (result: Result<(), GridError>)
    requires
        old(editor).wf(),
    ensures
        final(editor).wf(),
        final(editor)@ == draw_runs(old(editor)@, runs_of(cells@)).0,
        result is Ok == draw_runs(old(editor)@, runs_of(cells@)).1,
        result is Err ==> result == Err::<(), GridError>(GridError::OutOfRange),
{
    let mut result: Result<(), GridError> = Ok(());
    let mut i: usize = 0;
    assert(runs_of(cells@).take(0).len() == 0);
    while i < cells.len()
        invariant
            i <= cells@.len(),
            editor.wf(),
            (editor@, result is Ok) == draw_runs(old(editor)@, runs_of(cells@).take(i as int)),
            result is Err ==> result == Err::<(), GridError>(GridError::OutOfRange),
        decreases cells@.len() - i,
    {
        assert(runs_of(cells@).take(i + 1).drop_last() =~= runs_of(cells@).take(i as int));
        assert(runs_of(cells@).take(i + 1).last() == cells@[i as int]@);
        if result.is_ok() {
            result = editor.draw(&cells[i]);
        }
        i += 1;
    }
    assert(runs_of(cells@).take(i as int) =~= runs_of(cells@));
    result
}

/// What `grid_line` does to the store: the decoded runs are drawn in order.
/// A run outside the grid ends the call; so does a cell without text, after
/// the cells before it were drawn.
pub open spec fn grid_line_effect(state: EditorState, args: Seq<Value>) -> (EditorState, Outcome) {
    match grid_line_of(args) {
        None => (state, Outcome::Malformed),
        Some(progress) => {
            let (drawn, complete) = draw_runs(state, progress.runs);
            (
                drawn,
                if !complete {
                    Outcome::OutOfRange
                } else {
                    match progress.status {
                        LineStatus::Complete => Outcome::Applied,
                        LineStatus::MalformedCell => Outcome::Malformed,
                        LineStatus::ColumnOverflow => Outcome::OutOfRange,
                    }
                },
            )
        },
    }
}

/// Applies `grid_line`: decodes the cells and draws them into the grid.
pub fn handle_grid_line(grid_line_arguments: &Vec<Value>, editor: &mut Editor) -> (outcome: Outcome)
    requires
        old(editor).wf(),
    ensures
        final(editor).wf(),
        (final(editor)@, outcome) == grid_line_effect(old(editor)@, grid_line_arguments@),
{
    match decode_grid_line(grid_line_arguments) {
        None => Outcome::Malformed,
        Some(line) => {
            match draw_cells(&line.cells, editor) {
                Err(_) => Outcome::OutOfRange,
                Ok(_) => match line.status {
                    LineStatus::Complete => Outcome::Applied,
                    LineStatus::MalformedCell => Outcome::Malformed,
                    LineStatus::ColumnOverflow => Outcome::OutOfRange,
                },
            }
        },
    }
}

/// What the redraw call `name` with arguments `args` does to the store.
pub open spec fn redraw_effect(state: EditorState, name: Seq<char>, args: Seq<Value>) -> (EditorState, Outcome) {
    if name == "grid_resize"@ {
        (state, Outcome::Ignored)
    } else if name == "default_colors_set"@ {
        default_colors_effect(state, args)
    } else if name == "hl_attr_define"@ {
        hl_attr_define_effect(state, args)
    } else if name == "grid_line"@ {
        grid_line_effect(state, args)
    } else if name == "grid_clear"@ {
        (state.clear(), Outcome::Applied)
    } else if name == "grid_cursor_goto"@ {
        cursor_goto_effect(state, args)
    } else if name == "hl_group_set"@ {
        (state, Outcome::Ignored)
    } else {
        (state, Outcome::Unhandled)
    }
}

/// Applies one redraw call by its name.
pub fn handle_redraw_call(name: &str, arguments: &Vec<Value>, editor: &mut Editor) -> (outcome: Outcome)
    requires
        old(editor).wf(),
    ensures
        final(editor).wf(),
        (final(editor)@, outcome) == redraw_effect(old(editor)@, name@, arguments@),
{
    if text_is(name, "grid_resize") {
        Outcome::Ignored
    } else if text_is(name, "default_colors_set") {
        handle_default_colors(arguments, editor)
    } else if text_is(name, "hl_attr_define") {
        handle_hl_attr_define(arguments, editor)
    } else if text_is(name, "grid_line") {
        handle_grid_line(arguments, editor)
    } else if text_is(name, "grid_clear") {
        handle_clear(arguments, editor)
    } else if text_is(name, "grid_cursor_goto") {
        handle_cursor_goto(arguments, editor)
    } else if text_is(name, "hl_group_set") {
        Outcome::Ignored
    } else {
        Outcome::Unhandled
    }
}

/// What one call of an event does: the name must be a string and the call
/// an array of arguments.
pub open spec fn call_effect(state: EditorState, name: Value, call: Value) -> (EditorState, Outcome) {
    match (name, call) {
        (Value::Text(word), Value::Array(args)) => redraw_effect(state, word@, args@),
        _ => (state, Outcome::Malformed),
    }
}

/// Whether decoding has stopped: the last outcome is `OutOfRange`.
pub open spec fn stopped(outcomes: Seq<Outcome>) -> bool {
    outcomes.len() > 0 && outcomes.last() == Outcome::OutOfRange
}

/// What the calls of one event do, in order, with the outcome of each call
/// that was reached.
pub open spec fn calls_effect(state: EditorState, name: Value, calls: Seq<Value>) -> (
    EditorState,
    Seq<Outcome>,
)
    decreases calls.len(),
{
    if calls.len() == 0 {
        (state, Seq::empty())
    } else {
        let (before, outcomes) = calls_effect(state, name, calls.drop_last());
        if stopped(outcomes) {
            (before, outcomes)
        } else {
            let (after, outcome) = call_effect(before, name, calls.last());
            (after, outcomes.push(outcome))
        }
    }
}

/// What one redraw event does: an array of a name and any number of calls.
/// Anything else is a single malformed call.
pub open spec fn event_effect(state: EditorState, event: Value) -> (EditorState, Seq<Outcome>) {
    match event {
        Value::Array(contents) => if contents@.len() > 0 {
            calls_effect(state, contents@[0], contents@.skip(1))
        } else {
            (state, seq![Outcome::Malformed])
        },
        _ => (state, seq![Outcome::Malformed]),
    }
}

fn handle_call(name: &Value, call: &Value, editor: &mut Editor) -> (outcome: Outcome)
    requires
        old(editor).wf(),
    ensures
        final(editor).wf(),
        (final(editor)@, outcome) == call_effect(old(editor)@, *name, *call),
{
    match (name, call) {
        (Value::Text(word), Value::Array(arguments)) => handle_redraw_call(
            word.as_str(),
            arguments,
            editor,
        ),
        _ => Outcome::Malformed,
    }
}

/// Applies one redraw event, call by call, and reports the outcome of each
/// call reached. No call is reached after one that was out of range.
pub fn handle_redraw_event(event_value: &Value, editor: &mut Editor) -> (outcomes: Vec<Outcome>)
    requires
        old(editor).wf(),
    ensures
        final(editor).wf(),
        (final(editor)@, outcomes@) == event_effect(old(editor)@, *event_value),
{
    let mut outcomes: Vec<Outcome> = Vec::new();
    match event_value {
        Value::Array(contents) => {
            if contents.len() == 0 {
                outcomes.push(Outcome::Malformed);
                assert(outcomes@ =~= seq![Outcome::Malformed]);
                return outcomes;
            }
            let ghost calls = contents@.skip(1);
            assert(calls.take(0).len() == 0);
            let mut halted = false;
            let mut i: usize = 1;
            while i < contents.len()
                invariant
                    1 <= i <= contents@.len(),
                    calls == contents@.skip(1),
                    editor.wf(),
                    (editor@, outcomes@) == calls_effect(
                        old(editor)@,
                        contents@[0],
                        calls.take(i - 1),
                    ),
                    halted == stopped(outcomes@),
                decreases contents@.len() - i,
            {
                assert(calls.take(i as int).drop_last() =~= calls.take(i - 1));
                assert(calls.take(i as int).last() == contents@[i as int]);
                if !halted {
                    let outcome = handle_call(&contents[0], &contents[i], editor);
                    outcomes.push(outcome);
                    halted = outcome == Outcome::OutOfRange;
                }
                i += 1;
            }
            assert(calls.take(i - 1) =~= calls);
            outcomes
        },
        _ => {
            outcomes.push(Outcome::Malformed);
            assert(outcomes@ =~= seq![Outcome::Malformed]);
            outcomes
        },
    }
}

/// What a batch of redraw events does, in order of arrival, with the
/// outcomes of all calls reached.
pub open spec fn batch_effect(state: EditorState, events: Seq<Value>) -> (EditorState, Seq<Outcome>)
    decreases events.len(),
{
    if events.len() == 0 {
        (state, Seq::empty())
    } else {
        let (before, outcomes) = batch_effect(state, events.drop_last());
        if stopped(outcomes) {
            (before, outcomes)
        } else {
            let (after, more) = event_effect(before, events.last());
            (after, outcomes + more)
        }
    }
}

/// Applies a batch of redraw events in order of arrival.
pub fn handle_redraw_batch(events: &Vec<Value>, editor: &mut Editor) -> (outcomes: Vec<Outcome>)
    requires
        old(editor).wf(),
    ensures
        final(editor).wf(),
        (final(editor)@, outcomes@) == batch_effect(old(editor)@, events@),
{
    let mut outcomes: Vec<Outcome> = Vec::new();
    let mut i: usize = 0;
    assert(events@.take(0).len() == 0);
    while i < events.len()
        invariant
            i <= events@.len(),
            editor.wf(),
            (editor@, outcomes@) == batch_effect(old(editor)@, events@.take(i as int)),
        decreases events@.len() - i,
    {
        assert(events@.take(i + 1).drop_last() =~= events@.take(i as int));
        let halted = outcomes.len() > 0 && outcomes[outcomes.len() - 1] == Outcome::OutOfRange;
        if !halted {
            let mut more = handle_redraw_event(&events[i], editor);
            outcomes.append(&mut more);
        }
        i += 1;
    }
    assert(events@.take(i as int) =~= events@);
    outcomes
}

/// Applies one notification of the editor process: a `redraw` carries a
/// batch of redraw events; any other notification is not for the decoder,
/// changes nothing and gives `None`.
pub fn handle_notification(event_name: &str, event_args: &Vec<Value>, editor: &mut Editor) -> (outcomes:
    Option<Vec<Outcome>>)
    requires
        old(editor).wf(),
    ensures
        final(editor).wf(),
        event_name@ == "redraw"@ ==> outcomes is Some && (final(editor)@, outcomes.unwrap()@)
            == batch_effect(old(editor)@, event_args@),
        event_name@ != "redraw"@ ==> outcomes is None && final(editor)@ == old(editor)@,
{
    if text_is(event_name, "redraw") {
        Some(handle_redraw_batch(event_args, editor))
    } else {
        None
    }
}

} // verus!
