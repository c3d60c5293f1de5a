//! Laws of the decoder, proved over the effect functions of `redraw`.

use crate::editor::{covers, fits, CellRun, EditorState, GridCell};
use crate::redraw::{
    batch_effect, draw_runs, event_effect, grid_line_effect, grid_line_of, hl_attr_define_effect,
    lemma_line_advance, lemma_repeated_len, line_progress, redraw_effect, repeated, stopped,
    style_definition_of, total_chars, Outcome,
};
use crate::value::Value;
use vstd::arithmetic::div_mod::lemma_fundamental_div_mod_converse;
use vstd::prelude::*;

verus! {

/// A repeated text holds the whole text over and over: its character at
/// `index` is the text's character at `index` modulo the text's length.
pub proof fn lemma_repeated_index(text: Seq<char>, count: nat, index: int)
    requires
        0 <= index < count * text.len(),
    ensures
        repeated(text, count).len() == count * text.len(),
        text.len() > 0,
        repeated(text, count)[index] == text[index % (text.len() as int)],
    decreases count,
{
    lemma_repeated_len(text, count);
    let length = text.len() as int;
    assert(length > 0 && count > 0) by (nonlinear_arith)
        requires
            0 <= index < count * length,
            length >= 0,
    ;
    let before = (count - 1) as nat;
    lemma_repeated_len(text, before);
    assert(count * length == before * length + length) by (nonlinear_arith)
        requires
            before == count - 1,
    ;
    if index < before * length {
        lemma_repeated_index(text, before, index);
    } else {
        lemma_fundamental_div_mod_converse(index, length, before as int, index - before * length);
    }
}

/// What the last of `runs` that writes to (`row`, `col`) puts there, if any does.
pub open spec fn written(runs: Seq<CellRun>, row: int, col: int) -> Option<GridCell>
    decreases runs.len(),
{
    if runs.len() == 0 {
        None
    } else if covers(runs.last(), row, col) {
        Some(Some((runs.last().text[col - runs.last().col_start], runs.last().style_id)))
    } else {
        written(runs.drop_last(), row, col)
    }
}

/// How many of `runs` are drawn into a grid of the given size: all those
/// before the first that does not fit.
pub open spec fn drawn_count(width: nat, height: nat, runs: Seq<CellRun>) -> nat
    decreases runs.len(),
{
    if runs.len() == 0 {
        0
    } else {
        let before = drawn_count(width, height, runs.drop_last());
        if before == runs.len() - 1 && fits(width, height, runs.last()) {
            before + 1
        } else {
            before
        }
    }
}

/// Drawing runs changes nothing but the grid's content, keeps the grid's
/// size, and leaves at each position what the last drawn run that covers it
/// wrote there, or what was there before.
pub proof fn lemma_draw_runs_content(state: EditorState, runs: Seq<CellRun>)
    requires
        state.well_formed(),
    ensures
        ({
            let (drawn, complete) = draw_runs(state, runs);
            let count = drawn_count(state.width, state.height, runs);
            &&& drawn.well_formed()
            &&& drawn.width == state.width
            &&& drawn.height == state.height
            &&& drawn.styles == state.styles
            &&& drawn.default_colors == state.default_colors
            &&& drawn.cursor == state.cursor
            &&& count <= runs.len()
            &&& complete == (count == runs.len())
            &&& forall|row: int, col: int|
                0 <= row < state.height && 0 <= col < state.width ==> #[trigger] drawn.grid[row][col]
                    == (match written(runs.take(count as int), row, col) {
                    Some(cell) => cell,
                    None => state.grid[row][col],
                })
        }),
    decreases runs.len(),
{
    let (drawn, complete) = draw_runs(state, runs);
    let count = drawn_count(state.width, state.height, runs);
    if runs.len() == 0 {
        assert(runs.take(0) =~= runs);
    } else {
        let front = runs.drop_last();
        let run = runs.last();
        let (before, so_far) = draw_runs(state, front);
        let count_before = drawn_count(state.width, state.height, front);
        lemma_draw_runs_content(state, front);
        if so_far && before.admits(run) {
            assert(count == runs.len());
            assert(runs.take(count as int) =~= runs);
            assert(front.take(count_before as int) =~= front);
            assert(drawn == before.draw(run));
            assert forall|row: int, col: int|
                0 <= row < state.height && 0 <= col < state.width implies #[trigger] drawn.grid[row][col]
                == (match written(runs.take(count as int), row, col) {
                Some(cell) => cell,
                None => state.grid[row][col],
            }) by {
                assert(before.grid[row].len() == state.width);
                if row != run.row {
                    assert(drawn.grid[row] == before.grid[row]);
                }
            }
            assert forall|row: int| 0 <= row < drawn.height implies (#[trigger] drawn.grid[row]).len()
                == drawn.width by {
                assert(before.grid[row].len() == state.width);
            }
        } else {
            assert(count == count_before);
            assert(runs.take(count as int) =~= front.take(count_before as int));
        }
    }
}

/// Whether the runs lie one after the other in one row, none reaching into the next.
pub open spec fn left_to_right(runs: Seq<CellRun>) -> bool {
    forall|i: int, j: int|
        0 <= i < j < runs.len() ==> (#[trigger] runs[i]).row == (#[trigger] runs[j]).row
            && runs[i].col_start + runs[i].text.len() <= runs[j].col_start
}

/// The characters of a longer prefix of runs include those of a shorter one
/// and of the run that follows it.
pub proof fn lemma_total_chars_prefix(runs: Seq<CellRun>, i: int, j: int)
    requires
        0 <= i < j <= runs.len(),
    ensures
        total_chars(runs.take(i)) + runs[i].text.len() <= total_chars(runs.take(j)),
    decreases j,
{
    assert(runs.take(j).drop_last() =~= runs.take(j - 1));
    assert(runs.take(j).last() == runs[j - 1]);
    if i < j - 1 {
        lemma_total_chars_prefix(runs, i, j - 1);
    }
}

/// The runs decoded from one line lie left to right in the line's row.
pub proof fn lemma_line_runs_left_to_right(cells: Seq<Value>, grid_id: u64, row: u64, col_start: u64)
    ensures
        left_to_right(line_progress(cells, grid_id, row, col_start).runs),
{
    let runs = line_progress(cells, grid_id, row, col_start).runs;
    lemma_line_advance(cells, grid_id, row, col_start);
    assert forall|i: int, j: int| 0 <= i < j < runs.len() implies (#[trigger] runs[i]).row == (
    #[trigger] runs[j]).row && runs[i].col_start + runs[i].text.len() <= runs[j].col_start by {
        lemma_total_chars_prefix(runs, i, j);
    }
}

/// Among runs that lie left to right, the one that covers a position is the
/// one whose character ends up there.
pub proof fn lemma_written_by_the_covering_run(runs: Seq<CellRun>, k: int, row: int, col: int)
    requires
        left_to_right(runs),
        0 <= k < runs.len(),
        covers(runs[k], row, col),
    ensures
        written(runs, row, col) == Some(
            Some((runs[k].text[col - runs[k].col_start], runs[k].style_id)),
        ),
    decreases runs.len(),
{
    if k < runs.len() - 1 {
        let front = runs.drop_last();
        assert(runs[k].col_start + runs[k].text.len() <= runs.last().col_start);
        assert(!covers(runs.last(), row, col));
        assert forall|i: int, j: int| 0 <= i < j < front.len() implies (#[trigger] front[i]).row == (
        #[trigger] front[j]).row && front[i].col_start + front[i].text.len()
            <= front[j].col_start by {
            assert(front[i] == runs[i] && front[j] == runs[j]);
        }
        lemma_written_by_the_covering_run(front, k, row, col);
    }
}

/// A position that no run covers is written by none.
pub proof fn lemma_written_by_none(runs: Seq<CellRun>, row: int, col: int)
    requires
        forall|k: int| 0 <= k < runs.len() ==> !covers(#[trigger] runs[k], row, col),
    ensures
        written(runs, row, col) == None::<GridCell>,
    decreases runs.len(),
{
    if runs.len() > 0 {
        let front = runs.drop_last();
        assert(!covers(runs[runs.len() - 1], row, col));
        assert forall|k: int| 0 <= k < front.len() implies !covers(#[trigger] front[k], row, col) by {
            assert(front[k] == runs[k]);
        }
        lemma_written_by_none(front, row, col);
    }
}

/// What the grid holds after a `grid_line` whose runs all lie in the grid:
/// each run's characters stand in consecutive columns from the run's start,
/// in the run's style, and every position that no run covers is as before.
pub proof fn lemma_grid_line_content(state: EditorState, args: Seq<Value>)
    requires
        state.well_formed(),
        grid_line_of(args) is Some,
        draw_runs(state, grid_line_of(args).unwrap().runs).1,
    ensures
        ({
            let runs = grid_line_of(args).unwrap().runs;
            let after = grid_line_effect(state, args).0;
            &&& forall|k: int, offset: int|
                0 <= k < runs.len() && 0 <= offset < runs[k].text.len() ==> {
                    &&& runs[k].row < state.height
                    &&& runs[k].col_start + offset < state.width
                    &&& after.grid[runs[k].row as int][runs[k].col_start + offset] == Some(
                        (#[trigger] runs[k].text[offset], runs[k].style_id),
                    )
                }
            &&& forall|row: int, col: int|
                0 <= row < state.height && 0 <= col < state.width && (forall|k: int|
                    0 <= k < runs.len() ==> !covers(#[trigger] runs[k], row, col))
                    ==> #[trigger] after.grid[row][col] == state.grid[row][col]
        }),
{
    let runs = grid_line_of(args).unwrap().runs;
    let after = grid_line_effect(state, args).0;
    let cells = match args[3] {
        Value::Array(cells) => cells@,
        _ => Seq::empty(),
    };
    lemma_line_runs_left_to_right(
        cells,
        args[0].spec_as_u64().unwrap(),
        args[1].spec_as_u64().unwrap(),
        args[2].spec_as_u64().unwrap(),
    );
    lemma_draw_runs_content(state, runs);
    lemma_all_drawn_fit(state, runs);
    assert(runs.take(runs.len() as int) =~= runs);
    assert forall|k: int, offset: int|
        0 <= k < runs.len() && 0 <= offset < runs[k].text.len() implies {
        &&& runs[k].row < state.height
        &&& runs[k].col_start + offset < state.width
        &&& after.grid[runs[k].row as int][runs[k].col_start + offset] == Some(
            (#[trigger] runs[k].text[offset], runs[k].style_id),
        )
    } by {
        let row = runs[k].row as int;
        let col = runs[k].col_start + offset;
        assert(fits(state.width, state.height, runs[k]));
        assert(covers(runs[k], row, col));
        lemma_written_by_the_covering_run(runs, k, row, col);
        assert(after.grid[row][col] == Some((runs[k].text[offset], runs[k].style_id)));
    }
    assert forall|row: int, col: int|
        0 <= row < state.height && 0 <= col < state.width && (forall|k: int|
            0 <= k < runs.len() ==> !covers(#[trigger] runs[k], row, col)) implies #[trigger] after.grid[row][col]
        == state.grid[row][col] by {
        lemma_written_by_none(runs, row, col);
    }
}

/// Where all runs were drawn, each of them lies in the grid.
pub proof fn lemma_all_drawn_fit(state: EditorState, runs: Seq<CellRun>)
    requires
        state.well_formed(),
        draw_runs(state, runs).1,
    ensures
        forall|k: int| 0 <= k < runs.len() ==> fits(state.width, state.height, #[trigger] runs[k]),
    decreases runs.len(),
{
    if runs.len() > 0 {
        let front = runs.drop_last();
        lemma_draw_runs_content(state, front);
        lemma_all_drawn_fit(state, front);
        assert forall|k: int| 0 <= k < runs.len() implies fits(
            state.width,
            state.height,
            #[trigger] runs[k],
        ) by {
            if k < front.len() {
                assert(front[k] == runs[k]);
            }
        }
    }
}

/// Drawing the same runs a second time changes nothing: the grid already
/// holds what they write.
pub proof fn lemma_draw_runs_twice(state: EditorState, runs: Seq<CellRun>)
    requires
        state.well_formed(),
    ensures
        draw_runs(draw_runs(state, runs).0, runs) == draw_runs(state, runs),
{
    let (once, complete) = draw_runs(state, runs);
    let (twice, complete_again) = draw_runs(once, runs);
    lemma_draw_runs_content(state, runs);
    lemma_draw_runs_content(once, runs);
    assert forall|row: int| 0 <= row < state.height implies #[trigger] twice.grid[row] =~= once.grid[row] by {
        assert(twice.grid[row].len() == state.width);
        assert(once.grid[row].len() == state.width);
        assert forall|col: int| 0 <= col < state.width implies twice.grid[row][col]
            == once.grid[row][col] by {
            assert(twice.grid[row][col] == once.grid[row][col]);
        }
    }
    assert(twice.grid =~= once.grid);
}

/// Decoding and applying the same `grid_line` arguments twice leaves the
/// store as applying them once does, with the same outcome.
pub proof fn lemma_grid_line_twice(state: EditorState, args: Seq<Value>)
    requires
        state.well_formed(),
    ensures
        grid_line_effect(grid_line_effect(state, args).0, args) == grid_line_effect(state, args),
{
    match grid_line_of(args) {
        Some(progress) => {
            lemma_draw_runs_twice(state, progress.runs);
        },
        None => {},
    }
}

/// Applying any redraw call a second time, right after the first, changes
/// nothing and has the same outcome: a call overwrites, it never adds up.
pub proof fn lemma_redraw_call_twice(state: EditorState, name: Seq<char>, args: Seq<Value>)
    requires
        state.well_formed(),
    ensures
        redraw_effect(redraw_effect(state, name, args).0, name, args) == redraw_effect(
            state,
            name,
            args,
        ),
{
    lemma_grid_line_twice(state, args);
    match style_definition_of(args) {
        Some((id, style)) => {
            assert(state.styles.insert(id, style).insert(id, style) =~= state.styles.insert(
                id,
                style,
            ));
        },
        None => {},
    }
    assert(state.clear().clear().grid =~= state.clear().grid);
}

/// A style definition replaces whatever was registered under its id: after
/// it the id's style is the one built from its own attributes, and an earlier
/// definition of the same id leaves no trace in the store.
pub proof fn lemma_style_definition_replaces(state: EditorState, earlier: Seq<Value>, later: Seq<Value>)
    requires
        style_definition_of(earlier) is Some,
        style_definition_of(later) is Some,
        style_definition_of(earlier).unwrap().0 == style_definition_of(later).unwrap().0,
    ensures
        hl_attr_define_effect(hl_attr_define_effect(state, earlier).0, later)
            == hl_attr_define_effect(state, later),
        hl_attr_define_effect(state, later).0.styles[style_definition_of(later).unwrap().0]
            == style_definition_of(later).unwrap().1,
{
    let (id, style) = style_definition_of(later).unwrap();
    let (_, old_style) = style_definition_of(earlier).unwrap();
    assert(state.styles.insert(id, old_style).insert(id, style) =~= state.styles.insert(id, style));
}

/// A batch is applied in order of arrival: a batch made of two parts does
/// what the first part does and then, unless that ended out of range, what
/// the second part does to the state the first part left.
pub proof fn lemma_batch_in_arrival_order(state: EditorState, first: Seq<Value>, second: Seq<Value>)
    ensures
        ({
            let (between, outcomes) = batch_effect(state, first);
            let (after, more) = batch_effect(between, second);
            batch_effect(state, first + second) == if stopped(outcomes) {
                (between, outcomes)
            } else {
                (after, outcomes + more)
            }
        }),
    decreases second.len(),
{
    let (between, outcomes) = batch_effect(state, first);
    if second.len() == 0 {
        assert(first + second =~= first);
        assert(outcomes + Seq::<Outcome>::empty() =~= outcomes);
    } else {
        let front = second.drop_last();
        assert((first + second).drop_last() =~= first + front);
        assert((first + second).last() == second.last());
        lemma_batch_in_arrival_order(state, first, front);
        if !stopped(outcomes) {
            let (before, so_far) = batch_effect(between, front);
            assert(stopped(outcomes + so_far) == stopped(so_far)) by {
                if so_far.len() == 0 {
                    assert(outcomes + so_far =~= outcomes);
                }
            }
            if !stopped(so_far) {
                let (after, last) = event_effect(before, second.last());
                assert((outcomes + so_far) + last =~= outcomes + (so_far + last));
            }
        }
    }
}

} // verus!
