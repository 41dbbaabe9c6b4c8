//! Instructions for the terminal.
//!
//! The editor never touches the terminal itself. It answers each event with a
//! list of instructions, and whoever owns the terminal carries them out in
//! order. Columns and rows in instructions count from 0.

use vstd::prelude::*;

verus! {

/// One instruction for the terminal.
#[derive(Debug, PartialEq, Eq)]
pub enum PaintOp {
    /// Put the cursor in the given column of its row.
    MoveToColumn(u16),
    /// Put the cursor at the start of the row that many rows down.
    MoveToNextLine(u16),
    /// Move the cursor that many rows up.
    MoveUp(u16),
    /// Move the cursor that many columns to the left.
    MoveLeft(u16),
    /// Move the cursor that many columns to the right.
    MoveRight(u16),
    /// Remember where the cursor is.
    SavePosition,
    /// Put the cursor back where it was last remembered.
    RestorePosition,
    /// Blank the row of the cursor.
    ClearCurrentLine,
    /// Blank everything from the cursor to the end of the screen.
    ClearFromCursorDown,
    /// Move what is on the screen that many rows up.
    ScrollUp(u16),
    /// Write the text at the cursor.
    Write(String),
    /// From now on write black on white.
    InvertColors,
    /// From now on write in the terminal's own colors.
    ResetColors,
}

/// What a [`PaintOp`] says, with the text as a sequence of characters.
pub enum Paint {
    MoveToColumn(u16),
    MoveToNextLine(u16),
    MoveUp(u16),
    MoveLeft(u16),
    MoveRight(u16),
    SavePosition,
    RestorePosition,
    ClearCurrentLine,
    ClearFromCursorDown,
    ScrollUp(u16),
    Write(Seq<char>),
    InvertColors,
    ResetColors,
}

impl View for PaintOp {
    type V = Paint;

    open spec fn view(&self) -> Paint {
        match self {
            PaintOp::MoveToColumn(column) => Paint::MoveToColumn(*column),
            PaintOp::MoveToNextLine(rows) => Paint::MoveToNextLine(*rows),
            PaintOp::MoveUp(rows) => Paint::MoveUp(*rows),
            PaintOp::MoveLeft(columns) => Paint::MoveLeft(*columns),
            PaintOp::MoveRight(columns) => Paint::MoveRight(*columns),
            PaintOp::SavePosition => Paint::SavePosition,
            PaintOp::RestorePosition => Paint::RestorePosition,
            PaintOp::ClearCurrentLine => Paint::ClearCurrentLine,
            PaintOp::ClearFromCursorDown => Paint::ClearFromCursorDown,
            PaintOp::ScrollUp(rows) => Paint::ScrollUp(*rows),
            PaintOp::Write(text) => Paint::Write(text@),
            PaintOp::InvertColors => Paint::InvertColors,
            PaintOp::ResetColors => Paint::ResetColors,
        }
    }
}

/// What a list of instructions says, in order.
pub open spec fn paints(ops: Seq<PaintOp>) -> Seq<Paint> {
    Seq::new(ops.len(), |i: int| ops[i]@)
}

/// Where the cursor of a terminal is, and the position it remembers.
pub struct Cursor {
    pub column: nat,
    pub row: nat,
    pub saved_column: nat,
    pub saved_row: nat,
}

/// The cursor after one instruction on a screen of `rows` rows. A move stops
/// at the edge of the screen; writing moves the cursor behind what was written.
pub open spec fn cursor_after(cursor: Cursor, paint: Paint, rows: nat) -> Cursor {
    match paint {
        Paint::MoveToColumn(column) => Cursor { column: column as nat, ..cursor },
        Paint::MoveToNextLine(down) => Cursor {
            column: 0,
            row: if cursor.row + down < rows {
                (cursor.row + down) as nat
            } else if rows > 0 && cursor.row < rows {
                (rows - 1) as nat
            } else {
                cursor.row
            },
            ..cursor
        },
        Paint::MoveUp(up) => Cursor {
            row: if cursor.row >= up {
                (cursor.row - up) as nat
            } else {
                0
            },
            ..cursor
        },
        Paint::MoveLeft(left) => Cursor {
            column: if cursor.column >= left {
                (cursor.column - left) as nat
            } else {
                0
            },
            ..cursor
        },
        Paint::MoveRight(right) => Cursor { column: (cursor.column + right) as nat, ..cursor },
        Paint::SavePosition => Cursor {
            saved_column: cursor.column,
            saved_row: cursor.row,
            ..cursor
        },
        Paint::RestorePosition => Cursor {
            column: cursor.saved_column,
            row: cursor.saved_row,
            ..cursor
        },
        Paint::Write(text) => Cursor { column: cursor.column + text.len(), ..cursor },
        Paint::ClearCurrentLine
        | Paint::ClearFromCursorDown
        | Paint::ScrollUp(_)
        | Paint::InvertColors
        | Paint::ResetColors => cursor,
    }
}

/// The cursor after a list of instructions, carried out in order.
pub open spec fn cursor_after_all(cursor: Cursor, paints: Seq<Paint>, rows: nat) -> Cursor
    decreases paints.len(),
{
    if paints.len() == 0 {
        cursor
    } else {
        cursor_after(cursor_after_all(cursor, paints.drop_last(), rows), paints.last(), rows)
    }
}

/// None of the instructions remembers a new position.
pub open spec fn keeps_saved_position(paints: Seq<Paint>) -> bool {
    forall|i: int| 0 <= i < paints.len() ==> paints[i] != Paint::SavePosition
}

/// Carrying out a list of one instruction is carrying out that instruction.
pub proof fn lemma_cursor_after_one(cursor: Cursor, paint: Paint, rows: nat)
    ensures
        cursor_after_all(cursor, seq![paint], rows) == cursor_after(cursor, paint, rows),
{
    reveal_with_fuel(cursor_after_all, 2);
    assert(seq![paint].drop_last() =~= Seq::<Paint>::empty());
}

/// Carrying out two lists one after the other is carrying out their
/// concatenation.
pub proof fn lemma_cursor_after_concat(cursor: Cursor, first: Seq<Paint>, second: Seq<Paint>, rows: nat)
    ensures
        cursor_after_all(cursor, first + second, rows) == cursor_after_all(
            cursor_after_all(cursor, first, rows),
            second,
            rows,
        ),
    decreases second.len(),
{
    if second.len() == 0 {
        assert(first + second =~= first);
    } else {
        lemma_cursor_after_concat(cursor, first, second.drop_last(), rows);
        assert((first + second).drop_last() =~= first + second.drop_last());
        assert((first + second).last() == second.last());
    }
}

/// Instructions that remember no new position leave the remembered one as it
/// was.
pub proof fn lemma_saved_position_kept(cursor: Cursor, paints: Seq<Paint>, rows: nat)
    requires
        keeps_saved_position(paints),
    ensures
        cursor_after_all(cursor, paints, rows).saved_column == cursor.saved_column,
        cursor_after_all(cursor, paints, rows).saved_row == cursor.saved_row,
    decreases paints.len(),
{
    if paints.len() > 0 {
        assert(keeps_saved_position(paints.drop_last())) by {
            assert forall|i: int| 0 <= i < paints.drop_last().len() implies paints.drop_last()[i]
                != Paint::SavePosition by {
                assert(paints.drop_last()[i] == paints[i]);
            }
        }
        lemma_saved_position_kept(cursor, paints.drop_last(), rows);
        assert(paints.last() == paints[paints.len() - 1]);
    }
}

/// Remembering the position, doing anything that remembers no other, and
/// restoring puts the cursor back where it was.
pub proof fn lemma_save_restore_symmetry(cursor: Cursor, between: Seq<Paint>, rows: nat)
    requires
        keeps_saved_position(between),
    ensures
        cursor_after_all(
            cursor,
            seq![Paint::SavePosition] + between + seq![Paint::RestorePosition],
            rows,
        ).column == cursor.column,
        cursor_after_all(
            cursor,
            seq![Paint::SavePosition] + between + seq![Paint::RestorePosition],
            rows,
        ).row == cursor.row,
{
    let save = seq![Paint::SavePosition];
    let restore = seq![Paint::RestorePosition];
    lemma_cursor_after_concat(cursor, save + between, restore, rows);
    lemma_cursor_after_concat(cursor, save, between, rows);
    let saved = cursor_after_all(cursor, save, rows);
    lemma_cursor_after_one(cursor, Paint::SavePosition, rows);
    lemma_saved_position_kept(saved, between, rows);
    lemma_cursor_after_one(cursor_after_all(saved, between, rows), Paint::RestorePosition, rows);
}

} // verus!
