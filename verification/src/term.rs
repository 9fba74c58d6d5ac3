//! Terminal operations as plain values.
//!
//! The library never touches the terminal. It says what is to be done, in
//! order, and the caller carries the operations out.

use vstd::prelude::*;

verus! {

/// One operation on the terminal.
#[derive(Clone, PartialEq, Eq, Debug)]
pub enum TermOp {
    /// Put the cursor at a column and row of the screen, both from 0.
    MoveTo { column: u16, row: u16 },
    /// Scroll the screen content up by a number of rows.
    ScrollUp(u16),
    /// Erase from the cursor to the end of the screen.
    ClearFromCursorDown,
    /// Write text at the cursor.
    Print(String),
    /// Move the cursor left by a number of columns.
    MoveLeft(u16),
    /// Send what has been queued to the terminal.
    Flush,
}

/// What a `TermOp` stands for.
pub enum TermOpView {
    MoveTo { column: u16, row: u16 },
    ScrollUp(u16),
    ClearFromCursorDown,
    Print(Seq<char>),
    MoveLeft(u16),
    Flush,
}

impl View for TermOp {
    type V = TermOpView;

    open spec fn view(&self) -> TermOpView {
        match self {
            TermOp::MoveTo { column, row } => TermOpView::MoveTo { column: *column, row: *row },
            TermOp::ScrollUp(n) => TermOpView::ScrollUp(*n),
            TermOp::ClearFromCursorDown => TermOpView::ClearFromCursorDown,
            TermOp::Print(s) => TermOpView::Print(s@),
            TermOp::MoveLeft(n) => TermOpView::MoveLeft(*n),
            TermOp::Flush => TermOpView::Flush,
        }
    }
}

/// The views of a vector of operations.
pub open spec fn ops_view(ops: Seq<TermOp>) -> Seq<TermOpView> {
    ops.map_values(|op: TermOp| op@)
}

/// Appends `op` to `ops`.
pub fn push_op(ops: &mut Vec<TermOp>, op: TermOp)
    ensures
        ops_view(final(ops)@) == ops_view(old(ops)@).push(op@),
        final(ops)@.len() == old(ops)@.len() + 1,
{
    ops.push(op);
    assert(ops_view(ops@) =~= ops_view(old(ops)@).push(op@));
}

/// Moves the operations of `more` to the end of `ops`.
pub fn append_ops(ops: &mut Vec<TermOp>, more: Vec<TermOp>)
    ensures
        ops_view(final(ops)@) == ops_view(old(ops)@) + ops_view(more@),
{
    let mut more = more;
    let ghost added = more@;
    ops.append(&mut more);
    assert(ops_view(ops@) =~= ops_view(old(ops)@) + ops_view(added));
}

} // verus!
