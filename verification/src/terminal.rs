//! What is to be done to the terminal.

use vstd::prelude::*;

verus! {

/// One operation on the terminal.
#[derive(Debug, PartialEq, Eq)]
pub enum TerminalOp {
    /// Move the cursor up by this many rows.
    MoveUp(u16),
    /// Move the cursor to this column of its row.
    MoveToColumn(u16),
    /// Clear everything from the cursor on.
    ClearFromCursorDown,
    /// Write this text.
    Print(String),
    /// Flush what was written.
    Flush,
}

/// The model of [`TerminalOp`].
#[verifier::ext_equal]
pub enum OpView {
    MoveUp(int),
    MoveToColumn(int),
    ClearFromCursorDown,
    Print(Seq<char>),
    Flush,
}

impl View for TerminalOp {
    type V = OpView;

    open spec fn view(&self) -> OpView {
        match self {
            TerminalOp::MoveUp(rows) => OpView::MoveUp(*rows as int),
            TerminalOp::MoveToColumn(column) => OpView::MoveToColumn(*column as int),
            TerminalOp::ClearFromCursorDown => OpView::ClearFromCursorDown,
            TerminalOp::Print(text) => OpView::Print(text@),
            TerminalOp::Flush => OpView::Flush,
        }
    }
}

/// A terminal position does not fit in 16 bits.
#[derive(Debug, Clone, Copy, PartialEq, Eq, Structural)]
pub struct PositionOverflow;

impl PositionOverflow {
    /// The message that describes the error.
    pub fn message(&self) -> (message: &'static str)
        ensures
            message@ == "terminal position overflowed u16"@,
    {
        "terminal position overflowed u16"
    }
}

/// A terminal position as the terminal takes it.
pub fn to_u16(value: usize) -> (result: Result<u16, PositionOverflow>)
    ensures
        result == (if value <= u16::MAX {
            Ok(value as u16)
        } else {
            Err(PositionOverflow)
        }),
{
    if value <= 0xffff {
        Ok(value as u16)
    } else {
        Err(PositionOverflow)
    }
}

/// A sequence of operations on the terminal.
///
/// Where a position overflows, the operations before it are still to be done, and none come
/// after them.
#[derive(Debug, PartialEq, Eq)]
pub struct Paint {
    pub ops: Vec<TerminalOp>,
    pub outcome: Result<(), PositionOverflow>,
}

/// The model of [`Paint`].
#[verifier::ext_equal]
pub struct PaintView {
    pub ops: Seq<OpView>,
    pub outcome: Result<(), PositionOverflow>,
}

impl View for Paint {
    type V = PaintView;

    open spec fn view(&self) -> PaintView {
        PaintView { ops: self.ops@.map_values(|op: TerminalOp| op@), outcome: self.outcome }
    }
}

impl PaintView {
    /// Nothing to do.
    pub open spec fn empty() -> PaintView {
        PaintView { ops: Seq::empty(), outcome: Ok(()) }
    }

    /// `self`, and after it `op`, unless a position overflowed.
    pub open spec fn then_op(self, op: OpView) -> PaintView {
        if self.outcome is Ok {
            PaintView { ops: self.ops.push(op), outcome: self.outcome }
        } else {
            self
        }
    }

    /// `self`, and after it what `other` does, unless a position overflowed.
    pub open spec fn then_paint(self, other: PaintView) -> PaintView {
        if self.outcome is Ok {
            PaintView { ops: self.ops + other.ops, outcome: other.outcome }
        } else {
            self
        }
    }

    /// `self`, and then the text.
    pub open spec fn then_print(self, text: Seq<char>) -> PaintView {
        self.then_op(OpView::Print(text))
    }

    /// `self`, and then up by `rows`, where that is a move at all; it fails where `rows` does not
    /// fit in 16 bits.
    pub open spec fn then_move_up(self, rows: int) -> PaintView {
        if rows <= 0 {
            self
        } else if rows <= u16::MAX {
            self.then_op(OpView::MoveUp(rows))
        } else {
            self.then_overflow()
        }
    }

    /// `self`, and then to the column; it fails where the column does not fit in 16 bits.
    pub open spec fn then_move_to_column(self, column: int) -> PaintView {
        if column <= u16::MAX {
            self.then_op(OpView::MoveToColumn(column))
        } else {
            self.then_overflow()
        }
    }

    /// `self`, and then a position that overflows.
    pub open spec fn then_overflow(self) -> PaintView {
        if self.outcome is Ok {
            PaintView { ops: self.ops, outcome: Err(PositionOverflow) }
        } else {
            self
        }
    }
}

impl Paint {
    /// Nothing to do.
    pub fn new() -> (paint: Paint)
        ensures
            paint@ == PaintView::empty(),
    {
        let paint = Paint { ops: Vec::new(), outcome: Ok(()) };
        assert(paint@ =~= PaintView::empty());
        paint
    }

    /// Adds an operation.
    pub fn add_op(&mut self, op: TerminalOp)
        ensures
            final(self)@ == old(self)@.then_op(op@),
    {
        if self.outcome.is_ok() {
            self.ops.push(op);
        }
        assert(self@ =~= old(self)@.then_op(op@));
    }

    /// Adds what another paint does.
    pub fn add_paint(&mut self, other: Paint)
        ensures
            final(self)@ == old(self)@.then_paint(other@),
    {
        if self.outcome.is_ok() {
            let mut other = other;
            self.ops.append(&mut other.ops);
            self.outcome = other.outcome;
        }
        assert(self@ =~= old(self)@.then_paint(other@));
    }

    /// Adds a text to write.
    pub fn print<T: Into<String>>(&mut self, text: T)
        ensures
            exists|printed: String|
                call_ensures(T::into, (text,), printed) && final(self)@ == old(self)@.then_print(
                    #[trigger] printed@,
                ),
    {
        let printed: String = text.into();
        self.add_op(TerminalOp::Print(printed));
    }

    /// Adds a move up.
    pub fn move_up(&mut self, rows: usize)
        ensures
            final(self)@ == old(self)@.then_move_up(rows as int),
    {
        if rows > 0 {
            match to_u16(rows) {
                Ok(value) => self.add_op(TerminalOp::MoveUp(value)),
                Err(_) => self.overflow(),
            }
        }
    }

    /// Adds a move to a column.
    pub fn move_to_column(&mut self, column: usize)
        ensures
            final(self)@ == old(self)@.then_move_to_column(column as int),
    {
        match to_u16(column) {
            Ok(value) => self.add_op(TerminalOp::MoveToColumn(value)),
            Err(_) => self.overflow(),
        }
    }

    /// Ends the operations at a position that overflowed.
    pub fn overflow(&mut self)
        ensures
            final(self)@ == old(self)@.then_overflow(),
    {
        if self.outcome.is_ok() {
            self.outcome = Err(PositionOverflow);
        }
    }
}

/// What clears an earlier rendering whose cursor stands on the row `row`.
pub open spec fn clear_paint(row: int) -> PaintView {
    PaintView::empty().then_move_up(row).then_move_to_column(0).then_op(
        OpView::ClearFromCursorDown,
    ).then_op(OpView::Flush)
}

} // verus!
