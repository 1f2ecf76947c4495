//! The cursor of a lazy sequence of items.

use vstd::prelude::*;
use crate::failure::{FailureKind, ParseFailure};

verus! {

/// Where a lazy sequence stands: on text that is still to be read, at its
/// clean end, or at the failure that stopped it.
#[derive(Debug, Clone, Copy, PartialEq, Eq)]
pub enum Cursor<'a> {
    Active(&'a [char]),
    Exhausted,
    Failed(ParseFailure<'a>),
}

/// The mathematical value of a [`Cursor`].
pub ghost enum CursorView {
    Active(Seq<char>),
    Exhausted,
    Failed { kind: FailureKind, rest: Seq<char> },
}

impl<'a> View for Cursor<'a> {
    type V = CursorView;

    open spec fn view(&self) -> CursorView {
        match self {
            Cursor::Active(text) => CursorView::Active(text@),
            Cursor::Exhausted => CursorView::Exhausted,
            Cursor::Failed(e) => CursorView::Failed { kind: e.kind, rest: e.rest@ },
        }
    }
}

} // verus!
