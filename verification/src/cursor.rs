//! The cursor: a position on the screen plus whether it sits in the
//! document or in the command line. The gap of the buffer being edited
//! tracks the cursor's logical offset exactly, updated by the same call
//! that moves the cursor.

use vstd::prelude::*;
use crate::gap_buffer::GapBuffer;
use crate::gap_buffer::move_gap_effect;

verus! {

/// Where the cursor lives: the document, or the command line.
#[derive(Debug, Clone, Copy, Eq, PartialEq, Structural)]
pub enum CursorState {
    InCommandLine,
    Normal,
}

impl Default for CursorState {
    /// A fresh cursor sits in the document.
    fn default() -> (r: Self)
        ensures
            r == CursorState::Normal,
    {
        Self::Normal
    }
}

/// A screen position, `x` along the row and `y` down the column.
#[derive(Debug, Clone, Copy, PartialEq, Eq, Structural)]
pub struct Cursor {
    pub x: usize,
    pub y: usize,
    pub state: CursorState,
}

impl Default for Cursor {
    /// A fresh cursor: the origin, in the document.
    fn default() -> (r: Self)
        ensures
            r == (Cursor { x: 0, y: 0, state: CursorState::Normal }),
    {
        Cursor { x: 0, y: 0, state: CursorState::Normal }
    }
}

impl Cursor {
    /// Moves the cursor one step left, stopping at the line start, and
    /// relocates the gap of `content` to the cursor's new offset, so that
    /// the next edit applies where the cursor stands.
    pub fn left(&mut self, content: &mut GapBuffer<char>)
        requires
            old(content).wf(),
            old(self).x as int <= old(content).len_spec(),
        ensures
            final(self).x == if old(self).x > 0 {
                old(self).x - 1
            } else {
                0
            },
            final(self).y == old(self).y,
            final(self).state == old(self).state,
            final(content).wf(),
            move_gap_effect(*old(content), *final(content), final(self).x as int),
    {
        if self.x > 0 {
            self.x = self.x - 1;
        }
        content.move_gap(self.x);
    }
}

} // verus!
