//! An open buffer: the text being edited, its display name, and an
//! optional backing location (unused by this core, which edits in memory
//! only).

use vstd::prelude::*;
use crate::gap_buffer::GapBuffer;

verus! {

/// One open buffer of the editor.
#[derive(Debug)]
pub struct Buffer {
    pub content: GapBuffer<char>,
    pub name: String,
    pub location: Option<String>,
}

impl Buffer {
    /// A fresh buffer: empty content, no name, no backing location.
    pub fn new() -> (r: Self)
        ensures
            r.content.wf(),
            r.content@ == Seq::<char>::empty(),
            r.content.gap_start() == 0,
            r.content.store().len() == 0,
            r.name@ == Seq::<char>::empty(),
            r.location is None,
    {
        Self { content: GapBuffer::<char>::new_empty(), name: String::new(), location: None }
    }
}

} // verus!
