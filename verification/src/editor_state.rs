//! The editor's state: the active mode, the cursor, the command line,
//! the open buffers, the terminal geometry, the per-mode motion tries and
//! the interpreter walking the active one. All mutation funnels through
//! `apply`, which replaces exactly the field an update names.

use vstd::prelude::*;
use crate::cursor::Cursor;
use crate::cursor::CursorState;
use crate::editor_buffer::Buffer;
use crate::motion_interpreter::MotionInterpreterState;
use crate::motion_interpreter::MotionTree;

verus! {

/// The three editing modes; Visual remembers where the selection began.
#[derive(Debug, Clone, Copy, PartialEq, Eq, Structural)]
pub enum EditorMode {
    Normal,
    Insert,
    Visual { cursor_start: Cursor },
}

impl EditorMode {
    pub fn new_normal() -> (r: Self)
        ensures
            r == EditorMode::Normal,
    {
        Self::Normal
    }

    pub fn new_insert() -> (r: Self)
        ensures
            r == EditorMode::Insert,
    {
        Self::Insert
    }

    pub fn new_visual(cursor_start: Cursor) -> (r: Self)
        ensures
            r == (EditorMode::Visual { cursor_start }),
    {
        Self::Visual { cursor_start }
    }
}

/// The command-line text field, which actions and error handling may
/// populate.
#[derive(Debug)]
pub struct CommandLine {
    pub buffer: String,
}

impl Default for CommandLine {
    /// An empty command line.
    fn default() -> (r: Self)
        ensures
            r.buffer@ == Seq::<char>::empty(),
    {
        CommandLine { buffer: String::new() }
    }
}

/// The terminal's dimensions as last reported.
#[derive(Debug, Clone, Copy, PartialEq, Eq, Structural)]
pub struct TermInfo {
    pub rows: u16,
    pub cols: u16,
}

/// Configuration shared across modes: one motion trie per mode, and the
/// width a tab expands to when typed in insert mode.
#[derive(Debug)]
pub struct EditorGlobals {
    pub normal_mode_motion_tree: MotionTree,
    pub insert_mode_motion_tree: MotionTree,
    pub visual_mode_motion_tree: MotionTree,
    pub tab_size: usize,
}

impl Default for EditorGlobals {
    /// Empty tries for every mode, and a tab width of four.
    fn default() -> (r: Self)
        ensures
            r.normal_mode_motion_tree matches MotionTree::Tree(e) && e@.len() == 0,
            r.insert_mode_motion_tree matches MotionTree::Tree(e) && e@.len() == 0,
            r.visual_mode_motion_tree matches MotionTree::Tree(e) && e@.len() == 0,
            r.tab_size == 4,
    {
        Self {
            normal_mode_motion_tree: MotionTree::default(),
            insert_mode_motion_tree: MotionTree::default(),
            visual_mode_motion_tree: MotionTree::default(),
            tab_size: 4,
        }
    }
}

/// The single mutable root of the editor.
#[derive(Debug)]
pub struct EditorState {
    pub mode: EditorMode,
    pub cursor: Cursor,
    pub command_line: CommandLine,
    pub buffers: Vec<Buffer>,
    pub buffer_idx: usize,
    pub term_info: TermInfo,
    pub motion_interpreter_state: MotionInterpreterState,
    pub editor_globals: EditorGlobals,
}

/// What a resolved action asks of the editor: replace exactly the named
/// field (or the whole state), or nothing at all.
pub enum EditorStateUpdate {
    Nothing,
    Mode(EditorMode),
    Buffers(Vec<Buffer>),
    BufferIdx(usize),
    TermInfo(TermInfo),
    Full(EditorState),
}

impl EditorState {
    /// The active buffer index points at an open buffer, and every open
    /// buffer's gap buffer is well formed.
    pub open spec fn wf(&self) -> bool {
        &&& self.buffer_idx < self.buffers@.len()
        &&& forall|k: int| 0 <= k < self.buffers@.len() ==> (#[trigger] self.buffers@[k].content).wf()
    }

    /// The motion trie the current mode selects.
    pub open spec fn active_tree_spec(&self) -> MotionTree {
        match self.mode {
            EditorMode::Normal => self.editor_globals.normal_mode_motion_tree,
            EditorMode::Insert => self.editor_globals.insert_mode_motion_tree,
            EditorMode::Visual { .. } => self.editor_globals.visual_mode_motion_tree,
        }
    }

    /// A fresh state in the given mode: one empty unnamed buffer, the
    /// cursor at the origin, nothing typed, nothing pending.
    pub open spec fn fresh_state_spec(&self, term_info: TermInfo) -> bool {
        &&& self.cursor == (Cursor { x: 0, y: 0, state: CursorState::Normal })
        &&& self.command_line.buffer@ == Seq::<char>::empty()
        &&& self.buffers@.len() == 1
        &&& self.buffers@[0].content@ == Seq::<char>::empty()
        &&& self.buffers@[0].content.wf()
        &&& self.buffers@[0].name@ == Seq::<char>::empty()
        &&& self.buffers@[0].location is None
        &&& self.buffer_idx == 0
        &&& self.term_info == term_info
        &&& self.motion_interpreter_state matches MotionInterpreterState::Pending(b) && b.0@
            == Seq::<crate::motion_interpreter::MotionAtom>::empty()
        &&& self.wf()
    }

    /// A fresh state that starts out in Normal mode.
    pub fn new_normal(term_info: TermInfo, editor_globals: EditorGlobals) -> (r: Self)
        ensures
            r.mode == EditorMode::Normal,
            r.fresh_state_spec(term_info),
            r.editor_globals == editor_globals,
    {
        Self {
            mode: EditorMode::new_normal(),
            cursor: Cursor::default(),
            command_line: CommandLine::default(),
            buffers: vec![Buffer::new()],
            buffer_idx: 0,
            term_info,
            motion_interpreter_state: MotionInterpreterState::new(),
            editor_globals,
        }
    }

    /// A fresh state that starts out in Insert mode.
    pub fn new_insert(term_info: TermInfo, editor_globals: EditorGlobals) -> (r: Self)
        ensures
            r.mode == EditorMode::Insert,
            r.fresh_state_spec(term_info),
            r.editor_globals == editor_globals,
    {
        Self {
            mode: EditorMode::new_insert(),
            cursor: Cursor::default(),
            command_line: CommandLine::default(),
            buffers: vec![Buffer::new()],
            buffer_idx: 0,
            term_info,
            motion_interpreter_state: MotionInterpreterState::new(),
            editor_globals,
        }
    }

    /// A fresh state that starts out in Visual mode, remembering where
    /// the selection began.
    pub fn new_visual(cursor_start: Cursor, term_info: TermInfo, editor_globals: EditorGlobals) -> (r:
        Self)
        ensures
            r.mode == (EditorMode::Visual { cursor_start }),
            r.fresh_state_spec(term_info),
            r.editor_globals == editor_globals,
    {
        Self {
            mode: EditorMode::new_visual(cursor_start),
            cursor: Cursor::default(),
            command_line: CommandLine::default(),
            buffers: vec![Buffer::new()],
            buffer_idx: 0,
            term_info,
            motion_interpreter_state: MotionInterpreterState::new(),
            editor_globals,
        }
    }

    /// The buffer currently being edited.
    pub fn get_buffer(&self) -> (r: &Buffer)
        requires
            self.wf(),
        ensures
            *r == self.buffers@[self.buffer_idx as int],
    {
        &self.buffers[self.buffer_idx]
    }

    /// The buffer currently being edited, for mutation; every other part
    /// of the state is left alone.
    pub fn get_buffer_mut(&mut self) -> (r: &mut Buffer)
        requires
            old(self).wf(),
        ensures
            *r == old(self).buffers@[old(self).buffer_idx as int],
            final(self).buffers@ == old(self).buffers@.update(
                old(self).buffer_idx as int,
                *final(r),
            ),
            *final(self) == (EditorState { buffers: final(self).buffers, ..*old(self) }),
    {
        let idx = self.buffer_idx;
        &mut self.buffers[idx]
    }

    /// The motion trie the current mode selects.
    pub fn active_motion_tree(&self) -> (r: &MotionTree)
        ensures
            *r == self.active_tree_spec(),
    {
        match self.mode {
            EditorMode::Normal => &self.editor_globals.normal_mode_motion_tree,
            EditorMode::Insert => &self.editor_globals.insert_mode_motion_tree,
            EditorMode::Visual { .. } => &self.editor_globals.visual_mode_motion_tree,
        }
    }

    /// The motion trie the current mode selects, for mutation; the mode,
    /// the other modes' tries and everything else are left alone.
    pub fn active_motion_tree_mut(&mut self) -> (r: &mut MotionTree)
        ensures
            *r == old(self).active_tree_spec(),
            final(self).active_tree_spec() == *final(r),
            final(self).mode == old(self).mode,
            !(old(self).mode is Normal) ==> final(self).editor_globals.normal_mode_motion_tree
                == old(self).editor_globals.normal_mode_motion_tree,
            !(old(self).mode is Insert) ==> final(self).editor_globals.insert_mode_motion_tree
                == old(self).editor_globals.insert_mode_motion_tree,
            !(old(self).mode is Visual) ==> final(self).editor_globals.visual_mode_motion_tree
                == old(self).editor_globals.visual_mode_motion_tree,
            final(self).editor_globals.tab_size == old(self).editor_globals.tab_size,
            *final(self) == (EditorState { editor_globals: final(self).editor_globals, ..*old(
                self,
            ) }),
    {
        match self.mode {
            EditorMode::Normal => &mut self.editor_globals.normal_mode_motion_tree,
            EditorMode::Insert => &mut self.editor_globals.insert_mode_motion_tree,
            EditorMode::Visual { .. } => &mut self.editor_globals.visual_mode_motion_tree,
        }
    }

    /// Applies an update atomically: exactly the named field is replaced,
    /// the whole state for `Full`, nothing for `None`.
    pub fn apply(&mut self, update: EditorStateUpdate)
        ensures
            match update {
                EditorStateUpdate::Nothing => *final(self) == *old(self),
                EditorStateUpdate::Mode(mode) => *final(self) == (EditorState {
                    mode,
                    ..*old(self)
                }),
                EditorStateUpdate::Buffers(buffers) => *final(self) == (EditorState {
                    buffers,
                    ..*old(self)
                }),
                EditorStateUpdate::BufferIdx(buffer_idx) => *final(self) == (EditorState {
                    buffer_idx,
                    ..*old(self)
                }),
                EditorStateUpdate::TermInfo(term_info) => *final(self) == (EditorState {
                    term_info,
                    ..*old(self)
                }),
                EditorStateUpdate::Full(new_state) => *final(self) == new_state,
            },
    {
        match update {
            EditorStateUpdate::Nothing => {},
            EditorStateUpdate::Mode(mode) => {
                self.mode = mode;
            },
            EditorStateUpdate::Buffers(buffers) => {
                self.buffers = buffers;
            },
            EditorStateUpdate::BufferIdx(buffer_idx) => {
                self.buffer_idx = buffer_idx;
            },
            EditorStateUpdate::TermInfo(term_info) => {
                self.term_info = term_info;
            },
            EditorStateUpdate::Full(new_state) => {
                *self = new_state;
            },
        }
    }
}

} // verus!
