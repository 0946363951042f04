//! The per-event step of the editor: an input event goes through the
//! motion interpreter (or straight to the state for out-of-band events),
//! a resolved action becomes a state update or a halt, and a failed
//! motion is recovered from as the active mode dictates.

use vstd::prelude::*;
use crate::editor_buffer::Buffer;
use crate::editor_state::EditorMode;
use crate::editor_state::EditorState;
use crate::editor_state::EditorStateUpdate;
use crate::editor_state::TermInfo;
use crate::gap_buffer::delete_effect;
use crate::gap_buffer::insert_effect;
use crate::motion_interpreter::Action;
use crate::motion_interpreter::KeyCode;
use crate::motion_interpreter::MotionAtom;
use crate::motion_interpreter::MotionInterpreterError;
use crate::motion_interpreter::MotionInterpreterState;
use crate::motion_interpreter::ResolveOutcome;
use crate::motion_interpreter::resolve;

verus! {

/// One unit of input from the external event source: a key atom for the
/// interpreter, or an out-of-band notification that bypasses it.
pub enum InputEvent {
    FocusGained,
    FocusLost,
    Key(MotionAtom),
    Mouse,
    Paste(Vec<char>),
    Resize(u16, u16),
}

/// What the host loop does after an action ran: apply an update and
/// carry on, or halt the editor. Actions never exit the process
/// themselves.
pub enum ActionOutcome {
    Continue(EditorStateUpdate),
    Halt,
}

/// The interpreter is back at its starting point: nothing buffered.
pub open spec fn interpreter_reset(s: EditorState) -> bool {
    s.motion_interpreter_state matches MotionInterpreterState::Pending(b) && b.0@ == Seq::<
        MotionAtom,
    >::empty()
}

/// `post` is `pre` with at most the interpreter state changed.
pub open spec fn same_but_interpreter(pre: EditorState, post: EditorState) -> bool {
    post == (EditorState { motion_interpreter_state: post.motion_interpreter_state, ..pre })
}

/// `post` is `pre` with at most the active buffer's content changed; its
/// name and location, the other buffers, and the rest of the state are
/// as they were.
pub open spec fn edited_active_buffer(pre: EditorState, post: EditorState) -> bool {
    &&& post.buffers@.len() == pre.buffers@.len()
    &&& post.buffers@ == pre.buffers@.update(
        pre.buffer_idx as int,
        (Buffer {
            content: post.buffers@[pre.buffer_idx as int].content,
            ..pre.buffers@[pre.buffer_idx as int]
        }),
    )
    &&& post == (EditorState { buffers: post.buffers, ..pre })
}

/// Gives a resolved action its meaning: a quit becomes a `Halt` outcome
/// for the host loop, a mode switch becomes the matching update, with
/// Visual mode remembering the cursor it started from.
pub fn run_action(action: Action, ed_state: &EditorState) -> (r: ActionOutcome)
    ensures
        match action {
            Action::Quit => r == ActionOutcome::Halt,
            Action::EnterInsert => r == ActionOutcome::Continue(
                EditorStateUpdate::Mode(EditorMode::Insert),
            ),
            Action::EnterNormal => r == ActionOutcome::Continue(
                EditorStateUpdate::Mode(EditorMode::Normal),
            ),
            Action::EnterVisual => r == ActionOutcome::Continue(
                EditorStateUpdate::Mode(
                    EditorMode::Visual { cursor_start: ed_state.cursor },
                ),
            ),
        },
{
    match action {
        Action::Quit => ActionOutcome::Halt,
        Action::EnterInsert => ActionOutcome::Continue(
            EditorStateUpdate::Mode(EditorMode::Insert),
        ),
        Action::EnterNormal => ActionOutcome::Continue(
            EditorStateUpdate::Mode(EditorMode::Normal),
        ),
        Action::EnterVisual => ActionOutcome::Continue(
            EditorStateUpdate::Mode(EditorMode::Visual { cursor_start: ed_state.cursor }),
        ),
    }
}

/// Processes one input event. A key atom is fed to the interpreter
/// against the active motion trie: a resolved action is handed back and
/// the interpreter reset; an unfinished motion stays buffered; an error
/// resets the interpreter and is handed back for `recover`. A paste goes
/// straight into the active buffer at its gap; a resize replaces the
/// terminal geometry; focus and mouse events do nothing.
pub fn process(event: InputEvent, ed_state: &mut EditorState) -> (r: Result<
    Option<Action>,
    MotionInterpreterError,
>)
    requires
        old(ed_state).wf(),
        event matches InputEvent::Paste(s) ==> {
            let pre = *old(ed_state);
            pre.buffers@[pre.buffer_idx as int].content.store().len() + s@.len() <= usize::MAX
        },
    ensures
        final(ed_state).wf(),
        match event {
            InputEvent::FocusGained => r == Ok::<Option<Action>, MotionInterpreterError>(None)
                && *final(ed_state) == *old(ed_state),
            InputEvent::FocusLost => r == Ok::<Option<Action>, MotionInterpreterError>(None)
                && *final(ed_state) == *old(ed_state),
            InputEvent::Mouse => r == Ok::<Option<Action>, MotionInterpreterError>(None)
                && *final(ed_state) == *old(ed_state),
            InputEvent::Key(atom) => same_but_interpreter(*old(ed_state), *final(ed_state))
                && match old(ed_state).motion_interpreter_state {
                MotionInterpreterState::Done(_) => r == Err::<Option<Action>,
                    MotionInterpreterError,
                >(MotionInterpreterError::PendingMotion) && interpreter_reset(*final(ed_state)),
                MotionInterpreterState::Pending(buf) => match resolve(
                    old(ed_state).active_tree_spec(),
                    buf.0@.push(atom),
                ) {
                    ResolveOutcome::Resolved(action) => r == Ok::<
                        Option<Action>,
                        MotionInterpreterError,
                    >(Some(action)) && interpreter_reset(*final(ed_state)),
                    ResolveOutcome::Incomplete => r == Ok::<
                        Option<Action>,
                        MotionInterpreterError,
                    >(None) && (final(ed_state).motion_interpreter_state matches
                        MotionInterpreterState::Pending(b) && b.0@ == buf.0@.push(atom)),
                    ResolveOutcome::NoMatch => r matches Err(
                        MotionInterpreterError::UnknownMotion(b),
                    ) && b.0@ == buf.0@.push(atom) && interpreter_reset(*final(ed_state)),
                },
            },
            InputEvent::Paste(s) => r == Ok::<Option<Action>, MotionInterpreterError>(None)
                && edited_active_buffer(*old(ed_state), *final(ed_state)) && insert_effect(
                old(ed_state).buffers@[old(ed_state).buffer_idx as int].content,
                final(ed_state).buffers@[old(ed_state).buffer_idx as int].content,
                s@,
            ),
            InputEvent::Resize(rows, cols) => r == Ok::<Option<Action>, MotionInterpreterError>(
                None,
            ) && *final(ed_state) == (EditorState {
                term_info: (TermInfo { rows, cols }),
                ..*old(ed_state)
            }),
        },
{
    match event {
        InputEvent::FocusGained => Ok(None),
        InputEvent::FocusLost => Ok(None),
        InputEvent::Mouse => Ok(None),
        InputEvent::Key(atom) => {
            let mut taken = MotionInterpreterState::new();
            core::mem::swap(&mut ed_state.motion_interpreter_state, &mut taken);
            let updated_or_error = taken.update(ed_state.active_motion_tree(), atom);
            match updated_or_error {
                Ok(MotionInterpreterState::Pending(motion_component_buffer)) => {
                    ed_state.motion_interpreter_state = MotionInterpreterState::Pending(
                        motion_component_buffer,
                    );
                    Ok(None)
                },
                Ok(MotionInterpreterState::Done(action)) => Ok(Some(action)),
                Err(error) => Err(error),
            }
        },
        InputEvent::Paste(s) => {
            let buffer = ed_state.get_buffer_mut();
            buffer.content.insert(s.as_slice());
            Ok(None)
        },
        InputEvent::Resize(rows, cols) => {
            ed_state.term_info = TermInfo { rows, cols };
            Ok(None)
        },
    }
}

/// Recovers from a per-atom interpreter error as the mode dictates. In
/// Normal and Visual mode the error is surfaced as a message on the
/// command line. In Insert mode the atom was ordinary typing, not an
/// error: backspace deletes one character before the gap, a printable
/// character and enter are inserted, tab expands to the configured
/// width, and anything else is ignored.
pub fn recover(ed_state: &mut EditorState, error: &MotionInterpreterError, atom: MotionAtom)
    requires
        old(ed_state).wf(),
        ({
            let pre = *old(ed_state);
            pre.buffers@[pre.buffer_idx as int].content.store().len()
                + pre.editor_globals.tab_size + 1 <= usize::MAX
        }),
    ensures
        final(ed_state).wf(),
        ((old(ed_state).mode matches EditorMode::Normal) || (old(ed_state).mode matches
            EditorMode::Visual { .. })) ==> *final(ed_state) == (EditorState {
            command_line: final(ed_state).command_line,
            ..*old(ed_state)
        }) && final(ed_state).command_line.buffer@ == error.message_spec(),
        (old(ed_state).mode matches EditorMode::Insert) ==> edited_active_buffer(
            *old(ed_state),
            *final(ed_state),
        ) && {
            let pre_content = old(ed_state).buffers@[old(ed_state).buffer_idx as int].content;
            let post_content = final(ed_state).buffers@[old(ed_state).buffer_idx as int].content;
            match atom.code {
                KeyCode::Backspace => delete_effect(pre_content, post_content, 1),
                KeyCode::Char(c) => insert_effect(pre_content, post_content, seq![c]),
                KeyCode::Enter => insert_effect(pre_content, post_content, seq!['\n']),
                KeyCode::Tab => insert_effect(
                    pre_content,
                    post_content,
                    Seq::new(old(ed_state).editor_globals.tab_size as nat, |k: int| ' '),
                ),
                KeyCode::Esc => post_content == pre_content,
                KeyCode::Other => post_content == pre_content,
            }
        },
{
    match ed_state.mode {
        EditorMode::Normal => {
            ed_state.command_line.buffer = error.message();
        },
        EditorMode::Visual { .. } => {
            ed_state.command_line.buffer = error.message();
        },
        EditorMode::Insert => {
            let tab_size = ed_state.editor_globals.tab_size;
            let buffer = ed_state.get_buffer_mut();
            match atom.code {
                KeyCode::Backspace => {
                    buffer.content.delete(1);
                },
                KeyCode::Char(c) => {
                    let mut keys: Vec<char> = Vec::new();
                    keys.push(c);
                    proof {
                        assert(keys@ =~= seq![c]);
                    }
                    buffer.content.insert(keys.as_slice());
                },
                KeyCode::Enter => {
                    let mut keys: Vec<char> = Vec::new();
                    keys.push('\n');
                    proof {
                        assert(keys@ =~= seq!['\n']);
                    }
                    buffer.content.insert(keys.as_slice());
                },
                KeyCode::Tab => {
                    let mut keys: Vec<char> = Vec::new();
                    while keys.len() < tab_size
                        invariant
                            keys@.len() <= tab_size,
                            forall|k: int| 0 <= k < keys@.len() ==> keys@[k] == ' ',
                        decreases tab_size - keys@.len(),
                    {
                        keys.push(' ');
                    }
                    proof {
                        assert(keys@ =~= Seq::new(tab_size as nat, |k: int| ' '));
                    }
                    buffer.content.insert(keys.as_slice());
                },
                KeyCode::Esc => {},
                KeyCode::Other => {},
            }
        },
    }
}

} // verus!
