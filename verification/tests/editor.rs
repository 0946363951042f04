use miv::cursor::Cursor;
use miv::editor::ActionOutcome;
use miv::editor::InputEvent;
use miv::editor::process;
use miv::editor::recover;
use miv::editor::run_action;
use miv::editor_state::EditorGlobals;
use miv::editor_state::EditorMode;
use miv::editor_state::EditorState;
use miv::editor_state::EditorStateUpdate;
use miv::editor_state::TermInfo;
use miv::gap_buffer::GapBuffer;
use miv::motion_interpreter::Action;
use miv::motion_interpreter::KeyCode;
use miv::motion_interpreter::MotionAtom;
use miv::motion_interpreter::MotionInterpreterError;
use miv::setup_motions::setup_motions;

fn key(code: KeyCode) -> MotionAtom {
    MotionAtom { code, modifiers: 0 }
}

fn fresh_state(mode: fn(TermInfo, EditorGlobals) -> EditorState) -> EditorState {
    let mut globals = EditorGlobals::default();
    setup_motions(
        &mut globals.normal_mode_motion_tree,
        &mut globals.insert_mode_motion_tree,
        &mut globals.visual_mode_motion_tree,
    );
    mode(TermInfo { rows: 24, cols: 80 }, globals)
}

#[test]
fn test_normal_mode_i_enters_insert_mode() {
    let mut state = fresh_state(EditorState::new_normal);
    let action = process(InputEvent::Key(key(KeyCode::Char('i'))), &mut state)
        .expect("a bound atom must resolve")
        .expect("a complete motion must yield an action");
    assert_eq!(action, Action::EnterInsert);
    match run_action(action, &state) {
        ActionOutcome::Continue(update) => {
            assert!(matches!(update, EditorStateUpdate::Mode(EditorMode::Insert)));
            state.apply(update);
        }
        ActionOutcome::Halt => panic!("entering insert mode must not halt"),
    }
    assert_eq!(state.mode, EditorMode::Insert);
}

#[test]
fn test_insert_mode_esc_enters_normal_mode() {
    let mut state = fresh_state(EditorState::new_insert);
    let action = process(InputEvent::Key(key(KeyCode::Esc)), &mut state)
        .expect("a bound atom must resolve")
        .expect("a complete motion must yield an action");
    assert_eq!(action, Action::EnterNormal);
    match run_action(action, &state) {
        ActionOutcome::Continue(update) => state.apply(update),
        ActionOutcome::Halt => panic!("leaving insert mode must not halt"),
    }
    assert_eq!(state.mode, EditorMode::Normal);
}

#[test]
fn test_normal_mode_v_enters_visual_mode_at_cursor() {
    let mut state = fresh_state(EditorState::new_normal);
    state.cursor.x = 3;
    state.cursor.y = 7;
    let cursor_before = state.cursor;
    let action = process(InputEvent::Key(key(KeyCode::Char('v'))), &mut state)
        .expect("a bound atom must resolve")
        .expect("a complete motion must yield an action");
    assert_eq!(action, Action::EnterVisual);
    match run_action(action, &state) {
        ActionOutcome::Continue(update) => state.apply(update),
        ActionOutcome::Halt => panic!("entering visual mode must not halt"),
    }
    assert_eq!(
        state.mode,
        EditorMode::Visual {
            cursor_start: cursor_before
        }
    );
}

#[test]
fn test_normal_mode_esc_quits() {
    let mut state = fresh_state(EditorState::new_normal);
    let action = process(InputEvent::Key(key(KeyCode::Esc)), &mut state)
        .expect("a bound atom must resolve")
        .expect("a complete motion must yield an action");
    assert_eq!(action, Action::Quit);
    assert!(matches!(run_action(action, &state), ActionOutcome::Halt));
}

#[test]
fn test_visual_mode_v_and_esc_return_to_normal() {
    for code in [KeyCode::Char('v'), KeyCode::Esc] {
        let mut state = fresh_state(|t, g| {
            EditorState::new_visual(Cursor::default(), t, g)
        });
        let action = process(InputEvent::Key(key(code)), &mut state)
            .expect("a bound atom must resolve")
            .expect("a complete motion must yield an action");
        assert_eq!(action, Action::EnterNormal);
    }
}

#[test]
fn test_unknown_atom_in_normal_mode_writes_message() {
    let mut state = fresh_state(EditorState::new_normal);
    let atom = key(KeyCode::Char('q'));
    let error = process(InputEvent::Key(atom), &mut state)
        .expect_err("an unbound atom must be rejected");
    assert!(matches!(error, MotionInterpreterError::UnknownMotion(_)));
    recover(&mut state, &error, atom);
    assert_eq!(state.command_line.buffer, "unknown motion");
}

#[test]
fn test_unknown_atom_in_insert_mode_types_text() {
    let mut state = fresh_state(EditorState::new_insert);
    for c in ['h', 'i', '!'] {
        let atom = key(KeyCode::Char(c));
        let error = process(InputEvent::Key(atom), &mut state)
            .expect_err("an unbound atom must be rejected");
        recover(&mut state, &error, atom);
    }
    assert_eq!(state.get_buffer().content.to_vec(), vec!['h', 'i', '!']);
    // backspace deletes one character
    let atom = key(KeyCode::Backspace);
    let error = process(InputEvent::Key(atom), &mut state)
        .expect_err("an unbound atom must be rejected");
    recover(&mut state, &error, atom);
    assert_eq!(state.get_buffer().content.to_vec(), vec!['h', 'i']);
    // tab expands to the configured width
    let atom = key(KeyCode::Tab);
    let error = process(InputEvent::Key(atom), &mut state)
        .expect_err("an unbound atom must be rejected");
    recover(&mut state, &error, atom);
    assert_eq!(
        state.get_buffer().content.to_vec(),
        vec!['h', 'i', ' ', ' ', ' ', ' ']
    );
}

#[test]
fn test_paste_inserts_at_gap() {
    let mut state = fresh_state(EditorState::new_normal);
    let pasted = "hello".chars().collect::<Vec<char>>();
    let outcome = process(InputEvent::Paste(pasted), &mut state)
        .expect("a paste must not fail");
    assert!(outcome.is_none());
    assert_eq!(
        state.get_buffer().content.to_vec(),
        "hello".chars().collect::<Vec<char>>()
    );
}

#[test]
fn test_resize_replaces_term_info() {
    let mut state = fresh_state(EditorState::new_normal);
    let outcome = process(InputEvent::Resize(50, 132), &mut state)
        .expect("a resize must not fail");
    assert!(outcome.is_none());
    assert_eq!(state.term_info, TermInfo { rows: 50, cols: 132 });
}

#[test]
fn test_focus_events_do_nothing() {
    let mut state = fresh_state(EditorState::new_normal);
    assert!(process(InputEvent::FocusGained, &mut state).unwrap().is_none());
    assert!(process(InputEvent::FocusLost, &mut state).unwrap().is_none());
    assert!(process(InputEvent::Mouse, &mut state).unwrap().is_none());
    assert_eq!(state.mode, EditorMode::Normal);
    assert!(state.get_buffer().content.to_vec().is_empty());
}

#[test]
fn test_multi_atom_motion_through_process() {
    let mut state = fresh_state(EditorState::new_normal);
    state
        .active_motion_tree_mut()
        .insert(
            miv::motion_interpreter::MotionComponentBuffer(vec![
                key(KeyCode::Char('g')),
                key(KeyCode::Char('g')),
            ]),
            Action::EnterInsert,
        )
        .expect("a fresh two-atom motion must register");
    let first = process(InputEvent::Key(key(KeyCode::Char('g'))), &mut state)
        .expect("a motion prefix must stay pending");
    assert!(first.is_none());
    let action = process(InputEvent::Key(key(KeyCode::Char('g'))), &mut state)
        .expect("the motion must resolve")
        .expect("the motion must yield an action");
    assert_eq!(action, Action::EnterInsert);
}

#[test]
fn test_cursor_left_tracks_gap() {
    let mut cursor = Cursor::default();
    let mut content = GapBuffer::new_empty();
    content.insert(&['a', 'b', 'c']);
    cursor.x = 3;
    cursor.left(&mut content);
    assert_eq!(cursor.x, 2);
    assert_eq!(content.gap_index(), 2);
    cursor.left(&mut content);
    cursor.left(&mut content);
    cursor.left(&mut content);
    assert_eq!(cursor.x, 0);
    assert_eq!(content.gap_index(), 0);
    assert_eq!(content.to_vec(), vec!['a', 'b', 'c']);
}

#[test]
fn test_fresh_state_shape() {
    let state = fresh_state(EditorState::new_normal);
    assert_eq!(state.mode, EditorMode::Normal);
    assert_eq!(state.buffer_idx, 0);
    assert_eq!(state.buffers.len(), 1);
    assert_eq!(state.command_line.buffer, "");
    assert!(state.get_buffer().name.is_empty());
    assert!(state.get_buffer().location.is_none());
}

#[test]
fn test_apply_replaces_named_field() {
    let mut state = fresh_state(EditorState::new_normal);
    state.apply(EditorStateUpdate::TermInfo(TermInfo { rows: 1, cols: 2 }));
    assert_eq!(state.term_info, TermInfo { rows: 1, cols: 2 });
    state.apply(EditorStateUpdate::Mode(EditorMode::Insert));
    assert_eq!(state.mode, EditorMode::Insert);
    let cursor = state.cursor;
    state.apply(EditorStateUpdate::Nothing);
    assert_eq!(state.cursor, cursor);
    state.apply(EditorStateUpdate::BufferIdx(0));
    assert_eq!(state.buffer_idx, 0);
}
