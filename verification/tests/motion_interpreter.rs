use miv::motion_interpreter::Action;
use miv::motion_interpreter::KeyCode;
use miv::motion_interpreter::MotionAtom;
use miv::motion_interpreter::MotionComponentBuffer;
use miv::motion_interpreter::MotionInterpreterError;
use miv::motion_interpreter::MotionInterpreterState;
use miv::motion_interpreter::MotionTree;
use miv::motion_interpreter::MotionTreeError;

fn atom(c: char) -> MotionAtom {
    MotionAtom {
        code: KeyCode::Char(c),
        modifiers: 0,
    }
}

fn motion(chars: &str) -> MotionComponentBuffer {
    MotionComponentBuffer(chars.chars().map(atom).collect())
}

#[test]
fn test_register_empty_motion_fails() {
    let mut tree = MotionTree::default();
    let result = tree.insert(motion(""), Action::Quit);
    assert_eq!(result, Err(MotionTreeError::EmptyMotion));
}

#[test]
fn test_register_prefix_of_registered_motion_fails() {
    let mut tree = MotionTree::default();
    assert_eq!(tree.insert(motion("ab"), Action::Quit), Ok(()));
    assert_eq!(
        tree.insert(motion("a"), Action::EnterInsert),
        Err(MotionTreeError::MotionConflict)
    );
}

#[test]
fn test_register_extension_of_registered_motion_fails() {
    let mut tree = MotionTree::default();
    assert_eq!(tree.insert(motion("a"), Action::Quit), Ok(()));
    assert_eq!(
        tree.insert(motion("ab"), Action::EnterInsert),
        Err(MotionTreeError::MotionConflict)
    );
}

#[test]
fn test_register_same_path_overwrites_silently() {
    let mut tree = MotionTree::default();
    assert_eq!(tree.insert(motion("a"), Action::Quit), Ok(()));
    assert_eq!(tree.insert(motion("a"), Action::EnterInsert), Ok(()));
    let state = MotionInterpreterState::new();
    match state.update(&tree, atom('a')) {
        Ok(MotionInterpreterState::Done(action)) => assert_eq!(action, Action::EnterInsert),
        _ => panic!("expected the overwritten binding to resolve"),
    }
}

#[test]
fn test_register_sibling_motions() {
    let mut tree = MotionTree::default();
    assert_eq!(tree.insert(motion("ab"), Action::Quit), Ok(()));
    assert_eq!(tree.insert(motion("ac"), Action::EnterInsert), Ok(()));
    assert_eq!(tree.insert(motion("d"), Action::EnterVisual), Ok(()));
    let state = MotionInterpreterState::new();
    let state = match state.update(&tree, atom('a')) {
        Ok(state @ MotionInterpreterState::Pending(_)) => state,
        _ => panic!("expected 'a' to stay pending"),
    };
    match state.update(&tree, atom('c')) {
        Ok(MotionInterpreterState::Done(action)) => assert_eq!(action, Action::EnterInsert),
        _ => panic!("expected 'ac' to resolve"),
    }
}

#[test]
fn test_interpreter_resolves_registered_motion() {
    let mut tree = MotionTree::default();
    assert_eq!(tree.insert(motion("ab"), Action::Quit), Ok(()));
    let state = MotionInterpreterState::new();
    let state = match state.update(&tree, atom('a')) {
        Ok(state @ MotionInterpreterState::Pending(_)) => state,
        _ => panic!("expected 'a' to stay pending"),
    };
    match state.update(&tree, atom('b')) {
        Ok(MotionInterpreterState::Done(action)) => assert_eq!(action, Action::Quit),
        _ => panic!("expected 'ab' to resolve"),
    }
}

#[test]
fn test_interpreter_unknown_motion_carries_atoms() {
    let mut tree = MotionTree::default();
    assert_eq!(tree.insert(motion("ab"), Action::Quit), Ok(()));
    let state = MotionInterpreterState::new();
    let state = match state.update(&tree, atom('a')) {
        Ok(state @ MotionInterpreterState::Pending(_)) => state,
        _ => panic!("expected 'a' to stay pending"),
    };
    match state.update(&tree, atom('x')) {
        Err(MotionInterpreterError::UnknownMotion(buffered)) => {
            assert_eq!(buffered.0, vec![atom('a'), atom('x')]);
        }
        _ => panic!("expected an unknown motion"),
    }
}

#[test]
fn test_interpreter_unknown_motion_at_root() {
    let mut tree = MotionTree::default();
    assert_eq!(tree.insert(motion("a"), Action::Quit), Ok(()));
    let state = MotionInterpreterState::new();
    match state.update(&tree, atom('x')) {
        Err(MotionInterpreterError::UnknownMotion(buffered)) => {
            assert_eq!(buffered.0, vec![atom('x')]);
        }
        _ => panic!("expected an unknown motion"),
    }
}

#[test]
fn test_interpreter_done_must_be_collected() {
    let mut tree = MotionTree::default();
    assert_eq!(tree.insert(motion("a"), Action::Quit), Ok(()));
    let state = MotionInterpreterState::new();
    let state = match state.update(&tree, atom('a')) {
        Ok(state @ MotionInterpreterState::Done(_)) => state,
        _ => panic!("expected 'a' to resolve"),
    };
    match state.update(&tree, atom('a')) {
        Err(MotionInterpreterError::PendingMotion) => {}
        _ => panic!("expected an uncollected action to be an error"),
    }
}

#[test]
fn test_shorter_motion_wins_from_stale_buffer() {
    // a buffered sequence that already passes a leaf resolves to that
    // leaf, discarding the rest
    let mut tree = MotionTree::default();
    assert_eq!(tree.insert(motion("ab"), Action::Quit), Ok(()));
    let stale = MotionInterpreterState::Pending(motion("ab"));
    match stale.update(&tree, atom('z')) {
        Ok(MotionInterpreterState::Done(action)) => assert_eq!(action, Action::Quit),
        _ => panic!("expected the buffered motion to resolve"),
    }
}

#[test]
fn test_error_messages() {
    let unknown = MotionInterpreterError::UnknownMotion(motion("q"));
    assert_eq!(unknown.message(), "unknown motion");
    assert_eq!(MotionInterpreterError::PendingMotion.message(), "pending motion");
}
