//! The default motion bindings of each mode. Every default motion is a
//! single atom, so each mode's trie is a flat table: Normal binds escape
//! to quitting and `i` / `v` to entering Insert and Visual mode; Insert
//! binds escape back to Normal; Visual binds both `v` and escape back to
//! Normal.

use vstd::prelude::*;
use crate::motion_interpreter::Action;
use crate::motion_interpreter::KeyCode;
use crate::motion_interpreter::MotionAtom;
use crate::motion_interpreter::MotionTree;
use crate::motion_interpreter::lookup;

verus! {

/// The action the first entry keyed by `x` binds, if any.
pub open spec fn find_binding(bindings: Seq<(MotionAtom, Action)>, x: MotionAtom) -> Option<
    Action,
>
    decreases bindings.len(),
{
    if bindings.len() == 0 {
        None
    } else if bindings[0].0 == x {
        Some(bindings[0].1)
    } else {
        find_binding(bindings.drop_first(), x)
    }
}

/// What a trie built from a flat binding table answers: the bound action
/// for a single bound atom, nothing for anything else.
pub open spec fn bound_lookup(bindings: Seq<(MotionAtom, Action)>, q: Seq<MotionAtom>) -> Option<
    Action,
> {
    if q.len() == 1 {
        find_binding(bindings, q[0])
    } else {
        None
    }
}

/// The Normal-mode bindings: escape quits, `i` and `v` enter Insert and
/// Visual mode.
pub open spec fn normal_mode_bindings() -> Seq<(MotionAtom, Action)> {
    seq![
        ((MotionAtom { code: KeyCode::Esc, modifiers: 0 }), Action::Quit),
        ((MotionAtom { code: KeyCode::Char('i'), modifiers: 0 }), Action::EnterInsert),
        ((MotionAtom { code: KeyCode::Char('v'), modifiers: 0 }), Action::EnterVisual),
    ]
}

/// The Insert-mode bindings: escape returns to Normal mode.
pub open spec fn insert_mode_bindings() -> Seq<(MotionAtom, Action)> {
    seq![((MotionAtom { code: KeyCode::Esc, modifiers: 0 }), Action::EnterNormal)]
}

/// The Visual-mode bindings: `v` and escape both return to Normal mode.
pub open spec fn visual_mode_bindings() -> Seq<(MotionAtom, Action)> {
    seq![
        ((MotionAtom { code: KeyCode::Char('v'), modifiers: 0 }), Action::EnterNormal),
        ((MotionAtom { code: KeyCode::Esc, modifiers: 0 }), Action::EnterNormal),
    ]
}

/// A leaf for each binding, keyed by its atom, mirrored from `bindings`.
proof fn lemma_find_key_of_bindings(
    bindings: Seq<(MotionAtom, Action)>,
    entries: Seq<(MotionAtom, MotionTree)>,
    x: MotionAtom,
)
    requires
        entries.len() == bindings.len(),
        forall|j: int|
            0 <= j < bindings.len() ==> #[trigger] entries[j] == (
                bindings[j].0,
                MotionTree::Atom(bindings[j].1),
            ),
    ensures
        crate::motion_interpreter::find_key(entries, x) == match find_binding(bindings, x) {
            Some(action) => Some(MotionTree::Atom(action)),
            None => None::<MotionTree>,
        },
    decreases bindings.len(),
{
    if bindings.len() == 0 {
    } else {
        assert(entries[0] == (bindings[0].0, MotionTree::Atom(bindings[0].1)));
        assert(entries.drop_first().len() == bindings.drop_first().len());
        assert forall|j: int| 0 <= j < bindings.drop_first().len() implies #[trigger] entries
            .drop_first()[j] == (
            bindings.drop_first()[j].0,
            MotionTree::Atom(bindings.drop_first()[j].1),
        ) by {
            assert(entries.drop_first()[j] == entries[j + 1]);
            assert(bindings.drop_first()[j] == bindings[j + 1]);
        }
        lemma_find_key_of_bindings(bindings.drop_first(), entries.drop_first(), x);
    }
}

/// A trie holding one single-atom motion per binding: exactly the bound
/// atoms resolve, each to its bound action.
fn single_atom_tree(bindings: &Vec<(MotionAtom, Action)>) -> (r: MotionTree)
    ensures
        forall|q: Seq<MotionAtom>| #[trigger] lookup(r, q) == bound_lookup(bindings@, q),
{
    let mut entries: Vec<(MotionAtom, MotionTree)> = Vec::new();
    let n = bindings.len();
    let mut i: usize = 0;
    while i < n
        invariant
            i <= n,
            n == bindings@.len(),
            entries@.len() == i,
            forall|j: int|
                0 <= j < i ==> #[trigger] entries@[j] == (
                    bindings@[j].0,
                    MotionTree::Atom(bindings@[j].1),
                ),
        decreases n - i,
    {
        let (atom, action) = bindings[i];
        entries.push((atom, MotionTree::Atom(action)));
        i = i + 1;
    }
    let ghost centries = entries@;
    let r = MotionTree::Tree(entries);
    proof {
        assert forall|q: Seq<MotionAtom>| #[trigger] lookup(r, q) == bound_lookup(bindings@, q) by {
            if q.len() == 0 {
            } else {
                lemma_find_key_of_bindings(bindings@, centries, q[0]);
                match find_binding(bindings@, q[0]) {
                    Some(action) => {
                        assert(lookup(r, q) == lookup(
                            MotionTree::Atom(action),
                            q.drop_first(),
                        ));
                        if q.len() == 1 {
                            assert(q.drop_first().len() == 0);
                            assert(lookup(MotionTree::Atom(action), q.drop_first()) == Some(
                                action,
                            ));
                        } else {
                            assert(lookup(MotionTree::Atom(action), q.drop_first()) is None);
                        }
                    },
                    None => {},
                }
            }
        }
    }
    r
}

/// Installs the Normal-mode bindings as that mode's trie.
pub fn setup_normal_motions(motion_tree: &mut MotionTree)
    ensures
        forall|q: Seq<MotionAtom>|
            #[trigger] lookup(*final(motion_tree), q) == bound_lookup(normal_mode_bindings(), q),
{
    let mut bindings: Vec<(MotionAtom, Action)> = Vec::new();
    bindings.push((MotionAtom { code: KeyCode::Esc, modifiers: 0 }, Action::Quit));
    bindings.push((MotionAtom { code: KeyCode::Char('i'), modifiers: 0 }, Action::EnterInsert));
    bindings.push((MotionAtom { code: KeyCode::Char('v'), modifiers: 0 }, Action::EnterVisual));
    proof {
        assert(bindings@ =~= normal_mode_bindings());
    }
    *motion_tree = single_atom_tree(&bindings);
}

/// Installs the Insert-mode bindings as that mode's trie.
pub fn setup_insert_motions(motion_tree: &mut MotionTree)
    ensures
        forall|q: Seq<MotionAtom>|
            #[trigger] lookup(*final(motion_tree), q) == bound_lookup(insert_mode_bindings(), q),
{
    let mut bindings: Vec<(MotionAtom, Action)> = Vec::new();
    bindings.push((MotionAtom { code: KeyCode::Esc, modifiers: 0 }, Action::EnterNormal));
    proof {
        assert(bindings@ =~= insert_mode_bindings());
    }
    *motion_tree = single_atom_tree(&bindings);
}

/// Installs the Visual-mode bindings as that mode's trie.
pub fn setup_visual_motions(motion_tree: &mut MotionTree)
    ensures
        forall|q: Seq<MotionAtom>|
            #[trigger] lookup(*final(motion_tree), q) == bound_lookup(visual_mode_bindings(), q),
{
    let mut bindings: Vec<(MotionAtom, Action)> = Vec::new();
    bindings.push((MotionAtom { code: KeyCode::Char('v'), modifiers: 0 }, Action::EnterNormal));
    bindings.push((MotionAtom { code: KeyCode::Esc, modifiers: 0 }, Action::EnterNormal));
    proof {
        assert(bindings@ =~= visual_mode_bindings());
    }
    *motion_tree = single_atom_tree(&bindings);
}

/// Installs the default bindings of all three modes.
pub fn setup_motions(
    normal_motion_tree: &mut MotionTree,
    insert_motion_tree: &mut MotionTree,
    visual_motion_tree: &mut MotionTree,
)
    ensures
        forall|q: Seq<MotionAtom>|
            #[trigger] lookup(*final(normal_motion_tree), q) == bound_lookup(
                normal_mode_bindings(),
                q,
            ),
        forall|q: Seq<MotionAtom>|
            #[trigger] lookup(*final(insert_motion_tree), q) == bound_lookup(
                insert_mode_bindings(),
                q,
            ),
        forall|q: Seq<MotionAtom>|
            #[trigger] lookup(*final(visual_motion_tree), q) == bound_lookup(
                visual_mode_bindings(),
                q,
            ),
{
    setup_normal_motions(normal_motion_tree);
    setup_insert_motions(insert_motion_tree);
    setup_visual_motions(visual_motion_tree);
}

} // verus!
