//! The motion trie and its interpreter. A motion is a non-empty sequence
//! of input atoms naming one editing action. The trie maps atom sequences
//! to actions so that no registered motion is a strict prefix of another;
//! the interpreter walks it one atom at a time, buffering atoms until they
//! resolve to an action or run off the registered paths.

use vstd::prelude::*;

verus! {

/// One key of input: an exact pair of key code and modifier bits.
#[derive(Debug, PartialEq, Eq, Structural, Clone, Copy, Hash)]
pub struct MotionAtom {
    pub code: KeyCode,
    pub modifiers: u8,
}

/// The kinds of key an atom can carry; keys the editor does not
/// distinguish fall together under `Other`.
#[derive(Debug, PartialEq, Eq, Structural, Clone, Copy, Hash)]
pub enum KeyCode {
    Char(char),
    Esc,
    Enter,
    Tab,
    Backspace,
    Other,
}

/// The editing commands a trie leaf can name; `run_action` gives each its
/// meaning against the editor state.
#[derive(Debug, PartialEq, Eq, Structural, Clone, Copy)]
pub enum Action {
    Quit,
    EnterInsert,
    EnterNormal,
    EnterVisual,
}

/// The atoms consumed so far towards a motion, oldest first.
#[derive(Debug, Clone, PartialEq, Eq)]
pub struct MotionComponentBuffer(pub Vec<MotionAtom>);

/// Why a registration was rejected: an empty motion, or one that would
/// shadow (or be shadowed by) a shorter registered motion.
#[derive(Debug, PartialEq, Eq, Structural, Clone, Copy)]
pub enum MotionTreeError {
    EmptyMotion,
    MotionConflict,
}

/// Why an update failed: the accumulated atoms have no registered
/// continuation, or a resolved action was never collected.
#[derive(Debug, Clone, PartialEq, Eq)]
pub enum MotionInterpreterError {
    UnknownMotion(MotionComponentBuffer),
    PendingMotion,
}

impl MotionInterpreterError {
    /// The message surfaced on the command line for this error.
    pub open spec fn message_spec(&self) -> Seq<char> {
        match self {
            MotionInterpreterError::UnknownMotion(_) => "unknown motion"@,
            MotionInterpreterError::PendingMotion => "pending motion"@,
        }
    }

    /// Renders the message.
    pub fn message(&self) -> (r: String)
        ensures
            r@ == self.message_spec(),
    {
        match self {
            MotionInterpreterError::UnknownMotion(_) => "unknown motion".to_owned(),
            MotionInterpreterError::PendingMotion => "pending motion".to_owned(),
        }
    }
}

/// A prefix tree over input atoms. A `Tree` node maps each atom to a
/// child; an `Atom` node (a leaf) holds the action of one complete
/// motion.
#[derive(Debug)]
pub enum MotionTree {
    Tree(Vec<(MotionAtom, MotionTree)>),
    Atom(Action),
}

/// The child that `atom` names among `entries`: the first entry with that
/// key, as the executable search finds it.
pub open spec fn find_key(entries: Seq<(MotionAtom, MotionTree)>, atom: MotionAtom) -> Option<
    MotionTree,
>
    decreases entries.len(),
{
    if entries.len() == 0 {
        None
    } else if entries[0].0 == atom {
        Some(entries[0].1)
    } else {
        find_key(entries.drop_first(), atom)
    }
}

/// The action registered under exactly `path`, if any.
pub open spec fn lookup(t: MotionTree, path: Seq<MotionAtom>) -> Option<Action>
    decreases path.len(),
{
    match t {
        MotionTree::Atom(action) => if path.len() == 0 {
            Some(action)
        } else {
            None
        },
        MotionTree::Tree(entries) => if path.len() == 0 {
            None
        } else {
            match find_key(entries@, path[0]) {
                None => None,
                Some(child) => lookup(child, path.drop_first()),
            }
        },
    }
}

/// Whether registering `path` (non-empty) in `t` would clash with a
/// registered motion: a strict prefix of `path` is already complete, or
/// `path` itself ends on a subtree of longer continuations. A clash with
/// a leaf at exactly `path` is not a conflict; registration overwrites
/// such a binding silently.
pub open spec fn conflicts(t: MotionTree, path: Seq<MotionAtom>) -> bool
    decreases path.len(),
{
    match t {
        MotionTree::Atom(_) => true,
        MotionTree::Tree(entries) => if path.len() <= 1 {
            match find_key(entries@, path[0]) {
                Some(MotionTree::Tree(_)) => true,
                _ => false,
            }
        } else {
            match find_key(entries@, path[0]) {
                None => false,
                Some(child) => conflicts(child, path.drop_first()),
            }
        },
    }
}

/// Registration conflict: a motion that a registered motion is a strict
/// prefix of, and one that is itself a strict prefix of a registered
/// motion, both conflict — no atom sequence may be simultaneously a
/// complete path and a strict prefix of another registered path.
pub proof fn lemma_registered_prefix_conflicts(
    t: MotionTree,
    registered: Seq<MotionAtom>,
    candidate: Seq<MotionAtom>,
    action: Action,
)
    requires
        lookup(t, registered) == Some(action),
        candidate.len() > 0,
        registered != candidate,
        registered.len() < candidate.len() && candidate.take(registered.len() as int) == registered
            || candidate.len() < registered.len() && registered.take(candidate.len() as int)
            == candidate,
    ensures
        conflicts(t, candidate),
    decreases candidate.len(),
{
    if registered.len() < candidate.len() {
        // a shorter registered motion shadows the candidate
        match t {
            MotionTree::Atom(_) => {},
            MotionTree::Tree(entries) => {
                assert(registered.len() > 0);
                assert(candidate[0] == registered[0]) by {
                    assert(candidate.take(registered.len() as int)[0] == candidate[0]);
                }
                let child = find_key(entries@, registered[0])->Some_0;
                assert(candidate.len() > 1);
                assert(candidate.drop_first().take(registered.drop_first().len() as int)
                    =~= registered.drop_first()) by {
                    assert forall|j: int|
                        0 <= j < registered.len() - 1 implies candidate.drop_first()[j]
                        == registered.drop_first()[j] by {
                        assert(candidate.take(registered.len() as int)[j + 1] == candidate[j + 1]);
                    }
                }
                assert(registered.drop_first().len() < candidate.drop_first().len());
                assert(registered.drop_first() != candidate.drop_first()) by {
                    assert(registered.drop_first().len() != candidate.drop_first().len());
                }
                lemma_registered_prefix_conflicts(
                    child,
                    registered.drop_first(),
                    candidate.drop_first(),
                    action,
                );
            },
        }
    } else {
        // the candidate is a strict prefix of a registered motion
        match t {
            MotionTree::Atom(_) => {},
            MotionTree::Tree(entries) => {
                assert(registered[0] == candidate[0]) by {
                    assert(registered.take(candidate.len() as int)[0] == registered[0]);
                }
                let child = find_key(entries@, candidate[0])->Some_0;
                if candidate.len() == 1 {
                    // the registered motion continues below this slot, so
                    // the slot holds a subtree, never a leaf
                    assert(lookup(child, registered.drop_first()) == Some(action));
                    assert(registered.drop_first().len() > 0);
                    assert(child is Tree);
                } else {
                    assert(registered.drop_first().take(candidate.drop_first().len() as int)
                        =~= candidate.drop_first()) by {
                        assert forall|j: int|
                            0 <= j < candidate.len() - 1 implies registered.drop_first()[j]
                            == candidate.drop_first()[j] by {
                            assert(registered.take(candidate.len() as int)[j + 1] == registered[j
                                + 1]);
                        }
                    }
                    assert(candidate.drop_first() != registered.drop_first()) by {
                        assert(candidate.drop_first().len() != registered.drop_first().len());
                    }
                    lemma_registered_prefix_conflicts(
                        child,
                        registered.drop_first(),
                        candidate.drop_first(),
                        action,
                    );
                }
            },
        }
    }
}

/// Looking a key up after one entry was overwritten: the overwriting
/// entry answers for its own key, every other key is answered as before.
/// Holds when no earlier entry shares the overwritten entry's key.
proof fn lemma_find_key_update(
    entries: Seq<(MotionAtom, MotionTree)>,
    j: int,
    e: (MotionAtom, MotionTree),
    x: MotionAtom,
)
    requires
        0 <= j < entries.len(),
        forall|jj: int| 0 <= jj < j ==> entries[jj].0 != entries[j].0,
        e.0 == entries[j].0,
    ensures
        find_key(entries.update(j, e), x) == if x == e.0 {
            Some(e.1)
        } else {
            find_key(entries, x)
        },
    decreases entries.len(),
{
    if j == 0 {
        assert(entries.update(0, e).drop_first() =~= entries.drop_first());
    } else {
        assert(entries.update(j, e).drop_first() =~= entries.drop_first().update(j - 1, e));
        lemma_find_key_update(entries.drop_first(), j - 1, e, x);
    }
}

/// Looking a key up after an entry was appended: existing keys answer as
/// before; only a fresh key reaches the new entry.
proof fn lemma_find_key_push(
    entries: Seq<(MotionAtom, MotionTree)>,
    e: (MotionAtom, MotionTree),
    x: MotionAtom,
)
    ensures
        find_key(entries.push(e), x) == match find_key(entries, x) {
            Some(c) => Some(c),
            None => if x == e.0 {
                Some(e.1)
            } else {
                None
            },
        },
    decreases entries.len(),
{
    let p = entries.push(e);
    if entries.len() == 0 {
        assert(p.len() == 1);
        assert(p[0] == e);
        assert(p.drop_first() =~= Seq::<(MotionAtom, MotionTree)>::empty());
        if e.0 == x {
            assert(find_key(p, x) == Some(e.1));
        } else {
            assert(find_key(p, x) == find_key(p.drop_first(), x));
        }
        assert(find_key(entries, x) is None);
    } else {
        assert(p[0] == entries[0]);
        assert(p.drop_first() =~= entries.drop_first().push(e));
        lemma_find_key_push(entries.drop_first(), e, x);
        if entries[0].0 != x {
            assert(find_key(p, x) == find_key(p.drop_first(), x));
            assert(find_key(entries, x) == find_key(entries.drop_first(), x));
        }
    }
}

/// `q` continues `path` from position `i` exactly when its head is
/// `path[i]` and its tail continues from `i + 1`.
proof fn lemma_skip_head_tail(path: Seq<MotionAtom>, i: int, q: Seq<MotionAtom>)
    requires
        0 <= i < path.len(),
        q.len() > 0,
    ensures
        q == path.skip(i) <==> (q[0] == path[i] && q.drop_first() == path.skip(i + 1)),
{
    assert(q.drop_first().len() == q.len() - 1);
    assert(path.skip(i).len() == path.len() - i);
    assert(path.skip(i + 1).len() == path.len() - i - 1);
    if q[0] == path[i] && q.drop_first() == path.skip(i + 1) {
        assert(q.len() == path.len() - i);
        assert forall|j: int| 0 <= j < q.len() implies q[j] == path.skip(i)[j] by {
            if j > 0 {
                assert(q[j] == q.drop_first()[j - 1]);
                assert(path.skip(i + 1)[j - 1] == path[i + j]);
            }
        }
        assert(q =~= path.skip(i));
    }
    if q == path.skip(i) {
        assert forall|j: int| 0 <= j < q.len() - 1 implies q.drop_first()[j] == path.skip(i + 1)[j]
            by {
            assert(q.drop_first()[j] == q[j + 1]);
            assert(path.skip(i)[j + 1] == path[i + j + 1]);
            assert(path.skip(i + 1)[j] == path[i + 1 + j]);
        }
        assert(q.drop_first() =~= path.skip(i + 1));
    }
}

/// How the trie answers a walked atom sequence: an action as soon as a
/// leaf is reached (a shorter motion wins over a longer one sharing its
/// prefix), `Incomplete` while every atom kept to a branch, `NoMatch` as
/// soon as an atom had no child.
#[derive(Debug, PartialEq, Eq, Structural, Clone, Copy)]
pub enum ResolveOutcome {
    Resolved(Action),
    Incomplete,
    NoMatch,
}

/// The outcome of walking `path` through `t` from the root.
pub open spec fn resolve(t: MotionTree, path: Seq<MotionAtom>) -> ResolveOutcome
    decreases path.len(),
{
    match t {
        MotionTree::Atom(action) => ResolveOutcome::Resolved(action),
        MotionTree::Tree(entries) => if path.len() == 0 {
            ResolveOutcome::Incomplete
        } else {
            match find_key(entries@, path[0]) {
                None => ResolveOutcome::NoMatch,
                Some(child) => resolve(child, path.drop_first()),
            }
        },
    }
}

/// Interpreter resolution: a registered motion, fed atom by atom from an
/// empty buffer, keeps the interpreter pending on every strict prefix and
/// resolves to the registered action on its last atom.
pub proof fn lemma_interpreter_resolution(t: MotionTree, path: Seq<MotionAtom>, action: Action)
    requires
        lookup(t, path) == Some(action),
    ensures
        resolve(t, path) == ResolveOutcome::Resolved(action),
        forall|k: int|
            0 <= k < path.len() ==> resolve(t, #[trigger] path.take(k))
                == ResolveOutcome::Incomplete,
    decreases path.len(),
{
    match t {
        MotionTree::Atom(a) => {
            assert(path.len() == 0);
        },
        MotionTree::Tree(entries) => {
            assert(path.len() > 0);
            let child = find_key(entries@, path[0])->Some_0;
            lemma_interpreter_resolution(child, path.drop_first(), action);
            assert forall|k: int|
                0 <= k < path.len() implies resolve(t, #[trigger] path.take(k))
                == ResolveOutcome::Incomplete by {
                if k > 0 {
                    assert(path.take(k)[0] == path[0]);
                    assert(path.take(k).drop_first() =~= path.drop_first().take(k - 1));
                    assert(resolve(t, path.take(k)) == resolve(child, path.take(k).drop_first()));
                }
            }
        },
    }
}

/// Finds the position of the first entry keyed by `atom`.
fn find_index(entries: &Vec<(MotionAtom, MotionTree)>, atom: MotionAtom) -> (r: Option<usize>)
    ensures
        match r {
            Some(j) => j < entries@.len() && entries@[j as int].0 == atom && find_key(
                entries@,
                atom,
            ) == Some(entries@[j as int].1) && (forall|jj: int|
                0 <= jj < j ==> entries@[jj].0 != atom),
            None => find_key(entries@, atom) is None,
        },
{
    let n = entries.len();
    let mut i: usize = 0;
    proof {
        assert(entries@.skip(0) =~= entries@);
    }
    while i < n
        invariant
            i <= n,
            n == entries@.len(),
            find_key(entries@, atom) == find_key(entries@.skip(i as int), atom),
            forall|j: int| 0 <= j < i ==> entries@[j].0 != atom,
        decreases n - i,
    {
        if entries[i].0 == atom {
            assert(entries@.skip(i as int)[0] == entries@[i as int]);
            return Some(i);
        }
        proof {
            assert(entries@.skip(i as int).drop_first() =~= entries@.skip(i + 1));
        }
        i = i + 1;
    }
    None
}

/// Decides `conflicts` for `atoms[i..]` against `t`.
fn has_conflict(t: &MotionTree, atoms: &Vec<MotionAtom>, i: usize) -> (r: bool)
    requires
        i < atoms@.len(),
    ensures
        r == conflicts(*t, atoms@.skip(i as int)),
    decreases atoms@.len() - i,
{
    proof {
        assert(atoms@.skip(i as int)[0] == atoms@[i as int]);
        assert(atoms@.skip(i as int).drop_first() =~= atoms@.skip(i + 1));
    }
    match t {
        MotionTree::Atom(_) => true,
        MotionTree::Tree(entries) => {
            match find_index(entries, atoms[i]) {
                None => false,
                Some(j) => {
                    if i == atoms.len() - 1 {
                        match &entries[j].1 {
                            MotionTree::Tree(_) => true,
                            MotionTree::Atom(_) => false,
                        }
                    } else {
                        has_conflict(&entries[j].1, atoms, i + 1)
                    }
                },
            }
        },
    }
}

/// A bare chain of branches for `path[i..]`, ending in a leaf that holds
/// `action`: the one motion it registers is exactly `path[i..]`.
fn make_chain(path: &Vec<MotionAtom>, i: usize, action: Action) -> (r: MotionTree)
    requires
        i <= path@.len(),
    ensures
        forall|q: Seq<MotionAtom>|
            #[trigger] lookup(r, q) == if q == path@.skip(i as int) {
                Some(action)
            } else {
                None::<Action>
            },
    decreases path@.len() - i,
{
    if i == path.len() {
        let r = MotionTree::Atom(action);
        proof {
            assert forall|q: Seq<MotionAtom>|
                #[trigger] lookup(r, q) == if q == path@.skip(i as int) {
                    Some(action)
                } else {
                    None::<Action>
                } by {
                assert(path@.skip(i as int) =~= Seq::<MotionAtom>::empty());
                if q.len() == 0 {
                    assert(q =~= Seq::<MotionAtom>::empty());
                }
            }
        }
        r
    } else {
        let child = make_chain(path, i + 1, action);
        let ghost gchild = child;
        let mut entries: Vec<(MotionAtom, MotionTree)> = Vec::new();
        entries.push((path[i], child));
        let ghost centries = entries@;
        let r = MotionTree::Tree(entries);
        proof {
            assert forall|q: Seq<MotionAtom>|
                #[trigger] lookup(r, q) == if q == path@.skip(i as int) {
                    Some(action)
                } else {
                    None::<Action>
                } by {
                assert(centries.len() == 1);
                assert(centries[0] == (path@[i as int], gchild));
                assert(path@.skip(i as int).len() == path@.len() - i);
                if q.len() == 0 {
                    assert(lookup(r, q) is None);
                    assert(q != path@.skip(i as int));
                } else {
                    lemma_skip_head_tail(path@, i as int, q);
                    if q[0] == path@[i as int] {
                        assert(find_key(centries, q[0]) == Some(gchild));
                        assert(lookup(r, q) == lookup(gchild, q.drop_first()));
                        assert(lookup(gchild, q.drop_first()) == if q.drop_first() == path@.skip(
                            i + 1,
                        ) {
                            Some(action)
                        } else {
                            None::<Action>
                        });
                    } else {
                        assert(centries.drop_first() =~= Seq::<(MotionAtom, MotionTree)>::empty());
                        assert(find_key(Seq::<(MotionAtom, MotionTree)>::empty(), q[0]) is None);
                        assert(find_key(centries, q[0]) is None);
                        assert(lookup(r, q) is None);
                        assert(q != path@.skip(i as int));
                    }
                }
            }
        }
        r
    }
}

/// Registers `path[i..]` in `t`, known conflict-free: afterwards exactly
/// that motion answers with `action` and every other one as before.
fn insert_owned(t: MotionTree, path: &Vec<MotionAtom>, i: usize, action: Action) -> (r: MotionTree)
    requires
        i < path@.len(),
        !conflicts(t, path@.skip(i as int)),
    ensures
        forall|q: Seq<MotionAtom>|
            #[trigger] lookup(r, q) == if q == path@.skip(i as int) {
                Some(action)
            } else {
                lookup(t, q)
            },
    decreases path@.len() - i,
{
    let ghost gt = t;
    proof {
        assert(path@.skip(i as int)[0] == path@[i as int]);
        assert(path@.skip(i as int).drop_first() =~= path@.skip(i + 1));
    }
    match t {
        MotionTree::Atom(_) => {
            proof {
                assert(false);
            }
            MotionTree::Atom(action)
        },
        MotionTree::Tree(mut entries) => {
            let ghost pre_entries = entries@;
            let atom = path[i];
            let found = find_index(&entries, atom);
            if i == path.len() - 1 {
                match found {
                    Some(j) => {
                        entries[j] = (atom, MotionTree::Atom(action));
                        proof {
                            assert forall|x: MotionAtom|
                                #[trigger] find_key(entries@, x) == if x == atom {
                                    Some(MotionTree::Atom(action))
                                } else {
                                    find_key(pre_entries, x)
                                } by {
                                lemma_find_key_update(
                                    pre_entries,
                                    j as int,
                                    (atom, MotionTree::Atom(action)),
                                    x,
                                );
                            }
                        }
                    },
                    None => {
                        entries.push((atom, MotionTree::Atom(action)));
                        proof {
                            assert forall|x: MotionAtom|
                                #[trigger] find_key(entries@, x) == if x == atom {
                                    Some(MotionTree::Atom(action))
                                } else {
                                    find_key(pre_entries, x)
                                } by {
                                lemma_find_key_push(
                                    pre_entries,
                                    (atom, MotionTree::Atom(action)),
                                    x,
                                );
                            }
                        }
                    },
                }
                let ghost post_entries = entries@;
                let r = MotionTree::Tree(entries);
                proof {
                    assert forall|q: Seq<MotionAtom>|
                        #[trigger] lookup(r, q) == if q == path@.skip(i as int) {
                            Some(action)
                        } else {
                            lookup(gt, q)
                        } by {
                        assert(path@.skip(i as int).len() == path@.len() - i);
                        if q.len() == 0 {
                        } else {
                            lemma_skip_head_tail(path@, i as int, q);
                            if q[0] == atom {
                                assert(find_key(post_entries, atom) == Some(
                                    MotionTree::Atom(action),
                                ));
                                assert(lookup(r, q) == lookup(
                                    MotionTree::Atom(action),
                                    q.drop_first(),
                                ));
                                assert(path@.skip(i + 1) =~= Seq::<MotionAtom>::empty());
                                if q.drop_first().len() == 0 {
                                    assert(q.drop_first() =~= Seq::<MotionAtom>::empty());
                                    assert(lookup(MotionTree::Atom(action), q.drop_first())
                                        == Some(action));
                                } else {
                                    assert(lookup(MotionTree::Atom(action), q.drop_first())
                                        is None);
                                    match find_key(pre_entries, atom) {
                                        Some(c) => {
                                            assert(!(c is Tree));
                                            assert(lookup(c, q.drop_first()) is None);
                                            assert(lookup(gt, q) == lookup(c, q.drop_first()));
                                        },
                                        None => {
                                            assert(lookup(gt, q) is None);
                                        },
                                    }
                                }
                            } else {
                                assert(find_key(post_entries, q[0]) == find_key(
                                    pre_entries,
                                    q[0],
                                ));
                            }
                        }
                    }
                }
                r
            } else {
                match found {
                    Some(j) => {
                        let (_, child) = entries.remove(j);
                        let ghost gchild = child;
                        let child2 = insert_owned(child, path, i + 1, action);
                        let ghost gchild2 = child2;
                        entries.insert(j, (atom, child2));
                        let ghost post_entries = entries@;
                        proof {
                            assert(post_entries =~= pre_entries.update(j as int, (atom, gchild2)));
                        }
                        let r = MotionTree::Tree(entries);
                        proof {
                            assert forall|q: Seq<MotionAtom>|
                                #[trigger] lookup(r, q) == if q == path@.skip(i as int) {
                                    Some(action)
                                } else {
                                    lookup(gt, q)
                                } by {
                                assert(path@.skip(i as int).len() == path@.len() - i);
                                if q.len() == 0 {
                                } else {
                                    lemma_skip_head_tail(path@, i as int, q);
                                    lemma_find_key_update(
                                        pre_entries,
                                        j as int,
                                        (atom, gchild2),
                                        q[0],
                                    );
                                    if q[0] == atom {
                                        assert(find_key(post_entries, atom) == Some(gchild2));
                                        assert(find_key(pre_entries, atom) == Some(gchild));
                                        assert(lookup(r, q) == lookup(gchild2, q.drop_first()));
                                        assert(lookup(gt, q) == lookup(gchild, q.drop_first()));
                                        assert(lookup(gchild2, q.drop_first()) == if q.drop_first()
                                            == path@.skip(i + 1) {
                                            Some(action)
                                        } else {
                                            lookup(gchild, q.drop_first())
                                        });
                                    } else {
                                        assert(find_key(post_entries, q[0]) == find_key(
                                            pre_entries,
                                            q[0],
                                        ));
                                    }
                                }
                            }
                        }
                        r
                    },
                    None => {
                        let child = make_chain(path, i + 1, action);
                        let ghost gchild = child;
                        entries.push((atom, child));
                        let ghost post_entries = entries@;
                        let r = MotionTree::Tree(entries);
                        proof {
                            assert forall|q: Seq<MotionAtom>|
                                #[trigger] lookup(r, q) == if q == path@.skip(i as int) {
                                    Some(action)
                                } else {
                                    lookup(gt, q)
                                } by {
                                assert(path@.skip(i as int).len() == path@.len() - i);
                                if q.len() == 0 {
                                } else {
                                    lemma_skip_head_tail(path@, i as int, q);
                                    lemma_find_key_push(pre_entries, (atom, gchild), q[0]);
                                    if q[0] == atom {
                                        assert(find_key(post_entries, atom) == Some(gchild));
                                        assert(find_key(pre_entries, atom) is None);
                                        assert(lookup(r, q) == lookup(gchild, q.drop_first()));
                                        assert(lookup(gt, q) is None);
                                        assert(lookup(gchild, q.drop_first()) == if q.drop_first()
                                            == path@.skip(i + 1) {
                                            Some(action)
                                        } else {
                                            None::<Action>
                                        });
                                    } else {
                                        assert(find_key(post_entries, q[0]) == find_key(
                                            pre_entries,
                                            q[0],
                                        ));
                                    }
                                }
                            }
                        }
                        r
                    },
                }
            }
        },
    }
}

impl MotionTree {
    /// Registers `motion` as a complete command running `action`. An
    /// empty motion is rejected; so is one that a shorter registered
    /// motion shadows, or one that longer registered motions extend. A
    /// rejected registration leaves the tree exactly as it was; an
    /// accepted one changes the answer for exactly this motion,
    /// overwriting a binding at the very same path silently.
    pub fn insert(&mut self, motion: MotionComponentBuffer, action: Action) -> (r: Result<
        (),
        MotionTreeError,
    >)
        ensures
            motion.0@.len() == 0 ==> r == Err::<(), MotionTreeError>(MotionTreeError::EmptyMotion)
                && *final(self) == *old(self),
            motion.0@.len() > 0 && conflicts(*old(self), motion.0@) ==> r == Err::<
                (),
                MotionTreeError,
            >(MotionTreeError::MotionConflict) && *final(self) == *old(self),
            motion.0@.len() > 0 && !conflicts(*old(self), motion.0@) ==> r == Ok::<
                (),
                MotionTreeError,
            >(()) && (forall|q: Seq<MotionAtom>|
                #[trigger] lookup(*final(self), q) == if q == motion.0@ {
                    Some(action)
                } else {
                    lookup(*old(self), q)
                }),
    {
        if motion.0.len() == 0 {
            return Err(MotionTreeError::EmptyMotion);
        }
        proof {
            assert(motion.0@.skip(0) =~= motion.0@);
        }
        if has_conflict(self, &motion.0, 0) {
            return Err(MotionTreeError::MotionConflict);
        }
        let mut taken = MotionTree::Tree(Vec::new());
        core::mem::swap(self, &mut taken);
        let updated = insert_owned(taken, &motion.0, 0, action);
        *self = updated;
        Ok(())
    }
}

impl Default for MotionTree {
    /// An empty trie: a root branch with no children at all.
    fn default() -> (r: Self)
        ensures
            r matches MotionTree::Tree(entries) && entries@ == Seq::<(
                MotionAtom,
                MotionTree,
            )>::empty(),
    {
        Self::Tree(Vec::new())
    }
}

/// The interpreter: atoms buffered towards a motion, or a motion already
/// resolved to its action and waiting to be collected.
#[derive(Debug)]
pub enum MotionInterpreterState {
    Pending(MotionComponentBuffer),
    Done(Action),
}

/// Walks `atoms[i..]` through `t`, mirroring `resolve`.
fn resolve_from(t: &MotionTree, atoms: &Vec<MotionAtom>, i: usize) -> (r: ResolveOutcome)
    requires
        i <= atoms@.len(),
    ensures
        r == resolve(*t, atoms@.skip(i as int)),
    decreases atoms@.len() - i,
{
    match t {
        MotionTree::Atom(action) => ResolveOutcome::Resolved(*action),
        MotionTree::Tree(entries) => {
            if i == atoms.len() {
                ResolveOutcome::Incomplete
            } else {
                proof {
                    assert(atoms@.skip(i as int)[0] == atoms@[i as int]);
                    assert(atoms@.skip(i as int).drop_first() =~= atoms@.skip(i + 1));
                }
                match find_index(entries, atoms[i]) {
                    None => ResolveOutcome::NoMatch,
                    Some(j) => resolve_from(&entries[j].1, atoms, i + 1),
                }
            }
        },
    }
}

impl MotionInterpreterState {
    /// A fresh interpreter: nothing buffered, nothing resolved.
    pub fn new() -> (r: Self)
        ensures
            r matches MotionInterpreterState::Pending(b) && b.0@ == Seq::<MotionAtom>::empty(),
    {
        Self::Pending(MotionComponentBuffer(Vec::new()))
    }

    /// Feeds one more atom. From `Pending`, the buffered atoms plus `next`
    /// are walked through the tree from the root: an action resolves the
    /// motion, a branch keeps it pending, a missing child rejects the
    /// whole accumulated sequence. From `Done`, the caller failed to
    /// collect the previous action and reset; nothing is consumed.
    pub fn update(self, motion_tree: &MotionTree, next: MotionAtom) -> (r: Result<
        Self,
        MotionInterpreterError,
    >)
        ensures
            self matches MotionInterpreterState::Done(_) ==> r == Err::<
                Self,
                MotionInterpreterError,
            >(MotionInterpreterError::PendingMotion),
            self matches MotionInterpreterState::Pending(buf) ==> {
                match resolve(*motion_tree, buf.0@.push(next)) {
                    ResolveOutcome::Resolved(action) => r == Ok::<Self, MotionInterpreterError>(
                        MotionInterpreterState::Done(action),
                    ),
                    ResolveOutcome::Incomplete => r matches Ok(
                        MotionInterpreterState::Pending(b),
                    ) && b.0@ == buf.0@.push(next),
                    ResolveOutcome::NoMatch => r matches Err(
                        MotionInterpreterError::UnknownMotion(b),
                    ) && b.0@ == buf.0@.push(next),
                }
            },
    {
        match self {
            MotionInterpreterState::Pending(mut motion_component_buffer) => {
                motion_component_buffer.0.push(next);
                proof {
                    assert(motion_component_buffer.0@.skip(0) =~= motion_component_buffer.0@);
                }
                match resolve_from(motion_tree, &motion_component_buffer.0, 0) {
                    ResolveOutcome::Resolved(action) => Ok(MotionInterpreterState::Done(action)),
                    ResolveOutcome::Incomplete => Ok(
                        MotionInterpreterState::Pending(motion_component_buffer),
                    ),
                    ResolveOutcome::NoMatch => Err(
                        MotionInterpreterError::UnknownMotion(motion_component_buffer),
                    ),
                }
            },
            MotionInterpreterState::Done(_) => Err(MotionInterpreterError::PendingMotion),
        }
    }
}

} // verus!
