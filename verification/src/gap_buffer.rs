//! A gap buffer: a fixed-capacity store with a movable window of unused
//! slots (the gap). Edits at the gap are cheap; moving the gap costs the
//! distance moved. The logical content is the store with the gap excluded.

use vstd::prelude::*;

verus! {

/// The gap window: a contiguous run of `size` unused slots starting at
/// `index` inside the store.
#[derive(Debug)]
pub struct GapWindow {
    index: usize,
    size: usize,
}

/// A gap buffer over small copyable items. The logical content is
/// `buffer[0 .. gap.index]` followed by `buffer[gap.index + gap.size ..]`;
/// the view of the buffer is that logical content.
#[derive(Debug)]
pub struct GapBuffer<T> {
    buffer: Vec<T>,
    gap_window: GapWindow,
}

impl<T> View for GapBuffer<T> {
    type V = Seq<T>;

    /// The logical content: the store with the gap slots cut out.
    closed spec fn view(&self) -> Seq<T> {
        self.buffer@.subrange(0, self.gap_window.index as int) + self.buffer@.subrange(
            self.gap_window.index + self.gap_window.size,
            self.buffer@.len() as int,
        )
    }
}

impl<T> GapBuffer<T> {
    /// The physical store, padding slots included.
    pub closed spec fn store(&self) -> Seq<T> {
        self.buffer@
    }

    /// Where the gap starts; also the logical offset at which the next
    /// insert or delete applies.
    pub closed spec fn gap_start(&self) -> int {
        self.gap_window.index as int
    }

    /// How many unused slots the gap holds.
    pub closed spec fn gap_len(&self) -> int {
        self.gap_window.size as int
    }

    /// The gap lies within the store.
    pub open spec fn wf(&self) -> bool {
        0 <= self.gap_start() && self.gap_start() + self.gap_len() <= self.store().len()
    }

    /// How many items the buffer logically holds.
    pub open spec fn len_spec(&self) -> int {
        self.store().len() - self.gap_len()
    }

    /// Ties the logical content to the physical store: the view is
    /// exactly the store's prefix before the gap followed by its suffix
    /// after the gap.
    pub proof fn lemma_view_parts(&self)
        requires
            self.wf(),
        ensures
            self@.len() == self.len_spec(),
            self@.subrange(0, self.gap_start()) == self.store().subrange(0, self.gap_start()),
            self@.subrange(self.gap_start(), self@.len() as int) == self.store().subrange(
                self.gap_start() + self.gap_len(),
                self.store().len() as int,
            ),
    {
        assert(self@.subrange(0, self.gap_start()) =~= self.store().subrange(
            0,
            self.gap_start(),
        ));
        assert(self@.subrange(self.gap_start(), self@.len() as int) =~= self.store().subrange(
            self.gap_start() + self.gap_len(),
            self.store().len() as int,
        ));
    }
}

/// What `splice` leaves in the vector. `end == None` stands for an
/// unbounded range: everything from `start` on is replaced by `items`.
/// An empty range (`end == Some(start)`) inserts all of `items` at
/// `start`. A non-empty bounded range is replaced by at most as many
/// items as the range held.
pub open spec fn splice_spec<T>(s: Seq<T>, start: int, end: Option<usize>, items: Seq<T>) -> Seq<
    T,
> {
    match end {
        None => s.take(start) + items,
        Some(e) => if e == start {
            s.take(start) + items + s.skip(start)
        } else if items.len() <= e - start {
            s.take(start) + items + s.skip(e as int)
        } else {
            s.take(start) + items.take(e - start) + s.skip(e as int)
        },
    }
}

/// Replaces the range `[start, end)` of `vec` (to the vector's end when
/// `end` is `None`) as `splice_spec` says: an empty range inserts all of
/// `items`; a non-empty bounded range never takes more items than it held.
pub fn splice<T: Copy>(vec: &mut Vec<T>, start: usize, end: Option<usize>, items: &[T])
    requires
        start <= old(vec)@.len(),
        end matches Some(e) ==> start <= e && e <= old(vec)@.len(),
    ensures
        final(vec)@ == splice_spec(old(vec)@, start as int, end, items@),
{
    let ghost orig = vec@;
    let n = items.len();
    match end {
        None => {
            vec.truncate(start);
            let mut i: usize = 0;
            while i < n
                invariant
                    i <= n,
                    n == items@.len(),
                    vec@ == orig.take(start as int) + items@.take(i as int),
                decreases n - i,
            {
                vec.push(items[i]);
                proof {
                    assert(orig.take(start as int) + items@.take(i + 1) =~= (orig.take(
                        start as int,
                    ) + items@.take(i as int)).push(items@[i as int]));
                }
                i = i + 1;
            }
            proof {
                assert(items@.take(n as int) =~= items@);
            }
        },
        Some(e) => {
            if e == start {
                let mut tail = vec.split_off(start);
                let mut i: usize = 0;
                while i < n
                    invariant
                        i <= n,
                        n == items@.len(),
                        vec@ == orig.take(start as int) + items@.take(i as int),
                    decreases n - i,
                {
                    vec.push(items[i]);
                    proof {
                        assert(orig.take(start as int) + items@.take(i + 1) =~= (orig.take(
                            start as int,
                        ) + items@.take(i as int)).push(items@[i as int]));
                    }
                    i = i + 1;
                }
                vec.append(&mut tail);
                proof {
                    assert(items@.take(n as int) =~= items@);
                }
            } else {
                let width = e - start;
                let k = if n < width {
                    n
                } else {
                    width
                };
                let mut i: usize = 0;
                while i < k
                    invariant
                        i <= k,
                        k <= n,
                        k <= width,
                        n == items@.len(),
                        start + width <= orig.len(),
                        width == e - start,
                        vec@ == orig.take(start as int) + items@.take(i as int) + orig.skip(
                            start + i,
                        ),
                    decreases k - i,
                {
                    proof {
                        assert(vec@.len() == orig.len());
                    }
                    vec[start + i] = items[i];
                    proof {
                        assert((orig.take(start as int) + items@.take(i as int) + orig.skip(
                            start + i,
                        )).update(start + i, items@[i as int]) =~= orig.take(start as int)
                            + items@.take(i + 1) + orig.skip(start + i + 1));
                    }
                    i = i + 1;
                }
                let mut j: usize = 0;
                while j < width - k
                    invariant
                        j <= width - k,
                        k <= n,
                        k <= width,
                        n == items@.len(),
                        start + width <= orig.len(),
                        width == e - start,
                        vec@ == orig.take(start as int) + items@.take(k as int) + orig.skip(
                            start + k + j,
                        ),
                    decreases width - k - j,
                {
                    proof {
                        let cur = orig.take(start as int) + items@.take(k as int) + orig.skip(
                            start + k + j,
                        );
                        assert(start + k < cur.len());
                        assert(cur.remove(start + k) =~= orig.take(start as int) + items@.take(
                            k as int,
                        ) + orig.skip(start + k + j + 1));
                    }
                    vec.remove(start + k);
                    j = j + 1;
                }
                proof {
                    if n <= width {
                        assert(items@.take(k as int) =~= items@);
                    }
                }
            }
        },
    }
}

/// The store length chosen when an insert outgrows the gap: the old
/// length doubled when that is both representable and enough, else
/// exactly what the content needs.
pub open spec fn grown_capacity(len: int, needed: int) -> int {
    if 2 * len <= usize::MAX && 2 * len > needed {
        2 * len
    } else {
        needed
    }
}

/// What `insert` does to the logical content: the items go in at the gap
/// position, and the gap ends up immediately after them.
pub open spec fn insert_effect<T>(pre: GapBuffer<T>, post: GapBuffer<T>, items: Seq<T>) -> bool {
    &&& post@ == pre@.take(pre.gap_start()) + items + pre@.skip(pre.gap_start())
    &&& post.gap_start() == pre.gap_start() + items.len()
}

/// What `delete` does: the gap grows leftward over up to `count` items,
/// clamped at the buffer start, and those items leave the logical
/// content; the store itself is untouched.
pub open spec fn delete_effect<T>(pre: GapBuffer<T>, post: GapBuffer<T>, count: int) -> bool {
    &&& post.store() == pre.store()
    &&& post.gap_start() == if count <= pre.gap_start() {
        pre.gap_start() - count
    } else {
        0
    }
    &&& post.gap_start() + post.gap_len() == pre.gap_start() + pre.gap_len()
    &&& post@ == pre@.take(post.gap_start()) + pre@.skip(pre.gap_start())
}

/// What `move_gap` does: the logical content and the gap's size are kept,
/// only the gap's place changes. The store is pinned exactly: the region
/// between the old and the new gap position crosses the gap, the slots
/// the gap leaves behind keep the values they held, and when the gap is
/// already at the target the whole store is untouched.
pub open spec fn move_gap_effect<T>(pre: GapBuffer<T>, post: GapBuffer<T>, index: int) -> bool {
    &&& post@ == pre@
    &&& post.gap_start() == index
    &&& post.gap_len() == pre.gap_len()
    &&& post.store().len() == pre.store().len()
    &&& index < pre.gap_start() ==> post.store() == pre.store().take(index + pre.gap_len())
        + pre.store().subrange(index, pre.gap_start()) + pre.store().skip(
        pre.gap_start() + pre.gap_len(),
    )
    &&& index > pre.gap_start() ==> post.store() == pre.store().take(pre.gap_start())
        + pre.store().subrange(pre.gap_start() + pre.gap_len(), index + pre.gap_len())
        + pre.store().skip(index)
    &&& pre.gap_start() == index ==> post.store() == pre.store()
}

/// `count` fresh default-valued slots.
fn default_slots<T: Copy + Default>(count: usize) -> (r: Vec<T>)
    ensures
        r@.len() == count,
        forall|i: int| 0 <= i < r@.len() ==> call_ensures(T::default, (), #[trigger] r@[i]),
{
    let mut slots: Vec<T> = Vec::new();
    while slots.len() < count
        invariant
            slots@.len() <= count,
            forall|i: int|
                0 <= i < slots@.len() ==> call_ensures(T::default, (), #[trigger] slots@[i]),
        decreases count - slots@.len(),
    {
        slots.push(T::default());
    }
    slots
}

/// A copy of `v[from .. to]`.
fn copy_range<T: Copy>(v: &Vec<T>, from: usize, to: usize) -> (r: Vec<T>)
    requires
        from <= to,
        to <= v@.len(),
    ensures
        r@ == v@.subrange(from as int, to as int),
{
    let mut r: Vec<T> = Vec::new();
    let mut i: usize = from;
    while i < to
        invariant
            from <= i <= to,
            to <= v@.len(),
            r@ == v@.subrange(from as int, i as int),
        decreases to - i,
    {
        r.push(v[i]);
        proof {
            assert(v@.subrange(from as int, i + 1) =~= v@.subrange(from as int, i as int).push(
                v@[i as int],
            ));
        }
        i = i + 1;
    }
    r
}

impl<T: Copy + Default> GapBuffer<T> {
    /// A buffer of `cap` default-valued slots, all of them gap.
    pub fn new(cap: usize) -> (r: Self)
        ensures
            r.wf(),
            r.gap_start() == 0,
            r.gap_len() == cap,
            r.store().len() == cap,
            r@ == Seq::<T>::empty(),
            forall|i: int|
                0 <= i < r.store().len() ==> call_ensures(T::default, (), #[trigger] r.store()[i]),
    {
        let buffer = default_slots(cap);
        let r = Self { buffer, gap_window: GapWindow { index: 0, size: cap } };
        proof {
            assert(r@ =~= Seq::<T>::empty());
        }
        r
    }

    /// A buffer with no slots at all; the first insert allocates.
    pub fn new_empty() -> (r: Self)
        ensures
            r.wf(),
            r.gap_start() == 0,
            r.gap_len() == 0,
            r.store().len() == 0,
            r@ == Seq::<T>::empty(),
    {
        Self::new(0)
    }

    /// Inserts `items` at the gap position and leaves the gap immediately
    /// after them. When the items fit, the gap shrinks in place; when they
    /// do not, the store is restructured so that fresh slack sits directly
    /// after the inserted text, not at the store's physical end, keeping a
    /// following sequential insert cheap.
    #[verifier::rlimit(50)]
    pub fn insert(&mut self, items: &[T])
        requires
            old(self).wf(),
            old(self).store().len() + items@.len() <= usize::MAX,
        ensures
            final(self).wf(),
            insert_effect(*old(self), *final(self), items@),
            items@.len() <= old(self).gap_len() ==> {
                &&& final(self).store().len() == old(self).store().len()
                &&& final(self).gap_len() == old(self).gap_len() - items@.len()
                &&& final(self).store() == old(self).store().take(old(self).gap_start()) + items@
                    + old(self).store().skip(old(self).gap_start() + items@.len())
            },
            items@.len() > old(self).gap_len() ==> {
                &&& final(self).store().len() == grown_capacity(
                    old(self).store().len() as int,
                    old(self).store().len() + items@.len() - old(self).gap_len(),
                )
                &&& final(self).gap_len() == final(self).store().len() - old(self).store().len()
                    - (items@.len() - old(self).gap_len())
                &&& final(self).store().subrange(0, final(self).gap_start()) == old(
                    self).store().take(old(self).gap_start()) + items@
                &&& final(self).store().skip(final(self).gap_start() + final(self).gap_len())
                    == old(self).store().skip(old(self).gap_start() + old(self).gap_len())
                &&& forall|i: int|
                    final(self).gap_start() <= i < final(self).gap_start() + final(self).gap_len()
                        ==> call_ensures(T::default, (), #[trigger] final(self).store()[i])
            },
    {
        let ghost pre = *self;
        let ghost s = self.buffer@;
        let n = items.len();
        let gi = self.gap_window.index;
        let gs = self.gap_window.size;
        let len = self.buffer.len();
        if n <= gs {
            splice(&mut self.buffer, gi, Some(gi + n), items);
            self.gap_window.index = gi + n;
            self.gap_window.size = gs - n;
            proof {
                assert(self.buffer@ =~= s.take(gi as int) + items@ + s.skip(gi + n));
                assert(self@ =~= pre@.take(pre.gap_start()) + items@ + pre@.skip(pre.gap_start()))
                    by {
                    pre.lemma_view_parts();
                    assert(self@ =~= s.take(gi as int) + items@ + s.skip(gi + gs as int).take(
                        s.len() - gi - gs,
                    ));
                    assert(s.skip(gi + gs as int).take(s.len() - gi - gs) =~= s.subrange(
                        gi + gs,
                        s.len() as int,
                    ));
                    assert(pre@.take(pre.gap_start()) =~= s.take(gi as int));
                    assert(pre@.skip(pre.gap_start()) =~= s.subrange(gi + gs, s.len() as int));
                }
            }
        } else {
            let fits = gs;
            let rem = n - fits;
            // fill what is left of the gap
            if fits > 0 {
                splice(&mut self.buffer, gi, Some(gi + fits), &items[0..fits]);
            }
            let ghost s1 = self.buffer@;
            proof {
                assert(s1 =~= s.take(gi as int) + items@.take(fits as int) + s.skip(
                    gi + fits as int,
                ));
            }
            let gi2 = gi + fits;
            // splice in what did not fit
            splice(&mut self.buffer, gi2, Some(gi2), &items[fits..n]);
            let ghost s2 = self.buffer@;
            // fresh slack directly after the inserted text
            let needed = len + rem;
            let cap_new = if len <= usize::MAX / 2 {
                let doubled = 2 * len;
                if doubled > needed {
                    doubled
                } else {
                    needed
                }
            } else {
                needed
            };
            let pad = cap_new - needed;
            let pad_slots: Vec<T> = default_slots(pad);
            splice(&mut self.buffer, gi2 + rem, Some(gi2 + rem), pad_slots.as_slice());
            self.gap_window.index = gi + n;
            self.gap_window.size = pad;
            proof {
                assert(self.buffer@ =~= s2.take(gi + n) + pad_slots@ + s2.skip(gi + n));
                assert(s2 =~= s.take(gi as int) + items@ + s.skip(gi + fits as int));
                assert(self.buffer@.subrange(0, gi + n) =~= s.take(gi as int) + items@);
                assert(self.buffer@.skip(gi + n + pad) =~= s.skip(gi + gs as int));
                assert forall|i: int| gi + n <= i < gi + n + pad implies call_ensures(
                    T::default,
                    (),
                    #[trigger] self.buffer@[i],
                ) by {
                    assert(self.buffer@[i] == pad_slots@[i - (gi + n)]);
                }
            }
            proof {
                assert(2 * (len as int) <= usize::MAX <==> len <= usize::MAX as int / 2) by (nonlinear_arith);
                assert(s2 =~= s.take(gi as int) + items@ + s.skip(gi + fits as int));
                assert(self.buffer@ =~= s2.take(gi + n) + pad_slots@ + s2.skip(gi + n));
                assert(self@ =~= pre@.take(pre.gap_start()) + items@ + pre@.skip(pre.gap_start()))
                    by {
                    pre.lemma_view_parts();
                    assert(pre@.take(pre.gap_start()) =~= s.take(gi as int));
                    assert(pre@.skip(pre.gap_start()) =~= s.subrange(gi + gs, s.len() as int));
                    assert(self@ =~= s.take(gi as int) + items@ + s.subrange(
                        gi + gs,
                        s.len() as int,
                    ));
                }
            }
        }
    }
}

impl<T: Copy> GapBuffer<T> {
    /// Removes up to `count` items immediately before the gap by growing
    /// the gap leftward. Deleting more than what lies before the gap
    /// clamps to the buffer start; deletion never fails.
    pub fn delete(&mut self, count: usize)
        requires
            old(self).wf(),
        ensures
            final(self).wf(),
            delete_effect(*old(self), *final(self), count as int),
    {
        let ghost pre = *self;
        let len = self.buffer.len();
        proof {
            assert(self.gap_window.index + self.gap_window.size <= len);
        }
        if self.gap_window.index > count {
            self.gap_window.size = self.gap_window.size + count;
            self.gap_window.index = self.gap_window.index - count;
        } else {
            self.gap_window.size = self.gap_window.size + self.gap_window.index;
            self.gap_window.index = 0;
        }
        proof {
            pre.lemma_view_parts();
            assert(self@ =~= pre@.take(self.gap_start()) + pre@.skip(pre.gap_start())) by {
                assert(pre@.take(self.gap_start()) =~= pre.store().subrange(0, self.gap_start()));
                assert(pre@.skip(pre.gap_start()) =~= pre.store().subrange(
                    pre.gap_start() + pre.gap_len(),
                    pre.store().len() as int,
                ));
            }
        }
    }

    /// Relocates the gap to logical offset `index`, swapping the region
    /// between the old and the new position across the gap. The logical
    /// content is unchanged; a no-op when the gap is already there.
    pub fn move_gap(&mut self, index: usize)
        requires
            old(self).wf(),
            index as int <= old(self).len_spec(),
        ensures
            final(self).wf(),
            move_gap_effect(*old(self), *final(self), index as int),
    {
        let ghost pre = *self;
        let ghost s = self.buffer@;
        let gi = self.gap_window.index;
        let gs = self.gap_window.size;
        let len = self.buffer.len();
        proof {
            assert(gi + gs <= len);
            assert(index + gs <= len);
        }
        if index < gi {
            // the region between the target and the gap moves right,
            // across the gap
            let removed = copy_range(&self.buffer, index, gi);
            splice(&mut self.buffer, index + gs, Some(gi + gs), removed.as_slice());
            self.gap_window.index = index;
            proof {
                assert(self.buffer@ =~= s.take(index + gs as int) + s.subrange(
                    index as int,
                    gi as int,
                ) + s.skip(gi + gs as int));
                pre.lemma_view_parts();
                assert(self@ =~= pre@);
            }
        } else if index > gi {
            // the region between the gap and the target moves left,
            // across the gap
            let removed = copy_range(&self.buffer, gi + gs, index + gs);
            splice(&mut self.buffer, gi, Some(index), removed.as_slice());
            self.gap_window.index = index;
            proof {
                assert(self.buffer@ =~= s.take(gi as int) + s.subrange(
                    gi + gs as int,
                    index + gs as int,
                ) + s.skip(index as int));
                pre.lemma_view_parts();
                assert(self@ =~= pre@);
            }
        }
    }

    /// The logical content as a vector, gap slots excluded, in insertion
    /// order.
    pub fn to_vec(&self) -> (r: Vec<T>)
        requires
            self.wf(),
        ensures
            r@ == self@,
    {
        let len = self.buffer.len();
        proof {
            assert(self.gap_window.index + self.gap_window.size <= len);
        }
        let gap_end = self.gap_window.index + self.gap_window.size;
        let mut r = copy_range(&self.buffer, 0, self.gap_window.index);
        let mut right = copy_range(&self.buffer, gap_end, len);
        r.append(&mut right);
        r
    }

    /// The physical store, gap slots included.
    pub fn storage(&self) -> (r: Vec<T>)
        requires
            self.wf(),
        ensures
            r@ == self.store(),
    {
        let len = self.buffer.len();
        let r = copy_range(&self.buffer, 0, len);
        proof {
            assert(self.buffer@.subrange(0, self.buffer@.len() as int) =~= self.buffer@);
        }
        r
    }
}

/// The chunks of a sequence of inserts, concatenated in order.
pub open spec fn concat_chunks<T>(chunks: Seq<Seq<T>>) -> Seq<T>
    decreases chunks.len(),
{
    if chunks.len() == 0 {
        Seq::empty()
    } else {
        concat_chunks(chunks.drop_last()) + chunks.last()
    }
}

/// Gap buffer round trip: starting from an empty buffer, any sequence of
/// inserts with no intervening deletes or moves leaves as logical content
/// exactly the concatenation of the inserted chunks, in order, with the
/// gap sitting after the last of them.
pub proof fn lemma_insert_round_trip<T>(states: Seq<GapBuffer<T>>, chunks: Seq<Seq<T>>)
    requires
        states.len() == chunks.len() + 1,
        states[0]@ == Seq::<T>::empty(),
        states[0].gap_start() == 0,
        forall|k: int|
            0 <= k < chunks.len() ==> #[trigger] insert_effect(states[k], states[k + 1], chunks[k]),
    ensures
        states.last()@ == concat_chunks(chunks),
        states.last().gap_start() == concat_chunks(chunks).len(),
    decreases chunks.len(),
{
    if chunks.len() == 0 {
        assert(states.last() == states[0]);
    } else {
        let n = chunks.len() as int;
        lemma_insert_round_trip(states.drop_last(), chunks.drop_last());
        let pre = states[n - 1];
        let post = states[n];
        assert(insert_effect(pre, post, chunks[n - 1]));
        assert(states.drop_last().last() == pre);
        assert(pre@.take(pre.gap_start()) =~= pre@);
        assert(pre@.skip(pre.gap_start()) =~= Seq::<T>::empty());
        assert(post@ =~= pre@ + chunks[n - 1]);
        assert(states.last() == post);
    }
}

/// Moving the gap twice in a row to the same target changes nothing the
/// second time: the logical content, the gap's place and size, and even
/// the physical store are those the first move left.
pub proof fn lemma_move_gap_idempotent<T>(
    first: GapBuffer<T>,
    second: GapBuffer<T>,
    third: GapBuffer<T>,
    index: int,
)
    requires
        move_gap_effect(first, second, index),
        move_gap_effect(second, third, index),
    ensures
        third@ == second@,
        third.gap_start() == second.gap_start(),
        third.gap_len() == second.gap_len(),
        third.store() == second.store(),
{
}

impl<T> GapBuffer<T> {
    /// Where the gap starts.
    pub fn gap_index(&self) -> (r: usize)
        ensures
            r == self.gap_start(),
    {
        self.gap_window.index
    }

    /// How many unused slots the gap holds.
    pub fn gap_size(&self) -> (r: usize)
        ensures
            r == self.gap_len(),
    {
        self.gap_window.size
    }

    /// How many slots the store holds, gap included.
    pub fn capacity(&self) -> (r: usize)
        ensures
            r == self.store().len(),
    {
        self.buffer.len()
    }

    /// How many items the buffer logically holds.
    pub fn len(&self) -> (r: usize)
        requires
            self.wf(),
        ensures
            r == self.len_spec(),
            r == self@.len(),
    {
        proof {
            self.lemma_view_parts();
        }
        self.buffer.len() - self.gap_window.size
    }
}

} // verus!
