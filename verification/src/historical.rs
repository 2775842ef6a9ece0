//! A bounded history of records and the cursor that streams it out.
//!
//! A [`Historical`] keeps the most recent `SIZE` records that were stored in
//! it. [`Historical::sync`] copies them, oldest first, into a [`Syncer`],
//! which writes one record per call of [`Syncer::write`] and answers with
//! zero bytes once all of them are out.

use vstd::prelude::*;

use crate::serde;
use crate::serde::{serialized, Serializable};

verus! {

/// The last `size` items of `items`; all of them where there are no more
/// than `size`.
pub open spec fn recent<T>(items: Seq<T>, size: nat) -> Seq<T> {
    if items.len() > size {
        items.skip(items.len() - size)
    } else {
        items
    }
}

/// What a history of capacity `size` that held `held` holds once `elem` is
/// stored: the oldest record leaves where there is no room.
pub open spec fn stored<T>(held: Seq<T>, elem: T, size: nat) -> Seq<T> {
    recent(held.push(elem), size)
}

/// What a history of capacity `size` that held `held` holds once `elems`
/// have been stored one after the other.
pub open spec fn stored_all<T>(held: Seq<T>, elems: Seq<T>, size: nat) -> Seq<T>
    decreases elems.len(),
{
    if elems.len() == 0 {
        held
    } else {
        stored_all(stored(held, elems[0], size), elems.drop_first(), size)
    }
}

/// Storing records one after the other keeps the most recent ones, in the
/// order in which they came.
pub proof fn lemma_stored_all_recent<T>(held: Seq<T>, elems: Seq<T>, size: nat)
    requires
        held.len() <= size,
    ensures
        stored_all(held, elems, size) == recent(held + elems, size),
    decreases elems.len(),
{
    if elems.len() == 0 {
        assert(held + elems =~= held);
    } else {
        let next = stored(held, elems[0], size);
        lemma_stored_all_recent(next, elems.drop_first(), size);
        assert(recent(next + elems.drop_first(), size) =~= recent(held + elems, size));
    }
}

/// Ring law: of more records than an empty history has room for, the history
/// holds exactly as many as its capacity, and they are the most recent ones,
/// oldest first; the records before them are gone.
pub proof fn lemma_ring<T>(elems: Seq<T>, size: nat)
    requires
        elems.len() > size,
    ensures
        stored_all(Seq::<T>::empty(), elems, size).len() == size,
        stored_all(Seq::<T>::empty(), elems, size) == elems.skip(elems.len() - size),
{
    lemma_stored_all_recent(Seq::<T>::empty(), elems, size);
    assert(Seq::<T>::empty() + elems =~= elems);
}

/// The slot of the `i`-th oldest record in a full ring of `size` slots whose
/// oldest record is in slot `start`.
spec fn slot(start: int, i: int, size: int) -> int {
    if i < size - start {
        start + i
    } else {
        i - (size - start)
    }
}

/// A fixed-capacity history of records: once `SIZE` records are held, each
/// new one takes the place of the oldest.
pub struct Historical<const SIZE: usize, T> {
    elements: [Option<T>; SIZE],
    /// The slot that the next record goes to.
    len: usize,
    /// The number of slots that hold a record.
    count: usize,
}

impl<const SIZE: usize, T> View for Historical<SIZE, T> {
    type V = Seq<T>;

    /// The records held, oldest first.
    closed spec fn view(&self) -> Seq<T> {
        Seq::new(
            self.count as nat,
            |i: int| self.elements@[slot(self.start(), i, SIZE as int)].unwrap(),
        )
    }
}

impl<const SIZE: usize, T> Historical<SIZE, T> {
    /// The slot of the oldest record.
    spec fn start(&self) -> int {
        if self.count < SIZE {
            0
        } else {
            self.len as int
        }
    }

    /// The slots of the ring as they lie in memory.
    pub closed spec fn slots(&self) -> Seq<Option<T>> {
        self.elements@
    }

    /// The write cursor: the slot that the next record goes to.
    pub closed spec fn cursor(&self) -> nat {
        self.len as nat
    }

    /// Well-formedness: the cursor is a slot of the array, no more slots are
    /// counted than there are, the slots before the cursor are the populated
    /// ones until the ring has gone round once, and every counted slot holds
    /// a record.
    pub closed spec fn wf(&self) -> bool {
        &&& self.count <= SIZE
        &&& SIZE == 0 ==> self.len == 0
        &&& SIZE > 0 ==> self.len < SIZE
        &&& self.count < SIZE ==> self.len == self.count
        &&& forall|i: int|
            0 <= i < self.count ==> (#[trigger] self.elements@[slot(
                self.start(),
                i,
                SIZE as int,
            )]) is Some
    }

    /// A well-formed history holds no more records than its capacity, and
    /// its cursor is one of its slots.
    pub proof fn lemma_bounded(&self)
        requires
            self.wf(),
        ensures
            self@.len() <= SIZE,
            self.slots().len() == SIZE,
            SIZE > 0 ==> self.cursor() < SIZE,
    {
    }
}

impl<const SIZE: usize, T> Default for Historical<SIZE, T> where T: Serializable + Copy {
    fn default() -> (h: Self)
        ensures
            h.wf(),
            h@ == Seq::<T>::empty(),
    {
        Self::new()
    }
}

impl<const SIZE: usize, T> Historical<SIZE, T> where T: Serializable + Copy {
    /// An empty history: no slot holds a record and the cursor is on the
    /// first slot.
    pub fn new() -> (h: Self)
        ensures
            h.wf(),
            h@ == Seq::<T>::empty(),
            h.cursor() == 0,
            forall|i: int| 0 <= i < SIZE ==> h.slots()[i] is None,
    {
        let h = Self { elements: [None; SIZE], len: 0, count: 0 };
        assert(h@ =~= Seq::<T>::empty());
        h
    }

    /// Stores `elem` as the newest record. In a full history it takes the
    /// place of the oldest one; a history of capacity zero holds nothing.
    ///
    /// The record goes to the slot of the cursor, and the cursor moves on by
    /// one slot, back to the first after the last.
    pub fn store(&mut self, elem: T)
        requires
            old(self).wf(),
        ensures
            final(self).wf(),
            final(self)@ == stored(old(self)@, elem, SIZE as nat),
            SIZE > 0 ==> {
                &&& final(self).slots() == old(self).slots().update(
                    old(self).cursor() as int,
                    Some(elem),
                )
                &&& final(self).cursor() == (if old(self).cursor() + 1 == SIZE {
                    0
                } else {
                    old(self).cursor() + 1
                })
            },
            SIZE == 0 ==> {
                &&& final(self).slots() == old(self).slots()
                &&& final(self).cursor() == old(self).cursor()
            },
    {
        if SIZE == 0 {
            assert(self@ =~= stored(self@, elem, SIZE as nat));
            return ;
        }
        let at = self.next();
        self.elements[at] = Some(elem);
        if self.count < SIZE {
            self.count += 1;
        }
        proof {
            assert forall|i: int| 0 <= i < self.count implies (#[trigger] self.elements@[slot(
                self.start(),
                i,
                SIZE as int,
            )]) is Some by {
                let shift: int = if old(self).count == SIZE {
                    1
                } else {
                    0
                };
                if slot(self.start(), i, SIZE as int) != at {
                    assert(slot(self.start(), i, SIZE as int) == slot(
                        old(self).start(),
                        i + shift,
                        SIZE as int,
                    ));
                }
            }
            assert(self@ =~= stored(old(self)@, elem, SIZE as nat));
        }
    }

    /// A cursor over a copy of the records held now, oldest first. Records
    /// stored later do not reach it.
    pub fn sync(&self) -> (syncer: Syncer<SIZE, T>)
        requires
            self.wf(),
        ensures
            syncer.wf(),
            syncer@ == self@,
    {
        let mut elements: [Option<T>; SIZE] = [None; SIZE];
        let start = if self.count < SIZE {
            0
        } else {
            self.len
        };
        let mut i: usize = 0;
        while i < self.count
            invariant
                self.wf(),
                start == self.start(),
                i <= self.count,
                forall|k: int|
                    0 <= k < i ==> elements@[k] == self.elements@[slot(start as int, k, SIZE as int)],
            decreases self.count - i,
        {
            let at = if i < SIZE - start {
                start + i
            } else {
                i - (SIZE - start)
            };
            elements[i] = self.elements[at];
            i += 1;
        }
        let syncer = Syncer::new(elements, self.count);
        assert(syncer@ =~= self@);
        syncer
    }

    /// Hands out the slot of the cursor and moves the cursor on by one slot,
    /// back to the first after the last.
    fn next(&mut self) -> (at: usize)
        requires
            SIZE > 0,
            old(self).len < SIZE,
        ensures
            at == old(self).len,
            final(self).len == (if old(self).len + 1 == SIZE {
                0
            } else {
                old(self).len + 1
            }),
            final(self).elements == old(self).elements,
            final(self).count == old(self).count,
    {
        let next = self.len;
        self.len += 1;
        if self.len == SIZE {
            self.len = 0;
        }
        next
    }
}

/// A forward-only cursor over a snapshot of a history. It keeps its own
/// position: each call of [`Syncer::write`] hands out the next record.
pub struct Syncer<const SIZE: usize, T> {
    elements: [Option<T>; SIZE],
    /// The number of records in the snapshot.
    len: usize,
    /// The number of records handed out.
    pos: usize,
}

impl<const SIZE: usize, T> View for Syncer<SIZE, T> {
    type V = Seq<T>;

    /// The records that are still to be written, oldest first.
    closed spec fn view(&self) -> Seq<T> {
        Seq::new((self.len - self.pos) as nat, |i: int| self.elements@[self.pos + i].unwrap())
    }
}

impl<const SIZE: usize, T> Syncer<SIZE, T> {
    /// Well-formedness: the position is within the snapshot, the snapshot
    /// within the array, and each of its slots holds a record.
    pub closed spec fn wf(&self) -> bool {
        &&& self.pos <= self.len <= SIZE
        &&& forall|i: int| 0 <= i < self.len ==> (#[trigger] self.elements@[i]) is Some
    }
}

impl<const SIZE: usize, T> Syncer<SIZE, T> where T: Serializable + Copy {
    fn new(elements: [Option<T>; SIZE], len: usize) -> (syncer: Self)
        requires
            len <= SIZE,
            forall|i: int| 0 <= i < len ==> (#[trigger] elements@[i]) is Some,
        ensures
            syncer.elements == elements,
            syncer.len == len,
            syncer.pos == 0,
            syncer.wf(),
    {
        Self { elements, len, pos: 0 }
    }

    /// Writes the next record at the start of `out` and returns the number
    /// of bytes written; returns zero, and leaves `out` alone, once every
    /// record has been written.
    ///
    /// A record that does not fit is not skipped: the call fails, writes
    /// nothing, and the next call offers the same record again.
    pub fn write(&mut self, out: &mut [u8]) -> (r: Result<usize, serde::Error>)
        requires
            old(self).wf(),
        ensures
            final(self).wf(),
            old(self)@.len() == 0 ==> {
                &&& r == Ok::<usize, serde::Error>(0)
                &&& final(out)@ == old(out)@
                &&& final(self)@ == old(self)@
            },
            old(self)@.len() > 0 ==> {
                &&& serialized(old(self)@[0].wire(), old(out)@, final(out)@, r)
                &&& r is Ok ==> final(self)@ == old(self)@.drop_first()
                &&& r is Err ==> final(self)@ == old(self)@
            },
    {
        if self.pos >= self.len {
            return Ok(0);
        }
        match self.elements[self.pos] {
            Some(elem) => {
                let r = serde::serialize(&elem, out);
                if r.is_ok() {
                    self.pos += 1;
                    assert(self@ =~= old(self)@.drop_first());
                }
                r
            },
            None => Ok(0),
        }
    }
}

} // verus!
