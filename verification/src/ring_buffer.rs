//! A bounded first-in, first-out queue on a fixed ring of `SIZE` slots.
//!
//! One slot always stays free, so that a full queue can be told from an
//! empty one: a queue of `SIZE` slots holds at most `SIZE - 1` items. The
//! producer only ever moves the write cursor and the consumer only ever moves
//! the read cursor.

use std::cmp::Ordering;
use vstd::prelude::*;
use vstd::std_specs::cmp::PartialEqSpec;
use vstd::std_specs::cmp::PartialOrdSpec;

verus! {

/// The distance from `read` forward to `write` on a ring of `size` slots.
pub open spec fn ring_distance(read: int, write: int, size: int) -> int {
    if write >= read {
        write - read
    } else {
        write + size - read
    }
}

/// The slot that lies `offset` steps after `start` on a ring of `size` slots.
pub open spec fn ring_slot(start: int, offset: int, size: int) -> int {
    if start + offset < size {
        start + offset
    } else {
        start + offset - size
    }
}

/// A queue of at most `SIZE - 1` items on a ring of `SIZE` slots.
pub struct RingBuffer<T, const SIZE: usize> {
    buffer: Vec<Option<T>>,
    read_pos: usize,
    write_pos: usize,
}

impl<T, const SIZE: usize> View for RingBuffer<T, SIZE> {
    type V = Seq<T>;

    /// The queued items, oldest first.
    closed spec fn view(&self) -> Seq<T> {
        Seq::new(
            ring_distance(self.read_pos as int, self.write_pos as int, SIZE as int) as nat,
            |i: int| self.buffer@[ring_slot(self.read_pos as int, i, SIZE as int)].unwrap(),
        )
    }
}

impl<T, const SIZE: usize> RingBuffer<T, SIZE> {
    /// The slot that the next `read` takes from.
    pub closed spec fn read_cursor(&self) -> int {
        self.read_pos as int
    }

    /// The slot that the next `write` fills.
    pub closed spec fn write_cursor(&self) -> int {
        self.write_pos as int
    }

    /// The representation invariant: the ring has `SIZE` slots, both cursors
    /// point into it, and every slot from the read cursor up to the write
    /// cursor holds an item. Every queue that executable code holds
    /// satisfies it.
    #[verifier::type_invariant]
    pub closed spec fn wf(&self) -> bool {
        &&& self.buffer@.len() == SIZE
        &&& SIZE == 0 ==> self.read_pos == 0 && self.write_pos == 0
        &&& SIZE > 0 ==> self.read_pos < SIZE && self.write_pos < SIZE
        &&& forall|slot: int|
            0 <= slot < SIZE && ring_distance(self.read_pos as int, slot, SIZE as int)
                < ring_distance(self.read_pos as int, self.write_pos as int, SIZE as int) ==> (
            #[trigger] self.buffer@[slot]) is Some
    }

    /// Creates an empty queue.
    pub fn new() -> (queue: Self)
        ensures
            queue.wf(),
            queue@ == Seq::<T>::empty(),
            queue.read_cursor() == 0,
            queue.write_cursor() == 0,
    {
        let mut buffer: Vec<Option<T>> = Vec::new();
        let mut filled: usize = 0;
        while filled < SIZE
            invariant
                filled <= SIZE,
                buffer@.len() == filled,
                forall|slot: int| 0 <= slot < filled ==> (#[trigger] buffer@[slot]) is None,
            decreases SIZE - filled,
        {
            buffer.push(None);
            filled = filled + 1;
        }
        let queue = Self { buffer, read_pos: 0, write_pos: 0 };
        assert(queue@ =~= Seq::<T>::empty());
        queue
    }

    /// The number of queued items, which is never more than `SIZE - 1`.
    pub fn len(&self) -> (length: usize)
        ensures
            length == self@.len(),
            SIZE > 0 ==> length <= SIZE - 1,
            self.wf(),
    {
        proof {
            use_type_invariant(self);
        }
        if self.write_pos >= self.read_pos {
            self.write_pos - self.read_pos
        } else {
            self.write_pos + (SIZE - self.read_pos)
        }
    }

    /// Whether nothing is queued.
    pub fn is_empty(&self) -> (empty: bool)
        ensures
            empty <==> self@.len() == 0,
    {
        proof {
            use_type_invariant(self);
        }
        self.write_pos == self.read_pos
    }

    /// Whether every usable slot is taken.
    pub fn is_full(&self) -> (full: bool)
        requires
            SIZE > 0,
        ensures
            full <==> self@.len() == SIZE - 1,
    {
        proof {
            use_type_invariant(self);
        }
        let next: usize = if self.write_pos + 1 == SIZE { 0 } else { self.write_pos + 1 };
        next == self.read_pos
    }

    /// Appends `value` unless the queue is full. A full queue is left as it
    /// is, `value` is dropped, and the result is `false`.
    pub fn write(&mut self, value: T) -> (written: bool)
        requires
            SIZE > 0,
        ensures
            final(self).wf(),
            written <==> old(self)@.len() < SIZE - 1,
            written ==> final(self)@ == old(self)@.push(value),
            !written ==> *final(self) == *old(self),
            final(self).read_cursor() == old(self).read_cursor(),
            written ==> final(self).write_cursor() == ring_slot(
                old(self).write_cursor(),
                1,
                SIZE as int,
            ),
    {
        proof {
            use_type_invariant(&*self);
        }
        if self.is_full() {
            return false;
        }
        let ghost before = *self;
        self.buffer[self.write_pos] = Some(value);
        self.write_pos = if self.write_pos + 1 == SIZE { 0 } else { self.write_pos + 1 };
        assert(self@ =~= before@.push(value));
        true
    }

    /// The oldest item, which stays queued.
    pub fn peek(&self) -> (front: Option<&T>)
        ensures
            self@.len() == 0 ==> front is None,
            self@.len() > 0 ==> front == Some(&self@[0]),
    {
        proof {
            use_type_invariant(self);
        }
        if self.is_empty() {
            return None;
        }
        self.buffer[self.read_pos].as_ref()
    }

    /// Removes the oldest item and returns it.
    pub fn read(&mut self) -> (front: Option<T>)
        ensures
            final(self).wf(),
            old(self)@.len() == 0 ==> front is None && *final(self) == *old(self),
            old(self)@.len() > 0 ==> front == Some(old(self)@[0]) && final(self)@ == old(
                self,
            )@.drop_first(),
            final(self).write_cursor() == old(self).write_cursor(),
            old(self)@.len() > 0 ==> final(self).read_cursor() == ring_slot(
                old(self).read_cursor(),
                1,
                SIZE as int,
            ),
    {
        proof {
            use_type_invariant(&*self);
        }
        if self.is_empty() {
            return None;
        }
        let ghost before = *self;
        let slot: usize = self.read_pos;
        self.read_pos = if slot + 1 == SIZE { 0 } else { slot + 1 };
        let front = self.buffer[slot].take();
        assert(self@ =~= before@.drop_first());
        front
    }

    /// Copies the oldest items into the front of `dest`, as many as are
    /// queued and fit, and returns how many were copied. Nothing is removed
    /// from the queue, and the rest of `dest` keeps what it held.
    pub fn snapshot(&self, dest: &mut [T]) -> (copied: usize) where T: Copy
        ensures
            copied == snapshot_len(self@.len(), old(dest)@.len()),
            final(dest)@ == self@.take(copied as int) + old(dest)@.skip(copied as int),
    {
        proof {
            use_type_invariant(self);
        }
        let available = self.len();
        let count: usize = if available < dest.len() { available } else { dest.len() };
        let mut slot: usize = self.read_pos;
        let mut index: usize = 0;
        while index < count
            invariant
                self.wf(),
                count <= self@.len(),
                count <= old(dest)@.len(),
                index <= count,
                dest@.len() == old(dest)@.len(),
                slot == ring_slot(self.read_pos as int, index as int, SIZE as int),
                dest@ == self@.take(index as int) + old(dest)@.skip(index as int),
            decreases count - index,
        {
            match self.buffer[slot] {
                Some(item) => {
                    dest[index] = item;
                },
                None => {},
            }
            slot = if slot + 1 == SIZE { 0 } else { slot + 1 };
            index = index + 1;
            assert(dest@ =~= self@.take(index as int) + old(dest)@.skip(index as int));
        }
        count
    }

    /// A cursor over the queued items, oldest first. The queue is not
    /// changed by walking it, and every call starts again at the oldest item.
    pub fn iter(&self) -> (iter: Iter<'_, T, SIZE>)
        ensures
            iter.wf(),
            iter.queue() == *self,
            iter.position() == 0,
            iter.remaining() == self@,
    {
        proof {
            use_type_invariant(self);
        }
        let iter = Iter { ring_buffer: self, iter_pos: self.read_pos };
        assert(iter.remaining() =~= self@);
        iter
    }
}

impl<T, const SIZE: usize> Default for RingBuffer<T, SIZE> {
    /// The empty queue.
    fn default() -> (queue: Self)
        ensures
            queue.wf(),
            queue@ == Seq::<T>::empty(),
    {
        Self::new()
    }
}

impl<T: Clone, const SIZE: usize> Clone for RingBuffer<T, SIZE> {
    /// A queue with clones of the queued items, in the same order.
    fn clone(&self) -> (copy: Self)
        ensures
            copy.wf(),
            copy@.len() == self@.len(),
            forall|i: int| 0 <= i < self@.len() ==> cloned::<T>(#[trigger] self@[i], copy@[i]),
    {
        proof {
            use_type_invariant(self);
        }
        let mut copy = Self::new();
        let count = self.len();
        let mut slot: usize = self.read_pos;
        let mut index: usize = 0;
        while index < count
            invariant
                self.wf(),
                copy.wf(),
                SIZE > 0 ==> count <= SIZE - 1,
                count == self@.len(),
                index <= count,
                copy@.len() == index,
                slot == ring_slot(self.read_pos as int, index as int, SIZE as int),
                forall|i: int| 0 <= i < index ==> cloned::<T>(#[trigger] self@[i], copy@[i]),
            decreases count - index,
        {
            let ghost before = copy@;
            match &self.buffer[slot] {
                Some(item) => {
                    let written = copy.write(item.clone());
                    assert(written);
                    assert(forall|i: int| 0 <= i < index ==> copy@[i] == before[i]);
                },
                None => {
                    assert(false);
                },
            }
            slot = if slot + 1 == SIZE { 0 } else { slot + 1 };
            index = index + 1;
        }
        copy
    }
}

/// Two queues are equal when they hold equal items in the same order,
/// wherever their cursors stand.
impl<T: PartialEq, const SIZE: usize> PartialEq for RingBuffer<T, SIZE> {
    fn eq(&self, other: &Self) -> (equal: bool) {
        proof {
            use_type_invariant(self);
            use_type_invariant(other);
        }
        let count = self.len();
        if count != other.len() {
            return false;
        }
        let mut self_slot: usize = self.read_pos;
        let mut other_slot: usize = other.read_pos;
        let mut index: usize = 0;
        while index < count
            invariant
                self.wf(),
                other.wf(),
                count == self@.len(),
                count == other@.len(),
                index <= count,
                self_slot == ring_slot(self.read_pos as int, index as int, SIZE as int),
                other_slot == ring_slot(other.read_pos as int, index as int, SIZE as int),
                T::obeys_eq_spec() ==> forall|i: int|
                    0 <= i < index ==> (#[trigger] self@[i]).eq_spec(&other@[i]),
            decreases count - index,
        {
            match (&self.buffer[self_slot], &other.buffer[other_slot]) {
                (Some(s), Some(o)) => {
                    if s != o {
                        assert(T::obeys_eq_spec() ==> !self@[index as int].eq_spec(
                            &other@[index as int],
                        ));
                        return false;
                    }
                },
                _ => {
                    assert(false);
                },
            }
            self_slot = if self_slot + 1 == SIZE { 0 } else { self_slot + 1 };
            other_slot = if other_slot + 1 == SIZE { 0 } else { other_slot + 1 };
            index = index + 1;
        }
        true
    }
}

impl<T: Eq, const SIZE: usize> Eq for RingBuffer<T, SIZE> {

}

impl<T: PartialEq, const SIZE: usize> vstd::std_specs::cmp::PartialEqSpecImpl for RingBuffer<T, SIZE> {
    open spec fn obeys_eq_spec() -> bool {
        T::obeys_eq_spec()
    }

    open spec fn eq_spec(&self, other: &Self) -> bool {
        &&& self@.len() == other@.len()
        &&& forall|i: int| 0 <= i < self@.len() ==> (#[trigger] self@[i]).eq_spec(&other@[i])
    }
}


/// The items of a sequence from place `from` on.
pub open spec fn items_from<T>(items: Seq<T>, from: usize) -> Seq<T> {
    items.skip(from as int)
}

proof fn lemma_items_from<T>(items: Seq<T>, from: usize)
    requires
        from <= items.len() <= usize::MAX,
    ensures
        items_from(items, from).len() == items.len() - from,
        from == 0 ==> items_from(items, from) == items,
        from < items.len() ==> items_from(items, from)[0] == items[from as int] && items_from(
            items,
            from,
        ).drop_first() == items_from(items, (from + 1) as usize),
{
    if from == 0 {
        assert(items.skip(0) =~= items);
    }
    if from < items.len() {
        assert(items.skip(from as int).drop_first() =~= items.skip(from + 1));
    }
}

/// The order of two sequences by their first items that differ: a sequence
/// that ends where the other goes on comes first, and where two items
/// cannot be compared, neither can the sequences.
pub open spec fn lexicographic_order<T: PartialOrd>(left: Seq<T>, right: Seq<T>) -> Option<
    Ordering,
>
    decreases left.len(),
{
    if left.len() == 0 && right.len() == 0 {
        Some(Ordering::Equal)
    } else if left.len() == 0 {
        Some(Ordering::Less)
    } else if right.len() == 0 {
        Some(Ordering::Greater)
    } else {
        match left[0].partial_cmp_spec(&right[0]) {
            Some(Ordering::Equal) => lexicographic_order(left.drop_first(), right.drop_first()),
            decided => decided,
        }
    }
}

impl<T, const SIZE: usize> RingBuffer<T, SIZE> {
    fn item(&self, index: usize) -> (item: &T)
        requires
            index < self@.len(),
        ensures
            *item == self@[index as int],
    {
        proof {
            use_type_invariant(self);
        }
        let slot: usize = if index < SIZE - self.read_pos {
            self.read_pos + index
        } else {
            index - (SIZE - self.read_pos)
        };
        self.buffer[slot].as_ref().unwrap()
    }
}

/// Queues are ordered by their items, oldest first, like sequences.
impl<T: PartialOrd, const SIZE: usize> PartialOrd for RingBuffer<T, SIZE> {
    fn partial_cmp(&self, other: &Self) -> (order: Option<Ordering>) {
        let self_count = self.len();
        let other_count = other.len();
        let mut index: usize = 0;
        proof {
            lemma_items_from(self@, 0);
            lemma_items_from(other@, 0);
        }
        loop
            invariant
                self_count == self@.len(),
                other_count == other@.len(),
                index <= self_count,
                index <= other_count,
                T::obeys_partial_cmp_spec() ==> lexicographic_order(self@, other@)
                    == lexicographic_order(items_from(self@, index), items_from(other@, index)),
            decreases self_count - index,
        {
            proof {
                lemma_items_from(self@, index);
                lemma_items_from(other@, index);
            }
            if index == self_count && index == other_count {
                return Some(Ordering::Equal);
            } else if index == other_count {
                return Some(Ordering::Greater);
            } else if index == self_count {
                return Some(Ordering::Less);
            }
            let decided = self.item(index).partial_cmp(other.item(index));
            match decided {
                Some(Ordering::Equal) => {},
                _ => {
                    return decided;
                },
            }
            index = index + 1;
        }
    }
}

impl<T: PartialOrd, const SIZE: usize> vstd::std_specs::cmp::PartialOrdSpecImpl for RingBuffer<T, SIZE> {
    open spec fn obeys_partial_cmp_spec() -> bool {
        T::obeys_partial_cmp_spec()
    }

    open spec fn partial_cmp_spec(&self, other: &Self) -> Option<Ordering> {
        lexicographic_order(self@, other@)
    }
}

/// How many items `snapshot` copies from a queue of `queued` items into a
/// destination of `room` places.
pub open spec fn snapshot_len(queued: nat, room: nat) -> nat {
    if queued < room {
        queued
    } else {
        room
    }
}

/// A cursor over the items of a queue, made by [`RingBuffer::iter`].
pub struct Iter<'a, T, const SIZE: usize> {
    ring_buffer: &'a RingBuffer<T, SIZE>,
    iter_pos: usize,
}

impl<'a, T, const SIZE: usize> Iter<'a, T, SIZE> {
    /// The queue that the cursor walks.
    pub closed spec fn queue(&self) -> RingBuffer<T, SIZE> {
        *self.ring_buffer
    }

    /// How many items the cursor has handed out.
    pub closed spec fn position(&self) -> int {
        ring_distance(self.ring_buffer.read_pos as int, self.iter_pos as int, SIZE as int)
    }

    /// The items that the cursor has yet to hand out, oldest first.
    pub closed spec fn remaining(&self) -> Seq<T> {
        self.ring_buffer@.skip(self.position())
    }

    /// The representation invariant: the cursor walks a well-formed queue
    /// and stands between its read and write cursors. Every cursor that
    /// executable code holds satisfies it.
    #[verifier::type_invariant]
    pub closed spec fn wf(&self) -> bool {
        &&& self.ring_buffer.wf()
        &&& SIZE == 0 ==> self.iter_pos == 0
        &&& SIZE > 0 ==> self.iter_pos < SIZE
        &&& self.position() <= self.ring_buffer@.len()
    }

    /// Hands out the next item, or `None` once every item has been handed
    /// out; from then on every call gives `None`.
    pub fn next(&mut self) -> (item: Option<&'a T>)
        ensures
            final(self).wf(),
            final(self).queue() == old(self).queue(),
            old(self).remaining().len() == 0 ==> item is None && *final(self) == *old(self),
            old(self).remaining().len() > 0 ==> item == Some(&old(self).remaining()[0])
                && final(self).remaining() == old(self).remaining().drop_first()
                && final(self).position() == old(self).position() + 1,
    {
        proof {
            use_type_invariant(&*self);
        }
        if self.iter_pos == self.ring_buffer.write_pos {
            return None;
        }
        let ghost before = *self;
        let queue: &'a RingBuffer<T, SIZE> = self.ring_buffer;
        let item = queue.buffer[self.iter_pos].as_ref();
        self.iter_pos = if self.iter_pos + 1 == SIZE { 0 } else { self.iter_pos + 1 };
        assert(self.remaining() =~= before.remaining().drop_first());
        item
    }
}

impl<T, const SIZE: usize> RingBuffer<T, SIZE> {
    /// Both cursors point into the ring, and the number of queued items is
    /// the distance from the read cursor forward to the write cursor, which
    /// is `(write - read) mod SIZE`.
    pub proof fn lemma_len_is_cursor_distance(&self)
        requires
            self.wf(),
            SIZE > 0,
        ensures
            0 <= self.read_cursor() < SIZE,
            0 <= self.write_cursor() < SIZE,
            self@.len() == ring_distance(self.read_cursor(), self.write_cursor(), SIZE as int),
            self@.len() == (self.write_cursor() - self.read_cursor()) % (SIZE as int),
    {
        let d = self.write_cursor() - self.read_cursor();
        if d >= 0 {
            vstd::arithmetic::div_mod::lemma_small_mod(d as nat, SIZE as nat);
        } else {
            vstd::arithmetic::div_mod::lemma_small_mod((d + SIZE) as nat, SIZE as nat);
            vstd::arithmetic::div_mod::lemma_mod_add_multiples_vanish(d, SIZE as int);
        }
    }

    /// A queue never holds more than `SIZE - 1` items.
    pub proof fn lemma_len_below_capacity(&self)
        requires
            self.wf(),
            SIZE > 0,
        ensures
            self@.len() <= SIZE - 1,
    {
    }

    /// A queue is empty exactly when its cursors coincide.
    pub proof fn lemma_empty_iff_cursors_equal(&self)
        requires
            self.wf(),
        ensures
            self@.len() == 0 <==> self.read_cursor() == self.write_cursor(),
    {
    }

    /// A queue is full exactly when the slot after the write cursor is the
    /// read cursor.
    pub proof fn lemma_full_iff_cursors_adjacent(&self)
        requires
            self.wf(),
            SIZE > 0,
        ensures
            self@.len() == SIZE - 1 <==> ring_slot(self.write_cursor(), 1, SIZE as int)
                == self.read_cursor(),
            ring_slot(self.write_cursor(), 1, SIZE as int) == (self.write_cursor() + 1) % (
            SIZE as int),
    {
        if self.write_cursor() + 1 < SIZE {
            vstd::arithmetic::div_mod::lemma_small_mod(
                (self.write_cursor() + 1) as nat,
                SIZE as nat,
            );
        } else {
            vstd::arithmetic::div_mod::lemma_mod_self_0(SIZE as int);
        }
    }
}

/// Items leave a queue in the order in which they were written. Of a queue
/// that took `value` in a `write`, the items queued before are still read
/// first and in their order, and the `read` after them returns `value`. On
/// a queue that was empty, that is the very next `read`, and it leaves the
/// queue empty again.
pub proof fn lemma_read_follows_write<T, const SIZE: usize>(
    before: RingBuffer<T, SIZE>,
    after: RingBuffer<T, SIZE>,
    value: T,
)
    requires
        after@ == before@.push(value),
    ensures
        after@.len() == before@.len() + 1,
        forall|i: int| 0 <= i < before@.len() ==> after@[i] == before@[i],
        after@[before@.len() as int] == value,
        before@.len() == 0 ==> after@[0] == value && after@.drop_first() == before@,
{
    if before@.len() == 0 {
        assert(after@.drop_first() =~= before@);
    }
}

/// Two cursors that stand at the same place of the same queue have the same
/// items ahead of them, so walking a queue twice gives the same items twice.
pub proof fn lemma_iteration_repeats<T, const SIZE: usize>(
    first: Iter<'_, T, SIZE>,
    second: Iter<'_, T, SIZE>,
)
    requires
        first.queue() == second.queue(),
        first.position() == second.position(),
    ensures
        first.remaining() == second.remaining(),
{
}

} // verus!
