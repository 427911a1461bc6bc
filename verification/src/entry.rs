//! Tasks waiting to run, in the order in which they will run.

use crate::priority::Priority;
use core::cmp::Ordering;
use std::collections::VecDeque;
use std::time::Instant;
use vstd::prelude::*;

verus! {

/// A task waiting in the queue.
pub struct QueueEntry<F> {
    /// The priority that the task was submitted with.
    pub priority: Priority,
    /// The number of tasks accepted before this one.
    pub sequence: u64,
    /// The task itself.
    pub task: F,
    /// When the task was submitted.
    pub enqueued_at: Instant,
}

impl<F> QueueEntry<F> {
    /// Whether the entry is due before the other one: it has the higher priority,
    /// or the same priority and was submitted first.
    pub open spec fn runs_before(self, other: QueueEntry<F>) -> bool {
        ||| self.priority.rank() > other.priority.rank()
        ||| self.priority == other.priority && self.sequence < other.sequence
    }
}

impl<F> PartialEq for QueueEntry<F> {
    fn eq(&self, other: &Self) -> (equal: bool) {
        self.priority == other.priority && self.sequence == other.sequence
    }
}

impl<F> vstd::std_specs::cmp::PartialEqSpecImpl for QueueEntry<F> {
    open spec fn obeys_eq_spec() -> bool {
        true
    }

    open spec fn eq_spec(&self, other: &Self) -> bool {
        self.priority == other.priority && self.sequence == other.sequence
    }
}

impl<F> Eq for QueueEntry<F> {

}

impl<F> PartialOrd for QueueEntry<F> {
    fn partial_cmp(&self, other: &Self) -> (order: Option<Ordering>) {
        match self.priority.partial_cmp(&other.priority) {
            Some(Ordering::Equal) => other.sequence.partial_cmp(&self.sequence),
            order => order,
        }
    }
}

impl<F> vstd::std_specs::cmp::PartialOrdSpecImpl for QueueEntry<F> {
    open spec fn obeys_partial_cmp_spec() -> bool {
        true
    }

    open spec fn partial_cmp_spec(&self, other: &Self) -> Option<Ordering> {
        if self.runs_before(*other) {
            Some(Ordering::Greater)
        } else if other.runs_before(*self) {
            Some(Ordering::Less)
        } else {
            Some(Ordering::Equal)
        }
    }
}

/// Whether the entries stand in the order in which they are due.
pub open spec fn in_order<F>(entries: Seq<QueueEntry<F>>) -> bool {
    forall|i: int, j: int|
        #![trigger entries[i], entries[j]]
        0 <= i < j < entries.len() ==> entries[i].runs_before(entries[j])
}

/// The number of entries due before the given one, which is the place where it
/// belongs among them.
pub open spec fn place<F>(entries: Seq<QueueEntry<F>>, entry: QueueEntry<F>) -> nat {
    entries.filter(|other: QueueEntry<F>| other.runs_before(entry)).len()
}

/// Among entries in order, those due before a given one come first, so the
/// place of the given one is where they end.
pub proof fn lemma_place_is_boundary<F>(
    entries: Seq<QueueEntry<F>>,
    entry: QueueEntry<F>,
    boundary: int,
)
    requires
        0 <= boundary <= entries.len(),
        forall|i: int| 0 <= i < boundary ==> (#[trigger] entries[i]).runs_before(entry),
        forall|i: int|
            boundary <= i < entries.len() ==> !(#[trigger] entries[i]).runs_before(entry),
    ensures
        place(entries, entry) == boundary,
    decreases entries.len(),
{
    reveal(Seq::filter);
    let due_before = |other: QueueEntry<F>| other.runs_before(entry);
    if entries.len() > 0 {
        let front = entries.drop_last();
        let last = entries.last();
        if boundary == entries.len() {
            lemma_place_is_boundary(front, entry, boundary - 1);
            assert(due_before(last));
        } else {
            lemma_place_is_boundary(front, entry, boundary);
            assert(!due_before(last));
        }
    }
}

/// The place of an entry lies within the entries, with those due before it on
/// one side and the others on the other.
pub proof fn lemma_place_splits<F>(entries: Seq<QueueEntry<F>>, entry: QueueEntry<F>)
    requires
        in_order(entries),
    ensures
        place(entries, entry) <= entries.len(),
        forall|i: int|
            0 <= i < place(entries, entry) ==> (#[trigger] entries[i]).runs_before(entry),
        forall|i: int|
            place(entries, entry) <= i < entries.len() ==> !(#[trigger] entries[i]).runs_before(
                entry,
            ),
    decreases entries.len(),
{
    if entries.len() > 0 {
        let front = entries.drop_last();
        lemma_place_splits(front, entry);
        let boundary = place(front, entry) as int;
        assert forall|i: int| 0 <= i < boundary implies (#[trigger] entries[i]).runs_before(
            entry,
        ) by {
            assert(entries[i] == front[i]);
        }
        assert forall|i: int| boundary <= i < front.len() implies !(
        #[trigger] entries[i]).runs_before(entry) by {
            assert(entries[i] == front[i]);
        }
        if entries.last().runs_before(entry) {
            if boundary < front.len() {
                assert(entries[boundary].runs_before(entries[entries.len() - 1]));
            }
            lemma_place_is_boundary(entries, entry, entries.len() as int);
        } else {
            lemma_place_is_boundary(entries, entry, boundary);
        }
    } else {
        lemma_place_is_boundary(entries, entry, 0);
    }
}

/// The tasks waiting to run, the next one to run first.
pub struct PendingTasks<F> {
    entries: VecDeque<QueueEntry<F>>,
}

impl<F> View for PendingTasks<F> {
    type V = Seq<QueueEntry<F>>;

    closed spec fn view(&self) -> Seq<QueueEntry<F>> {
        self.entries@
    }
}

impl<F> PendingTasks<F> {
    /// No tasks.
    pub fn new() -> (pending: Self)
        ensures
            pending@ == Seq::<QueueEntry<F>>::empty(),
    {
        PendingTasks { entries: VecDeque::new() }
    }

    /// The number of tasks.
    pub fn len(&self) -> (len: usize)
        ensures
            len == self@.len(),
    {
        self.entries.len()
    }

    /// Whether there is no task.
    pub fn is_empty(&self) -> (empty: bool)
        ensures
            empty == (self@.len() == 0),
    {
        self.entries.len() == 0
    }

    /// Finds the place of an entry by halving the range where it can lie.
    fn find_place(&self, entry: &QueueEntry<F>) -> (index: usize)
        requires
            in_order(self@),
        ensures
            index == place(self@, *entry),
            index <= self@.len(),
    {
        let mut low: usize = 0;
        let mut high: usize = self.entries.len();
        proof {
            lemma_place_splits(self@, *entry);
        }
        while low < high
            invariant
                in_order(self@),
                low <= place(self@, *entry) <= high <= self@.len(),
                forall|i: int|
                    0 <= i < place(self@, *entry) ==> (#[trigger] self@[i]).runs_before(*entry),
                forall|i: int|
                    place(self@, *entry) <= i < self@.len() ==> !(
                    #[trigger] self@[i]).runs_before(*entry),
            decreases high - low,
        {
            let middle: usize = low + (high - low) / 2;
            if self.entries[middle] > *entry {
                low = middle + 1;
            } else {
                high = middle;
            }
        }
        low
    }

    /// Puts an entry at its place in the order.
    pub fn push(&mut self, entry: QueueEntry<F>)
        requires
            in_order(old(self)@),
        ensures
            final(self)@ == old(self)@.insert(place(old(self)@, entry) as int, entry),
    {
        let index = self.find_place(&entry);
        self.entries.insert(index, entry);
    }

    /// Takes the entry that is due first.
    pub fn pop(&mut self) -> (entry: Option<QueueEntry<F>>)
        ensures
            old(self)@.len() == 0 ==> entry is None && final(self)@ == old(self)@,
            old(self)@.len() > 0 ==> entry == Some(old(self)@[0]) && final(self)@
                == old(self)@.drop_first(),
    {
        self.entries.pop_front()
    }
}

} // verus!
