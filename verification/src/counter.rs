//! The counter store: one count of coins that starts at zero and only ever
//! grows by one.
//!
//! A service shares one `Counter` among its request handlers and lets one
//! handler at a time at it. Whatever the handlers do at once, the counter
//! then sees one operation after the other, in some order: a sequence of
//! `Operation`s. The laws at the end of this file say what every such
//! sequence does to the count.

use vstd::prelude::*;
use vstd::seq_lib::to_multiset_build;

verus! {

/// What a handler may do with the counter.
#[derive(Clone, Copy, Debug, PartialEq, Eq, Structural)]
pub enum Operation {
    /// Add one coin and report the new count.
    Increment,
    /// Report the count.
    Read,
}

/// The count after one operation.
pub open spec fn step(count: nat, operation: Operation) -> nat {
    match operation {
        Operation::Increment => count + 1,
        Operation::Read => count,
    }
}

/// The count after a sequence of operations, served first to last.
pub open spec fn replay(count: nat, operations: Seq<Operation>) -> nat
    decreases operations.len(),
{
    if operations.len() == 0 {
        count
    } else {
        step(replay(count, operations.drop_last()), operations.last())
    }
}

/// How many of the operations are increments.
pub open spec fn increments_in(operations: Seq<Operation>) -> nat {
    operations.to_multiset().count(Operation::Increment)
}

/// The single count of coins held by a running service.
#[derive(Debug)]
pub struct Counter {
    value: u32,
}

impl View for Counter {
    type V = nat;

    closed spec fn view(&self) -> nat {
        self.value as nat
    }
}

impl Counter {
    /// A fresh counter, holding no coin.
    pub fn new() -> (counter: Counter)
        ensures
            counter@ == 0,
    {
        Counter { value: 0 }
    }

    /// The current count.
    pub fn read(&self) -> (value: u32)
        ensures
            value == self@,
            self@ == step(self@, Operation::Read),
    {
        self.value
    }

    /// Whether the count has reached the largest number it can hold, so that
    /// no further coin can be added.
    pub fn is_full(&self) -> (full: bool)
        ensures
            full <==> self@ == u32::MAX,
    {
        self.value == u32::MAX
    }

    /// Adds one coin and returns the new count.
    pub fn increment(&mut self) -> (value: u32)
        requires
            old(self)@ < u32::MAX,
        ensures
            final(self)@ == old(self)@ + 1,
            final(self)@ == step(old(self)@, Operation::Increment),
            value == final(self)@,
    {
        self.value = self.value + 1;
        self.value
    }
}

/// A sequence of operations adds to the count exactly the number of
/// increments in it: no increment is lost and none counts twice.
pub proof fn lemma_replay_counts_increments(count: nat, operations: Seq<Operation>)
    ensures
        replay(count, operations) == count + increments_in(operations),
    decreases operations.len(),
{
    if operations.len() == 0 {
        assert(operations.to_multiset().len() == 0) by {
            operations.to_multiset_ensures();
        }
    } else {
        let earlier = operations.drop_last();
        lemma_replay_counts_increments(count, earlier);
        assert(operations =~= earlier.push(operations.last()));
        to_multiset_build(earlier, operations.last());
    }
}

/// The count never goes down: after more of the same operations it is at
/// least what it was after fewer.
pub proof fn lemma_replay_never_decreases(
    count: nat,
    operations: Seq<Operation>,
    fewer: int,
    more: int,
)
    requires
        0 <= fewer <= more <= operations.len(),
    ensures
        replay(count, operations.take(fewer)) <= replay(count, operations.take(more)),
    decreases more - fewer,
{
    if fewer < more {
        lemma_replay_never_decreases(count, operations, fewer, more - 1);
        assert(operations.take(more).drop_last() =~= operations.take(more - 1));
    }
}

/// No two increments report the same count: of two increments, the one that
/// is served later reports the greater count.
pub proof fn lemma_increments_report_distinct_counts(
    count: nat,
    operations: Seq<Operation>,
    earlier: int,
    later: int,
)
    requires
        0 <= earlier < later < operations.len(),
        operations[later] == Operation::Increment,
    ensures
        replay(count, operations.take(earlier + 1)) < replay(count, operations.take(later + 1)),
{
    lemma_replay_never_decreases(count, operations, earlier + 1, later);
    assert(operations.take(later + 1).drop_last() =~= operations.take(later));
}

/// From a fresh counter, operations with N increments among them leave the
/// count at N, whatever reads stand between them.
pub proof fn lemma_increments_from_zero(operations: Seq<Operation>)
    ensures
        replay(0, operations) == increments_in(operations),
{
    lemma_replay_counts_increments(0, operations);
}

/// The order in which the same operations are served does not change the
/// count they lead to.
pub proof fn lemma_order_is_immaterial(
    count: nat,
    first_order: Seq<Operation>,
    second_order: Seq<Operation>,
)
    requires
        first_order.to_multiset() == second_order.to_multiset(),
    ensures
        replay(count, first_order) == replay(count, second_order),
{
    lemma_replay_counts_increments(count, first_order);
    lemma_replay_counts_increments(count, second_order);
}

/// Reads alone, however many, leave the count as it was.
pub proof fn lemma_reads_keep_count(count: nat, operations: Seq<Operation>)
    requires
        forall|i: int| 0 <= i < operations.len() ==> operations[i] == Operation::Read,
    ensures
        replay(count, operations) == count,
    decreases operations.len(),
{
    if operations.len() > 0 {
        lemma_reads_keep_count(count, operations.drop_last());
    }
}

} // verus!
