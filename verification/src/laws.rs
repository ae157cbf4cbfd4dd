//! What holds of tranches whatever way they are used: the laws that relate
//! one operation to another, proved from the contracts of the operations.
//!
//! The contracts describe one call: what it returns and what it leaves, by
//! the relations `is_front_of` and `is_rest_of`. The laws here compose those
//! relations over several calls.

use crate::based::BasedTranche;
use crate::tranche::Tranche;
use vstd::prelude::*;
use vstd::std_specs::convert::FromSpec;

verus! {

/// The sum of the numbers in `steps`.
pub open spec fn total(steps: Seq<nat>) -> nat
    decreases steps.len(),
{
    if steps.len() == 0 {
        0
    } else {
        total(steps.drop_last()) + steps.last()
    }
}

/// Steps of one element each add up to their count.
pub proof fn lemma_total_of_ones(steps: Seq<nat>)
    requires
        forall|i: int| 0 <= i < steps.len() ==> steps[i] == 1,
    ensures
        total(steps) == steps.len(),
    decreases steps.len(),
{
    if steps.len() > 0 {
        lemma_total_of_ones(steps.drop_last());
    }
}

impl<'a, T> Tranche<'a, T> {
    /// Taking a front splits a tranche in two and loses nothing: the front
    /// followed by the rest is the tranche as it was, and the two lengths
    /// add up to its length.
    pub proof fn lemma_front_and_rest(whole: Self, front: Self, rest: Self, n: nat)
        requires
            front.is_front_of(&whole, n),
            rest.is_rest_of(&whole, n),
        ensures
            front@ + rest@ == whole@,
            front@.len() == n,
            rest@.len() == whole@.len() - n,
            front@ == whole@.subrange(0, n as int),
            rest@ == whole@.subrange(n as int, whole@.len() as int),
    {
        assert(front@ + rest@ =~= whole@);
    }

    /// Taking twice is taking once: what is left after `j` elements and then
    /// `k` more were taken is what is left after `j + k` were taken at once.
    pub proof fn lemma_rest_of_rest(first: Self, second: Self, third: Self, j: nat, k: nat)
        requires
            second.is_rest_of(&first, j),
            third.is_rest_of(&second, k),
        ensures
            third.is_rest_of(&first, j + k),
    {
        assert(first@.skip(j as int).skip(k as int) =~= first@.skip((j + k) as int));
    }

    /// However a tranche is consumed, its start marker moves by the number of
    /// elements taken: if each of `states` is left of the one before it by
    /// a take of the matching number in `steps`, the last is what is left of
    /// the first after the sum of all the steps.
    pub proof fn lemma_taken_in_steps(states: Seq<Self>, steps: Seq<nat>)
        requires
            states.len() == steps.len() + 1,
            forall|i: int|
                0 <= i < steps.len() ==> (#[trigger] states[i + 1]).is_rest_of(
                    &states[i],
                    steps[i],
                ),
        ensures
            states.last().is_rest_of(&states[0], total(steps)),
            states.last()@.len() + total(steps) == states[0]@.len(),
            states.last().start() == states[0].start() + total(steps),
        decreases steps.len(),
    {
        if steps.len() == 0 {
            assert(states[0]@.skip(0) =~= states[0]@);
        } else {
            let earlier = states.drop_last();
            let earlier_steps = steps.drop_last();
            assert forall|i: int| 0 <= i < earlier_steps.len() implies (#[trigger] earlier[i
                + 1]).is_rest_of(&earlier[i], earlier_steps[i]) by {
                assert(states[i + 1].is_rest_of(&states[i], steps[i]));
            }
            Self::lemma_taken_in_steps(earlier, earlier_steps);
            let last = steps.len() - 1;
            assert(states[last + 1].is_rest_of(&states[last], steps[last]));
            Self::lemma_rest_of_rest(
                states[0],
                states[last],
                states[last + 1],
                total(earlier_steps),
                steps[last],
            );
        }
    }

    /// Taken one element at a time, a tranche of `n` elements is empty after
    /// `n` takes, and its start marker moves by `n`.
    pub proof fn lemma_taken_one_by_one(states: Seq<Self>)
        requires
            states.len() > 0,
            states.len() == states[0]@.len() + 1,
            forall|i: int|
                0 <= i < states.len() - 1 ==> (#[trigger] states[i + 1]).is_rest_of(&states[i], 1),
        ensures
            states.last()@.len() == 0,
            states.last().start() == states[0].start() + states[0]@.len(),
            forall|i: int|
                0 <= i < states.len() ==> (#[trigger] states[i])@.len() == states[0]@.len() - i,
    {
        let n = (states.len() - 1) as nat;
        assert forall|i: int| 0 <= i < states.len() implies (#[trigger] states[i])@.len()
            == states[0]@.len() - i by {
            let steps = Seq::new(i as nat, |k: int| 1nat);
            lemma_total_of_ones(steps);
            Self::lemma_taken_in_steps(states.take(i + 1), steps);
        }
        let steps = Seq::new(n, |k: int| 1nat);
        lemma_total_of_ones(steps);
        Self::lemma_taken_in_steps(states, steps);
    }
}

impl<'a, T> BasedTranche<'a, T> {
    /// Taking a front splits a tranche in two and loses nothing: the front
    /// followed by the rest is the tranche as it was, and the two lengths
    /// add up to its length.
    pub proof fn lemma_front_and_rest(whole: Self, front: Self, rest: Self, n: nat)
        requires
            front.is_front_of(&whole, n),
            rest.is_rest_of(&whole, n),
        ensures
            front@ + rest@ == whole@,
            front@.len() == n,
            rest@.len() == whole@.len() - n,
            front@ == whole@.subrange(0, n as int),
            rest@ == whole@.subrange(n as int, whole@.len() as int),
    {
        assert(front@ + rest@ =~= whole@);
    }

    /// Taking twice is taking once: what is left after `j` elements and then
    /// `k` more were taken is what is left after `j + k` were taken at once.
    pub proof fn lemma_rest_of_rest(first: Self, second: Self, third: Self, j: nat, k: nat)
        requires
            second.is_rest_of(&first, j),
            third.is_rest_of(&second, k),
        ensures
            third.is_rest_of(&first, j + k),
    {
        assert(first@.skip(j as int).skip(k as int) =~= first@.skip((j + k) as int));
    }

    /// However a tranche is consumed, its offset grows by the number of
    /// elements taken: if each of `states` is left of the one before it by
    /// a take of the matching number in `steps`, the last is what is left of
    /// the first after the sum of all the steps.
    pub proof fn lemma_taken_in_steps(states: Seq<Self>, steps: Seq<nat>)
        requires
            states.len() == steps.len() + 1,
            forall|i: int|
                0 <= i < steps.len() ==> (#[trigger] states[i + 1]).is_rest_of(
                    &states[i],
                    steps[i],
                ),
        ensures
            states.last().is_rest_of(&states[0], total(steps)),
            states.last()@.len() + total(steps) == states[0]@.len(),
            states.last().offset() == states[0].offset() + total(steps),
        decreases steps.len(),
    {
        if steps.len() == 0 {
            assert(states[0]@.skip(0) =~= states[0]@);
        } else {
            let earlier = states.drop_last();
            let earlier_steps = steps.drop_last();
            assert forall|i: int| 0 <= i < earlier_steps.len() implies (#[trigger] earlier[i
                + 1]).is_rest_of(&earlier[i], earlier_steps[i]) by {
                assert(states[i + 1].is_rest_of(&states[i], steps[i]));
            }
            Self::lemma_taken_in_steps(earlier, earlier_steps);
            let last = steps.len() - 1;
            assert(states[last + 1].is_rest_of(&states[last], steps[last]));
            Self::lemma_rest_of_rest(
                states[0],
                states[last],
                states[last + 1],
                total(earlier_steps),
                steps[last],
            );
        }
    }

    /// Taken one element at a time, a tranche of `n` elements is empty after
    /// `n` takes, and its offset grows by `n`.
    pub proof fn lemma_taken_one_by_one(states: Seq<Self>)
        requires
            states.len() > 0,
            states.len() == states[0]@.len() + 1,
            forall|i: int|
                0 <= i < states.len() - 1 ==> (#[trigger] states[i + 1]).is_rest_of(&states[i], 1),
        ensures
            states.last()@.len() == 0,
            states.last().offset() == states[0].offset() + states[0]@.len(),
            forall|i: int|
                0 <= i < states.len() ==> (#[trigger] states[i])@.len() == states[0]@.len() - i,
    {
        let n = (states.len() - 1) as nat;
        assert forall|i: int| 0 <= i < states.len() implies (#[trigger] states[i])@.len()
            == states[0]@.len() - i by {
            let steps = Seq::new(i as nat, |k: int| 1nat);
            lemma_total_of_ones(steps);
            Self::lemma_taken_in_steps(states.take(i + 1), steps);
        }
        let steps = Seq::new(n, |k: int| 1nat);
        lemma_total_of_ones(steps);
        Self::lemma_taken_in_steps(states, steps);
    }
}

/// A fresh based tranche has taken nothing, so after any takes its offset is
/// the number of elements taken since: the sum of the steps.
pub proof fn lemma_offset_counts_taken<'a, T>(states: Seq<BasedTranche<'a, T>>, steps: Seq<nat>)
    requires
        states.len() == steps.len() + 1,
        states[0].offset() == 0,
        forall|i: int|
            0 <= i < steps.len() ==> (#[trigger] states[i + 1]).is_rest_of(
                &states[i],
                steps[i],
            ),
    ensures
        states.last().offset() == total(steps),
        states.last()@ == states[0]@.skip(total(steps) as int),
{
    BasedTranche::lemma_taken_in_steps(states, steps);
}

/// Making a tranche based and plain again gives back the tranche itself,
/// with the elements and the length it had; the based tranche in between
/// holds the same elements, at offset 0.
pub proof fn lemma_based_and_back<'a, T>(tranche: Tranche<'a, T>)
    ensures
        Tranche::from_spec(BasedTranche::from_spec(tranche)) == tranche,
        Tranche::from_spec(BasedTranche::from_spec(tranche))@ == tranche@,
        Tranche::from_spec(BasedTranche::from_spec(tranche))@.len() == tranche@.len(),
        BasedTranche::from_spec(tranche)@ == tranche@,
        BasedTranche::from_spec(tranche).offset() == 0,
{
    BasedTranche::lemma_based_at_start(tranche);
}

} // verus!
