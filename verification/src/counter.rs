//! The demo counter: one signed process-wide integer. Stepping wraps
//! around at the ends of the `i64` range, so no step can fail.

use vstd::prelude::*;

verus! {

/// The counter after one increment: the wrapped successor.
pub open spec fn counter_inc(v: i64) -> i64 {
    vstd::wrapping::i64_specs::wrapping_add(v, 1)
}

/// The counter after one decrement: the wrapped predecessor.
pub open spec fn counter_dec(v: i64) -> i64 {
    vstd::wrapping::i64_specs::wrapping_sub(v, 1)
}

/// A singleton mutable integer with no identity; it may go negative.
pub struct Counter {
    pub value: i64,
}

impl Counter {
    /// A counter starting at zero.
    pub fn new() -> (c: Counter)
        ensures
            c.value == 0,
    {
        Counter { value: 0 }
    }

    pub fn increment(&mut self)
        ensures
            final(self).value == counter_inc(old(self).value),
    {
        self.value = self.value.wrapping_add(1);
    }

    pub fn decrement(&mut self)
        ensures
            final(self).value == counter_dec(old(self).value),
    {
        self.value = self.value.wrapping_sub(1);
    }

    pub fn get(&self) -> (v: i64)
        ensures
            v == self.value,
    {
        self.value
    }
}

/// Away from the ends of the range, stepping is plain arithmetic: one
/// decrement and two increments from `v` land on `v + 1`.
pub proof fn lemma_counter_steps(v: i64)
    requires
        i64::MIN < v < i64::MAX,
    ensures
        counter_inc(counter_inc(counter_dec(v))) == v + 1,
        counter_inc(counter_dec(v)) == v,
        counter_dec(counter_inc(v)) == v,
{
}

} // verus!
