//! Metrics: named counters and their samples.

use crate::text::{distinct, index_of, lemma_index_of, lemma_index_of_unique, str_eq};
use vstd::prelude::*;

verus! {

/// A counter that only grows, until it wraps round at 2^64.
#[derive(Debug)]
pub struct Counter {
    value: u64,
}

impl View for Counter {
    type V = u64;

    /// The counter's value.
    closed spec fn view(&self) -> u64 {
        self.value
    }
}

/// The sum of two counts, wrapped round at 2^64.
pub open spec fn wrapped_sum(a: u64, b: u64) -> u64 {
    if a + b > u64::MAX {
        (a + b - 0x1_0000_0000_0000_0000) as u64
    } else {
        (a + b) as u64
    }
}

impl Counter {
    /// A counter at zero.
    pub fn new() -> (c: Self)
        ensures
            c@ == 0,
    {
        Counter { value: 0 }
    }

    /// Adds one.
    pub fn inc(&mut self)
        ensures
            final(self)@ == wrapped_sum(old(self)@, 1),
    {
        self.add(1);
    }

    /// Adds `amount`.
    pub fn add(&mut self, amount: u64)
        ensures
            final(self)@ == wrapped_sum(old(self)@, amount),
    {
        self.value = self.value.wrapping_add(amount);
    }

    /// The current value.
    pub fn get(&self) -> (v: u64)
        ensures
            v == self@,
    {
        self.value
    }
}

/// The value of a counter at the time of a snapshot.
#[derive(Debug)]
pub struct MetricSample {
    /// The metric name.
    pub name: String,
    /// The metric value.
    pub value: u64,
}

impl View for MetricSample {
    type V = (Seq<char>, u64);

    open spec fn view(&self) -> (Seq<char>, u64) {
        (self.name@, self.value)
    }
}

/// The counters of a service, each under its own name.
#[derive(Debug)]
pub struct MetricsRegistry {
    entries: Vec<(String, Counter)>,
}

impl MetricsRegistry {
    /// The names of the counters, in the order of their creation.
    pub closed spec fn names(self) -> Seq<Seq<char>> {
        Seq::new(self.entries@.len(), |i: int| self.entries@[i].0@)
    }

    /// The values of the counters, each at the index of its name.
    pub closed spec fn values(self) -> Seq<u64> {
        Seq::new(self.entries@.len(), |i: int| self.entries@[i].1@)
    }

    /// No name occurs twice.
    #[verifier::type_invariant]
    pub closed spec fn wf(self) -> bool {
        distinct(self.names())
    }

    /// A registry without counters.
    pub fn new() -> (r: Self)
        ensures
            r.names().len() == 0,
            r.values().len() == 0,
    {
        MetricsRegistry { entries: Vec::new() }
    }

    /// The number of counters.
    pub fn len(&self) -> (n: usize)
        ensures
            n == self.names().len(),
            n == self.values().len(),
    {
        self.entries.len()
    }

    /// The index of the counter named `name`, or the number of counters.
    pub fn position(&self, name: &str) -> (i: usize)
        ensures
            i == index_of(self.names(), name@),
            i <= self.names().len(),
    {
        let mut i: usize = 0;
        while i < self.entries.len() && !str_eq(self.entries[i].0.as_str(), name)
            invariant
                i <= self.entries@.len(),
                forall|j: int| 0 <= j < i ==> self.names()[j] != name@,
            decreases self.entries@.len() - i,
        {
            i += 1;
        }
        proof {
            lemma_index_of_unique(self.names(), name@, i as int);
        }
        i
    }

    /// The index of the counter named `name`. Where there is none yet, one
    /// is created at zero, after the others.
    pub fn counter(&mut self, name: &str) -> (i: usize)
        ensures
            i == index_of(old(self).names(), name@),
            i < final(self).names().len(),
            final(self).names() == (if i < old(self).names().len() {
                old(self).names()
            } else {
                old(self).names().push(name@)
            }),
            final(self).values() == (if i < old(self).names().len() {
                old(self).values()
            } else {
                old(self).values().push(0)
            }),
    {
        proof {
            use_type_invariant(&*self);
        }
        let ghost names = self.names();
        let ghost values = self.values();
        let i = self.position(name);
        if i == self.entries.len() {
            proof {
                lemma_index_of(names, name@);
            }
            let mut entries: Vec<(String, Counter)> = Vec::new();
            std::mem::swap(&mut self.entries, &mut entries);
            entries.push((name.to_owned(), Counter::new()));
            assert(Seq::new(entries@.len(), |k: int| entries@[k].0@) =~= names.push(name@));
            self.entries = entries;
            assert(self.names() =~= names.push(name@));
            assert(self.values() =~= values.push(0));
        }
        i
    }

    /// Adds `amount` to the counter at `index`; nothing changes where no
    /// counter has that index.
    pub fn add(&mut self, index: usize, amount: u64)
        ensures
            final(self).names() == old(self).names(),
            final(self).values() == (if index < old(self).values().len() {
                old(self).values().update(
                    index as int,
                    wrapped_sum(old(self).values()[index as int], amount),
                )
            } else {
                old(self).values()
            }),
    {
        proof {
            use_type_invariant(&*self);
        }
        if index >= self.entries.len() {
            return ;
        }
        let ghost names = self.names();
        let ghost values = self.values();
        let name = self.entries[index].0.clone();
        let mut c = Counter { value: self.entries[index].1.get() };
        c.add(amount);
        let mut entries: Vec<(String, Counter)> = Vec::new();
        std::mem::swap(&mut self.entries, &mut entries);
        entries.set(index, (name, c));
        assert(Seq::new(entries@.len(), |k: int| entries@[k].0@) =~= names);
        self.entries = entries;
        assert(self.names() =~= names);
        assert(self.values() =~= values.update(
            index as int,
            wrapped_sum(values[index as int], amount),
        ));
    }

    /// The value of the counter at `index`, if there is one.
    pub fn get(&self, index: usize) -> (v: Option<u64>)
        ensures
            v == (if index < self.values().len() {
                Some(self.values()[index as int])
            } else {
                None
            }),
    {
        if index < self.entries.len() {
            Some(self.entries[index].1.get())
        } else {
            None
        }
    }

    /// The name and the value of every counter, in the order of creation.
    pub fn snapshot(&self) -> (out: Vec<MetricSample>)
        ensures
            out@.len() == self.names().len(),
            forall|i: int|
                0 <= i < out@.len() ==> (#[trigger] out@[i])@ == (
                    self.names()[i],
                    self.values()[i],
                ),
    {
        let mut out: Vec<MetricSample> = Vec::new();
        let mut i: usize = 0;
        while i < self.entries.len()
            invariant
                i <= self.entries@.len(),
                out@.len() == i,
                forall|j: int|
                    0 <= j < i ==> (#[trigger] out@[j])@ == (
                        self.entries@[j].0@,
                        self.entries@[j].1@,
                    ),
            decreases self.entries@.len() - i,
        {
            out.push(
                MetricSample { name: self.entries[i].0.clone(), value: self.entries[i].1.get() },
            );
            i += 1;
        }
        out
    }
}

} // verus!
