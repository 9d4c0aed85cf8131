//! Health checks: named probes and the reports they give.

use crate::text::{distinct, index_of, lemma_index_of, lemma_index_of_unique, str_eq};
use vstd::prelude::*;

verus! {

/// Status of a health check.
#[derive(Debug, Clone, Copy, PartialEq, Eq, Structural)]
pub enum HealthStatus {
    /// The check passed.
    Healthy,
    /// The check failed.
    Unhealthy,
}

impl HealthStatus {
    /// Whether the status is healthy.
    pub fn is_healthy(self) -> (r: bool)
        ensures
            r == (self == HealthStatus::Healthy),
    {
        match self {
            HealthStatus::Healthy => true,
            HealthStatus::Unhealthy => false,
        }
    }
}

/// Result of a health check.
#[derive(Debug)]
pub struct HealthReport {
    /// Name of the check.
    pub name: String,
    /// Status of the check.
    pub status: HealthStatus,
    /// Detail message.
    pub detail: Option<String>,
}

impl HealthReport {
    /// The report of a check that passed.
    pub fn healthy(name: &str) -> (r: Self)
        ensures
            r.name@ == name@,
            r.status == HealthStatus::Healthy,
            r.detail is None,
    {
        HealthReport { name: name.to_owned(), status: HealthStatus::Healthy, detail: None }
    }

    /// The report of a check that failed, with the reason.
    pub fn unhealthy(name: &str, detail: &str) -> (r: Self)
        ensures
            r.name@ == name@,
            r.status == HealthStatus::Unhealthy,
            r.detail matches Some(d) && d@ == detail@,
    {
        HealthReport {
            name: name.to_owned(),
            status: HealthStatus::Unhealthy,
            detail: Some(detail.to_owned()),
        }
    }
}

/// A probe.
pub trait HealthCheck: Send + Sync {
    /// Runs the check and reports.
    fn check(&self) -> HealthReport;
}

/// The checks of a service, each under its own name.
pub struct HealthRegistry<C: HealthCheck> {
    entries: Vec<(String, C)>,
}

impl<C: HealthCheck> HealthRegistry<C> {
    /// The names of the registered checks, in the order in which they
    /// were first registered.
    pub closed spec fn names(self) -> Seq<Seq<char>> {
        Seq::new(self.entries@.len(), |i: int| self.entries@[i].0@)
    }

    /// The registered checks, each at the index of its name.
    pub closed spec fn checks(self) -> Seq<C> {
        Seq::new(self.entries@.len(), |i: int| self.entries@[i].1)
    }

    /// No name occurs twice.
    #[verifier::type_invariant]
    pub closed spec fn wf(self) -> bool {
        distinct(self.names())
    }

    /// A registry without checks.
    pub fn new() -> (r: Self)
        ensures
            r.names().len() == 0,
            r.checks().len() == 0,
    {
        HealthRegistry { entries: Vec::new() }
    }

    /// The number of registered checks.
    pub fn len(&self) -> (n: usize)
        ensures
            n == self.names().len(),
            n == self.checks().len(),
    {
        self.entries.len()
    }

    /// The index of the check named `name`, or the number of checks.
    pub fn position(&self, name: &str) -> (i: usize)
        ensures
            i == index_of(self.names(), name@),
            i <= self.names().len(),
    {
        let mut i: usize = 0;
        while i < self.entries.len() && !str_eq(self.entries[i].0.as_str(), name)
            invariant
                i <= self.entries@.len(),
                forall|j: int| 0 <= j < i ==> self.names()[j] != name@,
            decreases self.entries@.len() - i,
        {
            i += 1;
        }
        proof {
            lemma_index_of_unique(self.names(), name@, i as int);
        }
        i
    }

    /// Registers `check` under `name`. A check already registered under
    /// that name gives way to the new one; else the new one comes last.
    pub fn register_check(&mut self, name: &str, check: C)
        ensures
            final(self).names() == (if index_of(old(self).names(), name@) < old(
                self,
            ).names().len() {
                old(self).names()
            } else {
                old(self).names().push(name@)
            }),
            final(self).checks() == (if index_of(old(self).names(), name@) < old(
                self,
            ).names().len() {
                old(self).checks().update(index_of(old(self).names(), name@), check)
            } else {
                old(self).checks().push(check)
            }),
    {
        proof {
            use_type_invariant(&*self);
        }
        let ghost names = self.names();
        let ghost checks = self.checks();
        let i = self.position(name);
        proof {
            lemma_index_of(names, name@);
        }
        let mut entries: Vec<(String, C)> = Vec::new();
        std::mem::swap(&mut self.entries, &mut entries);
        if i < entries.len() {
            entries.set(i, (name.to_owned(), check));
        } else {
            entries.push((name.to_owned(), check));
        }
        proof {
            let after = Seq::new(entries@.len(), |k: int| entries@[k].0@);
            if i < names.len() {
                assert(after =~= names);
            } else {
                assert(after =~= names.push(name@));
            }
        }
        self.entries = entries;
        proof {
            if i < names.len() {
                assert(self.names() =~= names);
                assert(self.checks() =~= checks.update(i as int, check));
            } else {
                assert(self.names() =~= names.push(name@));
                assert(self.checks() =~= checks.push(check));
            }
        }
    }

    /// Runs every check once, in the order of the names, and returns the
    /// reports in that order.
    pub fn snapshot(&self) -> (out: Vec<HealthReport>)
        ensures
            out@.len() == self.names().len(),
    {
        let mut out: Vec<HealthReport> = Vec::new();
        let mut i: usize = 0;
        while i < self.entries.len()
            invariant
                i <= self.entries@.len(),
                out@.len() == i,
            decreases self.entries@.len() - i,
        {
            out.push(self.entries[i].1.check());
            i += 1;
        }
        out
    }
}

} // verus!
