use vstd::prelude::*;

verus! {

/// The counters of one method category.
#[derive(Clone, Copy, Debug, PartialEq, Eq)]
pub struct TestingResult {
    pub total_tests: u64,
    pub failed_tests: u64,
}

pub open spec fn zero_result() -> TestingResult {
    TestingResult { total_tests: 0, failed_tests: 0 }
}

/// The counters recorded under `method`: those of the first entry with that name.
pub open spec fn entry_of(entries: Seq<(String, TestingResult)>, method: Seq<char>) -> Option<TestingResult>
    decreases entries.len(),
{
    if entries.len() == 0 {
        None
    } else if entries[0].0@ == method {
        Some(entries[0].1)
    } else {
        entry_of(entries.drop_first(), method)
    }
}

/// Per-category counters, created on the first observation of a category.
pub struct TestingResults {
    entries: Vec<(String, TestingResult)>,
}

proof fn lemma_entry_of_skip(entries: Seq<(String, TestingResult)>, method: Seq<char>, i: int)
    requires
        0 <= i < entries.len(),
        entries[i].0@ != method,
    ensures
        entry_of(entries.subrange(i, entries.len() as int), method) == entry_of(
            entries.subrange(i + 1, entries.len() as int),
            method,
        ),
{
    let rest = entries.subrange(i, entries.len() as int);
    assert(rest.drop_first() =~= entries.subrange(i + 1, entries.len() as int));
}

proof fn lemma_entry_of_push(entries: Seq<(String, TestingResult)>, e: (String, TestingResult), m: Seq<char>)
    ensures
        entry_of(entries.push(e), m) == match entry_of(entries, m) {
            Some(r) => Some(r),
            None => if e.0@ == m {
                Some(e.1)
            } else {
                None
            },
        },
    decreases entries.len(),
{
    if entries.len() > 0 {
        assert(entries.push(e).drop_first() =~= entries.drop_first().push(e));
        assert(entries.push(e)[0] == entries[0]);
        lemma_entry_of_push(entries.drop_first(), e, m);
    } else {
        assert(entries.push(e)[0] == e);
        assert(entries.push(e).drop_first().len() == 0);
        assert(entry_of(entries.push(e).drop_first(), m) is None);
    }
}

proof fn lemma_entry_of_update(entries: Seq<(String, TestingResult)>, i: int, r: TestingResult, m: Seq<char>)
    requires
        0 <= i < entries.len(),
        forall|j: int| 0 <= j < i ==> (#[trigger] entries[j]).0@ != entries[i].0@,
    ensures
        entry_of(entries.update(i, (entries[i].0, r)), m) == if m == entries[i].0@ {
            Some(r)
        } else {
            entry_of(entries, m)
        },
    decreases i,
{
    if i > 0 {
        let rest = entries.drop_first();
        assert(entries.update(i, (entries[i].0, r)).drop_first() =~= rest.update(i - 1, (rest[i - 1].0, r)));
        assert forall|j: int| 0 <= j < i - 1 implies (#[trigger] rest[j]).0@ != rest[i - 1].0@ by {
            assert(rest[j] == entries[j + 1]);
        }
        assert(entries.update(i, (entries[i].0, r))[0] == entries[0]);
        assert(rest[i - 1] == entries[i]);
        lemma_entry_of_update(rest, i - 1, r, m);
    } else {
        assert(entries.update(0, (entries[0].0, r)).drop_first() =~= entries.drop_first());
        assert(entries.update(0, (entries[0].0, r))[0] == (entries[0].0, r));
    }
}

proof fn lemma_entry_of_bound(entries: Seq<(String, TestingResult)>, method: Seq<char>)
    requires
        forall|i: int| 0 <= i < entries.len() ==> (#[trigger] entries[i]).1.failed_tests <= entries[i].1.total_tests,
    ensures
        entry_of(entries, method) matches Some(r) ==> r.failed_tests <= r.total_tests,
    decreases entries.len(),
{
    if entries.len() > 0 {
        let rest = entries.drop_first();
        assert forall|i: int| 0 <= i < rest.len() implies (#[trigger] rest[i]).1.failed_tests <= rest[i].1.total_tests by {
            assert(rest[i] == entries[i + 1]);
        }
        lemma_entry_of_bound(rest, method);
    }
}

impl TestingResults {
    /// Well-formed: each category has one entry, and none has more failures
    /// than attempts.
    pub closed spec fn wf(&self) -> bool {
        &&& forall|i: int| 0 <= i < self.entries@.len() ==> (#[trigger] self.entries@[i]).1.failed_tests <= self.entries@[i].1.total_tests
        &&& forall|i: int, j: int| 0 <= i < j < self.entries@.len() ==> (#[trigger] self.entries@[i]).0@ != (#[trigger] self.entries@[j]).0@
    }

    /// Whether `method` has been observed.
    pub closed spec fn observed(&self, method: Seq<char>) -> bool {
        entry_of(self.entries@, method) is Some
    }

    /// The counters of `method`, zero when it has not been observed.
    pub closed spec fn result_of(&self, method: Seq<char>) -> TestingResult {
        match entry_of(self.entries@, method) {
            Some(r) => r,
            None => zero_result(),
        }
    }

    /// The observed categories, in the order of their first observation.
    pub closed spec fn methods(&self) -> Seq<Seq<char>> {
        self.entries@.map_values(|e: (String, TestingResult)| e.0@)
    }

    pub fn new() -> (r: TestingResults)
        ensures
            r.wf(),
            forall|m: Seq<char>| !r.observed(m) && r.result_of(m) == zero_result(),
    {
        TestingResults { entries: Vec::new() }
    }

    /// The index of the first entry of `method`, if any.
    fn find(&self, method: &String) -> (r: Option<usize>)
        ensures
            match r {
                Some(i) => i < self.entries@.len() && self.entries@[i as int].0@ == method@
                    && forall|j: int| 0 <= j < i ==> (#[trigger] self.entries@[j]).0@ != method@,
                None => forall|j: int| 0 <= j < self.entries@.len() ==> (#[trigger] self.entries@[j]).0@ != method@,
            },
            r is None <==> entry_of(self.entries@, method@) is None,
            r matches Some(i) ==> entry_of(self.entries@, method@) == Some(self.entries@[i as int].1),
    {
        let n = self.entries.len();
        let mut i: usize = 0;
        assert(self.entries@.subrange(0, n as int) =~= self.entries@);
        while i < n
            invariant
                0 <= i <= n,
                n == self.entries@.len(),
                forall|j: int| 0 <= j < i ==> (#[trigger] self.entries@[j]).0@ != method@,
                entry_of(self.entries@, method@) == entry_of(self.entries@.subrange(i as int, n as int), method@),
            decreases n - i,
        {
            if self.entries[i].0 == *method {
                assert(self.entries@.subrange(i as int, n as int)[0] == self.entries@[i as int]);
                return Some(i);
            }
            proof {
                lemma_entry_of_skip(self.entries@, method@, i as int);
            }
            i = i + 1;
        }
        assert(self.entries@.subrange(n as int, n as int).len() == 0);
        None
    }

    /// Counts one more attempt for `method`, observing it if it was not yet.
    pub fn inc_total_tests(&mut self, method: &String)
        requires
            old(self).wf(),
        ensures
            final(self).wf(),
            total_counted(*old(self), *final(self), method@),
    {
        match self.find(method) {
            Some(i) => {
                let cur = self.entries[i].1;
                let next = TestingResult { total_tests: cur.total_tests.saturating_add(1), failed_tests: cur.failed_tests };
                let name = self.entries[i].0.clone();
                proof {
                    lemma_entry_of_update(self.entries@, i as int, next, method@);
                    assert forall|m: Seq<char>| m != method@ implies entry_of(self.entries@.update(i as int, (name, next)), m) == entry_of(self.entries@, m) by {
                        lemma_entry_of_update(self.entries@, i as int, next, m);
                    }
                }
                self.entries.set(i, (name, next));
            },
            None => {
                let e = (method.clone(), TestingResult { total_tests: 1, failed_tests: 0 });
                proof {
                    assert forall|m: Seq<char>| #[trigger] entry_of(self.entries@.push(e), m) == (if m == method@ {
                        Some(e.1)
                    } else {
                        entry_of(self.entries@, m)
                    }) by {
                        lemma_entry_of_push(self.entries@, e, m);
                    }
                }
                self.entries.push(e);
            },
        }
    }

    /// Counts one more failure for `method`, against an attempt already counted.
    pub fn inc_failed_tests(&mut self, method: &String)
        requires
            old(self).wf(),
        ensures
            final(self).wf(),
            failure_counted(*old(self), *final(self), method@),
    {
        match self.find(method) {
            Some(i) => {
                let cur = self.entries[i].1;
                if cur.failed_tests < cur.total_tests {
                    let next = TestingResult { total_tests: cur.total_tests, failed_tests: cur.failed_tests + 1 };
                    let name = self.entries[i].0.clone();
                    proof {
                        assert forall|m: Seq<char>| #[trigger] entry_of(self.entries@.update(i as int, (name, next)), m) == (if m == method@ {
                            Some(next)
                        } else {
                            entry_of(self.entries@, m)
                        }) by {
                            lemma_entry_of_update(self.entries@, i as int, next, m);
                        }
                    }
                    self.entries.set(i, (name, next));
                }
            },
            None => {},
        }
    }

    /// The counters of `method`; zero when it has not been observed.
    pub fn get(&self, method: &String) -> (r: TestingResult)
        requires
            self.wf(),
        ensures
            r == self.result_of(method@),
            r.failed_tests <= r.total_tests,
    {
        proof {
            lemma_entry_of_bound(self.entries@, method@);
        }
        match self.find(method) {
            Some(i) => self.entries[i].1,
            None => TestingResult { total_tests: 0, failed_tests: 0 },
        }
    }

    /// Every observed category with its counters, in order of first observation.
    pub fn entries(&self) -> (r: &Vec<(String, TestingResult)>)
        ensures
            r@.map_values(|e: (String, TestingResult)| e.0@) == self.methods(),
    {
        &self.entries
    }
}

/// `after` is `before` with one more attempt counted for `method`, and
/// nothing else changed.
pub open spec fn total_counted(before: TestingResults, after: TestingResults, method: Seq<char>) -> bool {
    &&& after.observed(method)
    &&& after.result_of(method).total_tests == if before.result_of(method).total_tests < u64::MAX {
        (before.result_of(method).total_tests + 1) as u64
    } else {
        before.result_of(method).total_tests
    }
    &&& after.result_of(method).failed_tests == before.result_of(method).failed_tests
    &&& forall|m: Seq<char>| m != method ==> after.result_of(m) == before.result_of(m) && after.observed(m) == before.observed(m)
}

/// `after` is `before` with one more failure counted for `method` (when one
/// more fits under its attempts), and nothing else changed.
pub open spec fn failure_counted(before: TestingResults, after: TestingResults, method: Seq<char>) -> bool {
    &&& after.result_of(method).total_tests == before.result_of(method).total_tests
    &&& after.result_of(method).failed_tests == if before.result_of(method).failed_tests < before.result_of(method).total_tests {
        (before.result_of(method).failed_tests + 1) as u64
    } else {
        before.result_of(method).failed_tests
    }
    &&& after.observed(method) == before.observed(method)
    &&& forall|m: Seq<char>| m != method ==> after.result_of(m) == before.result_of(m) && after.observed(m) == before.observed(m)
}

/// The number of requests of `method` among `records`.
pub open spec fn attempts_of(records: Seq<(Seq<char>, bool)>, method: Seq<char>) -> nat
    decreases records.len(),
{
    if records.len() == 0 {
        0
    } else {
        attempts_of(records.drop_last(), method) + if records.last().0 == method {
            1nat
        } else {
            0nat
        }
    }
}

/// The number of failed requests of `method` among `records`.
pub open spec fn failures_of(records: Seq<(Seq<char>, bool)>, method: Seq<char>) -> nat
    decreases records.len(),
{
    if records.len() == 0 {
        0
    } else {
        failures_of(records.drop_last(), method) + if records.last().0 == method && records.last().1 {
            1nat
        } else {
            0nat
        }
    }
}

/// `after` is `before` with one request of `method` recorded: its attempt
/// counted and, when it failed, its failure.
pub open spec fn request_recorded(before: TestingResults, after: TestingResults, method: Seq<char>, failed: bool) -> bool {
    exists|mid: TestingResults|
        #[trigger] total_counted(before, mid, method) && if failed {
            failure_counted(mid, after, method)
        } else {
            mid == after
        }
}

/// Counting the attempt of a request and then, when it failed, its failure
/// records that request.
pub proof fn lemma_request_recorded(before: TestingResults, mid: TestingResults, after: TestingResults, method: Seq<char>, failed: bool)
    requires
        total_counted(before, mid, method),
        failed ==> failure_counted(mid, after, method),
        !failed ==> after == mid,
    ensures
        request_recorded(before, after, method, failed),
{
}

proof fn lemma_run_prefix(states: Seq<TestingResults>, records: Seq<(Seq<char>, bool)>, method: Seq<char>, n: int)
    requires
        states.len() == records.len() + 1,
        records.len() < u64::MAX,
        0 <= n <= records.len(),
        states[0].result_of(method) == zero_result(),
        forall|k: int| 0 <= k < records.len() ==> request_recorded(#[trigger] states[k], states[k + 1], records[k].0, records[k].1),
    ensures
        states[n].result_of(method).total_tests == attempts_of(records.subrange(0, n), method),
        states[n].result_of(method).failed_tests == failures_of(records.subrange(0, n), method),
        failures_of(records.subrange(0, n), method) <= attempts_of(records.subrange(0, n), method),
        attempts_of(records.subrange(0, n), method) <= n,
    decreases n,
{
    if n > 0 {
        lemma_run_prefix(states, records, method, n - 1);
        let prefix = records.subrange(0, n);
        assert(prefix.drop_last() =~= records.subrange(0, n - 1));
        assert(prefix.last() == records[n - 1]);
        assert(request_recorded(states[n - 1], states[n], records[n - 1].0, records[n - 1].1));
        let mid = choose|mid: TestingResults|
            #[trigger] total_counted(states[n - 1], mid, records[n - 1].0) && if records[n - 1].1 {
                failure_counted(mid, states[n], records[n - 1].0)
            } else {
                mid == states[n]
            };
        if records[n - 1].0 != method {
            assert(mid.result_of(method) == states[n - 1].result_of(method));
        }
    } else {
        assert(records.subrange(0, 0).len() == 0);
    }
}

/// After a run in which every request was recorded once, each category has
/// counted exactly as many attempts as it had requests, and no more failures
/// than attempts.
pub proof fn lemma_run_counts(states: Seq<TestingResults>, records: Seq<(Seq<char>, bool)>, method: Seq<char>)
    requires
        states.len() == records.len() + 1,
        records.len() < u64::MAX,
        states[0].result_of(method) == zero_result(),
        forall|k: int| 0 <= k < records.len() ==> request_recorded(#[trigger] states[k], states[k + 1], records[k].0, records[k].1),
    ensures
        states.last().result_of(method).total_tests == attempts_of(records, method),
        states.last().result_of(method).failed_tests == failures_of(records, method),
        states.last().result_of(method).failed_tests <= states.last().result_of(method).total_tests,
{
    lemma_run_prefix(states, records, method, records.len() as int);
    assert(records.subrange(0, records.len() as int) =~= records);
}

} // verus!
