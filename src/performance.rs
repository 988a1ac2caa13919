use vstd::prelude::*;
use std::collections::HashMap;
use crate::engine::{
    GET_ASSET_BY_AUTHORITY_METHOD, GET_ASSET_BY_CREATOR_METHOD, GET_ASSET_BY_GROUP_METHOD,
    GET_ASSET_BY_OWNER_METHOD, GET_ASSET_METHOD, GET_ASSET_PROOF_METHOD, GET_SIGNATURES_FOR_ASSET,
    GET_TOKEN_ACCOUNTS, GET_TOKEN_ACCOUNTS_BY_MINT, GET_TOKEN_ACCOUNTS_BY_OWNER,
    GET_TOKEN_ACCOUNTS_BY_OWNER_AND_MINT,
};
use crate::text::same_text;

verus! {

/// What the load-test driver tells its workers.
#[derive(Debug)]
pub enum Commands {
    Init,
    Start(Vec<u32>),
    Stop(Vec<u32>),
}

/// The counters of a load test.
pub struct Stats {
    successful_requests: u64,
    failed_requests: u64,
    response_time_millis: Vec<u64>,
    error_codes: HashMap<u16, u64>,
}

/// How one request of a load test ended.
#[derive(Debug, Clone, Copy, PartialEq, Eq)]
pub enum CallOutcome {
    Success,
    /// The host answered with this status instead of success.
    StatusCode(u16),
    /// The request failed some other way.
    OtherError,
}

/// Average, largest and smallest response time, in milliseconds.
#[derive(Debug, Clone, Copy, PartialEq, Eq)]
pub struct ResponseTimes {
    pub average: u64,
    pub max: u64,
    pub min: u64,
}

pub open spec fn sum_of(s: Seq<u64>) -> nat
    decreases s.len(),
{
    if s.len() == 0 {
        0
    } else {
        (sum_of(s.drop_last()) + s.last()) as nat
    }
}

pub open spec fn max_of(s: Seq<u64>) -> u64
    decreases s.len(),
{
    if s.len() == 0 {
        0
    } else if max_of(s.drop_last()) < s.last() {
        s.last()
    } else {
        max_of(s.drop_last())
    }
}

pub open spec fn min_of(s: Seq<u64>) -> u64
    decreases s.len(),
{
    if s.len() == 0 {
        u64::MAX
    } else if s.last() < min_of(s.drop_last()) {
        s.last()
    } else {
        min_of(s.drop_last())
    }
}

proof fn lemma_sum_bound(s: Seq<u64>)
    ensures
        sum_of(s) <= s.len() * 0xffff_ffff_ffff_ffff,
    decreases s.len(),
{
    if s.len() > 0 {
        lemma_sum_bound(s.drop_last());
        assert(sum_of(s.drop_last()) + s.last() <= (s.len() - 1) * 0xffff_ffff_ffff_ffff + 0xffff_ffff_ffff_ffff) by (nonlinear_arith)
            requires
                sum_of(s.drop_last()) <= (s.len() - 1) * 0xffff_ffff_ffff_ffff,
                s.last() <= 0xffff_ffff_ffff_ffff,
        ;
        assert((s.len() - 1) * 0xffff_ffff_ffff_ffff + 0xffff_ffff_ffff_ffff == s.len() * 0xffff_ffff_ffff_ffff) by (nonlinear_arith);
    }
}

impl Stats {
    pub closed spec fn successful(&self) -> u64 {
        self.successful_requests
    }

    pub closed spec fn failed(&self) -> u64 {
        self.failed_requests
    }

    pub closed spec fn times(&self) -> Seq<u64> {
        self.response_time_millis@
    }

    pub closed spec fn codes(&self) -> Map<u16, u64> {
        self.error_codes@
    }

    pub fn new() -> (r: Stats)
        ensures
            r.successful() == 0,
            r.failed() == 0,
            r.times() == Seq::<u64>::empty(),
            r.codes() == Map::<u16, u64>::empty(),
    {
        Stats {
            successful_requests: 0,
            failed_requests: 0,
            response_time_millis: Vec::new(),
            error_codes: HashMap::new(),
        }
    }

    pub fn inc_successful_requests(&mut self)
        requires
            old(self).successful() < u64::MAX,
        ensures
            final(self).successful() == old(self).successful() + 1,
            final(self).failed() == old(self).failed(),
            final(self).times() == old(self).times(),
            final(self).codes() == old(self).codes(),
    {
        self.successful_requests = self.successful_requests + 1;
    }

    pub fn inc_failed_requests(&mut self)
        requires
            old(self).failed() < u64::MAX,
        ensures
            final(self).failed() == old(self).failed() + 1,
            final(self).successful() == old(self).successful(),
            final(self).times() == old(self).times(),
            final(self).codes() == old(self).codes(),
    {
        self.failed_requests = self.failed_requests + 1;
    }

    pub fn add_response_time(&mut self, time: u64)
        ensures
            final(self).times() == old(self).times().push(time),
            final(self).successful() == old(self).successful(),
            final(self).failed() == old(self).failed(),
            final(self).codes() == old(self).codes(),
    {
        self.response_time_millis.push(time);
    }

    /// Counts one more answer with status `code`.
    pub fn inc_error_code(&mut self, code: u16)
        requires
            old(self).codes().contains_key(code) ==> old(self).codes()[code] < u64::MAX,
        ensures
            final(self).codes() == old(self).codes().insert(
                code,
                if old(self).codes().contains_key(code) {
                    (old(self).codes()[code] + 1) as u64
                } else {
                    1
                },
            ),
            final(self).successful() == old(self).successful(),
            final(self).failed() == old(self).failed(),
            final(self).times() == old(self).times(),
    {
        broadcast use vstd::std_specs::hash::group_hash_axioms;
        let next = match self.error_codes.get(&code) {
            Some(count) => *count + 1,
            None => 1,
        };
        self.error_codes.insert(code, next);
    }

    /// Records one request of a load test: its response time, and whether it
    /// succeeded; a failure with a status also counts that status.
    pub fn record_call(&mut self, elapsed_millis: u64, outcome: CallOutcome)
        requires
            old(self).successful() < u64::MAX,
            old(self).failed() < u64::MAX,
            forall|c: u16| old(self).codes().contains_key(c) ==> old(self).codes()[c] < u64::MAX,
        ensures
            final(self).times() == old(self).times().push(elapsed_millis),
            final(self).successful() == old(self).successful() + if outcome is Success {
                1int
            } else {
                0int
            },
            final(self).failed() == old(self).failed() + if outcome is Success {
                0int
            } else {
                1int
            },
            final(self).codes() == match outcome {
                CallOutcome::StatusCode(code) => old(self).codes().insert(
                    code,
                    if old(self).codes().contains_key(code) {
                        (old(self).codes()[code] + 1) as u64
                    } else {
                        1
                    },
                ),
                _ => old(self).codes(),
            },
    {
        self.add_response_time(elapsed_millis);
        match outcome {
            CallOutcome::Success => self.inc_successful_requests(),
            CallOutcome::StatusCode(code) => {
                self.inc_failed_requests();
                self.inc_error_code(code);
            },
            CallOutcome::OtherError => self.inc_failed_requests(),
        }
    }

    pub fn successful_requests(&self) -> (r: u64)
        ensures
            r == self.successful(),
    {
        self.successful_requests
    }

    pub fn failed_requests(&self) -> (r: u64)
        ensures
            r == self.failed(),
    {
        self.failed_requests
    }

    /// The counts of each status met, in no particular order.
    pub fn error_codes(&self) -> (r: &HashMap<u16, u64>)
        ensures
            r@ == self.codes(),
    {
        &self.error_codes
    }

    /// Average, largest and smallest response time; `None` before any request.
    pub fn response_times(&self) -> (r: Option<ResponseTimes>)
        ensures
            self.times().len() == 0 <==> r is None,
            r matches Some(t) ==> t.max == max_of(self.times()) && t.min == min_of(self.times())
                && t.average == sum_of(self.times()) / self.times().len(),
    {
        let n = self.response_time_millis.len();
        if n == 0 {
            return None;
        }
        let mut max: u64 = 0;
        let mut min: u64 = u64::MAX;
        let mut sum: u128 = 0;
        let mut i: usize = 0;
        while i < n
            invariant
                0 <= i <= n,
                n == self.times().len(),
                max == max_of(self.times().subrange(0, i as int)),
                min == min_of(self.times().subrange(0, i as int)),
                sum == sum_of(self.times().subrange(0, i as int)),
            decreases n - i,
        {
            let t = self.response_time_millis[i];
            proof {
                let next = self.times().subrange(0, i + 1);
                assert(next.drop_last() =~= self.times().subrange(0, i as int));
                lemma_sum_bound(next);
                assert(next.len() * 0xffff_ffff_ffff_ffff <= 0xffff_ffff_ffff_ffff * 0xffff_ffff_ffff_ffff) by (nonlinear_arith)
                    requires
                        next.len() <= 0xffff_ffff_ffff_ffff,
                ;
            }
            if t > max {
                max = t;
            }
            if t < min {
                min = t;
            }
            sum = sum + t as u128;
            i = i + 1;
        }
        assert(self.times().subrange(0, n as int) =~= self.times());
        let average = (sum / n as u128) as u64;
        proof {
            lemma_sum_bound(self.times());
            assert((sum as int) / (n as int) <= 0xffff_ffff_ffff_ffff) by (nonlinear_arith)
                requires
                    sum <= n * 0xffff_ffff_ffff_ffff,
                    n > 0,
            ;
        }
        Some(ResponseTimes { average, max, min })
    }
}

/// The decisions of one load-test worker: whether it sends requests, and
/// how many more times it tolerates an unreadable command channel.
pub struct WorkerState {
    id: u32,
    active: bool,
    read_failures_left: u32,
}

/// What a worker does after a step.
#[derive(Debug, Clone, Copy, PartialEq, Eq)]
pub enum WorkerStep {
    Continue,
    Exit,
}

pub open spec fn names(ids: Seq<u32>, id: u32) -> bool {
    exists|i: int| 0 <= i < ids.len() && ids[i] == id
}

fn contains_id(ids: &Vec<u32>, id: u32) -> (r: bool)
    ensures
        r == names(ids@, id),
{
    let mut i: usize = 0;
    while i < ids.len()
        invariant
            0 <= i <= ids@.len(),
            forall|j: int| 0 <= j < i ==> ids@[j] != id,
        decreases ids@.len() - i,
    {
        if ids[i] == id {
            return true;
        }
        i = i + 1;
    }
    false
}

/// How many unreadable channel checks a worker tolerates before it exits.
pub const CHANNEL_READ_ATTEMPTS: u32 = 5;

impl WorkerState {
    pub closed spec fn worker_id(&self) -> u32 {
        self.id
    }

    pub closed spec fn sends(&self) -> bool {
        self.active
    }

    pub closed spec fn failures_left(&self) -> u32 {
        self.read_failures_left
    }

    pub fn new(id: u32) -> (r: WorkerState)
        ensures
            r.worker_id() == id,
            !r.sends(),
            r.failures_left() == CHANNEL_READ_ATTEMPTS,
    {
        WorkerState { id, active: false, read_failures_left: CHANNEL_READ_ATTEMPTS }
    }

    /// Takes in a new command: `Start` naming this worker makes it send,
    /// `Stop` naming it ends it.
    pub fn on_command(&mut self, cmd: &Commands) -> (r: WorkerStep)
        ensures
            final(self).worker_id() == old(self).worker_id(),
            final(self).failures_left() == old(self).failures_left(),
            match *cmd {
                Commands::Init => r == WorkerStep::Continue && final(self).sends() == old(self).sends(),
                Commands::Start(ids) => r == WorkerStep::Continue
                    && final(self).sends() == (old(self).sends() || names(ids@, old(self).worker_id())),
                Commands::Stop(ids) => final(self).sends() == old(self).sends()
                    && (r == WorkerStep::Exit <==> names(ids@, old(self).worker_id())),
            },
    {
        match cmd {
            Commands::Init => WorkerStep::Continue,
            Commands::Start(ids) => {
                if contains_id(ids, self.id) {
                    self.active = true;
                }
                WorkerStep::Continue
            },
            Commands::Stop(ids) => {
                if contains_id(ids, self.id) {
                    WorkerStep::Exit
                } else {
                    WorkerStep::Continue
                }
            },
        }
    }

    /// Takes in a failed read of the command channel: the worker exits once
    /// its tolerance is used up, and otherwise waits before it looks again.
    pub fn on_channel_error(&mut self) -> (r: WorkerStep)
        ensures
            final(self).worker_id() == old(self).worker_id(),
            final(self).sends() == old(self).sends(),
            old(self).failures_left() == 0 ==> r == WorkerStep::Exit && final(self).failures_left() == 0,
            old(self).failures_left() > 0 ==> r == WorkerStep::Continue && final(self).failures_left() == old(self).failures_left() - 1,
    {
        if self.read_failures_left == 0 {
            return WorkerStep::Exit;
        }
        self.read_failures_left = self.read_failures_left - 1;
        WorkerStep::Continue
    }

    /// Whether the worker is to send a request in this round.
    pub fn is_active(&self) -> (r: bool)
        ensures
            r == self.sends(),
    {
        self.active
    }
}

/// Whether `command` names one of the asset categories, which a load test
/// sends under their own method name.
pub open spec fn is_asset_category(command: Seq<char>) -> bool {
    ||| command == GET_ASSET_METHOD@
    ||| command == GET_ASSET_PROOF_METHOD@
    ||| command == GET_ASSET_BY_OWNER_METHOD@
    ||| command == GET_ASSET_BY_AUTHORITY_METHOD@
    ||| command == GET_ASSET_BY_GROUP_METHOD@
    ||| command == GET_ASSET_BY_CREATOR_METHOD@
    ||| command == GET_SIGNATURES_FOR_ASSET@
}

/// Whether `command` names one of the token-account categories, which a load
/// test sends as one token-account listing.
pub open spec fn is_token_category(command: Seq<char>) -> bool {
    ||| command == GET_TOKEN_ACCOUNTS_BY_OWNER@
    ||| command == GET_TOKEN_ACCOUNTS_BY_MINT@
    ||| command == GET_TOKEN_ACCOUNTS_BY_OWNER_AND_MINT@
}

/// The method a load-test request for the category `command` is sent as;
/// `None` for a name that is no category.
pub fn load_test_method(command: &str) -> (r: Option<&'static str>)
    ensures
        is_asset_category(command@) ==> (r matches Some(m) && m@ == command@),
        !is_asset_category(command@) && is_token_category(command@) ==> (r matches Some(m) && m@ == GET_TOKEN_ACCOUNTS@),
        !is_asset_category(command@) && !is_token_category(command@) ==> r is None,
{
    if same_text(command, GET_ASSET_METHOD) {
        Some(GET_ASSET_METHOD)
    } else if same_text(command, GET_ASSET_PROOF_METHOD) {
        Some(GET_ASSET_PROOF_METHOD)
    } else if same_text(command, GET_ASSET_BY_OWNER_METHOD) {
        Some(GET_ASSET_BY_OWNER_METHOD)
    } else if same_text(command, GET_ASSET_BY_AUTHORITY_METHOD) {
        Some(GET_ASSET_BY_AUTHORITY_METHOD)
    } else if same_text(command, GET_ASSET_BY_GROUP_METHOD) {
        Some(GET_ASSET_BY_GROUP_METHOD)
    } else if same_text(command, GET_ASSET_BY_CREATOR_METHOD) {
        Some(GET_ASSET_BY_CREATOR_METHOD)
    } else if same_text(command, GET_SIGNATURES_FOR_ASSET) {
        Some(GET_SIGNATURES_FOR_ASSET)
    } else if same_text(command, GET_TOKEN_ACCOUNTS_BY_OWNER) || same_text(command, GET_TOKEN_ACCOUNTS_BY_MINT)
        || same_text(command, GET_TOKEN_ACCOUNTS_BY_OWNER_AND_MINT) {
        Some(GET_TOKEN_ACCOUNTS)
    } else {
        None
    }
}

} // verus!
