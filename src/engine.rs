use vstd::prelude::*;
use vstd::string::StringExecFns;
use crate::compare::{
    comparison_allows, compare_with_filters, compile_filters, pattern_compiles, patterns_of, strict_differs, text_of,
    DiffFilter,
};
use crate::config::IntegrityVerificationConfig;
use crate::error::IntegrityVerificationError;
use crate::json::{member_spec, JsonValue};
use crate::results::{failure_counted, total_counted, TestingResults};
use crate::text::same_text;

verus! {

pub const GET_ASSET_METHOD: &'static str = "getAsset";
pub const GET_ASSET_PROOF_METHOD: &'static str = "getAssetProof";
pub const GET_ASSET_BY_OWNER_METHOD: &'static str = "getAssetsByOwner";
pub const GET_ASSET_BY_AUTHORITY_METHOD: &'static str = "getAssetsByAuthority";
pub const GET_ASSET_BY_GROUP_METHOD: &'static str = "getAssetsByGroup";
pub const GET_ASSET_BY_CREATOR_METHOD: &'static str = "getAssetsByCreator";
pub const GET_TOKEN_ACCOUNTS: &'static str = "getTokenAccounts";
pub const GET_TOKEN_ACCOUNTS_BY_OWNER: &'static str = "getTokenAccountsByOwner";
pub const GET_TOKEN_ACCOUNTS_BY_MINT: &'static str = "getTokenAccountsByMint";
pub const GET_TOKEN_ACCOUNTS_BY_OWNER_AND_MINT: &'static str = "getTokenAccountsByOwnerAndMint";
pub const GET_SIGNATURES_FOR_ASSET: &'static str = "getSignaturesForAsset";

/// Pause, in milliseconds, after every attempt that left a difference and
/// after every request.
pub const REQUESTS_INTERVAL_MILLIS: u64 = 1500;

/// One JSON-RPC request, sent alike to both hosts.
#[derive(Debug)]
pub struct Body {
    pub jsonrpc: String,
    pub id: u64,
    pub method: String,
    pub params: JsonValue,
}

impl Body {
    pub fn new(method: &str, params: JsonValue) -> (r: Body)
        ensures
            r.method@ == method@,
            r.params == params,
            r.jsonrpc@ == "2.0"@,
            r.id == 0,
    {
        Body { jsonrpc: String::from_str("2.0"), id: 0, method: String::from_str(method), params }
    }

    /// The asset a proof request asks about: its `id` parameter, or empty text
    /// when that is missing or no string.
    pub fn proof_asset_id(&self) -> (r: String)
        ensures
            r@ == match member_spec(self.params, "id"@) {
                Some(JsonValue::Text(t)) => t@,
                _ => Seq::<char>::empty(),
            },
    {
        match self.params.member(&String::from_str("id")) {
            Some(v) => match v.as_text() {
                Some(t) => t.clone(),
                None => String::new(),
            },
            None => String::new(),
        }
    }
}

/// What one paired call gave: the difference left after filtering, if any,
/// and the testing host's response (`Null` when a call failed).
#[derive(Debug)]
pub struct DiffWithResponses {
    pub diff: Option<String>,
    pub testing_response: JsonValue,
}

/// What the driver of a request check must do next.
#[derive(Debug, Clone, Copy, PartialEq, Eq)]
pub enum CheckAction {
    /// Make one paired call and report it with `record_attempt`.
    Attempt,
    /// Wait the pacing interval and report it with `record_pause`.
    Pause,
    /// The retry loop is over.
    Finish,
}

/// The retry loop of one request: attempts until one finds no difference or
/// the maximum is reached, pausing after each attempt that found one.
pub struct RequestCheck {
    max_attempts: u64,
    attempts: u64,
    paused: bool,
    last: DiffWithResponses,
}

impl RequestCheck {
    pub closed spec fn max_attempts(&self) -> u64 {
        self.max_attempts
    }

    pub closed spec fn attempts(&self) -> u64 {
        self.attempts
    }

    pub closed spec fn paused(&self) -> bool {
        self.paused
    }

    /// The difference of the last attempt; `None` before any.
    pub closed spec fn last_diff(&self) -> Option<Seq<char>> {
        match self.last.diff {
            Some(d) => Some(d@),
            None => None,
        }
    }

    pub closed spec fn last_response(&self) -> JsonValue {
        self.last.testing_response
    }

    pub closed spec fn wf(&self) -> bool {
        &&& self.attempts <= self.max_attempts
        &&& self.attempts == 0 ==> self.last.diff is None && !self.paused
    }

    pub open spec fn action(&self) -> CheckAction {
        if self.attempts() == 0 {
            if self.max_attempts() > 0 {
                CheckAction::Attempt
            } else {
                CheckAction::Finish
            }
        } else if self.last_diff() is None {
            CheckAction::Finish
        } else if !self.paused() {
            CheckAction::Pause
        } else if self.attempts() < self.max_attempts() {
            CheckAction::Attempt
        } else {
            CheckAction::Finish
        }
    }

    pub fn new(max_attempts: u64) -> (r: RequestCheck)
        ensures
            r.wf(),
            r.max_attempts() == max_attempts,
            r.attempts() == 0,
            r.last_diff() is None,
            r.last_response() == JsonValue::Null,
    {
        RequestCheck {
            max_attempts,
            attempts: 0,
            paused: false,
            last: DiffWithResponses { diff: None, testing_response: JsonValue::Null },
        }
    }

    pub fn next_action(&self) -> (r: CheckAction)
        requires
            self.wf(),
        ensures
            r == self.action(),
    {
        if self.attempts == 0 {
            if self.max_attempts > 0 {
                CheckAction::Attempt
            } else {
                CheckAction::Finish
            }
        } else if self.last.diff.is_none() {
            CheckAction::Finish
        } else if !self.paused {
            CheckAction::Pause
        } else if self.attempts < self.max_attempts {
            CheckAction::Attempt
        } else {
            CheckAction::Finish
        }
    }

    /// Takes in the outcome of the attempt that `next_action` asked for.
    pub fn record_attempt(&mut self, outcome: DiffWithResponses)
        requires
            old(self).wf(),
            old(self).action() == CheckAction::Attempt,
        ensures
            final(self).wf(),
            final(self).max_attempts() == old(self).max_attempts(),
            final(self).attempts() == old(self).attempts() + 1,
            !final(self).paused(),
            final(self).last_diff() == match outcome.diff {
                Some(d) => Some(d@),
                None => None,
            },
            final(self).last_response() == outcome.testing_response,
            outcome.diff is None ==> final(self).action() == CheckAction::Finish,
    {
        self.attempts = self.attempts + 1;
        self.paused = false;
        self.last = outcome;
    }

    /// Takes in that the pause that `next_action` asked for is over.
    pub fn record_pause(&mut self)
        requires
            old(self).wf(),
            old(self).action() == CheckAction::Pause,
        ensures
            final(self).wf(),
            final(self).max_attempts() == old(self).max_attempts(),
            final(self).attempts() == old(self).attempts(),
            final(self).paused(),
            final(self).last_diff() == old(self).last_diff(),
            final(self).last_response() == old(self).last_response(),
    {
        self.paused = true;
    }

    /// The difference that the last attempt left, if any.
    pub fn diff(&self) -> (r: Option<&String>)
        ensures
            match r {
                Some(d) => self.last_diff() == Some(d@),
                None => self.last_diff() is None,
            },
    {
        match &self.last.diff {
            Some(d) => Some(d),
            None => None,
        }
    }

    /// The testing host's response of the last attempt.
    pub fn testing_response(&self) -> (r: &JsonValue)
        ensures
            *r == self.last_response(),
    {
        &self.last.testing_response
    }
}

/// A request check never makes more attempts than its maximum, and stops at
/// the first attempt that leaves no difference.
pub proof fn lemma_retry_bound(c: RequestCheck)
    requires
        c.wf(),
    ensures
        c.attempts() <= c.max_attempts(),
        c.action() == CheckAction::Attempt ==> c.attempts() < c.max_attempts(),
        c.attempts() > 0 && c.last_diff() is None ==> c.action() == CheckAction::Finish,
{
}

/// Whether the request, whose retry loop ended with `diff_left`, counts as
/// failed: a difference fails it; a proof request also fails, whatever the
/// comparison found, unless its proof was checked and found valid.
pub open spec fn request_failed(diff_left: bool, proof_request: bool, proof_verdict: Option<bool>) -> bool {
    diff_left || (proof_request && proof_verdict != Some(true))
}

/// The comparison engine: the filters, the retry bound and the per-category
/// counters of one run.
pub struct DiffChecker {
    reference_host: String,
    testing_host: String,
    rpc_endpoint: String,
    filters: Vec<DiffFilter>,
    test_retries: u64,
    test_results: TestingResults,
    log_differences: bool,
}

impl DiffChecker {
    pub closed spec fn wf(&self) -> bool {
        self.test_results.wf()
    }

    pub closed spec fn patterns(&self) -> Seq<Seq<char>> {
        patterns_of(self.filters@)
    }

    pub closed spec fn retries(&self) -> u64 {
        self.test_retries
    }

    pub closed spec fn results(&self) -> TestingResults {
        self.test_results
    }

    pub closed spec fn logs_differences(&self) -> bool {
        self.log_differences
    }

    /// The reference host, the testing host and the chain endpoint, in that order.
    pub closed spec fn endpoints(&self) -> (String, String, String) {
        (self.reference_host, self.testing_host, self.rpc_endpoint)
    }

    /// Builds the engine; fails on the first filter expression that does not compile.
    pub fn new(config: &IntegrityVerificationConfig) -> (r: Result<DiffChecker, IntegrityVerificationError>)
        ensures
            r is Ok <==> forall|i: int| 0 <= i < config.difference_filter_regexes@.len()
                ==> pattern_compiles(#[trigger] config.difference_filter_regexes@[i]@),
            r matches Err(e) ==> e is InvalidRegex,
            r matches Ok(c) ==> {
                &&& c.wf()
                &&& c.patterns() == config.difference_filter_regexes@.map_values(|p: String| p@)
                &&& c.retries() == config.test_retries
                &&& c.logs_differences() == config.log_differences
                &&& c.endpoints() == (config.reference_host, config.testing_host, config.rpc_endpoint)
                &&& forall|m: Seq<char>| !c.results().observed(m)
            },
    {
        match compile_filters(&config.difference_filter_regexes) {
            Ok(filters) => Ok(DiffChecker {
                reference_host: config.reference_host.clone(),
                testing_host: config.testing_host.clone(),
                rpc_endpoint: config.rpc_endpoint.clone(),
                filters,
                test_retries: config.test_retries,
                test_results: TestingResults::new(),
                log_differences: config.log_differences,
            }),
            Err(e) => Err(IntegrityVerificationError::InvalidRegex(e)),
        }
    }

    /// Compares a testing response with the reference one: `None` when they
    /// are equivalent once the filters have deleted the known differences.
    pub fn compare_responses(&self, reference_response: &JsonValue, testing_response: &JsonValue) -> (r: Option<String>)
        ensures
            comparison_allows(self.patterns(), *reference_response, *testing_response, text_of(r)),
            *reference_response == *testing_response ==> r is None,
            r is Some ==> strict_differs(*reference_response, *testing_response),
            self.patterns().len() == 0 ==> (r is Some <==> strict_differs(*reference_response, *testing_response)),
    {
        compare_with_filters(&self.filters, reference_response, testing_response)
    }

    /// The outcome of one paired call; `None` stands for a call that failed
    /// in transport, which makes the attempt count as finding no difference.
    pub fn check_request(&self, reference_response: Option<JsonValue>, testing_response: Option<JsonValue>) -> (r: DiffWithResponses)
        ensures
            match (reference_response, testing_response) {
                (Some(a), Some(b)) => r.testing_response == b && comparison_allows(self.patterns(), a, b, text_of(r.diff))
                    && (a == b ==> r.diff is None),
                _ => r.diff is None && r.testing_response == JsonValue::Null,
            },
    {
        match (reference_response, testing_response) {
            (Some(a), Some(b)) => {
                let diff = self.compare_responses(&a, &b);
                DiffWithResponses { diff, testing_response: b }
            },
            _ => DiffWithResponses { diff: None, testing_response: JsonValue::Null },
        }
    }

    /// Counts the attempt of `req` and starts its retry loop.
    pub fn begin_request(&mut self, req: &Body) -> (r: RequestCheck)
        requires
            old(self).wf(),
        ensures
            final(self).wf(),
            total_counted(old(self).results(), final(self).results(), req.method@),
            final(self).patterns() == old(self).patterns(),
            final(self).retries() == old(self).retries(),
            final(self).logs_differences() == old(self).logs_differences(),
            r.wf(),
            r.attempts() == 0,
            r.max_attempts() == old(self).retries(),
    {
        self.test_results.inc_total_tests(&req.method);
        RequestCheck::new(self.test_retries)
    }

    /// Whether `req` asks for an asset proof, which then also has its proof validated.
    pub fn needs_proof_check(&self, req: &Body) -> (r: bool)
        ensures
            r == (req.method@ == GET_ASSET_PROOF_METHOD@),
    {
        same_text(req.method.as_str(), GET_ASSET_PROOF_METHOD)
    }

    /// Ends the request whose retry loop `check` ran: decides whether it failed
    /// and counts the failure. `proof_verdict` is the proof check's verdict for
    /// a proof request, `None` when the check could not be made; either an
    /// invalid or an unverifiable proof fails a proof request.
    pub fn finish_request(&mut self, req: &Body, check: &RequestCheck, proof_verdict: Option<bool>) -> (r: bool)
        requires
            old(self).wf(),
        ensures
            final(self).wf(),
            r == request_failed(check.last_diff() is Some, req.method@ == GET_ASSET_PROOF_METHOD@, proof_verdict),
            r ==> failure_counted(old(self).results(), final(self).results(), req.method@),
            !r ==> final(self).results() == old(self).results(),
            final(self).patterns() == old(self).patterns(),
            final(self).retries() == old(self).retries(),
            final(self).logs_differences() == old(self).logs_differences(),
    {
        let mut failed = check.diff().is_some();
        if self.needs_proof_check(req) {
            match proof_verdict {
                Some(true) => {},
                _ => {
                    failed = true;
                },
            }
        }
        if failed {
            self.test_results.inc_failed_tests(&req.method);
        }
        failed
    }

    /// Whether each remaining difference is to be written to the log.
    pub fn log_differences(&self) -> (r: bool)
        ensures
            r == self.logs_differences(),
    {
        self.log_differences
    }

    pub fn reference_host(&self) -> (r: &String)
        ensures
            *r == self.endpoints().0,
    {
        &self.reference_host
    }

    pub fn testing_host(&self) -> (r: &String)
        ensures
            *r == self.endpoints().1,
    {
        &self.testing_host
    }

    pub fn rpc_endpoint(&self) -> (r: &String)
        ensures
            *r == self.endpoints().2,
    {
        &self.rpc_endpoint
    }

    /// The per-category counters gathered so far.
    pub fn test_results(&self) -> (r: &TestingResults)
        ensures
            *r == self.results(),
            self.wf() ==> r.wf(),
    {
        &self.test_results
    }
}

/// The requests of one category: one body of `method` per fetched set of key
/// parameters, in order. A failed fetch aborts the category with its message.
pub fn requests_for(method: &str, fetched: Result<Vec<JsonValue>, String>) -> (r: Result<Vec<Body>, IntegrityVerificationError>)
    ensures
        match fetched {
            Err(e) => r matches Err(IntegrityVerificationError::FetchKeys(m)) && m == e,
            Ok(ps) => r matches Ok(bs) && bs@.len() == ps@.len() && forall|i: int|
                0 <= i < bs@.len() ==> (#[trigger] bs@[i]).method@ == method@ && bs@[i].params == ps@[i],
        },
{
    let mut params = match fetched {
        Ok(ps) => ps,
        Err(e) => return Err(IntegrityVerificationError::FetchKeys(e)),
    };
    let ghost all = params@;
    let mut bodies: Vec<Body> = Vec::new();
    while params.len() > 0
        invariant
            bodies@.len() + params@.len() == all.len(),
            params@ == all.subrange(bodies@.len() as int, all.len() as int),
            forall|i: int| 0 <= i < bodies@.len() ==> (#[trigger] bodies@[i]).method@ == method@ && bodies@[i].params == all[i],
        decreases params@.len(),
    {
        let ghost k = bodies@.len() as int;
        let p = params.remove(0);
        assert(params@ =~= all.subrange(k + 1, all.len() as int));
        bodies.push(Body::new(method, p));
    }
    Ok(bodies)
}

} // verus!
