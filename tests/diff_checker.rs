use integrity_verification::config::IntegrityVerificationConfig;
use integrity_verification::engine::{
    requests_for, Body, CheckAction, DiffChecker, DiffWithResponses, RequestCheck, GET_ASSET_METHOD,
    GET_ASSET_PROOF_METHOD,
};
use integrity_verification::error::IntegrityVerificationError;
use integrity_verification::json::{JsonNumber, JsonValue};
use integrity_verification::results::TestingResults;

fn text(s: &str) -> JsonValue {
    JsonValue::Text(s.to_string())
}

fn obj(members: Vec<(&str, JsonValue)>) -> JsonValue {
    JsonValue::Object(members.into_iter().map(|(k, v)| (k.to_string(), v)).collect())
}

fn config(filters: Vec<&str>, retries: u64) -> IntegrityVerificationConfig {
    IntegrityVerificationConfig {
        reference_host: "http://reference".to_string(),
        testing_host: "http://testing".to_string(),
        rpc_endpoint: "http://rpc".to_string(),
        testing_file_path: "keys.txt".to_string(),
        test_retries: retries,
        log_differences: false,
        difference_filter_regexes: filters.into_iter().map(String::from).collect(),
        num_of_virtual_users: 1,
        test_duration_time: 1,
    }
}

fn files() -> JsonValue {
    JsonValue::Array(vec![obj(vec![
        ("uri", text("https://assets.pinit.io/3Qru1Gjz9SFd4nESynRQytL65nXNcQGwc1eVbZz24ijG/ZyFU9Lt94Rb57y2hZpAssPCRQU6qXoWzkPhd6bEHKep/731.jpeg")),
        ("mime", text("image/jpeg")),
    ])])
}

fn metadata(with_standard: bool) -> JsonValue {
    let mut members = vec![
        ("description", text("GK #731 - Generated and deployed on LaunchMyNFT.")),
        ("name", text("NFT #731")),
        ("symbol", text("SYM")),
    ];
    if with_standard {
        members.push(("token_standard", text("NonFungible")));
    }
    obj(members)
}

fn response(result: JsonValue) -> JsonValue {
    obj(vec![
        ("jsonrpc", text("2.0")),
        ("result", result),
        ("id", JsonValue::Number(JsonNumber::PosInt(0))),
    ])
}

#[test]
fn test_regex() {
    let reference_response = response(obj(vec![("files", files()), ("metadata", metadata(true))]));
    let testing_response1 = response(obj(vec![("files", files()), ("metadata", metadata(false))]));

    let unfiltered = DiffChecker::new(&config(vec![], 20)).unwrap();
    let raw = unfiltered
        .compare_responses(&reference_response, &testing_response1)
        .unwrap();
    assert!(raw.contains("token_standard"));

    let checker = DiffChecker::new(&config(
        vec![r#"json atom at path \".*?\.token_standard\" is missing from rhs\n*"#],
        20,
    ))
    .unwrap();

    let res = checker.compare_responses(&reference_response, &testing_response1);
    assert_eq!(0, res.map(|d| d.len()).unwrap_or(0));

    let testing_response2 = response(obj(vec![
        ("files", files()),
        ("mutable", JsonValue::Bool(false)),
        ("metadata", metadata(false)),
    ]));
    let res = checker.compare_responses(&reference_response, &testing_response2).unwrap();
    assert_eq!(
        "json atom at path \".result.mutable\" is missing from lhs",
        res.trim()
    );
}

fn nft_reference() -> JsonValue {
    obj(vec![("result", obj(vec![("metadata", obj(vec![("name", text("NFT #1"))]))]))])
}

fn nft_testing() -> JsonValue {
    obj(vec![(
        "result",
        obj(vec![
            ("metadata", obj(vec![("name", text("NFT #1"))])),
            ("mutable", JsonValue::Bool(false)),
        ]),
    )])
}

/// Runs one request through the retry loop with the given responses per attempt.
fn run_request(
    checker: &mut DiffChecker,
    req: &Body,
    attempts: &mut dyn FnMut() -> (Option<JsonValue>, Option<JsonValue>),
) -> (bool, u64) {
    let mut check: RequestCheck = checker.begin_request(req);
    let mut made = 0;
    loop {
        match check.next_action() {
            CheckAction::Attempt => {
                let (a, b) = attempts();
                let outcome: DiffWithResponses = checker.check_request(a, b);
                check.record_attempt(outcome);
                made += 1;
            }
            CheckAction::Pause => check.record_pause(),
            CheckAction::Finish => break,
        }
    }
    (checker.finish_request(req, &check, None), made)
}

fn counts(results: &TestingResults, method: &str) -> (u64, u64) {
    let r = results.get(&method.to_string());
    (r.total_tests, r.failed_tests)
}

#[test]
fn added_field_is_reported_and_fails_without_filters() {
    let mut checker = DiffChecker::new(&config(vec![], 3)).unwrap();
    let diff = checker.compare_responses(&nft_reference(), &nft_testing()).unwrap();
    assert!(diff.contains(".result.mutable"));

    let req = Body::new(GET_ASSET_METHOD, obj(vec![("id", text("asset"))]));
    let (failed, made) = run_request(&mut checker, &req, &mut || (Some(nft_reference()), Some(nft_testing())));
    assert!(failed);
    assert_eq!(made, 3);
    assert_eq!(counts(checker.test_results(), GET_ASSET_METHOD), (1, 1));
}

#[test]
fn filter_on_the_path_line_suppresses_the_difference() {
    let mut checker = DiffChecker::new(&config(
        vec![r#"json atom at path "\.result\.mutable" is missing from lhs"#],
        3,
    ))
    .unwrap();
    assert!(checker.compare_responses(&nft_reference(), &nft_testing()).is_none());

    let req = Body::new(GET_ASSET_METHOD, obj(vec![("id", text("asset"))]));
    let (failed, made) = run_request(&mut checker, &req, &mut || (Some(nft_reference()), Some(nft_testing())));
    assert!(!failed);
    assert_eq!(made, 1);
    assert_eq!(counts(checker.test_results(), GET_ASSET_METHOD), (1, 0));
}

#[test]
fn transport_failure_counts_the_attempt_but_no_failure() {
    let mut checker = DiffChecker::new(&config(vec![], 5)).unwrap();
    let outcome = checker.check_request(Some(nft_reference()), None);
    assert!(outcome.diff.is_none());
    assert!(matches!(outcome.testing_response, JsonValue::Null));

    let req = Body::new(GET_ASSET_METHOD, obj(vec![("id", text("asset"))]));
    let (failed, made) = run_request(&mut checker, &req, &mut || (Some(nft_reference()), None));
    assert!(!failed);
    assert_eq!(made, 1);
    assert_eq!(counts(checker.test_results(), GET_ASSET_METHOD), (1, 0));
}

#[test]
fn comparing_a_value_with_itself_finds_nothing() {
    let checker = DiffChecker::new(&config(vec![], 1)).unwrap();
    let a = response(obj(vec![("files", files()), ("metadata", metadata(true))]));
    let b = response(obj(vec![("files", files()), ("metadata", metadata(true))]));
    assert!(checker.compare_responses(&a, &b).is_none());
    assert!(checker.compare_responses(&JsonValue::Null, &JsonValue::Null).is_none());
}

#[test]
fn empty_filter_list_keeps_a_changed_scalar() {
    let checker = DiffChecker::new(&config(vec![], 1)).unwrap();
    let a = obj(vec![("n", JsonValue::Number(JsonNumber::PosInt(1)))]);
    let b = obj(vec![("n", JsonValue::Number(JsonNumber::PosInt(2)))]);
    let diff = checker.compare_responses(&a, &b).unwrap();
    assert!(diff.contains(".n"));
    let c = obj(vec![("n", JsonValue::Number(JsonNumber::Float("1.5".to_string())))]);
    assert!(checker.compare_responses(&a, &c).is_some());
}

#[test]
fn filters_apply_in_order() {
    let checker = DiffChecker::new(&config(vec!["lhs", "missing from $"], 1)).unwrap();
    let diff = checker.compare_responses(&nft_reference(), &nft_testing()).unwrap();
    assert_eq!(diff, "json atom at path \".result.mutable\" is ");
}

#[test]
fn invalid_filter_is_refused() {
    let r = DiffChecker::new(&config(vec!["(unclosed"], 1));
    assert!(matches!(r, Err(IntegrityVerificationError::InvalidRegex(_))));
}

#[test]
fn retry_loop_stops_at_the_maximum() {
    let mut checker = DiffChecker::new(&config(vec![], 4)).unwrap();
    let req = Body::new(GET_ASSET_METHOD, obj(vec![]));
    let (failed, made) = run_request(&mut checker, &req, &mut || (Some(nft_reference()), Some(nft_testing())));
    assert!(failed);
    assert_eq!(made, 4);
}

#[test]
fn retry_loop_halts_on_first_match() {
    let mut checker = DiffChecker::new(&config(vec![], 10)).unwrap();
    let req = Body::new(GET_ASSET_METHOD, obj(vec![]));
    let mut n = 0;
    let (failed, made) = run_request(&mut checker, &req, &mut || {
        n += 1;
        if n < 3 {
            (Some(nft_reference()), Some(nft_testing()))
        } else {
            (Some(nft_reference()), Some(nft_reference()))
        }
    });
    assert!(!failed);
    assert_eq!(made, 3);
}

#[test]
fn counters_match_the_number_of_keys() {
    let mut checker = DiffChecker::new(&config(vec![], 1)).unwrap();
    for i in 0..7 {
        let req = Body::new(GET_ASSET_METHOD, obj(vec![]));
        let differ = i % 3 == 0;
        run_request(&mut checker, &req, &mut || {
            if differ {
                (Some(nft_reference()), Some(nft_testing()))
            } else {
                (Some(nft_reference()), Some(nft_reference()))
            }
        });
    }
    let (total, failed) = counts(checker.test_results(), GET_ASSET_METHOD);
    assert_eq!(total, 7);
    assert_eq!(failed, 3);
    assert_eq!(counts(checker.test_results(), GET_ASSET_PROOF_METHOD), (0, 0));
}

#[test]
fn proof_verdict_also_fails_a_proof_request() {
    let mut checker = DiffChecker::new(&config(vec![], 1)).unwrap();
    let req = Body::new(GET_ASSET_PROOF_METHOD, obj(vec![("id", text("asset"))]));
    assert!(checker.needs_proof_check(&req));

    // Matching responses, invalid proof: failed.
    let mut check = checker.begin_request(&req);
    check.record_attempt(checker.check_request(Some(nft_reference()), Some(nft_reference())));
    assert!(checker.finish_request(&req, &check, Some(false)));

    // A difference left, valid proof: still failed.
    let mut check = checker.begin_request(&req);
    check.record_attempt(checker.check_request(Some(nft_reference()), Some(nft_testing())));
    assert!(checker.finish_request(&req, &check, Some(true)));

    // Matching responses, proof that could not be checked: failed.
    let mut check = checker.begin_request(&req);
    check.record_attempt(checker.check_request(Some(nft_reference()), Some(nft_reference())));
    assert!(checker.finish_request(&req, &check, None));

    // Matching responses, valid proof: passed.
    let mut check = checker.begin_request(&req);
    check.record_attempt(checker.check_request(Some(nft_reference()), Some(nft_reference())));
    assert!(!checker.finish_request(&req, &check, Some(true)));
    assert_eq!(counts(checker.test_results(), GET_ASSET_PROOF_METHOD), (4, 3));
}

#[test]
fn other_requests_ignore_the_proof_verdict() {
    let mut checker = DiffChecker::new(&config(vec![], 1)).unwrap();
    let req = Body::new(GET_ASSET_METHOD, obj(vec![("id", text("asset"))]));
    let mut check = checker.begin_request(&req);
    check.record_attempt(checker.check_request(Some(nft_reference()), Some(nft_reference())));
    assert!(!checker.finish_request(&req, &check, None));
}

#[test]
fn body_carries_the_method() {
    let b = Body::new(GET_ASSET_METHOD, JsonValue::Null);
    assert_eq!(b.method, "getAsset");
    assert_eq!(b.jsonrpc, "2.0");
    assert_eq!(b.proof_asset_id(), "");
    let p = Body::new(GET_ASSET_PROOF_METHOD, obj(vec![("id", text("asset-7"))]));
    assert_eq!(p.proof_asset_id(), "asset-7");
}

#[test]
fn one_request_per_fetched_key() {
    let bodies = requests_for(GET_ASSET_METHOD, Ok(vec![text("a"), text("b"), text("c")])).unwrap();
    assert_eq!(bodies.len(), 3);
    assert!(bodies.iter().all(|b| b.method == "getAsset"));
    assert!(matches!(&bodies[1].params, JsonValue::Text(t) if t == "b"));
    let failed = requests_for(GET_ASSET_METHOD, Err("no key file".to_string()));
    assert!(matches!(failed, Err(IntegrityVerificationError::FetchKeys(m)) if m == "no key file"));
}

#[test]
fn repeated_key_takes_the_last_value() {
    let v = JsonValue::Object(vec![
        ("k".to_string(), text("first")),
        ("k".to_string(), text("last")),
    ]);
    assert!(matches!(v.member(&"k".to_string()), Some(JsonValue::Text(t)) if t == "last"));
    let checker = DiffChecker::new(&config(vec![], 1)).unwrap();
    let single = obj(vec![("k", text("last"))]);
    assert!(checker.compare_responses(&v, &single).is_none());
}

#[test]
fn more_filters_keep_an_equivalent_pair_equivalent() {
    let one = DiffChecker::new(&config(vec![r#"json atom at path "\.result\.mutable" is missing from lhs"#], 1)).unwrap();
    let two = DiffChecker::new(&config(
        vec![r#"json atom at path "\.result\.mutable" is missing from lhs"#, "anything"],
        1,
    ))
    .unwrap();
    assert!(one.compare_responses(&nft_reference(), &nft_testing()).is_none());
    assert!(two.compare_responses(&nft_reference(), &nft_testing()).is_none());
}
