use vito::fetch::{
    check_pool_code, check_wallet_code, classify_details, classify_hash_list,
    collect_bulk_outcomes, fetch_one_bulk, fetch_one_single, finalize_bulk, parse_hash_text,
    parse_wallet_address, resolve_pool_address, verify_deployed, AfterDetails, BulkOutcome,
};
use vito::order::sort_by_nonce;
use vito::records::{build_record, FetchError, TransactionRecord, TxDetails};

fn sample_details(proposer_byte: u8, nonce_low: u8) -> TxDetails {
    let mut value = vec![0u8; 32];
    value[31] = 42;
    let mut nonce = vec![0u8; 32];
    nonce[31] = nonce_low;
    TxDetails {
        safe: vec![0x11u8; 20],
        to: vec![0x22u8; 20],
        value,
        data: vec![0xab, 0xcd],
        operation: 1,
        proposer: vec![proposer_byte; 20],
        nonce,
    }
}

fn sample_record(hash_byte: u8, nonce: &str) -> TransactionRecord {
    TransactionRecord {
        hash: format!("0x{}", hex::encode(vec![hash_byte; 32])),
        safe: "0x1111111111111111111111111111111111111111".to_string(),
        to: "0x2222222222222222222222222222222222222222".to_string(),
        value: "42".to_string(),
        data: "0xabcd".to_string(),
        operation: 0,
        proposer: "0x3333333333333333333333333333333333333333".to_string(),
        nonce: nonce.to_string(),
        signatures: vec![],
    }
}

#[test]
fn deployed_iff_code_nonempty() {
    assert!(!verify_deployed(&vec![]));
    assert!(verify_deployed(&vec![0x60]));
    assert!(verify_deployed(&vec![0u8; 100]));
}

#[test]
fn wallet_and_pool_checks_are_distinct_outcomes() {
    assert!(check_wallet_code(&vec![0x60], "Ethereum Mainnet").is_ok());
    let e = check_wallet_code(&vec![], "Ethereum Mainnet").unwrap_err();
    assert!(matches!(e, FetchError::WalletNotDeployed { ref network } if network.as_str() == "Ethereum Mainnet"));
    assert!(check_pool_code(&vec![0x60], "0xabc", "Polygon").is_ok());
    let e = check_pool_code(&vec![], "0xabc", "Polygon").unwrap_err();
    assert!(
        matches!(e, FetchError::PoolNotDeployed { ref address, ref network } if address.as_str() == "0xabc" && network.as_str() == "Polygon")
    );
}

#[test]
fn invalid_wallet_address_is_rejected_before_any_call() {
    let e = parse_wallet_address("not-an-address").unwrap_err();
    assert!(matches!(e, FetchError::InvalidAddress { ref text } if text.as_str() == "not-an-address"));
    let ok = parse_wallet_address("0x1111111111111111111111111111111111111111").unwrap();
    assert_eq!(ok, vec![0x11u8; 20]);
}

#[test]
fn invalid_hash_text_is_rejected_before_any_call() {
    let e = parse_hash_text("0x123").unwrap_err();
    assert!(matches!(e, FetchError::InvalidHash { ref text } if text.as_str() == "0x123"));
}

#[test]
fn override_pool_address_takes_precedence() {
    // Chain ID 1 has a network-derived default; a distinct, equally valid
    // override must win.
    let override_text = "0x3A4fA54b8AaB5E2E2DBD0a41f41f629e4e71e2E7";
    let chosen = resolve_pool_address(1, Some(override_text)).unwrap();
    let default = resolve_pool_address(1, None).unwrap();
    assert_eq!(chosen[0], 0x3a);
    assert_eq!(default[0], 0x6b);
    assert_ne!(chosen, default);
}

#[test]
fn invalid_override_pool_address_fails() {
    let e = resolve_pool_address(1, Some("0x123")).unwrap_err();
    assert!(matches!(e, FetchError::InvalidAddress { ref text } if text.as_str() == "0x123"));
}

#[test]
fn zero_proposer_is_not_found_and_skips_signatures() {
    let hash_text = "0x00112233445566778899aabbccddeeff00112233445566778899aabbccddeeff";
    let details = sample_details(0, 1);
    match classify_details(hash_text, Ok(details)) {
        AfterDetails::Missing { error } => {
            assert!(matches!(error, FetchError::NotFound { ref hash } if hash.as_str() == hash_text));
        }
        // Only the NeedSignatures arm ever leads to a signatures call, so
        // reaching any other arm here would be the defect this test guards.
        _ => panic!("zero proposer must classify as a missing transaction"),
    }
}

#[test]
fn nonzero_proposer_proceeds_to_signatures() {
    let details = sample_details(0x33, 1);
    match classify_details("0xabc", Ok(details)) {
        AfterDetails::NeedSignatures { details } => {
            assert_eq!(details.proposer, vec![0x33u8; 20]);
        }
        _ => panic!("existing transaction must proceed to the signatures call"),
    }
}

#[test]
fn failed_details_call_is_reported_with_cause() {
    match classify_details("0xabc", Err("revert".to_string())) {
        AfterDetails::Failed { error } => {
            assert!(
                matches!(error, FetchError::DetailsFetchFailed { ref hash, ref cause } if hash.as_str() == "0xabc" && cause.as_str() == "revert")
            );
        }
        _ => panic!("failed call must classify as failed"),
    }
}

#[test]
fn single_mode_signature_failure_is_fatal() {
    let details = sample_details(0x33, 1);
    let hash = vec![0x01u8; 32];
    let e = fetch_one_single(&hash, "0xh", &details, Err("boom".to_string())).unwrap_err();
    assert!(
        matches!(e, FetchError::SignaturesFetchFailed { ref hash, ref cause } if hash.as_str() == "0xh" && cause.as_str() == "boom")
    );
}

#[test]
fn single_mode_success_builds_record() {
    let details = sample_details(0x33, 7);
    let hash = vec![0x01u8; 32];
    let r = fetch_one_single(&hash, "0xh", &details, Ok(vec![vec![0xde, 0xad]])).unwrap();
    assert_eq!(r.hash, "0x0101010101010101010101010101010101010101010101010101010101010101");
    assert_eq!(r.safe, "0x1111111111111111111111111111111111111111");
    assert_eq!(r.to, "0x2222222222222222222222222222222222222222");
    assert_eq!(r.value, "42");
    assert_eq!(r.data, "0xabcd");
    assert_eq!(r.operation, 1);
    assert_eq!(r.proposer, "0x3333333333333333333333333333333333333333");
    assert_eq!(r.nonce, "7");
    assert_eq!(r.signatures, vec!["0xdead".to_string()]);
}

#[test]
fn bulk_mode_signature_failure_degrades_to_empty_list() {
    let details = sample_details(0x33, 7);
    let hash = vec![0x01u8; 32];
    let r = fetch_one_bulk(&hash, &details, Err("boom".to_string()));
    assert_eq!(r.nonce, "7");
    assert!(r.signatures.is_empty());
    let r2 = fetch_one_bulk(&hash, &details, Ok(vec![vec![0x01]]));
    assert_eq!(r2.signatures, vec!["0x01".to_string()]);
}

#[test]
fn failed_hash_list_call_is_fatal() {
    let e = classify_hash_list(Err("timeout".to_string())).unwrap_err();
    assert!(matches!(e, FetchError::HashListFetchFailed { ref cause } if cause.as_str() == "timeout"));
    let ok = classify_hash_list(Ok(vec![vec![0x01u8; 32]])).unwrap();
    assert_eq!(ok.len(), 1);
}

#[test]
fn empty_bulk_outcome_set_yields_empty_results() {
    let (recs, warns) = collect_bulk_outcomes(vec![]);
    assert!(recs.is_empty());
    assert!(warns.is_empty());
    let (recs, warns) = finalize_bulk(vec![]);
    assert!(recs.is_empty());
    assert!(warns.is_empty());
}

#[test]
fn one_failed_hash_of_three_keeps_the_other_two() {
    let outcomes = vec![
        BulkOutcome::Fetched { record: sample_record(0x01, "5") },
        BulkOutcome::Skipped {
            warning: FetchError::DetailsFetchFailed {
                hash: "0x02".to_string(),
                cause: "revert".to_string(),
            },
        },
        BulkOutcome::Fetched { record: sample_record(0x03, "1") },
    ];
    let (recs, warns) = collect_bulk_outcomes(outcomes);
    assert_eq!(recs.len(), 2);
    assert_eq!(warns.len(), 1);
    assert_eq!(recs[0].nonce, "5");
    assert_eq!(recs[1].nonce, "1");
    assert!(
        matches!(warns[0], FetchError::DetailsFetchFailed { ref hash, .. } if hash.as_str() == "0x02")
    );
}

#[test]
fn finalize_bulk_sorts_the_survivors() {
    let outcomes = vec![
        BulkOutcome::Fetched { record: sample_record(0x01, "5") },
        BulkOutcome::Skipped { warning: FetchError::NotFound { hash: "0x02".to_string() } },
        BulkOutcome::Fetched { record: sample_record(0x03, "1") },
        BulkOutcome::Fetched { record: sample_record(0x04, "3") },
    ];
    let (recs, warns) = finalize_bulk(outcomes);
    assert_eq!(warns.len(), 1);
    let nonces: Vec<&str> = recs.iter().map(|r| r.nonce.as_str()).collect();
    assert_eq!(nonces, vec!["1", "3", "5"]);
}

#[test]
fn sort_orders_by_nonce_ascending() {
    let recs = vec![
        sample_record(0x01, "5"),
        sample_record(0x02, "1"),
        sample_record(0x03, "3"),
    ];
    let out = sort_by_nonce(recs);
    let nonces: Vec<&str> = out.iter().map(|r| r.nonce.as_str()).collect();
    assert_eq!(nonces, vec!["1", "3", "5"]);
}

#[test]
fn sort_is_stable_for_equal_nonces() {
    let recs = vec![
        sample_record(0x0a, "2"),
        sample_record(0x0b, "2"),
        sample_record(0x0c, "1"),
        sample_record(0x0d, "2"),
    ];
    let out = sort_by_nonce(recs);
    let hashes: Vec<u8> = out.iter().map(|r| r.hash.as_bytes()[3]).collect();
    // "0x0a..." — byte 3 of the text distinguishes the records.
    assert_eq!(out[0].nonce, "1");
    assert_eq!(hashes[0], b'c');
    assert_eq!(hashes[1], b'a');
    assert_eq!(hashes[2], b'b');
    assert_eq!(hashes[3], b'd');
}

#[test]
fn sort_treats_malformed_nonce_as_zero() {
    let recs = vec![
        sample_record(0x01, "2"),
        sample_record(0x02, "not-a-number"),
        sample_record(0x03, "1"),
    ];
    let out = sort_by_nonce(recs);
    let nonces: Vec<&str> = out.iter().map(|r| r.nonce.as_str()).collect();
    assert_eq!(nonces, vec!["not-a-number", "1", "2"]);
}

#[test]
fn build_record_renders_every_field() {
    let details = sample_details(0x33, 9);
    let hash = vec![0xaau8; 32];
    let sigs = vec![vec![0x01, 0x02], vec![]];
    let r = build_record(&hash, &details, &sigs);
    assert_eq!(r.hash, "0xaaaaaaaaaaaaaaaaaaaaaaaaaaaaaaaaaaaaaaaaaaaaaaaaaaaaaaaaaaaaaaaa");
    assert_eq!(r.value, "42");
    assert_eq!(r.nonce, "9");
    assert_eq!(r.signatures, vec!["0x0102".to_string(), "0x".to_string()]);
}
