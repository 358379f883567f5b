//! The retrieval pipeline's decisions: address and hash validation, pool
//! address precedence, deployment checks, what follows each remote call in
//! single and bulk mode, and the bulk fold that tolerates per-hash failures.
//!
//! The remote calls themselves (RPC round trips) happen outside this crate;
//! every function here maps the outcome of one call to the next decision, so
//! the whole control flow is checked for every possible outcome.

use vstd::prelude::*;
use crate::config::spec_safe_tx_pool_address;
use crate::hexfmt::valid_hex_text;
use crate::hexfmt::strip_hex_prefix;
use crate::hexfmt::hex_bytes_of;
use crate::records::FetchError;
use crate::records::TransactionRecord;
use crate::records::TxDetails;
use crate::records::build_record;
use crate::records::is_zero_address;
use crate::records::spec_zero_address;

verus! {

/// Whether an address hosts deployed code: the code-at-address result is
/// non-empty.
pub fn verify_deployed(code: &Vec<u8>) -> (deployed: bool)
    ensures
        deployed <==> code@.len() > 0,
{
    code.len() > 0
}

/// Check the wallet's code-at-address result; an empty result is the named
/// "wallet not found on this network" outcome.
pub fn check_wallet_code(code: &Vec<u8>, network_name: &str) -> (r: Result<(), FetchError>)
    ensures
        r is Ok <==> code@.len() > 0,
        r is Err ==> (r->Err_0 matches FetchError::WalletNotDeployed { network } && network@
            == network_name@),
{
    if verify_deployed(code) {
        Ok(())
    } else {
        Err(FetchError::WalletNotDeployed { network: String::from_str(network_name) })
    }
}

/// Check the pool contract's code-at-address result; an empty result is the
/// named "pool contract not found at this address" outcome, distinct from the
/// wallet check.
pub fn check_pool_code(code: &Vec<u8>, pool_text: &str, network_name: &str) -> (r: Result<
    (),
    FetchError,
>)
    ensures
        r is Ok <==> code@.len() > 0,
        r is Err ==> (r->Err_0 matches FetchError::PoolNotDeployed { address, network } && address@
            == pool_text@ && network@ == network_name@),
{
    if verify_deployed(code) {
        Ok(())
    } else {
        Err(
            FetchError::PoolNotDeployed {
                address: String::from_str(pool_text),
                network: String::from_str(network_name),
            },
        )
    }
}

/// Validate the wallet address text; malformed text is the `InvalidAddress`
/// outcome, raised before any network call.
pub fn parse_wallet_address(s: &str) -> (r: Result<Vec<u8>, FetchError>)
    ensures
        r is Ok <==> valid_hex_text(s@, 20),
        r is Ok ==> r->Ok_0@ == hex_bytes_of(strip_hex_prefix(s@)) && r->Ok_0@.len() == 20,
        r is Err ==> (r->Err_0 matches FetchError::InvalidAddress { text } && text@ == s@),
{
    match crate::hexfmt::parse_address(s) {
        Some(b) => Ok(b),
        None => Err(FetchError::InvalidAddress { text: String::from_str(s) }),
    }
}

/// Validate the requested transaction hash text; malformed text is the
/// `InvalidHash` outcome, raised before any network call.
pub fn parse_hash_text(s: &str) -> (r: Result<Vec<u8>, FetchError>)
    ensures
        r is Ok <==> valid_hex_text(s@, 32),
        r is Ok ==> r->Ok_0@ == hex_bytes_of(strip_hex_prefix(s@)) && r->Ok_0@.len() == 32,
        r is Err ==> (r->Err_0 matches FetchError::InvalidHash { text } && text@ == s@),
{
    match crate::hexfmt::parse_hash(s) {
        Some(b) => Ok(b),
        None => Err(FetchError::InvalidHash { text: String::from_str(s) }),
    }
}

/// The pool address text the pipeline must use: an explicit override always
/// wins over the network-derived default.
pub open spec fn chosen_pool_text(network_id: u64, override_text: Option<&str>) -> Seq<char> {
    match override_text {
        Some(s) => s@,
        None => spec_safe_tx_pool_address(network_id),
    }
}

/// Law: the pool address precedence never consults the network default when
/// an override is supplied — the chosen text is the override's, whatever the
/// chain ID says.
pub proof fn lemma_override_takes_precedence(network_id: u64, other_id: u64, override_text: &str)
    ensures
        chosen_pool_text(network_id, Some(override_text)) == override_text@,
        chosen_pool_text(network_id, Some(override_text)) == chosen_pool_text(
            other_id,
            Some(override_text),
        ),
{
}

/// Choose and validate the pool contract address: the override, when given,
/// else the network default; malformed text is `InvalidAddress`, raised
/// before any network call.
pub fn resolve_pool_address(network_id: u64, override_text: Option<&str>) -> (r: Result<
    Vec<u8>,
    FetchError,
>)
    ensures
        r is Ok <==> valid_hex_text(chosen_pool_text(network_id, override_text), 20),
        r is Ok ==> r->Ok_0@ == hex_bytes_of(
            strip_hex_prefix(chosen_pool_text(network_id, override_text)),
        ) && r->Ok_0@.len() == 20,
        r is Err ==> (r->Err_0 matches FetchError::InvalidAddress { text } && text@
            == chosen_pool_text(network_id, override_text)),
{
    let text: &str = match override_text {
        Some(s) => s,
        None => crate::config::get_safe_tx_pool_address(network_id),
    };
    match crate::hexfmt::parse_address(text) {
        Some(b) => Ok(b),
        None => Err(FetchError::InvalidAddress { text: String::from_str(text) }),
    }
}

/// What follows the "get transaction details" call for one hash.
#[derive(Debug)]
pub enum AfterDetails {
    /// The call itself failed: a `DetailsFetchFailed` outcome.
    Failed { error: FetchError },
    /// The call answered with the zero-proposer sentinel: the pool has no
    /// record of this transaction, a `NotFound` outcome.
    Missing { error: FetchError },
    /// The transaction exists; the signatures call comes next. This is the
    /// only arm after which a signatures call is made.
    NeedSignatures { details: TxDetails },
}

/// Decide what follows the details call. A zero-proposer answer can only
/// yield `Missing`, never `NeedSignatures`, so no signatures call is ever
/// attempted for the sentinel.
pub fn classify_details(hash_text: &str, outcome: Result<TxDetails, String>) -> (r: AfterDetails)
    ensures
        match r {
            AfterDetails::Failed { error } => outcome is Err && (error matches
            FetchError::DetailsFetchFailed { hash, cause } && hash@ == hash_text@ && cause@
                == outcome->Err_0@),
            AfterDetails::Missing { error } => outcome is Ok && spec_zero_address(
                outcome->Ok_0.proposer@,
            ) && (error matches FetchError::NotFound { hash } && hash@ == hash_text@),
            AfterDetails::NeedSignatures { details } => outcome is Ok && details == outcome->Ok_0
                && !spec_zero_address(details.proposer@),
        },
{
    match outcome {
        Err(cause) => AfterDetails::Failed {
            error: FetchError::DetailsFetchFailed { hash: String::from_str(hash_text), cause },
        },
        Ok(details) => {
            if is_zero_address(&details.proposer) {
                AfterDetails::Missing {
                    error: FetchError::NotFound { hash: String::from_str(hash_text) },
                }
            } else {
                AfterDetails::NeedSignatures { details }
            }
        },
    }
}

/// Single-lookup mode, after the signatures call: a failed signatures call is
/// fatal (`SignaturesFetchFailed`); a successful one yields exactly one
/// canonical record.
pub fn fetch_one_single(
    hash: &Vec<u8>,
    hash_text: &str,
    details: &TxDetails,
    sigs_outcome: Result<Vec<Vec<u8>>, String>,
) -> (r: Result<TransactionRecord, FetchError>)
    requires
        details.wf(),
    ensures
        r is Ok <==> sigs_outcome is Ok,
        r is Ok ==> r->Ok_0.is_rendering_of(
            hash@,
            *details,
            sigs_outcome->Ok_0@.map_values(|s: Vec<u8>| s@),
        ),
        r is Err ==> (r->Err_0 matches FetchError::SignaturesFetchFailed { hash: h, cause } && h@
            == hash_text@ && cause@ == sigs_outcome->Err_0@),
{
    match sigs_outcome {
        Ok(sigs) => Ok(build_record(hash, details, &sigs)),
        Err(cause) => Err(
            FetchError::SignaturesFetchFailed { hash: String::from_str(hash_text), cause },
        ),
    }
}

/// Bulk mode, after the signatures call: a failed signatures call degrades
/// gracefully to an empty signature list — a transaction found with unknown
/// signatures is still reportable.
pub fn fetch_one_bulk(
    hash: &Vec<u8>,
    details: &TxDetails,
    sigs_outcome: Result<Vec<Vec<u8>>, String>,
) -> (r: TransactionRecord)
    requires
        details.wf(),
    ensures
        sigs_outcome is Ok ==> r.is_rendering_of(
            hash@,
            *details,
            sigs_outcome->Ok_0@.map_values(|s: Vec<u8>| s@),
        ),
        sigs_outcome is Err ==> r.is_rendering_of(hash@, *details, Seq::<Seq<u8>>::empty()),
{
    match sigs_outcome {
        Ok(sigs) => build_record(hash, details, &sigs),
        Err(_) => {
            let empty: Vec<Vec<u8>> = Vec::new();
            build_record(hash, details, &empty)
        },
    }
}

/// Bulk mode, first call: a failed hash-list call is fatal for the whole
/// invocation (`HashListFetchFailed`).
pub fn classify_hash_list(outcome: Result<Vec<Vec<u8>>, String>) -> (r: Result<
    Vec<Vec<u8>>,
    FetchError,
>)
    ensures
        r is Ok <==> outcome is Ok,
        r is Ok ==> r->Ok_0 == outcome->Ok_0,
        r is Err ==> (r->Err_0 matches FetchError::HashListFetchFailed { cause } && cause@
            == outcome->Err_0@),
{
    match outcome {
        Ok(hashes) => Ok(hashes),
        Err(cause) => Err(FetchError::HashListFetchFailed { cause }),
    }
}

/// The per-hash result of bulk mode: a fetched record, or a skip recorded as
/// a warning.
#[derive(Debug)]
pub enum BulkOutcome {
    /// The record fetched for one hash.
    Fetched { record: TransactionRecord },
    /// The hash was skipped; the warning says why (a failed details call or
    /// the zero-proposer sentinel).
    Skipped { warning: FetchError },
}

/// The records among a sequence of per-hash outcomes, in order.
pub open spec fn spec_bulk_records(outs: Seq<BulkOutcome>) -> Seq<TransactionRecord>
    decreases outs.len(),
{
    if outs.len() == 0 {
        Seq::empty()
    } else {
        spec_bulk_records(outs.drop_last()) + (match outs.last() {
            BulkOutcome::Fetched { record } => seq![record],
            BulkOutcome::Skipped { .. } => Seq::empty(),
        })
    }
}

/// The warnings among a sequence of per-hash outcomes, in order.
pub open spec fn spec_bulk_warnings(outs: Seq<BulkOutcome>) -> Seq<FetchError>
    decreases outs.len(),
{
    if outs.len() == 0 {
        Seq::empty()
    } else {
        spec_bulk_warnings(outs.drop_last()) + (match outs.last() {
            BulkOutcome::Fetched { .. } => Seq::empty(),
            BulkOutcome::Skipped { warning } => seq![warning],
        })
    }
}

/// Law: a per-hash failure in bulk mode never aborts the rest and no skip is
/// silent — every outcome lands in exactly one of the two sequences, so with
/// any number of skips among any number of outcomes, the records are the
/// successful fetches and nothing else.
pub proof fn lemma_bulk_partial_failure(outs: Seq<BulkOutcome>)
    ensures
        spec_bulk_records(outs).len() + spec_bulk_warnings(outs).len() == outs.len(),
    decreases outs.len(),
{
    if outs.len() > 0 {
        lemma_bulk_partial_failure(outs.drop_last());
    }
}

/// Split per-hash outcomes into the successfully fetched records and the
/// skip warnings, both in input order; an empty outcome set yields empty
/// results and no error.
pub fn collect_bulk_outcomes(outcomes: Vec<BulkOutcome>) -> (r: (
    Vec<TransactionRecord>,
    Vec<FetchError>,
))
    ensures
        r.0@ == spec_bulk_records(outcomes@),
        r.1@ == spec_bulk_warnings(outcomes@),
{
    let mut outs = outcomes;
    let mut recs: Vec<TransactionRecord> = Vec::new();
    let mut warns: Vec<FetchError> = Vec::new();
    let ghost all = outs@;
    let ghost mut done: Seq<BulkOutcome> = Seq::empty();
    while outs.len() > 0
        invariant
            all =~= done + outs@,
            recs@ == spec_bulk_records(done),
            warns@ == spec_bulk_warnings(done),
        decreases outs@.len(),
    {
        let ghost done_old = done;
        let o = outs.remove(0);
        proof {
            done = done_old.push(o);
            assert(done.drop_last() =~= done_old);
            assert(all =~= done + outs@);
        }
        match o {
            BulkOutcome::Fetched { record } => {
                recs.push(record);
                proof {
                    assert(recs@ =~= spec_bulk_records(done));
                    assert(warns@ =~= spec_bulk_warnings(done));
                }
            },
            BulkOutcome::Skipped { warning } => {
                warns.push(warning);
                proof {
                    assert(recs@ =~= spec_bulk_records(done));
                    assert(warns@ =~= spec_bulk_warnings(done));
                }
            },
        }
    }
    proof {
        assert(done =~= all);
    }
    (recs, warns)
}

/// Finish bulk mode: split the per-hash outcomes into records and warnings,
/// then order the records by nonce, ascending and stable. The warnings keep
/// hash order; an empty outcome set yields an empty record set and no error.
pub fn finalize_bulk(outcomes: Vec<BulkOutcome>) -> (r: (
    Vec<TransactionRecord>,
    Vec<FetchError>,
))
    ensures
        crate::order::sorted_by_nonce(r.0@),
        r.0@.len() == spec_bulk_records(outcomes@).len(),
        forall|k: u64| #[trigger] crate::order::with_key(r.0@, k) == crate::order::with_key(
            spec_bulk_records(outcomes@),
            k,
        ),
        r.1@ == spec_bulk_warnings(outcomes@),
{
    let (recs, warns) = collect_bulk_outcomes(outcomes);
    let sorted = crate::order::sort_by_nonce(recs);
    (sorted, warns)
}

} // verus!
