//! Bulk-mode ordering: a stable sort of the record set by nonce, ascending,
//! with malformed nonce text ordered as zero.

use vstd::prelude::*;
use crate::decimal::nonce_key_of;
use crate::decimal::nonce_sort_key;
use crate::records::TransactionRecord;

verus! {

/// The ordering key of a record: its nonce text read back as a 64-bit
/// decimal, zero when it does not read back as one.
pub open spec fn record_key(r: TransactionRecord) -> u64 {
    nonce_key_of(r.nonce@)
}

/// Whether a record sequence is ordered by nonce key, ascending.
pub open spec fn sorted_by_nonce(s: Seq<TransactionRecord>) -> bool {
    forall|i: int, j: int| 0 <= i < j < s.len() ==> record_key(s[i]) <= record_key(s[j])
}

/// The subsequence of records whose key is `k`, in order. A sorted sequence
/// with the same subsequence for every key is exactly the stable sort of the
/// input: ties keep their input order.
pub open spec fn with_key(s: Seq<TransactionRecord>, k: u64) -> Seq<TransactionRecord> {
    s.filter(|r: TransactionRecord| record_key(r) == k)
}

/// A sequence with no record of key `k` contributes nothing to `with_key`.
proof fn lemma_with_key_none(s: Seq<TransactionRecord>, k: u64)
    requires
        forall|i: int| 0 <= i < s.len() ==> record_key(#[trigger] s[i]) != k,
    ensures
        with_key(s, k) == Seq::<TransactionRecord>::empty(),
    decreases s.len(),
{
    reveal(Seq::filter);
    if s.len() > 0 {
        assert forall|i: int| 0 <= i < s.drop_last().len() implies record_key(
            #[trigger] s.drop_last()[i],
        ) != k by {
            assert(s.drop_last()[i] == s[i]);
        }
        lemma_with_key_none(s.drop_last(), k);
    }
}

/// `with_key` of a single record.
proof fn lemma_with_key_one(x: TransactionRecord, k: u64)
    ensures
        record_key(x) == k ==> with_key(seq![x], k) == seq![x],
        record_key(x) != k ==> with_key(seq![x], k) == Seq::<TransactionRecord>::empty(),
{
    reveal(Seq::filter);
    let pred = (|r: TransactionRecord| record_key(r) == k);
    assert(seq![x].drop_last() =~= Seq::<TransactionRecord>::empty());
    assert(Seq::<TransactionRecord>::empty().filter(pred) == Seq::<TransactionRecord>::empty());
    assert(seq![x].last() == x);
    if record_key(x) == k {
        assert(seq![x].filter(pred) == Seq::<TransactionRecord>::empty().push(x));
        assert(Seq::<TransactionRecord>::empty().push(x) =~= seq![x]);
    } else {
        assert(seq![x].filter(pred) == Seq::<TransactionRecord>::empty());
    }
}

/// `with_key` distributes over concatenation.
proof fn lemma_with_key_add(a: Seq<TransactionRecord>, b: Seq<TransactionRecord>, k: u64)
    ensures
        with_key(a + b, k) == with_key(a, k) + with_key(b, k),
{
    Seq::filter_distributes_over_add(a, b, |r: TransactionRecord| record_key(r) == k);
}

/// Sort records by nonce key, ascending and stable: the output is ordered,
/// and for every key the records carrying it appear exactly as they did in
/// the input, so ties preserve input order and nothing is added, dropped or
/// reordered within a key.
pub fn sort_by_nonce(records: Vec<TransactionRecord>) -> (out: Vec<TransactionRecord>)
    ensures
        sorted_by_nonce(out@),
        out@.len() == records@.len(),
        forall|k: u64| #[trigger] with_key(out@, k) == with_key(records@, k),
{
    let ghost all = records@;
    let mut rest = records;
    let mut out: Vec<TransactionRecord> = Vec::new();
    while rest.len() > 0
        invariant
            sorted_by_nonce(out@),
            out@.len() + rest@.len() == all.len(),
            forall|k: u64| #[trigger] with_key(out@, k) + with_key(rest@, k) == with_key(all, k),
        decreases rest@.len(),
    {
        let ghost rest_old = rest@;
        let ghost out_old = out@;
        let x = rest.remove(0);
        let kx = nonce_sort_key(x.nonce.as_str());
        proof {
            assert(record_key(x) == kx);
            assert(rest_old =~= seq![x] + rest@);
        }
        let mut p: usize = out.len();
        loop
            invariant
                p <= out@.len(),
                out@ == out_old,
                forall|j: int| p <= j < out@.len() ==> record_key(#[trigger] out@[j]) > kx,
            ensures
                p <= out@.len(),
                out@ == out_old,
                forall|j: int| p <= j < out@.len() ==> record_key(#[trigger] out@[j]) > kx,
                p > 0 ==> record_key(out@[p - 1]) <= kx,
            decreases p,
        {
            if p == 0 {
                break ;
            }
            let prev = &out[p - 1];
            let kprev = nonce_sort_key(prev.nonce.as_str());
            proof {
                assert(kprev == record_key(out@[p - 1]));
            }
            if kprev <= kx {
                break ;
            }
            p = p - 1;
        }
        let ghost prefix = out@.subrange(0, p as int);
        let ghost suffix = out@.subrange(p as int, out@.len() as int);
        out.insert(p, x);
        proof {
            assert(out@ =~= (prefix + seq![x]) + suffix);
            assert(out_old =~= prefix + suffix);
            // The new sequence is still sorted: everything before the
            // insertion point has key at most kx, everything after has key
            // greater than kx.
            assert forall|i: int| 0 <= i < out_old.len() && i < p as int implies record_key(
                #[trigger] out_old[i],
            ) <= kx by {
                if p as int <= out_old.len() && 0 < p as int {
                    assert(record_key(out_old[p - 1]) <= kx);
                    if i < p - 1 {
                        assert(record_key(out_old[i]) <= record_key(out_old[p - 1]));
                    }
                }
            }
            assert forall|i: int, j: int| 0 <= i < j < out@.len() implies record_key(
                #[trigger] out@[i],
            ) <= record_key(#[trigger] out@[j]) by {
                let pi = p as int;
                if i < pi {
                    assert(out@[i] == out_old[i]);
                }
                if j < pi {
                    assert(out@[j] == out_old[j]);
                }
                if i > pi {
                    assert(out@[i] == out_old[i - 1]);
                }
                if j > pi {
                    assert(out@[j] == out_old[j - 1]);
                }
            }
            // Per-key contents: the suffix holds no record of key kx, so
            // inserting x right before it appends x to the key-kx
            // subsequence and leaves every other key's subsequence alone.
            assert forall|k: u64| #[trigger] with_key(out@, k) + with_key(rest@, k) == with_key(
                all,
                k,
            ) by {
                lemma_with_key_add(prefix + seq![x], suffix, k);
                lemma_with_key_add(prefix, seq![x], k);
                lemma_with_key_add(prefix, suffix, k);
                lemma_with_key_add(seq![x], rest@, k);
                lemma_with_key_one(x, k);
                assert(with_key(out_old, k) + with_key(rest_old, k) == with_key(all, k));
                if k == kx {
                    assert forall|i: int| 0 <= i < suffix.len() implies record_key(
                        #[trigger] suffix[i],
                    ) != k by {
                        assert(suffix[i] == out_old[p + i]);
                    }
                    lemma_with_key_none(suffix, k);
                    assert(with_key(out_old, k) =~= with_key(prefix, k));
                    assert(with_key(out@, k) =~= with_key(prefix, k) + seq![x]);
                    assert(with_key(out@, k) + with_key(rest@, k) =~= with_key(prefix, k) + (
                    seq![x] + with_key(rest@, k)));
                    assert(seq![x] + with_key(rest@, k) =~= with_key(rest_old, k));
                    assert(with_key(prefix, k) + with_key(rest_old, k) =~= with_key(out_old, k)
                        + with_key(rest_old, k));
                } else {
                    assert(with_key(out@, k) =~= with_key(prefix, k) + with_key(suffix, k));
                    assert(with_key(out@, k) =~= with_key(out_old, k));
                    assert(with_key(rest@, k) =~= with_key(rest_old, k));
                }
            }
        }
    }
    proof {
        assert forall|k: u64| #[trigger] with_key(out@, k) == with_key(all, k) by {
            assert(rest@ =~= Seq::<TransactionRecord>::empty());
            reveal(Seq::filter);
            assert(with_key(rest@, k) =~= Seq::<TransactionRecord>::empty());
            assert(with_key(out@, k) + with_key(rest@, k) == with_key(all, k));
            assert(with_key(out@, k) + Seq::<TransactionRecord>::empty() =~= with_key(out@, k));
        }
    }
    out
}

} // verus!
