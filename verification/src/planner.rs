//! How many records fit in the payload budget.

use crate::error::SizerError;
use crate::record::lemma_intermediate_at_most_final;
use crate::record::payload_size;
use crate::record::record_size;
use crate::record::tlv_size;
use crate::record::wrapped_size;
use vstd::prelude::*;

verus! {

/// Bytes that all the records of one onion may take together.
pub const PAYLOAD_LIMIT: usize = 1300;

/// Size on the wire of the final hop's record.
pub open spec fn final_total(
    amount: nat,
    is_mpp: bool,
    metadata_len: nat,
    extra_lengths: Seq<usize>,
) -> nat {
    wrapped_size(record_size(amount, true, is_mpp, metadata_len, extra_lengths))
}

/// Size on the wire of each intermediate hop's record.
pub open spec fn intermediate_total(amount: nat, extra_lengths: Seq<usize>) -> nat {
    wrapped_size(record_size(amount, false, false, 0, extra_lengths))
}

/// The plan for a payment: the number of hops whose records fit in the
/// budget, and the bytes of the budget that stay unused. Where not even the
/// final record fits, no hop does and the whole budget is filler; else the
/// final record is placed first and intermediate records fill what is left.
pub open spec fn plan(
    amount: nat,
    is_mpp: bool,
    metadata_len: nat,
    extra_lengths: Seq<usize>,
) -> (nat, nat) {
    let last = final_total(amount, is_mpp, metadata_len, extra_lengths);
    let each = intermediate_total(amount, extra_lengths);
    if last > PAYLOAD_LIMIT {
        (0, PAYLOAD_LIMIT as nat)
    } else {
        let available = (PAYLOAD_LIMIT - last) as nat;
        let count = available / each;
        (1 + count, (available - count * each) as nat)
    }
}

/// What `max_hops` owes for given inputs: the plan, unless the final
/// record's size does not fit in a `usize`, which is an overflow.
pub open spec fn is_outcome(
    res: Result<(usize, usize), SizerError>,
    amount: nat,
    is_mpp: bool,
    metadata_len: nat,
    extra_lengths: Seq<usize>,
) -> bool {
    match res {
        Ok(hops_and_filler) => {
            &&& final_total(amount, is_mpp, metadata_len, extra_lengths) <= usize::MAX
            &&& hops_and_filler.0 == plan(amount, is_mpp, metadata_len, extra_lengths).0
            &&& hops_and_filler.1 == plan(amount, is_mpp, metadata_len, extra_lengths).1
        },
        Err(e) => {
            &&& e == SizerError::Overflow
            &&& final_total(amount, is_mpp, metadata_len, extra_lengths) > usize::MAX
        },
    }
}

/// Every record has a positive size, and an intermediate record is never
/// larger than the final one.
pub proof fn lemma_totals_ordered(
    amount: nat,
    is_mpp: bool,
    metadata_len: nat,
    extra_lengths: Seq<usize>,
)
    ensures
        0 < intermediate_total(amount, extra_lengths)
            <= final_total(amount, is_mpp, metadata_len, extra_lengths),
{
    lemma_intermediate_at_most_final(amount, is_mpp, metadata_len, extra_lengths);
}

/// The plan holds no hop exactly when the final record alone exceeds the
/// budget; all of the budget is then filler.
pub proof fn lemma_no_hops_iff_final_exceeds_budget(
    amount: nat,
    is_mpp: bool,
    metadata_len: nat,
    extra_lengths: Seq<usize>,
)
    ensures
        plan(amount, is_mpp, metadata_len, extra_lengths).0 == 0
            <==> final_total(amount, is_mpp, metadata_len, extra_lengths) > PAYLOAD_LIMIT,
        plan(amount, is_mpp, metadata_len, extra_lengths).0 == 0
            ==> plan(amount, is_mpp, metadata_len, extra_lengths).1 == PAYLOAD_LIMIT,
{
}

/// Where the plan holds a hop, the records fill the budget exactly but for
/// the filler, and the filler is too small for one more intermediate
/// record.
pub proof fn lemma_filler_below_intermediate(
    amount: nat,
    is_mpp: bool,
    metadata_len: nat,
    extra_lengths: Seq<usize>,
)
    requires
        plan(amount, is_mpp, metadata_len, extra_lengths).0 > 0,
    ensures
        plan(amount, is_mpp, metadata_len, extra_lengths).1
            < intermediate_total(amount, extra_lengths),
        final_total(amount, is_mpp, metadata_len, extra_lengths)
            + (plan(amount, is_mpp, metadata_len, extra_lengths).0 - 1)
                * intermediate_total(amount, extra_lengths)
            + plan(amount, is_mpp, metadata_len, extra_lengths).1 == PAYLOAD_LIMIT,
{
    let last = final_total(amount, is_mpp, metadata_len, extra_lengths);
    let each = intermediate_total(amount, extra_lengths);
    lemma_totals_ordered(amount, is_mpp, metadata_len, extra_lengths);
    let available = (PAYLOAD_LIMIT - last) as nat;
    lemma_division_remainder(available, each);
}

/// In a plan the filler never exceeds the budget.
pub proof fn lemma_filler_within_budget(
    amount: nat,
    is_mpp: bool,
    metadata_len: nat,
    extra_lengths: Seq<usize>,
)
    ensures
        plan(amount, is_mpp, metadata_len, extra_lengths).1 <= PAYLOAD_LIMIT,
{
    let last = final_total(amount, is_mpp, metadata_len, extra_lengths);
    let each = intermediate_total(amount, extra_lengths);
    lemma_totals_ordered(amount, is_mpp, metadata_len, extra_lengths);
    if last <= PAYLOAD_LIMIT {
        lemma_division_remainder((PAYLOAD_LIMIT - last) as nat, each);
    }
}

/// The same inputs have one outcome only: two results that `max_hops` may
/// return for them are equal.
pub proof fn lemma_outcome_is_unique(
    first: Result<(usize, usize), SizerError>,
    second: Result<(usize, usize), SizerError>,
    amount: nat,
    is_mpp: bool,
    metadata_len: nat,
    extra_lengths: Seq<usize>,
)
    requires
        is_outcome(first, amount, is_mpp, metadata_len, extra_lengths),
        is_outcome(second, amount, is_mpp, metadata_len, extra_lengths),
    ensures
        first == second,
{
}

/// What floor division leaves over is less than the divisor.
pub proof fn lemma_division_remainder(available: nat, each: nat)
    requires
        each > 0,
    ensures
        (available / each) * each <= available,
        available - (available / each) * each < each,
        available / each <= available,
{
    assert((available / each) * each <= available && available - (available / each) * each < each
        && available / each <= available) by (nonlinear_arith)
        requires
            each > 0,
    ;
}

/// The largest number of hops whose records fit in the payload budget, and
/// the bytes of filler that remain, for a payment of `amount` whose final
/// hop carries the multi-part marker if `is_mpp` and `metadata_len` bytes of
/// metadata, each hop having one extra field for each length in
/// `extra_payloads`.
pub fn max_hops(
    amount: u64,
    is_mpp: bool,
    metadata_len: usize,
    extra_payloads: &Vec<usize>,
) -> (res: Result<(usize, usize), SizerError>)
    ensures
        is_outcome(res, amount as nat, is_mpp, metadata_len as nat, extra_payloads@),
        res matches Ok(p) ==> {
            &&& p.0 == 0 <==> final_total(
                amount as nat,
                is_mpp,
                metadata_len as nat,
                extra_payloads@,
            ) > PAYLOAD_LIMIT
            &&& p.0 == 0 ==> p.1 == PAYLOAD_LIMIT
            &&& p.0 > 0 ==> p.1 < intermediate_total(amount as nat, extra_payloads@)
            &&& p.1 <= PAYLOAD_LIMIT
        },
{
    proof {
        lemma_totals_ordered(amount as nat, is_mpp, metadata_len as nat, extra_payloads@);
    }
    let final_payload_tlvs = match tlv_size(amount, is_mpp, metadata_len, extra_payloads) {
        Ok(size) => size,
        Err(e) => {
            return Err(e);
        },
    };
    let final_payload_total = match payload_size(final_payload_tlvs) {
        Ok(size) => size,
        Err(e) => {
            return Err(e);
        },
    };
    if final_payload_total > PAYLOAD_LIMIT {
        return Ok((0, PAYLOAD_LIMIT));
    }
    let intermediate_payload_tlvs = match tlv_size(amount, false, 0, extra_payloads) {
        Ok(size) => size,
        Err(e) => {
            return Err(e);
        },
    };
    let intermediate_payload_total = match payload_size(intermediate_payload_tlvs) {
        Ok(size) => size,
        Err(e) => {
            return Err(e);
        },
    };
    let available_bytes = PAYLOAD_LIMIT - final_payload_total;
    let intermediate_hops = available_bytes / intermediate_payload_total;
    proof {
        lemma_division_remainder(available_bytes as nat, intermediate_payload_total as nat);
    }
    Ok((1 + intermediate_hops, available_bytes - intermediate_hops * intermediate_payload_total))
}

} // verus!
