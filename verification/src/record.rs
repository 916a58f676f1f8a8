//! The serialized size of one hop's record: its field stream, and the
//! record as wrapped with its length prefix and integrity tag.

use crate::error::SizerError;
use crate::varint::encoded_len;
use crate::varint::encoded_length;
use vstd::prelude::*;

verus! {

/// Block height that stands in for every hop's expiry field.
pub const EXPIRY_HEIGHT: u64 = 770_000;

/// Bytes of the routing identifier that every record carries.
pub const CHANNEL_ID_BYTES: usize = 8;

/// Bytes that the multi-part marker adds to the final record.
pub const MPP_BYTES: usize = 32;

/// Bytes of type and length framing in front of each field.
pub const FIELD_OVERHEAD: usize = 4;

/// Bytes of the integrity tag that closes each record.
pub const TAG_BYTES: usize = 32;

/// Sum of a list of field lengths.
pub open spec fn sum_lengths(lengths: Seq<usize>) -> nat
    decreases lengths.len(),
{
    if lengths.len() == 0 {
        0
    } else {
        sum_lengths(lengths.drop_last()) + lengths.last() as nat
    }
}

/// Number of fields in a record. The multi-part marker and the metadata
/// appear on the final record only, the metadata only when it is not empty.
pub open spec fn field_count(
    is_final: bool,
    is_mpp: bool,
    metadata_len: nat,
    extra_lengths: Seq<usize>,
) -> nat {
    3 + (if is_final && is_mpp { 1nat } else { 0 })
      + (if is_final && metadata_len != 0 { 1nat } else { 0 })
      + extra_lengths.len()
}

/// Bytes of field values in a record, framing not counted.
pub open spec fn value_bytes(
    amount: nat,
    is_final: bool,
    is_mpp: bool,
    metadata_len: nat,
    extra_lengths: Seq<usize>,
) -> nat {
    CHANNEL_ID_BYTES as nat + encoded_length(amount) + encoded_length(EXPIRY_HEIGHT as nat)
      + (if is_final && is_mpp { MPP_BYTES as nat } else { 0 })
      + (if is_final { metadata_len } else { 0 })
      + sum_lengths(extra_lengths)
}

/// Size of a record's field stream: four bytes of framing for each field,
/// and the fields' values.
pub open spec fn record_size(
    amount: nat,
    is_final: bool,
    is_mpp: bool,
    metadata_len: nat,
    extra_lengths: Seq<usize>,
) -> nat {
    FIELD_OVERHEAD as nat * field_count(is_final, is_mpp, metadata_len, extra_lengths)
      + value_bytes(amount, is_final, is_mpp, metadata_len, extra_lengths)
}

/// Size of a record on the wire: the field stream, the integrity tag, and
/// in front of both their length as a variable-length integer.
pub open spec fn wrapped_size(tlv_total: nat) -> nat {
    tlv_total + TAG_BYTES as nat + encoded_length(tlv_total + TAG_BYTES as nat)
}

/// The sum over a prefix never exceeds the sum over the whole list.
pub proof fn lemma_sum_lengths_prefix(lengths: Seq<usize>, n: int)
    requires
        0 <= n <= lengths.len(),
    ensures
        sum_lengths(lengths.take(n)) <= sum_lengths(lengths),
    decreases lengths.len(),
{
    if n < lengths.len() {
        lemma_sum_lengths_prefix(lengths.drop_last(), n);
        assert(lengths.drop_last().take(n) =~= lengths.take(n));
    } else {
        assert(lengths.take(n) =~= lengths);
    }
}

/// Adding one more length to a prefix adds that length to the sum.
pub proof fn lemma_sum_lengths_step(lengths: Seq<usize>, n: int)
    requires
        0 <= n < lengths.len(),
    ensures
        sum_lengths(lengths.take(n + 1)) == sum_lengths(lengths.take(n)) + lengths[n] as nat,
{
    assert(lengths.take(n + 1).drop_last() =~= lengths.take(n));
}

/// Metadata on the final record costs its own length and one field's
/// framing: the record grows by exactly `metadata_len + 4` over the same
/// record without metadata.
pub proof fn lemma_metadata_adds_its_length(
    amount: nat,
    is_mpp: bool,
    metadata_len: nat,
    extra_lengths: Seq<usize>,
)
    requires
        metadata_len > 0,
    ensures
        record_size(amount, true, is_mpp, metadata_len, extra_lengths)
            == record_size(amount, true, is_mpp, 0, extra_lengths) + metadata_len + 4,
        record_size(amount, true, is_mpp, metadata_len, extra_lengths)
            > record_size(amount, true, is_mpp, 0, extra_lengths),
{
}

/// The extra fields cost every record, final or not, their lengths and
/// four bytes of framing each.
pub proof fn lemma_extra_fields_add_their_lengths(
    amount: nat,
    is_final: bool,
    is_mpp: bool,
    metadata_len: nat,
    extra_lengths: Seq<usize>,
)
    ensures
        record_size(amount, is_final, is_mpp, metadata_len, extra_lengths)
            == record_size(amount, is_final, is_mpp, metadata_len, Seq::empty())
                + sum_lengths(extra_lengths) + 4 * extra_lengths.len(),
{
    assert(sum_lengths(Seq::<usize>::empty()) == 0);
}

/// An intermediate record carries neither marker nor metadata, whatever is
/// asked for, and is never larger than the final record of the same payment.
pub proof fn lemma_intermediate_at_most_final(
    amount: nat,
    is_mpp: bool,
    metadata_len: nat,
    extra_lengths: Seq<usize>,
)
    ensures
        record_size(amount, false, is_mpp, metadata_len, extra_lengths)
            == record_size(amount, true, false, 0, extra_lengths),
        record_size(amount, false, is_mpp, metadata_len, extra_lengths)
            <= record_size(amount, true, is_mpp, metadata_len, extra_lengths),
{
}

/// Size of the field stream of a final record that carries the multi-part
/// marker if `is_mpp`, metadata of `metadata_len` bytes if that is not zero,
/// and one extra field for each length in `extra_payloads`. With `is_mpp`
/// false and `metadata_len` zero this is the size of an intermediate record.
/// Fails exactly when the size does not fit in a `usize`.
pub fn tlv_size(
    amount: u64,
    is_mpp: bool,
    metadata_len: usize,
    extra_payloads: &Vec<usize>,
) -> (res: Result<usize, SizerError>)
    ensures
        match res {
            Ok(total) => total == record_size(
                amount as nat,
                true,
                is_mpp,
                metadata_len as nat,
                extra_payloads@,
            ),
            Err(e) => e == SizerError::Overflow && record_size(
                amount as nat,
                true,
                is_mpp,
                metadata_len as nat,
                extra_payloads@,
            ) > usize::MAX,
        },
{
    let ghost extras = extra_payloads@;
    let mut payload_bytes: usize = CHANNEL_ID_BYTES;
    let mut field_count: usize = 1;

    payload_bytes += encoded_len(amount);
    field_count += 1;

    payload_bytes += encoded_len(EXPIRY_HEIGHT);
    field_count += 1;

    if is_mpp {
        payload_bytes += MPP_BYTES;
        field_count += 1;
    }
    if metadata_len != 0 {
        match payload_bytes.checked_add(metadata_len) {
            Some(sum) => {
                payload_bytes = sum;
            },
            None => {
                return Err(SizerError::Overflow);
            },
        }
        field_count += 1;
    }
    proof {
        assert(extras.take(0) =~= Seq::<usize>::empty());
    }
    let mut i: usize = 0;
    while i < extra_payloads.len()
        invariant
            extras == extra_payloads@,
            0 <= i <= extras.len(),
            field_count == self::field_count(true, is_mpp, metadata_len as nat, extras.take(i as int)),
            payload_bytes == value_bytes(
                amount as nat,
                true,
                is_mpp,
                metadata_len as nat,
                extras.take(i as int),
            ),
        decreases extras.len() - i,
    {
        proof {
            lemma_sum_lengths_step(extras, i as int);
            lemma_sum_lengths_prefix(extras, i + 1);
        }
        match payload_bytes.checked_add(extra_payloads[i]) {
            Some(sum) => {
                payload_bytes = sum;
            },
            None => {
                return Err(SizerError::Overflow);
            },
        }
        match field_count.checked_add(1) {
            Some(count) => {
                field_count = count;
            },
            None => {
                return Err(SizerError::Overflow);
            },
        }
        i += 1;
    }
    proof {
        assert(extras.take(i as int) =~= extras);
    }
    match field_count.checked_mul(FIELD_OVERHEAD) {
        Some(framing) => match framing.checked_add(payload_bytes) {
            Some(total) => Ok(total),
            None => Err(SizerError::Overflow),
        },
        None => Err(SizerError::Overflow),
    }
}

/// Size on the wire of a record whose field stream has `tlv_total` bytes.
/// Fails exactly when that size does not fit in a `usize`.
pub fn payload_size(tlv_total: usize) -> (res: Result<usize, SizerError>)
    ensures
        match res {
            Ok(total) => total == tlv_total + 32 + encoded_length((tlv_total + 32) as nat)
                && total == wrapped_size(tlv_total as nat),
            Err(e) => e == SizerError::Overflow && wrapped_size(tlv_total as nat) > usize::MAX,
        },
{
    match tlv_total.checked_add(TAG_BYTES) {
        Some(with_tag) => {
            let prefix_len = encoded_len(with_tag as u64);
            match with_tag.checked_add(prefix_len) {
                Some(total) => Ok(total),
                None => Err(SizerError::Overflow),
            }
        },
        None => Err(SizerError::Overflow),
    }
}

} // verus!
