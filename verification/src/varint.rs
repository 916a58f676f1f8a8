//! The variable-length integer ("BigSize") encoding and its width.

use lightning::util::ser::BigSize;
use lightning::util::ser::Writeable;
use vstd::prelude::*;

verus! {

/// Number of bytes that the variable-length encoding of `value` occupies.
pub open spec fn encoded_length(value: nat) -> nat {
    if value <= 0xFC {
        1
    } else if value <= 0xFFFF {
        3
    } else if value <= 0xFFFF_FFFF {
        5
    } else {
        9
    }
}

/// The `width` low-order bytes of `value`, most significant byte first.
pub open spec fn be_bytes(value: nat, width: nat) -> Seq<u8>
    decreases width,
{
    if width == 0 {
        Seq::empty()
    } else {
        be_bytes(value / 256, (width - 1) as nat).push((value % 256) as u8)
    }
}

/// The encoding itself: values up to 0xFC stand as one byte; larger ones
/// follow a marker byte (0xFD, 0xFE, 0xFF) in 2, 4 or 8 big-endian bytes.
pub open spec fn encoding(value: nat) -> Seq<u8> {
    if value <= 0xFC {
        seq![value as u8]
    } else if value <= 0xFFFF {
        seq![0xFDu8] + be_bytes(value, 2)
    } else if value <= 0xFFFF_FFFF {
        seq![0xFEu8] + be_bytes(value, 4)
    } else {
        seq![0xFFu8] + be_bytes(value, 8)
    }
}

/// `be_bytes` yields exactly `width` bytes.
pub proof fn lemma_be_bytes_len(value: nat, width: nat)
    ensures
        be_bytes(value, width).len() == width,
    decreases width,
{
    if width > 0 {
        lemma_be_bytes_len(value / 256, (width - 1) as nat);
    }
}

/// The encoding of a value is as long as `encoded_length` says.
pub proof fn lemma_encoding_len(value: nat)
    ensures
        encoding(value).len() == encoded_length(value),
{
    lemma_be_bytes_len(value, 2);
    lemma_be_bytes_len(value, 4);
    lemma_be_bytes_len(value, 8);
}

/// The encoded length never shrinks as the value grows.
pub proof fn lemma_encoded_length_monotonic(a: nat, b: nat)
    requires
        a <= b,
    ensures
        encoded_length(a) <= encoded_length(b),
{
}

/// Calls `lightning::util::ser::Writeable::encode` on a
/// `lightning::util::ser::BigSize`. Trusted: the bytes returned are the
/// marker-and-big-endian form that `encoding` describes, as `BigSize::write`
/// produces them into a growable in-memory buffer, which cannot fail.
#[verifier::external_body]
fn bigsize_encode(value: u64) -> (bytes: Vec<u8>)
    ensures
        bytes@ == encoding(value as nat),
{
    BigSize(value).encode()
}

/// Number of bytes that `value` occupies on the wire.
pub fn encoded_len(value: u64) -> (len: usize)
    ensures
        len == encoded_length(value as nat),
{
    let bytes = bigsize_encode(value);
    proof {
        lemma_encoding_len(value as nat);
    }
    bytes.len()
}

} // verus!
