use onion_sizer::error::SizerError;
use onion_sizer::record::{payload_size, tlv_size, EXPIRY_HEIGHT};

#[test]
fn expiry_height_is_the_representative_one() {
    assert_eq!(EXPIRY_HEIGHT, 770_000);
}

#[test]
fn intermediate_record_has_three_fields() {
    // 3 * 4 framing + 8 identifier + 3 amount + 5 expiry
    assert_eq!(tlv_size(1000, false, 0, &Vec::new()), Ok(28));
}

#[test]
fn small_amount_takes_one_byte() {
    assert_eq!(tlv_size(0, false, 0, &Vec::new()), Ok(26));
    assert_eq!(tlv_size(252, false, 0, &Vec::new()), Ok(26));
    assert_eq!(tlv_size(253, false, 0, &Vec::new()), Ok(28));
}

#[test]
fn large_amount_takes_nine_bytes() {
    assert_eq!(tlv_size(u64::MAX, false, 0, &Vec::new()), Ok(34));
    assert_eq!(tlv_size(65_536, false, 0, &Vec::new()), Ok(30));
}

#[test]
fn multi_part_marker_adds_a_field_of_32_bytes() {
    assert_eq!(tlv_size(1000, true, 0, &Vec::new()), Ok(64));
}

#[test]
fn metadata_adds_its_length_and_one_framing() {
    let without = tlv_size(1000, true, 0, &Vec::new()).unwrap();
    let with = tlv_size(1000, true, 100, &Vec::new()).unwrap();
    assert_eq!(with, without + 100 + 4);
    assert_eq!(tlv_size(1000, false, 1, &Vec::new()), Ok(33));
}

#[test]
fn extra_fields_add_their_lengths_and_framing() {
    let extras: Vec<usize> = vec![10, 20];
    assert_eq!(tlv_size(1000, true, 0, &extras), Ok(64 + 10 + 20 + 8));
    assert_eq!(tlv_size(1000, false, 0, &extras), Ok(28 + 10 + 20 + 8));
}

#[test]
fn an_extra_field_of_no_bytes_still_costs_its_framing() {
    let extras: Vec<usize> = vec![0];
    assert_eq!(tlv_size(1000, false, 0, &extras), Ok(32));
}

#[test]
fn metadata_too_large_overflows() {
    assert_eq!(tlv_size(1000, false, usize::MAX, &Vec::new()), Err(SizerError::Overflow));
    assert_eq!(tlv_size(1000, false, usize::MAX - 28, &Vec::new()), Err(SizerError::Overflow));
}

#[test]
fn largest_metadata_that_fits() {
    // 4 * 4 framing + 8 + 3 + 5 + metadata
    assert_eq!(tlv_size(1000, false, usize::MAX - 32, &Vec::new()), Ok(usize::MAX));
    assert_eq!(tlv_size(1000, false, usize::MAX - 31, &Vec::new()), Err(SizerError::Overflow));
}

#[test]
fn extra_fields_too_large_overflow() {
    let extras: Vec<usize> = vec![usize::MAX];
    assert_eq!(tlv_size(1, false, 0, &extras), Err(SizerError::Overflow));
    let halves: Vec<usize> = vec![usize::MAX / 2, usize::MAX / 2, 2];
    assert_eq!(tlv_size(1, false, 0, &halves), Err(SizerError::Overflow));
}

#[test]
fn wrapping_adds_tag_and_prefix() {
    assert_eq!(payload_size(62), Ok(95));
    assert_eq!(payload_size(64), Ok(97));
    assert_eq!(payload_size(28), Ok(61));
    assert_eq!(payload_size(0), Ok(33));
}

#[test]
fn prefix_widens_with_the_size_it_prefixes() {
    // 220 + 32 = 252 still has a prefix of one byte, 253 needs three.
    assert_eq!(payload_size(220), Ok(253));
    assert_eq!(payload_size(221), Ok(256));
    // 65503 + 32 = 65535 has a prefix of three bytes, 65536 needs five.
    assert_eq!(payload_size(65_503), Ok(65_538));
    assert_eq!(payload_size(65_504), Ok(65_541));
}

#[test]
fn wrapping_overflows_at_the_word_limit() {
    assert_eq!(payload_size(usize::MAX), Err(SizerError::Overflow));
    assert_eq!(payload_size(usize::MAX - 31), Err(SizerError::Overflow));
    assert_eq!(payload_size(usize::MAX - 32), Err(SizerError::Overflow));
}
