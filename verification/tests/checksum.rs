use ebpf_turn_router::checksum::ChecksumUpdate;

/// The Internet checksum of a stream of words, summed from scratch.
fn checksum_from_scratch(words: &[u16]) -> u16 {
    let mut sum: u64 = 0;
    for word in words {
        sum += u64::from(*word);
    }
    while sum > 0xFFFF {
        sum = (sum & 0xFFFF) + (sum >> 16);
    }
    !(sum as u16)
}

#[test]
fn seeding_and_finalizing_gives_the_checksum_back() {
    for checksum in [0u16, 1, 0x1234, 0xABCD, 0xFFFE, 0xFFFF] {
        assert_eq!(ChecksumUpdate::new(checksum).into_checksum(), checksum);
    }
}

#[test]
fn empty_update_finalizes_to_all_ones() {
    assert_eq!(ChecksumUpdate::default().into_checksum(), 0xFFFF);
}

#[test]
fn adding_a_word_without_carry() {
    // sum = 0x0001 + 0x0002 = 0x0003, checksum = !0x0003
    let checksum = ChecksumUpdate::default().add_u16(1).add_u16(2).into_checksum();
    assert_eq!(checksum, 0xFFFC);
}

#[test]
fn adding_a_word_with_carry_wraps_around() {
    // 0xFFFF + 0x0002 = 0x1_0001, folded: 0x0002
    let checksum = ChecksumUpdate::default().add_u16(0xFFFF).add_u16(2).into_checksum();
    assert_eq!(checksum, !0x0002u16);
    // 0x8000 + 0x8000 = 0x1_0000, folded: 0x0001
    let checksum = ChecksumUpdate::default().add_u16(0x8000).add_u16(0x8000).into_checksum();
    assert_eq!(checksum, !0x0001u16);
}

#[test]
fn removing_a_word_adds_its_complement() {
    // sum = !0x0005 = 0xFFFA, checksum = 0x0005
    assert_eq!(ChecksumUpdate::default().remove_u16(5).into_checksum(), 0x0005);
    let removed = ChecksumUpdate::new(0x1111).remove_u16(0x00FF).into_checksum();
    let added = ChecksumUpdate::new(0x1111).add_u16(!0x00FFu16).into_checksum();
    assert_eq!(removed, added);
}

#[test]
fn rfc_1624_example() {
    // RFC 1624, section 4: HC = 0xDD2F, m = 0x5555, m' = 0x3285, HC' = 0x0000.
    let checksum = ChecksumUpdate::new(0xDD2F).remove_u16(0x5555).add_u16(0x3285).into_checksum();
    assert_eq!(checksum, 0x0000);
}

#[test]
fn add_then_remove_is_a_no_op_on_a_non_zero_sum() {
    for seed in [0u16, 7, 0x8000, 0xFFFE] {
        for word in [0u16, 1, 0x00FF, 0x8000, 0xFFFF] {
            let checksum = ChecksumUpdate::new(seed).add_u16(word).remove_u16(word).into_checksum();
            assert_eq!(checksum, seed);
        }
    }
}

#[test]
fn add_then_remove_turns_the_zero_sum_into_its_other_form() {
    // The sum behind a checksum of 0xFFFF is 0x0000; a word and its
    // complement add up to 0xFFFF, which folds to itself.
    let checksum = ChecksumUpdate::new(0xFFFF).add_u16(9).remove_u16(9).into_checksum();
    assert_eq!(checksum, 0x0000);
}

#[test]
fn order_of_operations_does_not_matter() {
    let a = ChecksumUpdate::new(0x1357)
        .add_u16(0xF00D)
        .remove_u16(0x0BAD)
        .add_u16(0xFFFF)
        .into_checksum();
    let b = ChecksumUpdate::new(0x1357)
        .add_u16(0xFFFF)
        .add_u16(0xF00D)
        .remove_u16(0x0BAD)
        .into_checksum();
    let c = ChecksumUpdate::default()
        .remove_u16(0x0BAD)
        .add_u16(0xF00D)
        .add_update(ChecksumUpdate::new(0x1357))
        .add_u16(0xFFFF)
        .into_checksum();
    assert_eq!(a, b);
    assert_eq!(a, c);
}

#[test]
fn combining_two_updates_equals_one_chain() {
    let left = ChecksumUpdate::new(0x4242).add_u16(0xFFF0).add_u16(0x0020);
    let right = ChecksumUpdate::default().remove_u16(0x0102).add_u16(0xFEFE);
    let combined = left.add_update(right).into_checksum();
    let chained = ChecksumUpdate::new(0x4242)
        .add_u16(0xFFF0)
        .add_u16(0x0020)
        .remove_u16(0x0102)
        .add_u16(0xFEFE)
        .into_checksum();
    assert_eq!(combined, chained);
    // 0xBDBD + 0xFFF0 + 0x0020 + 0xFEFD + 0xFEFE = 0x3BBC8, folded: 0xBBCB
    assert_eq!(combined, !0xBBCBu16);
}

#[test]
fn many_words_do_not_overflow() {
    let mut update = ChecksumUpdate::default();
    let mut words = Vec::new();
    for _ in 0..200_000 {
        update = update.add_u16(0xFFFF);
        words.push(0xFFFFu16);
    }
    update = update.add_u16(0x0123);
    words.push(0x0123);
    assert_eq!(update.into_checksum(), checksum_from_scratch(&words));
    assert_eq!(update.into_checksum(), !0x0123u16);
}

#[test]
fn accumulator_matches_sum_from_scratch() {
    let words = [0x4500u16, 0x0073, 0x0000, 0x4000, 0x4011, 0xC0A8, 0x0001, 0xC0A8, 0x00C7];
    let mut update = ChecksumUpdate::default();
    for word in words {
        update = update.add_u16(word);
    }
    // The header checksum of this well known IPv4 header is 0xB861.
    assert_eq!(update.into_checksum(), 0xB861);
    assert_eq!(update.into_checksum(), checksum_from_scratch(&words));
}

#[test]
fn replacing_a_word_matches_sum_from_scratch() {
    let mut words = vec![0x0011u16, 0xCA6C, 0x0D96, 0x000C, 0x0102, 0x0304];
    let old_checksum = checksum_from_scratch(&words);
    let old_word = words[2];
    words[2] = 0xBEEF;
    let updated = ChecksumUpdate::new(old_checksum)
        .remove_u16(old_word)
        .add_u16(0xBEEF)
        .into_checksum();
    assert_eq!(updated, checksum_from_scratch(&words));
}
