use vault_suite::tlv::{find_tlv_entry, get_extension_bytes, ExtensionType};

fn entry(ty: u16, value: &[u8]) -> Vec<u8> {
    let mut out = Vec::new();
    out.extend_from_slice(&ty.to_le_bytes());
    out.extend_from_slice(&(value.len() as u16).to_le_bytes());
    out.extend_from_slice(value);
    out
}

#[test]
fn finds_first_entry() {
    let mut data = entry(1, &[9, 8, 7]);
    data.extend(entry(2, &[1]));
    assert_eq!(find_tlv_entry(&data, 1), Some(&[9u8, 8, 7][..]));
}

#[test]
fn skips_entries_of_other_types() {
    let mut data = entry(1, &[9, 8, 7]);
    data.extend(entry(2, &[]));
    data.extend(entry(3, &[5, 5]));
    assert_eq!(find_tlv_entry(&data, 3), Some(&[5u8, 5][..]));
    assert_eq!(find_tlv_entry(&data, 2), Some(&[][..]));
}

#[test]
fn first_of_two_entries_of_a_type_wins() {
    let mut data = entry(4, &[1]);
    data.extend(entry(4, &[2]));
    assert_eq!(find_tlv_entry(&data, 4), Some(&[1u8][..]));
}

#[test]
fn missing_type_is_none() {
    let mut data = entry(1, &[9, 8, 7]);
    data.extend(entry(2, &[1]));
    assert_eq!(find_tlv_entry(&data, 5), None);
    assert_eq!(find_tlv_entry(&[], 1), None);
}

#[test]
fn truncated_value_is_none() {
    // header says 5 bytes, only 2 follow
    let data = [1u8, 0, 5, 0, 1, 2];
    assert_eq!(find_tlv_entry(&data, 1), None);
    // a truncated entry stops the walk even before the target
    let mut data = vec![7u8, 0, 200, 0, 1];
    data.extend(entry(1, &[3]));
    assert_eq!(find_tlv_entry(&data, 1), None);
}

#[test]
fn trailing_bytes_shorter_than_a_header_are_ignored() {
    let mut data = entry(2, &[1, 2]);
    data.extend([1u8, 0, 0]);
    assert_eq!(find_tlv_entry(&data, 1), None);
    assert_eq!(find_tlv_entry(&data, 2), Some(&[1u8, 2][..]));
}

#[test]
fn little_endian_header() {
    let value: Vec<u8> = (0..=255u8).chain(0..=4u8).collect();
    let data = entry(0x0102, &value);
    assert_eq!(data[0], 0x02);
    assert_eq!(find_tlv_entry(&data, 0x0102).map(|s| s.len()), Some(261));
    assert_eq!(find_tlv_entry(&data, 0x0201), None);
}

#[test]
fn extension_codes() {
    assert_eq!(ExtensionType::DepositFee.code(), 1);
    assert_eq!(ExtensionType::WithdrawalFee.code(), 2);
    assert_eq!(ExtensionType::PausableSubscriptions.code(), 3);
    assert_eq!(ExtensionType::SubscriptionQueue.code(), 4);
}

#[test]
fn extension_bytes_by_kind() {
    let mut data = entry(1, &[10]);
    data.extend(entry(2, &[20, 21]));
    data.extend(entry(4, &[40; 16]));
    assert_eq!(get_extension_bytes(&data, ExtensionType::DepositFee), Some(&[10u8][..]));
    assert_eq!(get_extension_bytes(&data, ExtensionType::WithdrawalFee), Some(&[20u8, 21][..]));
    assert_eq!(get_extension_bytes(&data, ExtensionType::PausableSubscriptions), None);
    assert_eq!(get_extension_bytes(&data, ExtensionType::SubscriptionQueue), Some(&[40u8; 16][..]));
}

#[test]
fn bytes_after_a_found_entry_do_not_matter() {
    let mut data = entry(2, &[1]);
    data.extend(entry(1, &[7, 7]));
    let before = find_tlv_entry(&data, 1).map(|s| s.to_vec());
    data.extend([0xFF, 0xFF, 0xFF]);
    assert_eq!(find_tlv_entry(&data, 1).map(|s| s.to_vec()), before);
    assert_eq!(before, Some(vec![7, 7]));
}
