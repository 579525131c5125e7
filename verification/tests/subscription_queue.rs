use vault_suite::subscription_queue::{
    get_request_subscription_id, get_state, SubscriptionQueue, REQUEST_TLV_START,
};
use vault_suite::tlv::VAULT_TLV_START;

fn entry(ty: u16, value: &[u8]) -> Vec<u8> {
    let mut out = Vec::new();
    out.extend_from_slice(&ty.to_le_bytes());
    out.extend_from_slice(&(value.len() as u16).to_le_bytes());
    out.extend_from_slice(value);
    out
}

fn vault_with(entries: &[Vec<u8>]) -> Vec<u8> {
    let mut data = vec![0xAAu8; VAULT_TLV_START];
    for e in entries {
        data.extend_from_slice(e);
    }
    data
}

fn state_bytes(total: u64, last: u64) -> Vec<u8> {
    let mut v = total.to_le_bytes().to_vec();
    v.extend_from_slice(&last.to_le_bytes());
    v
}

#[test]
fn state_is_zeroed_after_initialization() {
    let data = vault_with(&[entry(4, &[0; 16])]);
    let state = get_state(&data).expect("SubscriptionQueue extension should be present");
    assert_eq!(state.all_time_total_subscription_requests, 0, "all_time_total should start at 0");
    assert_eq!(
        state.last_processed_subscription_request_index, 0,
        "last_processed should start at 0"
    );
}

#[test]
fn state_reads_both_counters() {
    let data = vault_with(&[entry(1, &[1, 2, 3]), entry(4, &state_bytes(2, 1)), entry(3, &[0])]);
    assert_eq!(
        get_state(&data),
        Some(SubscriptionQueue {
            all_time_total_subscription_requests: 2,
            last_processed_subscription_request_index: 1,
        })
    );
    let data = vault_with(&[entry(4, &state_bytes(0x0102_0304_0506_0708, u64::MAX))]);
    assert_eq!(
        get_state(&data),
        Some(SubscriptionQueue {
            all_time_total_subscription_requests: 0x0102_0304_0506_0708,
            last_processed_subscription_request_index: u64::MAX,
        })
    );
}

#[test]
fn state_absent_without_the_extension() {
    let data = vault_with(&[entry(1, &[1, 2, 3]), entry(2, &[9])]);
    assert_eq!(get_state(&data), None);
}

#[test]
fn state_absent_when_data_ends_at_the_fixed_fields() {
    assert_eq!(get_state(&vec![0u8; VAULT_TLV_START]), None);
    assert_eq!(get_state(&[]), None);
}

#[test]
fn state_of_the_wrong_length_is_rejected() {
    let data = vault_with(&[entry(4, &[0; 15])]);
    assert_eq!(get_state(&data), None);
    let data = vault_with(&[entry(4, &[0; 17])]);
    assert_eq!(get_state(&data), None);
}

#[test]
fn entries_before_the_fixed_fields_end_are_not_read() {
    // an entry placed inside the fixed fields is not part of the extension area
    let mut data = entry(4, &state_bytes(5, 5));
    data.resize(VAULT_TLV_START, 0xFF);
    data.extend(entry(2, &[]));
    assert_eq!(get_state(&data), None);
}

fn request_with(entries: &[Vec<u8>]) -> Vec<u8> {
    let mut data = vec![0x11u8; REQUEST_TLV_START];
    for e in entries {
        data.extend_from_slice(e);
    }
    data
}

#[test]
fn request_subscription_ids() {
    let data = request_with(&[entry(1, &1u64.to_le_bytes())]);
    assert_eq!(get_request_subscription_id(&data), Some(1));
    let data = request_with(&[entry(7, &[0; 3]), entry(1, &2u64.to_le_bytes())]);
    assert_eq!(get_request_subscription_id(&data), Some(2));
    let mut long = 0xDEAD_BEEF_u64.to_le_bytes().to_vec();
    long.extend([1, 2, 3]);
    let data = request_with(&[entry(1, &long)]);
    assert_eq!(get_request_subscription_id(&data), Some(0xDEAD_BEEF));
}

#[test]
fn request_without_subscription_record() {
    assert_eq!(get_request_subscription_id(&request_with(&[])), None);
    assert_eq!(get_request_subscription_id(&request_with(&[entry(2, &[0; 8])])), None);
    assert_eq!(get_request_subscription_id(&request_with(&[entry(1, &[0; 7])])), None);
    assert_eq!(get_request_subscription_id(&[0u8; 10]), None);
}

#[test]
fn fixed_fields_do_not_change_the_state() {
    let mut a = vault_with(&[entry(4, &state_bytes(3, 2))]);
    let b = a.clone();
    for byte in a.iter_mut().take(VAULT_TLV_START) {
        *byte = 0x5A;
    }
    assert_eq!(get_state(&a), get_state(&b));
    assert!(get_state(&a).is_some());
}
