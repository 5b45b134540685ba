use multivm::errors::{parse_revert_reason, VmRevertReason};

fn encoded_error(msg: &[u8]) -> Vec<u8> {
    let mut raw = vec![0x08u8, 0xc3, 0x79, 0xa0];
    let mut offset = vec![0u8; 32];
    offset[31] = 32;
    raw.extend_from_slice(&offset);
    let mut len = vec![0u8; 32];
    len[28] = ((msg.len() >> 24) & 0xff) as u8;
    len[29] = ((msg.len() >> 16) & 0xff) as u8;
    len[30] = ((msg.len() >> 8) & 0xff) as u8;
    len[31] = (msg.len() & 0xff) as u8;
    raw.extend_from_slice(&len);
    raw.extend_from_slice(msg);
    raw
}

#[test]
fn well_formed_error_decodes_to_its_message() {
    let raw = encoded_error(b"out of funds");
    assert_eq!(
        parse_revert_reason(&raw),
        VmRevertReason::General { msg: b"out of funds".to_vec() },
    );
}

#[test]
fn empty_payload_is_an_inner_tx_error() {
    assert_eq!(parse_revert_reason(&Vec::new()), VmRevertReason::InnerTxError);
}

#[test]
fn wrong_selector_degrades_to_raw() {
    let raw = vec![1u8, 2, 3, 4, 5, 6];
    assert_eq!(
        parse_revert_reason(&raw),
        VmRevertReason::Unknown { function_selector: vec![1, 2, 3, 4], data: raw },
    );
}

#[test]
fn short_payload_keeps_what_selector_it_has() {
    let raw = vec![0x08u8, 0xc3];
    assert_eq!(
        parse_revert_reason(&raw),
        VmRevertReason::Unknown { function_selector: vec![0x08, 0xc3], data: raw },
    );
}

#[test]
fn truncated_message_degrades_to_raw() {
    // claims 100 message bytes but carries none
    let mut raw = vec![0x08u8, 0xc3, 0x79, 0xa0];
    let mut offset = vec![0u8; 32];
    offset[31] = 32;
    raw.extend_from_slice(&offset);
    let mut len = vec![0u8; 32];
    len[31] = 100;
    raw.extend_from_slice(&len);
    match parse_revert_reason(&raw) {
        VmRevertReason::Unknown { function_selector, data } => {
            assert_eq!(function_selector, vec![0x08, 0xc3, 0x79, 0xa0]);
            assert_eq!(data, raw);
        },
        other => panic!("expected degradation, got {:?}", other),
    }
}

#[test]
fn empty_message_decodes_to_empty() {
    let raw = encoded_error(b"");
    assert_eq!(parse_revert_reason(&raw), VmRevertReason::General { msg: Vec::new() });
}
