//! Message digests and the send-once ledger.

use automation_core::audit::{hex_lower, task_id_string, MemorySendLedger, MessageDigest};
use automation_core::ports::AutomationError;

#[test]
fn digest_keeps_only_length_and_hash() {
    let digest = MessageDigest::of("你好，明天见");
    assert_eq!(digest.char_count, 6);
    assert_eq!(digest.sha256.len(), 64);
}

#[test]
fn digest_is_stable_for_same_text() {
    assert_eq!(MessageDigest::of("abc").sha256, MessageDigest::of("abc").sha256);
}

#[test]
fn digest_differs_for_different_text() {
    assert_ne!(MessageDigest::of("abc").sha256, MessageDigest::of("abd").sha256);
}

#[test]
fn digest_is_the_sha256_of_the_utf8_bytes() {
    assert_eq!(
        MessageDigest::of("abc").sha256,
        "ba7816bf8f01cfea414140de5dae2223b00361a396177a9cb410ff61f20015ad"
    );
}

#[test]
fn hex_is_lower_case_two_digits_per_byte() {
    assert_eq!(hex_lower(&[0x00, 0x0f, 0xa0, 0xff]), "000fa0ff");
    assert_eq!(hex_lower(&[]), "");
}

#[test]
fn ledger_rejects_second_claim() {
    let mut ledger = MemorySendLedger::new();
    let id = uuid::Uuid::new_v4().as_u128();
    assert!(ledger.claim(id).is_ok());
    assert!(ledger.claim(id).is_err());
    assert!(ledger.is_claimed(id));
}

#[test]
fn ledger_allows_distinct_tasks() {
    let mut ledger = MemorySendLedger::new();
    assert!(ledger.claim(uuid::Uuid::new_v4().as_u128()).is_ok());
    assert!(ledger.claim(uuid::Uuid::new_v4().as_u128()).is_ok());
}

#[test]
fn a_second_claim_names_the_task() {
    let mut ledger = MemorySendLedger::new();
    let id = uuid::Uuid::parse_str("67e55044-10b1-426f-9247-bb680e5fe0c8").unwrap();
    assert_eq!(task_id_string(id.as_u128()), id.to_string());
    ledger.claim(id.as_u128()).unwrap();
    match ledger.claim(id.as_u128()) {
        Err(AutomationError::NeedsHumanReview(reason)) => assert_eq!(
            reason,
            "任务 67e55044-10b1-426f-9247-bb680e5fe0c8 已进入过发送流程，拒绝重复发送"
        ),
        other => panic!("expected a refusal, got {other:?}"),
    }
}
