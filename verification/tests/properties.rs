use quickex::commitment;
use quickex::errors::QuickexError;
use quickex::escrow::{EscrowLedger, EscrowStatus};
use quickex::quicksilver::QuickSilverContract;
use quickex::QuickexContract;

fn addr(tag: u8) -> Vec<u8> {
    vec![tag, tag, tag, tag]
}

#[test]
fn commitment_digest_has_exact_value() {
    // SHA-256 of b"O", then 1_000_000 as 16 big-endian bytes, then
    // b"random_salt".
    let owner = b"O".to_vec();
    let salt = b"random_salt".to_vec();
    let commitment =
        commitment::create_amount_commitment(&owner, 1_000_000i128, &salt).unwrap();
    let expected: Vec<u8> = vec![
        0xf3, 0x10, 0x86, 0x67, 0x13, 0x87, 0x34, 0x4c, 0x73, 0x97, 0xa0, 0x8e, 0xd6, 0x6c, 0x38,
        0x50, 0x85, 0x4e, 0x5a, 0x86, 0x81, 0xcd, 0x2c, 0x81, 0xd3, 0x5a, 0x78, 0x82, 0xbe, 0x28,
        0x30, 0x32,
    ];
    assert_eq!(commitment, expected);
}

#[test]
fn tampering_with_owner_fails_verification() {
    let owner = addr(1);
    let other = addr(2);
    let salt = b"salty".to_vec();
    let commitment = commitment::create_amount_commitment(&owner, 42, &salt).unwrap();
    assert!(commitment::verify_amount_commitment(&commitment, &owner, 42, &salt));
    assert!(!commitment::verify_amount_commitment(&commitment, &other, 42, &salt));
}

#[test]
fn commit_rejects_negative_amount() {
    let owner = addr(1);
    let salt = b"salty".to_vec();
    assert_eq!(
        commitment::create_amount_commitment(&owner, -1, &salt),
        Err(QuickexError::InvalidAmount)
    );
}

#[test]
fn commit_accepts_zero_amount() {
    let owner = addr(1);
    let salt = b"salty".to_vec();
    let commitment = commitment::create_amount_commitment(&owner, 0, &salt).unwrap();
    assert!(commitment::verify_amount_commitment(&commitment, &owner, 0, &salt));
}

#[test]
fn commit_enforces_salt_bound() {
    let owner = addr(1);
    let longest_allowed = vec![0u8; 256];
    assert!(commitment::create_amount_commitment(&owner, 1, &longest_allowed).is_ok());
    let too_long = vec![0u8; 257];
    assert_eq!(
        commitment::create_amount_commitment(&owner, 1, &too_long),
        Err(QuickexError::InvalidSalt)
    );
}

#[test]
fn verify_is_false_never_a_failure_on_bad_inputs() {
    let owner = addr(1);
    let commitment = vec![0u8; 32];
    let salt = b"salty".to_vec();
    assert!(!commitment::verify_amount_commitment(&commitment, &owner, -5, &salt));
    let too_long = vec![0u8; 257];
    assert!(!commitment::verify_amount_commitment(&commitment, &owner, 5, &too_long));
}

#[test]
fn withdraw_reports_invalid_salt() {
    let mut contract = QuickexContract::new();
    let to = addr(1);
    let too_long = vec![0u8; 257];
    assert_eq!(
        contract.withdraw(&to, 10, &too_long, 0),
        Err(QuickexError::InvalidSalt)
    );
}

#[test]
fn withdraw_reports_not_found() {
    let mut contract = QuickexContract::new();
    let to = addr(1);
    let salt = b"no_such_entry".to_vec();
    assert_eq!(
        contract.withdraw(&to, 10, &salt, 0),
        Err(QuickexError::CommitmentNotFound)
    );
}

#[test]
fn withdraw_reports_already_spent() {
    let mut contract = QuickexContract::new();
    let to = addr(1);
    let salt = b"spend_once".to_vec();
    let commitment = commitment::create_amount_commitment(&to, 75, &salt).unwrap();
    contract
        .escrows
        .create(addr(9), addr(7), 75, commitment)
        .unwrap();
    assert_eq!(contract.withdraw(&to, 75, &salt, 0), Ok(true));
    assert_eq!(
        contract.withdraw(&to, 75, &salt, 0),
        Err(QuickexError::AlreadySpent)
    );
}

#[test]
fn withdraw_reports_mismatched_stored_amount() {
    // The entry was stored with another amount than the one its commitment
    // binds: the defense-in-depth check refuses the reveal.
    let mut contract = QuickexContract::new();
    let to = addr(1);
    let salt = b"mismatch".to_vec();
    let commitment = commitment::create_amount_commitment(&to, 1000, &salt).unwrap();
    contract
        .escrows
        .create(addr(9), addr(7), 500, commitment)
        .unwrap();
    assert_eq!(
        contract.withdraw(&to, 1000, &salt, 0),
        Err(QuickexError::CommitmentMismatch)
    );
}

#[test]
fn withdraw_flips_entry_and_logs_event() {
    let mut contract = QuickexContract::new();
    let to = addr(1);
    let salt = b"flip_me".to_vec();
    let commitment = commitment::create_amount_commitment(&to, 30, &salt).unwrap();
    contract
        .escrows
        .create(addr(9), addr(7), 30, commitment.clone())
        .unwrap();

    let before = contract.escrows.get(&commitment).unwrap();
    assert_eq!(before.status, EscrowStatus::Pending);

    assert_eq!(contract.withdraw(&to, 30, &salt, 1234), Ok(true));

    let after = contract.escrows.get(&commitment).unwrap();
    assert_eq!(after.status, EscrowStatus::Withdrawn);
    assert_eq!(after.amount, 30);

    assert_eq!(contract.withdraw_events.len(), 1);
    assert_eq!(contract.withdraw_events[0].to, to);
    assert_eq!(contract.withdraw_events[0].commitment, commitment);
    assert_eq!(contract.withdraw_events[0].timestamp, 1234);
}

#[test]
fn ledger_create_rejects_bad_entries() {
    let mut ledger = EscrowLedger::new();
    let commitment = vec![1u8; 32];
    assert_eq!(
        ledger.create(addr(9), addr(7), 0, commitment.clone()),
        Err(QuickexError::InvalidAmount)
    );
    assert_eq!(
        ledger.create(addr(9), addr(7), 5, vec![1u8; 31]),
        Err(QuickexError::InvalidCommitment)
    );
    assert_eq!(ledger.create(addr(9), addr(7), 5, commitment.clone()), Ok(()));
    // A colliding commitment is rejected, never overwritten.
    assert_eq!(
        ledger.create(addr(8), addr(6), 9, commitment.clone()),
        Err(QuickexError::AlreadyInitialized)
    );
    let stored = ledger.get(&commitment).unwrap();
    assert_eq!(stored.amount, 5);
    assert_eq!(stored.depositor, addr(9));
}

#[test]
fn ledger_get_absent_is_none() {
    let ledger = EscrowLedger::new();
    assert!(ledger.get(&vec![2u8; 32]).is_none());
}

#[test]
fn set_privacy_requires_authorization() {
    let mut contract = QuickexContract::new();
    let owner = addr(4);
    assert_eq!(
        contract.set_privacy(&owner, true, false, 0),
        Err(QuickexError::Unauthorized)
    );
    assert!(!contract.get_privacy(&owner));
    assert_eq!(contract.privacy_events.len(), 0);
}

#[test]
fn set_privacy_logs_event() {
    let mut contract = QuickexContract::new();
    let owner = addr(4);
    contract.set_privacy(&owner, true, true, 99).unwrap();
    assert_eq!(contract.privacy_events.len(), 1);
    assert_eq!(contract.privacy_events[0].owner, owner);
    assert_eq!(contract.privacy_events[0].enabled, true);
    assert_eq!(contract.privacy_events[0].timestamp, 99);
}

#[test]
fn privacy_flags_are_per_account() {
    let mut contract = QuickexContract::new();
    let first = addr(4);
    let second = addr(5);
    contract.set_privacy(&first, true, true, 0).unwrap();
    assert!(contract.get_privacy(&first));
    assert!(!contract.get_privacy(&second));
}

#[test]
fn escrow_ids_are_sequential() {
    let mut contract = QuickexContract::new();
    let first = contract.create_escrow(&addr(2), &addr(1), 10);
    let second = contract.create_escrow(&addr(3), &addr(1), 20);
    assert_eq!(first, 1);
    assert_eq!(second, 2);
    assert_eq!(contract.escrow_directory.len(), 2);
    assert_eq!(contract.escrow_directory[1].from, addr(3));
}

#[test]
fn quicksilver_status_and_history() {
    let mut contract = QuickSilverContract::new();
    let account = addr(6);
    assert_eq!(contract.privacy_status(&account), None);
    assert_eq!(contract.privacy_history(&account), Vec::<u32>::new());

    assert!(contract.enable_privacy(&account, 1));
    assert!(contract.enable_privacy(&account, 2));
    assert!(contract.enable_privacy(&account, 3));

    assert_eq!(contract.privacy_status(&account), Some(3));
    // The history is front-inserted: most recent level first.
    assert_eq!(contract.privacy_history(&account), vec![3, 2, 1]);

    let other = addr(7);
    assert_eq!(contract.privacy_status(&other), None);
}

#[test]
fn quicksilver_escrow_uses_timestamp_id() {
    let mut contract = QuickSilverContract::new();
    let id = contract.create_escrow(&addr(2), &addr(1), 10, 555);
    assert_eq!(id, 555);
    assert_eq!(contract.escrow_directory.len(), 1);
    assert_eq!(contract.escrow_directory[0].id, 555);
    assert!(QuickSilverContract::health_check());
}
