use quickex::QuickexContract;

fn addr(tag: u8) -> Vec<u8> {
    vec![tag, tag, tag, tag]
}

fn setup_escrow(contract: &mut QuickexContract, token: Vec<u8>, amount: i128, commitment: Vec<u8>) {
    let depositor = addr(99);
    contract
        .escrows
        .create(depositor, token, amount, commitment)
        .unwrap();
}

#[test]
fn test_successful_withdrawal() {
    let mut contract = QuickexContract::new();
    let token = addr(7);
    let to = addr(1);
    let amount: i128 = 1000;
    let salt = b"test_salt_123".to_vec();

    let commitment = QuickexContract::create_amount_commitment(&to, amount, &salt).unwrap();
    assert_eq!(commitment.len(), 32);
    setup_escrow(&mut contract, token, amount, commitment);

    let result = contract.withdraw(&to, amount, &salt, 0);
    assert_eq!(result, Ok(true));
}

#[test]
#[should_panic]
fn test_double_withdrawal_fails() {
    let mut contract = QuickexContract::new();
    let token = addr(7);
    let to = addr(1);
    let amount: i128 = 1000;
    let salt = b"test_salt_456".to_vec();

    let commitment = QuickexContract::create_amount_commitment(&to, amount, &salt).unwrap();
    assert_eq!(commitment.len(), 32);
    setup_escrow(&mut contract, token, amount, commitment);

    let first_result = contract.withdraw(&to, amount, &salt, 0);
    assert!(first_result.is_ok());
    assert_eq!(first_result.unwrap(), true);
    let _ = contract.withdraw(&to, amount, &salt, 0).unwrap();
}

#[test]
#[should_panic]
fn test_invalid_salt_fails() {
    let mut contract = QuickexContract::new();
    let token = addr(7);
    let to = addr(1);
    let amount: i128 = 1000;
    let correct_salt = b"correct_salt".to_vec();
    let wrong_salt = b"wrong_salt".to_vec();

    let commitment =
        QuickexContract::create_amount_commitment(&to, amount, &correct_salt).unwrap();
    setup_escrow(&mut contract, token, amount, commitment);

    let _ = contract.withdraw(&to, amount, &wrong_salt, 0).unwrap();
}

#[test]
#[should_panic]
fn test_invalid_amount_fails() {
    let mut contract = QuickexContract::new();
    let token = addr(7);
    let to = addr(1);
    let correct_amount: i128 = 1000;
    let wrong_amount: i128 = 500;
    let salt = b"test_salt_789".to_vec();

    let commitment =
        QuickexContract::create_amount_commitment(&to, correct_amount, &salt).unwrap();
    setup_escrow(&mut contract, token, correct_amount, commitment);

    let _ = contract.withdraw(&to, wrong_amount, &salt, 0).unwrap();
}

#[test]
#[should_panic]
fn test_zero_amount_fails() {
    let mut contract = QuickexContract::new();
    let to = addr(1);
    let amount: i128 = 0;
    let salt = b"test_salt".to_vec();

    let _ = contract.withdraw(&to, amount, &salt, 0).unwrap();
}

#[test]
#[should_panic]
fn test_negative_amount_fails() {
    let mut contract = QuickexContract::new();
    let to = addr(1);
    let amount: i128 = -100;
    let salt = b"test_salt".to_vec();

    let _ = contract.withdraw(&to, amount, &salt, 0).unwrap();
}

#[test]
#[should_panic]
fn test_nonexistent_commitment_fails() {
    let mut contract = QuickexContract::new();
    let to = addr(1);
    let amount: i128 = 1000;
    let salt = b"nonexistent".to_vec();

    let _ = contract.withdraw(&to, amount, &salt, 0).unwrap();
}

#[test]
fn test_set_and_get_privacy() {
    let mut contract = QuickexContract::new();
    let account = addr(5);

    // Default should be false
    assert!(!contract.get_privacy(&account));

    // Enable privacy
    contract.set_privacy(&account, true, true, 0).unwrap();
    assert!(contract.get_privacy(&account));

    // Disable privacy
    contract.set_privacy(&account, false, true, 0).unwrap();
    assert!(!contract.get_privacy(&account));
}

#[test]
fn test_commitment_cycle() {
    let owner = addr(3);
    let amount = 1_000_000i128;
    let salt = b"random_salt".to_vec();

    // Create commitment
    let commitment = QuickexContract::create_amount_commitment(&owner, amount, &salt).unwrap();

    // Verify correct commitment
    let is_valid = QuickexContract::verify_amount_commitment(&commitment, &owner, amount, &salt);
    assert!(is_valid);

    // Verify incorrect amount
    let is_valid_bad_amount =
        QuickexContract::verify_amount_commitment(&commitment, &owner, 2_000_000i128, &salt);
    assert!(!is_valid_bad_amount);

    // Verify incorrect salt
    let bad_salt = b"wrong_salt".to_vec();
    let is_valid_bad_salt =
        QuickexContract::verify_amount_commitment(&commitment, &owner, amount, &bad_salt);
    assert!(!is_valid_bad_salt);
}

#[test]
fn test_create_escrow() {
    let mut contract = QuickexContract::new();
    let from = addr(2);
    let to = addr(1);
    let amount = 1_000u64;
    let escrow_id = contract.create_escrow(&from, &to, amount);
    assert!(escrow_id > 0);
}

#[test]
fn test_health_check() {
    assert!(QuickexContract::health_check());
}
