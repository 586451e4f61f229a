use ecash_wallet::proofs::{create_cashu_proof, validate_cashu_proof};

#[test]
fn test_cashu_functions() {
    println!("Testing Cashu Rust functions...");

    let _mint_url = "".to_string();
    let _unit = "sat".to_string();

    let proof = create_cashu_proof(
        "test_proof_id".to_string(),
        1000,
        "test_secret".to_string(),
        "test_c".to_string(),
    );
    println!("✅ Created Cashu proof successfully");

    let is_valid = validate_cashu_proof(proof).unwrap();
    println!("✅ Validated proof: {}", is_valid);

    println!("All Cashu tests passed!");
}

#[test]
fn validate_reports_shape_and_rejects_missing_secret() {
    let ok = create_cashu_proof("009a1f293253e41e".to_string(), 8, "s".to_string(), "02ab".to_string());
    assert_eq!(validate_cashu_proof(ok).unwrap(), true);
    let zero = create_cashu_proof("id".to_string(), 0, "s".to_string(), "c".to_string());
    assert_eq!(validate_cashu_proof(zero).unwrap(), false);
    let no_secret = create_cashu_proof("id".to_string(), 1, "".to_string(), "c".to_string());
    let e = validate_cashu_proof(no_secret).unwrap_err();
    assert_eq!(e.kind, ecash_wallet::error::ErrorKind::InvalidInput);
}
