use kanban::csrf::{generate_secret, mask, mask_with, verify};

#[test]
fn generate_secret_generates_random_secret() {
    let secret = generate_secret();

    assert_eq!(32, secret.len());
}

#[test]
fn mask_will_mask_a_random_value_with_provided_secret() {
    let secret = generate_secret();

    let masked_secret_value = mask(&secret);

    assert_eq!(129, masked_secret_value.len());
}

#[test]
fn verify_can_verify_valid_token() {
    let secret = generate_secret();
    let token = mask(&secret);

    let verify_result = verify(&token, &secret);

    assert!(verify_result);
}

#[test]
fn verify_can_invalidate_bad_token() {
    let test_token = mask(&generate_secret());

    // Generated a new secret which should cause validation to fail.
    let invalid_result = verify(&test_token, &generate_secret());

    assert!(!invalid_result);
}

#[test]
fn verify_can_invalidate_malformed_token() {
    let test_token = "not-a-valid-token-at-all".to_string();

    let invalid_result = verify(&test_token, &generate_secret());

    assert!(!invalid_result);
}

#[test]
fn verify_can_invalidate_wellformed_but_invalid_token() {
    let test_token = "00:00".to_string();

    let invalid_result = verify(&test_token, &generate_secret());

    assert!(!invalid_result);
}

#[test]
fn mask_with_writes_mask_then_masked_secret_in_hex() {
    let mut secret = [0u8; 32];
    let mut m = [0u8; 32];
    secret[0] = 0x0f;
    m[0] = 0xf0;
    m[31] = 0x01;

    let token = mask_with(&secret, &m);

    let expected = format!("{}:{}", hex::encode(m), hex::encode({
        let mut x = [0u8; 32];
        for i in 0..32 {
            x[i] = m[i] ^ secret[i];
        }
        x
    }));
    assert_eq!(expected, token);
    assert!(token.starts_with("f0000000"));
    assert!(token[65..].starts_with("ff000000"));
}

#[test]
fn verify_accepts_upper_case_hex() {
    let secret = generate_secret();
    let token = mask(&secret).to_uppercase();

    assert!(verify(&token, &secret));
}

#[test]
fn verify_refuses_a_token_with_a_third_part() {
    let secret = generate_secret();
    let mut token = mask(&secret);
    token.replace_range(10..11, ":");

    assert!(!verify(&token, &secret));
}

#[test]
fn verify_treats_non_hex_halves_as_zero_bytes() {
    let junk = format!("{}:{}", "z".repeat(64), "z".repeat(64));

    assert!(verify(&junk, &[0u8; 32]));
    let mut secret = [0u8; 32];
    secret[3] = 1;
    assert!(!verify(&junk, &secret));
}

#[test]
fn verify_counts_bytes_not_characters() {
    let secret = generate_secret();
    let token = mask(&secret);
    let wide = format!("{}é{}", &token[..63], &token[64..]);

    assert_eq!(129, wide.chars().count());
    assert!(!verify(&wide, &secret));
}
