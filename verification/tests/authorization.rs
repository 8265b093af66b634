use activity_service::authorization::{
    check_authorization, check_shape, encode_claim, verify_signature, VALIDITY_WINDOW,
};
use activity_service::errors::ErrorCode;
use activity_service::whitelist::Whitelist;
use ed25519_dalek::{Signer, SigningKey};

const AUTHORITY: [u8; 32] = [1u8; 32];

// The public key of the signing key with seed [42; 32].
const SIGNER: [u8; 32] = [
    25, 127, 107, 35, 225, 108, 133, 50, 198, 171, 200, 56, 250, 205, 94, 167, 137, 190, 12, 118,
    178, 146, 3, 52, 3, 155, 250, 139, 61, 54, 141, 97,
];

const ISSUED: i64 = 1_700_000_000;

// The signature of SIGNER over the bundle ([10], ["A"], ISSUED).
const SIGNATURE_OF_A: [u8; 64] = [
    203, 104, 67, 50, 13, 198, 17, 85, 78, 62, 142, 226, 83, 47, 103, 118, 244, 193, 180, 12, 38,
    232, 153, 173, 37, 52, 206, 93, 20, 184, 217, 229, 50, 229, 126, 217, 172, 168, 10, 148, 147,
    95, 137, 195, 85, 196, 143, 20, 195, 104, 88, 140, 198, 242, 248, 114, 85, 90, 27, 147, 118, 0,
    18, 12,
];

fn enabled() -> Whitelist {
    Whitelist { authority: AUTHORITY, signer: SIGNER, is_whitelisted: true }
}

fn ids(names: &[&str]) -> Vec<String> {
    names.iter().map(|name| name.to_string()).collect()
}

fn authorize(
    entry: &Whitelist,
    timestamp: i64,
    now: i64,
    signature_valid: bool,
) -> Result<(), ErrorCode> {
    check_authorization(entry, &SIGNER, &vec![10], &ids(&["A"]), timestamp, now, signature_valid)
}

fn verify(
    entry: &Whitelist,
    amounts: &[u64],
    names: &[&str],
    signature: &[u8],
    timestamp: i64,
    now: i64,
) -> Result<(), ErrorCode> {
    verify_signature(
        entry,
        &SIGNER,
        &amounts.to_vec(),
        &ids(names),
        &signature.to_vec(),
        timestamp,
        now,
    )
}

fn sign(seed: u8, amounts: &Vec<u64>, reward_ids: &Vec<String>, timestamp: i64) -> Vec<u8> {
    let key = SigningKey::from_bytes(&[seed; 32]);
    key.sign(&encode_claim(amounts, reward_ids, timestamp)).to_bytes().to_vec()
}

#[test]
fn validity_window_is_one_hour() {
    assert_eq!(VALIDITY_WINDOW, 3600);
}

#[test]
fn claim_message_is_lengths_amounts_names_and_time() {
    assert_eq!(
        encode_claim(&vec![10], &ids(&["A"]), ISSUED),
        vec![
            1, 0, 0, 0, 0, 0, 0, 0, 10, 0, 0, 0, 0, 0, 0, 0, 1, 0, 0, 0, 0, 0, 0, 0, 1, 0, 0, 0, 0,
            0, 0, 0, 65, 0, 241, 83, 101, 0, 0, 0, 0,
        ]
    );
    assert_eq!(
        encode_claim(&vec![10, 20], &ids(&["A", "B"]), ISSUED),
        vec![
            2, 0, 0, 0, 0, 0, 0, 0, 10, 0, 0, 0, 0, 0, 0, 0, 20, 0, 0, 0, 0, 0, 0, 0, 2, 0, 0, 0,
            0, 0, 0, 0, 1, 0, 0, 0, 0, 0, 0, 0, 65, 1, 0, 0, 0, 0, 0, 0, 0, 66, 0, 241, 83, 101, 0,
            0, 0, 0,
        ]
    );
}

#[test]
fn claim_message_counts_utf8_bytes_and_wraps_negative_times() {
    assert_eq!(
        encode_claim(&vec![5], &ids(&["é"]), -1),
        vec![
            1, 0, 0, 0, 0, 0, 0, 0, 5, 0, 0, 0, 0, 0, 0, 0, 1, 0, 0, 0, 0, 0, 0, 0, 2, 0, 0, 0, 0,
            0, 0, 0, 195, 169, 255, 255, 255, 255, 255, 255, 255, 255,
        ]
    );
}

#[test]
fn claim_message_of_an_empty_bundle() {
    assert_eq!(
        encode_claim(&Vec::new(), &Vec::new(), 0),
        vec![0, 0, 0, 0, 0, 0, 0, 0, 0, 0, 0, 0, 0, 0, 0, 0, 0, 0, 0, 0, 0, 0, 0, 0]
    );
}

#[test]
fn claim_message_keeps_large_amounts() {
    assert_eq!(
        encode_claim(&vec![u64::MAX, 0x0102030405060708], &Vec::new(), i64::MIN),
        vec![
            2, 0, 0, 0, 0, 0, 0, 0, 255, 255, 255, 255, 255, 255, 255, 255, 8, 7, 6, 5, 4, 3, 2, 1,
            0, 0, 0, 0, 0, 0, 0, 0, 0, 0, 0, 0, 0, 0, 0, 128,
        ]
    );
}

#[test]
fn shape_of_a_bundle() {
    assert_eq!(check_shape(&vec![1], &ids(&["A"])), Ok(()));
    assert_eq!(check_shape(&vec![1, 2], &ids(&["A"])), Err(ErrorCode::ArrayLengthMismatch));
    assert_eq!(check_shape(&vec![1], &ids(&["A", "B"])), Err(ErrorCode::ArrayLengthMismatch));
    assert_eq!(check_shape(&vec![1], &Vec::new()), Err(ErrorCode::ArrayLengthMismatch));
    assert_eq!(check_shape(&Vec::new(), &Vec::new()), Err(ErrorCode::EmptyParams));
}

#[test]
fn bundle_older_than_the_window_is_expired() {
    let now = ISSUED + 3601;
    assert_eq!(
        authorize(&enabled(), ISSUED, now, true),
        Err(ErrorCode::SignatureExpired)
    );
    assert_eq!(
        authorize(&enabled(), now - 3601, now, true),
        Err(ErrorCode::SignatureExpired)
    );
}

#[test]
fn bundle_at_the_end_of_the_window_is_accepted() {
    assert_eq!(authorize(&enabled(), ISSUED, ISSUED + 3600, true), Ok(()));
    assert_eq!(authorize(&enabled(), ISSUED, ISSUED, true), Ok(()));
}

#[test]
fn bundle_dated_in_the_future_is_accepted() {
    assert_eq!(authorize(&enabled(), ISSUED + 1_000_000, ISSUED, true), Ok(()));
    assert_eq!(authorize(&enabled(), i64::MAX, ISSUED, true), Ok(()));
    assert_eq!(authorize(&enabled(), i64::MAX - 3599, i64::MAX, true), Ok(()));
}

#[test]
fn window_at_the_ends_of_time() {
    assert_eq!(
        authorize(&enabled(), i64::MIN, i64::MIN + 3600, true),
        Ok(())
    );
    assert_eq!(
        authorize(&enabled(), i64::MIN, i64::MIN + 3601, true),
        Err(ErrorCode::SignatureExpired)
    );
    assert_eq!(
        authorize(&enabled(), i64::MAX - 3601, i64::MAX, true),
        Err(ErrorCode::SignatureExpired)
    );
}

#[test]
fn disabled_signer_is_refused_whatever_the_signature() {
    let disabled = Whitelist { authority: AUTHORITY, signer: SIGNER, is_whitelisted: false };
    assert_eq!(
        authorize(&disabled, ISSUED, ISSUED, true),
        Err(ErrorCode::SignerNotInWhitelist)
    );
    assert_eq!(
        authorize(&disabled, ISSUED, ISSUED, false),
        Err(ErrorCode::SignerNotInWhitelist)
    );
}

#[test]
fn signer_without_an_entry_is_refused_whatever_the_signature() {
    let of_another = Whitelist { authority: AUTHORITY, signer: [3u8; 32], is_whitelisted: true };
    assert_eq!(
        authorize(&of_another, ISSUED, ISSUED, true),
        Err(ErrorCode::SignerNotInWhitelist)
    );
    assert_eq!(
        authorize(&of_another, ISSUED, ISSUED, false),
        Err(ErrorCode::SignerNotInWhitelist)
    );
}

#[test]
fn expiry_is_checked_before_the_whitelist_and_the_signature() {
    let disabled = Whitelist { authority: AUTHORITY, signer: SIGNER, is_whitelisted: false };
    assert_eq!(
        authorize(&disabled, ISSUED, ISSUED + 3601, false),
        Err(ErrorCode::SignatureExpired)
    );
}

#[test]
fn shape_is_checked_before_expiry() {
    let disabled = Whitelist { authority: AUTHORITY, signer: SIGNER, is_whitelisted: false };
    let late = ISSUED + 3601;
    assert_eq!(
        check_authorization(&disabled, &SIGNER, &vec![1, 2], &ids(&["A"]), ISSUED, late, false),
        Err(ErrorCode::ArrayLengthMismatch)
    );
    assert_eq!(
        check_authorization(&disabled, &SIGNER, &Vec::new(), &Vec::new(), ISSUED, late, false),
        Err(ErrorCode::EmptyParams)
    );
    assert_eq!(
        verify(&enabled(), &[1, 2], &["A"], &[], ISSUED, ISSUED),
        Err(ErrorCode::ArrayLengthMismatch)
    );
    assert_eq!(verify(&enabled(), &[], &[], &[], ISSUED, ISSUED), Err(ErrorCode::EmptyParams));
}

#[test]
fn invalid_signature_is_refused() {
    assert_eq!(
        authorize(&enabled(), ISSUED, ISSUED, false),
        Err(ErrorCode::InvalidSignature)
    );
}

#[test]
fn known_signature_is_accepted() {
    assert_eq!(
        verify_signature(
            &enabled(),
            &SIGNER,
            &vec![10],
            &ids(&["A"]),
            &SIGNATURE_OF_A.to_vec(),
            ISSUED,
            ISSUED + 60,
        ),
        Ok(())
    );
}

#[test]
fn signing_key_matches_the_known_vector() {
    assert_eq!(SigningKey::from_bytes(&[42u8; 32]).verifying_key().to_bytes(), SIGNER);
    assert_eq!(sign(42, &vec![10], &ids(&["A"]), ISSUED), SIGNATURE_OF_A.to_vec());
}

#[test]
fn signature_over_another_bundle_is_refused() {
    let signature = SIGNATURE_OF_A.to_vec();
    let now = ISSUED + 60;
    assert_eq!(
        verify_signature(&enabled(), &SIGNER, &vec![11], &ids(&["A"]), &signature, ISSUED, now),
        Err(ErrorCode::InvalidSignature)
    );
    assert_eq!(
        verify_signature(&enabled(), &SIGNER, &vec![10], &ids(&["B"]), &signature, ISSUED, now),
        Err(ErrorCode::InvalidSignature)
    );
    assert_eq!(
        verify_signature(&enabled(), &SIGNER, &vec![10], &ids(&["A"]), &signature, ISSUED + 1, now),
        Err(ErrorCode::InvalidSignature)
    );
}

#[test]
fn tampered_or_truncated_signature_is_refused() {
    let now = ISSUED + 60;
    let mut tampered = SIGNATURE_OF_A.to_vec();
    tampered[5] ^= 1;
    assert_eq!(
        verify_signature(&enabled(), &SIGNER, &vec![10], &ids(&["A"]), &tampered, ISSUED, now),
        Err(ErrorCode::InvalidSignature)
    );
    let short = SIGNATURE_OF_A[..63].to_vec();
    assert_eq!(
        verify_signature(&enabled(), &SIGNER, &vec![10], &ids(&["A"]), &short, ISSUED, now),
        Err(ErrorCode::InvalidSignature)
    );
    assert_eq!(
        verify_signature(&enabled(), &SIGNER, &vec![10], &ids(&["A"]), &Vec::new(), ISSUED, now),
        Err(ErrorCode::InvalidSignature)
    );
    assert_eq!(
        verify_signature(&enabled(), &SIGNER, &vec![10], &ids(&["A"]), &vec![0u8; 64], ISSUED, now),
        Err(ErrorCode::InvalidSignature)
    );
}

#[test]
fn signature_of_another_key_is_refused() {
    let amounts = vec![10];
    let names = ids(&["A"]);
    let forged = sign(43, &amounts, &names, ISSUED);
    assert_eq!(
        verify_signature(&enabled(), &SIGNER, &amounts, &names, &forged, ISSUED, ISSUED),
        Err(ErrorCode::InvalidSignature)
    );
}

#[test]
fn identity_that_is_no_public_key_is_refused() {
    // y = 2 is the y-coordinate of no point of the curve.
    let mut no_key = [0u8; 32];
    no_key[0] = 2;
    let entry = Whitelist { authority: AUTHORITY, signer: no_key, is_whitelisted: true };
    assert_eq!(
        verify_signature(
            &entry,
            &no_key,
            &vec![10],
            &ids(&["A"]),
            &SIGNATURE_OF_A.to_vec(),
            ISSUED,
            ISSUED,
        ),
        Err(ErrorCode::InvalidSignature)
    );
}

#[test]
fn expired_bundle_with_a_valid_signature_is_expired() {
    assert_eq!(
        verify_signature(
            &enabled(),
            &SIGNER,
            &vec![10],
            &ids(&["A"]),
            &SIGNATURE_OF_A.to_vec(),
            ISSUED,
            ISSUED + 3601,
        ),
        Err(ErrorCode::SignatureExpired)
    );
}

#[test]
fn valid_signature_of_a_signer_not_whitelisted_is_refused() {
    let disabled = Whitelist { authority: AUTHORITY, signer: SIGNER, is_whitelisted: false };
    let of_another = Whitelist { authority: AUTHORITY, signer: [3u8; 32], is_whitelisted: true };
    for entry in [disabled, of_another] {
        assert_eq!(
            verify_signature(
                &entry,
                &SIGNER,
                &vec![10],
                &ids(&["A"]),
                &SIGNATURE_OF_A.to_vec(),
                ISSUED,
                ISSUED,
            ),
            Err(ErrorCode::SignerNotInWhitelist)
        );
    }
}

#[test]
fn signatures_over_larger_bundles_verify() {
    let amounts = vec![10, 20, 0, u64::MAX];
    let names = ids(&["A", "B", "", "récompense-1"]);
    let signature = sign(42, &amounts, &names, -5);
    assert_eq!(
        verify_signature(&enabled(), &SIGNER, &amounts, &names, &signature, -5, 100),
        Ok(())
    );
    let swapped = ids(&["B", "A", "", "récompense-1"]);
    assert_eq!(
        verify_signature(&enabled(), &SIGNER, &amounts, &swapped, &signature, -5, 100),
        Err(ErrorCode::InvalidSignature)
    );
}
