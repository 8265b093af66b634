use activity_service::claim_record::{contains_key, ClaimRecord};
use activity_service::digest::get_user_reward_key;
use activity_service::identity::same_bytes;

const USER: [u8; 32] = [9u8; 32];

const KEY_OF_A: [u8; 32] = [
    41, 193, 5, 159, 52, 160, 77, 186, 254, 16, 16, 98, 152, 48, 67, 231, 96, 45, 15, 91, 221, 138,
    133, 125, 48, 139, 141, 86, 124, 230, 212, 106,
];

const KEY_OF_B: [u8; 32] = [
    73, 5, 113, 122, 63, 54, 38, 138, 193, 133, 70, 213, 129, 33, 251, 152, 187, 203, 93, 74, 83,
    156, 170, 213, 241, 73, 138, 211, 139, 148, 203, 9,
];

#[test]
fn reward_key_is_the_keccak_digest_of_user_and_name() {
    assert_eq!(get_user_reward_key(&USER, "A"), KEY_OF_A);
    assert_eq!(get_user_reward_key(&USER, "B"), KEY_OF_B);
}

#[test]
fn reward_key_of_the_empty_name_is_the_digest_of_the_user() {
    assert_eq!(
        get_user_reward_key(&USER, ""),
        [
            11, 45, 69, 170, 95, 106, 68, 78, 68, 200, 8, 8, 45, 106, 200, 43, 221, 60, 221, 125,
            187, 132, 144, 222, 169, 214, 248, 81, 183, 228, 214, 116,
        ]
    );
}

#[test]
fn reward_key_hashes_the_utf8_bytes_of_the_name() {
    let mut user = [0u8; 32];
    for i in 0..32 {
        user[i] = i as u8;
    }
    assert_eq!(
        get_user_reward_key(&user, "récompense-1"),
        [
            163, 65, 236, 219, 30, 130, 122, 207, 121, 208, 129, 88, 181, 97, 193, 252, 80, 139,
            155, 200, 212, 204, 147, 1, 139, 65, 10, 77, 113, 70, 80, 206,
        ]
    );
}

#[test]
fn reward_key_of_a_name_longer_than_one_block() {
    let name = "x".repeat(200);
    assert_eq!(
        get_user_reward_key(&[7u8; 32], &name),
        [
            131, 221, 41, 192, 213, 207, 116, 117, 237, 93, 38, 130, 37, 26, 67, 224, 37, 152,
            126, 165, 223, 151, 232, 41, 174, 156, 171, 178, 8, 107, 69, 32,
        ]
    );
}

#[test]
fn reward_key_depends_on_the_user_and_on_the_name() {
    assert_ne!(get_user_reward_key(&USER, "A"), get_user_reward_key(&[10u8; 32], "A"));
    assert_ne!(get_user_reward_key(&USER, "A"), get_user_reward_key(&USER, "a"));
    assert_ne!(get_user_reward_key(&USER, "A"), USER);
}

#[test]
fn same_bytes_compares_all_32() {
    let a = [5u8; 32];
    let mut b = [5u8; 32];
    assert!(same_bytes(&a, &b));
    b[31] = 6;
    assert!(!same_bytes(&a, &b));
    b[31] = 5;
    b[0] = 4;
    assert!(!same_bytes(&a, &b));
}

#[test]
fn new_record_has_claimed_nothing() {
    let record = ClaimRecord::new(USER);
    assert_eq!(record.user, USER);
    assert!(record.claimed_rewards.is_empty());
    assert!(!record.is_claimed(KEY_OF_A));
    assert!(!record.has_claimed("A"));
}

#[test]
fn mark_claimed_adds_the_key() {
    let mut record = ClaimRecord::new(USER);
    record.mark_claimed(KEY_OF_A);
    assert!(record.is_claimed(KEY_OF_A));
    assert!(!record.is_claimed(KEY_OF_B));
    record.mark_claimed(KEY_OF_B);
    assert_eq!(record.claimed_rewards, vec![KEY_OF_A, KEY_OF_B]);
}

#[test]
fn mark_claimed_twice_is_mark_claimed_once() {
    let mut once = ClaimRecord::new(USER);
    once.mark_claimed(KEY_OF_B);
    once.mark_claimed(KEY_OF_A);
    let mut twice = once.clone();
    twice.mark_claimed(KEY_OF_A);
    assert_eq!(twice, once);
    twice.mark_claimed(KEY_OF_B);
    assert_eq!(twice, once);
    assert_eq!(twice.claimed_rewards.len(), 2);
}

#[test]
fn rewards_are_remembered_by_name() {
    let mut record = ClaimRecord::new(USER);
    record.mark_reward_claimed("A");
    assert_eq!(record.claimed_rewards, vec![KEY_OF_A]);
    assert!(record.has_claimed("A"));
    assert!(!record.has_claimed("B"));
    record.mark_reward_claimed("A");
    assert_eq!(record.claimed_rewards, vec![KEY_OF_A]);
    assert!(record.is_claimed(KEY_OF_A));
}

#[test]
fn a_reward_claimed_by_one_user_is_open_to_another() {
    let mut record = ClaimRecord::new(USER);
    record.mark_reward_claimed("A");
    let other = ClaimRecord { user: [10u8; 32], claimed_rewards: record.claimed_rewards.clone() };
    assert!(!other.has_claimed("A"));
}

#[test]
fn contains_key_looks_at_every_key() {
    let keys = vec![KEY_OF_A, KEY_OF_B];
    assert!(contains_key(&keys, &KEY_OF_A));
    assert!(contains_key(&keys, &KEY_OF_B));
    assert!(!contains_key(&keys, &USER));
    assert!(!contains_key(&Vec::new(), &KEY_OF_A));
}

#[test]
fn duplicate_has_the_same_user_and_keys() {
    let mut record = ClaimRecord::new(USER);
    record.mark_claimed(KEY_OF_B);
    record.mark_claimed(KEY_OF_A);
    let copy = record.duplicate();
    assert_eq!(copy, record);
    assert_eq!(copy.claimed_rewards, vec![KEY_OF_B, KEY_OF_A]);
    assert_eq!(ClaimRecord::new(USER).duplicate(), ClaimRecord::new(USER));
}
