use activity_service::balance::ProjectBalance;
use activity_service::claim_record::ClaimRecord;
use activity_service::store::Store;
use activity_service::whitelist::Whitelist;

const AUTHORITY: [u8; 32] = [1u8; 32];

fn entry(signer: u8, is_whitelisted: bool) -> Whitelist {
    Whitelist { authority: AUTHORITY, signer: [signer; 32], is_whitelisted }
}

#[test]
fn new_store_holds_nothing() {
    let store: Store<Whitelist> = Store::new();
    assert!(store.get(&[5u8; 32]).is_none());
}

#[test]
fn put_then_get_finds_the_record() {
    let mut store: Store<Whitelist> = Store::new();
    store.put(entry(5, true));
    store.put(entry(6, false));
    assert_eq!(store.get(&[5u8; 32]), Some(&entry(5, true)));
    assert_eq!(store.get(&[6u8; 32]), Some(&entry(6, false)));
    assert!(store.get(&[7u8; 32]).is_none());
}

#[test]
fn put_under_a_key_that_is_taken_replaces_the_record() {
    let mut store: Store<Whitelist> = Store::new();
    store.put(entry(5, true));
    store.put(entry(6, true));
    store.put(entry(5, false));
    assert_eq!(store.get(&[5u8; 32]), Some(&entry(5, false)));
    assert_eq!(store.get(&[6u8; 32]), Some(&entry(6, true)));
    store.put(entry(6, false));
    store.put(entry(5, true));
    assert_eq!(store.get(&[5u8; 32]), Some(&entry(5, true)));
    assert_eq!(store.get(&[6u8; 32]), Some(&entry(6, false)));
}

#[test]
fn balances_are_found_by_both_parts_of_their_key() {
    let mut store: Store<ProjectBalance> = Store::new();
    store.put(ProjectBalance { project: [1u8; 32], token_mint: [2u8; 32], balance: 10 });
    store.put(ProjectBalance { project: [1u8; 32], token_mint: [3u8; 32], balance: 20 });
    store.put(ProjectBalance { project: [4u8; 32], token_mint: [2u8; 32], balance: 30 });
    assert_eq!(store.get(&([1u8; 32], [2u8; 32])).map(|record| record.balance), Some(10));
    assert_eq!(store.get(&([1u8; 32], [3u8; 32])).map(|record| record.balance), Some(20));
    assert_eq!(store.get(&([4u8; 32], [2u8; 32])).map(|record| record.balance), Some(30));
    assert!(store.get(&([4u8; 32], [3u8; 32])).is_none());
    assert!(store.get(&([2u8; 32], [1u8; 32])).is_none());
    store.put(ProjectBalance { project: [1u8; 32], token_mint: [3u8; 32], balance: 21 });
    assert_eq!(store.get(&([1u8; 32], [3u8; 32])).map(|record| record.balance), Some(21));
    assert_eq!(store.get(&([1u8; 32], [2u8; 32])).map(|record| record.balance), Some(10));
}

#[test]
fn claim_records_are_found_by_user() {
    let mut store: Store<ClaimRecord> = Store::new();
    let mut first = ClaimRecord::new([9u8; 32]);
    first.mark_claimed([1u8; 32]);
    store.put(first.duplicate());
    store.put(ClaimRecord::new([10u8; 32]));
    assert_eq!(store.get(&[9u8; 32]), Some(&first));
    assert_eq!(store.get(&[10u8; 32]), Some(&ClaimRecord::new([10u8; 32])));
    first.mark_claimed([2u8; 32]);
    store.put(first.duplicate());
    assert_eq!(store.get(&[9u8; 32]).map(|record| record.claimed_rewards.len()), Some(2));
}
