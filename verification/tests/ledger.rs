use contract_harness::ledger::{Account, Ledger};
use contract_harness::words::{Address, Word};

fn address_of(first: u8) -> Address {
    let mut bytes = [0u8; 20];
    bytes[0] = first;
    Address { bytes }
}

fn word_of(last: u8) -> Word {
    let mut bytes = [0u8; 32];
    bytes[31] = last;
    Word { bytes }
}

#[test]
fn absent_address_reads_as_zero_account() {
    let ledger = Ledger::new();
    let account = ledger.get(&address_of(1));
    assert_eq!(account.nonce, 0);
    assert_eq!(account.balance.bytes, [0u8; 32]);
    assert!(account.code.is_empty());
    assert!(account.storage.is_empty());
    assert!(!ledger.contains(&address_of(1)));
    assert_eq!(ledger.len(), 0);
}

#[test]
fn deploy_then_get() {
    let mut ledger = Ledger::new();
    ledger.deploy(address_of(1), vec![0x60, 0x00], word_of(7), 1);
    let account = ledger.get(&address_of(1));
    assert_eq!(account.nonce, 1);
    assert_eq!(account.balance.bytes, word_of(7).bytes);
    assert_eq!(account.code, vec![0x60, 0x00]);
    assert!(ledger.contains(&address_of(1)));
    assert_eq!(ledger.len(), 1);
}

#[test]
fn redeploy_replaces_account_and_keeps_others() {
    let mut ledger = Ledger::new();
    let mut first = Account::new(3, word_of(9), vec![1, 2, 3]);
    first.store(word_of(0), word_of(0x55));
    ledger.put(address_of(1), first);
    ledger.deploy(address_of(2), vec![4, 5], word_of(8), 2);
    assert_eq!(ledger.get(&address_of(1)).storage_at(&word_of(0)).bytes, word_of(0x55).bytes);

    ledger.deploy(address_of(1), vec![9], word_of(1), 0);

    let replaced = ledger.get(&address_of(1));
    assert_eq!(replaced.nonce, 0);
    assert_eq!(replaced.balance.bytes, word_of(1).bytes);
    assert_eq!(replaced.code, vec![9]);
    assert!(replaced.storage.is_empty());
    assert_eq!(replaced.storage_at(&word_of(0)).bytes, [0u8; 32]);
    let other = ledger.get(&address_of(2));
    assert_eq!(other.nonce, 2);
    assert_eq!(other.balance.bytes, word_of(8).bytes);
    assert_eq!(other.code, vec![4, 5]);
    assert_eq!(ledger.len(), 2);
}

#[test]
fn later_store_wins() {
    let mut account = Account::empty();
    account.store(word_of(1), word_of(10));
    account.store(word_of(2), word_of(20));
    account.store(word_of(1), word_of(11));
    assert_eq!(account.storage_at(&word_of(1)).bytes, word_of(11).bytes);
    assert_eq!(account.storage_at(&word_of(2)).bytes, word_of(20).bytes);
    assert_eq!(account.storage_at(&word_of(3)).bytes, [0u8; 32]);
}

#[test]
fn addresses_and_words_compare_by_bytes() {
    assert!(address_of(1).same(&address_of(1)));
    assert!(!address_of(1).same(&address_of(2)));
    assert!(Address::zero().same(&address_of(0)));
    assert!(word_of(1).same(&word_of(1)));
    assert!(!word_of(1).same(&Word::zero()));
}
