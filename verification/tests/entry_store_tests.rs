use entry_store::Address;
use entry_store::AgentId;
use entry_store::EntryStore;
use entry_store::MetadataEvent;
use entry_store::Record;
use entry_store::StoreError;
use entry_store::content_address;

fn test_record() -> Record {
    Record::new(b"test".to_vec())
}

const TEST_ADDRESS: [u8; 32] = [
    216, 141, 61, 52, 234, 20, 55, 6, 50, 6, 238, 163, 127, 235, 89, 247, 104, 249, 96, 194, 8,
    62, 182, 196, 71, 167, 178, 167, 220, 1, 139, 189,
];

const EMPTY_ADDRESS: [u8; 32] = [
    68, 123, 251, 127, 152, 230, 21, 74, 181, 212, 69, 119, 76, 128, 86, 15, 132, 113, 83, 144,
    69, 81, 142, 108, 245, 201, 157, 135, 248, 235, 207, 49,
];

#[test]
fn put_returns_expected_address_for_test_record() {
    let mut store = EntryStore::new();
    let address = store.put(&test_record()).unwrap();
    assert_eq!(address.bytes().as_slice(), &TEST_ADDRESS[..]);
    let derived = content_address(&test_record()).unwrap();
    assert_eq!(address, derived);
}

#[test]
fn empty_record_has_expected_address() {
    let mut store = EntryStore::new();
    let address = store.put(&Record::new(Vec::new())).unwrap();
    assert_eq!(address.bytes().as_slice(), &EMPTY_ADDRESS[..]);
}

#[test]
fn put_address_is_well_formed() {
    let mut store = EntryStore::new();
    let address = store.put(&test_record()).unwrap();
    assert_eq!(address.bytes().len(), 32);
    assert!(address.is_well_formed());
}

#[test]
fn put_twice_is_idempotent() {
    let mut store = EntryStore::new();
    let first = store.put(&test_record()).unwrap();
    let second = store.put(&test_record()).unwrap();
    assert_eq!(first, second);
    assert_eq!(store.entry_count(), 1);
    let stored = store.get(&first).unwrap().unwrap();
    assert_eq!(stored, test_record());
}

#[test]
fn equal_content_means_equal_address() {
    let left = content_address(&Record::new(b"same".to_vec())).unwrap();
    let right = content_address(&Record::new(b"same".to_vec())).unwrap();
    assert_eq!(left, right);
}

#[test]
fn distinct_content_gets_distinct_addresses() {
    let mut store = EntryStore::new();
    let first = store.put(&Record::new(b"one".to_vec())).unwrap();
    let second = store.put(&Record::new(b"two".to_vec())).unwrap();
    assert_ne!(first, second);
    assert_eq!(store.entry_count(), 2);
}

#[test]
fn repeated_puts_converge_to_one_entry() {
    let mut store = EntryStore::new();
    let mut addresses = Vec::new();
    for _ in 0..5 {
        addresses.push(store.put(&test_record()).unwrap());
    }
    for address in &addresses {
        assert_eq!(address, &addresses[0]);
    }
    assert_eq!(store.entry_count(), 1);
}

#[test]
fn fresh_put_has_no_metadata() {
    let mut store = EntryStore::new();
    let address = store.put(&test_record()).unwrap();
    let metadata = store.get_metadata(&address).unwrap();
    assert!(metadata.is_none());
}

#[test]
fn unknown_address_has_no_metadata() {
    let store = EntryStore::new();
    let address = Address::from_bytes(vec![7u8; 32]);
    let metadata = store.get_metadata(&address).unwrap();
    assert!(metadata.is_none());
}

#[test]
fn malformed_address_rejected_by_get_metadata() {
    let store = EntryStore::new();
    let short = Address::from_bytes(vec![1u8, 2u8, 3u8]);
    assert!(matches!(store.get_metadata(&short), Err(StoreError::InvalidAddressError)));
    let long = Address::from_bytes(vec![0u8; 33]);
    assert!(matches!(store.get_metadata(&long), Err(StoreError::InvalidAddressError)));
    let empty = Address::from_bytes(Vec::new());
    assert!(matches!(store.get_metadata(&empty), Err(StoreError::InvalidAddressError)));
}

#[test]
fn malformed_address_rejected_by_get() {
    let store = EntryStore::new();
    let short = Address::from_bytes(vec![9u8; 31]);
    assert_eq!(store.get(&short), Err(StoreError::InvalidAddressError));
}

#[test]
fn malformed_address_rejected_by_delete() {
    let mut store = EntryStore::new();
    let short = Address::from_bytes(vec![9u8; 5]);
    assert_eq!(store.delete(&short), Err(StoreError::InvalidAddressError));
}

#[test]
fn whoami_before_init_is_uninitialized_error() {
    let store = EntryStore::new();
    assert_eq!(store.whoami(), Err(StoreError::UninitializedError));
}

#[test]
fn whoami_is_stable_across_calls() {
    let mut store = EntryStore::new();
    assert!(store.init_identity(AgentId::new(b"agent-key".to_vec())));
    let first = store.whoami().unwrap();
    let second = store.whoami().unwrap();
    assert_eq!(first, second);
    assert_eq!(first.key().as_slice(), &b"agent-key"[..]);
}

#[test]
fn identity_is_established_once() {
    let mut store = EntryStore::new();
    assert!(store.init_identity(AgentId::new(b"first".to_vec())));
    assert!(!store.init_identity(AgentId::new(b"second".to_vec())));
    let identity = store.whoami().unwrap();
    assert_eq!(identity.key().as_slice(), &b"first"[..]);
}

#[test]
fn oversized_content_is_encoding_error() {
    let mut store = EntryStore::new();
    let record = Record::new(vec![0u8; 65536]);
    assert_eq!(store.put(&record), Err(StoreError::EncodingError));
    assert_eq!(store.entry_count(), 0);
    assert_eq!(content_address(&record), Err(StoreError::EncodingError));
}

#[test]
fn largest_content_is_accepted() {
    let mut store = EntryStore::new();
    let record = Record::new(vec![0u8; 65535]);
    let address = store.put(&record).unwrap();
    assert!(address.is_well_formed());
    assert_eq!(store.entry_count(), 1);
}

#[test]
fn update_appends_history_and_stores_successor() {
    let mut store = EntryStore::new();
    let old_address = store.put(&Record::new(b"v1".to_vec())).unwrap();
    let successor = Record::new(b"v2".to_vec());
    let new_address = store.update(&old_address, &successor).unwrap();
    assert_eq!(new_address, content_address(&successor).unwrap());
    assert_eq!(store.entry_count(), 2);
    let stored = store.get(&new_address).unwrap().unwrap();
    assert_eq!(stored, successor);
    let metadata = store.get_metadata(&old_address).unwrap().unwrap();
    assert_eq!(metadata.events().len(), 1);
    match &metadata.events()[0] {
        MetadataEvent::Update(target) => assert_eq!(target, &new_address),
        _ => panic!("expected an update event"),
    }
    assert!(store.get_metadata(&new_address).unwrap().is_none());
}

#[test]
fn update_of_unknown_address_fails() {
    let mut store = EntryStore::new();
    let unknown = Address::from_bytes(vec![7u8; 32]);
    let record = Record::new(b"v2".to_vec());
    assert_eq!(store.update(&unknown, &record), Err(StoreError::UnknownAddressError));
    assert_eq!(store.entry_count(), 0);
}

#[test]
fn update_with_malformed_address_fails() {
    let mut store = EntryStore::new();
    let malformed = Address::from_bytes(vec![7u8; 2]);
    let record = Record::new(b"v2".to_vec());
    assert_eq!(store.update(&malformed, &record), Err(StoreError::InvalidAddressError));
}

#[test]
fn update_with_oversized_record_fails() {
    let mut store = EntryStore::new();
    let address = store.put(&test_record()).unwrap();
    let oversized = Record::new(vec![0u8; 65536]);
    assert_eq!(store.update(&address, &oversized), Err(StoreError::EncodingError));
    assert_eq!(store.entry_count(), 1);
    assert!(store.get_metadata(&address).unwrap().is_none());
}

#[test]
fn update_with_identical_content_points_at_itself() {
    let mut store = EntryStore::new();
    let address = store.put(&test_record()).unwrap();
    let returned = store.update(&address, &test_record()).unwrap();
    assert_eq!(returned, address);
    assert_eq!(store.entry_count(), 1);
    let metadata = store.get_metadata(&address).unwrap().unwrap();
    assert_eq!(metadata.events().len(), 1);
    match &metadata.events()[0] {
        MetadataEvent::Update(target) => assert_eq!(target, &address),
        _ => panic!("expected an update event"),
    }
}

#[test]
fn delete_appends_tombstone_and_keeps_record() {
    let mut store = EntryStore::new();
    let address = store.put(&test_record()).unwrap();
    store.delete(&address).unwrap();
    let stored = store.get(&address).unwrap();
    assert_eq!(stored, Some(test_record()));
    let metadata = store.get_metadata(&address).unwrap().unwrap();
    assert_eq!(metadata.events().len(), 1);
    assert!(matches!(metadata.events()[0], MetadataEvent::Delete));
    store.delete(&address).unwrap();
    let metadata = store.get_metadata(&address).unwrap().unwrap();
    assert_eq!(metadata.events().len(), 2);
}

#[test]
fn delete_of_unknown_address_fails() {
    let mut store = EntryStore::new();
    let unknown = Address::from_bytes(vec![3u8; 32]);
    assert_eq!(store.delete(&unknown), Err(StoreError::UnknownAddressError));
}

#[test]
fn validation_status_is_recorded() {
    let mut store = EntryStore::new();
    let address = store.put(&test_record()).unwrap();
    store.set_validation_status(&address, true).unwrap();
    let metadata = store.get_metadata(&address).unwrap().unwrap();
    assert_eq!(metadata.events().len(), 1);
    match metadata.events()[0] {
        MetadataEvent::ValidationStatus(valid) => assert!(valid),
        _ => panic!("expected a validation-status event"),
    }
}

#[test]
fn history_keeps_event_order() {
    let mut store = EntryStore::new();
    let address = store.put(&test_record()).unwrap();
    store.delete(&address).unwrap();
    store.set_validation_status(&address, false).unwrap();
    let new_address = store.update(&address, &Record::new(b"v2".to_vec())).unwrap();
    let metadata = store.get_metadata(&address).unwrap().unwrap();
    assert_eq!(metadata.events().len(), 3);
    assert!(matches!(metadata.events()[0], MetadataEvent::Delete));
    match metadata.events()[1] {
        MetadataEvent::ValidationStatus(valid) => assert!(!valid),
        _ => panic!("expected a validation-status event"),
    }
    match &metadata.events()[2] {
        MetadataEvent::Update(target) => assert_eq!(target, &new_address),
        _ => panic!("expected an update event"),
    }
}

#[test]
fn get_of_unknown_address_is_none() {
    let store = EntryStore::new();
    let unknown = Address::from_bytes(vec![5u8; 32]);
    assert_eq!(store.get(&unknown), Ok(None));
}

#[test]
fn operations_leave_identity_alone() {
    let mut store = EntryStore::new();
    assert!(store.init_identity(AgentId::new(b"writer".to_vec())));
    let address = store.put(&test_record()).unwrap();
    store.delete(&address).unwrap();
    store.update(&address, &Record::new(b"v2".to_vec())).unwrap();
    let identity = store.whoami().unwrap();
    assert_eq!(identity.key().as_slice(), &b"writer"[..]);
}
