use grainstore::sheaf::{ChainType, PublicAddress, SheafRegistry, KAE3G_SHEAF_POSITION,
    SHEAF_COUNT};

fn addr(chain: ChainType, address: &str, sheaf_position: u64, timestamp: u64) -> PublicAddress {
    PublicAddress {
        chain,
        address: address.to_string(),
        sheaf_position,
        timestamp,
        grainpath: format!("grainpath-{}", address),
    }
}

#[test]
fn add_public_address_accepts_valid_positions() {
    let mut reg = SheafRegistry::new();
    let r = reg.add_public_address(
        ChainType::ICP,
        "aaaaa-aa".to_string(),
        1,
        "g/one".to_string(),
        100,
    );
    assert_eq!(r, Ok(1));
    let r = reg.add_public_address(
        ChainType::Solana,
        "So1anaAddr".to_string(),
        SHEAF_COUNT,
        "g/two".to_string(),
        200,
    );
    assert_eq!(r, Ok(2));
    let all = reg.get_all_sheaf_addresses();
    assert_eq!(all.len(), 2);
    assert_eq!(all[0].address, "aaaaa-aa");
    assert_eq!(all[0].sheaf_position, 1);
    assert_eq!(all[0].timestamp, 100);
    assert_eq!(all[1].sheaf_position, 88);
}

#[test]
fn add_public_address_rejects_out_of_range_positions() {
    let mut reg = SheafRegistry::new();
    let r = reg.add_public_address(ChainType::ICP, "x".to_string(), 0, "g".to_string(), 1);
    assert_eq!(r, Err("Sheaf position must be between 1 and 88".to_string()));
    let r = reg.add_public_address(ChainType::ICP, "x".to_string(), 89, "g".to_string(), 1);
    assert_eq!(r, Err("Sheaf position must be between 1 and 88".to_string()));
    assert_eq!(reg.get_all_sheaf_addresses().len(), 0);
    let meta = reg.get_88_counter_metadata();
    assert_eq!(meta.total_addresses, 0);
}

#[test]
fn batch_add_addresses_is_atomic() {
    let mut reg = SheafRegistry::new();
    let batch = vec![
        addr(ChainType::ICP, "good", 5, 10),
        addr(ChainType::Hedera, "bad", 89, 11),
    ];
    let r = reg.batch_add_addresses(batch);
    assert_eq!(r, Err("All sheaf positions must be between 1 and 88".to_string()));
    assert_eq!(reg.get_all_sheaf_addresses().len(), 0);

    let batch = vec![
        addr(ChainType::ICP, "one", 1, 10),
        addr(ChainType::Hedera, "two", 88, 11),
    ];
    let r = reg.batch_add_addresses(batch);
    assert_eq!(r, Ok(2));
    let all = reg.get_all_sheaf_addresses();
    assert_eq!(all.len(), 2);
    assert_eq!(all[0].address, "one");
    assert_eq!(all[1].address, "two");
}

#[test]
fn batch_add_addresses_rejects_zero_position() {
    let mut reg = SheafRegistry::new();
    let r = reg.batch_add_addresses(vec![addr(ChainType::ICP, "z", 0, 1)]);
    assert_eq!(r, Err("All sheaf positions must be between 1 and 88".to_string()));
    assert_eq!(reg.get_session_count(), 0);
    assert_eq!(reg.get_all_sheaf_addresses().len(), 0);
}

#[test]
fn create_session_numbers_sessions_consecutively() {
    let mut reg = SheafRegistry::new();
    assert_eq!(reg.create_session("g/a".to_string(), Vec::new(), 10), 1);
    assert_eq!(reg.create_session("g/b".to_string(), Vec::new(), 20), 2);
    assert_eq!(reg.create_session("g/c".to_string(), Vec::new(), 30), 3);
    assert_eq!(reg.get_session_count(), 3);
    let all = reg.get_all_sessions();
    assert_eq!(all.len(), 3);
    for (i, s) in all.iter().enumerate() {
        assert_eq!(s.session_number, i as u64 + 1);
    }
}

#[test]
fn create_session_numbering_survives_address_interleaving() {
    let mut reg = SheafRegistry::new();
    assert_eq!(reg.create_session("g/a".to_string(), Vec::new(), 10), 1);
    reg.add_public_address(ChainType::ICP, "x".to_string(), 3, "g".to_string(), 15)
        .unwrap();
    assert_eq!(reg.create_session("g/b".to_string(), Vec::new(), 20), 2);
    reg.batch_add_addresses(vec![addr(ChainType::Solana, "y", 7, 25)]).unwrap();
    assert_eq!(reg.create_session("g/c".to_string(), Vec::new(), 30), 3);
    assert_eq!(reg.get_session_count(), 3);
}

#[test]
fn get_session_returns_the_kth_session_and_only_it() {
    let mut reg = SheafRegistry::new();
    reg.create_session("g/first".to_string(), Vec::new(), 10);
    reg.create_session("g/second".to_string(), vec![addr(ChainType::ICP, "a", 2, 5)], 20);
    let s = reg.get_session(2).unwrap();
    assert_eq!(s.session_number, 2);
    assert_eq!(s.grainpath, "g/second");
    assert_eq!(s.timestamp, 20);
    assert_eq!(s.addresses.len(), 1);
    assert_eq!(s.addresses[0].address, "a");
    let s = reg.get_session(1).unwrap();
    assert_eq!(s.session_number, 1);
    assert_eq!(s.grainpath, "g/first");
    assert!(reg.get_session(0).is_none());
    assert!(reg.get_session(3).is_none());
}

#[test]
fn get_addresses_by_chain_filters_in_insertion_order() {
    let mut reg = SheafRegistry::new();
    reg.batch_add_addresses(vec![
        addr(ChainType::ICP, "icp-1", 1, 10),
        addr(ChainType::Hedera, "hed-1", 2, 11),
        addr(ChainType::ICP, "icp-2", 3, 12),
        addr(ChainType::Solana, "sol-1", 4, 13),
    ])
    .unwrap();
    let icp = reg.get_addresses_by_chain(ChainType::ICP);
    assert_eq!(icp.len(), 2);
    assert_eq!(icp[0].address, "icp-1");
    assert_eq!(icp[1].address, "icp-2");
    let hedera = reg.get_addresses_by_chain(ChainType::Hedera);
    assert_eq!(hedera.len(), 1);
    assert_eq!(hedera[0].address, "hed-1");
    assert_eq!(reg.get_addresses_by_chain(ChainType::Solana).len(), 1);
}

#[test]
fn get_addresses_by_sheaf_position_filters_exact_matches() {
    let mut reg = SheafRegistry::new();
    reg.batch_add_addresses(vec![
        addr(ChainType::ICP, "a", 7, 10),
        addr(ChainType::Hedera, "b", 8, 11),
        addr(ChainType::Solana, "c", 7, 12),
    ])
    .unwrap();
    let at7 = reg.get_addresses_by_sheaf_position(7);
    assert_eq!(at7.len(), 2);
    assert_eq!(at7[0].address, "a");
    assert_eq!(at7[1].address, "c");
    assert_eq!(reg.get_addresses_by_sheaf_position(8).len(), 1);
    assert_eq!(reg.get_addresses_by_sheaf_position(9).len(), 0);
}

#[test]
fn counter_metadata_reports_fixed_slots_whatever_the_state() {
    let mut reg = SheafRegistry::new();
    let meta = reg.get_88_counter_metadata();
    assert_eq!(meta.sheaf_count, 88);
    assert_eq!(meta.kae3g_position, 1);
    assert_eq!(meta.total_addresses, 0);
    assert_eq!(meta.total_sessions, 0);
    assert_eq!(
        meta.philosophy,
        "88 × 10^n >= 0 | -1, now == next + 1, kae3g sheaf (1-of-88)"
    );

    reg.add_public_address(ChainType::ICP, "x".to_string(), 44, "g".to_string(), 1)
        .unwrap();
    reg.create_session("g/s".to_string(), Vec::new(), 2);
    let meta = reg.get_88_counter_metadata();
    assert_eq!(meta.sheaf_count, SHEAF_COUNT);
    assert_eq!(meta.kae3g_position, KAE3G_SHEAF_POSITION);
    assert_eq!(meta.total_addresses, 1);
    assert_eq!(meta.total_sessions, 1);
}
