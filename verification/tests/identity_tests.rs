use grainstore::identity::{generate_unified_id, CreateIdentityArgs, IdentityRegistry,
    IdentityType, VerificationStatus};

fn args(urbit_address: u64, identity_type: IdentityType) -> CreateIdentityArgs {
    CreateIdentityArgs { urbit_address, identity_type }
}

#[test]
fn generate_unified_id_formats_address_and_principal() {
    assert_eq!(generate_unified_id(42, "abc"), "~grainspace-42-abc");
    assert_eq!(generate_unified_id(0, "p"), "~grainspace-0-p");
    assert_eq!(
        generate_unified_id(1234567890, "aaaaa-aa"),
        "~grainspace-1234567890-aaaaa-aa"
    );
}

#[test]
fn create_identity_returns_the_derived_id() {
    let mut reg = IdentityRegistry::new();
    let id = reg
        .create_identity(args(7, IdentityType::Star), "aaaaa-aa".to_string(), 100)
        .unwrap();
    assert_eq!(id, "~grainspace-7-aaaaa-aa");
    let rec = reg.get_identity(id.clone()).unwrap();
    assert_eq!(rec.unified_id, id);
    assert_eq!(rec.icp_principal, "aaaaa-aa");
    assert_eq!(rec.urbit_identity.address, 7);
    assert_eq!(rec.urbit_identity.identity_type, IdentityType::Star);
    assert!(rec.urbit_identity.verified);
    assert_eq!(rec.verification_status, VerificationStatus::Verified);
    assert_eq!(rec.created_at, 100);
    assert_eq!(rec.last_sync, 100);
    assert!(rec.social_connections.is_empty());
    assert!(rec.platform_access.is_empty());
}

#[test]
fn create_identity_twice_overwrites_the_first_record() {
    let mut reg = IdentityRegistry::new();
    let id1 = reg
        .create_identity(args(42, IdentityType::Planet), "principal".to_string(), 100)
        .unwrap();
    let id2 = reg
        .create_identity(args(42, IdentityType::Planet), "principal".to_string(), 200)
        .unwrap();
    assert_eq!(id1, id2);
    assert!(reg.verify_identity(id2.clone()).unwrap());
    let rec = reg.get_identity(id2).unwrap();
    assert_eq!(rec.created_at, 200);
    assert_eq!(rec.urbit_identity.created_at, 200);
    let stats = reg.get_identity_stats();
    assert_eq!(stats.total_identities, 1);
}

#[test]
fn connect_and_disconnect_toggle_the_social_flag() {
    let mut reg = IdentityRegistry::new();
    let id = reg
        .create_identity(args(3, IdentityType::Moon), "p".to_string(), 10)
        .unwrap();
    reg.connect_social_platform(id.clone(), "github".to_string(), 20).unwrap();
    let rec = reg.get_identity(id.clone()).unwrap();
    assert_eq!(rec.social_connections.get(&"github".to_string()), Some(true));
    assert_eq!(rec.last_sync, 20);

    reg.disconnect_social_platform(id.clone(), "github".to_string(), 30).unwrap();
    let rec = reg.get_identity(id.clone()).unwrap();
    assert_eq!(rec.social_connections.get(&"github".to_string()), Some(false));
    assert_eq!(rec.last_sync, 30);
    assert_eq!(rec.social_connections.len(), 1);
}

#[test]
fn social_operations_fail_on_absent_ids() {
    let mut reg = IdentityRegistry::new();
    let r = reg.connect_social_platform("nope".to_string(), "github".to_string(), 1);
    assert_eq!(r, Err("Identity not found".to_string()));
    let r = reg.disconnect_social_platform("nope".to_string(), "github".to_string(), 1);
    assert_eq!(r, Err("Identity not found".to_string()));
    let r = reg.grant_platform_access("nope".to_string(), "github".to_string(), 1);
    assert_eq!(r, Err("Identity not found".to_string()));
    let r = reg.sync_identity("nope".to_string(), 1);
    assert_eq!(r, Err("Identity not found".to_string()));
    assert_eq!(
        reg.verify_identity("nope".to_string()),
        Err("Identity not found".to_string())
    );
    assert!(reg.get_identity("nope".to_string()).is_err());
}

#[test]
fn grant_platform_access_sets_the_access_flag() {
    let mut reg = IdentityRegistry::new();
    let id = reg
        .create_identity(args(9, IdentityType::Galaxy), "p".to_string(), 10)
        .unwrap();
    reg.grant_platform_access(id.clone(), "grainspace".to_string(), 40).unwrap();
    let rec = reg.get_identity(id).unwrap();
    assert_eq!(rec.platform_access.get(&"grainspace".to_string()), Some(true));
    assert_eq!(rec.platform_access.get(&"other".to_string()), None);
    assert!(rec.social_connections.is_empty());
    assert_eq!(rec.last_sync, 40);
}

#[test]
fn get_identity_by_urbit_address_returns_the_first_match() {
    let mut reg = IdentityRegistry::new();
    reg.create_identity(args(42, IdentityType::Planet), "p1".to_string(), 10).unwrap();
    reg.create_identity(args(42, IdentityType::Planet), "p2".to_string(), 20).unwrap();
    reg.create_identity(args(77, IdentityType::Star), "p3".to_string(), 30).unwrap();
    let rec = reg.get_identity_by_urbit_address(42).unwrap();
    assert_eq!(rec.icp_principal, "p1");
    let rec = reg.get_identity_by_urbit_address(77).unwrap();
    assert_eq!(rec.icp_principal, "p3");
    assert_eq!(
        reg.get_identity_by_urbit_address(1).err(),
        Some("Identity not found".to_string())
    );
}

#[test]
fn list_identities_lists_every_key() {
    let mut reg = IdentityRegistry::new();
    assert_eq!(reg.list_identities().len(), 0);
    let id1 = reg
        .create_identity(args(1, IdentityType::Galaxy), "p".to_string(), 10)
        .unwrap();
    let id2 = reg
        .create_identity(args(2, IdentityType::Star), "p".to_string(), 20)
        .unwrap();
    let ids = reg.list_identities();
    assert_eq!(ids, vec![id1, id2]);
}

#[test]
fn stats_count_totals_verified_and_socially_connected() {
    let mut reg = IdentityRegistry::new();
    let stats = reg.get_identity_stats();
    assert_eq!(stats.total_identities, 0);
    assert_eq!(stats.verified_identities, 0);
    assert_eq!(stats.social_connected, 0);

    let id1 = reg
        .create_identity(args(1, IdentityType::Planet), "p".to_string(), 10)
        .unwrap();
    reg.create_identity(args(2, IdentityType::Moon), "p".to_string(), 11).unwrap();
    let stats = reg.get_identity_stats();
    assert_eq!(stats.total_identities, 2);
    assert_eq!(stats.verified_identities, 2);
    assert_eq!(stats.social_connected, 0);

    reg.connect_social_platform(id1.clone(), "github".to_string(), 12).unwrap();
    let stats = reg.get_identity_stats();
    assert_eq!(stats.social_connected, 1);

    // A disconnect keeps the entry, with value false: the record still counts
    // as having a social-connection entry.
    reg.disconnect_social_platform(id1, "github".to_string(), 13).unwrap();
    let stats = reg.get_identity_stats();
    assert_eq!(stats.total_identities, 2);
    assert_eq!(stats.social_connected, 1);
}

#[test]
fn sync_identity_marks_verified_and_touches_last_sync() {
    let mut reg = IdentityRegistry::new();
    let id = reg
        .create_identity(args(5, IdentityType::Star), "p".to_string(), 10)
        .unwrap();
    reg.sync_identity(id.clone(), 99).unwrap();
    let rec = reg.get_identity(id.clone()).unwrap();
    assert_eq!(rec.verification_status, VerificationStatus::Verified);
    assert_eq!(rec.last_sync, 99);
    assert!(reg.verify_identity(id).unwrap());
}

#[test]
fn flag_items_list_entries_in_insertion_order() {
    let mut reg = IdentityRegistry::new();
    let id = reg
        .create_identity(args(6, IdentityType::Moon), "p".to_string(), 10)
        .unwrap();
    reg.connect_social_platform(id.clone(), "github".to_string(), 11).unwrap();
    reg.connect_social_platform(id.clone(), "mastodon".to_string(), 12).unwrap();
    reg.disconnect_social_platform(id.clone(), "github".to_string(), 13).unwrap();
    let rec = reg.get_identity(id).unwrap();
    let items = rec.social_connections.items();
    assert_eq!(items, vec![("github".to_string(), false), ("mastodon".to_string(), true)]);
}
