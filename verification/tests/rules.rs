use proxy_contract::{
    AccountId, AddressInfo, Category, Privilege, Proxy, ProxyError, Record, Roles, Table, MAX_RISK,
};

fn account(name: &str) -> AccountId {
    AccountId::new(name).expect("a well-formed account name")
}

/// A registry of `owner` with the authority `authority` and the reporter
/// `reporter`.
fn staffed() -> Proxy {
    let mut registry = Proxy::new(account("owner"));
    assert_eq!(
        registry.create_reporter(&account("owner"), account("authority"), 2),
        Ok(None)
    );
    assert_eq!(
        registry.create_reporter(&account("authority"), account("reporter"), 1),
        Ok(None)
    );
    registry
}

#[test]
fn levels_stand_for_roles() {
    assert_eq!(Roles::Reporter.level(), 1);
    assert_eq!(Roles::Authority.level(), 2);
    assert_eq!(Roles::from_level(1), Some(Roles::Reporter));
    assert_eq!(Roles::from_level(2), Some(Roles::Authority));
    assert_eq!(Roles::from_level(0), None);
    assert_eq!(Roles::from_level(3), None);
    assert_eq!(Roles::from_level(255), None);
}

#[test]
fn account_names_have_two_to_sixty_four_characters() {
    let longest = "0123456789012345678901234567890123456789012345678901234567890123";
    assert_eq!(longest.len(), 64);
    assert!(AccountId::new(longest).is_some());
    assert!(AccountId::new(&format!("{longest}4")).is_none());
    assert!(AccountId::new("ab").is_some());
    assert!(AccountId::new("a").is_none());
    assert!(AccountId::new("").is_none());
}

#[test]
fn account_names_are_compared_by_their_text() {
    assert_eq!(account("mining.pool"), account("mining.pool"));
    assert_ne!(account("mining.pool"), account("mining_pool"));
    assert_eq!(account("james.bond").clone().as_str(), "james.bond");
}

#[test]
fn records_hold_a_risk_of_at_most_ten() {
    assert_eq!(MAX_RISK, 10);
    let record = AddressInfo::new(Category::Mixer, 10).unwrap();
    assert_eq!(record.category(), Category::Mixer);
    assert_eq!(record.risk(), 10);
    assert_eq!(AddressInfo::new(Category::Scam, 0).unwrap().risk(), 0);
    assert_eq!(AddressInfo::new(Category::Mixer, 11), Err(ProxyError::InvalidRisk));
    assert_eq!(AddressInfo::new(Category::Uncategorized, 255), Err(ProxyError::InvalidRisk));
}

#[test]
fn refusals_carry_their_messages() {
    let cases = [
        (ProxyError::Unauthorized(Privilege::Owner), "HapiProxy: Only the owner may call this method"),
        (
            ProxyError::Unauthorized(Privilege::OwnerOrAuthority),
            "HapiProxy: Only the owner or authority may call this method",
        ),
        (
            ProxyError::Unauthorized(Privilege::Reporter),
            "HapiProxy: You must be a reporter to perform this action",
        ),
        (ProxyError::InvalidRole, "HapiProxy: Invalid permission level"),
        (ProxyError::InvalidRisk, "HapiProxy: Invalid risk"),
        (ProxyError::AlreadyExists(Record::Reporter), "HapiProxy: Reporter already exist"),
        (ProxyError::AlreadyExists(Record::Address), "HapiProxy: Address already exist"),
        (ProxyError::NotFound(Record::Reporter), "HapiProxy: This account is not a reporter"),
        (ProxyError::NotFound(Record::Address), "HapiProxy: Address does not exist"),
        (ProxyError::AlreadyInitialized, "HapiProxy: The registry is already initialized"),
    ];
    for (refusal, message) in cases {
        assert_eq!(refusal.message(), message);
    }
}

#[test]
fn table_maps_accounts_to_values() {
    let mut table: Table<u8> = Table::new();
    assert_eq!(table.len(), 0);
    assert_eq!(table.get(&account("aa")), None);
    assert!(!table.contains_key(&account("aa")));
    assert_eq!(table.row(0), None);

    assert_eq!(table.insert(account("aa"), 1), None);
    assert_eq!(table.insert(account("bb"), 2), None);
    assert_eq!(table.insert(account("aa"), 3), Some(1));
    assert_eq!(table.len(), 2);
    assert_eq!(table.get(&account("aa")), Some(3));
    assert_eq!(table.get(&account("bb")), Some(2));
    assert_eq!(table.get(&account("cc")), None);
    assert!(table.contains_key(&account("bb")));
    assert_eq!(table.row(0), Some((&account("aa"), 3)));
    assert_eq!(table.row(1), Some((&account("bb"), 2)));
    assert_eq!(table.row(2), None);
}

#[test]
fn a_registry_is_initialized_once() {
    let mut slot: Option<Proxy> = None;
    assert_eq!(Proxy::initialize(&mut slot, account("owner")), Ok(()));
    assert_eq!(slot.as_ref().unwrap().owner_id(), &account("owner"));
    assert_eq!(slot.as_ref().unwrap().reporters().len(), 0);
    assert_eq!(slot.as_ref().unwrap().addresses().len(), 0);

    assert_eq!(
        Proxy::initialize(&mut slot, account("usurper")),
        Err(ProxyError::AlreadyInitialized)
    );
    assert_eq!(slot.as_ref().unwrap().owner_id(), &account("owner"));
}

#[test]
fn only_the_owner_changes_the_owner() {
    let mut registry = staffed();
    for caller in ["authority", "reporter", "stranger"] {
        assert_eq!(
            registry.change_owner(&account(caller), account(caller)),
            Err(ProxyError::Unauthorized(Privilege::Owner))
        );
        assert_eq!(registry.owner_id(), &account("owner"));
    }
    assert_eq!(registry.change_owner(&account("owner"), account("heir")), Ok(()));
    assert_eq!(registry.owner_id(), &account("heir"));
    assert_eq!(registry.get_reporter(&account("authority")), Ok(2));
    assert_eq!(registry.get_reporter(&account("reporter")), Ok(1));

    assert_eq!(
        registry.change_owner(&account("owner"), account("owner")),
        Err(ProxyError::Unauthorized(Privilege::Owner))
    );
    assert_eq!(registry.create_reporter(&account("heir"), account("fresh"), 1), Ok(None));
}

#[test]
fn an_invalid_role_is_refused_whoever_calls() {
    let mut registry = staffed();
    for caller in ["owner", "authority", "reporter", "stranger"] {
        for level in [0u8, 3, 4, 100, 255] {
            assert_eq!(
                registry.create_reporter(&account(caller), account("fresh"), level),
                Err(ProxyError::InvalidRole)
            );
            assert_eq!(
                registry.update_reporter(&account(caller), account("reporter"), level),
                Err(ProxyError::InvalidRole)
            );
            assert_eq!(registry.validate_permission_level(&level), Err(ProxyError::InvalidRole));
        }
    }
    assert_eq!(registry.validate_permission_level(&1), Ok(Roles::Reporter));
    assert_eq!(registry.validate_permission_level(&2), Ok(Roles::Authority));
    assert!(!registry.is_reporter(&account("fresh")));
    assert_eq!(registry.get_reporter(&account("reporter")), Ok(1));
}

#[test]
fn nothing_is_created_twice() {
    let mut registry = staffed();
    assert_eq!(
        registry.create_reporter(&account("owner"), account("reporter"), 2),
        Err(ProxyError::AlreadyExists(Record::Reporter))
    );
    assert_eq!(
        registry.create_reporter(&account("authority"), account("reporter"), 1),
        Err(ProxyError::AlreadyExists(Record::Reporter))
    );
    assert_eq!(registry.get_reporter(&account("reporter")), Ok(1));

    assert_eq!(
        registry.create_address(&account("reporter"), account("mixer.near"), Category::Mixer, 9),
        Ok(true)
    );
    assert_eq!(
        registry.create_address(&account("authority"), account("mixer.near"), Category::Scam, 1),
        Err(ProxyError::AlreadyExists(Record::Address))
    );
    assert_eq!(registry.get_address(&account("mixer.near")), (Category::Mixer, 9));
}

#[test]
fn only_what_exists_is_updated() {
    let mut registry = staffed();
    assert_eq!(
        registry.update_reporter(&account("owner"), account("stranger"), 1),
        Err(ProxyError::NotFound(Record::Reporter))
    );
    assert!(!registry.is_reporter(&account("stranger")));
    assert_eq!(
        registry.get_reporter(&account("stranger")),
        Err(ProxyError::NotFound(Record::Reporter))
    );

    assert_eq!(
        registry.update_address(&account("reporter"), account("stranger"), Category::Theft, 5),
        Err(ProxyError::NotFound(Record::Address))
    );
    assert_eq!(registry.get_address(&account("stranger")), (Category::Uncategorized, 0));
    assert_eq!(registry.addresses().len(), 0);
}

#[test]
fn an_update_replaces_the_whole_record() {
    let mut registry = staffed();
    assert_eq!(
        registry.create_address(&account("reporter"), account("exchange.near"), Category::Exchange, 2),
        Ok(true)
    );
    assert_eq!(
        registry.update_address(&account("authority"), account("exchange.near"), Category::Sanctions, 10),
        Ok(())
    );
    assert_eq!(registry.get_address(&account("exchange.near")), (Category::Sanctions, 10));
    assert_eq!(
        registry.update_address(&account("reporter"), account("exchange.near"), Category::Uncategorized, 0),
        Ok(())
    );
    assert_eq!(registry.get_address(&account("exchange.near")), (Category::Uncategorized, 0));
    assert!(registry.addresses().contains_key(&account("exchange.near")));

    assert_eq!(registry.update_reporter(&account("owner"), account("reporter"), 2), Ok(true));
    assert_eq!(registry.get_reporter(&account("reporter")), Ok(2));
    assert_eq!(registry.update_reporter(&account("reporter"), account("authority"), 1), Ok(true));
    assert_eq!(registry.get_reporter(&account("authority")), Ok(1));
}

#[test]
fn a_reporter_manages_addresses_but_no_reporters() {
    let mut registry = staffed();
    assert_eq!(registry.assert_reporter(&account("reporter")), Ok(()));
    assert_eq!(
        registry.assert_owner_or_authority(&account("reporter")),
        Err(ProxyError::Unauthorized(Privilege::OwnerOrAuthority))
    );
    assert_eq!(
        registry.create_address(&account("reporter"), account("scam.near"), Category::Scam, 8),
        Ok(true)
    );
    assert_eq!(
        registry.update_address(&account("reporter"), account("scam.near"), Category::Ransomware, 9),
        Ok(())
    );
    assert_eq!(
        registry.create_reporter(&account("reporter"), account("fresh"), 1),
        Err(ProxyError::Unauthorized(Privilege::OwnerOrAuthority))
    );
    assert_eq!(
        registry.update_reporter(&account("reporter"), account("reporter"), 2),
        Err(ProxyError::Unauthorized(Privilege::OwnerOrAuthority))
    );
    assert_eq!(registry.get_reporter(&account("reporter")), Ok(1));
    assert!(!registry.is_reporter(&account("fresh")));
}

#[test]
fn an_authority_manages_both() {
    let mut registry = staffed();
    assert_eq!(registry.assert_reporter(&account("authority")), Ok(()));
    assert_eq!(registry.assert_owner_or_authority(&account("authority")), Ok(()));
    assert_eq!(
        registry.create_address(&account("authority"), account("atm.near"), Category::ATM, 3),
        Ok(true)
    );
    assert_eq!(
        registry.update_address(&account("authority"), account("atm.near"), Category::Gambling, 4),
        Ok(())
    );
    assert_eq!(registry.create_reporter(&account("authority"), account("fresh"), 2), Ok(None));
    assert_eq!(registry.update_reporter(&account("authority"), account("fresh"), 1), Ok(true));
    assert_eq!(registry.get_reporter(&account("fresh")), Ok(1));
}

#[test]
fn the_owner_manages_reporters_without_a_role() {
    let mut registry = Proxy::new(account("owner"));
    assert!(!registry.is_reporter(&account("owner")));
    assert_eq!(registry.assert_owner_or_authority(&account("owner")), Ok(()));
    assert_eq!(
        registry.assert_reporter(&account("owner")),
        Err(ProxyError::Unauthorized(Privilege::Reporter))
    );
    assert_eq!(registry.create_reporter(&account("owner"), account("fresh"), 1), Ok(None));
    assert_eq!(registry.update_reporter(&account("owner"), account("fresh"), 2), Ok(true));
    assert_eq!(
        registry.create_address(&account("owner"), account("theft.near"), Category::Theft, 5),
        Err(ProxyError::Unauthorized(Privilege::Reporter))
    );
    assert_eq!(registry.get_address(&account("theft.near")), (Category::Uncategorized, 0));

    assert_eq!(registry.create_reporter(&account("owner"), account("owner"), 1), Ok(None));
    assert_eq!(
        registry.create_address(&account("owner"), account("theft.near"), Category::Theft, 5),
        Ok(true)
    );
}

#[test]
fn a_stranger_is_refused_before_anything_else_is_looked_at() {
    let mut registry = staffed();
    assert_eq!(
        registry.create_address(&account("stranger"), account("defi.near"), Category::DeFi, 11),
        Err(ProxyError::Unauthorized(Privilege::Reporter))
    );
    assert_eq!(
        registry.update_address(&account("stranger"), account("defi.near"), Category::DeFi, 11),
        Err(ProxyError::Unauthorized(Privilege::Reporter))
    );
    assert_eq!(
        registry.create_reporter(&account("stranger"), account("reporter"), 1),
        Err(ProxyError::Unauthorized(Privilege::OwnerOrAuthority))
    );
    assert_eq!(
        registry.update_reporter(&account("stranger"), account("nobody"), 2),
        Err(ProxyError::Unauthorized(Privilege::OwnerOrAuthority))
    );
}

#[test]
fn a_risk_above_ten_is_refused_for_any_category() {
    let mut registry = staffed();
    assert_eq!(
        registry.create_address(&account("reporter"), account("pool.near"), Category::MiningPool, 10),
        Ok(true)
    );
    for category in [Category::Uncategorized, Category::MiningPool, Category::ChildAbuse] {
        for risk in [11u8, 12, 100, 255] {
            assert_eq!(
                registry.create_address(&account("reporter"), account("fresh.near"), category, risk),
                Err(ProxyError::InvalidRisk)
            );
            assert_eq!(
                registry.update_address(&account("authority"), account("pool.near"), category, risk),
                Err(ProxyError::InvalidRisk)
            );
        }
    }
    assert_eq!(registry.get_address(&account("pool.near")), (Category::MiningPool, 10));
    assert_eq!(registry.get_address(&account("fresh.near")), (Category::Uncategorized, 0));
}

#[test]
fn an_unflagged_account_reads_as_no_category_and_no_risk() {
    let registry = staffed();
    for name in ["owner", "authority", "reporter", "stranger", "never.seen"] {
        assert_eq!(registry.get_address(&account(name)), (Category::Uncategorized, 0));
    }
}

#[test]
fn roles_pass_from_owner_to_authority_to_reporter() {
    let owner = account("owner-o");
    let first = account("reporter-r1");
    let second = account("reporter-r2");
    let third = account("reporter-r3");
    let flagged = account("address-x");

    let mut registry = Proxy::new(owner.clone());
    assert_eq!(
        registry.create_reporter(&owner, first.clone(), Roles::Authority.level()),
        Ok(None)
    );
    assert_eq!(
        registry.create_reporter(&first, second.clone(), Roles::Reporter.level()),
        Ok(None)
    );
    assert_eq!(
        registry.create_reporter(&second, third.clone(), Roles::Reporter.level()),
        Err(ProxyError::Unauthorized(Privilege::OwnerOrAuthority))
    );
    assert_eq!(
        registry.create_address(&second, flagged.clone(), Category::MiningPool, 7),
        Ok(true)
    );
    assert_eq!(registry.get_address(&flagged), (Category::MiningPool, 7));
    assert_eq!(
        registry.create_address(&second, flagged.clone(), Category::MiningPool, 7),
        Err(ProxyError::AlreadyExists(Record::Address))
    );
    assert!(!registry.is_reporter(&third));
}

#[test]
fn a_saved_registry_is_restored_as_it_was() {
    let mut registry = staffed();
    registry
        .create_address(&account("reporter"), account("darknet.near"), Category::DarknetService, 10)
        .unwrap();
    registry
        .create_address(&account("authority"), account("otc.near"), Category::OTCBroker, 0)
        .unwrap();

    let reporters = registry.saved_reporters();
    let addresses = registry.saved_addresses();
    assert_eq!(reporters, vec![(account("authority"), 2), (account("reporter"), 1)]);
    assert_eq!(
        addresses,
        vec![
            (account("darknet.near"), Category::DarknetService, 10),
            (account("otc.near"), Category::OTCBroker, 0)
        ]
    );

    let restored = Proxy::restore(registry.owner_id().clone(), &reporters, &addresses)
        .ok()
        .expect("sound rows");
    assert_eq!(restored.owner_id(), &account("owner"));
    assert_eq!(restored.get_reporter(&account("authority")), Ok(2));
    assert_eq!(restored.get_reporter(&account("reporter")), Ok(1));
    assert_eq!(restored.reporters().len(), 2);
    assert_eq!(restored.get_address(&account("darknet.near")), (Category::DarknetService, 10));
    assert_eq!(restored.get_address(&account("otc.near")), (Category::OTCBroker, 0));
    assert_eq!(restored.addresses().len(), 2);
}

#[test]
fn rows_with_a_defect_are_not_restored() {
    let refused = |reporters: &[(AccountId, u8)], addresses: &[(AccountId, Category, u8)]| {
        Proxy::restore(account("owner"), reporters, addresses).err()
    };
    assert_eq!(refused(&[], &[]), None);
    assert_eq!(
        refused(&[(account("aa"), 1), (account("bb"), 3)], &[]),
        Some(ProxyError::InvalidRole)
    );
    assert_eq!(
        refused(&[(account("aa"), 1), (account("aa"), 2)], &[]),
        Some(ProxyError::AlreadyExists(Record::Reporter))
    );
    assert_eq!(
        refused(&[(account("aa"), 1), (account("aa"), 0)], &[]),
        Some(ProxyError::InvalidRole)
    );
    assert_eq!(
        refused(&[], &[(account("aa"), Category::Scam, 11)]),
        Some(ProxyError::InvalidRisk)
    );
    assert_eq!(
        refused(
            &[],
            &[(account("aa"), Category::Scam, 1), (account("bb"), Category::Scam, 2), (account("aa"), Category::Scam, 3)]
        ),
        Some(ProxyError::AlreadyExists(Record::Address))
    );
    assert_eq!(
        refused(
            &[(account("aa"), 1), (account("aa"), 1)],
            &[(account("aa"), Category::Scam, 11)]
        ),
        Some(ProxyError::AlreadyExists(Record::Reporter))
    );
}
