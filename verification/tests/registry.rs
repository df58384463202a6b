use proxy_contract::{AccountId, Category, Proxy, ProxyError, Roles};

pub fn get_account_id(account_id: &str) -> AccountId {
    AccountId::new(account_id)
        .unwrap_or_else(|| panic!("ERR: can't get account_id from str: {account_id}"))
}

/// Ends the test as a rejected call ends: with the refusal's message.
fn accepted<T>(outcome: Result<T, ProxyError>) -> T {
    match outcome {
        Ok(value) => value,
        Err(refusal) => panic!("{}", refusal.message()),
    }
}

#[test]
fn test_new() {
    let owner_id: AccountId = get_account_id("owner");
    let contract = Proxy::new(owner_id.clone());
    assert_eq!(contract.owner_id(), &owner_id);
}

#[test]
fn lib_test_get_reporter() {
    let owner_id: AccountId = get_account_id("owner");
    let reporter_id: AccountId = get_account_id("reporter");
    let mut contract = Proxy::new(owner_id.clone());

    accepted(contract.create_reporter(&owner_id, reporter_id.clone(), Roles::Authority.level()));
    assert_eq!(
        accepted(contract.get_reporter(&reporter_id)),
        Roles::Authority.level(),
        "reporter permission_level is: {}",
        accepted(contract.get_reporter(&reporter_id))
    );
}

#[test]
fn lib_test_update_reporter() {
    let owner_id: AccountId = get_account_id("owner");
    let reporter_id: AccountId = get_account_id("reporter");
    let mut contract = Proxy::new(owner_id.clone());
    accepted(contract.create_reporter(&owner_id, reporter_id.clone(), Roles::Authority.level()));
    assert!(
        accepted(contract.update_reporter(&owner_id, reporter_id.clone(), Roles::Authority.level())),
        "Reporter update failed"
    );

    assert_eq!(
        accepted(contract.get_reporter(&reporter_id)),
        Roles::Authority.level(),
        "reporter value is: {}",
        accepted(contract.get_reporter(&reporter_id))
    );
}

#[test]
fn lib_test_get_address() {
    let owner_id: AccountId = get_account_id("owner");
    let reporter_id: AccountId = get_account_id("reporter");
    let address_id: AccountId = get_account_id("mining.pool");
    let mut contract = Proxy::new(owner_id.clone());

    accepted(contract.create_reporter(&owner_id, reporter_id.clone(), Roles::Authority.level()));
    accepted(contract.create_address(&reporter_id, address_id.clone(), Category::MiningPool, 7));

    assert_eq!(
        contract.get_address(&address_id),
        (Category::MiningPool, 7),
        "Address not added"
    );
}

#[test]
#[should_panic(expected = "HapiProxy: Only the owner or authority may call this method")]
fn test_change_owner() {
    let owner_id: AccountId = get_account_id("alice");
    let second_account_id: AccountId = get_account_id("james.bond");
    let reporter_id: AccountId = get_account_id("reporter");
    let mut contract = Proxy::new(owner_id.clone());

    accepted(contract.change_owner(&owner_id, second_account_id));
    accepted(contract.create_reporter(&owner_id, reporter_id.clone(), Roles::Reporter.level()));
}

#[test]
fn main_test_get_reporter() {
    let owner_id: AccountId = get_account_id("owner");
    let reporter_id: AccountId = get_account_id("reporter");
    let mut contract = Proxy::new(owner_id.clone());

    accepted(contract.create_reporter(&owner_id, reporter_id.clone(), Roles::Reporter.level()));
    assert_eq!(
        accepted(contract.get_reporter(&reporter_id)),
        Roles::Reporter.level(),
        "reporter value is: {}",
        accepted(contract.get_reporter(&reporter_id))
    );
}

#[test]
#[should_panic(expected = "HapiProxy: Reporter already exist")]
fn test_twice_create_reporter() {
    let owner_id: AccountId = get_account_id("owner");
    let reporter_id: AccountId = get_account_id("reporter");
    let mut contract = Proxy::new(owner_id.clone());

    accepted(contract.create_reporter(&owner_id, reporter_id.clone(), Roles::Reporter.level()));
    accepted(contract.create_reporter(&owner_id, reporter_id, Roles::Reporter.level()));
}

#[test]
fn main_test_update_reporter() {
    let owner_id: AccountId = get_account_id("owner");
    let reporter_id: AccountId = get_account_id("reporter");

    let mut contract = Proxy::new(owner_id.clone());
    accepted(contract.create_reporter(&owner_id, reporter_id.clone(), Roles::Reporter.level()));
    assert!(
        accepted(contract.update_reporter(&owner_id, reporter_id.clone(), Roles::Authority.level())),
        "Reporter update failed"
    );

    assert_eq!(
        accepted(contract.get_reporter(&reporter_id)),
        Roles::Authority.level(),
        "reporter value is: {}",
        accepted(contract.get_reporter(&reporter_id))
    );
}

#[test]
#[should_panic(expected = "HapiProxy: Only the owner or authority may call this method")]
fn test_not_owner_updates_reporter() {
    let owner_id: AccountId = get_account_id("owner");
    let reporter_id: AccountId = get_account_id("reporter");

    let mut contract = Proxy::new(owner_id.clone());
    accepted(contract.create_reporter(&owner_id, reporter_id.clone(), Roles::Reporter.level()));

    assert!(
        accepted(contract.update_reporter(&reporter_id, reporter_id.clone(), Roles::Authority.level())),
        "Reporter update failed"
    );

    assert_eq!(
        accepted(contract.get_reporter(&reporter_id)),
        Roles::Reporter.level(),
        "reporter value is: {}",
        accepted(contract.get_reporter(&reporter_id))
    );
}

#[test]
fn main_test_get_address() {
    let owner_id: AccountId = get_account_id("owner");
    let reporter_id: AccountId = get_account_id("reporter");
    let address_id: AccountId = get_account_id("mining.pool");

    let mut contract = Proxy::new(owner_id.clone());
    accepted(contract.create_reporter(&owner_id, reporter_id.clone(), Roles::Reporter.level()));

    accepted(contract.create_address(&reporter_id, address_id.clone(), Category::MiningPool, 7));
    assert_eq!(
        contract.get_address(&address_id),
        (Category::MiningPool, 7),
        "Address not added"
    );
}

#[test]
#[should_panic(expected = "HapiProxy: Invalid permission level")]
fn test_invalid_permission_level() {
    let owner_id: AccountId = get_account_id("owner");
    let reporter_id: AccountId = get_account_id("reporter");

    let mut contract = Proxy::new(owner_id.clone());
    accepted(contract.create_reporter(&get_account_id("alice"), reporter_id, 3));
}

#[test]
#[should_panic(expected = "HapiProxy: Invalid risk")]
fn test_create_address_wrong_risk() {
    let owner_id: AccountId = get_account_id("owner");
    let reporter_id: AccountId = get_account_id("reporter");
    let address_id: AccountId = get_account_id("mining.pool");
    let mut contract = Proxy::new(owner_id.clone());
    accepted(contract.create_reporter(&owner_id, reporter_id.clone(), Roles::Authority.level()));

    accepted(contract.create_address(&reporter_id, address_id, Category::MiningPool, 11));
}
