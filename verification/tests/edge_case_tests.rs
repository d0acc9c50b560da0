use token_factory::{Address, Error, TokenFactory};

fn address(key: &str) -> Address {
    Address::from_str(key)
}

#[test]
fn test_max_fee_values() {
    let mut factory = TokenFactory::new();

    let max_safe_fee = i128::MAX / 2;
    let result = factory.initialize(address("admin"), address("treasury"), max_safe_fee, max_safe_fee);
    assert!(result.is_ok());
}

#[test]
fn test_zero_fees() {
    let mut factory = TokenFactory::new();

    let result = factory.initialize(address("admin"), address("treasury"), 0, 0);
    assert!(result.is_ok());

    let state = factory.get_state();
    assert_eq!(state.base_fee, 0);
    assert_eq!(state.metadata_fee, 0);
}

#[test]
fn test_negative_fees_rejected() {
    let mut factory = TokenFactory::new();

    let result = factory.initialize(address("admin"), address("treasury"), -1, 30_000_000);
    assert!(result.is_err());
    assert_eq!(result, Err(Error::InvalidParameters));

    let result = factory.initialize(address("admin"), address("treasury"), 70_000_000, -1);
    assert!(result.is_err());
    assert_eq!(result, Err(Error::InvalidParameters));

    let result = factory.initialize(address("admin"), address("treasury"), -1, -1);
    assert!(result.is_err());
    assert_eq!(result, Err(Error::InvalidParameters));

    assert!(!factory.is_initialized());
    assert_eq!(factory, TokenFactory::new());
}

#[test]
fn test_same_admin_and_treasury() {
    let mut factory = TokenFactory::new();

    let same_address = address("one-for-both");

    let result =
        factory.initialize(same_address.clone(), same_address.clone(), 70_000_000, 30_000_000);
    assert!(result.is_ok());

    let state = factory.get_state();
    assert_eq!(state.admin, same_address);
    assert_eq!(state.treasury, same_address);
}

#[test]
fn test_update_fees_with_none() {
    let mut factory = TokenFactory::new();
    let admin = address("admin");

    factory.initialize(admin.clone(), address("treasury"), 70_000_000, 30_000_000).unwrap();

    let result = factory.update_fees(admin, None, None);
    assert!(result.is_ok());

    let state = factory.get_state();
    assert_eq!(state.base_fee, 70_000_000);
    assert_eq!(state.metadata_fee, 30_000_000);
}

#[test]
fn test_rapid_state_reads() {
    let mut factory = TokenFactory::new();
    let admin = address("admin");
    let treasury = address("treasury");

    factory.initialize(admin.clone(), treasury.clone(), 70_000_000, 30_000_000).unwrap();

    for _ in 0..100 {
        let state = factory.get_state();
        assert_eq!(state.admin, admin);
        assert_eq!(state.treasury, treasury);
        assert_eq!(state.base_fee, 70_000_000);
        assert_eq!(state.metadata_fee, 30_000_000);
    }
}

#[test]
fn test_fee_boundary_values() {
    let mut factory = TokenFactory::new();

    let result = factory.initialize(address("admin"), address("treasury"), 1, 1);
    assert!(result.is_ok());
}
