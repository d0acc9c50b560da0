use token_factory::{Address, Error, FactoryState, TokenFactory};

fn address(key: &str) -> Address {
    Address::from_str(key)
}

fn text(value: &str) -> String {
    String::from(value)
}

/// What the tests compare before and after an operation.
#[derive(Clone, Debug, PartialEq)]
struct ContractState {
    admin: Address,
    treasury: Address,
    base_fee: i128,
    metadata_fee: i128,
    token_count: u32,
}

fn capture(factory: &TokenFactory) -> ContractState {
    let state: FactoryState = factory.get_state();
    ContractState {
        admin: state.admin,
        treasury: state.treasury,
        base_fee: state.base_fee,
        metadata_fee: state.metadata_fee,
        token_count: factory.get_token_count(),
    }
}

fn assert_unchanged(before: &ContractState, after: &ContractState) {
    assert_eq!(before.admin, after.admin, "Admin should not change");
    assert_eq!(before.treasury, after.treasury, "Treasury should not change");
    assert_eq!(before.base_fee, after.base_fee, "Base fee should not change");
    assert_eq!(before.metadata_fee, after.metadata_fee, "Metadata fee should not change");
    assert_eq!(
        before.token_count, after.token_count,
        "Token count should not change on failure"
    );
}

#[test]
fn test_token_registry_functionality() {
    let mut factory = TokenFactory::new();

    let creator = address("creator");
    let base_fee = 70_000_000;
    let metadata_fee = 30_000_000;

    factory.initialize(address("admin"), address("treasury"), base_fee, metadata_fee).unwrap();

    assert_eq!(factory.get_token_count(), 0);

    let name1 = text("Token One");
    let symbol1 = text("TK1");
    let decimals1 = 7u32;
    let supply1 = 1_000_000_000i128;
    let metadata1 = Some(text("ipfs://hash1"));
    let fee1 = base_fee + metadata_fee;

    factory
        .create_token(
            creator.clone(),
            name1.clone(),
            symbol1.clone(),
            decimals1,
            supply1,
            metadata1.clone(),
            fee1,
            address("token-one"),
            10,
        )
        .unwrap();

    assert_eq!(factory.get_token_count(), 1);

    let name2 = text("Token Two");
    let symbol2 = text("TK2");
    let decimals2 = 18u32;
    let supply2 = 5_000_000_000i128;
    let metadata2: Option<String> = None;
    let fee2 = base_fee;

    factory
        .create_token(
            creator.clone(),
            name2.clone(),
            symbol2.clone(),
            decimals2,
            supply2,
            metadata2.clone(),
            fee2,
            address("token-two"),
            20,
        )
        .unwrap();

    assert_eq!(factory.get_token_count(), 2);

    let info1 = factory.get_token_info(0).unwrap();
    assert_eq!(info1.name, name1);
    assert_eq!(info1.symbol, symbol1);
    assert_eq!(info1.decimals, decimals1);
    assert_eq!(info1.total_supply, supply1);
    assert_eq!(info1.metadata_uri, metadata1);
    assert_eq!(info1.creator, creator);

    let info2 = factory.get_token_info(1).unwrap();
    assert_eq!(info2.name, name2);
    assert_eq!(info2.symbol, symbol2);
    assert_eq!(info2.decimals, decimals2);
    assert_eq!(info2.total_supply, supply2);
    assert_eq!(info2.metadata_uri, metadata2);
    assert_eq!(info2.creator, creator);

    let result = factory.get_token_info(2);
    assert_eq!(result, Err(Error::TokenNotFound));
}

#[test]
fn test_atomicity_with_max_supply() {
    let mut factory = TokenFactory::new();
    factory.initialize(address("admin"), address("treasury"), 70_000_000, 30_000_000).unwrap();

    let initial_state = capture(&factory);

    let supply = i128::MAX / 2;

    let result = factory.create_token(
        address("creator"),
        text("Max Supply Token"),
        text("MAX"),
        7,
        supply,
        None,
        70_000_000,
        address("token-max"),
        0,
    );

    if result.is_ok() {
        let final_state = capture(&factory);
        assert_eq!(final_state.token_count, initial_state.token_count + 1);

        let token_info = factory.get_token_info(0).unwrap();
        assert_eq!(token_info.total_supply, supply);
    } else {
        let final_state = capture(&factory);
        assert_unchanged(&initial_state, &final_state);
    }
    assert!(result.is_ok());
}

#[test]
fn test_atomicity_with_metadata() {
    let mut factory = TokenFactory::new();

    let base_fee = 70_000_000i128;
    let metadata_fee = 30_000_000i128;

    factory.initialize(address("admin"), address("treasury"), base_fee, metadata_fee).unwrap();

    let initial_state = capture(&factory);

    let metadata_uri = Some(text("ipfs://QmTest"));
    let total_fee = base_fee + metadata_fee;

    let result = factory.create_token(
        address("creator"),
        text("Meta Token"),
        text("META"),
        7,
        1_000_000,
        metadata_uri.clone(),
        total_fee,
        address("token-meta"),
        0,
    );

    if result.is_ok() {
        let token_info = factory.get_token_info(0).unwrap();
        assert_eq!(token_info.metadata_uri, metadata_uri);
    } else {
        let final_state = capture(&factory);
        assert_unchanged(&initial_state, &final_state);
    }
    assert!(result.is_ok());
}

#[test]
fn test_atomicity_across_multiple_operations() {
    let mut factory = TokenFactory::new();
    factory.initialize(address("admin"), address("treasury"), 70_000_000, 30_000_000).unwrap();

    for i in 0..5 {
        let initial_count = factory.get_token_count();

        let name = text("Token");
        let symbol = text("TKN");

        let result = factory.create_token(
            Address::new(format!("creator-{}", i)),
            name.clone(),
            symbol.clone(),
            7,
            1_000_000,
            None,
            70_000_000,
            Address::new(format!("token-{}", i)),
            0,
        );

        assert!(result.is_ok());
        let new_count = factory.get_token_count();
        assert_eq!(new_count, initial_count + 1, "Count must increment by 1");

        let token_info = factory.get_token_info(initial_count).unwrap();
        assert_eq!(token_info.name, name);
        assert_eq!(token_info.symbol, symbol);
    }
}
