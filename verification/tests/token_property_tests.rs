use proptest::bool::ANY;
use proptest::collection;
use proptest::option::of;
use proptest::sample::select;
use proptest::strategy::Strategy;
use proptest::test_runner::{Config, TestCaseError, TestRunner};
use token_factory::{Address, Error, TokenFactory, TokenInfo};

type TokenParams = (&'static str, &'static str, u32, i128, Option<&'static str>);

fn runner(cases: u32) -> TestRunner {
    TestRunner::new(Config { cases, failure_persistence: None, ..Config::default() })
}

fn check(condition: bool, message: &'static str) -> Result<(), TestCaseError> {
    if condition {
        Ok(())
    } else {
        Err(TestCaseError::fail(message))
    }
}

fn address(key: &str) -> Address {
    Address::from_str(key)
}

fn initialized() -> TokenFactory {
    let mut factory = TokenFactory::new();
    factory.initialize(address("admin"), address("treasury"), 70_000_000, 30_000_000).unwrap();
    factory
}

fn valid_token_name() -> impl Strategy<Value = &'static str> {
    select(vec![
        "Test Token",
        "My Awesome Token",
        "A",
        "Short",
        "Medium Length Token Name",
        "ABCDEFGHIJKLMNOPQRSTUVWXYZ12345",
        "ABCDEFGHIJKLMNOPQRSTUVWXYZ123456",
    ])
}

fn valid_token_symbol() -> impl Strategy<Value = &'static str> {
    select(vec!["TEST", "TKN", "A", "SYMBOL", "ABCDEFGHIJKL"])
}

fn valid_decimals() -> impl Strategy<Value = u32> {
    select(vec![0u32, 6, 7, 9, 18, 255])
}

fn valid_supply() -> impl Strategy<Value = i128> {
    let fixed = select(vec![1i128, 1000, 1_000_000, 1_000_000_000_000, i128::MAX]);
    (ANY, fixed, 1i128..1_000_000_000_000_000i128)
        .prop_map(|(pick, chosen, ranged)| if pick { chosen } else { ranged })
}

fn metadata_uri() -> impl Strategy<Value = Option<&'static str>> {
    select(vec![
        None,
        Some("ipfs://QmTest123"),
        Some("https://example.com/metadata.json"),
        Some("ar://abc123"),
    ])
}

fn valid_token_params() -> impl Strategy<Value = TokenParams> {
    (valid_token_name(), valid_token_symbol(), valid_decimals(), valid_supply(), metadata_uri())
}

fn invalid_token_params() -> impl Strategy<Value = TokenParams> {
    let too_long = "AAAAAAAAAAAAAAAAAAAAAAAAAAAAAAAAAAAAAAAA";
    (valid_token_params(), 0usize..6, select(vec![0i128, -1, -1000, i128::MIN])).prop_map(
        move |((name, symbol, decimals, supply, metadata), flaw, bad_supply)| match flaw {
            0 => ("", symbol, decimals, supply, metadata),
            1 => (name, "", decimals, supply, metadata),
            2 => (too_long, symbol, decimals, supply, metadata),
            3 => (name, too_long, decimals, supply, metadata),
            _ => (name, symbol, decimals, bad_supply, metadata),
        },
    )
}

fn required_fee(metadata: &Option<&'static str>) -> i128 {
    if metadata.is_some() {
        100_000_000
    } else {
        70_000_000
    }
}

fn create(
    factory: &mut TokenFactory,
    creator: &Address,
    params: &TokenParams,
    fee: i128,
    token: &Address,
) -> Result<Address, Error> {
    let (name, symbol, decimals, supply, metadata) = params;
    factory.create_token(
        creator.clone(),
        String::from(*name),
        String::from(*symbol),
        *decimals,
        *supply,
        metadata.map(String::from),
        fee,
        token.clone(),
        1_234,
    )
}

#[test]
fn prop_token_creation_is_atomic() {
    runner(1000)
        .run(&valid_token_params(), |params| {
            let (name, symbol, decimals, supply, metadata) = params;
            let mut factory = initialized();
            let before = factory.clone();
            let creator = address("creator");
            let token = address("token");

            let result = create(&mut factory, &creator, &params, required_fee(&metadata), &token);

            check(result == Ok(token.clone()), "a valid request is accepted")?;
            check(
                factory.get_token_count() == before.get_token_count() + 1,
                "Token count must increment by 1 on success",
            )?;
            let token_index = factory.get_token_count() - 1;
            let token_info = factory.get_token_info(token_index);
            check(token_info.is_ok(), "Token must exist in registry after successful creation")?;
            let token_info = token_info.unwrap();
            check(token_info.address == token, "Token address must match")?;
            check(token_info.creator == creator, "Creator must match")?;
            check(token_info.name == name, "Name must match")?;
            check(token_info.symbol == symbol, "Symbol must match")?;
            check(token_info.decimals == decimals, "Decimals must match")?;
            check(token_info.total_supply == supply, "Supply must match")?;
            check(token_info.total_burned == 0, "Nothing burned")?;
            check(token_info.burn_count == 0, "No burn counted")?;
            check(!token_info.clawback_enabled, "Clawback off")?;
            check(token_info.created_at == 1_234, "Time must match")?;
            check(token_info.metadata_uri == metadata.map(String::from), "Metadata URI must match")?;
            check(factory.get_token_info_by_address(token) == Ok(token_info), "Both lookups")?;
            check(factory.get_state() == before.get_state(), "Other state unchanged")?;
            Ok(())
        })
        .unwrap();
}

#[test]
fn prop_invalid_params_fail_atomically() {
    runner(1000)
        .run(&invalid_token_params(), |params| {
            let mut factory = initialized();
            let before = factory.clone();

            let result = create(
                &mut factory,
                &address("creator"),
                &params,
                required_fee(&params.4),
                &address("token"),
            );

            check(result == Err(Error::InvalidParameters), "Invalid parameters must cause failure")?;
            check(factory == before, "State must be completely unchanged")?;
            check(
                factory.get_token_info(before.get_token_count()).is_err(),
                "No token should exist after failed creation",
            )?;
            Ok(())
        })
        .unwrap();
}

#[test]
fn prop_insufficient_fee_fails_atomically() {
    let strategy = (valid_token_params(), 1i128..100_000_000i128);
    runner(1000)
        .run(&strategy, |(params, fee_reduction)| {
            let mut factory = initialized();
            let before = factory.clone();
            let insufficient_fee = required_fee(&params.4).saturating_sub(fee_reduction).max(0);

            let result =
                create(&mut factory, &address("creator"), &params, insufficient_fee, &address("token"));

            check(result == Err(Error::InsufficientFee), "Insufficient fee must cause failure")?;
            check(factory == before, "State unchanged")?;
            Ok(())
        })
        .unwrap();
}

#[test]
fn prop_multiple_creations_are_atomic() {
    runner(200)
        .run(&collection::vec((valid_token_params(), ANY), 1..10), |params_list| {
            let mut factory = initialized();
            let mut expected_count = 0u32;

            for (i, (params, pays)) in params_list.iter().enumerate() {
                let before = factory.clone();
                let fee = required_fee(&params.4) - if *pays { 0 } else { 1 };
                let result = create(
                    &mut factory,
                    &Address::new(format!("creator-{}", i)),
                    params,
                    fee,
                    &Address::new(format!("token-{}", i)),
                );
                if result.is_ok() {
                    expected_count += 1;
                    check(
                        factory.get_token_count() == expected_count,
                        "Token count must increment sequentially",
                    )?;
                    check(
                        factory.get_token_info(expected_count - 1).is_ok(),
                        "Each created token must be retrievable",
                    )?;
                } else {
                    check(factory == before, "A refusal writes nothing")?;
                }
                check(result.is_ok() == *pays, "accepted where paid")?;
            }

            let final_count = factory.get_token_count();
            for i in 0..final_count {
                check(factory.get_token_info(i).is_ok(), "Every token must be accessible")?;
            }
            check(factory.get_token_info(final_count).is_err(), "And none beyond")?;
            Ok(())
        })
        .unwrap();
}

#[test]
fn prop_metadata_immutability() {
    let uris = || {
        select(vec![
            "ipfs://QmTest1234567890",
            "https://nova-launch.io/metadata/token1.json",
            "ar://abcd1234efgh",
            "ipfs://bafybeigdyrzt5sfp7udm7drttvve",
        ])
    };
    runner(350)
        .run(&(uris(), uris()), |(initial_uri, new_uri)| {
            let mut factory = initialized();
            let initial_metadata = String::from(initial_uri);
            let result = factory.create_token(
                address("creator"),
                String::from("PropTest"),
                String::from("PROP"),
                7,
                1_000_000_000,
                Some(initial_metadata.clone()),
                70_000_000 + 30_000_000,
                address("token"),
                0,
            );
            check(result.is_ok(), "Initial token creation should succeed")?;

            let token_index = 0;
            let info = factory.get_token_info(token_index).unwrap();
            check(
                info.metadata_uri == Some(initial_metadata.clone()),
                "Initial metadata should be stored",
            )?;

            let update_result = factory.set_metadata(token_index, String::from(new_uri));
            check(update_result == Err(Error::MetadataAlreadySet), "Operation should have failed")?;

            let final_info = factory.get_token_info(token_index).unwrap();
            check(
                final_info.metadata_uri == Some(initial_metadata),
                "Original metadata must remain unchanged",
            )?;
            check(final_info == info, "And the rest of the record too")?;
            Ok(())
        })
        .unwrap();
}

/// One step of a random walk through the operations of the registry.
#[derive(Clone, Debug)]
enum Step {
    Create { token: usize, creator: usize, supply: i128, metadata: bool, fee: i128 },
    Burn { token: usize, amount: i128 },
    BurnBatch { token: usize, amounts: Vec<i128> },
    AdminBurn { token: usize, caller: usize, amount: i128 },
    SetClawback { token: usize, caller: usize, enabled: bool },
    SetMetadata { index: u32 },
    UpdateFees { caller: usize, base_fee: Option<i128>, metadata_fee: Option<i128> },
    Initialize,
}

fn step() -> impl Strategy<Value = Step> {
    (
        0usize..8,
        (0usize..5, 0usize..3),
        (-2i128..2_000, collection::vec(-1i128..700, 0..4)),
        (ANY, select(vec![69_999_999i128, 70_000_000, 99_999_999, 100_000_000])),
        0u32..6,
        (of(-1i128..100_000_000), of(-1i128..100_000_000)),
    )
        .prop_map(|(kind, (token, who), (amount, amounts), (flag, fee), index, fees)| match kind {
            0 => Step::Create { token, creator: who, supply: amount, metadata: flag, fee },
            1 => Step::Burn { token, amount },
            2 => Step::BurnBatch { token, amounts },
            3 => Step::AdminBurn { token, caller: who, amount },
            4 => Step::SetClawback { token, caller: who, enabled: flag },
            5 => Step::SetMetadata { index },
            6 => Step::UpdateFees { caller: who, base_fee: fees.0, metadata_fee: fees.1 },
            _ => Step::Initialize,
        })
}

fn person(who: usize) -> Address {
    match who {
        0 => address("admin"),
        _ => Address::new(format!("creator-{}", who)),
    }
}

fn token(which: usize) -> Address {
    Address::new(format!("token-{}", which))
}

/// Takes the step where the factory may start it, and says whether it was
/// accepted.
fn take(factory: &mut TokenFactory, step: &Step) -> bool {
    match step {
        Step::Create { token: which, creator, supply, metadata, fee } => {
            if factory.get_token_info_by_address(token(*which)).is_ok() {
                return false;
            }
            factory
                .create_token(
                    person(*creator),
                    String::from("Walk"),
                    String::from("WLK"),
                    7,
                    *supply,
                    if *metadata { Some(String::from("ipfs://walk")) } else { None },
                    *fee,
                    token(*which),
                    7,
                )
                .is_ok()
        }
        Step::Burn { token: which, amount } => {
            factory.burn(token(*which), address("holder"), *amount).is_ok()
        }
        Step::BurnBatch { token: which, amounts } => {
            let burns = amounts.iter().map(|amount| (address("holder"), *amount)).collect();
            factory.burn_batch(token(*which), burns).is_ok()
        }
        Step::AdminBurn { token: which, caller, amount } => {
            factory.admin_burn(token(*which), person(*caller), address("holder"), *amount).is_ok()
        }
        Step::SetClawback { token: which, caller, enabled } => {
            factory.set_clawback(token(*which), person(*caller), *enabled).is_ok()
        }
        Step::SetMetadata { index } => factory.set_metadata(*index, String::from("ipfs://set")).is_ok(),
        Step::UpdateFees { caller, base_fee, metadata_fee } => {
            factory.update_fees(person(*caller), *base_fee, *metadata_fee).is_ok()
        }
        Step::Initialize => {
            factory.initialize(address("usurper"), address("purse"), 1, 1).is_ok()
        }
    }
}

fn records(factory: &TokenFactory) -> Vec<TokenInfo> {
    (0..factory.get_token_count()).map(|i| factory.get_token_info(i).unwrap()).collect()
}

#[test]
fn prop_every_walk_keeps_the_registry_consistent() {
    runner(300)
        .run(&collection::vec(step(), 0..40), |steps| {
            let mut factory = initialized();
            let mut issued: Vec<i128> = Vec::new();
            for step in steps.iter() {
                let before = factory.clone();
                let earlier = records(&factory);
                let accepted = take(&mut factory, step);
                if !accepted {
                    check(factory == before, "a refusal writes nothing")?;
                }
                let later = records(&factory);

                check(later.len() >= earlier.len(), "the count never goes down")?;
                if let Step::Create { supply, .. } = step {
                    check(later.len() == earlier.len() + accepted as usize, "one more token")?;
                    if accepted {
                        issued.push(*supply);
                    }
                } else {
                    check(later.len() == earlier.len(), "only issuing counts")?;
                }
                for (index, now) in later.iter().enumerate() {
                    check(
                        factory.get_token_info_by_address(now.address.clone()).as_ref() == Ok(now),
                        "both lookups agree",
                    )?;
                    check(now.total_supply >= 0, "supply never negative")?;
                    check(now.total_burned >= 0, "burned never negative")?;
                    check(
                        now.total_supply.checked_add(now.total_burned) == Some(issued[index]),
                        "what was issued is what is left plus what was burned",
                    )?;
                    if let Some(then) = earlier.get(index) {
                        check(now.address == then.address, "the token stays")?;
                        check(now.creator == then.creator, "the creator stays")?;
                        check(now.burn_count >= then.burn_count, "burns never go down")?;
                        check(now.total_burned >= then.total_burned, "burned never goes down")?;
                        if then.metadata_uri.is_some() {
                            check(now.metadata_uri == then.metadata_uri, "metadata stays")?;
                        }
                    }
                }
                let state = factory.get_state();
                check(state.admin == address("admin"), "the administrator stays")?;
                check(state.treasury == address("treasury"), "the treasury stays")?;
                check(state.base_fee >= 0 && state.metadata_fee >= 0, "no negative fee")?;
            }
            Ok(())
        })
        .unwrap();
}

#[test]
fn prop_batch_is_the_burns_one_after_the_other() {
    let strategy = (1i128..5_000, collection::vec(-1i128..1_500, 0..6));
    runner(500)
        .run(&strategy, |(supply, amounts)| {
            let mut batched = initialized();
            batched
                .create_token(
                    address("creator"),
                    String::from("Batch"),
                    String::from("BAT"),
                    7,
                    supply,
                    None,
                    70_000_000,
                    address("token"),
                    0,
                )
                .unwrap();
            let mut stepwise = batched.clone();
            let before = batched.clone();

            let mut first_refusal = None;
            for amount in amounts.iter() {
                if let Err(error) = stepwise.burn(address("token"), address("holder"), *amount) {
                    first_refusal = Some(error);
                    break;
                }
            }
            let burns = amounts.iter().map(|amount| (address("holder"), *amount)).collect();
            let result = batched.burn_batch(address("token"), burns);

            match first_refusal {
                Some(error) => {
                    check(result == Err(error), "the first refusal refuses the batch")?;
                    check(batched == before, "and nothing is written")?;
                }
                None => {
                    check(result.is_ok(), "accepted")?;
                    check(result.unwrap().len() == amounts.len(), "one event for each burn")?;
                    check(batched == stepwise, "as one by one")?;
                    let total: i128 = amounts.iter().sum();
                    let info = batched.get_token_info(0).unwrap();
                    check(info.total_supply == supply - total, "supply")?;
                    check(info.total_burned == total, "burned")?;
                    check(info.burn_count as usize == amounts.len(), "count")?;
                }
            }
            Ok(())
        })
        .unwrap();
}
