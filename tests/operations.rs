use basset_hub::contract::{
    accept_ownership, check_not_paused, execute_redelegate_proxy, execute_update_config, execute_update_global,
    execute_update_params, instantiate, set_new_owner,
};
use basset_hub::math::{Rate, DECIMAL_FRACTIONAL};
use basset_hub::rates::actual_total_bonded;
use basset_hub::registry::{calculate_undelegations, pick_validator, sort_by_delegation};
use basset_hub::types::{
    Coin, Config, CurrentBatch, HubError, InstantiateMsg, NewOwnerResponse, Parameters, State, UnbondHistory,
    UnbondWaitEntity, ValidatorResponse,
};
use basset_hub::withdraw::query_get_finished_amount;

fn validator(address: &str, total_delegated: u128) -> ValidatorResponse {
    ValidatorResponse { total_delegated, address: address.to_string() }
}

fn init_msg(fee: u128, threshold: u128) -> InstantiateMsg {
    InstantiateMsg {
        epoch_period: 30,
        underlying_coin_denom: "usei".to_string(),
        unbonding_period: 210,
        peg_recovery_fee: Rate { atomics: fee },
        er_threshold: Rate { atomics: threshold },
        reward_denom: "usei".to_string(),
        update_reward_index_addr: "index".to_string(),
    }
}

fn empty_config() -> Config {
    Config {
        creator: "creator".to_string(),
        update_reward_index_addr: "index".to_string(),
        reward_dispatcher_contract: None,
        validators_registry_contract: None,
        bsei_token_contract: None,
        stsei_token_contract: None,
        airdrop_registry_contract: None,
        rewards_contract: None,
    }
}

#[test]
fn undelegations_take_from_the_largest_first() {
    let vals = vec![validator("a", 300), validator("b", 100), validator("c", 100)];
    let split = calculate_undelegations(150, &vals).unwrap();
    assert_eq!(split, vec![150u128, 0, 0]);
    let split = calculate_undelegations(450, &vals).unwrap();
    assert_eq!(split.iter().sum::<u128>(), 450);
    assert_eq!(split, vec![283u128, 83, 84]);
    assert_eq!(calculate_undelegations(501, &vals), Err(HubError::Arithmetic));
    assert_eq!(calculate_undelegations(1, &Vec::new()), Err(HubError::NotConfigured));
}

#[test]
fn undelegations_can_empty_every_validator() {
    let vals = vec![validator("a", 5), validator("b", 7)];
    assert_eq!(calculate_undelegations(12, &vals), Ok(vec![5u128, 7]));
}

#[test]
fn pick_validator_sorts_and_skips_zero_amounts() {
    let current = vec![validator("small", 100), validator("big", 300), validator("mid", 100)];
    let msgs = pick_validator(150, current).unwrap();
    assert_eq!(msgs, vec![("big".to_string(), 150u128)]);
    assert_eq!(pick_validator(10, Vec::new()), Err(HubError::NotConfigured));
}

#[test]
fn sort_keeps_order_of_equal_delegations() {
    let sorted = sort_by_delegation(vec![validator("x", 1), validator("y", 5), validator("z", 1)]);
    let names: Vec<String> = sorted.iter().map(|v| v.address.clone()).collect();
    assert_eq!(names, vec!["y".to_string(), "x".to_string(), "z".to_string()]);
}

#[test]
fn instantiate_sets_defaults_and_caps_threshold() {
    let (config, params, state, batch) =
        instantiate("creator".to_string(), 1000, init_msg(DECIMAL_FRACTIONAL / 100, 2 * DECIMAL_FRACTIONAL))
            .unwrap();
    assert_eq!(config.creator, "creator".to_string());
    assert!(config.bsei_token_contract.is_none());
    assert_eq!(params.er_threshold, Rate::one());
    assert_eq!(params.paused, Some(false));
    assert_eq!(state.bsei_exchange_rate, Rate::one());
    assert_eq!(state.last_unbonded_time, 1000);
    assert_eq!(batch, CurrentBatch { id: 1, requested_bsei_with_fee: 0, requested_stsei: 0 });
}

#[test]
fn instantiate_refuses_fee_above_one() {
    let r = instantiate("creator".to_string(), 0, init_msg(DECIMAL_FRACTIONAL + 1, DECIMAL_FRACTIONAL));
    assert!(matches!(r, Err(HubError::Validation)));
}

#[test]
fn paused_hub_refuses_operations() {
    let mut p = Parameters {
        epoch_period: 1,
        underlying_coin_denom: "usei".to_string(),
        unbonding_period: 1,
        peg_recovery_fee: Rate::zero(),
        er_threshold: Rate::one(),
        reward_denom: "usei".to_string(),
        paused: Some(true),
    };
    assert_eq!(check_not_paused(&p), Err(HubError::Paused));
    p.paused = None;
    assert_eq!(check_not_paused(&p), Ok(()));
}

#[test]
fn redelegation_only_from_registry() {
    let mut c = empty_config();
    let moves = vec![("dst".to_string(), Coin { denom: "usei".to_string(), amount: 10 })];
    assert!(matches!(
        execute_redelegate_proxy(&c, &"registry".to_string(), moves.clone()),
        Err(HubError::NotConfigured)
    ));
    c.validators_registry_contract = Some("registry".to_string());
    assert!(matches!(
        execute_redelegate_proxy(&c, &"someone".to_string(), moves.clone()),
        Err(HubError::Unauthorized)
    ));
    let ok = execute_redelegate_proxy(&c, &"registry".to_string(), moves).unwrap();
    assert_eq!(ok.len(), 1);
    assert_eq!(ok[0].1.amount, 10);
}

#[test]
fn global_update_records_time() {
    let s = State {
        bsei_exchange_rate: Rate::one(),
        stsei_exchange_rate: Rate::one(),
        total_bond_bsei_amount: 5,
        total_bond_stsei_amount: 6,
        last_index_modification: 0,
        prev_hub_balance: 0,
        last_unbonded_time: 0,
        last_processed_batch: 0,
    };
    let mut c = empty_config();
    assert_eq!(execute_update_global(&s, &c, false, 77), Err(HubError::NotConfigured));
    c.reward_dispatcher_contract = Some("dispatcher".to_string());
    assert_eq!(execute_update_global(&s, &c, true, 77), Err(HubError::NotConfigured));
    let updated = execute_update_global(&s, &c, false, 77).unwrap();
    assert_eq!(updated.last_index_modification, 77);
    assert_eq!(updated.total_bond_stsei_amount, 6);
}

#[test]
fn delegated_total_counts_staking_denom_only() {
    let coins = vec![
        Coin { denom: "usei".to_string(), amount: 40 },
        Coin { denom: "uatom".to_string(), amount: 7 },
        Coin { denom: "usei".to_string(), amount: 2 },
    ];
    assert_eq!(actual_total_bonded(&coins, &"usei".to_string()), Ok(42));
    let huge = vec![
        Coin { denom: "usei".to_string(), amount: u128::MAX },
        Coin { denom: "usei".to_string(), amount: 1 },
    ];
    assert_eq!(actual_total_bonded(&huge, &"usei".to_string()), Err(HubError::Arithmetic));
}

#[test]
fn withdrawable_estimate_uses_flush_time() {
    let record = |id: u64, time: u64| UnbondHistory {
        batch_id: id,
        time,
        bsei_amount: 100,
        bsei_applied_exchange_rate: Rate::one(),
        bsei_withdraw_rate: Rate { atomics: DECIMAL_FRACTIONAL / 2 },
        stsei_amount: 0,
        stsei_applied_exchange_rate: Rate::one(),
        stsei_withdraw_rate: Rate::one(),
        released: false,
    };
    let history = vec![record(1, 10), record(2, 90)];
    let wait = vec![
        (1u64, UnbondWaitEntity { bsei_amount: 20, stsei_amount: 4 }),
        (2u64, UnbondWaitEntity { bsei_amount: 30, stsei_amount: 0 }),
    ];
    assert_eq!(query_get_finished_amount(&wait, &history, 50), Ok(14));
    assert_eq!(query_get_finished_amount(&wait, &history, 100), Ok(29));
}

#[test]
fn owner_registers_collaborators() {
    let c = empty_config();
    let r = execute_update_config(&c, &"someone".to_string(), Some("x".to_string()), None, None, None, None, None, None);
    assert!(matches!(r, Err(HubError::Unauthorized)));
    let updated = execute_update_config(
        &c,
        &"creator".to_string(),
        Some("dispatcher".to_string()),
        Some("registry".to_string()),
        Some("bsei".to_string()),
        None,
        None,
        None,
        Some("new_index".to_string()),
    )
    .unwrap();
    assert_eq!(updated.reward_dispatcher_contract, Some("dispatcher".to_string()));
    assert_eq!(updated.validators_registry_contract, Some("registry".to_string()));
    assert_eq!(updated.bsei_token_contract, Some("bsei".to_string()));
    assert_eq!(updated.stsei_token_contract, None);
    assert_eq!(updated.update_reward_index_addr, "new_index".to_string());
}

#[test]
fn owner_updates_parameters() {
    let (config, params, _, _) =
        instantiate("creator".to_string(), 0, init_msg(0, DECIMAL_FRACTIONAL)).unwrap();
    let r = execute_update_params(&params, &config, &"x".to_string(), Some(5), None, None, None, None);
    assert!(matches!(r, Err(HubError::Unauthorized)));
    let r = execute_update_params(
        &params,
        &config,
        &"creator".to_string(),
        None,
        None,
        Some(Rate { atomics: 2 * DECIMAL_FRACTIONAL }),
        None,
        None,
    );
    assert!(matches!(r, Err(HubError::Validation)));
    let p = execute_update_params(
        &params,
        &config,
        &"creator".to_string(),
        Some(5),
        None,
        Some(Rate { atomics: DECIMAL_FRACTIONAL / 20 }),
        Some(Rate { atomics: 3 * DECIMAL_FRACTIONAL }),
        Some(true),
    )
    .unwrap();
    assert_eq!(p.epoch_period, 5);
    assert_eq!(p.unbonding_period, 210);
    assert_eq!(p.peg_recovery_fee, Rate { atomics: DECIMAL_FRACTIONAL / 20 });
    assert_eq!(p.er_threshold, Rate::one());
    assert_eq!(p.paused, Some(true));
}

#[test]
fn ownership_moves_only_to_proposed_owner() {
    let c = empty_config();
    assert!(matches!(set_new_owner(&c, &"x".to_string(), "y".to_string()), Err(HubError::Unauthorized)));
    let proposed = set_new_owner(&c, &"creator".to_string(), "heir".to_string()).unwrap();
    assert_eq!(proposed.new_owner, "heir".to_string());
    assert!(matches!(accept_ownership(&c, &"heir".to_string(), &None), Err(HubError::Unauthorized)));
    let proposed = Some(NewOwnerResponse { new_owner: "heir".to_string() });
    assert!(matches!(accept_ownership(&c, &"other".to_string(), &proposed), Err(HubError::Unauthorized)));
    let taken = accept_ownership(&c, &"heir".to_string(), &proposed).unwrap();
    assert_eq!(taken.creator, "heir".to_string());
}
