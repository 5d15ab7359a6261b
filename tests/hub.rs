use basset_hub::bond::{execute_bond, find_payment};
use basset_hub::convert::{convert_bsei_stsei, convert_stsei_bsei};
use basset_hub::fee::apply_peg_fee;
use basset_hub::math::{decimal_division, decimal_multiplication, Rate, DECIMAL_FRACTIONAL};
use basset_hub::rates::slashing;
use basset_hub::registry::calculate_delegations;
use basset_hub::settle::{calculate_new_withdraw_rate, process_withdraw_rate};
use basset_hub::state::{
    all_unbond_history, convert, get_unbond_requests, history_limit, receive_cw20, HookAction,
};
use basset_hub::types::{
    BondType, Coin, Config, CurrentBatch, Cw20HookMsg, HubError, Parameters, State, UnbondHistory,
    UnbondType, UnbondWaitEntity, ValidatorResponse,
};
use basset_hub::unbond::{execute_unbond, process_undelegations, store_unbond_wait_list};
use basset_hub::withdraw::{execute_withdraw_unbonded, get_finished_amount};

const F: u128 = DECIMAL_FRACTIONAL;

fn rate(numerator: u128, denominator: u128) -> Rate {
    Rate { atomics: numerator * F / denominator }
}

fn fresh_state() -> State {
    State {
        bsei_exchange_rate: Rate::one(),
        stsei_exchange_rate: Rate::one(),
        total_bond_bsei_amount: 0,
        total_bond_stsei_amount: 0,
        last_index_modification: 0,
        prev_hub_balance: 0,
        last_unbonded_time: 100,
        last_processed_batch: 0,
    }
}

fn first_batch() -> CurrentBatch {
    CurrentBatch { id: 1, requested_bsei_with_fee: 0, requested_stsei: 0 }
}

fn params(threshold: Rate, fee: Rate) -> Parameters {
    Parameters {
        epoch_period: 30,
        underlying_coin_denom: "usei".to_string(),
        unbonding_period: 210,
        peg_recovery_fee: fee,
        er_threshold: threshold,
        reward_denom: "usei".to_string(),
        paused: Some(false),
    }
}

fn config() -> Config {
    Config {
        creator: "creator".to_string(),
        update_reward_index_addr: "index".to_string(),
        reward_dispatcher_contract: Some("dispatcher".to_string()),
        validators_registry_contract: Some("registry".to_string()),
        bsei_token_contract: Some("bsei_token".to_string()),
        stsei_token_contract: Some("stsei_token".to_string()),
        airdrop_registry_contract: None,
        rewards_contract: Some("rewards".to_string()),
    }
}

fn validators() -> Vec<ValidatorResponse> {
    vec![
        ValidatorResponse { total_delegated: 0, address: "val1".to_string() },
        ValidatorResponse { total_delegated: 0, address: "val2".to_string() },
    ]
}

fn usei(amount: u128) -> Vec<Coin> {
    vec![Coin { denom: "usei".to_string(), amount }]
}

fn history_record(id: u64, time: u64, bsei: u128, bsei_rate: Rate) -> UnbondHistory {
    UnbondHistory {
        batch_id: id,
        time,
        bsei_amount: bsei,
        bsei_applied_exchange_rate: bsei_rate,
        bsei_withdraw_rate: bsei_rate,
        stsei_amount: 0,
        stsei_applied_exchange_rate: Rate::one(),
        stsei_withdraw_rate: Rate::one(),
        released: false,
    }
}

#[test]
fn bond_then_unbond_at_par() {
    let p = params(Rate::one(), Rate::zero());
    let bonded = execute_bond(
        &fresh_state(),
        &first_batch(),
        &p,
        &config(),
        BondType::BSei,
        &"alice".to_string(),
        &usei(1000),
        0,
        0,
        0,
        &validators(),
    )
    .unwrap();
    assert_eq!(bonded.mint_amount, 1000);
    assert_eq!(bonded.payment, 1000);
    assert_eq!(bonded.state.total_bond_bsei_amount, 1000);
    assert_eq!(bonded.state.bsei_exchange_rate, Rate::one());
    assert_eq!(bonded.token_contract, Some("bsei_token".to_string()));
    assert_eq!(bonded.delegations.iter().sum::<u128>(), 1000);

    let mut wait = Vec::new();
    let unbonded = execute_unbond(
        &bonded.state,
        &first_batch(),
        &p,
        &config(),
        UnbondType::BSei,
        1000,
        &mut wait,
        1000,
        1000,
        0,
        100,
    )
    .unwrap();
    assert_eq!(unbonded.unbonded_amount, 1000);
    assert_eq!(unbonded.current_batch.requested_bsei_with_fee, 1000);
    assert_eq!(unbonded.token_contract, "bsei_token".to_string());
    assert!(unbonded.flushed.is_none());
    assert_eq!(wait, vec![(1u64, UnbondWaitEntity { bsei_amount: 1000, stsei_amount: 0 })]);
}

#[test]
fn peg_fee_below_threshold() {
    let net = apply_peg_fee(100, rate(9, 10), Rate::one(), rate(5, 100), 1000, 0, 900, 100);
    assert_eq!(net, Ok(95));
}

#[test]
fn unbond_records_amount_net_of_peg_fee() {
    let mut s = fresh_state();
    s.bsei_exchange_rate = rate(9, 10);
    s.total_bond_bsei_amount = 900;
    let mut wait = Vec::new();
    let r = execute_unbond(
        &s,
        &first_batch(),
        &params(Rate::one(), rate(5, 100)),
        &config(),
        UnbondType::BSei,
        100,
        &mut wait,
        0,
        1000,
        0,
        100,
    )
    .unwrap();
    assert_eq!(r.unbonded_amount, 95);
    assert_eq!(r.current_batch.requested_bsei_with_fee, 95);
    assert_eq!(wait[0].1.bsei_amount, 95);
}

#[test]
fn settlement_shares_a_slash_between_batches() {
    let mut s = fresh_state();
    let mut history = vec![history_record(1, 10, 100, Rate::one()), history_record(2, 20, 200, Rate::one())];
    process_withdraw_rate(&mut s, &mut history, 50, 270).unwrap();
    assert_eq!(s.last_processed_batch, 2);
    assert!(history[0].released && history[1].released);
    let paid_first = decimal_multiplication(100, history[0].bsei_withdraw_rate).unwrap();
    let paid_second = decimal_multiplication(200, history[1].bsei_withdraw_rate).unwrap();
    assert!(paid_first <= 90 && paid_first + 1 >= 90);
    assert!(paid_second <= 180 && paid_second + 1 >= 180);
    assert!(paid_first + paid_second <= 270);
}

#[test]
fn settlement_skips_batches_still_unbonding() {
    let mut s = fresh_state();
    let mut history = vec![history_record(1, 10, 100, Rate::one()), history_record(2, 80, 200, Rate::one())];
    process_withdraw_rate(&mut s, &mut history, 50, 100).unwrap();
    assert_eq!(s.last_processed_batch, 1);
    assert!(history[0].released);
    assert!(!history[1].released);
    assert_eq!(history[0].bsei_withdraw_rate, Rate::one());
}

#[test]
fn settlement_with_nothing_due_changes_nothing() {
    let mut s = fresh_state();
    s.prev_hub_balance = 500;
    let mut history = vec![history_record(1, 80, 100, Rate::one())];
    let before = history.clone();
    assert_eq!(process_withdraw_rate(&mut s, &mut history, 50, 0), Ok(()));
    assert_eq!(history, before);
    assert_eq!(s, State { prev_hub_balance: 500, ..fresh_state() });
}

#[test]
fn settlement_refuses_a_lower_balance() {
    let mut s = fresh_state();
    s.prev_hub_balance = 500;
    let mut history = vec![history_record(1, 10, 100, Rate::one())];
    assert_eq!(process_withdraw_rate(&mut s, &mut history, 50, 400), Err(HubError::Invariant));
    assert!(!history[0].released);
    assert_eq!(s.last_processed_batch, 0);
}

#[test]
fn new_withdraw_rate_rounds_in_favour_of_the_hub() {
    let loss = calculate_new_withdraw_rate(100, Rate::one(), 300, 30, false).unwrap();
    assert_eq!(loss, rate(89, 100));
    let gain = calculate_new_withdraw_rate(100, Rate::one(), 300, 30, true).unwrap();
    assert_eq!(gain, rate(109, 100));
    let untouched = calculate_new_withdraw_rate(0, rate(3, 2), 300, 30, false).unwrap();
    assert_eq!(untouched, rate(3, 2));
}

#[test]
fn convert_bsei_to_stsei_at_double_rate() {
    let mut s = fresh_state();
    s.bsei_exchange_rate = rate(2, 1);
    s.total_bond_bsei_amount = 200;
    let r = convert_bsei_stsei(
        &s,
        &first_batch(),
        &params(Rate::one(), Rate::zero()),
        &config(),
        50,
        0,
        100,
        0,
    )
    .unwrap();
    assert_eq!(r.minted, 100);
    assert_eq!(r.state.total_bond_bsei_amount, 100);
    assert_eq!(r.state.total_bond_stsei_amount, 100);
    assert_eq!(r.state.bsei_exchange_rate, rate(2, 1));
    assert_eq!(r.state.stsei_exchange_rate, Rate::one());
    assert_eq!(r.mint_contract, "stsei_token".to_string());
    assert_eq!(r.burn_contract, "bsei_token".to_string());
}

#[test]
fn convert_stsei_to_bsei_at_half_rate() {
    let mut s = fresh_state();
    s.bsei_exchange_rate = rate(2, 1);
    s.total_bond_bsei_amount = 200;
    s.total_bond_stsei_amount = 300;
    let r = convert_stsei_bsei(
        &s,
        &first_batch(),
        &params(Rate::one(), Rate::zero()),
        &config(),
        100,
        0,
        100,
        300,
    )
    .unwrap();
    assert_eq!(r.minted, 50);
    assert_eq!(r.state.total_bond_bsei_amount, 300);
    assert_eq!(r.state.total_bond_stsei_amount, 200);
    assert_eq!(r.mint_contract, "bsei_token".to_string());
}

#[test]
fn negative_required_fee_is_an_arithmetic_error() {
    let r = apply_peg_fee(100, rate(9, 10), Rate::one(), rate(5, 100), 0, 0, 900, 100);
    assert_eq!(r, Err(HubError::Arithmetic));
    let mut s = fresh_state();
    s.bsei_exchange_rate = rate(9, 10);
    s.total_bond_bsei_amount = 900;
    let mut wait = Vec::new();
    let unbond = execute_unbond(
        &s,
        &first_batch(),
        &params(Rate::one(), rate(5, 100)),
        &config(),
        UnbondType::BSei,
        100,
        &mut wait,
        0,
        0,
        0,
        100,
    );
    assert!(matches!(unbond, Err(HubError::Arithmetic)));
    assert!(wait.is_empty());
}

#[test]
fn slashing_check_shares_the_shortfall() {
    let mut s = fresh_state();
    s.total_bond_bsei_amount = 600;
    s.total_bond_stsei_amount = 400;
    let once = slashing(&s, &first_batch(), 900, 600, 400).unwrap();
    assert_eq!(once.total_bond_bsei_amount, 540);
    assert_eq!(once.total_bond_stsei_amount, 360);
    assert_eq!(once.bsei_exchange_rate, rate(9, 10));
    assert_eq!(once.stsei_exchange_rate, rate(9, 10));
    let twice = slashing(&once, &first_batch(), 900, 600, 400).unwrap();
    assert_eq!(twice, once);
}

#[test]
fn slashing_check_without_delegations_keeps_state() {
    let mut s = fresh_state();
    s.total_bond_bsei_amount = 600;
    assert_eq!(slashing(&s, &first_batch(), 0, 600, 0), Ok(s));
}

#[test]
fn round_trip_never_returns_more_than_bonded() {
    let p = params(Rate::one(), Rate::zero());
    let mut s = fresh_state();
    s.bsei_exchange_rate = rate(3, 2);
    s.total_bond_bsei_amount = 1500;
    let bonded = execute_bond(
        &s,
        &first_batch(),
        &p,
        &config(),
        BondType::BSei,
        &"alice".to_string(),
        &usei(1001),
        0,
        1000,
        0,
        &validators(),
    )
    .unwrap();
    assert_eq!(bonded.mint_amount, 667);
    let mut wait = Vec::new();
    let unbonded = execute_unbond(
        &bonded.state,
        &first_batch(),
        &p,
        &config(),
        UnbondType::BSei,
        bonded.mint_amount,
        &mut wait,
        0,
        1667,
        0,
        200,
    )
    .unwrap();
    let (history_rec, undelegated) = unbonded.flushed.unwrap();
    assert!(undelegated <= 1001);
    let mut state = unbonded.state;
    state.prev_hub_balance = 0;
    let mut history = vec![history_rec];
    let paid = execute_withdraw_unbonded(&mut state, &mut history, &mut wait, 500, 210, undelegated)
        .unwrap();
    assert!(paid <= 1001);
    assert!(wait.is_empty());
    assert_eq!(state.prev_hub_balance, undelegated - paid);
}

#[test]
fn round_trip_at_par_is_exact() {
    let p = params(Rate::one(), Rate::zero());
    let bonded = execute_bond(
        &fresh_state(),
        &first_batch(),
        &p,
        &config(),
        BondType::StSei,
        &"bob".to_string(),
        &usei(777),
        0,
        0,
        0,
        &validators(),
    )
    .unwrap();
    assert_eq!(bonded.mint_amount, 777);
    let mut wait = Vec::new();
    let unbonded = execute_unbond(
        &bonded.state,
        &first_batch(),
        &p,
        &config(),
        UnbondType::StSei,
        777,
        &mut wait,
        0,
        0,
        777,
        200,
    )
    .unwrap();
    let (rec, undelegated) = unbonded.flushed.unwrap();
    assert_eq!(undelegated, 777);
    let mut state = unbonded.state;
    let mut history = vec![rec];
    let paid = execute_withdraw_unbonded(&mut state, &mut history, &mut wait, 500, 210, 777).unwrap();
    assert_eq!(paid, 777);
}

#[test]
fn withdraw_with_nothing_released_is_refused() {
    let mut s = fresh_state();
    let mut history = vec![history_record(1, 400, 100, Rate::one())];
    let mut wait = vec![(1u64, UnbondWaitEntity { bsei_amount: 100, stsei_amount: 0 })];
    let r = execute_withdraw_unbonded(&mut s, &mut history, &mut wait, 500, 210, 100);
    assert_eq!(r, Err(HubError::Validation));
    assert_eq!(wait.len(), 1);
    assert!(!history[0].released);
}

#[test]
fn finished_amount_counts_released_batches_only() {
    let mut released = history_record(1, 10, 100, rate(9, 10));
    released.released = true;
    let history = vec![released, history_record(2, 20, 50, Rate::one())];
    let wait = vec![
        (1u64, UnbondWaitEntity { bsei_amount: 40, stsei_amount: 0 }),
        (2u64, UnbondWaitEntity { bsei_amount: 50, stsei_amount: 0 }),
    ];
    assert_eq!(get_finished_amount(&wait, &history), Ok((36, vec![1u64])));
}

#[test]
fn bond_refuses_two_coins() {
    let mut funds = usei(10);
    funds.push(Coin { denom: "uatom".to_string(), amount: 5 });
    assert_eq!(find_payment(&funds, &"usei".to_string()), Err(HubError::Validation));
    assert_eq!(find_payment(&usei(0), &"usei".to_string()), Err(HubError::Validation));
    assert_eq!(find_payment(&usei(7), &"usei".to_string()), Ok(7));
}

#[test]
fn bond_rewards_only_from_dispatcher() {
    let p = params(Rate::one(), Rate::zero());
    let r = execute_bond(
        &fresh_state(),
        &first_batch(),
        &p,
        &config(),
        BondType::BondRewards,
        &"mallory".to_string(),
        &usei(10),
        0,
        0,
        0,
        &validators(),
    );
    assert!(matches!(r, Err(HubError::Unauthorized)));
    let ok = execute_bond(
        &fresh_state(),
        &first_batch(),
        &p,
        &config(),
        BondType::BondRewards,
        &"dispatcher".to_string(),
        &usei(10),
        0,
        0,
        0,
        &validators(),
    )
    .unwrap();
    assert_eq!(ok.mint_amount, 0);
    assert_eq!(ok.token_contract, None);
    assert_eq!(ok.state.total_bond_stsei_amount, 10);
}

#[test]
fn bond_needs_registered_collaborators() {
    let p = params(Rate::one(), Rate::zero());
    let mut c = config();
    c.validators_registry_contract = None;
    let r = execute_bond(
        &fresh_state(),
        &first_batch(),
        &p,
        &c,
        BondType::BSei,
        &"alice".to_string(),
        &usei(10),
        0,
        0,
        0,
        &validators(),
    );
    assert!(matches!(r, Err(HubError::NotConfigured)));
    let empty: Vec<ValidatorResponse> = Vec::new();
    let r = execute_bond(
        &fresh_state(),
        &first_batch(),
        &p,
        &config(),
        BondType::BSei,
        &"alice".to_string(),
        &usei(10),
        0,
        0,
        0,
        &empty,
    );
    assert!(matches!(r, Err(HubError::NotConfigured)));
}

#[test]
fn delegations_even_out_validators() {
    let vals = vec![
        ValidatorResponse { total_delegated: 100, address: "a".to_string() },
        ValidatorResponse { total_delegated: 0, address: "b".to_string() },
    ];
    let (left, split) = calculate_delegations(50, &vals).unwrap();
    assert_eq!(left, 0);
    assert_eq!(split, vec![0u128, 50]);
    let (left, split) = calculate_delegations(101, &vals).unwrap();
    assert_eq!(left, 0);
    assert_eq!(split, vec![1u128, 100]);
}

#[test]
fn flush_moves_batch_into_history() {
    let mut s = fresh_state();
    s.total_bond_bsei_amount = 1000;
    s.total_bond_stsei_amount = 500;
    s.bsei_exchange_rate = rate(2, 1);
    let mut b = CurrentBatch { id: 4, requested_bsei_with_fee: 100, requested_stsei: 50 };
    let (rec, undelegate) = process_undelegations(&mut s, &mut b, 900).unwrap();
    assert_eq!(undelegate, 250);
    assert_eq!(s.total_bond_bsei_amount, 800);
    assert_eq!(s.total_bond_stsei_amount, 450);
    assert_eq!(s.last_unbonded_time, 900);
    assert_eq!(b, CurrentBatch { id: 5, requested_bsei_with_fee: 0, requested_stsei: 0 });
    assert_eq!(rec.batch_id, 4);
    assert_eq!(rec.bsei_withdraw_rate, rate(2, 1));
    assert!(!rec.released);
}

#[test]
fn flush_refuses_to_undelegate_more_than_bonded() {
    let mut s = fresh_state();
    s.total_bond_bsei_amount = 10;
    let mut b = CurrentBatch { id: 4, requested_bsei_with_fee: 100, requested_stsei: 0 };
    assert_eq!(process_undelegations(&mut s, &mut b, 900), Err(HubError::Arithmetic));
    assert_eq!(b.id, 4);
    assert_eq!(s.total_bond_bsei_amount, 10);
}

#[test]
fn wait_list_accumulates_per_batch() {
    let mut wait = Vec::new();
    store_unbond_wait_list(&mut wait, 3, 10, UnbondType::BSei).unwrap();
    store_unbond_wait_list(&mut wait, 3, 5, UnbondType::StSei).unwrap();
    store_unbond_wait_list(&mut wait, 4, 7, UnbondType::BSei).unwrap();
    assert_eq!(get_unbond_requests(&wait), vec![(3u64, 10u128, 5u128), (4u64, 7u128, 0u128)]);
    assert_eq!(store_unbond_wait_list(&mut wait, 4, u128::MAX, UnbondType::BSei), Err(HubError::Arithmetic));
}

#[test]
fn fixed_point_helpers() {
    assert_eq!(decimal_multiplication(1000, rate(9, 10)), Ok(900));
    assert_eq!(decimal_division(900, rate(9, 10)), Ok(1000));
    assert_eq!(decimal_division(900, Rate::zero()), Err(HubError::Arithmetic));
    assert_eq!(Rate::from_ratio(1, 3).unwrap().atomics, 333_333_333_333_333_333);
    assert_eq!(Rate::from_ratio(1, 0), Err(HubError::Arithmetic));
    assert_eq!(decimal_multiplication(u128::MAX, rate(2, 1)), Err(HubError::Arithmetic));
}

#[test]
fn history_pages() {
    let history: Vec<UnbondHistory> = (1..=15).map(|i| history_record(i, i * 10, 1, Rate::one())).collect();
    assert_eq!(history_limit(None), 10);
    assert_eq!(history_limit(Some(500)), 100);
    assert_eq!(history_limit(Some(3)), 3);
    let page = all_unbond_history(&history, None, None);
    assert_eq!(page.len(), 10);
    assert_eq!(page[0].batch_id, 1);
    let page = all_unbond_history(&history, Some(12), Some(5));
    assert_eq!(page.iter().map(|h| h.batch_id).collect::<Vec<u64>>(), vec![13, 14, 15]);
    assert!(all_unbond_history(&history, Some(40), None).is_empty());
}

#[test]
fn start_key_skips_the_named_batch() {
    assert_eq!(convert(None), None);
    assert_eq!(convert(Some(1)), Some(vec![0u8, 0, 0, 0, 0, 0, 0, 1, 1]));
    assert_eq!(convert(Some(0x0102)), Some(vec![0u8, 0, 0, 0, 0, 0, 1, 2, 1]));
}

#[test]
fn hooks_route_by_token_contract() {
    let c = config();
    assert_eq!(receive_cw20(&c, &"bsei_token".to_string(), Cw20HookMsg::Unbond {}), Ok(HookAction::UnbondBSei));
    assert_eq!(
        receive_cw20(&c, &"stsei_token".to_string(), Cw20HookMsg::Convert {}),
        Ok(HookAction::ConvertStSeiToBSei)
    );
    assert_eq!(receive_cw20(&c, &"other".to_string(), Cw20HookMsg::Unbond {}), Err(HubError::Unauthorized));
    let mut missing = config();
    missing.stsei_token_contract = None;
    assert_eq!(
        receive_cw20(&missing, &"bsei_token".to_string(), Cw20HookMsg::Unbond {}),
        Err(HubError::NotConfigured)
    );
}

#[test]
fn rates_and_bonded_amounts_stay_non_negative() {
    let p = params(Rate::one(), Rate::zero());
    let bonded = execute_bond(
        &fresh_state(),
        &first_batch(),
        &p,
        &config(),
        BondType::StSei,
        &"carol".to_string(),
        &usei(5),
        0,
        0,
        0,
        &validators(),
    )
    .unwrap();
    let s = bonded.state;
    assert!(s.bsei_exchange_rate.atomics >= Rate::zero().atomics);
    assert!(s.stsei_exchange_rate.atomics > 0);
    assert_eq!(s.total_bond_stsei_amount, 5);
}

#[test]
fn settlement_with_rewards_never_pays_more_than_received() {
    let mut s = fresh_state();
    let mut history = vec![history_record(1, 10, 100, Rate::one()), history_record(2, 20, 200, Rate::one())];
    process_withdraw_rate(&mut s, &mut history, 50, 330).unwrap();
    let paid_first = decimal_multiplication(100, history[0].bsei_withdraw_rate).unwrap();
    let paid_second = decimal_multiplication(200, history[1].bsei_withdraw_rate).unwrap();
    assert!(paid_first >= 100 && paid_second >= 200);
    assert!(paid_first + paid_second <= 330);
    assert_eq!(paid_first, 109);
    assert_eq!(paid_second, 219);
}
