//! Reading the ledger: the unbond history page by page, a user's requests,
//! and the routing of tokens that arrive with a hook message.
use vstd::prelude::*;

use crate::settle::history_wf;
use crate::types::{Config, Cw20HookMsg, HubError, UnbondHistory, UnbondWaitEntity};

verus! {

/// Most history records returned by one page.
pub const MAX_LIMIT: u32 = 100;

/// History records returned by one page when no limit is given.
pub const DEFAULT_LIMIT: u32 = 10;

/// The eight bytes of `x`, most significant first.
pub open spec fn be_bytes(x: u64) -> Seq<u8> {
    seq![
        (x / 0x100000000000000) as u8,
        (x / 0x1000000000000 % 256) as u8,
        (x / 0x10000000000 % 256) as u8,
        (x / 0x100000000 % 256) as u8,
        (x / 0x1000000 % 256) as u8,
        (x / 0x10000 % 256) as u8,
        (x / 0x100 % 256) as u8,
        (x % 256) as u8,
    ]
}

/// The storage key from which a page of history starts when it starts after
/// batch `start_after`: the batch's big-endian key followed by one byte, so
/// that the batch itself is skipped.
pub fn convert(start_after: Option<u64>) -> (r: Option<Vec<u8>>)
    ensures
        start_after is None ==> r is None,
        start_after matches Some(idx) ==> r is Some && r.unwrap()@ == be_bytes(idx).push(1),
{
    match start_after {
        None => None,
        Some(idx) => {
            let mut v: Vec<u8> = Vec::new();
            v.push((idx / 0x100000000000000) as u8);
            v.push((idx / 0x1000000000000 % 256) as u8);
            v.push((idx / 0x10000000000 % 256) as u8);
            v.push((idx / 0x100000000 % 256) as u8);
            v.push((idx / 0x1000000 % 256) as u8);
            v.push((idx / 0x10000 % 256) as u8);
            v.push((idx / 0x100 % 256) as u8);
            v.push((idx % 256) as u8);
            v.push(1);
            assert(v@ =~= be_bytes(idx).push(1));
            Some(v)
        },
    }
}

/// The size of a history page: the limit asked for, ten by default, at most a hundred.
pub fn history_limit(limit: Option<u32>) -> (r: u32)
    ensures
        limit is None ==> r == DEFAULT_LIMIT,
        limit matches Some(l) ==> r == if l < MAX_LIMIT {
            l
        } else {
            MAX_LIMIT
        },
{
    let l = match limit {
        Some(l) => l,
        None => DEFAULT_LIMIT,
    };
    if l < MAX_LIMIT {
        l
    } else {
        MAX_LIMIT
    }
}

/// A page of the history: the records of batches after `start` (from the first
/// batch when `None`), in order, as many as `history_limit(limit)`.
pub fn all_unbond_history(history: &Vec<UnbondHistory>, start: Option<u64>, limit: Option<u32>) -> (r:
    Vec<UnbondHistory>)
    requires
        history_wf(history@),
    ensures
        ({
            let n = history@.len() as int;
            let from = match start {
                Some(s) => if (s as int) < n {
                    s as int
                } else {
                    n
                },
                None => 0,
            };
            let to = if from + history_limit_spec(limit) < n {
                from + history_limit_spec(limit)
            } else {
                n
            };
            r@ == history@.subrange(from, to)
        }),
        forall|k: int|
            0 <= k < r@.len() ==> (start matches Some(s) ==> #[trigger] r@[k].batch_id > s),
{
    let lim = history_limit(limit) as usize;
    let n = history.len();
    let from: usize = match start {
        Some(s) => if s < n as u64 {
            s as usize
        } else {
            n
        },
        None => 0,
    };
    let to: usize = if lim < n - from {
        from + lim
    } else {
        n
    };
    let mut page: Vec<UnbondHistory> = Vec::new();
    let mut i: usize = from;
    while i < to
        invariant
            from <= i <= to <= n,
            n == history@.len(),
            page@ == history@.subrange(from as int, i as int),
        decreases to - i,
    {
        page.push(history[i]);
        i = i + 1;
        assert(page@ =~= history@.subrange(from as int, i as int));
    }
    page
}

/// The page size as a number, for contracts.
pub open spec fn history_limit_spec(limit: Option<u32>) -> int {
    match limit {
        None => DEFAULT_LIMIT as int,
        Some(l) => if l < MAX_LIMIT {
            l as int
        } else {
            MAX_LIMIT as int
        },
    }
}

/// A user's pending requests as `(batch id, first token, second token)`.
pub fn get_unbond_requests(wait_list: &Vec<(u64, UnbondWaitEntity)>) -> (r: Vec<(u64, u128, u128)>)
    ensures
        r@.len() == wait_list@.len(),
        forall|k: int|
            0 <= k < r@.len() ==> #[trigger] r@[k] == (
                wait_list@[k].0,
                wait_list@[k].1.bsei_amount,
                wait_list@[k].1.stsei_amount,
            ),
{
    let mut out: Vec<(u64, u128, u128)> = Vec::new();
    let mut i: usize = 0;
    while i < wait_list.len()
        invariant
            i <= wait_list@.len(),
            out@.len() == i,
            forall|k: int|
                0 <= k < i ==> #[trigger] out@[k] == (
                    wait_list@[k].0,
                    wait_list@[k].1.bsei_amount,
                    wait_list@[k].1.stsei_amount,
                ),
        decreases wait_list@.len() - i,
    {
        let (id, w) = wait_list[i];
        out.push((id, w.bsei_amount, w.stsei_amount));
        i = i + 1;
    }
    out
}

/// What the hub does with tokens that arrive with a hook message.
#[derive(Clone, Copy, Debug, PartialEq, Eq, Structural)]
pub enum HookAction {
    UnbondBSei,
    UnbondStSei,
    ConvertBSeiToStSei,
    ConvertStSeiToBSei,
}

/// Routes tokens sent by `token_contract` with `hook`: only the two
/// registered token contracts may send.
pub fn receive_cw20(config: &Config, token_contract: &String, hook: Cw20HookMsg) -> (r: Result<
    HookAction,
    HubError,
>)
    ensures
        (config.bsei_token_contract is None || config.stsei_token_contract is None) ==> r == Err::<
            HookAction,
            HubError,
        >(HubError::NotConfigured),
        config.bsei_token_contract is Some && config.stsei_token_contract is Some
            && config.bsei_token_contract.unwrap()@ == token_contract@ ==> r == Ok::<HookAction, HubError>(
            match hook {
                Cw20HookMsg::Unbond {  } => HookAction::UnbondBSei,
                Cw20HookMsg::Convert {  } => HookAction::ConvertBSeiToStSei,
            },
        ),
        config.bsei_token_contract is Some && config.stsei_token_contract is Some
            && config.bsei_token_contract.unwrap()@ != token_contract@
            && config.stsei_token_contract.unwrap()@ == token_contract@ ==> r == Ok::<HookAction, HubError>(
            match hook {
                Cw20HookMsg::Unbond {  } => HookAction::UnbondStSei,
                Cw20HookMsg::Convert {  } => HookAction::ConvertStSeiToBSei,
            },
        ),
        config.bsei_token_contract is Some && config.stsei_token_contract is Some
            && config.bsei_token_contract.unwrap()@ != token_contract@
            && config.stsei_token_contract.unwrap()@ != token_contract@ ==> r == Err::<
            HookAction,
            HubError,
        >(HubError::Unauthorized),
{
    let bsei = match &config.bsei_token_contract {
        Some(b) => b,
        None => return Err(HubError::NotConfigured),
    };
    let stsei = match &config.stsei_token_contract {
        Some(s) => s,
        None => return Err(HubError::NotConfigured),
    };
    if *token_contract == *bsei {
        match hook {
            Cw20HookMsg::Unbond {  } => Ok(HookAction::UnbondBSei),
            Cw20HookMsg::Convert {  } => Ok(HookAction::ConvertBSeiToStSei),
        }
    } else if *token_contract == *stsei {
        match hook {
            Cw20HookMsg::Unbond {  } => Ok(HookAction::UnbondStSei),
            Cw20HookMsg::Convert {  } => Ok(HookAction::ConvertStSeiToBSei),
        }
    } else {
        Err(HubError::Unauthorized)
    }
}

} // verus!
