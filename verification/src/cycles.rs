//! The resource budget: what an operation costs and whether the balances allow it.

use vstd::prelude::*;

use crate::text::{concat3, decimal, decimal_text};
use crate::types::{ClanopediaError, ClanopediaResult, CostMetrics, ErrorKind};

verus! {

/// The balance below which this service takes on no work.
pub const MIN_CLANOPEDIA_BALANCE: u64 = 50_000_000;

/// What must stay above the minimum after a transfer.
pub const SAFETY_BUFFER: u64 = 100_000_000;

/// What embedding one document costs.
pub const EMBEDDING_COST_PER_DOC: u64 = 10_000_000;

/// The balance below which the document service counts as short of resources.
pub const MIN_BLUEBAND_BALANCE: u64 = 0;

/// The two balances and what they allow.
#[derive(Clone, Copy, Debug, PartialEq, Eq, Structural)]
pub struct CyclesStatus {
    pub clanopedia_balance: u64,
    pub blueband_balance: u64,
    pub clanopedia_healthy: bool,
    pub blueband_healthy: bool,
    pub can_transfer_safely: bool,
}

/// The status that two balances amount to.
pub open spec fn status_for(local: u64, remote: u64) -> CyclesStatus {
    CyclesStatus {
        clanopedia_balance: local,
        blueband_balance: remote,
        clanopedia_healthy: local >= MIN_CLANOPEDIA_BALANCE,
        blueband_healthy: remote >= MIN_BLUEBAND_BALANCE,
        can_transfer_safely: local > MIN_CLANOPEDIA_BALANCE + SAFETY_BUFFER,
    }
}

/// Reads the two balances against their minimums.
pub fn check_cycles_status(local_balance: u64, remote_balance: u64) -> (r: ClanopediaResult<
    CyclesStatus,
>)
    ensures
        r matches Ok(s) && s == status_for(local_balance, remote_balance),
{
    Ok(
        CyclesStatus {
            clanopedia_balance: local_balance,
            blueband_balance: remote_balance,
            clanopedia_healthy: local_balance >= MIN_CLANOPEDIA_BALANCE,
            blueband_healthy: remote_balance >= MIN_BLUEBAND_BALANCE,
            can_transfer_safely: local_balance > MIN_CLANOPEDIA_BALANCE + SAFETY_BUFFER,
        },
    )
}

/// What is said where `balance` does not reach `required`.
pub open spec fn shortfall_text(balance: u64, required: u64) -> Seq<char> {
    "Insufficient cycles for operation. Balance: "@ + decimal(balance as nat) + ", Required: "@
        + decimal(required as nat)
}

/// Refuses work where the balance is under the minimum.
pub fn validate_clanopedia_operation(balance: u64) -> (r: ClanopediaResult<()>)
    ensures
        r is Ok <==> balance >= MIN_CLANOPEDIA_BALANCE,
        r matches Err(e) ==> e.spec_kind() == ErrorKind::InsufficientCycles && e.spec_message()
            == shortfall_text(balance, MIN_CLANOPEDIA_BALANCE),
{
    if balance < MIN_CLANOPEDIA_BALANCE {
        let have = decimal_text(balance as u128);
        let need = decimal_text(MIN_CLANOPEDIA_BALANCE as u128);
        let mut message = concat3(
            "Insufficient cycles for operation. Balance: ",
            have.as_str(),
            ", Required: ",
        );
        message.append(need.as_str());
        return Err(ClanopediaError::InsufficientCycles(message));
    }
    Ok(())
}

/// The cost of embedding `documents` documents: the price of each, and a
/// tenth of their sum on top as a margin.
pub open spec fn embedding_cost(documents: nat) -> (int, int, int) {
    let base = EMBEDDING_COST_PER_DOC * documents;
    let buffer = base / 10;
    (base, buffer, base + buffer)
}

/// What embedding `documents` documents is estimated to cost; an error where
/// the estimate does not fit in 64 bits.
pub fn estimate_embedding_cost(documents: usize) -> (r: ClanopediaResult<CostMetrics>)
    ensures
        r is Ok <==> embedding_cost(documents as nat).2 <= u64::MAX,
        r matches Ok(c) ==> {
            &&& c.base_cost == embedding_cost(documents as nat).0
            &&& c.buffer_amount == embedding_cost(documents as nat).1
            &&& c.total_cost == embedding_cost(documents as nat).2
            &&& c.per_doc_cost == EMBEDDING_COST_PER_DOC
        },
        r matches Err(e) ==> e.spec_kind() == ErrorKind::InvalidInput,
{
    let too_many = ClanopediaError::InvalidInput(
        String::from_str("Too many documents to estimate a cost for"),
    );
    if documents as u128 > u64::MAX as u128 {
        return Err(too_many);
    }
    let base_cost = match EMBEDDING_COST_PER_DOC.checked_mul(documents as u64) {
        Some(b) => b,
        None => {
            return Err(too_many);
        },
    };
    let buffer_amount = base_cost / 10;
    let total_cost = match base_cost.checked_add(buffer_amount) {
        Some(t) => t,
        None => {
            return Err(too_many);
        },
    };
    Ok(CostMetrics { base_cost, total_cost, per_doc_cost: EMBEDDING_COST_PER_DOC, buffer_amount })
}

/// The balances allow an operation of cost `total_cost`: each is at or above
/// its minimum and covers the cost.
pub open spec fn resources_suffice(status: CyclesStatus, total_cost: u64) -> bool {
    &&& status.clanopedia_healthy
    &&& status.blueband_healthy
    &&& status.clanopedia_balance >= total_cost
    &&& status.blueband_balance >= total_cost
}

/// The mark that stands for a balance that is healthy or not.
pub open spec fn health_mark(healthy: bool) -> Seq<char> {
    if healthy {
        "✅"@
    } else {
        "⚠️"@
    }
}

/// The sentence on whether the balances allow an operation of cost
/// `total_cost`: the first of these that holds is told: a balance is under its
/// minimum; this service's balance does not cover the cost; the document
/// service's balance does not cover it; all is well.
pub open spec fn resources_text(status: CyclesStatus, total_cost: u64) -> Seq<char> {
    if !status.clanopedia_healthy || !status.blueband_healthy {
        "Insufficient cycles. Clanopedia: "@ + decimal(status.clanopedia_balance as nat) + " ("@
            + health_mark(status.clanopedia_healthy) + "), Blueband: "@ + decimal(
            status.blueband_balance as nat,
        ) + " ("@ + health_mark(status.blueband_healthy) + "), Required: "@ + decimal(
            total_cost as nat,
        )
    } else if status.clanopedia_balance < total_cost {
        shortfall_text(status.clanopedia_balance, total_cost)
    } else if status.blueband_balance < total_cost {
        "Insufficient cycles at the document service. Balance: "@ + decimal(
            status.blueband_balance as nat,
        ) + ", Required: "@ + decimal(total_cost as nat)
    } else {
        "Sufficient cycles available"@
    }
}

/// Whether the balances allow an embedding of cost `cost`, with a sentence for the caller.
pub fn can_execute_embed_proposal(status: &CyclesStatus, cost: &CostMetrics) -> (r: (bool, String))
    ensures
        r.0 == resources_suffice(*status, cost.total_cost),
        r.1@ == resources_text(*status, cost.total_cost),
{
    let local = decimal_text(status.clanopedia_balance as u128);
    let remote = decimal_text(status.blueband_balance as u128);
    let need = decimal_text(cost.total_cost as u128);
    if !status.clanopedia_healthy || !status.blueband_healthy {
        let mut message = concat3("Insufficient cycles. Clanopedia: ", local.as_str(), " (");
        message.append(if status.clanopedia_healthy { "✅" } else { "⚠️" });
        message.append("), Blueband: ");
        message.append(remote.as_str());
        message.append(" (");
        message.append(if status.blueband_healthy { "✅" } else { "⚠️" });
        message.append("), Required: ");
        message.append(need.as_str());
        return (false, message);
    }
    if status.clanopedia_balance < cost.total_cost {
        let mut message = concat3(
            "Insufficient cycles for operation. Balance: ",
            local.as_str(),
            ", Required: ",
        );
        message.append(need.as_str());
        return (false, message);
    }
    if status.blueband_balance < cost.total_cost {
        let mut message = concat3(
            "Insufficient cycles at the document service. Balance: ",
            remote.as_str(),
            ", Required: ",
        );
        message.append(need.as_str());
        return (false, message);
    }
    (true, String::from_str("Sufficient cycles available"))
}

/// The most that can be transferred away without going under the minimum and
/// the safety buffer.
pub fn get_max_safe_transfer_amount(balance: u64) -> (r: ClanopediaResult<u64>)
    ensures
        r matches Ok(amount) && amount == if balance <= MIN_CLANOPEDIA_BALANCE + SAFETY_BUFFER {
            0
        } else {
            balance - (MIN_CLANOPEDIA_BALANCE + SAFETY_BUFFER)
        },
{
    let required_minimum = MIN_CLANOPEDIA_BALANCE + SAFETY_BUFFER;
    if balance <= required_minimum {
        Ok(0)
    } else {
        Ok(balance - required_minimum)
    }
}

/// A transfer of `amount` leaves the minimum and the safety buffer behind.
pub open spec fn transfer_is_safe(balance: u64, amount: u64) -> bool {
    balance >= MIN_CLANOPEDIA_BALANCE + SAFETY_BUFFER + amount
}

/// What is said of a transfer that is refused: that the balance is under the
/// minimum, or else that the transfer would leave too little behind.
pub open spec fn transfer_refusal(balance: u64, amount: u64) -> Seq<char> {
    if balance < MIN_CLANOPEDIA_BALANCE {
        shortfall_text(balance, MIN_CLANOPEDIA_BALANCE)
    } else {
        "Transfer would leave insufficient cycles. Current: "@ + decimal(balance as nat)
            + ", Transfer: "@ + decimal(amount as nat) + ", Required remaining: "@ + decimal(
            (MIN_CLANOPEDIA_BALANCE + SAFETY_BUFFER) as nat,
        ) + " (including safety buffer)"@
    }
}

/// Whether `amount` may be transferred to the document service out of
/// `balance`: the floor made of the minimum and the safety buffer is never
/// transferred away.
pub fn fund_blueband_canister(balance: u64, amount: u64) -> (r: ClanopediaResult<()>)
    ensures
        r is Ok <==> transfer_is_safe(balance, amount),
        r matches Err(e) ==> e.spec_kind() == ErrorKind::InsufficientCycles && e.spec_message()
            == transfer_refusal(balance, amount),
{
    match validate_clanopedia_operation(balance) {
        Err(e) => {
            return Err(e);
        },
        Ok(_) => {},
    }
    let floor = MIN_CLANOPEDIA_BALANCE + SAFETY_BUFFER;
    let safe = match floor.checked_add(amount) {
        Some(required) => balance >= required,
        None => false,
    };
    if !safe {
        let have = decimal_text(balance as u128);
        let want = decimal_text(amount as u128);
        let keep = decimal_text(floor as u128);
        let mut message = concat3(
            "Transfer would leave insufficient cycles. Current: ",
            have.as_str(),
            ", Transfer: ",
        );
        message.append(want.as_str());
        message.append(", Required remaining: ");
        message.append(keep.as_str());
        message.append(" (including safety buffer)");
        return Err(ClanopediaError::InsufficientCycles(message));
    }
    Ok(())
}

} // verus!
