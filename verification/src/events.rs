//! Append-only event logs, observable by external indexers.
//!
//! The host publishes events; this library models each stream as a sequence
//! that only ever grows at the end.

use vstd::prelude::*;

verus! {

/// Record of a privacy flag being toggled.
pub struct PrivacyToggledEvent {
    pub owner: Vec<u8>,
    pub enabled: bool,
    pub timestamp: u64,
}

/// Record of a successful withdrawal.
pub struct WithdrawToggledEvent {
    pub to: Vec<u8>,
    pub commitment: Vec<u8>,
    pub timestamp: u64,
}

/// The new log is the old one with exactly one privacy event, carrying the
/// given fields, appended at the end.
pub open spec fn privacy_log_extended(
    old_log: Seq<PrivacyToggledEvent>,
    new_log: Seq<PrivacyToggledEvent>,
    owner: Seq<u8>,
    enabled: bool,
    timestamp: u64,
) -> bool {
    new_log.len() == old_log.len() + 1 && new_log.take(old_log.len() as int) == old_log
        && new_log.last().owner@ == owner && new_log.last().enabled == enabled
        && new_log.last().timestamp == timestamp
}

/// The new log is the old one with exactly one withdrawal event, carrying
/// the given fields, appended at the end.
pub open spec fn withdraw_log_extended(
    old_log: Seq<WithdrawToggledEvent>,
    new_log: Seq<WithdrawToggledEvent>,
    to: Seq<u8>,
    commitment: Seq<u8>,
    timestamp: u64,
) -> bool {
    new_log.len() == old_log.len() + 1 && new_log.take(old_log.len() as int) == old_log
        && new_log.last().to@ == to && new_log.last().commitment@ == commitment
        && new_log.last().timestamp == timestamp
}

/// Appends a privacy-toggled event to the log.
pub fn publish_privacy_toggled(
    log: &mut Vec<PrivacyToggledEvent>,
    owner: Vec<u8>,
    enabled: bool,
    timestamp: u64,
)
    ensures
        privacy_log_extended(old(log)@, final(log)@, owner@, enabled, timestamp),
{
    let ghost pre = log@;
    log.push(PrivacyToggledEvent { owner, enabled, timestamp });
    proof {
        assert(log@.take(pre.len() as int) =~= pre);
    }
}

/// Appends a withdraw-toggled event to the log.
pub fn publish_withdraw_toggled(
    log: &mut Vec<WithdrawToggledEvent>,
    to: Vec<u8>,
    commitment: Vec<u8>,
    timestamp: u64,
)
    ensures
        withdraw_log_extended(old(log)@, final(log)@, to@, commitment@, timestamp),
{
    let ghost pre = log@;
    log.push(WithdrawToggledEvent { to, commitment, timestamp });
    proof {
        assert(log@.take(pre.len() as int) =~= pre);
    }
}

} // verus!
