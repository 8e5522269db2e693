//! Commitment-based escrow with per-account privacy flags.
//!
//! A depositor locks a token amount under a hiding commitment: the SHA-256
//! digest of the recipient, the amount and a secret salt. The claimant later
//! reveals amount and salt; the contract recomputes the digest, looks up the
//! escrow entry keyed by it, and releases the funds exactly once. A second
//! facility stores a per-account privacy flag, toggled only with the owner's
//! authorization.
//!
//! The persistent key-value store of the host is modelled as explicit state
//! held by the contract values; the host shell around this library performs
//! storage, authorization and token transfers and hands plain values in.

use vstd::prelude::*;

pub mod bytes;
pub mod commitment;
pub mod errors;
pub mod escrow;
pub mod events;
pub mod privacy;
pub mod quicksilver;

use crate::bytes::copy_bytes;
use crate::commitment::{commitment_of, MAX_SALT_LEN};
use crate::errors::QuickexError;
use crate::escrow::{
    contains_commitment, entry_for, index_of_commitment, lemma_index_of_commitment,
    unique_commitments, EntryModel, EscrowLedger, EscrowStatus,
};
use crate::events::{
    privacy_log_extended, publish_withdraw_toggled, withdraw_log_extended, PrivacyToggledEvent,
    WithdrawToggledEvent,
};
use crate::privacy::{privacy_of, PrivacyStore};

verus! {

/// One record of the sequential escrow-id scheme: who opened escrow `id`
/// and for whom.
pub struct EscrowRecord {
    pub id: u64,
    pub from: Vec<u8>,
    pub to: Vec<u8>,
}

/// The result of presenting the reveal `(to, amount, salt)` to a ledger:
/// the ordered checks of the withdrawal path, first failure winning.
pub open spec fn withdraw_outcome(
    escrows: Seq<EntryModel>,
    to: Seq<u8>,
    amount: i128,
    salt: Seq<u8>,
) -> Result<bool, QuickexError> {
    if amount <= 0 {
        Err(QuickexError::InvalidAmount)
    } else if salt.len() > MAX_SALT_LEN {
        Err(QuickexError::InvalidSalt)
    } else if !contains_commitment(escrows, commitment_of(to, amount, salt)) {
        Err(QuickexError::CommitmentNotFound)
    } else if entry_for(escrows, commitment_of(to, amount, salt)).status
        == EscrowStatus::Withdrawn {
        Err(QuickexError::AlreadySpent)
    } else if entry_for(escrows, commitment_of(to, amount, salt)).amount != amount {
        Err(QuickexError::CommitmentMismatch)
    } else {
        Ok(true)
    }
}

/// The ledger after presenting that reveal: the matched entry flipped to
/// `Withdrawn` on success, everything untouched on any failure.
pub open spec fn withdraw_post(
    escrows: Seq<EntryModel>,
    to: Seq<u8>,
    amount: i128,
    salt: Seq<u8>,
) -> Seq<EntryModel> {
    if withdraw_outcome(escrows, to, amount, salt) == Ok::<bool, QuickexError>(true) {
        escrows.update(
            index_of_commitment(escrows, commitment_of(to, amount, salt)),
            (EntryModel {
                status: EscrowStatus::Withdrawn,
                ..entry_for(escrows, commitment_of(to, amount, salt))
            }),
        )
    } else {
        escrows
    }
}

/// The contract's whole persisted state, modelled explicitly: the privacy
/// registry, the commitment-keyed escrow ledger, the sequential escrow-id
/// scheme, and the two event streams.
pub struct QuickexContract {
    pub privacy: PrivacyStore,
    pub escrows: EscrowLedger,
    pub escrow_counter: u64,
    pub escrow_directory: Vec<EscrowRecord>,
    pub privacy_events: Vec<PrivacyToggledEvent>,
    pub withdraw_events: Vec<WithdrawToggledEvent>,
}

impl QuickexContract {
    /// The state invariant: both keyed stores are well formed.
    pub open spec fn wf(&self) -> bool {
        self.privacy.wf() && self.escrows.wf()
    }

    /// A contract with nothing stored yet.
    pub fn new() -> (r: Self)
        ensures
            r.wf(),
            r.privacy@ == Seq::<crate::privacy::FlagModel>::empty(),
            r.escrows@ == Seq::<EntryModel>::empty(),
            r.escrow_counter == 0,
            r.escrow_directory@ == Seq::<EscrowRecord>::empty(),
            r.privacy_events@ == Seq::<PrivacyToggledEvent>::empty(),
            r.withdraw_events@ == Seq::<WithdrawToggledEvent>::empty(),
    {
        QuickexContract {
            privacy: PrivacyStore::new(),
            escrows: EscrowLedger::new(),
            escrow_counter: 0,
            escrow_directory: Vec::new(),
            privacy_events: Vec::new(),
            withdraw_events: Vec::new(),
        }
    }

    /// Stores `owner`'s privacy flag, once the host authorized `owner`, and
    /// logs the toggle. Nothing but the registry and its event stream moves.
    pub fn set_privacy(
        &mut self,
        owner: &Vec<u8>,
        enabled: bool,
        authorized: bool,
        timestamp: u64,
    ) -> (r: Result<(), QuickexError>)
        requires
            old(self).wf(),
        ensures
            final(self).wf(),
            final(self).escrows@ == old(self).escrows@,
            final(self).escrow_counter == old(self).escrow_counter,
            final(self).escrow_directory@ == old(self).escrow_directory@,
            final(self).withdraw_events@ == old(self).withdraw_events@,
            match r {
                Ok(()) => authorized && privacy_of(final(self).privacy@, owner@) == enabled && (
                forall|o: Seq<u8>|
                    o != owner@ ==> privacy_of(final(self).privacy@, o) == privacy_of(
                        old(self).privacy@,
                        o,
                    )) && privacy_log_extended(
                    old(self).privacy_events@,
                    final(self).privacy_events@,
                    owner@,
                    enabled,
                    timestamp,
                ),
                Err(e) => !authorized && e == QuickexError::Unauthorized && final(self).privacy@
                    == old(self).privacy@ && final(self).privacy_events@ == old(
                    self,
                ).privacy_events@,
            },
    {
        crate::privacy::set_privacy(
            &mut self.privacy,
            &mut self.privacy_events,
            owner,
            enabled,
            authorized,
            timestamp,
        )
    }

    /// Reads `owner`'s privacy flag; `false` when never set.
    pub fn get_privacy(&self, owner: &Vec<u8>) -> (r: bool)
        requires
            self.wf(),
        ensures
            r == privacy_of(self.privacy@, owner@),
    {
        crate::privacy::get_privacy(&self.privacy, owner)
    }

    /// Creates the commitment for `(owner, amount, salt)`; see
    /// `commitment::create_amount_commitment`.
    pub fn create_amount_commitment(owner: &Vec<u8>, amount: i128, salt: &Vec<u8>) -> (r: Result<
        Vec<u8>,
        QuickexError,
    >)
        ensures
            match r {
                Ok(c) => crate::commitment::valid_commit_inputs(amount, salt@) && c@
                    == commitment_of(owner@, amount, salt@) && c@.len() == 32,
                Err(e) => !crate::commitment::valid_commit_inputs(amount, salt@) && ((amount < 0
                    && e == QuickexError::InvalidAmount) || (0 <= amount && salt@.len()
                    > MAX_SALT_LEN && e == QuickexError::InvalidSalt)),
            },
    {
        crate::commitment::create_amount_commitment(owner, amount, salt)
    }

    /// Verifies a commitment against a claimed triple; `false`, never a
    /// failure, on any mismatch.
    pub fn verify_amount_commitment(
        commitment: &Vec<u8>,
        owner: &Vec<u8>,
        amount: i128,
        salt: &Vec<u8>,
    ) -> (r: bool)
        ensures
            r == crate::commitment::commitment_verifies(commitment@, owner@, amount, salt@),
    {
        crate::commitment::verify_amount_commitment(commitment, owner, amount, salt)
    }

    /// Opens an escrow of the unrelated sequential-id scheme: draws the next
    /// id from the counter and records who opened it and for whom.
    pub fn create_escrow(&mut self, from: &Vec<u8>, to: &Vec<u8>, _amount: u64) -> (r: u64)
        requires
            old(self).wf(),
            old(self).escrow_counter < u64::MAX,
        ensures
            final(self).wf(),
            final(self).escrow_counter == old(self).escrow_counter + 1,
            r == final(self).escrow_counter,
            r >= 1,
            final(self).escrow_directory@.len() == old(self).escrow_directory@.len() + 1,
            final(self).escrow_directory@.take(old(self).escrow_directory@.len() as int) == old(
                self,
            ).escrow_directory@,
            final(self).escrow_directory@.last().id == r,
            final(self).escrow_directory@.last().from@ == from@,
            final(self).escrow_directory@.last().to@ == to@,
            final(self).privacy@ == old(self).privacy@,
            final(self).escrows@ == old(self).escrows@,
            final(self).privacy_events@ == old(self).privacy_events@,
            final(self).withdraw_events@ == old(self).withdraw_events@,
    {
        let ghost pre = self.escrow_directory@;
        self.escrow_counter = self.escrow_counter + 1;
        let escrow_id = self.escrow_counter;
        self.escrow_directory.push(
            EscrowRecord { id: escrow_id, from: copy_bytes(from), to: copy_bytes(to) },
        );
        proof {
            assert(self.escrow_directory@.take(pre.len() as int) =~= pre);
        }
        escrow_id
    }

    /// Executes the withdrawal path for the reveal `(to, amount, salt)`.
    ///
    /// The ordered checks and the error each one raises are
    /// `withdraw_outcome`; the ledger afterwards is `withdraw_post`. The
    /// first failing check returns its error with every part of the state
    /// untouched. Only when every check passes does the matched entry flip
    /// to `Withdrawn`, with one withdrawal event carrying
    /// `(to, commitment, timestamp)` appended. Knowledge of the salt is the
    /// authorization: the reveal is a bearer secret.
    pub fn withdraw(&mut self, to: &Vec<u8>, amount: i128, salt: &Vec<u8>, timestamp: u64) -> (r:
        Result<bool, QuickexError>)
        requires
            old(self).wf(),
        ensures
            final(self).wf(),
            r == withdraw_outcome(old(self).escrows@, to@, amount, salt@),
            final(self).escrows@ == withdraw_post(old(self).escrows@, to@, amount, salt@),
            final(self).privacy@ == old(self).privacy@,
            final(self).escrow_counter == old(self).escrow_counter,
            final(self).escrow_directory@ == old(self).escrow_directory@,
            final(self).privacy_events@ == old(self).privacy_events@,
            r is Ok ==> withdraw_log_extended(
                old(self).withdraw_events@,
                final(self).withdraw_events@,
                to@,
                commitment_of(to@, amount, salt@),
                timestamp,
            ),
            r is Err ==> final(self).withdraw_events@ == old(self).withdraw_events@,
    {
        if amount <= 0 {
            return Err(QuickexError::InvalidAmount);
        }
        let commitment = match crate::commitment::create_amount_commitment(to, amount, salt) {
            Ok(c) => c,
            Err(e) => {
                return Err(e);
            },
        };
        let entry = match self.escrows.get(&commitment) {
            None => {
                return Err(QuickexError::CommitmentNotFound);
            },
            Some(entry) => entry,
        };
        match entry.status {
            EscrowStatus::Withdrawn => Err(QuickexError::AlreadySpent),
            EscrowStatus::Pending => {
                if entry.amount != amount {
                    return Err(QuickexError::CommitmentMismatch);
                }
                self.escrows.mark_withdrawn(&commitment);
                publish_withdraw_toggled(
                    &mut self.withdraw_events,
                    copy_bytes(to),
                    commitment,
                    timestamp,
                );
                Ok(true)
            },
        }
    }

    /// Liveness probe; nothing is read or written.
    pub fn health_check() -> (r: bool)
        ensures
            r == true,
    {
        true
    }
}

/// Exactly once: after a successful withdrawal the matched entry stands
/// `Withdrawn`, and the same reveal presented to the new ledger fails with
/// `AlreadySpent`.
pub proof fn lemma_withdraw_exactly_once(
    escrows: Seq<EntryModel>,
    to: Seq<u8>,
    amount: i128,
    salt: Seq<u8>,
)
    requires
        unique_commitments(escrows),
        withdraw_outcome(escrows, to, amount, salt) == Ok::<bool, QuickexError>(true),
    ensures
        ({
            let after = withdraw_post(escrows, to, amount, salt);
            let c = commitment_of(to, amount, salt);
            contains_commitment(after, c) && entry_for(after, c).status == EscrowStatus::Withdrawn
                && withdraw_outcome(after, to, amount, salt) == Err::<bool, QuickexError>(
                QuickexError::AlreadySpent,
            ) && withdraw_post(after, to, amount, salt) == after
        }),
{
    let c = commitment_of(to, amount, salt);
    let after = withdraw_post(escrows, to, amount, salt);
    let i = index_of_commitment(escrows, c);
    assert(contains_commitment(escrows, c));
    assert(0 <= i < escrows.len() && escrows[i].commitment == c);
    assert(forall|k: int| 0 <= k < after.len() ==> after[k].commitment == escrows[k].commitment);
    assert(unique_commitments(after));
    lemma_index_of_commitment(after, c, i);
}

/// A reveal whose commitment no entry carries fails `CommitmentNotFound`
/// and moves nothing.
pub proof fn lemma_withdraw_not_found(
    escrows: Seq<EntryModel>,
    to: Seq<u8>,
    amount: i128,
    salt: Seq<u8>,
)
    requires
        amount > 0,
        salt.len() <= MAX_SALT_LEN,
        !contains_commitment(escrows, commitment_of(to, amount, salt)),
    ensures
        withdraw_outcome(escrows, to, amount, salt) == Err::<bool, QuickexError>(
            QuickexError::CommitmentNotFound,
        ),
        withdraw_post(escrows, to, amount, salt) == escrows,
{
}

/// A non-positive claimed amount fails `InvalidAmount` before anything is
/// looked up, and moves nothing.
pub proof fn lemma_withdraw_rejects_nonpositive(
    escrows: Seq<EntryModel>,
    to: Seq<u8>,
    amount: i128,
    salt: Seq<u8>,
)
    requires
        amount <= 0,
    ensures
        withdraw_outcome(escrows, to, amount, salt) == Err::<bool, QuickexError>(
            QuickexError::InvalidAmount,
        ),
        withdraw_post(escrows, to, amount, salt) == escrows,
{
}

} // verus!
