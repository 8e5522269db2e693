//! The escrow ledger: entries keyed by commitment, each withdrawn at most
//! once.

use vstd::prelude::*;
use crate::bytes::{bytes_eq, copy_bytes};
use crate::errors::QuickexError;

verus! {

/// An entry's lifecycle: created `Pending`, flipped to `Withdrawn` exactly
/// once, never reversed.
#[derive(Copy, Clone, Debug, PartialEq, Eq, Structural)]
pub enum EscrowStatus {
    Pending,
    Withdrawn,
}

/// Funds held in trust, releasable on a successful reveal of the
/// commitment's pre-image.
pub struct EscrowEntry {
    /// The 32-byte commitment this entry is keyed by.
    pub commitment: Vec<u8>,
    /// The token whose units are held.
    pub token: Vec<u8>,
    /// The amount held; strictly positive.
    pub amount: i128,
    /// Whether the entry is still pending or already withdrawn.
    pub status: EscrowStatus,
    /// Who deposited the funds.
    pub depositor: Vec<u8>,
}

/// The mathematical shadow of an entry, over byte sequences.
pub ghost struct EntryModel {
    pub commitment: Seq<u8>,
    pub token: Seq<u8>,
    pub amount: i128,
    pub status: EscrowStatus,
    pub depositor: Seq<u8>,
}

impl View for EscrowEntry {
    type V = EntryModel;

    open spec fn view(&self) -> EntryModel {
        EntryModel {
            commitment: self.commitment@,
            token: self.token@,
            amount: self.amount,
            status: self.status,
            depositor: self.depositor@,
        }
    }
}

/// Whether some entry carries the commitment `c`.
pub open spec fn contains_commitment(s: Seq<EntryModel>, c: Seq<u8>) -> bool {
    exists|i: int| 0 <= i < s.len() && s[i].commitment == c
}

/// The index of the entry carrying `c`; meaningful under
/// `unique_commitments` when `contains_commitment` holds.
pub open spec fn index_of_commitment(s: Seq<EntryModel>, c: Seq<u8>) -> int {
    choose|i: int| 0 <= i < s.len() && s[i].commitment == c
}

/// The entry carrying `c`.
pub open spec fn entry_for(s: Seq<EntryModel>, c: Seq<u8>) -> EntryModel {
    s[index_of_commitment(s, c)]
}

/// No two entries share a commitment.
pub open spec fn unique_commitments(s: Seq<EntryModel>) -> bool {
    forall|i: int, j: int|
        0 <= i < s.len() && 0 <= j < s.len() && i != j ==> s[i].commitment != s[j].commitment
}

/// Every entry is well formed: a 32-byte commitment and a strictly positive
/// amount; and commitments are unique across the ledger.
pub open spec fn wf_entries(s: Seq<EntryModel>) -> bool {
    unique_commitments(s) && forall|i: int|
        0 <= i < s.len() ==> (#[trigger] s[i]).commitment.len() == 32 && s[i].amount > 0
}

/// Under uniqueness, any index whose entry carries `c` is the index that
/// `index_of_commitment` denotes.
pub proof fn lemma_index_of_commitment(s: Seq<EntryModel>, c: Seq<u8>, i: int)
    requires
        unique_commitments(s),
        0 <= i < s.len(),
        s[i].commitment == c,
    ensures
        contains_commitment(s, c),
        index_of_commitment(s, c) == i,
        entry_for(s, c) == s[i],
{
    assert(contains_commitment(s, c));
    let j = index_of_commitment(s, c);
    assert(0 <= j < s.len() && s[j].commitment == c);
    if i != j {
        assert(s[i].commitment != s[j].commitment);
    }
}

/// Keyed storage of escrow entries; the key is the entry's commitment.
pub struct EscrowLedger {
    entries: Vec<EscrowEntry>,
}

impl View for EscrowLedger {
    type V = Seq<EntryModel>;

    closed spec fn view(&self) -> Seq<EntryModel> {
        self.entries@.map_values(|e: EscrowEntry| e@)
    }
}

impl EscrowLedger {
    /// The ledger's invariant: well-formed entries under unique commitments.
    pub open spec fn wf(&self) -> bool {
        wf_entries(self@)
    }

    /// An empty ledger.
    pub fn new() -> (r: Self)
        ensures
            r@ == Seq::<EntryModel>::empty(),
            r.wf(),
    {
        let r = EscrowLedger { entries: Vec::new() };
        proof {
            assert(r@ =~= Seq::<EntryModel>::empty());
        }
        r
    }

    /// The index of the entry keyed by `commitment`, if any.
    fn find(&self, commitment: &Vec<u8>) -> (r: Option<usize>)
        ensures
            match r {
                Some(i) => 0 <= i < self@.len() && self@[i as int].commitment == commitment@,
                None => !contains_commitment(self@, commitment@),
            },
    {
        let mut i: usize = 0;
        while i < self.entries.len()
            invariant
                i <= self.entries.len(),
                self@.len() == self.entries@.len(),
                forall|j: int| 0 <= j < self@.len() ==> self@[j] == self.entries@[j]@,
                forall|j: int| 0 <= j < i ==> self@[j].commitment != commitment@,
            decreases self.entries.len() - i,
        {
            if bytes_eq(&self.entries[i].commitment, commitment) {
                return Some(i);
            }
            i += 1;
        }
        None
    }

    /// Pure lookup of the entry keyed by `commitment`, as a fresh copy.
    pub fn get(&self, commitment: &Vec<u8>) -> (r: Option<EscrowEntry>)
        requires
            self.wf(),
        ensures
            match r {
                Some(e) => contains_commitment(self@, commitment@) && e@ == entry_for(
                    self@,
                    commitment@,
                ),
                None => !contains_commitment(self@, commitment@),
            },
    {
        match self.find(commitment) {
            None => None,
            Some(i) => {
                let e = &self.entries[i];
                let copy = EscrowEntry {
                    commitment: copy_bytes(&e.commitment),
                    token: copy_bytes(&e.token),
                    amount: e.amount,
                    status: e.status,
                    depositor: copy_bytes(&e.depositor),
                };
                proof {
                    lemma_index_of_commitment(self@, commitment@, i as int);
                }
                Some(copy)
            },
        }
    }

    /// Inserts a new `Pending` entry keyed by `commitment`.
    ///
    /// Fails with `InvalidAmount` when the amount is not strictly positive,
    /// with `InvalidCommitment` when the key is not 32 bytes, and with
    /// `AlreadyInitialized` when an entry already holds that key: a
    /// collision is rejected, never silently overwritten. Failures leave
    /// the ledger untouched.
    pub fn create(
        &mut self,
        depositor: Vec<u8>,
        token: Vec<u8>,
        amount: i128,
        commitment: Vec<u8>,
    ) -> (r: Result<(), QuickexError>)
        requires
            old(self).wf(),
        ensures
            final(self).wf(),
            match r {
                Ok(()) => amount > 0 && commitment@.len() == 32 && !contains_commitment(
                    old(self)@,
                    commitment@,
                ) && final(self)@ == old(self)@.push(
                    EntryModel {
                        commitment: commitment@,
                        token: token@,
                        amount: amount,
                        status: EscrowStatus::Pending,
                        depositor: depositor@,
                    },
                ),
                Err(e) => final(self)@ == old(self)@ && ((amount <= 0 && e
                    == QuickexError::InvalidAmount) || (amount > 0 && commitment@.len() != 32 && e
                    == QuickexError::InvalidCommitment) || (amount > 0 && commitment@.len() == 32
                    && contains_commitment(old(self)@, commitment@) && e
                    == QuickexError::AlreadyInitialized)),
            },
    {
        if amount <= 0 {
            return Err(QuickexError::InvalidAmount);
        }
        if commitment.len() != 32 {
            return Err(QuickexError::InvalidCommitment);
        }
        if let Some(_) = self.find(&commitment) {
            return Err(QuickexError::AlreadyInitialized);
        }
        let ghost pre = self@;
        let entry = EscrowEntry {
            commitment,
            token,
            amount,
            status: EscrowStatus::Pending,
            depositor,
        };
        let ghost model = entry@;
        self.entries.push(entry);
        proof {
            assert(self@ =~= pre.push(model));
            assert forall|i: int, j: int|
                0 <= i < self@.len() && 0 <= j < self@.len() && i != j implies self@[i].commitment
                != self@[j].commitment by {
                if i < pre.len() && j < pre.len() {
                    assert(pre[i].commitment != pre[j].commitment);
                } else if i < pre.len() {
                    assert(!contains_commitment(pre, model.commitment));
                    assert(pre[i].commitment != model.commitment);
                } else if j < pre.len() {
                    assert(pre[j].commitment != model.commitment);
                }
            }
        }
        Ok(())
    }

    /// Flips the entry keyed by `commitment` from `Pending` to `Withdrawn`;
    /// the caller must already have validated that the entry is pending.
    /// Nothing else in the ledger changes.
    pub fn mark_withdrawn(&mut self, commitment: &Vec<u8>)
        requires
            old(self).wf(),
            contains_commitment(old(self)@, commitment@),
            entry_for(old(self)@, commitment@).status == EscrowStatus::Pending,
        ensures
            final(self).wf(),
            final(self)@ == old(self)@.update(
                index_of_commitment(old(self)@, commitment@),
                EntryModel { status: EscrowStatus::Withdrawn, ..entry_for(old(self)@, commitment@) },
            ),
    {
        let ghost pre = self@;
        let found = self.find(commitment);
        match found {
            Some(i) => {
                proof {
                    lemma_index_of_commitment(pre, commitment@, i as int);
                }
                let slot = &mut self.entries[i];
                slot.status = EscrowStatus::Withdrawn;
                proof {
                    assert(self@ =~= pre.update(
                        i as int,
                        EntryModel { status: EscrowStatus::Withdrawn, ..pre[i as int] },
                    ));
                }
            },
            None => {
                proof {
                    assert(false);
                }
            },
        }
    }
}

} // verus!
