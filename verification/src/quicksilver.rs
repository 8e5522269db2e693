//! The level-based privacy contract: a privacy level per account, a
//! front-inserted history of every level ever set, and a timestamp-keyed
//! escrow record.

use vstd::prelude::*;
use crate::bytes::{bytes_eq, copy_bytes};
use crate::EscrowRecord;

verus! {

/// One account's stored privacy level.
pub struct LevelEntry {
    pub account: Vec<u8>,
    pub level: u32,
}

/// The mathematical shadow of a stored level.
pub ghost struct LevelModel {
    pub account: Seq<u8>,
    pub level: u32,
}

impl View for LevelEntry {
    type V = LevelModel;

    open spec fn view(&self) -> LevelModel {
        LevelModel { account: self.account@, level: self.level }
    }
}

/// One account's history of privacy levels, most recent first.
pub struct HistoryEntry {
    pub account: Vec<u8>,
    pub levels: Vec<u32>,
}

/// The mathematical shadow of a history.
pub ghost struct HistoryModel {
    pub account: Seq<u8>,
    pub levels: Seq<u32>,
}

impl View for HistoryEntry {
    type V = HistoryModel;

    open spec fn view(&self) -> HistoryModel {
        HistoryModel { account: self.account@, levels: self.levels@ }
    }
}

/// Whether some level is stored for `account`.
pub open spec fn has_level(s: Seq<LevelModel>, account: Seq<u8>) -> bool {
    exists|i: int| 0 <= i < s.len() && s[i].account == account
}

/// The index of `account`'s level; meaningful under `unique_level_accounts`
/// when `has_level` holds.
pub open spec fn level_index(s: Seq<LevelModel>, account: Seq<u8>) -> int {
    choose|i: int| 0 <= i < s.len() && s[i].account == account
}

/// No two stored levels share an account.
pub open spec fn unique_level_accounts(s: Seq<LevelModel>) -> bool {
    forall|i: int, j: int|
        0 <= i < s.len() && 0 <= j < s.len() && i != j ==> s[i].account != s[j].account
}

/// The level stored for `account`, if any.
pub open spec fn level_of(s: Seq<LevelModel>, account: Seq<u8>) -> Option<u32> {
    if has_level(s, account) {
        Some(s[level_index(s, account)].level)
    } else {
        None
    }
}

/// Whether some history is stored for `account`.
pub open spec fn has_history(s: Seq<HistoryModel>, account: Seq<u8>) -> bool {
    exists|i: int| 0 <= i < s.len() && s[i].account == account
}

/// The index of `account`'s history; meaningful under
/// `unique_history_accounts` when `has_history` holds.
pub open spec fn history_index(s: Seq<HistoryModel>, account: Seq<u8>) -> int {
    choose|i: int| 0 <= i < s.len() && s[i].account == account
}

/// No two stored histories share an account.
pub open spec fn unique_history_accounts(s: Seq<HistoryModel>) -> bool {
    forall|i: int, j: int|
        0 <= i < s.len() && 0 <= j < s.len() && i != j ==> s[i].account != s[j].account
}

/// The history stored for `account`, most recent level first; empty when
/// none was ever stored.
pub open spec fn history_of(s: Seq<HistoryModel>, account: Seq<u8>) -> Seq<u32> {
    if has_history(s, account) {
        s[history_index(s, account)].levels
    } else {
        Seq::empty()
    }
}

/// Under uniqueness, any index whose level belongs to `account` is the
/// index that `level_index` denotes.
pub proof fn lemma_level_index(s: Seq<LevelModel>, account: Seq<u8>, i: int)
    requires
        unique_level_accounts(s),
        0 <= i < s.len(),
        s[i].account == account,
    ensures
        has_level(s, account),
        level_index(s, account) == i,
        level_of(s, account) == Some(s[i].level),
{
    assert(has_level(s, account));
    let j = level_index(s, account);
    assert(0 <= j < s.len() && s[j].account == account);
    if i != j {
        assert(s[i].account != s[j].account);
    }
}

/// Under uniqueness, any index whose history belongs to `account` is the
/// index that `history_index` denotes.
pub proof fn lemma_history_index(s: Seq<HistoryModel>, account: Seq<u8>, i: int)
    requires
        unique_history_accounts(s),
        0 <= i < s.len(),
        s[i].account == account,
    ensures
        has_history(s, account),
        history_index(s, account) == i,
        history_of(s, account) == s[i].levels,
{
    assert(has_history(s, account));
    let j = history_index(s, account);
    assert(0 <= j < s.len() && s[j].account == account);
    if i != j {
        assert(s[i].account != s[j].account);
    }
}

/// Overwriting the level at index `i` changes that account's reading and
/// no other account's.
proof fn lemma_set_level_update(s1: Seq<LevelModel>, i: int, level: u32)
    requires
        unique_level_accounts(s1),
        0 <= i < s1.len(),
    ensures
        ({
            let s2 = s1.update(i, LevelModel { account: s1[i].account, level });
            unique_level_accounts(s2) && level_of(s2, s1[i].account) == Some(level) && forall|
                a: Seq<u8>,
            | a != s1[i].account ==> level_of(s2, a) == level_of(s1, a)
        }),
{
    let t = s1[i].account;
    let s2 = s1.update(i, LevelModel { account: t, level });
    assert(forall|k: int| 0 <= k < s2.len() ==> s2[k].account == s1[k].account);
    assert(unique_level_accounts(s2));
    lemma_level_index(s2, t, i);
    assert forall|a: Seq<u8>| a != t implies level_of(s2, a) == level_of(s1, a) by {
        if has_level(s1, a) {
            let j = level_index(s1, a);
            assert(0 <= j < s1.len() && s1[j].account == a);
            assert(j != i);
            lemma_level_index(s2, a, j);
            lemma_level_index(s1, a, j);
        } else {
            if has_level(s2, a) {
                let j = level_index(s2, a);
                assert(0 <= j < s2.len() && s2[j].account == a);
                assert(s1[j].account == a);
                assert(false);
            }
        }
    }
}

/// Storing a first level for `t` sets `t`'s reading and leaves every other
/// account's unchanged.
proof fn lemma_set_level_push(s1: Seq<LevelModel>, t: Seq<u8>, level: u32)
    requires
        unique_level_accounts(s1),
        !has_level(s1, t),
    ensures
        ({
            let s2 = s1.push(LevelModel { account: t, level });
            unique_level_accounts(s2) && level_of(s2, t) == Some(level) && forall|a: Seq<u8>|
                a != t ==> level_of(s2, a) == level_of(s1, a)
        }),
{
    let s2 = s1.push(LevelModel { account: t, level });
    assert forall|i: int, j: int|
        0 <= i < s2.len() && 0 <= j < s2.len() && i != j implies s2[i].account
        != s2[j].account by {
        if i < s1.len() && j < s1.len() {
            assert(s1[i].account != s1[j].account);
        } else if i < s1.len() {
            assert(s1[i].account != t);
        } else if j < s1.len() {
            assert(s1[j].account != t);
        }
    }
    lemma_level_index(s2, t, s1.len() as int);
    assert forall|a: Seq<u8>| a != t implies level_of(s2, a) == level_of(s1, a) by {
        if has_level(s1, a) {
            let j = level_index(s1, a);
            assert(0 <= j < s1.len() && s1[j].account == a);
            assert(s2[j].account == a);
            lemma_level_index(s2, a, j);
            lemma_level_index(s1, a, j);
        } else {
            if has_level(s2, a) {
                let j = level_index(s2, a);
                assert(0 <= j < s2.len() && s2[j].account == a);
                assert(j < s1.len());
                assert(false);
            }
        }
    }
}

/// Replacing the levels at index `i` changes that account's history and no
/// other account's.
proof fn lemma_set_history_update(s1: Seq<HistoryModel>, i: int, levels: Seq<u32>)
    requires
        unique_history_accounts(s1),
        0 <= i < s1.len(),
    ensures
        ({
            let s2 = s1.update(i, HistoryModel { account: s1[i].account, levels });
            unique_history_accounts(s2) && history_of(s2, s1[i].account) == levels && forall|
                a: Seq<u8>,
            | a != s1[i].account ==> history_of(s2, a) == history_of(s1, a)
        }),
{
    let t = s1[i].account;
    let s2 = s1.update(i, HistoryModel { account: t, levels });
    assert(forall|k: int| 0 <= k < s2.len() ==> s2[k].account == s1[k].account);
    assert(unique_history_accounts(s2));
    lemma_history_index(s2, t, i);
    assert forall|a: Seq<u8>| a != t implies history_of(s2, a) == history_of(s1, a) by {
        if has_history(s1, a) {
            let j = history_index(s1, a);
            assert(0 <= j < s1.len() && s1[j].account == a);
            assert(j != i);
            lemma_history_index(s2, a, j);
            lemma_history_index(s1, a, j);
        } else {
            if has_history(s2, a) {
                let j = history_index(s2, a);
                assert(0 <= j < s2.len() && s2[j].account == a);
                assert(s1[j].account == a);
                assert(false);
            }
        }
    }
}

/// Storing a first history for `t` sets `t`'s history and leaves every
/// other account's unchanged.
proof fn lemma_set_history_push(s1: Seq<HistoryModel>, t: Seq<u8>, levels: Seq<u32>)
    requires
        unique_history_accounts(s1),
        !has_history(s1, t),
    ensures
        ({
            let s2 = s1.push(HistoryModel { account: t, levels });
            unique_history_accounts(s2) && history_of(s2, t) == levels && forall|a: Seq<u8>|
                a != t ==> history_of(s2, a) == history_of(s1, a)
        }),
{
    let s2 = s1.push(HistoryModel { account: t, levels });
    assert forall|i: int, j: int|
        0 <= i < s2.len() && 0 <= j < s2.len() && i != j implies s2[i].account
        != s2[j].account by {
        if i < s1.len() && j < s1.len() {
            assert(s1[i].account != s1[j].account);
        } else if i < s1.len() {
            assert(s1[i].account != t);
        } else if j < s1.len() {
            assert(s1[j].account != t);
        }
    }
    lemma_history_index(s2, t, s1.len() as int);
    assert forall|a: Seq<u8>| a != t implies history_of(s2, a) == history_of(s1, a) by {
        if has_history(s1, a) {
            let j = history_index(s1, a);
            assert(0 <= j < s1.len() && s1[j].account == a);
            assert(s2[j].account == a);
            lemma_history_index(s2, a, j);
            lemma_history_index(s1, a, j);
        } else {
            if has_history(s2, a) {
                let j = history_index(s2, a);
                assert(0 <= j < s2.len() && s2[j].account == a);
                assert(j < s1.len());
                assert(false);
            }
        }
    }
}

/// Per-account level storage.
pub struct LevelStore {
    entries: Vec<LevelEntry>,
}

impl View for LevelStore {
    type V = Seq<LevelModel>;

    closed spec fn view(&self) -> Seq<LevelModel> {
        self.entries@.map_values(|e: LevelEntry| e@)
    }
}

/// Per-account history storage.
pub struct HistoryStore {
    entries: Vec<HistoryEntry>,
}

impl View for HistoryStore {
    type V = Seq<HistoryModel>;

    closed spec fn view(&self) -> Seq<HistoryModel> {
        self.entries@.map_values(|e: HistoryEntry| e@)
    }
}

/// The level-based privacy contract's whole state, modelled explicitly.
pub struct QuickSilverContract {
    pub levels: LevelStore,
    pub histories: HistoryStore,
    pub escrow_directory: Vec<EscrowRecord>,
}

impl LevelStore {
    /// The index of `account`'s level, if any.
    fn find(&self, account: &Vec<u8>) -> (r: Option<usize>)
        ensures
            match r {
                Some(i) => 0 <= i < self@.len() && self@[i as int].account == account@,
                None => !has_level(self@, account@),
            },
    {
        let mut i: usize = 0;
        while i < self.entries.len()
            invariant
                i <= self.entries.len(),
                self@.len() == self.entries@.len(),
                forall|j: int| 0 <= j < self@.len() ==> self@[j] == self.entries@[j]@,
                forall|j: int| 0 <= j < i ==> self@[j].account != account@,
            decreases self.entries.len() - i,
        {
            if bytes_eq(&self.entries[i].account, account) {
                return Some(i);
            }
            i += 1;
        }
        None
    }
}

impl HistoryStore {
    /// The index of `account`'s history, if any.
    fn find(&self, account: &Vec<u8>) -> (r: Option<usize>)
        ensures
            match r {
                Some(i) => 0 <= i < self@.len() && self@[i as int].account == account@,
                None => !has_history(self@, account@),
            },
    {
        let mut i: usize = 0;
        while i < self.entries.len()
            invariant
                i <= self.entries.len(),
                self@.len() == self.entries@.len(),
                forall|j: int| 0 <= j < self@.len() ==> self@[j] == self.entries@[j]@,
                forall|j: int| 0 <= j < i ==> self@[j].account != account@,
            decreases self.entries.len() - i,
        {
            if bytes_eq(&self.entries[i].account, account) {
                return Some(i);
            }
            i += 1;
        }
        None
    }
}

impl QuickSilverContract {
    /// The state invariant: one level and one history per account.
    pub open spec fn wf(&self) -> bool {
        unique_level_accounts(self.levels@) && unique_history_accounts(self.histories@)
    }

    /// A contract with nothing stored yet.
    pub fn new() -> (r: Self)
        ensures
            r.wf(),
            r.levels@ == Seq::<LevelModel>::empty(),
            r.histories@ == Seq::<HistoryModel>::empty(),
            r.escrow_directory@ == Seq::<EscrowRecord>::empty(),
    {
        let r = QuickSilverContract {
            levels: LevelStore { entries: Vec::new() },
            histories: HistoryStore { entries: Vec::new() },
            escrow_directory: Vec::new(),
        };
        proof {
            assert(r.levels@ =~= Seq::<LevelModel>::empty());
            assert(r.histories@ =~= Seq::<HistoryModel>::empty());
        }
        r
    }

    /// Stores `account`'s privacy level and inserts it at the front of the
    /// account's history; always reports success.
    pub fn enable_privacy(&mut self, account: &Vec<u8>, privacy_level: u32) -> (r: bool)
        requires
            old(self).wf(),
        ensures
            final(self).wf(),
            r == true,
            level_of(final(self).levels@, account@) == Some(privacy_level),
            forall|a: Seq<u8>|
                a != account@ ==> level_of(final(self).levels@, a) == level_of(
                    old(self).levels@,
                    a,
                ),
            history_of(final(self).histories@, account@) == seq![privacy_level] + history_of(
                old(self).histories@,
                account@,
            ),
            forall|a: Seq<u8>|
                a != account@ ==> history_of(final(self).histories@, a) == history_of(
                    old(self).histories@,
                    a,
                ),
            final(self).escrow_directory@ == old(self).escrow_directory@,
    {
        let ghost levels_pre = self.levels@;
        let level_slot = self.levels.find(account);
        match level_slot {
            Some(i) => {
                let slot = &mut self.levels.entries[i];
                slot.level = privacy_level;
                proof {
                    assert(self.levels@ =~= levels_pre.update(
                        i as int,
                        LevelModel { account: levels_pre[i as int].account, level: privacy_level },
                    ));
                    lemma_set_level_update(levels_pre, i as int, privacy_level);
                }
            },
            None => {
                self.levels.entries.push(
                    LevelEntry { account: copy_bytes(account), level: privacy_level },
                );
                proof {
                    assert(self.levels@ =~= levels_pre.push(
                        LevelModel { account: account@, level: privacy_level },
                    ));
                    lemma_set_level_push(levels_pre, account@, privacy_level);
                }
            },
        }
        let ghost histories_pre = self.histories@;
        let history_slot = self.histories.find(account);
        match history_slot {
            Some(i) => {
                let ghost old_levels = histories_pre[i as int].levels;
                let slot = &mut self.histories.entries[i];
                slot.levels.insert(0, privacy_level);
                proof {
                    assert(slot.levels@ =~= seq![privacy_level] + old_levels);
                    assert(self.histories@ =~= histories_pre.update(
                        i as int,
                        HistoryModel {
                            account: histories_pre[i as int].account,
                            levels: seq![privacy_level] + old_levels,
                        },
                    ));
                    lemma_set_history_update(
                        histories_pre,
                        i as int,
                        seq![privacy_level] + old_levels,
                    );
                    lemma_history_index(histories_pre, account@, i as int);
                }
            },
            None => {
                let mut fresh: Vec<u32> = Vec::new();
                fresh.push(privacy_level);
                self.histories.entries.push(
                    HistoryEntry { account: copy_bytes(account), levels: fresh },
                );
                proof {
                    assert(seq![privacy_level] =~= seq![privacy_level] + Seq::<u32>::empty());
                    assert(self.histories@ =~= histories_pre.push(
                        HistoryModel { account: account@, levels: seq![privacy_level] },
                    ));
                    lemma_set_history_push(histories_pre, account@, seq![privacy_level]);
                }
            },
        }
        true
    }

    /// Reads `account`'s current privacy level, if one was ever set.
    pub fn privacy_status(&self, account: &Vec<u8>) -> (r: Option<u32>)
        requires
            self.wf(),
        ensures
            r == level_of(self.levels@, account@),
    {
        let found = self.levels.find(account);
        match found {
            Some(i) => {
                proof {
                    lemma_level_index(self.levels@, account@, i as int);
                }
                Some(self.levels.entries[i].level)
            },
            None => None,
        }
    }

    /// Reads a copy of `account`'s history of privacy levels, most recent
    /// first; empty when none was ever set.
    pub fn privacy_history(&self, account: &Vec<u8>) -> (r: Vec<u32>)
        requires
            self.wf(),
        ensures
            r@ == history_of(self.histories@, account@),
    {
        let found = self.histories.find(account);
        match found {
            Some(i) => {
                proof {
                    lemma_history_index(self.histories@, account@, i as int);
                }
                let stored = &self.histories.entries[i].levels;
                let mut out: Vec<u32> = Vec::new();
                let mut k: usize = 0;
                while k < stored.len()
                    invariant
                        k <= stored.len(),
                        out@ == stored@.take(k as int),
                    decreases stored.len() - k,
                {
                    out.push(stored[k]);
                    proof {
                        assert(stored@.take(k as int).push(stored@[k as int]) =~= stored@.take(
                            k as int + 1,
                        ));
                    }
                    k += 1;
                }
                proof {
                    assert(stored@.take(stored@.len() as int) =~= stored@);
                }
                out
            },
            None => Vec::new(),
        }
    }

    /// Opens an escrow record keyed by the ledger timestamp the host hands
    /// in, and returns that timestamp as the escrow id.
    pub fn create_escrow(&mut self, from: &Vec<u8>, to: &Vec<u8>, _amount: u64, timestamp: u64) -> (r:
        u64)
        requires
            old(self).wf(),
        ensures
            final(self).wf(),
            r == timestamp,
            final(self).escrow_directory@.len() == old(self).escrow_directory@.len() + 1,
            final(self).escrow_directory@.take(old(self).escrow_directory@.len() as int) == old(
                self,
            ).escrow_directory@,
            final(self).escrow_directory@.last().id == timestamp,
            final(self).escrow_directory@.last().from@ == from@,
            final(self).escrow_directory@.last().to@ == to@,
            final(self).levels@ == old(self).levels@,
            final(self).histories@ == old(self).histories@,
    {
        let ghost pre = self.escrow_directory@;
        self.escrow_directory.push(
            EscrowRecord { id: timestamp, from: copy_bytes(from), to: copy_bytes(to) },
        );
        proof {
            assert(self.escrow_directory@.take(pre.len() as int) =~= pre);
        }
        timestamp
    }

    /// Liveness probe; nothing is read or written.
    pub fn health_check() -> (r: bool)
        ensures
            r == true,
    {
        true
    }
}

} // verus!
