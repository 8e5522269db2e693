//! The privacy registry: a boolean flag per account, absent meaning
//! disabled, toggled only with the owner's authorization.

use vstd::prelude::*;
use crate::bytes::{bytes_eq, copy_bytes};
use crate::errors::QuickexError;
use crate::events::{privacy_log_extended, publish_privacy_toggled, PrivacyToggledEvent};

verus! {

/// One account's stored flag.
pub struct PrivacyFlag {
    pub owner: Vec<u8>,
    pub enabled: bool,
}

/// The mathematical shadow of a stored flag.
pub ghost struct FlagModel {
    pub owner: Seq<u8>,
    pub enabled: bool,
}

impl View for PrivacyFlag {
    type V = FlagModel;

    open spec fn view(&self) -> FlagModel {
        FlagModel { owner: self.owner@, enabled: self.enabled }
    }
}

/// Whether some flag is stored for `owner`.
pub open spec fn has_flag(s: Seq<FlagModel>, owner: Seq<u8>) -> bool {
    exists|i: int| 0 <= i < s.len() && s[i].owner == owner
}

/// The index of `owner`'s flag; meaningful under `unique_owners` when
/// `has_flag` holds.
pub open spec fn flag_index(s: Seq<FlagModel>, owner: Seq<u8>) -> int {
    choose|i: int| 0 <= i < s.len() && s[i].owner == owner
}

/// No two stored flags share an owner.
pub open spec fn unique_owners(s: Seq<FlagModel>) -> bool {
    forall|i: int, j: int|
        0 <= i < s.len() && 0 <= j < s.len() && i != j ==> s[i].owner != s[j].owner
}

/// What `owner`'s flag reads as: the stored value, or `false` when no flag
/// was ever stored.
pub open spec fn privacy_of(s: Seq<FlagModel>, owner: Seq<u8>) -> bool {
    if has_flag(s, owner) {
        s[flag_index(s, owner)].enabled
    } else {
        false
    }
}

/// Under uniqueness, any index whose flag belongs to `owner` is the index
/// that `flag_index` denotes.
pub proof fn lemma_flag_index(s: Seq<FlagModel>, owner: Seq<u8>, i: int)
    requires
        unique_owners(s),
        0 <= i < s.len(),
        s[i].owner == owner,
    ensures
        has_flag(s, owner),
        flag_index(s, owner) == i,
        privacy_of(s, owner) == s[i].enabled,
{
    assert(has_flag(s, owner));
    let j = flag_index(s, owner);
    assert(0 <= j < s.len() && s[j].owner == owner);
    if i != j {
        assert(s[i].owner != s[j].owner);
    }
}

/// A flag that was never stored reads as disabled.
pub proof fn lemma_privacy_default(s: Seq<FlagModel>, owner: Seq<u8>)
    requires
        !has_flag(s, owner),
    ensures
        privacy_of(s, owner) == false,
{
}

/// Overwriting the flag at index `i` changes that owner's reading to the
/// new value and no other owner's reading.
proof fn lemma_set_flag_update(s1: Seq<FlagModel>, i: int, enabled: bool)
    requires
        unique_owners(s1),
        0 <= i < s1.len(),
    ensures
        ({
            let s2 = s1.update(i, FlagModel { owner: s1[i].owner, enabled });
            unique_owners(s2) && privacy_of(s2, s1[i].owner) == enabled && forall|o: Seq<u8>|
                o != s1[i].owner ==> privacy_of(s2, o) == privacy_of(s1, o)
        }),
{
    let t = s1[i].owner;
    let s2 = s1.update(i, FlagModel { owner: t, enabled });
    assert(forall|k: int| 0 <= k < s2.len() ==> s2[k].owner == s1[k].owner);
    assert(unique_owners(s2));
    lemma_flag_index(s2, t, i);
    assert forall|o: Seq<u8>| o != t implies privacy_of(s2, o) == privacy_of(s1, o) by {
        if has_flag(s1, o) {
            let j = flag_index(s1, o);
            assert(0 <= j < s1.len() && s1[j].owner == o);
            assert(j != i);
            lemma_flag_index(s2, o, j);
            lemma_flag_index(s1, o, j);
        } else {
            if has_flag(s2, o) {
                let j = flag_index(s2, o);
                assert(0 <= j < s2.len() && s2[j].owner == o);
                assert(s1[j].owner == o);
                assert(false);
            }
        }
    }
}

/// Storing a first flag for `t` makes `t` read as the new value and leaves
/// every other owner's reading unchanged.
proof fn lemma_set_flag_push(s1: Seq<FlagModel>, t: Seq<u8>, enabled: bool)
    requires
        unique_owners(s1),
        !has_flag(s1, t),
    ensures
        ({
            let s2 = s1.push(FlagModel { owner: t, enabled });
            unique_owners(s2) && privacy_of(s2, t) == enabled && forall|o: Seq<u8>|
                o != t ==> privacy_of(s2, o) == privacy_of(s1, o)
        }),
{
    let s2 = s1.push(FlagModel { owner: t, enabled });
    assert forall|i: int, j: int|
        0 <= i < s2.len() && 0 <= j < s2.len() && i != j implies s2[i].owner != s2[j].owner by {
        if i < s1.len() && j < s1.len() {
            assert(s1[i].owner != s1[j].owner);
        } else if i < s1.len() {
            assert(s1[i].owner != t);
        } else if j < s1.len() {
            assert(s1[j].owner != t);
        }
    }
    lemma_flag_index(s2, t, s1.len() as int);
    assert forall|o: Seq<u8>| o != t implies privacy_of(s2, o) == privacy_of(s1, o) by {
        if has_flag(s1, o) {
            let j = flag_index(s1, o);
            assert(0 <= j < s1.len() && s1[j].owner == o);
            assert(s2[j].owner == o);
            lemma_flag_index(s2, o, j);
            lemma_flag_index(s1, o, j);
        } else {
            if has_flag(s2, o) {
                let j = flag_index(s2, o);
                assert(0 <= j < s2.len() && s2[j].owner == o);
                assert(j < s1.len());
                assert(false);
            }
        }
    }
}

/// Per-account flag storage.
pub struct PrivacyStore {
    flags: Vec<PrivacyFlag>,
}

impl View for PrivacyStore {
    type V = Seq<FlagModel>;

    closed spec fn view(&self) -> Seq<FlagModel> {
        self.flags@.map_values(|f: PrivacyFlag| f@)
    }
}

impl PrivacyStore {
    /// The store's invariant: one flag per owner.
    pub open spec fn wf(&self) -> bool {
        unique_owners(self@)
    }

    /// An empty store: no account has a flag yet.
    pub fn new() -> (r: Self)
        ensures
            r@ == Seq::<FlagModel>::empty(),
            r.wf(),
    {
        let r = PrivacyStore { flags: Vec::new() };
        proof {
            assert(r@ =~= Seq::<FlagModel>::empty());
        }
        r
    }

    /// The index of `owner`'s flag, if any.
    fn find(&self, owner: &Vec<u8>) -> (r: Option<usize>)
        ensures
            match r {
                Some(i) => 0 <= i < self@.len() && self@[i as int].owner == owner@,
                None => !has_flag(self@, owner@),
            },
    {
        let mut i: usize = 0;
        while i < self.flags.len()
            invariant
                i <= self.flags.len(),
                self@.len() == self.flags@.len(),
                forall|j: int| 0 <= j < self@.len() ==> self@[j] == self.flags@[j]@,
                forall|j: int| 0 <= j < i ==> self@[j].owner != owner@,
            decreases self.flags.len() - i,
        {
            if bytes_eq(&self.flags[i].owner, owner) {
                return Some(i);
            }
            i += 1;
        }
        None
    }
}

/// Stores `owner`'s flag and logs a privacy-toggled event.
///
/// Fails with `Unauthorized`, touching nothing, exactly when the host did
/// not authorize `owner`; once authorized it always succeeds. On success
/// `owner` reads as `enabled`, every other account reads as before, and
/// exactly one event carrying `(owner, enabled, timestamp)` is appended.
pub fn set_privacy(
    store: &mut PrivacyStore,
    log: &mut Vec<PrivacyToggledEvent>,
    owner: &Vec<u8>,
    enabled: bool,
    authorized: bool,
    timestamp: u64,
) -> (r: Result<(), QuickexError>)
    requires
        old(store).wf(),
    ensures
        final(store).wf(),
        match r {
            Ok(()) => authorized && privacy_of(final(store)@, owner@) == enabled && (forall|
                o: Seq<u8>,
            |
                o != owner@ ==> privacy_of(final(store)@, o) == privacy_of(old(store)@, o))
                && privacy_log_extended(old(log)@, final(log)@, owner@, enabled, timestamp),
            Err(e) => !authorized && e == QuickexError::Unauthorized && final(store)@ == old(
                store,
            )@ && final(log)@ == old(log)@,
        },
{
    if !authorized {
        return Err(QuickexError::Unauthorized);
    }
    let ghost pre = store@;
    let found = store.find(owner);
    match found {
        Some(i) => {
            let slot = &mut store.flags[i];
            slot.enabled = enabled;
            proof {
                assert(store@ =~= pre.update(
                    i as int,
                    FlagModel { owner: pre[i as int].owner, enabled },
                ));
                lemma_set_flag_update(pre, i as int, enabled);
            }
        },
        None => {
            store.flags.push(PrivacyFlag { owner: copy_bytes(owner), enabled });
            proof {
                assert(store@ =~= pre.push(FlagModel { owner: owner@, enabled }));
                lemma_set_flag_push(pre, owner@, enabled);
            }
        },
    }
    publish_privacy_toggled(log, copy_bytes(owner), enabled, timestamp);
    Ok(())
}

/// Reads `owner`'s flag: the stored value, or `false` when never set. No
/// authorization is required.
pub fn get_privacy(store: &PrivacyStore, owner: &Vec<u8>) -> (r: bool)
    requires
        store.wf(),
    ensures
        r == privacy_of(store@, owner@),
{
    let found = store.find(owner);
    match found {
        Some(i) => {
            proof {
                lemma_flag_index(store@, owner@, i as int);
            }
            store.flags[i].enabled
        },
        None => false,
    }
}

} // verus!
