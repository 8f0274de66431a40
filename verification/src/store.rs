//! The preference store: a table of one [`PlaygroundRequest`] per user,
//! whose mathematical content is a map from user id to record.
//!
//! Reading a user that was never stored yields the default record, so the
//! store never fails on an unknown user.

use vstd::prelude::*;

use crate::prefs::PlaygroundRequest;
use crate::prefs::PlaygroundRequestV;
use crate::prefs::default_record;

verus! {

/// The mathematical values of a sequence of entries.
pub open spec fn entry_views(s: Seq<(u64, PlaygroundRequest)>) -> Seq<(u64, PlaygroundRequestV)> {
    Seq::new(s.len(), |i: int| (s[i].0, s[i].1@))
}

/// No user id occurs twice in `s`.
pub open spec fn unique_keys(s: Seq<(u64, PlaygroundRequestV)>) -> bool {
    forall|i: int, j: int| 0 <= i < j < s.len() ==> (#[trigger] s[i]).0 != (#[trigger] s[j]).0
}

/// The map described by a sequence of entries; a later entry for the same id
/// overrides an earlier one.
pub open spec fn user_map_of(s: Seq<(u64, PlaygroundRequestV)>) -> Map<u64, PlaygroundRequestV>
    decreases s.len(),
{
    if s.len() == 0 {
        Map::<u64, PlaygroundRequestV>::empty()
    } else {
        user_map_of(s.drop_last()).insert(s.last().0, s.last().1)
    }
}

/// The record stored for `user_id`, or the default record if none is.
pub open spec fn stored_or_default(m: Map<u64, PlaygroundRequestV>, user_id: u64) -> PlaygroundRequestV {
    if m.contains_key(user_id) {
        m[user_id]
    } else {
        default_record()
    }
}

/// A key is in the map exactly when some entry carries it.
pub proof fn lemma_user_map_domain(s: Seq<(u64, PlaygroundRequestV)>, k: u64)
    ensures
        user_map_of(s).contains_key(k) <==> exists|i: int| 0 <= i < s.len() && (#[trigger] s[i]).0 == k,
    decreases s.len(),
{
    if s.len() > 0 {
        lemma_user_map_domain(s.drop_last(), k);
        assert(forall|i: int| 0 <= i < s.len() - 1 ==> #[trigger] s.drop_last()[i] == s[i]);
        if user_map_of(s).contains_key(k) {
            if s.last().0 == k {
                assert(s[s.len() - 1].0 == k);
            } else {
                let i = choose|i: int|
                    0 <= i < s.drop_last().len() && (#[trigger] s.drop_last()[i]).0 == k;
                assert(s[i].0 == k);
            }
        }
        if exists|i: int| 0 <= i < s.len() && (#[trigger] s[i]).0 == k {
            let i = choose|i: int| 0 <= i < s.len() && (#[trigger] s[i]).0 == k;
            if i == s.len() - 1 {
                assert(user_map_of(s).contains_key(k));
            } else {
                assert(s.drop_last()[i].0 == k);
            }
        }
    }
}

/// With unique keys, the entry holding a key gives the map's value at it.
pub proof fn lemma_user_map_at(s: Seq<(u64, PlaygroundRequestV)>, i: int)
    requires
        unique_keys(s),
        0 <= i < s.len(),
    ensures
        user_map_of(s).contains_key(s[i].0),
        user_map_of(s)[s[i].0] == s[i].1,
    decreases s.len(),
{
    if i == s.len() - 1 {
        assert(user_map_of(s) == user_map_of(s.drop_last()).insert(s.last().0, s.last().1));
    } else {
        assert(unique_keys(s.drop_last())) by {
            assert(forall|a: int, b: int|
                0 <= a < b < s.drop_last().len() ==> (#[trigger] s.drop_last()[a]).0 != (
                #[trigger] s.drop_last()[b]).0);
        }
        lemma_user_map_at(s.drop_last(), i);
        assert(s.drop_last()[i] == s[i]);
        assert(s[i].0 != s.last().0);
    }
}

/// Updating the entry that holds a key is inserting at that key.
pub proof fn lemma_user_map_update(s: Seq<(u64, PlaygroundRequestV)>, i: int, v: PlaygroundRequestV)
    requires
        unique_keys(s),
        0 <= i < s.len(),
    ensures
        user_map_of(s.update(i, (s[i].0, v))) == user_map_of(s).insert(s[i].0, v),
        unique_keys(s.update(i, (s[i].0, v))),
    decreases s.len(),
{
    let t = s.update(i, (s[i].0, v));
    assert(forall|a: int| 0 <= a < s.len() && a != i ==> t[a] == s[a]);
    if i == s.len() - 1 {
        assert(t.drop_last() =~= s.drop_last());
        assert(user_map_of(t) == user_map_of(s.drop_last()).insert(s[i].0, v));
        assert(user_map_of(t) =~= user_map_of(s).insert(s[i].0, v));
    } else {
        assert(unique_keys(s.drop_last())) by {
            assert(forall|a: int, b: int|
                0 <= a < b < s.drop_last().len() ==> (#[trigger] s.drop_last()[a]).0 != (
                #[trigger] s.drop_last()[b]).0);
        }
        assert(t.drop_last() =~= s.drop_last().update(i, (s[i].0, v)));
        lemma_user_map_update(s.drop_last(), i, v);
        assert(t.last() == s.last());
        assert(user_map_of(t) == user_map_of(s.drop_last()).insert(s[i].0, v).insert(
            s.last().0,
            s.last().1,
        ));
        assert(s[i].0 != s.last().0);
        assert(user_map_of(t) =~= user_map_of(s).insert(s[i].0, v));
    }
}

/// The table of user preference records. Entries are kept in first-insertion
/// order, one per user.
pub struct Users {
    pub entries: Vec<(u64, PlaygroundRequest)>,
}

impl View for Users {
    type V = Map<u64, PlaygroundRequestV>;

    open spec fn view(&self) -> Map<u64, PlaygroundRequestV> {
        user_map_of(self.entries_view())
    }
}

impl Users {
    /// The stored entries, in order, as mathematical values.
    pub open spec fn entries_view(&self) -> Seq<(u64, PlaygroundRequestV)> {
        entry_views(self.entries@)
    }

    /// Every user id occurs at most once.
    pub open spec fn wf(&self) -> bool {
        unique_keys(self.entries_view())
    }

    /// An empty store.
    pub fn new() -> (r: Users)
        ensures
            r.wf(),
            r@ == Map::<u64, PlaygroundRequestV>::empty(),
            r.entries_view() == Seq::<(u64, PlaygroundRequestV)>::empty(),
    {
        let r = Users { entries: Vec::new() };
        proof {
            assert(r.entries_view() =~= Seq::<(u64, PlaygroundRequestV)>::empty());
        }
        r
    }

    /// A store holding the given entries.
    pub fn from_entries(entries: Vec<(u64, PlaygroundRequest)>) -> (r: Users)
        ensures
            r.entries_view() == entry_views(entries@),
    {
        Users { entries }
    }

    /// Stores `rec` for `user_id`, overwriting any earlier record.
    pub fn set_record(&mut self, user_id: u64, rec: PlaygroundRequest)
        requires
            old(self).wf(),
        ensures
            final(self).wf(),
            final(self)@ == old(self)@.insert(user_id, rec@),
    {
        let n = self.entries.len();
        let mut i: usize = 0;
        while i < n
            invariant
                0 <= i <= n,
                *self == *old(self),
                old(self).wf(),
                n == self.entries@.len(),
                forall|j: int| 0 <= j < i ==> (#[trigger] self.entries@[j]).0 != user_id,
            decreases n - i,
        {
            if self.entries[i].0 == user_id {
                let ghost s0 = self.entries_view();
                self.entries[i] = (user_id, rec);
                proof {
                    assert(self.entries_view() =~= s0.update(i as int, (user_id, rec@)));
                    assert(s0[i as int].0 == user_id);
                    lemma_user_map_update(s0, i as int, rec@);
                }
                return ;
            }
            i += 1;
        }
        let ghost s0 = self.entries_view();
        self.entries.push((user_id, rec));
        proof {
            let t = s0.push((user_id, rec@));
            assert(self.entries_view() =~= t);
            assert forall|a: int, b: int| 0 <= a < b < t.len() implies (#[trigger] t[a]).0 != (
            #[trigger] t[b]).0 by {
                if b < s0.len() {
                    assert(t[a] == s0[a]);
                    assert(t[b] == s0[b]);
                } else {
                    assert(t[b] == (user_id, rec@));
                    assert(t[a] == s0[a]);
                    assert(s0[a].0 == old(self).entries@[a].0);
                }
            }
            assert(t.drop_last() =~= s0);
            assert(user_map_of(t) == user_map_of(s0).insert(user_id, rec@));
        }
    }
}

/// The record currently stored for `user_id`, or the default record if the
/// user was never seen.
pub fn get_user_data(user_id: u64, users: &Users) -> (r: PlaygroundRequest)
    requires
        users.wf(),
    ensures
        r@ == stored_or_default(users@, user_id),
{
    let n = users.entries.len();
    let mut i: usize = 0;
    while i < n
        invariant
            0 <= i <= n,
            users.wf(),
            n == users.entries@.len(),
            forall|j: int| 0 <= j < i ==> (#[trigger] users.entries@[j]).0 != user_id,
        decreases n - i,
    {
        if users.entries[i].0 == user_id {
            let r = users.entries[i].1.clone();
            proof {
                lemma_user_map_at(users.entries_view(), i as int);
            }
            return r;
        }
        i += 1;
    }
    proof {
        lemma_user_map_domain(users.entries_view(), user_id);
    }
    PlaygroundRequest::new()
}

/// Law: storing records for two different users, in either order, loses
/// neither write — both users end up present with their own records.
pub proof fn lemma_two_writes_both_kept(
    m: Map<u64, PlaygroundRequestV>,
    u1: u64,
    r1: PlaygroundRequestV,
    u2: u64,
    r2: PlaygroundRequestV,
)
    requires
        u1 != u2,
    ensures
        m.insert(u1, r1).insert(u2, r2).contains_key(u1),
        m.insert(u1, r1).insert(u2, r2).contains_key(u2),
        m.insert(u1, r1).insert(u2, r2)[u1] == r1,
        m.insert(u1, r1).insert(u2, r2)[u2] == r2,
        m.insert(u2, r2).insert(u1, r1).contains_key(u1),
        m.insert(u2, r2).insert(u1, r1).contains_key(u2),
        m.insert(u2, r2).insert(u1, r1)[u1] == r1,
        m.insert(u2, r2).insert(u1, r1)[u2] == r2,
{
}

} // verus!
