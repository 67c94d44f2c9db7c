//! Moderation records: warnings issued against users, as the bot reports
//! them. A warning persists until a staff member deletes it or clears a
//! user's record.

use vstd::prelude::*;

use crate::models::CreateWarn;
use crate::models::Warn;
use crate::models::WorkflowError;

verus! {

/// The warnings of one user in one guild, in store order.
pub open spec fn user_warns(s: Seq<Warn>, gid: Seq<char>, uid: Seq<char>) -> Seq<Warn>
    decreases s.len(),
{
    if s.len() == 0 {
        Seq::empty()
    } else {
        let rest = user_warns(s.drop_last(), gid, uid);
        if s.last().guild_id@ == gid && s.last().target_user_id@ == uid {
            rest.push(s.last())
        } else {
            rest
        }
    }
}

/// The warnings that survive clearing one user's record in one guild.
pub open spec fn other_warns(s: Seq<Warn>, gid: Seq<char>, uid: Seq<char>) -> Seq<Warn>
    decreases s.len(),
{
    if s.len() == 0 {
        Seq::empty()
    } else {
        let rest = other_warns(s.drop_last(), gid, uid);
        if s.last().guild_id@ == gid && s.last().target_user_id@ == uid {
            rest
        } else {
            rest.push(s.last())
        }
    }
}

/// Store of warnings across guilds; ids are unique.
pub struct WarnStore {
    pub warns: Vec<Warn>,
    pub next_id: i64,
}

impl WarnStore {
    /// Invariant of the store.
    pub open spec fn wf(&self) -> bool {
        &&& forall|i: int, j: int|
            0 <= i < j < self.warns@.len() ==> self.warns@[i].id != self.warns@[j].id
        &&& forall|i: int|
            0 <= i < self.warns@.len() ==> (#[trigger] self.warns@[i]).id < self.next_id
        &&& 0 <= self.next_id
    }

    /// An empty store.
    pub fn new() -> (s: WarnStore)
        ensures
            s.wf(),
            s.warns@.len() == 0,
    {
        WarnStore { warns: Vec::new(), next_id: 0 }
    }

    /// Record a warning.
    pub fn add_warn(&mut self, data: CreateWarn, now: i64) -> (r: Warn)
        requires
            old(self).wf(),
            old(self).next_id < i64::MAX,
        ensures
            final(self).wf(),
            final(self).next_id == old(self).next_id + 1,
            final(self).warns@.len() == old(self).warns@.len() + 1,
            forall|j: int|
                0 <= j < old(self).warns@.len() ==> final(self).warns@[j] == old(self).warns@[j],
            ({
                let w = final(self).warns@[old(self).warns@.len() as int];
                &&& r == w
                &&& w.id == old(self).next_id
                &&& w.target_user_id == data.target_user_id
                &&& w.moderator_id == data.moderator_id
                &&& w.reason == data.reason
                &&& w.guild_id == data.guild_id
                &&& w.created_at == now
            }),
    {
        let w = Warn {
            id: self.next_id,
            target_user_id: data.target_user_id,
            moderator_id: data.moderator_id,
            reason: data.reason,
            guild_id: data.guild_id,
            created_at: now,
        };
        let out = Warn {
            id: w.id,
            target_user_id: w.target_user_id.clone(),
            moderator_id: w.moderator_id.clone(),
            reason: w.reason.clone(),
            guild_id: w.guild_id.clone(),
            created_at: w.created_at,
        };
        self.warns.push(w);
        self.next_id = self.next_id + 1;
        out
    }

    /// Copies of one user's warnings in one guild, oldest first.
    #[verifier::loop_isolation(false)]
    pub fn get_warns(&self, guild_id: &String, target_user_id: &String) -> (r: Vec<Warn>)
        requires
            self.wf(),
        ensures
            r@ == user_warns(self.warns@, guild_id@, target_user_id@),
    {
        let mut r: Vec<Warn> = Vec::new();
        let n = self.warns.len();
        let mut i: usize = 0;
        while i < n
            invariant
                i <= n,
                r@ == user_warns(self.warns@.subrange(0, i as int), guild_id@, target_user_id@),
            decreases n - i,
        {
            proof {
                let sub = self.warns@.subrange(0, i as int + 1);
                assert(sub.drop_last() =~= self.warns@.subrange(0, i as int));
                assert(sub.last() == self.warns@[i as int]);
            }
            if self.warns[i].guild_id == *guild_id && self.warns[i].target_user_id
                == *target_user_id {
                let w = &self.warns[i];
                r.push(
                    Warn {
                        id: w.id,
                        target_user_id: w.target_user_id.clone(),
                        moderator_id: w.moderator_id.clone(),
                        reason: w.reason.clone(),
                        guild_id: w.guild_id.clone(),
                        created_at: w.created_at,
                    },
                );
            }
            i = i + 1;
        }
        proof {
            assert(self.warns@.subrange(0, n as int) =~= self.warns@);
        }
        r
    }

    /// How many warnings one user has in one guild.
    #[verifier::loop_isolation(false)]
    pub fn get_warn_count(&self, guild_id: &String, target_user_id: &String) -> (r: usize)
        requires
            self.wf(),
        ensures
            r == user_warns(self.warns@, guild_id@, target_user_id@).len(),
    {
        let mut count: usize = 0;
        let n = self.warns.len();
        let mut i: usize = 0;
        while i < n
            invariant
                i <= n,
                count == user_warns(
                    self.warns@.subrange(0, i as int),
                    guild_id@,
                    target_user_id@,
                ).len(),
                count <= i,
            decreases n - i,
        {
            proof {
                let sub = self.warns@.subrange(0, i as int + 1);
                assert(sub.drop_last() =~= self.warns@.subrange(0, i as int));
                assert(sub.last() == self.warns@[i as int]);
            }
            if self.warns[i].guild_id == *guild_id && self.warns[i].target_user_id
                == *target_user_id {
                count = count + 1;
            }
            i = i + 1;
        }
        proof {
            assert(self.warns@.subrange(0, n as int) =~= self.warns@);
        }
        count
    }

    /// Delete one warning by id, scoped to a guild; `NotFound` when no such
    /// warning belongs to that guild.
    #[verifier::loop_isolation(false)]
    pub fn delete_warn(&mut self, guild_id: &String, warn_id: i64) -> (r: Result<
        (),
        WorkflowError,
    >)
        requires
            old(self).wf(),
        ensures
            final(self).wf(),
            final(self).next_id == old(self).next_id,
            (forall|i: int|
                0 <= i < old(self).warns@.len() ==> !((#[trigger] old(self).warns@[i]).id
                    == warn_id && old(self).warns@[i].guild_id@ == guild_id@)) ==> r == Err::<
                (),
                WorkflowError,
            >(WorkflowError::NotFound) && *final(self) == *old(self),
            forall|i: int|
                0 <= i < old(self).warns@.len() && (#[trigger] old(self).warns@[i]).id == warn_id
                    && old(self).warns@[i].guild_id@ == guild_id@ ==> r == Ok::<(), WorkflowError>(
                    (),
                ) && final(self).warns@ == old(self).warns@.remove(i),
    {
        let n = self.warns.len();
        let mut i: usize = 0;
        while i < n
            invariant
                i <= n,
                *self == *old(self),
                forall|k: int|
                    0 <= k < i as int ==> !((#[trigger] self.warns@[k]).id == warn_id
                        && self.warns@[k].guild_id@ == guild_id@),
            decreases n - i,
        {
            if self.warns[i].id == warn_id && self.warns[i].guild_id == *guild_id {
                self.warns.remove(i);
                return Ok(());
            }
            i = i + 1;
        }
        Err(WorkflowError::NotFound)
    }

    /// Clear one user's record in one guild; every other warning is kept,
    /// in order. Returns how many warnings were deleted.
    #[verifier::loop_isolation(false)]
    pub fn clear_warns(&mut self, guild_id: &String, target_user_id: &String) -> (r: usize)
        requires
            old(self).wf(),
        ensures
            final(self).wf(),
            final(self).next_id == old(self).next_id,
            final(self).warns@ == other_warns(old(self).warns@, guild_id@, target_user_id@),
            r == user_warns(old(self).warns@, guild_id@, target_user_id@).len(),
            user_warns(final(self).warns@, guild_id@, target_user_id@).len() == 0,
    {
        let n = self.warns.len();
        let mut kept: Vec<Warn> = Vec::new();
        let mut removed: usize = 0;
        let mut i: usize = 0;
        while i < n
            invariant
                i <= n,
                *self == *old(self),
                kept@ == other_warns(
                    self.warns@.subrange(0, i as int),
                    guild_id@,
                    target_user_id@,
                ),
                removed == user_warns(
                    self.warns@.subrange(0, i as int),
                    guild_id@,
                    target_user_id@,
                ).len(),
                removed <= i,
                forall|k: int|
                    0 <= k < kept@.len() ==> !((#[trigger] kept@[k]).guild_id@ == guild_id@
                        && kept@[k].target_user_id@ == target_user_id@),
            decreases n - i,
        {
            proof {
                let sub = self.warns@.subrange(0, i as int + 1);
                assert(sub.drop_last() =~= self.warns@.subrange(0, i as int));
                assert(sub.last() == self.warns@[i as int]);
            }
            if self.warns[i].guild_id == *guild_id && self.warns[i].target_user_id
                == *target_user_id {
                removed = removed + 1;
            } else {
                let w = &self.warns[i];
                kept.push(
                    Warn {
                        id: w.id,
                        target_user_id: w.target_user_id.clone(),
                        moderator_id: w.moderator_id.clone(),
                        reason: w.reason.clone(),
                        guild_id: w.guild_id.clone(),
                        created_at: w.created_at,
                    },
                );
            }
            i = i + 1;
        }
        proof {
            assert(self.warns@.subrange(0, n as int) =~= self.warns@);
            lemma_other_warns_keep(old(self).warns@, guild_id@, target_user_id@);
            lemma_user_warns_all_match(kept@, guild_id@, target_user_id@);
        }
        self.warns = kept;
        removed
    }
}

/// A list in which no entry matches the cleared user has an empty filtered
/// record.
proof fn lemma_user_warns_all_match(s: Seq<Warn>, gid: Seq<char>, uid: Seq<char>)
    requires
        forall|k: int|
            0 <= k < s.len() ==> !((#[trigger] s[k]).guild_id@ == gid && s[k].target_user_id@
                == uid),
    ensures
        user_warns(s, gid, uid).len() == 0,
    decreases s.len(),
{
    if s.len() > 0 {
        lemma_user_warns_all_match(s.drop_last(), gid, uid);
    }
}

/// Every warning the clear keeps is a warning of the input, pairwise from
/// distinct positions, so uniqueness of ids and the id bound carry over.
proof fn lemma_other_warns_keep(s: Seq<Warn>, gid: Seq<char>, uid: Seq<char>)
    ensures
        forall|k: int|
            0 <= k < other_warns(s, gid, uid).len() ==> exists|i: int|
                0 <= i < s.len() && #[trigger] other_warns(s, gid, uid)[k] == s[i],
        other_warns(s, gid, uid).len() <= s.len(),
        forall|k: int, l: int|
            #![trigger other_warns(s, gid, uid)[k], other_warns(s, gid, uid)[l]]
            0 <= k < l < other_warns(s, gid, uid).len() ==> exists|i: int, j: int|
                0 <= i < j < s.len() && other_warns(s, gid, uid)[k] == s[i] && other_warns(
                    s,
                    gid,
                    uid,
                )[l] == s[j],
    decreases s.len(),
{
    if s.len() > 0 {
        lemma_other_warns_keep(s.drop_last(), gid, uid);
        assert forall|k: int|
            0 <= k < other_warns(s, gid, uid).len() implies exists|i: int|
            0 <= i < s.len() && #[trigger] other_warns(s, gid, uid)[k] == s[i] by {
            let rest = other_warns(s.drop_last(), gid, uid);
            if k < rest.len() {
                let i = choose|i: int| 0 <= i < s.drop_last().len() && rest[k] == s.drop_last()[i];
                assert(other_warns(s, gid, uid)[k] == s[i]);
            } else {
                assert(other_warns(s, gid, uid)[k] == s[s.len() - 1]);
            }
        }
        assert forall|k: int, l: int|
            #![trigger other_warns(s, gid, uid)[k], other_warns(s, gid, uid)[l]]
            0 <= k < l < other_warns(s, gid, uid).len() implies exists|i: int, j: int|
            0 <= i < j < s.len() && other_warns(s, gid, uid)[k] == s[i] && other_warns(s, gid, uid)[l]
                == s[j] by {
            let rest = other_warns(s.drop_last(), gid, uid);
            if l < rest.len() {
                let (i, j) = choose|i: int, j: int|
                    0 <= i < j < s.drop_last().len() && rest[k] == s.drop_last()[i] && rest[l]
                        == s.drop_last()[j];
                assert(other_warns(s, gid, uid)[k] == s[i]);
                assert(other_warns(s, gid, uid)[l] == s[j]);
            } else {
                let i = choose|i: int| 0 <= i < s.drop_last().len() && rest[k] == s.drop_last()[i];
                assert(other_warns(s, gid, uid)[k] == s[i]);
                assert(other_warns(s, gid, uid)[l] == s[s.len() - 1]);
            }
        }
    }
}

} // verus!
