//! Giveaway state machine: running → ended, with idempotent re-entry,
//! randomized winner selection at `end`, and repeatable `reroll` while ended.
//!
//! All transitions are conditional on current state, so of two racing
//! callers exactly one succeeds and the other observes a conflict.

use vstd::prelude::*;

use crate::models::CreateGiveaway;
use crate::models::EnterOutcome;
use crate::models::Giveaway;
use crate::models::WorkflowError;
use crate::models::clone_opt_string;
use crate::models::clone_strings;
use crate::models::giveaway_like;
use crate::sampler::distinct_seq;
use crate::sampler::pick_winners;

verus! {

/// True when some entry of the list spells the same identifier.
pub open spec fn contains_id(s: Seq<String>, x: Seq<char>) -> bool {
    exists|k: int| 0 <= k < s.len() && s[k]@ == x
}

/// True when the store holds a giveaway with this id.
pub open spec fn has_giveaway(s: Seq<Giveaway>, id: i64) -> bool {
    exists|i: int| 0 <= i < s.len() && s[i].id == id
}

/// The number of winners a draw over this giveaway must yield:
/// `min(winners, |participants|)`.
pub open spec fn winner_quota(g: Giveaway) -> int {
    if g.winners as int <= g.participants@.len() as int {
        g.winners as int
    } else {
        g.participants@.len() as int
    }
}

/// A well-formed winner list: populated to the quota, duplicate-free, and
/// drawn from the participants.
pub open spec fn winners_valid(g: Giveaway) -> bool {
    &&& g.winner_ids@.len() == winner_quota(g)
    &&& distinct_seq(g.winner_ids@)
    &&& forall|k: int|
        0 <= k < g.winner_ids@.len() ==> #[trigger] g.participants@.contains(g.winner_ids@[k])
}

/// Invariant of a single giveaway row.
pub open spec fn giveaway_wf(g: Giveaway) -> bool {
    &&& g.winners >= 0
    &&& distinct_seq(g.participants@)
    &&& !g.ended ==> g.winner_ids@.len() == 0
    &&& g.ended ==> winners_valid(g)
}

/// Fields never touched by enter, end or reroll.
pub open spec fn same_identity(a: Giveaway, b: Giveaway) -> bool {
    &&& a.id == b.id
    &&& a.guild_id == b.guild_id
    &&& a.channel_id == b.channel_id
    &&& a.message_id == b.message_id
    &&& a.host_id == b.host_id
    &&& a.prize == b.prize
    &&& a.winners == b.winners
    &&& a.required_role == b.required_role
    &&& a.ends_at == b.ends_at
    &&& a.created_at == b.created_at
}

/// The running → ended transition of one row: the flag flips, the winner
/// list is drawn to quota, and the participant list is unchanged.
pub open spec fn end_applied(pre: Giveaway, post: Giveaway) -> bool {
    &&& !pre.ended
    &&& post.ended
    &&& post.participants@ == pre.participants@
    &&& winners_valid(post)
    &&& same_identity(pre, post)
}

/// A reroll of one row: still ended, winners replaced to quota, participants
/// unchanged.
pub open spec fn reroll_applied(pre: Giveaway, post: Giveaway) -> bool {
    &&& pre.ended
    &&& post.ended
    &&& post.participants@ == pre.participants@
    &&& winners_valid(post)
    &&& same_identity(pre, post)
}

/// An entry of `user` into one row: appended once at the end, nothing else
/// changed.
pub open spec fn enter_applied(pre: Giveaway, post: Giveaway, user: Seq<char>) -> bool {
    &&& !pre.ended
    &&& post.ended == pre.ended
    &&& !contains_id(pre.participants@, user)
    &&& post.participants@.len() == pre.participants@.len() + 1
    &&& forall|k: int|
        0 <= k < pre.participants@.len() ==> post.participants@[k] == pre.participants@[k]
    &&& post.participants@[pre.participants@.len() as int]@ == user
    &&& post.winner_ids@ == pre.winner_ids@
    &&& same_identity(pre, post)
}

/// All rows but the one at `i` are untouched.
pub open spec fn only_changed(pre: Seq<Giveaway>, post: Seq<Giveaway>, i: int) -> bool {
    &&& post.len() == pre.len()
    &&& forall|j: int| 0 <= j < pre.len() && j != i ==> post[j] == pre[j]
}

/// The giveaways of one guild, in store order.
pub open spec fn guild_giveaways(s: Seq<Giveaway>, gid: Seq<char>) -> Seq<Giveaway>
    decreases s.len(),
{
    if s.len() == 0 {
        Seq::empty()
    } else {
        let rest = guild_giveaways(s.drop_last(), gid);
        if s.last().guild_id@ == gid {
            rest.push(s.last())
        } else {
            rest
        }
    }
}

/// The still-running giveaways of one guild, in store order.
pub open spec fn active_giveaways(s: Seq<Giveaway>, gid: Seq<char>) -> Seq<Giveaway>
    decreases s.len(),
{
    if s.len() == 0 {
        Seq::empty()
    } else {
        let rest = active_giveaways(s.drop_last(), gid);
        if s.last().guild_id@ == gid && !s.last().ended {
            rest.push(s.last())
        } else {
            rest
        }
    }
}

/// The giveaway store: every row well formed, ids unique and below `next_id`.
pub struct GiveawayStore {
    pub giveaways: Vec<Giveaway>,
    pub next_id: i64,
}

impl GiveawayStore {
    /// Invariant of the store.
    pub open spec fn wf(&self) -> bool {
        &&& forall|i: int, j: int|
            0 <= i < j < self.giveaways@.len() ==> self.giveaways@[i].id != self.giveaways@[j].id
        &&& forall|i: int|
            0 <= i < self.giveaways@.len() ==> giveaway_wf(#[trigger] self.giveaways@[i])
        &&& forall|i: int|
            0 <= i < self.giveaways@.len() ==> (#[trigger] self.giveaways@[i]).id < self.next_id
        &&& 0 <= self.next_id
    }

    /// An empty store.
    pub fn new() -> (s: GiveawayStore)
        ensures
            s.wf(),
            s.giveaways@.len() == 0,
    {
        GiveawayStore { giveaways: Vec::new(), next_id: 0 }
    }

    /// Create a giveaway in the running state with no participants and no
    /// winners. Rejects a negative desired-winner count as malformed.
    pub fn create(&mut self, data: CreateGiveaway, now: i64) -> (r: Result<
        Giveaway,
        WorkflowError,
    >)
        requires
            old(self).wf(),
            old(self).next_id < i64::MAX,
        ensures
            final(self).wf(),
            data.winners < 0 ==> r == Err::<Giveaway, WorkflowError>(WorkflowError::Validation)
                && *final(self) == *old(self),
            data.winners >= 0 ==> {
                &&& r is Ok
                &&& final(self).next_id == old(self).next_id + 1
                &&& final(self).giveaways@.len() == old(self).giveaways@.len() + 1
                &&& forall|j: int|
                    0 <= j < old(self).giveaways@.len() ==> final(self).giveaways@[j] == old(
                        self,
                    ).giveaways@[j]
                &&& {
                    let g = final(self).giveaways@[old(self).giveaways@.len() as int];
                    &&& g.id == old(self).next_id
                    &&& g.guild_id == data.guild_id
                    &&& g.channel_id == data.channel_id
                    &&& g.message_id == data.message_id
                    &&& g.host_id == data.host_id
                    &&& g.prize == data.prize
                    &&& g.winners == data.winners
                    &&& g.required_role == data.required_role
                    &&& g.ends_at == data.ends_at
                    &&& !g.ended
                    &&& g.winner_ids@.len() == 0
                    &&& g.participants@.len() == 0
                    &&& g.created_at == now
                    &&& giveaway_like(r->Ok_0, g)
                }
            },
    {
        if data.winners < 0 {
            return Err(WorkflowError::Validation);
        }
        let g = Giveaway {
            id: self.next_id,
            guild_id: data.guild_id,
            channel_id: data.channel_id,
            message_id: data.message_id,
            host_id: data.host_id,
            prize: data.prize,
            winners: data.winners,
            required_role: data.required_role,
            ends_at: data.ends_at,
            ended: false,
            winner_ids: Vec::new(),
            participants: Vec::new(),
            created_at: now,
        };
        let out = g.duplicate();
        self.giveaways.push(g);
        self.next_id = self.next_id + 1;
        Ok(out)
    }

    /// Fetch a copy of the giveaway with this id.
    #[verifier::loop_isolation(false)]
    pub fn get(&self, giveaway_id: i64) -> (r: Result<Giveaway, WorkflowError>)
        requires
            self.wf(),
        ensures
            !has_giveaway(self.giveaways@, giveaway_id) ==> r == Err::<Giveaway, WorkflowError>(
                WorkflowError::NotFound,
            ),
            has_giveaway(self.giveaways@, giveaway_id) ==> r is Ok && forall|i: int|
                0 <= i < self.giveaways@.len() && (#[trigger] self.giveaways@[i]).id == giveaway_id
                    ==> giveaway_like(r->Ok_0, self.giveaways@[i]),
    {
        let n = self.giveaways.len();
        let mut i: usize = 0;
        while i < n
            invariant
                i <= n,
                n == self.giveaways@.len(),
                forall|k: int| 0 <= k < i as int ==> (#[trigger] self.giveaways@[k]).id
                    != giveaway_id,
            decreases n - i,
        {
            if self.giveaways[i].id == giveaway_id {
                return Ok(self.giveaways[i].duplicate());
            }
            i = i + 1;
        }
        Err(WorkflowError::NotFound)
    }

    /// Copies of all giveaways of a guild, oldest first.
    #[verifier::loop_isolation(false)]
    pub fn list(&self, guild_id: &String) -> (r: Vec<Giveaway>)
        requires
            self.wf(),
        ensures
            ({
                let fs = guild_giveaways(self.giveaways@, guild_id@);
                &&& r@.len() == fs.len()
                &&& forall|k: int| 0 <= k < fs.len() ==> giveaway_like(r@[k], fs[k])
            }),
    {
        let mut r: Vec<Giveaway> = Vec::new();
        let n = self.giveaways.len();
        let mut i: usize = 0;
        while i < n
            invariant
                i <= n,
                ({
                    let fs = guild_giveaways(self.giveaways@.subrange(0, i as int), guild_id@);
                    &&& r@.len() == fs.len()
                    &&& forall|k: int| 0 <= k < fs.len() ==> giveaway_like(r@[k], fs[k])
                }),
            decreases n - i,
        {
            proof {
                let sub = self.giveaways@.subrange(0, i as int + 1);
                assert(sub.drop_last() =~= self.giveaways@.subrange(0, i as int));
                assert(sub.last() == self.giveaways@[i as int]);
            }
            if self.giveaways[i].guild_id == *guild_id {
                r.push(self.giveaways[i].duplicate());
            }
            i = i + 1;
        }
        proof {
            assert(self.giveaways@.subrange(0, n as int) =~= self.giveaways@);
        }
        r
    }

    /// Copies of the still-running giveaways of a guild, oldest first.
    #[verifier::loop_isolation(false)]
    pub fn get_active(&self, guild_id: &String) -> (r: Vec<Giveaway>)
        requires
            self.wf(),
        ensures
            ({
                let fs = active_giveaways(self.giveaways@, guild_id@);
                &&& r@.len() == fs.len()
                &&& forall|k: int| 0 <= k < fs.len() ==> giveaway_like(r@[k], fs[k])
            }),
    {
        let mut r: Vec<Giveaway> = Vec::new();
        let n = self.giveaways.len();
        let mut i: usize = 0;
        while i < n
            invariant
                i <= n,
                ({
                    let fs = active_giveaways(self.giveaways@.subrange(0, i as int), guild_id@);
                    &&& r@.len() == fs.len()
                    &&& forall|k: int| 0 <= k < fs.len() ==> giveaway_like(r@[k], fs[k])
                }),
            decreases n - i,
        {
            proof {
                let sub = self.giveaways@.subrange(0, i as int + 1);
                assert(sub.drop_last() =~= self.giveaways@.subrange(0, i as int));
                assert(sub.last() == self.giveaways@[i as int]);
            }
            if self.giveaways[i].guild_id == *guild_id && !self.giveaways[i].ended {
                r.push(self.giveaways[i].duplicate());
            }
            i = i + 1;
        }
        proof {
            assert(self.giveaways@.subrange(0, n as int) =~= self.giveaways@);
        }
        r
    }

    /// Append `user_id` to the participants of a running giveaway, once.
    /// A second entry of the same user reports `AlreadyEntered` and leaves
    /// the list unchanged; an ended giveaway refuses the entry.
    #[verifier::loop_isolation(false)]
    pub fn enter(&mut self, giveaway_id: i64, user_id: &String) -> (r: Result<
        EnterOutcome,
        WorkflowError,
    >)
        requires
            old(self).wf(),
        ensures
            final(self).wf(),
            final(self).next_id == old(self).next_id,
            !has_giveaway(old(self).giveaways@, giveaway_id) ==> r == Err::<
                EnterOutcome,
                WorkflowError,
            >(WorkflowError::NotFound) && *final(self) == *old(self),
            forall|i: int|
                0 <= i < old(self).giveaways@.len() && (#[trigger] old(self).giveaways@[i]).id
                    == giveaway_id ==> {
                    let pre = old(self).giveaways@[i];
                    &&& pre.ended ==> r == Err::<EnterOutcome, WorkflowError>(
                        WorkflowError::AlreadyEnded,
                    ) && *final(self) == *old(self)
                    &&& (!pre.ended && contains_id(pre.participants@, user_id@)) ==> r == Ok::<
                        EnterOutcome,
                        WorkflowError,
                    >(EnterOutcome::AlreadyEntered) && *final(self) == *old(self)
                    &&& (!pre.ended && !contains_id(pre.participants@, user_id@)) ==> r == Ok::<
                        EnterOutcome,
                        WorkflowError,
                    >(EnterOutcome::Entered) && only_changed(
                        old(self).giveaways@,
                        final(self).giveaways@,
                        i,
                    ) && enter_applied(pre, final(self).giveaways@[i], user_id@)
                },
    {
        let n = self.giveaways.len();
        let mut i: usize = 0;
        while i < n
            invariant
                i <= n,
                n == self.giveaways@.len(),
                *self == *old(self),
                forall|k: int| 0 <= k < i as int ==> (#[trigger] self.giveaways@[k]).id
                    != giveaway_id,
            decreases n - i,
        {
            if self.giveaways[i].id == giveaway_id {
                if self.giveaways[i].ended {
                    return Err(WorkflowError::AlreadyEnded);
                }
                let m = self.giveaways[i].participants.len();
                let mut k: usize = 0;
                while k < m
                    invariant
                        k <= m,
                        i < n,
                        m == self.giveaways@[i as int].participants@.len(),
                        forall|t: int|
                            0 <= t < k as int ==> self.giveaways@[i as int].participants@[t]@
                                != user_id@,
                    decreases m - k,
                {
                    if self.giveaways[i].participants[k] == *user_id {
                        return Ok(EnterOutcome::AlreadyEntered);
                    }
                    k = k + 1;
                }
                let pre = &self.giveaways[i];
                let mut new_participants = clone_strings(&pre.participants);
                new_participants.push(user_id.clone());
                let updated = Giveaway {
                    id: pre.id,
                    guild_id: pre.guild_id.clone(),
                    channel_id: pre.channel_id.clone(),
                    message_id: pre.message_id.clone(),
                    host_id: pre.host_id.clone(),
                    prize: pre.prize.clone(),
                    winners: pre.winners,
                    required_role: clone_opt_string(&pre.required_role),
                    ends_at: pre.ends_at,
                    ended: pre.ended,
                    winner_ids: clone_strings(&pre.winner_ids),
                    participants: new_participants,
                    created_at: pre.created_at,
                };
                self.giveaways.set(i, updated);
                return Ok(EnterOutcome::Entered);
            }
            i = i + 1;
        }
        Err(WorkflowError::NotFound)
    }

    /// End a running giveaway: draw winners to quota from the participants
    /// with the walk seeded by `seed`, and flip `ended` in the same update.
    /// Exactly one of two racing callers succeeds; the other observes
    /// `AlreadyEnded` and changes nothing. `participants` is unchanged.
    #[verifier::loop_isolation(false)]
    pub fn end_giveaway(&mut self, giveaway_id: i64, seed: u64) -> (r: Result<
        Giveaway,
        WorkflowError,
    >)
        requires
            old(self).wf(),
        ensures
            final(self).wf(),
            final(self).next_id == old(self).next_id,
            !has_giveaway(old(self).giveaways@, giveaway_id) ==> r == Err::<
                Giveaway,
                WorkflowError,
            >(WorkflowError::NotFound) && *final(self) == *old(self),
            forall|i: int|
                0 <= i < old(self).giveaways@.len() && (#[trigger] old(self).giveaways@[i]).id
                    == giveaway_id ==> {
                    let pre = old(self).giveaways@[i];
                    &&& pre.ended ==> r == Err::<Giveaway, WorkflowError>(
                        WorkflowError::AlreadyEnded,
                    ) && *final(self) == *old(self)
                    &&& !pre.ended ==> r is Ok && only_changed(
                        old(self).giveaways@,
                        final(self).giveaways@,
                        i,
                    ) && end_applied(pre, final(self).giveaways@[i]) && giveaway_like(
                        r->Ok_0,
                        final(self).giveaways@[i],
                    )
                },
    {
        let n = self.giveaways.len();
        let mut i: usize = 0;
        while i < n
            invariant
                i <= n,
                n == self.giveaways@.len(),
                *self == *old(self),
                forall|k: int| 0 <= k < i as int ==> (#[trigger] self.giveaways@[k]).id
                    != giveaway_id,
            decreases n - i,
        {
            if self.giveaways[i].id == giveaway_id {
                if self.giveaways[i].ended {
                    return Err(WorkflowError::AlreadyEnded);
                }
                let pre = &self.giveaways[i];
                let count = winner_count(pre.winners, pre.participants.len());
                let drawn = pick_winners(&pre.participants, count, seed);
                let updated = Giveaway {
                    id: pre.id,
                    guild_id: pre.guild_id.clone(),
                    channel_id: pre.channel_id.clone(),
                    message_id: pre.message_id.clone(),
                    host_id: pre.host_id.clone(),
                    prize: pre.prize.clone(),
                    winners: pre.winners,
                    required_role: clone_opt_string(&pre.required_role),
                    ends_at: pre.ends_at,
                    ended: true,
                    winner_ids: drawn,
                    participants: clone_strings(&pre.participants),
                    created_at: pre.created_at,
                };
                let out = updated.duplicate();
                self.giveaways.set(i, updated);
                return Ok(out);
            }
            i = i + 1;
        }
        Err(WorkflowError::NotFound)
    }

    /// Replace the winners of an already-ended giveaway with a fresh draw
    /// over the same participant list. Refused with `NotEnded` while the
    /// giveaway is still running.
    #[verifier::loop_isolation(false)]
    pub fn reroll(&mut self, giveaway_id: i64, seed: u64) -> (r: Result<Giveaway, WorkflowError>)
        requires
            old(self).wf(),
        ensures
            final(self).wf(),
            final(self).next_id == old(self).next_id,
            !has_giveaway(old(self).giveaways@, giveaway_id) ==> r == Err::<
                Giveaway,
                WorkflowError,
            >(WorkflowError::NotFound) && *final(self) == *old(self),
            forall|i: int|
                0 <= i < old(self).giveaways@.len() && (#[trigger] old(self).giveaways@[i]).id
                    == giveaway_id ==> {
                    let pre = old(self).giveaways@[i];
                    &&& !pre.ended ==> r == Err::<Giveaway, WorkflowError>(WorkflowError::NotEnded)
                        && *final(self) == *old(self)
                    &&& pre.ended ==> r is Ok && only_changed(
                        old(self).giveaways@,
                        final(self).giveaways@,
                        i,
                    ) && reroll_applied(pre, final(self).giveaways@[i]) && giveaway_like(
                        r->Ok_0,
                        final(self).giveaways@[i],
                    )
                },
    {
        let n = self.giveaways.len();
        let mut i: usize = 0;
        while i < n
            invariant
                i <= n,
                n == self.giveaways@.len(),
                *self == *old(self),
                forall|k: int| 0 <= k < i as int ==> (#[trigger] self.giveaways@[k]).id
                    != giveaway_id,
            decreases n - i,
        {
            if self.giveaways[i].id == giveaway_id {
                if !self.giveaways[i].ended {
                    return Err(WorkflowError::NotEnded);
                }
                let pre = &self.giveaways[i];
                let count = winner_count(pre.winners, pre.participants.len());
                let drawn = pick_winners(&pre.participants, count, seed);
                let updated = Giveaway {
                    id: pre.id,
                    guild_id: pre.guild_id.clone(),
                    channel_id: pre.channel_id.clone(),
                    message_id: pre.message_id.clone(),
                    host_id: pre.host_id.clone(),
                    prize: pre.prize.clone(),
                    winners: pre.winners,
                    required_role: clone_opt_string(&pre.required_role),
                    ends_at: pre.ends_at,
                    ended: true,
                    winner_ids: drawn,
                    participants: clone_strings(&pre.participants),
                    created_at: pre.created_at,
                };
                let out = updated.duplicate();
                self.giveaways.set(i, updated);
                return Ok(out);
            }
            i = i + 1;
        }
        Err(WorkflowError::NotFound)
    }
}

/// Exactly one of two sequential `end` invocations on the same giveaway
/// flips the flag: once the transition has applied, the row is ended and
/// its participant list is what it was, so by `end_giveaway`'s contract any
/// later `end` of this id reports `AlreadyEnded` and changes nothing.
pub proof fn lemma_end_exactly_once(pre: Giveaway, post: Giveaway)
    requires
        end_applied(pre, post),
    ensures
        post.ended,
        post.participants@ == pre.participants@,
        post.id == pre.id,
{
}

/// The number of winners to draw: `min(winners, n)` computed without
/// overflow for a non-negative desired count.
fn winner_count(winners: i64, n: usize) -> (c: usize)
    requires
        winners >= 0,
    ensures
        c as int == if winners as int <= n as int {
            winners as int
        } else {
            n as int
        },
        c <= n,
{
    if winners as u64 >= n as u64 {
        n
    } else {
        winners as usize
    }
}

} // verus!
