//! Community suggestions: vote tallies with validated vote directions, and
//! the staff review transition from pending to approved or rejected.
//! Duplicate-vote prevention by identity is another component's job; this
//! store counts what it is told.

use vstd::prelude::*;

use crate::models::CreateSuggestion;
use crate::models::Suggestion;
use crate::models::SuggestionStatus;
use crate::models::WorkflowError;
use crate::models::clone_opt_string;
use vstd::string::StringExecFns;

verus! {

/// True when the store holds a suggestion with this id.
pub open spec fn has_suggestion(s: Seq<Suggestion>, id: i64) -> bool {
    exists|i: int| 0 <= i < s.len() && s[i].id == id
}

/// The accepted vote directions: `true` for an upvote.
pub open spec fn spec_parse_vote(s: Seq<char>) -> Option<bool> {
    if s == "up"@ {
        Some(true)
    } else if s == "down"@ {
        Some(false)
    } else {
        None
    }
}

/// The suggestions of one guild, in store order, optionally restricted to
/// one status.
pub open spec fn guild_suggestions(
    s: Seq<Suggestion>,
    gid: Seq<char>,
    st: Option<SuggestionStatus>,
) -> Seq<Suggestion>
    decreases s.len(),
{
    if s.len() == 0 {
        Seq::empty()
    } else {
        let rest = guild_suggestions(s.drop_last(), gid, st);
        if s.last().guild_id@ == gid && (st is None || st->0 == s.last().status) {
            rest.push(s.last())
        } else {
            rest
        }
    }
}

/// Fields neither voting nor review ever touches.
pub open spec fn same_suggestion_identity(a: Suggestion, b: Suggestion) -> bool {
    &&& a.id == b.id
    &&& a.guild_id == b.guild_id
    &&& a.user_id == b.user_id
    &&& a.message_id == b.message_id
    &&& a.content == b.content
    &&& a.created_at == b.created_at
}

/// One recorded vote: exactly one tally rises by one, nothing else moves.
pub open spec fn vote_applied(pre: Suggestion, post: Suggestion, up: bool) -> bool {
    &&& up ==> post.upvotes == pre.upvotes + 1 && post.downvotes == pre.downvotes
    &&& !up ==> post.downvotes == pre.downvotes + 1 && post.upvotes == pre.upvotes
    &&& post.status == pre.status
    &&& post.staff_id == pre.staff_id
    &&& post.staff_reason == pre.staff_reason
    &&& same_suggestion_identity(pre, post)
}

/// A staff decision: the status is stored with who decided and why; the
/// tallies stay.
pub open spec fn decision_applied(
    pre: Suggestion,
    post: Suggestion,
    status: SuggestionStatus,
    staff: Seq<char>,
    reason: Option<String>,
) -> bool {
    &&& post.status == status
    &&& post.staff_id is Some
    &&& post.staff_id->0@ == staff
    &&& post.staff_reason == reason
    &&& post.upvotes == pre.upvotes
    &&& post.downvotes == pre.downvotes
    &&& same_suggestion_identity(pre, post)
}

/// All rows but the one at `i` are untouched.
pub open spec fn only_suggestion_changed(
    pre: Seq<Suggestion>,
    post: Seq<Suggestion>,
    i: int,
) -> bool {
    &&& post.len() == pre.len()
    &&& forall|j: int| 0 <= j < pre.len() && j != i ==> post[j] == pre[j]
}

/// The suggestion store: ids unique, tallies never negative.
pub struct SuggestionStore {
    pub suggestions: Vec<Suggestion>,
    pub next_id: i64,
}

impl SuggestionStore {
    /// Invariant of the store.
    pub open spec fn wf(&self) -> bool {
        &&& forall|i: int, j: int|
            0 <= i < j < self.suggestions@.len() ==> self.suggestions@[i].id
                != self.suggestions@[j].id
        &&& forall|i: int|
            0 <= i < self.suggestions@.len() ==> (#[trigger] self.suggestions@[i]).id
                < self.next_id
        &&& 0 <= self.next_id
        &&& forall|i: int|
            0 <= i < self.suggestions@.len() ==> (#[trigger] self.suggestions@[i]).upvotes >= 0
                && self.suggestions@[i].downvotes >= 0
    }

    /// An empty store.
    pub fn new() -> (s: SuggestionStore)
        ensures
            s.wf(),
            s.suggestions@.len() == 0,
    {
        SuggestionStore { suggestions: Vec::new(), next_id: 0 }
    }

    /// Record a new suggestion: pending, with empty tallies.
    pub fn create(&mut self, data: CreateSuggestion, now: i64) -> (r: Suggestion)
        requires
            old(self).wf(),
            old(self).next_id < i64::MAX,
        ensures
            final(self).wf(),
            final(self).next_id == old(self).next_id + 1,
            final(self).suggestions@.len() == old(self).suggestions@.len() + 1,
            forall|j: int|
                0 <= j < old(self).suggestions@.len() ==> final(self).suggestions@[j] == old(
                    self,
                ).suggestions@[j],
            ({
                let s = final(self).suggestions@[old(self).suggestions@.len() as int];
                &&& r == s
                &&& s.id == old(self).next_id
                &&& s.guild_id == data.guild_id
                &&& s.user_id == data.user_id
                &&& s.message_id == data.message_id
                &&& s.content == data.content
                &&& s.status == SuggestionStatus::Pending
                &&& s.staff_id is None
                &&& s.staff_reason is None
                &&& s.upvotes == 0
                &&& s.downvotes == 0
                &&& s.created_at == now
            }),
    {
        let s = Suggestion {
            id: self.next_id,
            guild_id: data.guild_id,
            user_id: data.user_id,
            message_id: data.message_id,
            content: data.content,
            status: SuggestionStatus::Pending,
            staff_id: None,
            staff_reason: None,
            upvotes: 0,
            downvotes: 0,
            created_at: now,
        };
        let out = duplicate_suggestion(&s);
        self.suggestions.push(s);
        self.next_id = self.next_id + 1;
        out
    }

    /// Fetch a copy of the suggestion with this id.
    #[verifier::loop_isolation(false)]
    pub fn get(&self, suggestion_id: i64) -> (r: Result<Suggestion, WorkflowError>)
        requires
            self.wf(),
        ensures
            !has_suggestion(self.suggestions@, suggestion_id) ==> r == Err::<
                Suggestion,
                WorkflowError,
            >(WorkflowError::NotFound),
            has_suggestion(self.suggestions@, suggestion_id) ==> r is Ok && forall|i: int|
                0 <= i < self.suggestions@.len() && (#[trigger] self.suggestions@[i]).id
                    == suggestion_id ==> r->Ok_0 == self.suggestions@[i],
    {
        let n = self.suggestions.len();
        let mut i: usize = 0;
        while i < n
            invariant
                i <= n,
                forall|k: int| 0 <= k < i as int ==> (#[trigger] self.suggestions@[k]).id
                    != suggestion_id,
            decreases n - i,
        {
            if self.suggestions[i].id == suggestion_id {
                return Ok(duplicate_suggestion(&self.suggestions[i]));
            }
            i = i + 1;
        }
        Err(WorkflowError::NotFound)
    }

    /// Copies of a guild's suggestions, oldest first, optionally restricted
    /// to one status.
    #[verifier::loop_isolation(false)]
    pub fn list(&self, guild_id: &String, status: Option<SuggestionStatus>) -> (r: Vec<Suggestion>)
        requires
            self.wf(),
        ensures
            r@ == guild_suggestions(self.suggestions@, guild_id@, status),
    {
        let mut r: Vec<Suggestion> = Vec::new();
        let n = self.suggestions.len();
        let mut i: usize = 0;
        while i < n
            invariant
                i <= n,
                r@ == guild_suggestions(self.suggestions@.subrange(0, i as int), guild_id@, status),
            decreases n - i,
        {
            proof {
                let sub = self.suggestions@.subrange(0, i as int + 1);
                assert(sub.drop_last() =~= self.suggestions@.subrange(0, i as int));
                assert(sub.last() == self.suggestions@[i as int]);
            }
            let keep = if self.suggestions[i].guild_id == *guild_id {
                match status {
                    Some(st) => st == self.suggestions[i].status,
                    None => true,
                }
            } else {
                false
            };
            if keep {
                r.push(duplicate_suggestion(&self.suggestions[i]));
            }
            i = i + 1;
        }
        proof {
            assert(self.suggestions@.subrange(0, n as int) =~= self.suggestions@);
        }
        r
    }

    /// Record a vote: `"up"` raises the upvote tally, `"down"` the downvote
    /// tally; anything else is refused as malformed. A tally at the integer
    /// ceiling is also refused rather than wrapped.
    #[verifier::loop_isolation(false)]
    pub fn vote(&mut self, suggestion_id: i64, vote: &String) -> (r: Result<
        Suggestion,
        WorkflowError,
    >)
        requires
            old(self).wf(),
        ensures
            final(self).wf(),
            final(self).next_id == old(self).next_id,
            spec_parse_vote(vote@) is None ==> r == Err::<Suggestion, WorkflowError>(
                WorkflowError::Validation,
            ) && *final(self) == *old(self),
            spec_parse_vote(vote@) is Some && !has_suggestion(
                old(self).suggestions@,
                suggestion_id,
            ) ==> r == Err::<Suggestion, WorkflowError>(WorkflowError::NotFound) && *final(self)
                == *old(self),
            spec_parse_vote(vote@) is Some ==> forall|i: int|
                0 <= i < old(self).suggestions@.len() && (#[trigger] old(
                    self,
                ).suggestions@[i]).id == suggestion_id ==> {
                    let pre = old(self).suggestions@[i];
                    let up = spec_parse_vote(vote@)->0;
                    &&& (up && pre.upvotes == i64::MAX) || (!up && pre.downvotes == i64::MAX)
                        ==> r == Err::<Suggestion, WorkflowError>(WorkflowError::Validation)
                        && *final(self) == *old(self)
                    &&& (up && pre.upvotes < i64::MAX) || (!up && pre.downvotes < i64::MAX) ==> r
                        is Ok && only_suggestion_changed(
                        old(self).suggestions@,
                        final(self).suggestions@,
                        i,
                    ) && vote_applied(pre, final(self).suggestions@[i], up)
                        && r->Ok_0 == final(self).suggestions@[i]
                },
    {
        let up: bool = if *vote == String::from_str("up") {
            true
        } else if *vote == String::from_str("down") {
            false
        } else {
            return Err(WorkflowError::Validation);
        };
        let n = self.suggestions.len();
        let mut i: usize = 0;
        while i < n
            invariant
                i <= n,
                *self == *old(self),
                forall|k: int| 0 <= k < i as int ==> (#[trigger] self.suggestions@[k]).id
                    != suggestion_id,
            decreases n - i,
        {
            if self.suggestions[i].id == suggestion_id {
                if up && self.suggestions[i].upvotes == i64::MAX {
                    return Err(WorkflowError::Validation);
                }
                if !up && self.suggestions[i].downvotes == i64::MAX {
                    return Err(WorkflowError::Validation);
                }
                let pre = &self.suggestions[i];
                let updated = Suggestion {
                    id: pre.id,
                    guild_id: pre.guild_id.clone(),
                    user_id: pre.user_id.clone(),
                    message_id: pre.message_id.clone(),
                    content: pre.content.clone(),
                    status: pre.status,
                    staff_id: clone_opt_string(&pre.staff_id),
                    staff_reason: clone_opt_string(&pre.staff_reason),
                    upvotes: if up {
                        pre.upvotes + 1
                    } else {
                        pre.upvotes
                    },
                    downvotes: if up {
                        pre.downvotes
                    } else {
                        pre.downvotes + 1
                    },
                    created_at: pre.created_at,
                };
                let out = duplicate_suggestion(&updated);
                self.suggestions.set(i, updated);
                return Ok(out);
            }
            i = i + 1;
        }
        Err(WorkflowError::NotFound)
    }

    /// Approve a suggestion, recording who approved it and why.
    pub fn approve(&mut self, suggestion_id: i64, staff_id: &String, reason: Option<String>) -> (r:
        Result<Suggestion, WorkflowError>)
        requires
            old(self).wf(),
        ensures
            final(self).wf(),
            final(self).next_id == old(self).next_id,
            !has_suggestion(old(self).suggestions@, suggestion_id) ==> r == Err::<
                Suggestion,
                WorkflowError,
            >(WorkflowError::NotFound) && *final(self) == *old(self),
            forall|i: int|
                0 <= i < old(self).suggestions@.len() && (#[trigger] old(
                    self,
                ).suggestions@[i]).id == suggestion_id ==> r is Ok && only_suggestion_changed(
                    old(self).suggestions@,
                    final(self).suggestions@,
                    i,
                ) && decision_applied(
                    old(self).suggestions@[i],
                    final(self).suggestions@[i],
                    SuggestionStatus::Approved,
                    staff_id@,
                    reason,
                ) && r->Ok_0 == final(self).suggestions@[i],
    {
        self.decide(suggestion_id, SuggestionStatus::Approved, staff_id, reason)
    }

    /// Reject a suggestion, recording who rejected it and why.
    pub fn reject(&mut self, suggestion_id: i64, staff_id: &String, reason: Option<String>) -> (r:
        Result<Suggestion, WorkflowError>)
        requires
            old(self).wf(),
        ensures
            final(self).wf(),
            final(self).next_id == old(self).next_id,
            !has_suggestion(old(self).suggestions@, suggestion_id) ==> r == Err::<
                Suggestion,
                WorkflowError,
            >(WorkflowError::NotFound) && *final(self) == *old(self),
            forall|i: int|
                0 <= i < old(self).suggestions@.len() && (#[trigger] old(
                    self,
                ).suggestions@[i]).id == suggestion_id ==> r is Ok && only_suggestion_changed(
                    old(self).suggestions@,
                    final(self).suggestions@,
                    i,
                ) && decision_applied(
                    old(self).suggestions@[i],
                    final(self).suggestions@[i],
                    SuggestionStatus::Rejected,
                    staff_id@,
                    reason,
                ) && r->Ok_0 == final(self).suggestions@[i],
    {
        self.decide(suggestion_id, SuggestionStatus::Rejected, staff_id, reason)
    }

    /// Store a staff decision on a suggestion; there is no state hazard, so
    /// the write is unconditional once the row is found.
    #[verifier::loop_isolation(false)]
    fn decide(
        &mut self,
        suggestion_id: i64,
        status: SuggestionStatus,
        staff_id: &String,
        reason: Option<String>,
    ) -> (r: Result<Suggestion, WorkflowError>)
        requires
            old(self).wf(),
        ensures
            final(self).wf(),
            final(self).next_id == old(self).next_id,
            !has_suggestion(old(self).suggestions@, suggestion_id) ==> r == Err::<
                Suggestion,
                WorkflowError,
            >(WorkflowError::NotFound) && *final(self) == *old(self),
            forall|i: int|
                0 <= i < old(self).suggestions@.len() && (#[trigger] old(
                    self,
                ).suggestions@[i]).id == suggestion_id ==> r is Ok && only_suggestion_changed(
                    old(self).suggestions@,
                    final(self).suggestions@,
                    i,
                ) && decision_applied(
                    old(self).suggestions@[i],
                    final(self).suggestions@[i],
                    status,
                    staff_id@,
                    reason,
                ) && r->Ok_0 == final(self).suggestions@[i],
    {
        let n = self.suggestions.len();
        let mut i: usize = 0;
        while i < n
            invariant
                i <= n,
                *self == *old(self),
                forall|k: int| 0 <= k < i as int ==> (#[trigger] self.suggestions@[k]).id
                    != suggestion_id,
            decreases n - i,
        {
            if self.suggestions[i].id == suggestion_id {
                let pre = &self.suggestions[i];
                let updated = Suggestion {
                    id: pre.id,
                    guild_id: pre.guild_id.clone(),
                    user_id: pre.user_id.clone(),
                    message_id: pre.message_id.clone(),
                    content: pre.content.clone(),
                    status,
                    staff_id: Some(staff_id.clone()),
                    staff_reason: clone_opt_string(&reason),
                    upvotes: pre.upvotes,
                    downvotes: pre.downvotes,
                    created_at: pre.created_at,
                };
                let out = duplicate_suggestion(&updated);
                self.suggestions.set(i, updated);
                return Ok(out);
            }
            i = i + 1;
        }
        Err(WorkflowError::NotFound)
    }
}

/// A copy equal to the given suggestion.
fn duplicate_suggestion(s: &Suggestion) -> (r: Suggestion)
    ensures
        r == *s,
{
    Suggestion {
        id: s.id,
        guild_id: s.guild_id.clone(),
        user_id: s.user_id.clone(),
        message_id: s.message_id.clone(),
        content: s.content.clone(),
        status: s.status,
        staff_id: clone_opt_string(&s.staff_id),
        staff_reason: clone_opt_string(&s.staff_reason),
        upvotes: s.upvotes,
        downvotes: s.downvotes,
        created_at: s.created_at,
    }
}

} // verus!
