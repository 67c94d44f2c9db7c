//! Ticket state machine: per-guild monotonic numbering with an atomic
//! increment-and-fetch counter, open → closed transitions and claiming with
//! compare-and-swap semantics, and validated priority updates.

use vstd::prelude::*;

use crate::models::CreateTicketBlacklist;
use crate::models::CreateTicketCategory;
use crate::models::Priority;
use crate::models::Ticket;
use crate::models::TicketBlacklist;
use crate::models::TicketCategory;
use crate::models::TicketStatus;
use crate::models::WorkflowError;
use crate::models::clone_opt_string;
use vstd::string::StringExecFns;

verus! {

/// The ticket-number counter of one guild.
#[derive(Debug)]
pub struct GuildCounter {
    pub guild_id: String,
    pub ticket_counter: i64,
}

/// True when the store holds a ticket with this id.
pub open spec fn has_ticket(s: Seq<Ticket>, id: i64) -> bool {
    exists|i: int| 0 <= i < s.len() && s[i].id == id
}

/// The counter value recorded for a guild; 0 when the guild has no entry.
pub open spec fn counter_of(s: Seq<GuildCounter>, gid: Seq<char>) -> int
    decreases s.len(),
{
    if s.len() == 0 {
        0
    } else if s.last().guild_id@ == gid {
        s.last().ticket_counter as int
    } else {
        counter_of(s.drop_last(), gid)
    }
}

/// All rows but the one at `i` are untouched.
pub open spec fn only_ticket_changed(pre: Seq<Ticket>, post: Seq<Ticket>, i: int) -> bool {
    &&& post.len() == pre.len()
    &&& forall|j: int| 0 <= j < pre.len() && j != i ==> post[j] == pre[j]
}

/// Fields no transition of this machine ever touches.
pub open spec fn same_ticket_identity(a: Ticket, b: Ticket) -> bool {
    &&& a.id == b.id
    &&& a.number == b.number
    &&& a.channel_id == b.channel_id
    &&& a.user_id == b.user_id
    &&& a.guild_id == b.guild_id
    &&& a.category == b.category
    &&& a.subject == b.subject
    &&& a.review == b.review
    &&& a.review_rating == b.review_rating
    &&& a.created_at == b.created_at
}

/// A successful claim: the claimer is recorded where none was, activity is
/// stamped, everything else is unchanged.
pub open spec fn claim_applied(pre: Ticket, post: Ticket, claimer: Seq<char>, now: i64) -> bool {
    &&& pre.claimed_by is None
    &&& post.claimed_by is Some
    &&& post.claimed_by->0@ == claimer
    &&& post.last_activity == now
    &&& post.status == pre.status
    &&& post.priority == pre.priority
    &&& post.closed_by == pre.closed_by
    &&& post.closed_at == pre.closed_at
    &&& same_ticket_identity(pre, post)
}

/// A successful close: open → closed, the closer and the closing time are
/// recorded, everything else is unchanged.
pub open spec fn close_applied(pre: Ticket, post: Ticket, closer: Seq<char>, now: i64) -> bool {
    &&& pre.status == TicketStatus::Open
    &&& post.status == TicketStatus::Closed
    &&& post.closed_by is Some
    &&& post.closed_by->0@ == closer
    &&& post.closed_at == Some(now)
    &&& post.last_activity == now
    &&& post.claimed_by == pre.claimed_by
    &&& post.priority == pre.priority
    &&& same_ticket_identity(pre, post)
}

/// A priority update: the new priority is stored and activity stamped;
/// status, claim and closure are untouched.
pub open spec fn priority_applied(pre: Ticket, post: Ticket, p: Priority, now: i64) -> bool {
    &&& post.priority == p
    &&& post.last_activity == now
    &&& post.status == pre.status
    &&& post.claimed_by == pre.claimed_by
    &&& post.closed_by == pre.closed_by
    &&& post.closed_at == pre.closed_at
    &&& same_ticket_identity(pre, post)
}

/// The ticket store: ids unique, numbers unique and positive within each
/// guild, and no number above its guild's counter.
pub struct TicketStore {
    pub tickets: Vec<Ticket>,
    pub counters: Vec<GuildCounter>,
    pub next_id: i64,
}

impl TicketStore {
    /// Invariant of the store.
    pub open spec fn wf(&self) -> bool {
        &&& forall|i: int, j: int|
            0 <= i < j < self.tickets@.len() ==> self.tickets@[i].id != self.tickets@[j].id
        &&& forall|i: int|
            0 <= i < self.tickets@.len() ==> (#[trigger] self.tickets@[i]).id < self.next_id
        &&& 0 <= self.next_id
        &&& forall|i: int, j: int|
            0 <= i < j < self.counters@.len() ==> self.counters@[i].guild_id@
                != self.counters@[j].guild_id@
        &&& forall|i: int|
            0 <= i < self.counters@.len() ==> (#[trigger] self.counters@[i]).ticket_counter >= 0
        &&& forall|i: int, j: int|
            0 <= i < j < self.tickets@.len() && self.tickets@[i].guild_id@
                == self.tickets@[j].guild_id@ ==> self.tickets@[i].number
                != self.tickets@[j].number
        &&& forall|i: int|
            0 <= i < self.tickets@.len() ==> 1 <= (#[trigger] self.tickets@[i]).number
        &&& forall|i: int|
            0 <= i < self.tickets@.len() ==> (#[trigger] self.tickets@[i]).number as int
                <= counter_of(self.counters@, self.tickets@[i].guild_id@)
    }

    /// An empty store.
    pub fn new() -> (s: TicketStore)
        ensures
            s.wf(),
            s.tickets@.len() == 0,
            s.counters@.len() == 0,
    {
        TicketStore { tickets: Vec::new(), counters: Vec::new(), next_id: 0 }
    }

    /// Atomically increment the guild's counter and return the
    /// post-increment value; a guild seen for the first time starts at 1.
    /// No two calls for the same guild can return the same number.
    #[verifier::loop_isolation(false)]
    pub fn allocate_number(&mut self, guild_id: &String) -> (number: i64)
        requires
            old(self).wf(),
            counter_of(old(self).counters@, guild_id@) < i64::MAX,
        ensures
            final(self).wf(),
            final(self).tickets == old(self).tickets,
            final(self).next_id == old(self).next_id,
            number as int == counter_of(old(self).counters@, guild_id@) + 1,
            counter_of(final(self).counters@, guild_id@) == counter_of(
                old(self).counters@,
                guild_id@,
            ) + 1,
            forall|g: Seq<char>|
                g != guild_id@ ==> counter_of(final(self).counters@, g) == counter_of(
                    old(self).counters@,
                    g,
                ),
    {
        let n = self.counters.len();
        let mut i: usize = 0;
        while i < n
            invariant
                i <= n,
                n == self.counters@.len(),
                *self == *old(self),
                forall|k: int| 0 <= k < i as int ==> (#[trigger] self.counters@[k]).guild_id@
                    != guild_id@,
            decreases n - i,
        {
            if self.counters[i].guild_id == *guild_id {
                proof {
                    lemma_counter_found(self.counters@, guild_id@, i as int);
                }
                let number = self.counters[i].ticket_counter + 1;
                let updated = GuildCounter {
                    guild_id: self.counters[i].guild_id.clone(),
                    ticket_counter: number,
                };
                self.counters.set(i, updated);
                proof {
                    lemma_counter_found(self.counters@, guild_id@, i as int);
                    assert forall|g: Seq<char>| g != guild_id@ implies counter_of(
                        self.counters@,
                        g,
                    ) == counter_of(old(self).counters@, g) by {
                        lemma_counter_agree(old(self).counters@, self.counters@, i as int, g);
                    }
                    assert forall|t: int| 0 <= t < self.tickets@.len() implies (
                    #[trigger] self.tickets@[t]).number as int <= counter_of(
                        self.counters@,
                        self.tickets@[t].guild_id@,
                    ) by {
                        if self.tickets@[t].guild_id@ != guild_id@ {
                            lemma_counter_agree(
                                old(self).counters@,
                                self.counters@,
                                i as int,
                                self.tickets@[t].guild_id@,
                            );
                        }
                    }
                }
                return number;
            }
            i = i + 1;
        }
        proof {
            lemma_counter_absent(self.counters@, guild_id@);
        }
        let entry = GuildCounter { guild_id: guild_id.clone(), ticket_counter: 1 };
        self.counters.push(entry);
        proof {
            assert(self.counters@.drop_last() =~= old(self).counters@);
        }
        1
    }

    /// Create a ticket: allocate the guild's next number and insert the row
    /// as open, unclaimed and of normal priority. The new number differs
    /// from the number of every ticket the guild already has.
    pub fn create_ticket(
        &mut self,
        guild_id: String,
        channel_id: String,
        user_id: String,
        category: Option<String>,
        subject: Option<String>,
        now: i64,
    ) -> (r: Ticket)
        requires
            old(self).wf(),
            old(self).next_id < i64::MAX,
            counter_of(old(self).counters@, guild_id@) < i64::MAX,
        ensures
            final(self).wf(),
            final(self).next_id == old(self).next_id + 1,
            final(self).tickets@.len() == old(self).tickets@.len() + 1,
            forall|j: int|
                0 <= j < old(self).tickets@.len() ==> final(self).tickets@[j] == old(
                    self,
                ).tickets@[j],
            ({
                let t = final(self).tickets@[old(self).tickets@.len() as int];
                &&& r == t
                &&& t.id == old(self).next_id
                &&& t.number as int == counter_of(old(self).counters@, guild_id@) + 1
                &&& t.guild_id == guild_id
                &&& t.channel_id == channel_id
                &&& t.user_id == user_id
                &&& t.category == category
                &&& t.subject == subject
                &&& t.status == TicketStatus::Open
                &&& t.priority == Priority::Normal
                &&& t.claimed_by is None
                &&& t.closed_by is None
                &&& t.closed_at is None
                &&& t.last_activity == now
                &&& t.created_at == now
            }),
            forall|j: int|
                0 <= j < old(self).tickets@.len() && (#[trigger] old(self).tickets@[j]).guild_id@
                    == guild_id@ ==> old(self).tickets@[j].number != final(self).tickets@[old(
                    self,
                ).tickets@.len() as int].number,
            counter_of(final(self).counters@, guild_id@) == counter_of(
                old(self).counters@,
                guild_id@,
            ) + 1,
    {
        proof {
            lemma_counter_nonneg(self.counters@, guild_id@);
        }
        let number = self.allocate_number(&guild_id);
        let t = Ticket {
            id: self.next_id,
            number,
            channel_id,
            user_id,
            guild_id,
            category,
            subject,
            status: TicketStatus::Open,
            priority: Priority::Normal,
            claimed_by: None,
            closed_by: None,
            closed_at: None,
            review: None,
            review_rating: None,
            last_activity: now,
            created_at: now,
        };
        let out = t.duplicate();
        self.tickets.push(t);
        self.next_id = self.next_id + 1;
        out
    }

    /// Fetch a copy of the ticket with this id.
    #[verifier::loop_isolation(false)]
    pub fn get_ticket(&self, ticket_id: i64) -> (r: Result<Ticket, WorkflowError>)
        requires
            self.wf(),
        ensures
            !has_ticket(self.tickets@, ticket_id) ==> r == Err::<Ticket, WorkflowError>(
                WorkflowError::NotFound,
            ),
            has_ticket(self.tickets@, ticket_id) ==> r is Ok && forall|i: int|
                0 <= i < self.tickets@.len() && (#[trigger] self.tickets@[i]).id == ticket_id
                    ==> r->Ok_0 == self.tickets@[i],
    {
        let n = self.tickets.len();
        let mut i: usize = 0;
        while i < n
            invariant
                i <= n,
                forall|k: int| 0 <= k < i as int ==> (#[trigger] self.tickets@[k]).id != ticket_id,
            decreases n - i,
        {
            if self.tickets[i].id == ticket_id {
                return Ok(self.tickets[i].duplicate());
            }
            i = i + 1;
        }
        Err(WorkflowError::NotFound)
    }

    /// Claim a ticket for `claimer_id`: a compare-and-swap that succeeds
    /// only while no claimer is recorded. Of two racing claimers exactly
    /// one succeeds; the other learns who holds the claim.
    #[verifier::loop_isolation(false)]
    pub fn claim_ticket(&mut self, ticket_id: i64, claimer_id: &String, now: i64) -> (r: Result<
        Ticket,
        WorkflowError,
    >)
        requires
            old(self).wf(),
        ensures
            final(self).wf(),
            final(self).counters == old(self).counters,
            final(self).next_id == old(self).next_id,
            !has_ticket(old(self).tickets@, ticket_id) ==> r == Err::<Ticket, WorkflowError>(
                WorkflowError::NotFound,
            ) && *final(self) == *old(self),
            forall|i: int|
                0 <= i < old(self).tickets@.len() && (#[trigger] old(self).tickets@[i]).id
                    == ticket_id ==> {
                    let pre = old(self).tickets@[i];
                    &&& pre.claimed_by is Some ==> r == Err::<Ticket, WorkflowError>(
                        (WorkflowError::AlreadyClaimed { claimed_by: pre.claimed_by->0 }),
                    ) && *final(self) == *old(self)
                    &&& pre.claimed_by is None ==> r is Ok && only_ticket_changed(
                        old(self).tickets@,
                        final(self).tickets@,
                        i,
                    ) && claim_applied(pre, final(self).tickets@[i], claimer_id@, now) && r->Ok_0
                        == final(self).tickets@[i]
                },
    {
        let n = self.tickets.len();
        let mut i: usize = 0;
        while i < n
            invariant
                i <= n,
                *self == *old(self),
                forall|k: int| 0 <= k < i as int ==> (#[trigger] self.tickets@[k]).id != ticket_id,
            decreases n - i,
        {
            if self.tickets[i].id == ticket_id {
                match &self.tickets[i].claimed_by {
                    Some(holder) => {
                        return Err(WorkflowError::AlreadyClaimed { claimed_by: holder.clone() });
                    },
                    None => {},
                }
                let pre = &self.tickets[i];
                let updated = Ticket {
                    id: pre.id,
                    number: pre.number,
                    channel_id: pre.channel_id.clone(),
                    user_id: pre.user_id.clone(),
                    guild_id: pre.guild_id.clone(),
                    category: clone_opt_string(&pre.category),
                    subject: clone_opt_string(&pre.subject),
                    status: pre.status,
                    priority: pre.priority,
                    claimed_by: Some(claimer_id.clone()),
                    closed_by: clone_opt_string(&pre.closed_by),
                    closed_at: pre.closed_at,
                    review: clone_opt_string(&pre.review),
                    review_rating: pre.review_rating,
                    last_activity: now,
                    created_at: pre.created_at,
                };
                let out = updated.duplicate();
                self.tickets.set(i, updated);
                return Ok(out);
            }
            i = i + 1;
        }
        Err(WorkflowError::NotFound)
    }

    /// Close a ticket: a compare-and-swap that succeeds only while the
    /// status is open; the closer and the closing time are recorded. A
    /// ticket that is not open reports `AlreadyClosed` and is unchanged.
    #[verifier::loop_isolation(false)]
    pub fn close_ticket(&mut self, ticket_id: i64, closed_by: &String, now: i64) -> (r: Result<
        Ticket,
        WorkflowError,
    >)
        requires
            old(self).wf(),
        ensures
            final(self).wf(),
            final(self).counters == old(self).counters,
            final(self).next_id == old(self).next_id,
            !has_ticket(old(self).tickets@, ticket_id) ==> r == Err::<Ticket, WorkflowError>(
                WorkflowError::NotFound,
            ) && *final(self) == *old(self),
            forall|i: int|
                0 <= i < old(self).tickets@.len() && (#[trigger] old(self).tickets@[i]).id
                    == ticket_id ==> {
                    let pre = old(self).tickets@[i];
                    &&& pre.status != TicketStatus::Open ==> r == Err::<Ticket, WorkflowError>(
                        WorkflowError::AlreadyClosed,
                    ) && *final(self) == *old(self)
                    &&& pre.status == TicketStatus::Open ==> r is Ok && only_ticket_changed(
                        old(self).tickets@,
                        final(self).tickets@,
                        i,
                    ) && close_applied(pre, final(self).tickets@[i], closed_by@, now) && r->Ok_0
                        == final(self).tickets@[i]
                },
    {
        let n = self.tickets.len();
        let mut i: usize = 0;
        while i < n
            invariant
                i <= n,
                *self == *old(self),
                forall|k: int| 0 <= k < i as int ==> (#[trigger] self.tickets@[k]).id != ticket_id,
            decreases n - i,
        {
            if self.tickets[i].id == ticket_id {
                if !matches!(self.tickets[i].status, TicketStatus::Open) {
                    return Err(WorkflowError::AlreadyClosed);
                }
                let pre = &self.tickets[i];
                let updated = Ticket {
                    id: pre.id,
                    number: pre.number,
                    channel_id: pre.channel_id.clone(),
                    user_id: pre.user_id.clone(),
                    guild_id: pre.guild_id.clone(),
                    category: clone_opt_string(&pre.category),
                    subject: clone_opt_string(&pre.subject),
                    status: TicketStatus::Closed,
                    priority: pre.priority,
                    claimed_by: clone_opt_string(&pre.claimed_by),
                    closed_by: Some(closed_by.clone()),
                    closed_at: Some(now),
                    review: clone_opt_string(&pre.review),
                    review_rating: pre.review_rating,
                    last_activity: now,
                    created_at: pre.created_at,
                };
                let out = updated.duplicate();
                self.tickets.set(i, updated);
                return Ok(out);
            }
            i = i + 1;
        }
        Err(WorkflowError::NotFound)
    }

    /// Store a validated priority on a ticket; there is no state hazard,
    /// but a value outside the fixed set is rejected as malformed and the
    /// store is unchanged.
    #[verifier::loop_isolation(false)]
    pub fn update_priority(&mut self, ticket_id: i64, priority: &String, now: i64) -> (r: Result<
        Ticket,
        WorkflowError,
    >)
        requires
            old(self).wf(),
        ensures
            final(self).wf(),
            final(self).counters == old(self).counters,
            final(self).next_id == old(self).next_id,
            spec_parse_priority(priority@) is None ==> r == Err::<Ticket, WorkflowError>(
                WorkflowError::Validation,
            ) && *final(self) == *old(self),
            spec_parse_priority(priority@) is Some && !has_ticket(old(self).tickets@, ticket_id)
                ==> r == Err::<Ticket, WorkflowError>(WorkflowError::NotFound) && *final(self)
                == *old(self),
            spec_parse_priority(priority@) is Some ==> forall|i: int|
                0 <= i < old(self).tickets@.len() && (#[trigger] old(self).tickets@[i]).id
                    == ticket_id ==> r is Ok && only_ticket_changed(
                    old(self).tickets@,
                    final(self).tickets@,
                    i,
                ) && priority_applied(
                    old(self).tickets@[i],
                    final(self).tickets@[i],
                    spec_parse_priority(priority@)->0,
                    now,
                ) && r->Ok_0 == final(self).tickets@[i],
    {
        let parsed = parse_priority(priority);
        let p = match parsed {
            Some(p) => p,
            None => {
                return Err(WorkflowError::Validation);
            },
        };
        let n = self.tickets.len();
        let mut i: usize = 0;
        while i < n
            invariant
                i <= n,
                *self == *old(self),
                forall|k: int| 0 <= k < i as int ==> (#[trigger] self.tickets@[k]).id != ticket_id,
            decreases n - i,
        {
            if self.tickets[i].id == ticket_id {
                let pre = &self.tickets[i];
                let updated = Ticket {
                    id: pre.id,
                    number: pre.number,
                    channel_id: pre.channel_id.clone(),
                    user_id: pre.user_id.clone(),
                    guild_id: pre.guild_id.clone(),
                    category: clone_opt_string(&pre.category),
                    subject: clone_opt_string(&pre.subject),
                    status: pre.status,
                    priority: p,
                    claimed_by: clone_opt_string(&pre.claimed_by),
                    closed_by: clone_opt_string(&pre.closed_by),
                    closed_at: pre.closed_at,
                    review: clone_opt_string(&pre.review),
                    review_rating: pre.review_rating,
                    last_activity: now,
                    created_at: pre.created_at,
                };
                let out = updated.duplicate();
                self.tickets.set(i, updated);
                return Ok(out);
            }
            i = i + 1;
        }
        Err(WorkflowError::NotFound)
    }

    /// Copies of a guild's tickets, oldest first, optionally restricted to
    /// one status, skipping `offset` matches and yielding at most `limit`.
    #[verifier::loop_isolation(false)]
    pub fn list_tickets(
        &self,
        guild_id: &String,
        status: Option<TicketStatus>,
        limit: usize,
        offset: usize,
    ) -> (r: Vec<Ticket>)
        requires
            self.wf(),
        ensures
            ({
                let fs = guild_tickets(self.tickets@, guild_id@, status);
                let lo = if offset as int <= fs.len() {
                    offset as int
                } else {
                    fs.len() as int
                };
                let hi = if offset as int + limit as int <= fs.len() {
                    offset as int + limit as int
                } else {
                    fs.len() as int
                };
                r@ == fs.subrange(lo, hi)
            }),
    {
        let mut matched: Vec<Ticket> = Vec::new();
        let n = self.tickets.len();
        let mut i: usize = 0;
        while i < n
            invariant
                i <= n,
                matched@ == guild_tickets(self.tickets@.subrange(0, i as int), guild_id@, status),
            decreases n - i,
        {
            proof {
                let sub = self.tickets@.subrange(0, i as int + 1);
                assert(sub.drop_last() =~= self.tickets@.subrange(0, i as int));
                assert(sub.last() == self.tickets@[i as int]);
            }
            let keep = if self.tickets[i].guild_id == *guild_id {
                match status {
                    Some(st) => st == self.tickets[i].status,
                    None => true,
                }
            } else {
                false
            };
            if keep {
                matched.push(self.tickets[i].duplicate());
            }
            i = i + 1;
        }
        proof {
            assert(self.tickets@.subrange(0, n as int) =~= self.tickets@);
        }
        let lo = if offset <= matched.len() {
            offset
        } else {
            matched.len()
        };
        let hi = if limit <= matched.len() - lo {
            lo + limit
        } else {
            matched.len()
        };
        let mut r: Vec<Ticket> = Vec::new();
        let mut j: usize = lo;
        while j < hi
            invariant
                lo <= j <= hi,
                r@ == matched@.subrange(lo as int, j as int),
            decreases hi - j,
        {
            proof {
                assert(matched@.subrange(lo as int, j as int + 1) =~= matched@.subrange(
                    lo as int,
                    j as int,
                ).push(matched@[j as int]));
            }
            r.push(matched[j].duplicate());
            j = j + 1;
        }
        r
    }
}

/// The tickets of one guild, in store order, optionally restricted to one
/// status.
pub open spec fn guild_tickets(s: Seq<Ticket>, gid: Seq<char>, st: Option<TicketStatus>) -> Seq<
    Ticket,
>
    decreases s.len(),
{
    if s.len() == 0 {
        Seq::empty()
    } else {
        let rest = guild_tickets(s.drop_last(), gid, st);
        if s.last().guild_id@ == gid && (st is None || st->0 == s.last().status) {
            rest.push(s.last())
        } else {
            rest
        }
    }
}

/// The accepted priority values, lower-case.
pub open spec fn spec_parse_priority(s: Seq<char>) -> Option<Priority> {
    if s == "low"@ {
        Some(Priority::Low)
    } else if s == "normal"@ {
        Some(Priority::Normal)
    } else if s == "high"@ {
        Some(Priority::High)
    } else if s == "urgent"@ {
        Some(Priority::Urgent)
    } else {
        None
    }
}

/// Parse a priority value; everything outside the fixed set is refused.
pub fn parse_priority(s: &String) -> (r: Option<Priority>)
    ensures
        r == spec_parse_priority(s@),
{
    if *s == String::from_str("low") {
        Some(Priority::Low)
    } else if *s == String::from_str("normal") {
        Some(Priority::Normal)
    } else if *s == String::from_str("high") {
        Some(Priority::High)
    } else if *s == String::from_str("urgent") {
        Some(Priority::Urgent)
    } else {
        None
    }
}

/// The ticket numbers of one guild contain no duplicates: under the store
/// invariant, which every operation of the store preserves, two different
/// rows of the same guild never share a number, however many creations ran.
pub proof fn lemma_ticket_numbers_unique(s: TicketStore, i: int, j: int)
    requires
        s.wf(),
        0 <= i < s.tickets@.len(),
        0 <= j < s.tickets@.len(),
        i != j,
        s.tickets@[i].guild_id@ == s.tickets@[j].guild_id@,
    ensures
        s.tickets@[i].number != s.tickets@[j].number,
{
    if s.tickets@[i].guild_id@ == s.tickets@[j].guild_id@ {
        if i < j {
            assert(s.tickets@[i].number != s.tickets@[j].number);
        } else {
            assert(s.tickets@[j].number != s.tickets@[i].number);
        }
    }
}

/// Of two racing claimers exactly one succeeds: once a claim has applied,
/// the claimer is recorded, so by `claim_ticket`'s contract any further
/// claim of this ticket reports `AlreadyClaimed`, names the holder, and
/// changes nothing.
pub proof fn lemma_claim_exactly_once(pre: Ticket, post: Ticket, claimer: Seq<char>, now: i64)
    requires
        claim_applied(pre, post, claimer, now),
    ensures
        post.claimed_by is Some,
        post.claimed_by->0@ == claimer,
        post.id == pre.id,
{
}

/// When exactly one entry carries the guild, `counter_of` reads that entry.
proof fn lemma_counter_found(s: Seq<GuildCounter>, gid: Seq<char>, i: int)
    requires
        0 <= i < s.len(),
        s[i].guild_id@ == gid,
        forall|j: int| 0 <= j < s.len() && j != i ==> (#[trigger] s[j]).guild_id@ != gid,
    ensures
        counter_of(s, gid) == s[i].ticket_counter as int,
    decreases s.len(),
{
    if i == s.len() - 1 {
    } else {
        assert(s.drop_last()[i] == s[i]);
        lemma_counter_found(s.drop_last(), gid, i);
    }
}

/// With every entry non-negative, no guild's counter value is negative.
proof fn lemma_counter_nonneg(s: Seq<GuildCounter>, gid: Seq<char>)
    requires
        forall|j: int| 0 <= j < s.len() ==> (#[trigger] s[j]).ticket_counter >= 0,
    ensures
        counter_of(s, gid) >= 0,
    decreases s.len(),
{
    if s.len() > 0 {
        lemma_counter_nonneg(s.drop_last(), gid);
    }
}

/// When no entry carries the guild, `counter_of` reads 0.
proof fn lemma_counter_absent(s: Seq<GuildCounter>, gid: Seq<char>)
    requires
        forall|j: int| 0 <= j < s.len() ==> (#[trigger] s[j]).guild_id@ != gid,
    ensures
        counter_of(s, gid) == 0,
    decreases s.len(),
{
    if s.len() > 0 {
        lemma_counter_absent(s.drop_last(), gid);
    }
}

/// Replacing one entry by another of the same guild leaves every other
/// guild's counter value unchanged.
proof fn lemma_counter_agree(pre: Seq<GuildCounter>, post: Seq<GuildCounter>, i: int, g: Seq<char>)
    requires
        0 <= i < pre.len(),
        post.len() == pre.len(),
        forall|j: int| 0 <= j < pre.len() && j != i ==> post[j] == pre[j],
        pre[i].guild_id@ == post[i].guild_id@,
        g != pre[i].guild_id@,
    ensures
        counter_of(post, g) == counter_of(pre, g),
    decreases pre.len(),
{
    if pre.len() > 0 {
        if i == pre.len() - 1 {
            assert(pre.drop_last() =~= post.drop_last());
        } else {
            assert(pre.last() == post.last());
            assert(pre.drop_last()[i] == pre[i]);
            lemma_counter_agree(pre.drop_last(), post.drop_last(), i, g);
        }
    }
}

// ── Ticket categories ───────────────────────────────────────────────────────

/// The categories of one guild, in store order.
pub open spec fn guild_categories(s: Seq<TicketCategory>, gid: Seq<char>) -> Seq<TicketCategory>
    decreases s.len(),
{
    if s.len() == 0 {
        Seq::empty()
    } else {
        let rest = guild_categories(s.drop_last(), gid);
        if s.last().guild_id@ == gid {
            rest.push(s.last())
        } else {
            rest
        }
    }
}

/// Store of ticket categories, across guilds; ids are unique.
pub struct CategoryStore {
    pub categories: Vec<TicketCategory>,
    pub next_id: i64,
}

impl CategoryStore {
    /// Invariant of the store.
    pub open spec fn wf(&self) -> bool {
        &&& forall|i: int, j: int|
            0 <= i < j < self.categories@.len() ==> self.categories@[i].id
                != self.categories@[j].id
        &&& forall|i: int|
            0 <= i < self.categories@.len() ==> (#[trigger] self.categories@[i]).id < self.next_id
        &&& 0 <= self.next_id
    }

    /// An empty store.
    pub fn new() -> (s: CategoryStore)
        ensures
            s.wf(),
            s.categories@.len() == 0,
    {
        CategoryStore { categories: Vec::new(), next_id: 0 }
    }

    /// Record a new category of a guild.
    pub fn add_category(&mut self, data: CreateTicketCategory, now: i64) -> (r: TicketCategory)
        requires
            old(self).wf(),
            old(self).next_id < i64::MAX,
        ensures
            final(self).wf(),
            final(self).next_id == old(self).next_id + 1,
            final(self).categories@.len() == old(self).categories@.len() + 1,
            forall|j: int|
                0 <= j < old(self).categories@.len() ==> final(self).categories@[j] == old(
                    self,
                ).categories@[j],
            ({
                let c = final(self).categories@[old(self).categories@.len() as int];
                &&& r == c
                &&& c.id == old(self).next_id
                &&& c.guild_id == data.guild_id
                &&& c.name == data.name
                &&& c.emoji == data.emoji
                &&& c.description == data.description
                &&& c.created_at == now
            }),
    {
        let c = TicketCategory {
            id: self.next_id,
            guild_id: data.guild_id,
            name: data.name,
            emoji: data.emoji,
            description: data.description,
            created_at: now,
        };
        let out = TicketCategory {
            id: c.id,
            guild_id: c.guild_id.clone(),
            name: c.name.clone(),
            emoji: clone_opt_string(&c.emoji),
            description: clone_opt_string(&c.description),
            created_at: c.created_at,
        };
        self.categories.push(c);
        self.next_id = self.next_id + 1;
        out
    }

    /// Copies of a guild's categories, in the order they were added.
    #[verifier::loop_isolation(false)]
    pub fn get_categories(&self, guild_id: &String) -> (r: Vec<TicketCategory>)
        requires
            self.wf(),
        ensures
            r@ == guild_categories(self.categories@, guild_id@),
    {
        let mut r: Vec<TicketCategory> = Vec::new();
        let n = self.categories.len();
        let mut i: usize = 0;
        while i < n
            invariant
                i <= n,
                r@ == guild_categories(self.categories@.subrange(0, i as int), guild_id@),
            decreases n - i,
        {
            proof {
                let sub = self.categories@.subrange(0, i as int + 1);
                assert(sub.drop_last() =~= self.categories@.subrange(0, i as int));
                assert(sub.last() == self.categories@[i as int]);
            }
            if self.categories[i].guild_id == *guild_id {
                let c = &self.categories[i];
                r.push(
                    TicketCategory {
                        id: c.id,
                        guild_id: c.guild_id.clone(),
                        name: c.name.clone(),
                        emoji: clone_opt_string(&c.emoji),
                        description: clone_opt_string(&c.description),
                        created_at: c.created_at,
                    },
                );
            }
            i = i + 1;
        }
        proof {
            assert(self.categories@.subrange(0, n as int) =~= self.categories@);
        }
        r
    }

    /// Delete a category by id, scoped to a guild; `NotFound` when no such
    /// category belongs to that guild.
    #[verifier::loop_isolation(false)]
    pub fn delete_category(&mut self, guild_id: &String, category_id: i64) -> (r: Result<
        (),
        WorkflowError,
    >)
        requires
            old(self).wf(),
        ensures
            final(self).wf(),
            final(self).next_id == old(self).next_id,
            (forall|i: int|
                0 <= i < old(self).categories@.len() ==> !((#[trigger] old(
                    self,
                ).categories@[i]).id == category_id && old(self).categories@[i].guild_id@
                    == guild_id@)) ==> r == Err::<(), WorkflowError>(WorkflowError::NotFound)
                && *final(self) == *old(self),
            forall|i: int|
                0 <= i < old(self).categories@.len() && (#[trigger] old(
                    self,
                ).categories@[i]).id == category_id && old(self).categories@[i].guild_id@
                    == guild_id@ ==> r == Ok::<(), WorkflowError>(()) && final(self).categories@
                    == old(self).categories@.remove(i),
    {
        let n = self.categories.len();
        let mut i: usize = 0;
        while i < n
            invariant
                i <= n,
                *self == *old(self),
                forall|k: int|
                    0 <= k < i as int ==> !((#[trigger] self.categories@[k]).id == category_id
                        && self.categories@[k].guild_id@ == guild_id@),
            decreases n - i,
        {
            if self.categories[i].id == category_id && self.categories[i].guild_id == *guild_id {
                self.categories.remove(i);
                return Ok(());
            }
            i = i + 1;
        }
        Err(WorkflowError::NotFound)
    }
}

// ── Ticket blacklist ────────────────────────────────────────────────────────

/// True when the blacklist bars this user in this guild.
pub open spec fn is_blacklisted(s: Seq<TicketBlacklist>, gid: Seq<char>, uid: Seq<char>) -> bool {
    exists|i: int| 0 <= i < s.len() && s[i].guild_id@ == gid && s[i].user_id@ == uid
}

/// Store of ticket blacklist entries; one entry per user and guild.
pub struct BlacklistStore {
    pub entries: Vec<TicketBlacklist>,
    pub next_id: i64,
}

impl BlacklistStore {
    /// Invariant of the store.
    pub open spec fn wf(&self) -> bool {
        &&& forall|i: int, j: int|
            0 <= i < j < self.entries@.len() ==> self.entries@[i].id != self.entries@[j].id
        &&& forall|i: int|
            0 <= i < self.entries@.len() ==> (#[trigger] self.entries@[i]).id < self.next_id
        &&& 0 <= self.next_id
        &&& forall|i: int, j: int|
            0 <= i < j < self.entries@.len() ==> !(self.entries@[i].guild_id@
                == self.entries@[j].guild_id@ && self.entries@[i].user_id@
                == self.entries@[j].user_id@)
    }

    /// An empty store.
    pub fn new() -> (s: BlacklistStore)
        ensures
            s.wf(),
            s.entries@.len() == 0,
    {
        BlacklistStore { entries: Vec::new(), next_id: 0 }
    }

    /// The entry barring this user in this guild, if any.
    #[verifier::loop_isolation(false)]
    pub fn check_blacklist(&self, guild_id: &String, user_id: &String) -> (r: Option<
        TicketBlacklist,
    >)
        requires
            self.wf(),
        ensures
            r is Some <==> is_blacklisted(self.entries@, guild_id@, user_id@),
            forall|i: int|
                0 <= i < self.entries@.len() && (#[trigger] self.entries@[i]).guild_id@
                    == guild_id@ && self.entries@[i].user_id@ == user_id@ ==> r == Some(
                    self.entries@[i],
                ),
    {
        let n = self.entries.len();
        let mut i: usize = 0;
        while i < n
            invariant
                i <= n,
                forall|k: int|
                    0 <= k < i as int ==> !((#[trigger] self.entries@[k]).guild_id@ == guild_id@
                        && self.entries@[k].user_id@ == user_id@),
            decreases n - i,
        {
            if self.entries[i].guild_id == *guild_id && self.entries[i].user_id == *user_id {
                let e = &self.entries[i];
                return Some(
                    TicketBlacklist {
                        id: e.id,
                        guild_id: e.guild_id.clone(),
                        user_id: e.user_id.clone(),
                        reason: clone_opt_string(&e.reason),
                        added_by: e.added_by.clone(),
                        created_at: e.created_at,
                    },
                );
            }
            i = i + 1;
        }
        None
    }

    /// Bar a user from tickets in a guild; barring an already-barred user
    /// keeps the existing entry unchanged and hands it back.
    #[verifier::loop_isolation(false)]
    pub fn add_blacklist(&mut self, data: CreateTicketBlacklist, now: i64) -> (r: TicketBlacklist)
        requires
            old(self).wf(),
            old(self).next_id < i64::MAX,
        ensures
            final(self).wf(),
            is_blacklisted(final(self).entries@, data.guild_id@, data.user_id@),
            is_blacklisted(old(self).entries@, data.guild_id@, data.user_id@) ==> *final(self)
                == *old(self),
            !is_blacklisted(old(self).entries@, data.guild_id@, data.user_id@) ==> {
                &&& final(self).next_id == old(self).next_id + 1
                &&& final(self).entries@.len() == old(self).entries@.len() + 1
                &&& forall|j: int|
                    0 <= j < old(self).entries@.len() ==> final(self).entries@[j] == old(
                        self,
                    ).entries@[j]
                &&& {
                    let e = final(self).entries@[old(self).entries@.len() as int];
                    &&& r == e
                    &&& e.id == old(self).next_id
                    &&& e.guild_id == data.guild_id
                    &&& e.user_id == data.user_id
                    &&& e.reason == data.reason
                    &&& e.added_by == data.added_by
                    &&& e.created_at == now
                }
            },
    {
        let n = self.entries.len();
        let mut i: usize = 0;
        while i < n
            invariant
                i <= n,
                *self == *old(self),
                forall|k: int|
                    0 <= k < i as int ==> !((#[trigger] self.entries@[k]).guild_id@
                        == data.guild_id@ && self.entries@[k].user_id@ == data.user_id@),
            decreases n - i,
        {
            if self.entries[i].guild_id == data.guild_id && self.entries[i].user_id
                == data.user_id {
                let e = &self.entries[i];
                return TicketBlacklist {
                    id: e.id,
                    guild_id: e.guild_id.clone(),
                    user_id: e.user_id.clone(),
                    reason: clone_opt_string(&e.reason),
                    added_by: e.added_by.clone(),
                    created_at: e.created_at,
                };
            }
            i = i + 1;
        }
        let e = TicketBlacklist {
            id: self.next_id,
            guild_id: data.guild_id,
            user_id: data.user_id,
            reason: data.reason,
            added_by: data.added_by,
            created_at: now,
        };
        let out = TicketBlacklist {
            id: e.id,
            guild_id: e.guild_id.clone(),
            user_id: e.user_id.clone(),
            reason: clone_opt_string(&e.reason),
            added_by: e.added_by.clone(),
            created_at: e.created_at,
        };
        self.entries.push(e);
        self.next_id = self.next_id + 1;
        out
    }

    /// Lift the bar on a user in a guild; `NotFound` when none exists. The
    /// user is not barred afterwards.
    #[verifier::loop_isolation(false)]
    pub fn remove_blacklist(&mut self, guild_id: &String, user_id: &String) -> (r: Result<
        (),
        WorkflowError,
    >)
        requires
            old(self).wf(),
        ensures
            final(self).wf(),
            final(self).next_id == old(self).next_id,
            !is_blacklisted(final(self).entries@, guild_id@, user_id@),
            !is_blacklisted(old(self).entries@, guild_id@, user_id@) ==> r == Err::<
                (),
                WorkflowError,
            >(WorkflowError::NotFound) && *final(self) == *old(self),
            forall|i: int|
                0 <= i < old(self).entries@.len() && (#[trigger] old(self).entries@[i]).guild_id@
                    == guild_id@ && old(self).entries@[i].user_id@ == user_id@ ==> r == Ok::<
                    (),
                    WorkflowError,
                >(()) && final(self).entries@ == old(self).entries@.remove(i),
    {
        let n = self.entries.len();
        let mut i: usize = 0;
        while i < n
            invariant
                i <= n,
                *self == *old(self),
                forall|k: int|
                    0 <= k < i as int ==> !((#[trigger] self.entries@[k]).guild_id@ == guild_id@
                        && self.entries@[k].user_id@ == user_id@),
            decreases n - i,
        {
            if self.entries[i].guild_id == *guild_id && self.entries[i].user_id == *user_id {
                self.entries.remove(i);
                proof {
                    assert forall|k: int|
                        0 <= k < self.entries@.len() implies !((
                        #[trigger] self.entries@[k]).guild_id@ == guild_id@
                        && self.entries@[k].user_id@ == user_id@) by {
                        if k >= i as int {
                            assert(self.entries@[k] == old(self).entries@[k + 1]);
                        }
                    }
                }
                return Ok(());
            }
            i = i + 1;
        }
        Err(WorkflowError::NotFound)
    }
}

} // verus!
