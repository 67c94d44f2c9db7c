//! Scheduler passes: discover due items and fire their transitions. Each
//! tick runs three independent passes — expired punishments are deleted,
//! due giveaways are ended through the same conditional transition as the
//! synchronous path, and due reminders are deleted and reported onward.
//! Deletion is the sole completion marker, so re-running a pass after a
//! crash re-discovers and re-fires harmlessly.

use vstd::prelude::*;

use crate::giveaways::GiveawayStore;
use crate::giveaways::end_applied;
use crate::models::giveaway_like;
use crate::models::CreateReminder;
use crate::models::CreateTempPunishment;
use crate::models::Giveaway;
use crate::models::Reminder;
use crate::models::TempPunishment;
use crate::sampler::xorshift64;

verus! {

/// The interval between two scheduler ticks, in time units.
pub const TICK_PERIOD: i64 = 30;

// ── Punishments ─────────────────────────────────────────────────────────────

/// The rows already expired at `now`, in store order.
pub open spec fn expired_punishments(s: Seq<TempPunishment>, now: i64) -> Seq<TempPunishment>
    decreases s.len(),
{
    if s.len() == 0 {
        Seq::empty()
    } else {
        let rest = expired_punishments(s.drop_last(), now);
        if s.last().expires_at <= now {
            rest.push(s.last())
        } else {
            rest
        }
    }
}

/// The rows still live at `now`, in store order.
pub open spec fn live_punishments(s: Seq<TempPunishment>, now: i64) -> Seq<TempPunishment>
    decreases s.len(),
{
    if s.len() == 0 {
        Seq::empty()
    } else {
        let rest = live_punishments(s.drop_last(), now);
        if s.last().expires_at <= now {
            rest
        } else {
            rest.push(s.last())
        }
    }
}

/// Store of active temporary punishments; a row's existence is the active
/// state, and deletion is the lift signal.
pub struct PunishmentStore {
    pub punishments: Vec<TempPunishment>,
    pub next_id: i64,
}

impl PunishmentStore {
    /// Invariant of the store.
    pub open spec fn wf(&self) -> bool {
        &&& forall|i: int, j: int|
            0 <= i < j < self.punishments@.len() ==> self.punishments@[i].id
                != self.punishments@[j].id
        &&& forall|i: int|
            0 <= i < self.punishments@.len() ==> (#[trigger] self.punishments@[i]).id
                < self.next_id
        &&& 0 <= self.next_id
    }

    /// An empty store.
    pub fn new() -> (s: PunishmentStore)
        ensures
            s.wf(),
            s.punishments@.len() == 0,
    {
        PunishmentStore { punishments: Vec::new(), next_id: 0 }
    }

    /// Record a temporary punishment.
    pub fn add_temp_punishment(&mut self, data: CreateTempPunishment, now: i64) -> (r:
        TempPunishment)
        requires
            old(self).wf(),
            old(self).next_id < i64::MAX,
        ensures
            final(self).wf(),
            final(self).next_id == old(self).next_id + 1,
            final(self).punishments@.len() == old(self).punishments@.len() + 1,
            forall|j: int|
                0 <= j < old(self).punishments@.len() ==> final(self).punishments@[j] == old(
                    self,
                ).punishments@[j],
            ({
                let p = final(self).punishments@[old(self).punishments@.len() as int];
                &&& r == p
                &&& p.id == old(self).next_id
                &&& p.guild_id == data.guild_id
                &&& p.user_id == data.user_id
                &&& p.punishment_type == data.punishment_type
                &&& p.expires_at == data.expires_at
                &&& p.created_at == now
            }),
    {
        let p = TempPunishment {
            id: self.next_id,
            guild_id: data.guild_id,
            user_id: data.user_id,
            punishment_type: data.punishment_type,
            expires_at: data.expires_at,
            created_at: now,
        };
        let out = p.duplicate();
        self.punishments.push(p);
        self.next_id = self.next_id + 1;
        out
    }

    /// Delete every punishment whose expiry has passed and hand the deleted
    /// rows back; deletion is the lift signal. Afterwards no stored row is
    /// expired, and rows not yet due are kept untouched, in order.
    #[verifier::loop_isolation(false)]
    pub fn check_temp_punishments(&mut self, now: i64) -> (r: Vec<TempPunishment>)
        requires
            old(self).wf(),
        ensures
            final(self).wf(),
            final(self).next_id == old(self).next_id,
            r@ == expired_punishments(old(self).punishments@, now),
            final(self).punishments@ == live_punishments(old(self).punishments@, now),
            forall|k: int|
                0 <= k < final(self).punishments@.len() ==> now < (
                #[trigger] final(self).punishments@[k]).expires_at,
            forall|k: int| 0 <= k < r@.len() ==> (#[trigger] r@[k]).expires_at <= now,
    {
        let n = self.punishments.len();
        let mut kept: Vec<TempPunishment> = Vec::new();
        let mut expired: Vec<TempPunishment> = Vec::new();
        let mut i: usize = 0;
        while i < n
            invariant
                i <= n,
                *self == *old(self),
                kept@ == live_punishments(self.punishments@.subrange(0, i as int), now),
                expired@ == expired_punishments(self.punishments@.subrange(0, i as int), now),
                forall|k: int| 0 <= k < kept@.len() ==> now < (#[trigger] kept@[k]).expires_at,
                forall|k: int| 0 <= k < expired@.len() ==> (#[trigger] expired@[k]).expires_at
                    <= now,
            decreases n - i,
        {
            proof {
                let sub = self.punishments@.subrange(0, i as int + 1);
                assert(sub.drop_last() =~= self.punishments@.subrange(0, i as int));
                assert(sub.last() == self.punishments@[i as int]);
            }
            if self.punishments[i].expires_at <= now {
                expired.push(self.punishments[i].duplicate());
            } else {
                kept.push(self.punishments[i].duplicate());
            }
            i = i + 1;
        }
        proof {
            assert(self.punishments@.subrange(0, n as int) =~= self.punishments@);
            lemma_live_punishments_keep(old(self).punishments@, now);
        }
        self.punishments = kept;
        expired
    }
}

/// Every row the live filter keeps is a row of the input, so uniqueness of
/// ids and the id bound carry over to the kept rows.
proof fn lemma_live_punishments_keep(s: Seq<TempPunishment>, now: i64)
    ensures
        forall|k: int|
            0 <= k < live_punishments(s, now).len() ==> exists|i: int|
                0 <= i < s.len() && #[trigger] live_punishments(s, now)[k] == s[i],
        live_punishments(s, now).len() <= s.len(),
        forall|k: int, l: int|
            #![trigger live_punishments(s, now)[k], live_punishments(s, now)[l]]
            0 <= k < l < live_punishments(s, now).len() ==> exists|i: int, j: int|
                0 <= i < j < s.len() && live_punishments(s, now)[k] == s[i] && live_punishments(
                    s,
                    now,
                )[l] == s[j],
    decreases s.len(),
{
    if s.len() > 0 {
        lemma_live_punishments_keep(s.drop_last(), now);
        assert forall|k: int|
            0 <= k < live_punishments(s, now).len() implies exists|i: int|
            0 <= i < s.len() && #[trigger] live_punishments(s, now)[k] == s[i] by {
            let rest = live_punishments(s.drop_last(), now);
            if k < rest.len() {
                let i = choose|i: int| 0 <= i < s.drop_last().len() && rest[k] == s.drop_last()[i];
                assert(live_punishments(s, now)[k] == s[i]);
            } else {
                assert(live_punishments(s, now)[k] == s[s.len() - 1]);
            }
        }
        assert forall|k: int, l: int|
            #![trigger live_punishments(s, now)[k], live_punishments(s, now)[l]]
            0 <= k < l < live_punishments(s, now).len() implies exists|i: int, j: int|
            0 <= i < j < s.len() && live_punishments(s, now)[k] == s[i] && live_punishments(s, now)[l]
                == s[j] by {
            let rest = live_punishments(s.drop_last(), now);
            if l < rest.len() {
                let (i, j) = choose|i: int, j: int|
                    0 <= i < j < s.drop_last().len() && rest[k] == s.drop_last()[i] && rest[l]
                        == s.drop_last()[j];
                assert(live_punishments(s, now)[k] == s[i]);
                assert(live_punishments(s, now)[l] == s[j]);
            } else {
                let i = choose|i: int| 0 <= i < s.drop_last().len() && rest[k] == s.drop_last()[i];
                assert(live_punishments(s, now)[k] == s[i]);
                assert(live_punishments(s, now)[l] == s[s.len() - 1]);
            }
        }
    }
}

// ── Reminders ───────────────────────────────────────────────────────────────

/// The reminders already due at `now`, in store order.
pub open spec fn due_reminders(s: Seq<Reminder>, now: i64) -> Seq<Reminder>
    decreases s.len(),
{
    if s.len() == 0 {
        Seq::empty()
    } else {
        let rest = due_reminders(s.drop_last(), now);
        if s.last().remind_at <= now {
            rest.push(s.last())
        } else {
            rest
        }
    }
}

/// The reminders still pending at `now`, in store order.
pub open spec fn pending_reminders(s: Seq<Reminder>, now: i64) -> Seq<Reminder>
    decreases s.len(),
{
    if s.len() == 0 {
        Seq::empty()
    } else {
        let rest = pending_reminders(s.drop_last(), now);
        if s.last().remind_at <= now {
            rest
        } else {
            rest.push(s.last())
        }
    }
}

/// Store of pending reminders; existence is the pending state, deletion the
/// fired state, and actual delivery is an external collaborator's job.
pub struct ReminderStore {
    pub reminders: Vec<Reminder>,
    pub next_id: i64,
}

impl ReminderStore {
    /// Invariant of the store.
    pub open spec fn wf(&self) -> bool {
        &&& forall|i: int, j: int|
            0 <= i < j < self.reminders@.len() ==> self.reminders@[i].id != self.reminders@[j].id
        &&& forall|i: int|
            0 <= i < self.reminders@.len() ==> (#[trigger] self.reminders@[i]).id < self.next_id
        &&& 0 <= self.next_id
    }

    /// An empty store.
    pub fn new() -> (s: ReminderStore)
        ensures
            s.wf(),
            s.reminders@.len() == 0,
    {
        ReminderStore { reminders: Vec::new(), next_id: 0 }
    }

    /// Record a reminder.
    pub fn add_reminder(&mut self, data: CreateReminder, now: i64) -> (r: Reminder)
        requires
            old(self).wf(),
            old(self).next_id < i64::MAX,
        ensures
            final(self).wf(),
            final(self).next_id == old(self).next_id + 1,
            final(self).reminders@.len() == old(self).reminders@.len() + 1,
            forall|j: int|
                0 <= j < old(self).reminders@.len() ==> final(self).reminders@[j] == old(
                    self,
                ).reminders@[j],
            ({
                let p = final(self).reminders@[old(self).reminders@.len() as int];
                &&& r == p
                &&& p.id == old(self).next_id
                &&& p.user_id == data.user_id
                &&& p.guild_id == data.guild_id
                &&& p.channel_id == data.channel_id
                &&& p.message == data.message
                &&& p.remind_at == data.remind_at
                &&& p.created_at == now
            }),
    {
        let p = Reminder {
            id: self.next_id,
            user_id: data.user_id,
            guild_id: data.guild_id,
            channel_id: data.channel_id,
            message: data.message,
            remind_at: data.remind_at,
            created_at: now,
        };
        let out = p.duplicate();
        self.reminders.push(p);
        self.next_id = self.next_id + 1;
        out
    }

    /// Delete every reminder that is due and hand the deleted rows back for
    /// an external delivery mechanism; the store's obligation ends at the
    /// deletion. Afterwards no stored reminder is due.
    #[verifier::loop_isolation(false)]
    pub fn check_reminders(&mut self, now: i64) -> (r: Vec<Reminder>)
        requires
            old(self).wf(),
        ensures
            final(self).wf(),
            final(self).next_id == old(self).next_id,
            r@ == due_reminders(old(self).reminders@, now),
            final(self).reminders@ == pending_reminders(old(self).reminders@, now),
            forall|k: int|
                0 <= k < final(self).reminders@.len() ==> now < (
                #[trigger] final(self).reminders@[k]).remind_at,
            forall|k: int| 0 <= k < r@.len() ==> (#[trigger] r@[k]).remind_at <= now,
    {
        let n = self.reminders.len();
        let mut kept: Vec<Reminder> = Vec::new();
        let mut due: Vec<Reminder> = Vec::new();
        let mut i: usize = 0;
        while i < n
            invariant
                i <= n,
                *self == *old(self),
                kept@ == pending_reminders(self.reminders@.subrange(0, i as int), now),
                due@ == due_reminders(self.reminders@.subrange(0, i as int), now),
                forall|k: int| 0 <= k < kept@.len() ==> now < (#[trigger] kept@[k]).remind_at,
                forall|k: int| 0 <= k < due@.len() ==> (#[trigger] due@[k]).remind_at <= now,
            decreases n - i,
        {
            proof {
                let sub = self.reminders@.subrange(0, i as int + 1);
                assert(sub.drop_last() =~= self.reminders@.subrange(0, i as int));
                assert(sub.last() == self.reminders@[i as int]);
            }
            if self.reminders[i].remind_at <= now {
                due.push(self.reminders[i].duplicate());
            } else {
                kept.push(self.reminders[i].duplicate());
            }
            i = i + 1;
        }
        proof {
            assert(self.reminders@.subrange(0, n as int) =~= self.reminders@);
            lemma_pending_reminders_keep(old(self).reminders@, now);
        }
        self.reminders = kept;
        due
    }
}

/// Every row the pending filter keeps is a row of the input, so uniqueness
/// of ids and the id bound carry over to the kept rows.
proof fn lemma_pending_reminders_keep(s: Seq<Reminder>, now: i64)
    ensures
        forall|k: int|
            0 <= k < pending_reminders(s, now).len() ==> exists|i: int|
                0 <= i < s.len() && #[trigger] pending_reminders(s, now)[k] == s[i],
        pending_reminders(s, now).len() <= s.len(),
        forall|k: int, l: int|
            #![trigger pending_reminders(s, now)[k], pending_reminders(s, now)[l]]
            0 <= k < l < pending_reminders(s, now).len() ==> exists|i: int, j: int|
                0 <= i < j < s.len() && pending_reminders(s, now)[k] == s[i] && pending_reminders(
                    s,
                    now,
                )[l] == s[j],
    decreases s.len(),
{
    if s.len() > 0 {
        lemma_pending_reminders_keep(s.drop_last(), now);
        assert forall|k: int|
            0 <= k < pending_reminders(s, now).len() implies exists|i: int|
            0 <= i < s.len() && #[trigger] pending_reminders(s, now)[k] == s[i] by {
            let rest = pending_reminders(s.drop_last(), now);
            if k < rest.len() {
                let i = choose|i: int| 0 <= i < s.drop_last().len() && rest[k] == s.drop_last()[i];
                assert(pending_reminders(s, now)[k] == s[i]);
            } else {
                assert(pending_reminders(s, now)[k] == s[s.len() - 1]);
            }
        }
        assert forall|k: int, l: int|
            #![trigger pending_reminders(s, now)[k], pending_reminders(s, now)[l]]
            0 <= k < l < pending_reminders(s, now).len() implies exists|i: int, j: int|
            0 <= i < j < s.len() && pending_reminders(s, now)[k] == s[i] && pending_reminders(s, now)[l]
                == s[j] by {
            let rest = pending_reminders(s.drop_last(), now);
            if l < rest.len() {
                let (i, j) = choose|i: int, j: int|
                    0 <= i < j < s.drop_last().len() && rest[k] == s.drop_last()[i] && rest[l]
                        == s.drop_last()[j];
                assert(pending_reminders(s, now)[k] == s[i]);
                assert(pending_reminders(s, now)[l] == s[j]);
            } else {
                let i = choose|i: int| 0 <= i < s.drop_last().len() && rest[k] == s.drop_last()[i];
                assert(pending_reminders(s, now)[k] == s[i]);
                assert(pending_reminders(s, now)[l] == s[s.len() - 1]);
            }
        }
    }
}

// ── Giveaways ───────────────────────────────────────────────────────────────

/// The giveaways due at `now`: still running, end time passed.
pub open spec fn due_giveaways(s: Seq<Giveaway>, now: i64) -> Seq<Giveaway>
    decreases s.len(),
{
    if s.len() == 0 {
        Seq::empty()
    } else {
        let rest = due_giveaways(s.drop_last(), now);
        if !s.last().ended && s.last().ends_at <= now {
            rest.push(s.last())
        } else {
            rest
        }
    }
}

/// A due row appears in the due list.
proof fn lemma_due_giveaways_contains(s: Seq<Giveaway>, now: i64, i: int)
    requires
        0 <= i < s.len(),
        !s[i].ended,
        s[i].ends_at <= now,
    ensures
        exists|j: int|
            0 <= j < due_giveaways(s, now).len() && #[trigger] due_giveaways(s, now)[j] == s[i],
    decreases s.len(),
{
    if i == s.len() - 1 {
        assert(due_giveaways(s, now)[due_giveaways(s, now).len() - 1] == s[i]);
    } else {
        assert(s.drop_last()[i] == s[i]);
        lemma_due_giveaways_contains(s.drop_last(), now, i);
        let rest = due_giveaways(s.drop_last(), now);
        let j = choose|j: int| 0 <= j < rest.len() && rest[j] == s[i];
        assert(due_giveaways(s, now)[j] == s[i]);
    }
}

/// Every entry of the due list is a row of the input and is itself due.
proof fn lemma_due_giveaways_from(s: Seq<Giveaway>, now: i64)
    ensures
        forall|j: int|
            0 <= j < due_giveaways(s, now).len() ==> exists|i: int|
                0 <= i < s.len() && #[trigger] due_giveaways(s, now)[j] == s[i],
        forall|j: int|
            0 <= j < due_giveaways(s, now).len() ==> !(#[trigger] due_giveaways(s, now)[j]).ended
                && due_giveaways(s, now)[j].ends_at <= now,
    decreases s.len(),
{
    if s.len() > 0 {
        lemma_due_giveaways_from(s.drop_last(), now);
        assert forall|j: int|
            0 <= j < due_giveaways(s, now).len() implies exists|i: int|
            0 <= i < s.len() && #[trigger] due_giveaways(s, now)[j] == s[i] by {
            let rest = due_giveaways(s.drop_last(), now);
            if j < rest.len() {
                let i = choose|i: int| 0 <= i < s.drop_last().len() && rest[j] == s.drop_last()[i];
                assert(due_giveaways(s, now)[j] == s[i]);
            } else {
                assert(due_giveaways(s, now)[j] == s[s.len() - 1]);
            }
        }
    }
}

/// Discover the giveaways that should have ended: copies of every row with
/// `ends_at` in the past that is not yet ended, in store order.
#[verifier::loop_isolation(false)]
pub fn check_giveaways(store: &GiveawayStore, now: i64) -> (r: Vec<Giveaway>)
    requires
        store.wf(),
    ensures
        ({
            let fs = due_giveaways(store.giveaways@, now);
            &&& r@.len() == fs.len()
            &&& forall|k: int| 0 <= k < fs.len() ==> giveaway_like(r@[k], fs[k])
        }),
{
    let mut r: Vec<Giveaway> = Vec::new();
    let n = store.giveaways.len();
    let mut i: usize = 0;
    while i < n
        invariant
            i <= n,
            ({
                let fs = due_giveaways(store.giveaways@.subrange(0, i as int), now);
                &&& r@.len() == fs.len()
                &&& forall|k: int| 0 <= k < fs.len() ==> giveaway_like(r@[k], fs[k])
            }),
        decreases n - i,
    {
        proof {
            let sub = store.giveaways@.subrange(0, i as int + 1);
            assert(sub.drop_last() =~= store.giveaways@.subrange(0, i as int));
            assert(sub.last() == store.giveaways@[i as int]);
        }
        if !store.giveaways[i].ended && store.giveaways[i].ends_at <= now {
            r.push(store.giveaways[i].duplicate());
        }
        i = i + 1;
    }
    proof {
        assert(store.giveaways@.subrange(0, n as int) =~= store.giveaways@);
    }
    r
}

/// True when the tail of the discovered list, from `k` on, still holds a
/// row with this id.
pub open spec fn in_due_tail(d: Seq<Giveaway>, id: i64, k: int) -> bool {
    exists|j: int| k <= j < d.len() && d[j].id == id
}

/// What one tick discovered: the punishments it lifted, the giveaways it
/// found due, and the reminders it removed for delivery.
pub struct TickReport {
    pub expired_punishments: Vec<TempPunishment>,
    pub due_giveaways: Vec<Giveaway>,
    pub due_reminders: Vec<Reminder>,
}

/// One scheduler tick: three independent discovery-and-fire passes. All
/// expired punishments and all due reminders are deleted and reported;
/// every due giveaway is ended through the same conditional transition as
/// the synchronous path, so a giveaway ended by a racing caller in the
/// meantime is simply left as it is. Afterwards nothing in any store is
/// still due, and rows that were not due are untouched.
#[verifier::loop_isolation(false)]
pub fn run_scheduler_tick(
    punishments: &mut PunishmentStore,
    giveaways: &mut GiveawayStore,
    reminders: &mut ReminderStore,
    now: i64,
    seed: u64,
) -> (report: TickReport)
    requires
        old(punishments).wf(),
        old(giveaways).wf(),
        old(reminders).wf(),
    ensures
        final(punishments).wf(),
        final(giveaways).wf(),
        final(reminders).wf(),
        report.expired_punishments@ == expired_punishments(old(punishments).punishments@, now),
        final(punishments).punishments@ == live_punishments(old(punishments).punishments@, now),
        forall|k: int|
            0 <= k < final(punishments).punishments@.len() ==> now < (
            #[trigger] final(punishments).punishments@[k]).expires_at,
        report.due_reminders@ == due_reminders(old(reminders).reminders@, now),
        final(reminders).reminders@ == pending_reminders(old(reminders).reminders@, now),
        forall|k: int|
            0 <= k < final(reminders).reminders@.len() ==> now < (
            #[trigger] final(reminders).reminders@[k]).remind_at,
        ({
            let fs = due_giveaways(old(giveaways).giveaways@, now);
            &&& report.due_giveaways@.len() == fs.len()
            &&& forall|k: int| 0 <= k < fs.len() ==> giveaway_like(report.due_giveaways@[k], fs[k])
        }),
        final(giveaways).giveaways@.len() == old(giveaways).giveaways@.len(),
        final(giveaways).next_id == old(giveaways).next_id,
        forall|i: int|
            0 <= i < old(giveaways).giveaways@.len() ==> {
                let pre = #[trigger] old(giveaways).giveaways@[i];
                &&& pre.ended ==> final(giveaways).giveaways@[i] == pre
                &&& (!pre.ended && now < pre.ends_at) ==> final(giveaways).giveaways@[i] == pre
                &&& (!pre.ended && pre.ends_at <= now) ==> end_applied(
                    pre,
                    final(giveaways).giveaways@[i],
                )
            },
        forall|i: int|
            0 <= i < final(giveaways).giveaways@.len() && (
            #[trigger] final(giveaways).giveaways@[i]).ends_at <= now
                ==> final(giveaways).giveaways@[i].ended,
{
    let expired = punishments.check_temp_punishments(now);

    let due = check_giveaways(giveaways, now);
    proof {
        assert forall|i: int|
            0 <= i < giveaways.giveaways@.len() && !(#[trigger] giveaways.giveaways@[i]).ended
                && giveaways.giveaways@[i].ends_at <= now implies in_due_tail(
            due@,
            giveaways.giveaways@[i].id,
            0,
        ) by {
            lemma_due_giveaways_contains(giveaways.giveaways@, now, i);
            let fs = due_giveaways(giveaways.giveaways@, now);
            let j = choose|j: int| 0 <= j < fs.len() && fs[j] == giveaways.giveaways@[i];
            assert(due@[j].id == giveaways.giveaways@[i].id);
        }
    }
    proof {
        assert forall|j: int| #![trigger due@[j]] 0 <= j < due@.len() implies exists|i: int|
            0 <= i < old(giveaways).giveaways@.len() && (
            #[trigger] old(giveaways).giveaways@[i]).id == due@[j].id && !old(
            giveaways,
        ).giveaways@[i].ended && old(giveaways).giveaways@[i].ends_at <= now by {
            lemma_due_giveaways_from(old(giveaways).giveaways@, now);
            let fs = due_giveaways(old(giveaways).giveaways@, now);
            let i = choose|i: int|
                0 <= i < old(giveaways).giveaways@.len() && fs[j] == old(giveaways).giveaways@[i];
            assert(old(giveaways).giveaways@[i].id == due@[j].id);
        }
    }
    let mut state: u64 = seed;
    let mut k: usize = 0;
    while k < due.len()
        invariant
            k <= due@.len(),
            giveaways.wf(),
            giveaways.giveaways@.len() == old(giveaways).giveaways@.len(),
            giveaways.next_id == old(giveaways).next_id,
            forall|i: int|
                0 <= i < old(giveaways).giveaways@.len() ==> (
                #[trigger] giveaways.giveaways@[i]).id == old(giveaways).giveaways@[i].id,
            forall|i: int|
                0 <= i < old(giveaways).giveaways@.len() ==> {
                    let pre = #[trigger] old(giveaways).giveaways@[i];
                    &&& pre.ended ==> giveaways.giveaways@[i] == pre
                    &&& (!pre.ended && now < pre.ends_at) ==> giveaways.giveaways@[i] == pre
                    &&& (!pre.ended && pre.ends_at <= now && in_due_tail(due@, pre.id, k as int))
                        ==> (giveaways.giveaways@[i] == pre || end_applied(
                        pre,
                        giveaways.giveaways@[i],
                    ))
                    &&& (!pre.ended && pre.ends_at <= now && !in_due_tail(due@, pre.id, k as int))
                        ==> end_applied(pre, giveaways.giveaways@[i])
                },
        decreases due@.len() - k,
    {
        state = xorshift64(state);
        let ghost mid = giveaways.giveaways@;
        let _outcome = giveaways.end_giveaway(due[k].id, state);
        proof {
            assert forall|i: int|
                0 <= i < old(giveaways).giveaways@.len() implies {
                let pre = #[trigger] old(giveaways).giveaways@[i];
                &&& pre.ended ==> giveaways.giveaways@[i] == pre
                &&& (!pre.ended && now < pre.ends_at) ==> giveaways.giveaways@[i] == pre
                &&& (!pre.ended && pre.ends_at <= now && in_due_tail(due@, pre.id, k as int + 1))
                    ==> (giveaways.giveaways@[i] == pre || end_applied(
                    pre,
                    giveaways.giveaways@[i],
                ))
                &&& (!pre.ended && pre.ends_at <= now && !in_due_tail(due@, pre.id, k as int + 1))
                    ==> end_applied(pre, giveaways.giveaways@[i])
            } by {
                let pre = old(giveaways).giveaways@[i];
                let gid = due@[k as int].id;
                let idue = choose|t: int|
                    0 <= t < old(giveaways).giveaways@.len() && (
                    #[trigger] old(giveaways).giveaways@[t]).id == gid && !old(
                    giveaways,
                ).giveaways@[t].ended && old(giveaways).giveaways@[t].ends_at <= now;
                assert(mid[idue].id == gid);
                if i != idue {
                    assert(giveaways.giveaways@[i] == mid[i]);
                }
                if !pre.ended && pre.ends_at <= now && in_due_tail(due@, pre.id, k as int)
                    && !in_due_tail(due@, pre.id, k as int + 1) {
                    assert(due@[k as int].id == pre.id);
                    assert(i == idue);
                }
            }
        }
        k = k + 1;
    }
    proof {
        assert forall|i: int|
            0 <= i < giveaways.giveaways@.len() && (
            #[trigger] giveaways.giveaways@[i]).ends_at <= now implies giveaways.giveaways@[i].ended
            by {
            let pre = old(giveaways).giveaways@[i];
            assert(!in_due_tail(due@, pre.id, due@.len() as int));
        }
    }

    let fired = reminders.check_reminders(now);

    TickReport { expired_punishments: expired, due_giveaways: due, due_reminders: fired }
}

} // verus!
