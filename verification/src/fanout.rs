//! Event fan-out: guild-scoped workflow events and the per-connection
//! subscription filter. Each live connection owns a private list of guild
//! ids; an event is forwarded to the connection exactly when the event's
//! guild is in that list, and is silently dropped otherwise.

use vstd::prelude::*;

use crate::giveaways::contains_id;
use crate::models::TicketStatus;

verus! {

/// A guild-scoped state-change event; transient, never persisted.
#[derive(Debug)]
pub enum WsEvent {
    /// Refreshed statistics of a guild, already rendered for the wire.
    Stats { guild_id: String, data: String },
    /// A ticket changed state.
    TicketUpdate { guild_id: String, ticket_id: i64, status: TicketStatus },
    /// An audit-log line was appended.
    DashboardLog { guild_id: String, action: String, user_id: String, details: String },
}

/// The guild an event is scoped to.
pub open spec fn event_guild(e: WsEvent) -> Seq<char> {
    match e {
        WsEvent::Stats { guild_id, .. } => guild_id@,
        WsEvent::TicketUpdate { guild_id, .. } => guild_id@,
        WsEvent::DashboardLog { guild_id, .. } => guild_id@,
    }
}

/// An inbound control message of one dashboard connection.
#[derive(Debug)]
pub enum WsCommand {
    Subscribe { guild_id: String },
    Unsubscribe { guild_id: String },
}

/// The private subscription list of one connection; each guild appears at
/// most once.
pub struct SubscriptionList {
    pub guilds: Vec<String>,
}

impl SubscriptionList {
    /// Invariant: no guild is listed twice.
    pub open spec fn wf(&self) -> bool {
        forall|i: int, j: int|
            0 <= i < j < self.guilds@.len() ==> self.guilds@[i]@ != self.guilds@[j]@
    }

    /// A connection subscribed to nothing.
    pub fn new() -> (s: SubscriptionList)
        ensures
            s.wf(),
            s.guilds@.len() == 0,
    {
        SubscriptionList { guilds: Vec::new() }
    }

    /// Subscribe to a guild; a second subscription to the same guild is a
    /// no-op, so the list never holds a guild twice.
    #[verifier::loop_isolation(false)]
    pub fn subscribe(&mut self, guild_id: String)
        requires
            old(self).wf(),
        ensures
            final(self).wf(),
            contains_id(final(self).guilds@, guild_id@),
            contains_id(old(self).guilds@, guild_id@) ==> *final(self) == *old(self),
            !contains_id(old(self).guilds@, guild_id@) ==> final(self).guilds@ == old(
                self,
            ).guilds@.push(guild_id),
            forall|g: Seq<char>|
                g != guild_id@ ==> contains_id(final(self).guilds@, g) == contains_id(
                    old(self).guilds@,
                    g,
                ),
    {
        let n = self.guilds.len();
        let mut i: usize = 0;
        while i < n
            invariant
                i <= n,
                *self == *old(self),
                forall|k: int| 0 <= k < i as int ==> self.guilds@[k]@ != guild_id@,
            decreases n - i,
        {
            if self.guilds[i] == guild_id {
                return ;
            }
            i = i + 1;
        }
        self.guilds.push(guild_id);
        proof {
            assert(self.guilds@[old(self).guilds@.len() as int]@ == guild_id@);
            assert forall|g: Seq<char>|
                g != guild_id@ implies contains_id(self.guilds@, g) == contains_id(
                old(self).guilds@,
                g,
            ) by {
                if contains_id(old(self).guilds@, g) {
                    let k = choose|k: int|
                        0 <= k < old(self).guilds@.len() && old(self).guilds@[k]@ == g;
                    assert(self.guilds@[k]@ == g);
                }
                if contains_id(self.guilds@, g) {
                    let k = choose|k: int| 0 <= k < self.guilds@.len() && self.guilds@[k]@ == g;
                    assert(k < old(self).guilds@.len());
                    assert(old(self).guilds@[k]@ == g);
                }
            }
        }
    }

    /// Unsubscribe from a guild; a no-op when it is not listed. The guild
    /// is no longer in the list afterwards.
    #[verifier::loop_isolation(false)]
    pub fn unsubscribe(&mut self, guild_id: &String)
        requires
            old(self).wf(),
        ensures
            final(self).wf(),
            !contains_id(final(self).guilds@, guild_id@),
            !contains_id(old(self).guilds@, guild_id@) ==> *final(self) == *old(self),
            forall|i: int|
                0 <= i < old(self).guilds@.len() && (#[trigger] old(self).guilds@[i])@ == guild_id@
                    ==> final(self).guilds@ == old(self).guilds@.remove(i),
            forall|g: Seq<char>|
                g != guild_id@ ==> contains_id(final(self).guilds@, g) == contains_id(
                    old(self).guilds@,
                    g,
                ),
    {
        let n = self.guilds.len();
        let mut i: usize = 0;
        while i < n
            invariant
                i <= n,
                *self == *old(self),
                forall|k: int| 0 <= k < i as int ==> self.guilds@[k]@ != guild_id@,
            decreases n - i,
        {
            if self.guilds[i] == *guild_id {
                self.guilds.remove(i);
                proof {
                    assert forall|k: int|
                        0 <= k < self.guilds@.len() implies self.guilds@[k]@ != guild_id@ by {
                        if k >= i as int {
                            assert(self.guilds@[k] == old(self).guilds@[k + 1]);
                        }
                    }
                    assert forall|g: Seq<char>|
                        g != guild_id@ implies contains_id(self.guilds@, g) == contains_id(
                        old(self).guilds@,
                        g,
                    ) by {
                        if contains_id(old(self).guilds@, g) {
                            let k = choose|k: int|
                                0 <= k < old(self).guilds@.len() && old(self).guilds@[k]@ == g;
                            if k < i as int {
                                assert(self.guilds@[k]@ == g);
                            } else {
                                assert(self.guilds@[k - 1]@ == g);
                            }
                        }
                        if contains_id(self.guilds@, g) {
                            let k = choose|k: int|
                                0 <= k < self.guilds@.len() && self.guilds@[k]@ == g;
                            if k < i as int {
                                assert(old(self).guilds@[k]@ == g);
                            } else {
                                assert(old(self).guilds@[k + 1]@ == g);
                            }
                        }
                    }
                }
                return ;
            }
            i = i + 1;
        }
    }

    /// Apply one inbound control message.
    pub fn apply_command(&mut self, cmd: WsCommand)
        requires
            old(self).wf(),
        ensures
            final(self).wf(),
            forall|g: String|
                cmd == (WsCommand::Subscribe { guild_id: g }) ==> contains_id(
                    final(self).guilds@,
                    g@,
                ),
            forall|g: String|
                cmd == (WsCommand::Unsubscribe { guild_id: g }) ==> !contains_id(
                    final(self).guilds@,
                    g@,
                ),
    {
        match cmd {
            WsCommand::Subscribe { guild_id } => self.subscribe(guild_id),
            WsCommand::Unsubscribe { guild_id } => self.unsubscribe(&guild_id),
        }
    }

    /// The forwarding decision: an event reaches this connection exactly
    /// when the connection is subscribed to the event's guild.
    #[verifier::loop_isolation(false)]
    pub fn should_forward(&self, event: &WsEvent) -> (r: bool)
        ensures
            r == contains_id(self.guilds@, event_guild(*event)),
    {
        let guild_id: &String = match event {
            WsEvent::Stats { guild_id, .. } => guild_id,
            WsEvent::TicketUpdate { guild_id, .. } => guild_id,
            WsEvent::DashboardLog { guild_id, .. } => guild_id,
        };
        let n = self.guilds.len();
        let mut i: usize = 0;
        while i < n
            invariant
                i <= n,
                guild_id@ == event_guild(*event),
                forall|k: int| 0 <= k < i as int ==> self.guilds@[k]@ != guild_id@,
            decreases n - i,
        {
            if self.guilds[i] == *guild_id {
                return true;
            }
            i = i + 1;
        }
        false
    }
}

} // verus!
