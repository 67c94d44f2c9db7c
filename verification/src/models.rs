//! Data model of the engine: tickets, giveaways, temporary punishments,
//! reminders, sessions, users and the payloads that create or update them.
//!
//! Timestamps are unix seconds; identifiers for guilds, users, channels and
//! messages are opaque strings compared only for equality.

use vstd::prelude::*;

verus! {

/// Lifecycle state of a ticket. Claiming is orthogonal: `claimed_by` may be
/// set while the status stays `Open`.
#[derive(Clone, Copy, Debug, PartialEq, Eq, Structural)]
pub enum TicketStatus {
    Open,
    Closed,
    Review,
}

/// Priority of a ticket; the only accepted values.
#[derive(Clone, Copy, Debug, PartialEq, Eq, Structural)]
pub enum Priority {
    Low,
    Normal,
    High,
    Urgent,
}

/// Kind of a temporary punishment.
#[derive(Clone, Copy, Debug, PartialEq, Eq, Structural)]
pub enum PunishmentKind {
    Ban,
    Mute,
}

/// Expected, recoverable outcomes of a workflow transition.
#[derive(Debug, PartialEq, Eq)]
pub enum WorkflowError {
    /// The addressed entity does not exist.
    NotFound,
    /// The ticket already has a claimer; carries who claimed it.
    AlreadyClaimed { claimed_by: String },
    /// The ticket is not open.
    AlreadyClosed,
    /// The giveaway has already ended.
    AlreadyEnded,
    /// The giveaway is still running, so winners cannot be rerolled.
    NotEnded,
    /// Malformed input, such as an unrecognized priority value.
    Validation,
}

impl WorkflowError {
    /// Conflict-class outcomes: the entity exists, but its current state
    /// refuses the requested transition.
    pub open spec fn is_conflict(&self) -> bool {
        match *self {
            WorkflowError::AlreadyClaimed { .. } => true,
            WorkflowError::AlreadyClosed => true,
            WorkflowError::AlreadyEnded => true,
            WorkflowError::NotEnded => true,
            _ => false,
        }
    }
}

/// Outcome of entering a giveaway: the entrant was appended, or was already
/// in the participant list and the list is unchanged.
#[derive(Clone, Copy, Debug, PartialEq, Eq, Structural)]
pub enum EnterOutcome {
    Entered,
    AlreadyEntered,
}

// ── Tickets ─────────────────────────────────────────────────────────────────

/// A ticket row. `number` is unique and strictly increasing within a guild.
#[derive(Debug)]
pub struct Ticket {
    pub id: i64,
    pub number: i64,
    pub channel_id: String,
    pub user_id: String,
    pub guild_id: String,
    pub category: Option<String>,
    pub subject: Option<String>,
    pub status: TicketStatus,
    pub priority: Priority,
    pub claimed_by: Option<String>,
    pub closed_by: Option<String>,
    pub closed_at: Option<i64>,
    pub review: Option<String>,
    pub review_rating: Option<i64>,
    pub last_activity: i64,
    pub created_at: i64,
}

/// Payload for creating a ticket.
#[derive(Debug)]
pub struct CreateTicket {
    pub number: i64,
    pub channel_id: String,
    pub user_id: String,
    pub guild_id: String,
    pub category: Option<String>,
    pub subject: Option<String>,
}

/// Partial-update payload for a ticket.
#[derive(Debug)]
pub struct UpdateTicket {
    pub status: Option<TicketStatus>,
    pub priority: Option<Priority>,
    pub claimed_by: Option<Option<String>>,
    pub closed_by: Option<Option<String>>,
    pub closed_at: Option<Option<i64>>,
    pub review: Option<Option<String>>,
    pub review_rating: Option<Option<i64>>,
    pub last_activity: Option<i64>,
}

/// A ticket category of a guild.
#[derive(Debug)]
pub struct TicketCategory {
    pub id: i64,
    pub guild_id: String,
    pub name: String,
    pub emoji: Option<String>,
    pub description: Option<String>,
    pub created_at: i64,
}

/// Payload for creating a ticket category.
#[derive(Debug)]
pub struct CreateTicketCategory {
    pub guild_id: String,
    pub name: String,
    pub emoji: Option<String>,
    pub description: Option<String>,
}

/// A user barred from opening tickets in a guild.
#[derive(Debug)]
pub struct TicketBlacklist {
    pub id: i64,
    pub guild_id: String,
    pub user_id: String,
    pub reason: Option<String>,
    pub added_by: String,
    pub created_at: i64,
}

/// Payload for barring a user from tickets.
#[derive(Debug)]
pub struct CreateTicketBlacklist {
    pub guild_id: String,
    pub user_id: String,
    pub reason: Option<String>,
    pub added_by: String,
}

// ── Giveaways ───────────────────────────────────────────────────────────────

/// A giveaway row. `participants` holds each entrant at most once;
/// `winner_ids` is populated only once `ended` and is a duplicate-free
/// subset of `participants`.
#[derive(Debug)]
pub struct Giveaway {
    pub id: i64,
    pub guild_id: String,
    pub channel_id: String,
    pub message_id: String,
    pub host_id: String,
    pub prize: String,
    pub winners: i64,
    pub required_role: Option<String>,
    pub ends_at: i64,
    pub ended: bool,
    pub winner_ids: Vec<String>,
    pub participants: Vec<String>,
    pub created_at: i64,
}

/// Payload for creating a giveaway.
#[derive(Debug)]
pub struct CreateGiveaway {
    pub guild_id: String,
    pub channel_id: String,
    pub message_id: String,
    pub host_id: String,
    pub prize: String,
    pub winners: i64,
    pub required_role: Option<String>,
    pub ends_at: i64,
}

/// Partial-update payload for a giveaway.
#[derive(Debug)]
pub struct UpdateGiveaway {
    pub ended: Option<bool>,
    pub winner_ids: Option<Vec<String>>,
    pub participants: Option<Vec<String>>,
}

// ── Punishments and reminders ───────────────────────────────────────────────

/// A temporary punishment; its existence is the "active" state, and deletion
/// by the scheduler is the completion signal.
#[derive(Debug)]
pub struct TempPunishment {
    pub id: i64,
    pub guild_id: String,
    pub user_id: String,
    pub punishment_type: PunishmentKind,
    pub expires_at: i64,
    pub created_at: i64,
}

/// Payload for creating a temporary punishment.
#[derive(Debug)]
pub struct CreateTempPunishment {
    pub guild_id: String,
    pub user_id: String,
    pub punishment_type: PunishmentKind,
    pub expires_at: i64,
}

/// A pending reminder; deleted when due, and delivery is another
/// component's job.
#[derive(Debug)]
pub struct Reminder {
    pub id: i64,
    pub user_id: String,
    pub guild_id: String,
    pub channel_id: String,
    pub message: String,
    pub remind_at: i64,
    pub created_at: i64,
}

/// Payload for creating a reminder.
#[derive(Debug)]
pub struct CreateReminder {
    pub user_id: String,
    pub guild_id: String,
    pub channel_id: String,
    pub message: String,
    pub remind_at: i64,
}

// ── Sessions and identity ───────────────────────────────────────────────────

/// A dashboard session; valid while `now < expires_at`.
#[derive(Debug)]
pub struct Session {
    /// Opaque session token.
    pub id: String,
    pub user_id: String,
    pub access_token: String,
    pub username: String,
    pub avatar: Option<String>,
    pub expires_at: i64,
    pub created_at: i64,
}

/// Payload for minting a session.
#[derive(Debug)]
pub struct CreateSession {
    pub id: String,
    pub user_id: String,
    pub access_token: String,
    pub username: String,
    pub avatar: Option<String>,
    pub expires_at: i64,
}

/// The identity a resolved session hands to request handlers.
#[derive(Debug)]
pub struct AuthUser {
    pub id: String,
    pub username: String,
    pub avatar: Option<String>,
    pub access_token: String,
}

/// Identity fields of a dashboard user as the identity provider reports them.
#[derive(Debug)]
pub struct DiscordUser {
    pub id: String,
    pub username: String,
    pub avatar: Option<String>,
    pub discriminator: Option<String>,
    pub global_name: Option<String>,
}

/// A guild as the identity provider lists it for a user, with the user's
/// permission bits rendered as a decimal string.
#[derive(Debug)]
pub struct DiscordGuild {
    pub id: String,
    pub name: String,
    pub icon: Option<String>,
    pub permissions: Option<String>,
}

/// The identity provider's answer to a code exchange.
#[derive(Debug)]
pub struct TokenResponse {
    pub access_token: String,
    pub token_type: String,
    pub expires_in: u64,
    pub refresh_token: Option<String>,
    pub scope: String,
}

// ── Suggestions ─────────────────────────────────────────────────────────────

/// Review state of a suggestion.
#[derive(Clone, Copy, Debug, PartialEq, Eq, Structural)]
pub enum SuggestionStatus {
    Pending,
    Approved,
    Rejected,
}

/// A community suggestion with its vote tallies and review outcome.
#[derive(Debug)]
pub struct Suggestion {
    pub id: i64,
    pub guild_id: String,
    pub user_id: String,
    pub message_id: String,
    pub content: String,
    pub status: SuggestionStatus,
    pub staff_id: Option<String>,
    pub staff_reason: Option<String>,
    pub upvotes: i64,
    pub downvotes: i64,
    pub created_at: i64,
}

/// Payload for creating a suggestion.
#[derive(Debug)]
pub struct CreateSuggestion {
    pub guild_id: String,
    pub user_id: String,
    pub message_id: String,
    pub content: String,
}

/// Partial-update payload for a suggestion.
#[derive(Debug)]
pub struct UpdateSuggestion {
    pub status: Option<SuggestionStatus>,
    pub staff_id: Option<Option<String>>,
    pub staff_reason: Option<Option<String>>,
    pub upvotes: Option<i64>,
    pub downvotes: Option<i64>,
}

/// Body of a create-suggestion request.
#[derive(Debug)]
pub struct CreateSuggestionBody {
    pub content: String,
    pub message_id: String,
}

/// Body of a vote request; the value is validated.
#[derive(Debug)]
pub struct VoteBody {
    pub vote: String,
}

/// Body of an approve or reject request.
#[derive(Debug)]
pub struct StaffActionBody {
    pub reason: Option<String>,
}

// ── Users, warns, logs ──────────────────────────────────────────────────────

/// A leveling row of a user.
#[derive(Debug)]
pub struct User {
    pub id: String,
    pub xp: i64,
    pub level: i64,
    pub balance: i64,
    pub last_daily: Option<i64>,
    /// false = hidden from the leaderboard.
    pub visible_xp: bool,
    pub created_at: i64,
    pub updated_at: i64,
}

/// Payload for creating a user row.
#[derive(Debug)]
pub struct CreateUser {
    pub id: String,
}

/// Partial-update payload for a user row.
#[derive(Debug)]
pub struct UpdateUser {
    pub xp: Option<i64>,
    pub level: Option<i64>,
    pub balance: Option<i64>,
    pub last_daily: Option<Option<i64>>,
    pub visible_xp: Option<bool>,
}

/// Result of an XP grant: the updated user row, whether the level rose,
/// and how much XP the call granted.
#[derive(Debug)]
pub struct AddXpResult {
    pub user: User,
    pub leveled_up: bool,
    pub xp_gained: i64,
}

/// A warning issued against a user.
#[derive(Debug)]
pub struct Warn {
    pub id: i64,
    pub target_user_id: String,
    pub moderator_id: String,
    pub reason: String,
    pub guild_id: String,
    pub created_at: i64,
}

/// Payload for issuing a warning.
#[derive(Debug)]
pub struct CreateWarn {
    pub target_user_id: String,
    pub moderator_id: String,
    pub reason: String,
    pub guild_id: String,
}

/// An audit-log line of a guild's dashboard.
#[derive(Debug)]
pub struct DashboardLog {
    pub id: i64,
    pub guild_id: String,
    pub user_id: String,
    pub action: String,
    pub details: String,
    pub created_at: i64,
}

/// Payload for appending an audit-log line.
#[derive(Debug)]
pub struct CreateDashboardLog {
    pub guild_id: String,
    pub user_id: String,
    pub action: String,
    pub details: String,
}

// ── Request payloads of the synchronous API ─────────────────────────────────

/// Body of a close-ticket request.
#[derive(Debug)]
pub struct CloseTicketBody {
    pub closed_by: Option<String>,
}

/// Body of a priority-update request; the value is validated.
#[derive(Debug)]
pub struct UpdatePriorityBody {
    pub priority: String,
}

/// Body of a create-category request.
#[derive(Debug)]
pub struct CreateCategoryBody {
    pub name: String,
    pub emoji: Option<String>,
    pub description: Option<String>,
}

/// Body of a blacklist-user request.
#[derive(Debug)]
pub struct AddBlacklistBody {
    pub user_id: String,
    pub reason: Option<String>,
}

/// Body of a create-giveaway request.
#[derive(Debug)]
pub struct CreateGiveawayBody {
    pub channel_id: String,
    pub message_id: String,
    pub prize: String,
    pub winners: Option<i64>,
    pub required_role: Option<String>,
    pub ends_at: i64,
}

/// Ticket creation as the bot reports it.
#[derive(Debug)]
pub struct BotCreateTicketBody {
    pub number: i64,
    pub channel_id: String,
    pub user_id: String,
    pub category: Option<String>,
    pub subject: Option<String>,
}

/// XP grant as the bot reports it.
#[derive(Debug)]
pub struct BotAddXpBody {
    pub user_id: String,
    pub amount: i64,
}

/// Giveaway entry as the bot reports it.
#[derive(Debug)]
pub struct BotGiveawayEnterBody {
    pub giveaway_id: i64,
    pub user_id: String,
}

/// Body of a warn-creation request; the moderator is the caller.
#[derive(Debug)]
pub struct CreateWarnBody {
    pub target_user_id: String,
    pub reason: String,
}

/// Paging and status filter of a ticket listing.
#[derive(Debug)]
pub struct PaginationParams {
    pub page: Option<i64>,
    pub limit: Option<i64>,
    pub status: Option<TicketStatus>,
}

// ── Copy helpers ────────────────────────────────────────────────────────────

/// Copy of an optional identifier, equal to the one given.
pub fn clone_opt_string(o: &Option<String>) -> (r: Option<String>)
    ensures
        r == *o,
{
    match o {
        Some(s) => Some(s.clone()),
        None => None,
    }
}

/// Copy of an identifier list, with the same entries in the same order.
pub fn clone_strings(v: &Vec<String>) -> (r: Vec<String>)
    ensures
        r@ == v@,
{
    let mut r: Vec<String> = Vec::new();
    let mut k: usize = 0;
    while k < v.len()
        invariant
            k <= v@.len(),
            r@.len() == k as int,
            forall|i: int| 0 <= i < k as int ==> r@[i] == v@[i],
        decreases v@.len() - k,
    {
        r.push(v[k].clone());
        k = k + 1;
    }
    assert(r@ =~= v@);
    r
}

/// Two giveaways that agree on every field, comparing the identifier lists
/// entry by entry.
pub open spec fn giveaway_like(a: Giveaway, b: Giveaway) -> bool {
    &&& a.id == b.id
    &&& a.guild_id == b.guild_id
    &&& a.channel_id == b.channel_id
    &&& a.message_id == b.message_id
    &&& a.host_id == b.host_id
    &&& a.prize == b.prize
    &&& a.winners == b.winners
    &&& a.required_role == b.required_role
    &&& a.ends_at == b.ends_at
    &&& a.ended == b.ended
    &&& a.winner_ids@ == b.winner_ids@
    &&& a.participants@ == b.participants@
    &&& a.created_at == b.created_at
}

impl Ticket {
    /// A copy equal to this ticket.
    pub fn duplicate(&self) -> (t: Ticket)
        ensures
            t == *self,
    {
        Ticket {
            id: self.id,
            number: self.number,
            channel_id: self.channel_id.clone(),
            user_id: self.user_id.clone(),
            guild_id: self.guild_id.clone(),
            category: clone_opt_string(&self.category),
            subject: clone_opt_string(&self.subject),
            status: self.status,
            priority: self.priority,
            claimed_by: clone_opt_string(&self.claimed_by),
            closed_by: clone_opt_string(&self.closed_by),
            closed_at: self.closed_at,
            review: clone_opt_string(&self.review),
            review_rating: self.review_rating,
            last_activity: self.last_activity,
            created_at: self.created_at,
        }
    }
}

impl Giveaway {
    /// A copy that agrees with this giveaway on every field.
    pub fn duplicate(&self) -> (g: Giveaway)
        ensures
            giveaway_like(g, *self),
    {
        Giveaway {
            id: self.id,
            guild_id: self.guild_id.clone(),
            channel_id: self.channel_id.clone(),
            message_id: self.message_id.clone(),
            host_id: self.host_id.clone(),
            prize: self.prize.clone(),
            winners: self.winners,
            required_role: clone_opt_string(&self.required_role),
            ends_at: self.ends_at,
            ended: self.ended,
            winner_ids: clone_strings(&self.winner_ids),
            participants: clone_strings(&self.participants),
            created_at: self.created_at,
        }
    }
}

impl TempPunishment {
    /// A copy equal to this punishment.
    pub fn duplicate(&self) -> (p: TempPunishment)
        ensures
            p == *self,
    {
        TempPunishment {
            id: self.id,
            guild_id: self.guild_id.clone(),
            user_id: self.user_id.clone(),
            punishment_type: self.punishment_type,
            expires_at: self.expires_at,
            created_at: self.created_at,
        }
    }
}

impl Reminder {
    /// A copy equal to this reminder.
    pub fn duplicate(&self) -> (r: Reminder)
        ensures
            r == *self,
    {
        Reminder {
            id: self.id,
            user_id: self.user_id.clone(),
            guild_id: self.guild_id.clone(),
            channel_id: self.channel_id.clone(),
            message: self.message.clone(),
            remind_at: self.remind_at,
            created_at: self.created_at,
        }
    }
}

impl Session {
    /// A copy equal to this session.
    pub fn duplicate(&self) -> (s: Session)
        ensures
            s == *self,
    {
        Session {
            id: self.id.clone(),
            user_id: self.user_id.clone(),
            access_token: self.access_token.clone(),
            username: self.username.clone(),
            avatar: clone_opt_string(&self.avatar),
            expires_at: self.expires_at,
            created_at: self.created_at,
        }
    }

    /// The identity this session stands for.
    pub fn identity(&self) -> (u: AuthUser)
        ensures
            u.id == self.user_id,
            u.username == self.username,
            u.avatar == self.avatar,
            u.access_token == self.access_token,
    {
        AuthUser {
            id: self.user_id.clone(),
            username: self.username.clone(),
            avatar: clone_opt_string(&self.avatar),
            access_token: self.access_token.clone(),
        }
    }
}

impl User {
    /// A copy equal to this user row.
    pub fn duplicate(&self) -> (u: User)
        ensures
            u == *self,
    {
        User {
            id: self.id.clone(),
            xp: self.xp,
            level: self.level,
            balance: self.balance,
            last_daily: self.last_daily,
            visible_xp: self.visible_xp,
            created_at: self.created_at,
            updated_at: self.updated_at,
        }
    }
}

} // verus!
