use guildflow::auth::base64_decode;
use guildflow::auth::encode;
use guildflow::auth::has_guild_access;
use guildflow::auth::parse_u64;
use guildflow::fanout::SubscriptionList;
use guildflow::fanout::WsCommand;
use guildflow::fanout::WsEvent;
use guildflow::giveaways::GiveawayStore;
use guildflow::leveling::add_xp;
use guildflow::leveling::calculate_level;
use guildflow::leveling::UserStore;
use guildflow::leveling::xp_for_level;
use guildflow::models::CreateGiveaway;
use guildflow::models::CreateReminder;
use guildflow::models::CreateSession;
use guildflow::models::CreateTempPunishment;
use guildflow::models::PunishmentKind;
use guildflow::models::TicketStatus;
use guildflow::models::User;
use guildflow::models::WorkflowError;
use guildflow::moderation::WarnStore;
use guildflow::models::CreateWarn;
use guildflow::scheduler::run_scheduler_tick;
use guildflow::scheduler::PunishmentStore;
use guildflow::scheduler::ReminderStore;
use guildflow::sessions::SessionStore;

fn session_data(token: &str, user: &str, expires_at: i64) -> CreateSession {
    CreateSession {
        id: token.to_string(),
        user_id: user.to_string(),
        access_token: "tok".to_string(),
        username: format!("name-{user}"),
        avatar: None,
        expires_at,
    }
}

#[test]
fn resolve_valid_session_returns_identity() {
    let mut store = SessionStore::new();
    store.create(session_data("s1", "u1", 100), 1).unwrap();
    let hit = store.resolve(&"s1".to_string(), 99).expect("valid session");
    assert_eq!(hit.id, "u1");
    assert_eq!(hit.username, "name-u1");
    assert_eq!(hit.access_token, "tok");
}

#[test]
fn expired_session_resolves_like_missing_and_is_purged() {
    let mut store = SessionStore::new();
    store.create(session_data("s1", "u1", 100), 1).unwrap();
    let expired = store.resolve(&"s1".to_string(), 100);
    let never_existed = store.resolve(&"zzz".to_string(), 100);
    assert!(expired.is_none());
    assert!(never_existed.is_none());
    assert_eq!(store.sessions.len(), 0);
}

#[test]
fn duplicate_token_is_refused() {
    let mut store = SessionStore::new();
    store.create(session_data("s1", "u1", 100), 1).unwrap();
    let dup = store.create(session_data("s1", "u2", 200), 2);
    assert!(matches!(dup, Err(WorkflowError::Validation)));
    assert_eq!(store.sessions.len(), 1);
}

#[test]
fn minted_sessions_carry_identity_and_ttl() {
    let mut store = SessionStore::new();
    let s = store
        .mint_session(
            "u1".to_string(),
            "name".to_string(),
            None,
            "tok".to_string(),
            1_000,
            604_800,
        )
        .expect("fresh token");
    assert_eq!(s.user_id, "u1");
    assert_eq!(s.expires_at, 605_800);
    assert!(!s.id.is_empty());
    let hit = store.resolve(&s.id, 605_799).expect("still valid");
    assert_eq!(hit.id, "u1");
    assert!(store.resolve(&s.id, 605_800).is_none());
}

#[test]
fn revoke_is_unconditional() {
    let mut store = SessionStore::new();
    store.create(session_data("s1", "u1", 100), 1).unwrap();
    store.revoke(&"absent".to_string());
    assert_eq!(store.sessions.len(), 1);
    store.revoke(&"s1".to_string());
    assert_eq!(store.sessions.len(), 0);
}

#[test]
fn tick_deletes_expired_punishments_only() {
    let mut punishments = PunishmentStore::new();
    punishments.add_temp_punishment(
        CreateTempPunishment {
            guild_id: "g1".to_string(),
            user_id: "u1".to_string(),
            punishment_type: PunishmentKind::Ban,
            expires_at: 50,
        },
        1,
    );
    punishments.add_temp_punishment(
        CreateTempPunishment {
            guild_id: "g1".to_string(),
            user_id: "u2".to_string(),
            punishment_type: PunishmentKind::Mute,
            expires_at: 500,
        },
        1,
    );
    let mut giveaways = GiveawayStore::new();
    let mut reminders = ReminderStore::new();
    let report = run_scheduler_tick(&mut punishments, &mut giveaways, &mut reminders, 100, 7);
    assert_eq!(report.expired_punishments.len(), 1);
    assert_eq!(report.expired_punishments[0].user_id, "u1");
    assert_eq!(punishments.punishments.len(), 1);
    assert_eq!(punishments.punishments[0].user_id, "u2");
    let again = run_scheduler_tick(&mut punishments, &mut giveaways, &mut reminders, 101, 8);
    assert!(again.expired_punishments.is_empty());
}

#[test]
fn tick_ends_due_giveaways_and_removes_due_reminders() {
    let mut punishments = PunishmentStore::new();
    let mut giveaways = GiveawayStore::new();
    let due = giveaways
        .create(
            CreateGiveaway {
                guild_id: "g1".to_string(),
                channel_id: "c".to_string(),
                message_id: "m".to_string(),
                host_id: "h".to_string(),
                prize: "p".to_string(),
                winners: 1,
                required_role: None,
                ends_at: 90,
            },
            1,
        )
        .unwrap();
    giveaways.enter(due.id, &"a".to_string()).unwrap();
    giveaways.enter(due.id, &"b".to_string()).unwrap();
    let future = giveaways
        .create(
            CreateGiveaway {
                guild_id: "g1".to_string(),
                channel_id: "c".to_string(),
                message_id: "m".to_string(),
                host_id: "h".to_string(),
                prize: "p".to_string(),
                winners: 1,
                required_role: None,
                ends_at: 900,
            },
            2,
        )
        .unwrap();
    let mut reminders = ReminderStore::new();
    reminders.add_reminder(
        CreateReminder {
            user_id: "u1".to_string(),
            guild_id: "g1".to_string(),
            channel_id: "c".to_string(),
            message: "soon".to_string(),
            remind_at: 99,
        },
        1,
    );
    reminders.add_reminder(
        CreateReminder {
            user_id: "u2".to_string(),
            guild_id: "g1".to_string(),
            channel_id: "c".to_string(),
            message: "later".to_string(),
            remind_at: 1_000,
        },
        1,
    );
    let report = run_scheduler_tick(&mut punishments, &mut giveaways, &mut reminders, 100, 42);
    assert_eq!(report.due_giveaways.len(), 1);
    assert_eq!(report.due_giveaways[0].id, due.id);
    let ended = giveaways.get(due.id).unwrap();
    assert!(ended.ended);
    assert_eq!(ended.winner_ids.len(), 1);
    assert_eq!(ended.participants.len(), 2);
    let untouched = giveaways.get(future.id).unwrap();
    assert!(!untouched.ended);
    assert_eq!(report.due_reminders.len(), 1);
    assert_eq!(report.due_reminders[0].message, "soon");
    assert_eq!(reminders.reminders.len(), 1);
    assert_eq!(reminders.reminders[0].message, "later");
}

#[test]
fn subscribed_connection_receives_only_its_guilds() {
    let mut conn = SubscriptionList::new();
    conn.apply_command(WsCommand::Subscribe { guild_id: "g1".to_string() });
    let for_g1 = WsEvent::TicketUpdate {
        guild_id: "g1".to_string(),
        ticket_id: 7,
        status: TicketStatus::Open,
    };
    let for_g2 = WsEvent::TicketUpdate {
        guild_id: "g2".to_string(),
        ticket_id: 8,
        status: TicketStatus::Closed,
    };
    assert!(conn.should_forward(&for_g1));
    assert!(!conn.should_forward(&for_g2));
    conn.apply_command(WsCommand::Subscribe { guild_id: "g1".to_string() });
    assert_eq!(conn.guilds.len(), 1);
    conn.apply_command(WsCommand::Unsubscribe { guild_id: "g1".to_string() });
    assert!(!conn.should_forward(&for_g1));
}

#[test]
fn stats_and_log_events_filter_by_guild_too() {
    let mut conn = SubscriptionList::new();
    conn.subscribe("g9".to_string());
    let stats = WsEvent::Stats { guild_id: "g9".to_string(), data: "{}".to_string() };
    let log = WsEvent::DashboardLog {
        guild_id: "g8".to_string(),
        action: "ban".to_string(),
        user_id: "u".to_string(),
        details: "d".to_string(),
    };
    assert!(conn.should_forward(&stats));
    assert!(!conn.should_forward(&log));
}

#[test]
fn level_curve_exact_values() {
    assert_eq!(xp_for_level(1), 155);
    assert_eq!(xp_for_level(2), 220);
    assert_eq!(calculate_level(0), 0);
    assert_eq!(calculate_level(154), 0);
    assert_eq!(calculate_level(155), 1);
    assert_eq!(calculate_level(374), 1);
    assert_eq!(calculate_level(375), 2);
    assert_eq!(calculate_level(-5), 0);
}

#[test]
fn add_xp_respects_cooldown_and_range() {
    let user = User {
        id: "u1".to_string(),
        xp: 100,
        level: 0,
        balance: 0,
        last_daily: None,
        visible_xp: true,
        created_at: 0,
        updated_at: 50,
    };
    let cooled = add_xp(&user, 60, 60, 15, 25, 7);
    assert_eq!(cooled.xp_gained, 0);
    assert!(!cooled.leveled_up);
    assert_eq!(cooled.user.xp, 100);
    let granted = add_xp(&user, 120, 60, 15, 25, 7);
    assert!(granted.xp_gained >= 15 && granted.xp_gained <= 25);
    assert_eq!(granted.user.xp, 100 + granted.xp_gained);
    assert_eq!(granted.user.updated_at, 120);
    let fixed = add_xp(&user, 120, 60, 60, 10, 7);
    assert_eq!(fixed.xp_gained, 60);
    assert_eq!(fixed.user.xp, 160);
    assert!(fixed.leveled_up);
    assert_eq!(fixed.user.level, 1);
}

#[test]
fn guild_access_needs_admin_or_manage_bit() {
    assert!(has_guild_access("8"));
    assert!(has_guild_access("32"));
    assert!(has_guild_access("40"));
    assert!(has_guild_access("2147483647"));
    assert!(!has_guild_access("4"));
    assert!(!has_guild_access("0"));
    assert!(!has_guild_access(""));
    assert!(!has_guild_access("12a"));
    assert!(!has_guild_access("99999999999999999999999999"));
}

#[test]
fn parse_u64_exact_bounds() {
    assert_eq!(parse_u64("0"), Some(0));
    assert_eq!(parse_u64("18446744073709551615"), Some(u64::MAX));
    assert_eq!(parse_u64("18446744073709551616"), None);
    assert_eq!(parse_u64("-3"), None);
    assert_eq!(parse_u64(""), None);
}

#[test]
fn percent_encoding_escapes_reserved_bytes() {
    assert_eq!(encode("AZaz09-_.~"), "AZaz09-_.~");
    assert_eq!(encode("a b&c"), "a%20b%26c");
    assert_eq!(encode("100%"), "100%25");
    assert_eq!(encode("é"), "%C3%A9");
}

#[test]
fn base64_decode_round_trips_known_values() {
    assert_eq!(base64_decode("aGVsbG8=").unwrap(), "hello");
    assert_eq!(base64_decode("aGVsbG8").unwrap(), "hello");
    assert_eq!(base64_decode("eyJyZWRpcmVjdCI6Ii8ifQ==").unwrap(), "{\"redirect\":\"/\"}");
    assert_eq!(base64_decode("").unwrap(), "");
    assert!(base64_decode("a*b").is_err());
    assert!(base64_decode("/w==").is_err());
}

fn warn_data(guild: &str, user: &str, reason: &str) -> CreateWarn {
    CreateWarn {
        target_user_id: user.to_string(),
        moderator_id: "mod".to_string(),
        reason: reason.to_string(),
        guild_id: guild.to_string(),
    }
}

#[test]
fn warns_are_scoped_counted_and_clearable() {
    let mut store = WarnStore::new();
    let w1 = store.add_warn(warn_data("g1", "u1", "spam"), 1);
    store.add_warn(warn_data("g1", "u1", "links"), 2);
    store.add_warn(warn_data("g1", "u2", "caps"), 3);
    store.add_warn(warn_data("g2", "u1", "other guild"), 4);
    let listed = store.get_warns(&"g1".to_string(), &"u1".to_string());
    assert_eq!(listed.len(), 2);
    assert_eq!(listed[0].reason, "spam");
    assert_eq!(listed[1].reason, "links");
    assert_eq!(store.get_warn_count(&"g1".to_string(), &"u1".to_string()), 2);
    assert_eq!(store.get_warn_count(&"g2".to_string(), &"u1".to_string()), 1);
    let wrong_guild = store.delete_warn(&"g2".to_string(), w1.id);
    assert!(matches!(wrong_guild, Err(WorkflowError::NotFound)));
    store.delete_warn(&"g1".to_string(), w1.id).unwrap();
    assert_eq!(store.get_warn_count(&"g1".to_string(), &"u1".to_string()), 1);
    let cleared = store.clear_warns(&"g1".to_string(), &"u1".to_string());
    assert_eq!(cleared, 1);
    assert_eq!(store.get_warn_count(&"g1".to_string(), &"u1".to_string()), 0);
    assert_eq!(store.get_warn_count(&"g1".to_string(), &"u2".to_string()), 1);
    assert_eq!(store.get_warn_count(&"g2".to_string(), &"u1".to_string()), 1);
    let cleared_none = store.clear_warns(&"g1".to_string(), &"u9".to_string());
    assert_eq!(cleared_none, 0);
}

#[test]
fn user_rows_are_created_once_and_granted_xp() {
    let mut store = UserStore::new();
    let fresh = store.get_or_create_user(&"u1".to_string(), 10);
    assert_eq!(fresh.xp, 0);
    assert_eq!(fresh.level, 0);
    assert_eq!(fresh.created_at, 10);
    let same = store.get_or_create_user(&"u1".to_string(), 20);
    assert_eq!(same.created_at, 10);
    assert_eq!(store.users.len(), 1);
    assert!(store.get_user(&"u2".to_string()).is_none());

    let granted = store.grant_xp(&"u1".to_string(), 100, 30, 200, 200, 5).unwrap();
    assert_eq!(granted.xp_gained, 200);
    assert_eq!(granted.user.xp, 200);
    assert_eq!(granted.user.level, 1);
    assert!(granted.leveled_up);
    let row = store.get_user(&"u1".to_string()).unwrap();
    assert_eq!(row.xp, 200);
    assert_eq!(row.level, 1);

    let cooled = store.grant_xp(&"u1".to_string(), 110, 30, 200, 200, 5).unwrap();
    assert_eq!(cooled.xp_gained, 0);
    assert_eq!(store.get_user(&"u1".to_string()).unwrap().xp, 200);

    let bad = store.grant_xp(&"u1".to_string(), 200, 30, -1, 5, 5);
    assert!(matches!(bad, Err(WorkflowError::Validation)));
}
