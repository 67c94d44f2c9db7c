use guildflow::giveaways::GiveawayStore;
use guildflow::models::CreateGiveaway;
use guildflow::models::EnterOutcome;
use guildflow::models::Priority;
use guildflow::models::TicketStatus;
use guildflow::models::WorkflowError;
use guildflow::models::CreateTicketBlacklist;
use guildflow::models::CreateTicketCategory;
use guildflow::models::CreateSuggestion;
use guildflow::models::SuggestionStatus;
use guildflow::sampler::pick_winners;
use guildflow::suggestions::SuggestionStore;
use guildflow::tickets::BlacklistStore;
use guildflow::tickets::CategoryStore;
use guildflow::tickets::TicketStore;

fn giveaway_data(guild: &str, winners: i64, ends_at: i64) -> CreateGiveaway {
    CreateGiveaway {
        guild_id: guild.to_string(),
        channel_id: "c1".to_string(),
        message_id: "m1".to_string(),
        host_id: "h1".to_string(),
        prize: "prize".to_string(),
        winners,
        required_role: None,
        ends_at,
    }
}

#[test]
fn ticket_numbers_are_sequential_and_unique_per_guild() {
    let mut store = TicketStore::new();
    let mut numbers = Vec::new();
    for i in 0..5 {
        let t = store.create_ticket(
            "g1".to_string(),
            format!("c{i}"),
            format!("u{i}"),
            None,
            None,
            100 + i,
        );
        numbers.push(t.number);
    }
    assert_eq!(numbers, vec![1, 2, 3, 4, 5]);
    let other = store.create_ticket(
        "g2".to_string(),
        "c9".to_string(),
        "u9".to_string(),
        None,
        None,
        200,
    );
    assert_eq!(other.number, 1);
    let next = store.create_ticket(
        "g1".to_string(),
        "c6".to_string(),
        "u6".to_string(),
        None,
        None,
        300,
    );
    assert_eq!(next.number, 6);
}

#[test]
fn claim_is_exactly_once() {
    let mut store = TicketStore::new();
    let t = store.create_ticket(
        "g1".to_string(),
        "c1".to_string(),
        "u1".to_string(),
        None,
        None,
        10,
    );
    let first = store.claim_ticket(t.id, &"staff_a".to_string(), 11);
    assert!(first.is_ok());
    assert_eq!(first.unwrap().claimed_by.as_deref(), Some("staff_a"));
    let second = store.claim_ticket(t.id, &"staff_b".to_string(), 12);
    match second {
        Err(WorkflowError::AlreadyClaimed { claimed_by }) => assert_eq!(claimed_by, "staff_a"),
        other => panic!("expected AlreadyClaimed, got {other:?}"),
    }
}

#[test]
fn claim_missing_ticket_is_not_found() {
    let mut store = TicketStore::new();
    let r = store.claim_ticket(42, &"staff".to_string(), 1);
    assert!(matches!(r, Err(WorkflowError::NotFound)));
}

#[test]
fn close_is_exactly_once() {
    let mut store = TicketStore::new();
    let t = store.create_ticket(
        "g1".to_string(),
        "c1".to_string(),
        "u1".to_string(),
        None,
        None,
        10,
    );
    let closed = store.close_ticket(t.id, &"staff".to_string(), 20).unwrap();
    assert!(matches!(closed.status, TicketStatus::Closed));
    assert_eq!(closed.closed_by.as_deref(), Some("staff"));
    assert_eq!(closed.closed_at, Some(20));
    let again = store.close_ticket(t.id, &"staff".to_string(), 21);
    assert!(matches!(again, Err(WorkflowError::AlreadyClosed)));
    let missing = store.close_ticket(777, &"staff".to_string(), 21);
    assert!(matches!(missing, Err(WorkflowError::NotFound)));
}

#[test]
fn priority_is_validated() {
    let mut store = TicketStore::new();
    let t = store.create_ticket(
        "g1".to_string(),
        "c1".to_string(),
        "u1".to_string(),
        None,
        None,
        10,
    );
    let updated = store.update_priority(t.id, &"urgent".to_string(), 11).unwrap();
    assert!(matches!(updated.priority, Priority::Urgent));
    let bad = store.update_priority(t.id, &"extreme".to_string(), 12);
    assert!(matches!(bad, Err(WorkflowError::Validation)));
    let after = store.get_ticket(t.id).unwrap();
    assert!(matches!(after.priority, Priority::Urgent));
}

#[test]
fn list_tickets_filters_and_pages() {
    let mut store = TicketStore::new();
    for i in 0..4 {
        store.create_ticket(
            "g1".to_string(),
            format!("c{i}"),
            "u".to_string(),
            None,
            None,
            i,
        );
    }
    store.create_ticket("g2".to_string(), "cx".to_string(), "u".to_string(), None, None, 9);
    let t1 = store.list_tickets(&"g1".to_string(), None, 10, 0);
    assert_eq!(t1.len(), 4);
    let closed_id = t1[1].id;
    store.close_ticket(closed_id, &"s".to_string(), 50).unwrap();
    let open_only = store.list_tickets(&"g1".to_string(), Some(TicketStatus::Open), 10, 0);
    assert_eq!(open_only.len(), 3);
    let page = store.list_tickets(&"g1".to_string(), None, 2, 1);
    assert_eq!(page.len(), 2);
    assert_eq!(page[0].number, 2);
    assert_eq!(page[1].number, 3);
    let off_end = store.list_tickets(&"g1".to_string(), None, 2, 10);
    assert_eq!(off_end.len(), 0);
}

#[test]
fn enter_is_idempotent() {
    let mut store = GiveawayStore::new();
    let g = store.create(giveaway_data("g1", 1, 100), 1).unwrap();
    let first = store.enter(g.id, &"u1".to_string()).unwrap();
    assert_eq!(first, EnterOutcome::Entered);
    let second = store.enter(g.id, &"u1".to_string()).unwrap();
    assert_eq!(second, EnterOutcome::AlreadyEntered);
    let after = store.get(g.id).unwrap();
    assert_eq!(after.participants, vec!["u1".to_string()]);
}

#[test]
fn end_draws_winners_and_is_exactly_once() {
    let mut store = GiveawayStore::new();
    let g = store.create(giveaway_data("g1", 2, 100), 1).unwrap();
    for user in ["a", "b", "c"] {
        store.enter(g.id, &user.to_string()).unwrap();
    }
    let ended = store.end_giveaway(g.id, 0xdead_beef).unwrap();
    assert!(ended.ended);
    assert_eq!(ended.winner_ids.len(), 2);
    assert_eq!(ended.participants.len(), 3);
    for w in &ended.winner_ids {
        assert!(ended.participants.contains(w));
    }
    assert_ne!(ended.winner_ids[0], ended.winner_ids[1]);
    let again = store.end_giveaway(g.id, 7);
    assert!(matches!(again, Err(WorkflowError::AlreadyEnded)));
    let late_entry = store.enter(g.id, &"d".to_string());
    assert!(matches!(late_entry, Err(WorkflowError::AlreadyEnded)));
}

#[test]
fn reroll_replaces_winners_from_same_participants() {
    let mut store = GiveawayStore::new();
    let g = store.create(giveaway_data("g1", 2, 100), 1).unwrap();
    for user in ["a", "b", "c"] {
        store.enter(g.id, &user.to_string()).unwrap();
    }
    let early = store.reroll(g.id, 1);
    assert!(matches!(early, Err(WorkflowError::NotEnded)));
    store.end_giveaway(g.id, 1).unwrap();
    let rerolled = store.reroll(g.id, 99).unwrap();
    assert_eq!(rerolled.winner_ids.len(), 2);
    assert_eq!(rerolled.participants.len(), 3);
    for w in &rerolled.winner_ids {
        assert!(rerolled.participants.contains(w));
    }
    assert_ne!(rerolled.winner_ids[0], rerolled.winner_ids[1]);
}

#[test]
fn end_with_no_participants_yields_no_winners() {
    let mut store = GiveawayStore::new();
    let g = store.create(giveaway_data("g1", 3, 100), 1).unwrap();
    let ended = store.end_giveaway(g.id, 5).unwrap();
    assert!(ended.ended);
    assert!(ended.winner_ids.is_empty());
}

#[test]
fn create_giveaway_rejects_negative_winner_count() {
    let mut store = GiveawayStore::new();
    let r = store.create(giveaway_data("g1", -1, 100), 1);
    assert!(matches!(r, Err(WorkflowError::Validation)));
}

#[test]
fn giveaway_listings_are_guild_scoped() {
    let mut store = GiveawayStore::new();
    let a = store.create(giveaway_data("g1", 1, 100), 1).unwrap();
    store.create(giveaway_data("g2", 1, 100), 2).unwrap();
    let b = store.create(giveaway_data("g1", 1, 100), 3).unwrap();
    store.end_giveaway(b.id, 9).unwrap();
    let listed = store.list(&"g1".to_string());
    assert_eq!(listed.len(), 2);
    assert_eq!(listed[0].id, a.id);
    assert_eq!(listed[1].id, b.id);
    let active = store.get_active(&"g1".to_string());
    assert_eq!(active.len(), 1);
    assert_eq!(active[0].id, a.id);
    let missing = store.get(12345);
    assert!(matches!(missing, Err(WorkflowError::NotFound)));
}

#[test]
fn sampler_returns_min_of_count_and_size_distinct_members() {
    let participants: Vec<String> = (0..10).map(|i| format!("u{i}")).collect();
    for count in [0usize, 1, 5, 10, 15] {
        let winners = pick_winners(&participants, count, 0x1234_5678);
        assert_eq!(winners.len(), count.min(participants.len()));
        for w in &winners {
            assert!(participants.contains(w));
        }
        for i in 0..winners.len() {
            for j in (i + 1)..winners.len() {
                assert_ne!(winners[i], winners[j]);
            }
        }
    }
    let empty: Vec<String> = Vec::new();
    assert!(pick_winners(&empty, 4, 1).is_empty());
}

#[test]
fn sampler_may_vary_between_seeds() {
    let participants: Vec<String> = (0..30).map(|i| format!("u{i}")).collect();
    let a = pick_winners(&participants, 5, 1);
    let mut differs = false;
    for seed in 2..20u64 {
        if pick_winners(&participants, 5, seed) != a {
            differs = true;
            break;
        }
    }
    assert!(differs);
}

#[test]
fn categories_are_guild_scoped_and_deletable() {
    let mut store = CategoryStore::new();
    store.add_category(
        CreateTicketCategory {
            guild_id: "g1".to_string(),
            name: "billing".to_string(),
            emoji: None,
            description: None,
        },
        1,
    );
    let support = store.add_category(
        CreateTicketCategory {
            guild_id: "g1".to_string(),
            name: "support".to_string(),
            emoji: Some("?".to_string()),
            description: Some("general help".to_string()),
        },
        2,
    );
    store.add_category(
        CreateTicketCategory {
            guild_id: "g2".to_string(),
            name: "other".to_string(),
            emoji: None,
            description: None,
        },
        3,
    );
    let listed = store.get_categories(&"g1".to_string());
    assert_eq!(listed.len(), 2);
    assert_eq!(listed[0].name, "billing");
    assert_eq!(listed[1].name, "support");
    let wrong_guild = store.delete_category(&"g2".to_string(), support.id);
    assert!(matches!(wrong_guild, Err(WorkflowError::NotFound)));
    store.delete_category(&"g1".to_string(), support.id).unwrap();
    assert_eq!(store.get_categories(&"g1".to_string()).len(), 1);
}

#[test]
fn blacklist_bars_once_and_lifts() {
    let mut store = BlacklistStore::new();
    assert!(store.check_blacklist(&"g1".to_string(), &"u1".to_string()).is_none());
    let entry = store.add_blacklist(
        CreateTicketBlacklist {
            guild_id: "g1".to_string(),
            user_id: "u1".to_string(),
            reason: Some("spam".to_string()),
            added_by: "mod".to_string(),
        },
        5,
    );
    let again = store.add_blacklist(
        CreateTicketBlacklist {
            guild_id: "g1".to_string(),
            user_id: "u1".to_string(),
            reason: Some("other".to_string()),
            added_by: "mod2".to_string(),
        },
        6,
    );
    assert_eq!(again.id, entry.id);
    assert_eq!(again.reason.as_deref(), Some("spam"));
    assert_eq!(store.entries.len(), 1);
    let found = store.check_blacklist(&"g1".to_string(), &"u1".to_string()).unwrap();
    assert_eq!(found.added_by, "mod");
    assert!(store.check_blacklist(&"g2".to_string(), &"u1".to_string()).is_none());
    let missing = store.remove_blacklist(&"g1".to_string(), &"u2".to_string());
    assert!(matches!(missing, Err(WorkflowError::NotFound)));
    store.remove_blacklist(&"g1".to_string(), &"u1".to_string()).unwrap();
    assert!(store.check_blacklist(&"g1".to_string(), &"u1".to_string()).is_none());
}

fn suggestion_data(guild: &str, user: &str, content: &str) -> CreateSuggestion {
    CreateSuggestion {
        guild_id: guild.to_string(),
        user_id: user.to_string(),
        message_id: "m1".to_string(),
        content: content.to_string(),
    }
}

#[test]
fn votes_are_validated_and_tallied() {
    let mut store = SuggestionStore::new();
    let s = store.create(suggestion_data("g1", "u1", "add dark mode"), 1);
    assert!(matches!(s.status, SuggestionStatus::Pending));
    assert_eq!((s.upvotes, s.downvotes), (0, 0));
    store.vote(s.id, &"up".to_string()).unwrap();
    store.vote(s.id, &"up".to_string()).unwrap();
    let after = store.vote(s.id, &"down".to_string()).unwrap();
    assert_eq!((after.upvotes, after.downvotes), (2, 1));
    let bad = store.vote(s.id, &"sideways".to_string());
    assert!(matches!(bad, Err(WorkflowError::Validation)));
    let missing = store.vote(999, &"up".to_string());
    assert!(matches!(missing, Err(WorkflowError::NotFound)));
}

#[test]
fn staff_decisions_record_who_and_why() {
    let mut store = SuggestionStore::new();
    let a = store.create(suggestion_data("g1", "u1", "first"), 1);
    let b = store.create(suggestion_data("g1", "u2", "second"), 2);
    store.create(suggestion_data("g2", "u3", "elsewhere"), 3);
    store.vote(a.id, &"up".to_string()).unwrap();
    let approved = store
        .approve(a.id, &"staff".to_string(), Some("great idea".to_string()))
        .unwrap();
    assert!(matches!(approved.status, SuggestionStatus::Approved));
    assert_eq!(approved.staff_id.as_deref(), Some("staff"));
    assert_eq!(approved.staff_reason.as_deref(), Some("great idea"));
    assert_eq!(approved.upvotes, 1);
    let rejected = store.reject(b.id, &"staff".to_string(), None).unwrap();
    assert!(matches!(rejected.status, SuggestionStatus::Rejected));
    assert!(rejected.staff_reason.is_none());
    let pending = store.list(&"g1".to_string(), Some(SuggestionStatus::Pending));
    assert!(pending.is_empty());
    let all_g1 = store.list(&"g1".to_string(), None);
    assert_eq!(all_g1.len(), 2);
    let approved_g1 = store.list(&"g1".to_string(), Some(SuggestionStatus::Approved));
    assert_eq!(approved_g1.len(), 1);
    assert_eq!(approved_g1[0].content, "first");
    assert!(matches!(store.get(12345), Err(WorkflowError::NotFound)));
}
