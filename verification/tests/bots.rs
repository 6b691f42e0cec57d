use rand::rngs::StdRng;
use rand::SeedableRng;

use betsphere::actor::Actor;
use betsphere::demo::bettor::{
    favourite, pick_outcome, stake, stake_of_steps, top_up_credit, tradable, MAX_STAKE,
    MIN_STAKE, STAKE_STEP,
};
use betsphere::demo::cast::{
    account_action, bot_email, cast_names, cast_role, AccountAction, Bot, Cast, BOT_NAMES,
    EMAIL_DOMAIN, HOST_NAME,
};
use betsphere::demo::chatter::{fill_market_line, open_rooms, pick, replace_all, someone_else};
use betsphere::demo::config::{DemoConfig, DEFAULT_MODEL, DEFAULT_TIMEOUT_SECS};
use betsphere::demo::content::{market_templates, MarketTemplate, GLOBAL_LINES};
use betsphere::demo::llm::{line_prompt, Scene};
use betsphere::demo::market_maker::{
    available_templates, closing_time, expired, new_market_for, opened_announcement, pick_winner,
    resolved_announcement,
};
use betsphere::demo::random::winner_weight;
use betsphere::model::{
    ChatChannel, ChatMessage, Market, MarketId, MessageId, Outcome, OutcomeId, Role, Timestamp,
    User, UserId,
};
use betsphere::use_cases::chat::ChatMessageView;
use betsphere::use_cases::market::MarketView;

fn outcome(id: u128, label: &str, price: u32) -> Outcome {
    Outcome {
        id: OutcomeId(id),
        market_id: MarketId(1),
        label: label.to_string(),
        price,
        thumbnail_url: None,
    }
}

fn view(id: u128, title: &str, outcomes: usize) -> MarketView {
    MarketView {
        market: Market { id: MarketId(id), title: title.to_string(), thumbnail_url: None },
        outcomes: (0..outcomes).map(|i| outcome(i as u128, "x", 5_000)).collect(),
    }
}

fn said(id: u128, author: u128, name: &str, body: &str) -> ChatMessageView {
    ChatMessageView {
        message: ChatMessage {
            id: MessageId(id),
            author_id: UserId(author),
            channel: ChatChannel::Global,
            body: body.to_string(),
            reply_to: None,
            created_at: Timestamp { secs: 0, nanos: 0 },
        },
        author: User {
            id: UserId(author),
            username: name.to_string(),
            email: String::new(),
            role: Role::User,
            balance: 0,
            avatar_url: None,
        },
        reply_to: None,
        reactions: Vec::new(),
    }
}

fn bot(name: &'static str, id: u128, role: Role) -> Bot {
    Bot { name, actor: Actor { user_id: UserId(id), role } }
}

#[test]
fn the_cast_is_the_host_then_as_many_names_as_asked() {
    assert_eq!(cast_names(0), vec![HOST_NAME]);
    assert_eq!(cast_names(1), vec![HOST_NAME]);
    assert_eq!(cast_names(3), vec![HOST_NAME, "hedge_hana", "long_leo"]);
    let all = cast_names(100);
    assert_eq!(all.len(), 1 + BOT_NAMES.len());
    assert_eq!(&all[1..], &BOT_NAMES[..]);
    assert_eq!(cast_role(HOST_NAME), Role::Admin);
    assert_eq!(cast_role("hedge_hana"), Role::User);
    assert_eq!(bot_email("hedge_hana"), format!("hedge_hana@{EMAIL_DOMAIN}"));
    assert_eq!(bot_email("the_oracle"), "the_oracle@bots.betsphere.invalid");
}

#[test]
fn provisioning_resumes_accounts_and_fixes_roles() {
    assert_eq!(account_action(None, Role::User), AccountAction::Create);
    assert_eq!(account_action(Some(Role::User), Role::User), AccountAction::Keep);
    assert_eq!(account_action(Some(Role::User), Role::Admin), AccountAction::FixRole);
    assert_eq!(account_action(Some(Role::Admin), Role::User), AccountAction::FixRole);
}

#[test]
fn anyone_comes_from_the_cast_or_is_the_host() {
    let host = bot(HOST_NAME, 1, Role::Admin);
    let mut rng = StdRng::seed_from_u64(7);
    let empty = Cast { host, bots: Vec::new() };
    assert_eq!(empty.anyone(&mut rng).name, HOST_NAME);
    assert_eq!(empty.host().actor.role, Role::Admin);
    let cast = Cast { host, bots: vec![host, bot("hedge_hana", 2, Role::User)] };
    assert_eq!(cast.len(), 2);
    for _ in 0..50 {
        let b = cast.anyone(&mut rng);
        assert!(b.name == HOST_NAME || b.name == "hedge_hana");
    }
}

#[test]
fn stakes_are_whole_steps_within_the_range() {
    assert_eq!(stake_of_steps(2), 50);
    assert_eq!(stake_of_steps(36), 900);
    let mut rng = StdRng::seed_from_u64(42);
    for _ in 0..500 {
        let s = stake(&mut rng);
        assert!((MIN_STAKE..=MAX_STAKE).contains(&s));
        assert_eq!(s % STAKE_STEP, 0);
    }
}

#[test]
fn the_favourite_is_the_last_of_the_dearest() {
    let outcomes = vec![outcome(1, "a", 4_000), outcome(2, "b", 4_000), outcome(3, "c", 2_000)];
    assert_eq!(favourite(&outcomes), 1);
    let mut rng = StdRng::seed_from_u64(3);
    assert_eq!(pick_outcome(&outcomes, true, &mut rng).id, OutcomeId(2));
    for _ in 0..30 {
        let o = pick_outcome(&outcomes, false, &mut rng);
        assert!(outcomes.iter().any(|x| x.id == o.id));
    }
}

#[test]
fn a_short_balance_is_topped_up_to_the_larger_of_start_and_stake() {
    assert_eq!(top_up_credit(500, 400, 10_000), None);
    assert_eq!(top_up_credit(400, 400, 10_000), None);
    assert_eq!(top_up_credit(100, 400, 10_000), Some(9_900));
    assert_eq!(top_up_credit(100, 20_000, 10_000), Some(19_900));
}

#[test]
fn markets_are_sorted_into_tradable_open_and_expired() {
    let views = vec![view(1, "a", 2), view(2, "b", 1), view(3, "c", 2), view(4, "d", 0)];
    let accepting = vec![true, true, false, false];
    assert_eq!(tradable(&views, &accepting), vec![0]);
    assert_eq!(open_rooms(&views, &accepting), vec![0, 1]);
    assert_eq!(expired(&views, &accepting), vec![2]);
}

#[test]
fn the_maker_opens_only_questions_not_already_live() {
    let templates = market_templates();
    let live = vec![templates[0].title.to_string(), "something else".to_string()];
    let free = available_templates(&templates, &live);
    assert_eq!(free.len(), templates.len() - 1);
    assert!(!free.contains(&0));
    assert_eq!(available_templates(&templates, &Vec::new()).len(), templates.len());
}

#[test]
fn a_template_opens_its_own_market() {
    let t = MarketTemplate {
        title: "Will it snow?",
        description: "Any flake counts.",
        category: "weather",
        outcomes: vec!["Yes", "No"],
        open_for_hours: 6,
    };
    let closes = Timestamp { secs: 1_700_021_600, nanos: 0 };
    let m = new_market_for(&t, closes);
    assert_eq!(m.title, "Will it snow?");
    assert_eq!(m.description.as_deref(), Some("Any flake counts."));
    assert_eq!(m.category.as_deref(), Some("weather"));
    assert_eq!(m.closes_at, Some(closes));
    assert_eq!(m.outcomes, vec!["Yes".to_string(), "No".to_string()]);
}

#[test]
fn the_maker_announces_openings_and_settlements() {
    assert_eq!(opened_announcement("Will it snow?"), "new market open: Will it snow? \u{1F4CA}");
    assert_eq!(resolved_announcement("Yes"), "resolved: Yes \u{1F3C1} paying out now");
}

#[test]
fn a_winner_is_one_of_the_outcomes_and_weighs_at_least_a_tick() {
    assert_eq!(winner_weight(&outcome(1, "a", 0)), 1);
    assert_eq!(winner_weight(&outcome(1, "a", 6_200)), 6_200);
    let outcomes = vec![outcome(1, "a", 0), outcome(2, "b", 10_000)];
    let mut rng = StdRng::seed_from_u64(11);
    for _ in 0..30 {
        let w = pick_winner(&outcomes, &mut rng);
        assert!(w.id == OutcomeId(1) || w.id == OutcomeId(2));
    }
}

#[test]
fn market_lines_are_filled_from_the_board() {
    assert_eq!(
        fill_market_line("{outcome} at {price} on {title}? {outcome}!", "Yes", "62%", "Rain"),
        "Yes at 62% on Rain? Yes!"
    );
    assert_eq!(fill_market_line("no placeholders", "Yes", "62%", "Rain"), "no placeholders");
    assert_eq!(replace_all("aaa", "aa", "b"), "ba");
    assert_eq!(replace_all("", "x", "y"), "");
}

#[test]
fn a_bot_only_answers_someone_else() {
    let recent = vec![said(1, 7, "alice", "hi"), said(2, 9, "bot", "gm"), said(3, 7, "alice", "?")];
    assert_eq!(someone_else(&recent, UserId(9)), Some(vec![0, 2]));
    assert_eq!(someone_else(&recent, UserId(7)), Some(vec![1]));
    let own = vec![said(2, 9, "bot", "gm")];
    assert_eq!(someone_else(&own, UserId(9)), None);
    let mut rng = StdRng::seed_from_u64(5);
    assert!(GLOBAL_LINES.contains(&pick(&GLOBAL_LINES, &mut rng)));
    assert_eq!(pick(&[], &mut rng), "gm");
}

#[test]
fn the_brief_tells_where_the_bot_stands_and_the_last_six_lines() {
    let recent: Vec<ChatMessageView> =
        (0..8).map(|i| said(i, 7, "alice", &format!("line {i}"))).collect();
    let global = Scene { bot: "hedge_hana", market: None, recent: &recent[..1] };
    assert_eq!(
        global.brief("ignored"),
        "You are in the site's global chat, where every market is fair game.\n\
         Recent messages:\nalice: line 0\n"
    );
    let room = view(1, "Will it rain?", 2);
    let scene = Scene { bot: "hedge_hana", market: Some(&room), recent: &recent };
    let brief = scene.brief("Yes 62%, No 38%");
    assert!(brief.starts_with(
        "You are in the chat room of the market \"Will it rain?\".\nThe board: Yes 62%, No 38%.\n"
    ));
    assert!(!brief.contains("line 1\n"));
    assert!(brief.contains("alice: line 2\n"));
    assert!(brief.ends_with("alice: line 7\n"));
    let quiet = Scene { bot: "hedge_hana", market: None, recent: &[] };
    assert!(!quiet.brief("").contains("Recent messages"));
    assert_eq!(line_prompt("B"), "B\nWrite your next message.");
}

#[test]
fn the_defaults_are_a_dozen_bots_without_a_model() {
    let c = DemoConfig::default();
    assert_eq!(c.bots, 12);
    assert_eq!(c.bot_password, "demo-password");
    assert!(c.llm.is_none());
    assert_eq!(c.chat_every.as_secs(), 15);
    assert_eq!(c.bet_every.as_secs(), 25);
    assert_eq!(c.market_every.as_secs(), 300);
    assert_eq!(DEFAULT_TIMEOUT_SECS, 10);
    assert_eq!(DEFAULT_MODEL, "qwen2.5:0.5b");
}

#[test]
fn a_market_closes_its_hours_after_it_opens() {
    let opened = Timestamp { secs: 1_700_000_000, nanos: 250 };
    assert_eq!(
        closing_time(opened, 720),
        Some(Timestamp { secs: 1_700_000_000 + 720 * 3_600, nanos: 250 })
    );
    assert_eq!(closing_time(opened, 0), Some(opened));
    assert_eq!(
        closing_time(opened, -1),
        Some(Timestamp { secs: 1_700_000_000 - 3_600, nanos: 250 })
    );
    assert_eq!(closing_time(Timestamp { secs: i64::MAX - 10, nanos: 0 }, 1), None);
    assert_eq!(closing_time(opened, i64::MAX), None);
}

#[test]
fn a_cloned_config_keeps_its_settings() {
    let c = DemoConfig::default().clone();
    assert_eq!(c.bots, 12);
    assert_eq!(c.chat_every.as_secs(), 15);
    assert_eq!(c.market_every.as_secs(), 300);
}
