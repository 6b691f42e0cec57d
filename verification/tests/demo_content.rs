use std::collections::HashSet;

use betsphere::demo::cast::{BOT_NAMES, HOST_NAME};
use betsphere::demo::content::{market_templates, GLOBAL_LINES, MARKET_LINES, REACTIONS, REPLY_LINES};
use betsphere::demo::llm::{persona, temperament, TEMPERAMENTS};

fn names() -> impl Iterator<Item = &'static str> {
    std::iter::once(HOST_NAME).chain(BOT_NAMES.iter().copied())
}

#[test]
fn names_are_distinct() {
    let unique: HashSet<&str> = names().collect();
    assert_eq!(unique.len(), names().count());
}

#[test]
fn template_titles_are_distinct() {
    let templates = market_templates();
    let titles: HashSet<&str> = templates.iter().map(|t| t.title).collect();
    assert_eq!(titles.len(), templates.len());
}

#[test]
fn market_lines_carry_a_placeholder() {
    for line in MARKET_LINES {
        assert!(
            ["{outcome}", "{price}", "{title}"]
                .iter()
                .any(|slot| line.contains(slot)),
            "no placeholder in {line:?}",
        );
    }
}

#[test]
fn every_bot_in_the_cast_has_its_own_temperament() {
    for name in names() {
        assert!(
            TEMPERAMENTS.iter().any(|(bot, _)| *bot == name),
            "no temperament for {name:?}",
        );
    }
}

#[test]
fn a_name_off_the_list_still_gets_a_voice() {
    let borrowed = temperament("newcomer_nina");

    assert!(TEMPERAMENTS.iter().any(|(_, t)| *t == borrowed));
    assert_eq!(borrowed, temperament("newcomer_nina"));
}

#[test]
fn two_bots_are_told_to_be_two_different_people() {
    let leo = persona("long_leo");
    let sasha = persona("short_sasha");

    assert!(leo.contains("long_leo"));
    assert_ne!(leo, sasha);
    assert!(leo.contains(temperament("long_leo")));
}

#[test]
fn every_template_has_two_outcomes_and_a_future_deadline() {
    for template in market_templates() {
        assert!(template.outcomes.len() >= 2, "{:?}", template.title);
        assert!(template.open_for_hours > 0, "{:?}", template.title);
    }
}

#[test]
fn pools_are_not_empty() {
    assert!(!GLOBAL_LINES.is_empty());
    assert!(!REPLY_LINES.is_empty());
    assert!(!REACTIONS.is_empty());
    assert_eq!(MARKET_LINES.len(), 15);
}

#[test]
fn temperament_matches_a_name_without_case() {
    assert_eq!(temperament("LONG_LEO"), temperament("long_leo"));
    assert_eq!(
        temperament("long_leo"),
        "You are long everything forever, you buy every dip, and you think bears are just slow."
    );
}

#[test]
fn a_borrowed_temperament_goes_by_the_byte_sum() {
    let seed: usize = "newcomer_nina".bytes().map(usize::from).sum();
    assert_eq!(temperament("newcomer_nina"), TEMPERAMENTS[seed % TEMPERAMENTS.len()].1);
}

#[test]
fn persona_states_the_rules() {
    let p = persona("hedge_hana");
    assert!(p.starts_with("You are hedge_hana, a regular in the chat"));
    assert!(p.contains("\nWrite ONE short chat message"));
    assert!(p.ends_with("no explanation of yourself."));
}
