use betsphere::demo::llm::{
    first_accepted, first_nonblank_line_of, is_modifier, line_prompt, reaction_candidates, reaction_prompt,
    reply_prompt, shorten, strip_speaker, strip_thinking, tidy_line, MAX_CHARS,
};

#[test]
fn unwraps_a_quoted_line() {
    assert_eq!(
        tidy_line("  \"yes at 62% is free money\"  ", "hedge_hana").as_deref(),
        Some("yes at 62% is free money"),
    );
}

#[test]
fn keeps_only_what_a_reasoning_model_said_after_thinking() {
    let raw = "<think>the user wants a chat line about the market</think>\nno way yes stays this cheap";
    assert_eq!(
        tidy_line(raw, "hedge_hana").as_deref(),
        Some("no way yes stays this cheap"),
    );
}

#[test]
fn drops_the_speakers_own_name_but_keeps_other_colons() {
    assert_eq!(
        tidy_line("hedge_hana: loading up on yes", "hedge_hana").as_deref(),
        Some("loading up on yes"),
    );
    assert_eq!(
        tidy_line("HEDGE_HANA : loading up on yes", "hedge_hana").as_deref(),
        Some("loading up on yes"),
    );
    assert_eq!(
        tidy_line("my read: yes is mispriced", "hedge_hana").as_deref(),
        Some("my read: yes is mispriced"),
    );
}

#[test]
fn takes_the_first_line_of_an_essay_and_cuts_it_to_a_word() {
    let raw = format!("{} and then some more\nsecond paragraph", "word ".repeat(60));
    let line = tidy_line(&raw, "hedge_hana").unwrap();

    assert!(line.chars().count() <= MAX_CHARS);
    assert!(line.ends_with("word"), "cut mid-word: {line:?}");
    assert!(!line.contains("second paragraph"));
    assert_eq!(line, "word ".repeat(36).trim_end());
}

#[test]
fn nothing_postable_is_nothing() {
    assert_eq!(tidy_line("", "hedge_hana"), None);
    assert_eq!(tidy_line("   \n  \n", "hedge_hana"), None);
    assert_eq!(tidy_line("\"\"", "hedge_hana"), None);
}

#[test]
fn strip_thinking_keeps_what_follows_the_last_tag() {
    assert_eq!(strip_thinking("a</think>b</think>c"), "c");
    assert_eq!(strip_thinking("no tags here"), "no tags here");
    assert_eq!(strip_thinking("</think>"), "");
}

#[test]
fn strip_speaker_only_drops_the_bots_own_name() {
    assert_eq!(strip_speaker("long_leo: buy", "long_leo"), "buy");
    assert_eq!(strip_speaker("short_sasha: sell", "long_leo"), "short_sasha: sell");
    assert_eq!(strip_speaker("no colon", "long_leo"), "no colon");
}

#[test]
fn shorten_leaves_short_lines_alone_and_cuts_long_ones_at_a_space() {
    assert_eq!(shorten("short"), "short");
    let long = format!("{}, tail", "a".repeat(178));
    // 178 a's, then ", tail": the cut at 180 keeps "aaa…," up to the space
    // and drops the dangling comma.
    assert_eq!(shorten(&long), "a".repeat(178));
    let unbroken = "x".repeat(200);
    assert_eq!(shorten(&unbroken), "x".repeat(180));
}

#[test]
fn first_nonblank_line_skips_blank_lines() {
    assert_eq!(first_nonblank_line_of("\n  \r\n  hi there \nnext"), Some("hi there"));
    assert_eq!(first_nonblank_line_of(" \n\t"), None);
}

#[test]
fn reaction_candidates_try_the_whole_answer_first() {
    assert_eq!(reaction_candidates("🔥"), vec!["🔥", "🔥"]);
    assert_eq!(reaction_candidates("  👍🏽 "), vec!["👍🏽", "👍", "🏽"]);
    assert_eq!(reaction_candidates("1️⃣"), vec!["1️⃣", "1"]);
    let chatty = reaction_candidates("Sure! 😂");
    assert_eq!(chatty[0], "Sure! 😂");
    assert!(chatty.contains(&"😂".to_string()));
}

#[test]
fn reaction_candidates_of_bare_marks_are_none() {
    assert!(reaction_candidates("\u{fe0f}\u{20e3}").is_empty());
    assert!(reaction_candidates("").is_empty());
}

#[test]
fn modifiers_are_recognised() {
    assert!(is_modifier('\u{200D}'));
    assert!(is_modifier('\u{FE0F}'));
    assert!(is_modifier('\u{20E3}'));
    assert!(is_modifier('\u{E0041}'));
    assert!(!is_modifier('a'));
    assert!(!is_modifier('🔥'));
}

#[test]
fn prompts_are_worded_as_asked() {
    assert_eq!(line_prompt("B"), "B\nWrite your next message.");
    assert_eq!(
        reply_prompt("B", "alice", "hi"),
        "B\nalice just said: \"hi\"\nWrite your reply to them."
    );
    assert_eq!(
        reaction_prompt("nice"),
        "In the chat of a betting site, someone wrote: \"nice\"\nReact."
    );
}

#[test]
fn the_reaction_is_the_first_candidate_the_domain_accepts() {
    let candidates = reaction_candidates("Sure! 😂");
    let accepted: Vec<bool> = candidates.iter().map(|c| c == "😂").collect();
    assert_eq!(first_accepted(candidates, &accepted).as_deref(), Some("😂"));

    let whole = reaction_candidates(" 👍🏽 ");
    assert_eq!(first_accepted(whole.clone(), &[true, true, true]).as_deref(), Some("👍🏽"));
    assert_eq!(first_accepted(whole.clone(), &[false, false, true]).as_deref(), Some("🏽"));
    assert_eq!(first_accepted(whole, &[false, false, false]), None);
    assert_eq!(first_accepted(Vec::new(), &[]), None);
}
