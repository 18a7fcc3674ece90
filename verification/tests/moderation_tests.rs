use jinxcore::antispam::AntiSpamState;
use jinxcore::chatfilter::{filter_message, filter_outcome, FilterOutcome, WordList};
use jinxcore::commands::{cooldown_remaining, estimate_ping};
use jinxcore::config::ChatFilterMode;

fn words(items: &[&str]) -> WordList {
    WordList::new(&items.iter().map(|s| s.to_string()).collect())
}

#[test]
fn filtered_word_is_replaced() {
    let list = words(&["badword"]);
    assert_eq!(
        filter_message("a badword here", &list, "****"),
        (true, "a **** here".to_string())
    );
}

#[test]
fn filter_ignores_case_on_both_sides() {
    let list = words(&["BadWord"]);
    assert_eq!(filter_message("BADWORD!", &list, "*"), (true, "*!".to_string()));
    assert_eq!(filter_message("badword", &list, "*"), (true, "*".to_string()));
}

#[test]
fn filter_matches_whole_words_only() {
    let list = words(&["bad"]);
    assert_eq!(filter_message("badge bad2 notbad", &list, "*"), (false, "badge bad2 notbad".to_string()));
    assert_eq!(filter_message("bad-bad,bad", &list, "*"), (true, "*-*,*".to_string()));
}

#[test]
fn filter_keeps_everything_else() {
    let list = words(&["x"]);
    assert_eq!(filter_message("", &list, "*"), (false, String::new()));
    assert_eq!(filter_message("  !? ", &list, "*"), (false, "  !? ".to_string()));
    assert_eq!(filter_message("héllo wörld", &list, "*"), (false, "héllo wörld".to_string()));
    assert_eq!(filter_message(" x ", &list, ""), (true, "  ".to_string()));
}

#[test]
fn filter_reads_unicode_letters_as_word_characters() {
    let list = words(&["Ärger"]);
    assert_eq!(filter_message("kein ÄRGER.", &list, "#"), (true, "kein #.".to_string()));
}

#[test]
fn empty_list_filters_nothing() {
    let list = words(&[]);
    assert!(list.is_empty());
    assert_eq!(filter_message("badword", &list, "*"), (false, "badword".to_string()));
}

#[test]
fn outcome_follows_the_mode() {
    let list = words(&["bad"]);
    assert_eq!(
        filter_outcome(true, false, ChatFilterMode::Replace, "so bad", &list, "*"),
        FilterOutcome::Replace("so *".to_string())
    );
    assert_eq!(
        filter_outcome(true, false, ChatFilterMode::Cancel, "so bad", &list, "*"),
        FilterOutcome::Cancel
    );
}

#[test]
fn outcome_passes_when_nothing_applies() {
    let list = words(&["bad"]);
    assert_eq!(filter_outcome(false, false, ChatFilterMode::Cancel, "bad", &list, "*"), FilterOutcome::Pass);
    assert_eq!(filter_outcome(true, true, ChatFilterMode::Cancel, "bad", &list, "*"), FilterOutcome::Pass);
    assert_eq!(filter_outcome(true, false, ChatFilterMode::Cancel, "good", &list, "*"), FilterOutcome::Pass);
    assert_eq!(
        filter_outcome(true, false, ChatFilterMode::Cancel, "bad", &words(&[]), "*"),
        FilterOutcome::Pass
    );
}

#[test]
fn messages_within_the_limit_pass() {
    let mut state = AntiSpamState::new();
    for now in [0u64, 100, 200, 300, 400] {
        assert!(!state.check_message("p", now, 3_000, 5, 5_000));
    }
}

#[test]
fn one_message_too_many_mutes() {
    let mut state = AntiSpamState::new();
    for now in 0..5u64 {
        assert!(!state.check_message("p", now, 3_000, 5, 5_000));
    }
    assert!(state.check_message("p", 5, 3_000, 5, 5_000));
    assert!(state.check_message("p", 6, 3_000, 5, 5_000));
    assert!(state.check_message("p", 5_004, 3_000, 5, 5_000));
    assert!(!state.check_message("p", 5_005, 3_000, 5, 5_000));
}

#[test]
fn history_is_empty_after_a_mute() {
    let mut state = AntiSpamState::new();
    assert!(!state.check_message("p", 0, 100, 1, 10));
    assert!(state.check_message("p", 1, 100, 1, 10));
    assert!(!state.check_message("p", 11, 100, 1, 10));
    assert!(state.check_message("p", 12, 100, 1, 10));
}

#[test]
fn stale_messages_do_not_count() {
    let mut state = AntiSpamState::new();
    assert!(!state.check_message("p", 0, 10, 2, 50));
    assert!(!state.check_message("p", 5, 10, 2, 50));
    assert!(!state.check_message("p", 11, 10, 2, 50));
    assert!(!state.check_message("p", 16, 10, 2, 50));
    assert!(state.check_message("p", 17, 10, 2, 50));
}

#[test]
fn a_message_just_inside_the_window_counts() {
    let mut state = AntiSpamState::new();
    assert!(!state.check_message("p", 0, 10, 1, 50));
    assert!(state.check_message("p", 10, 10, 1, 50));
    let mut state = AntiSpamState::new();
    assert!(!state.check_message("p", 0, 10, 1, 50));
    assert!(!state.check_message("p", 11, 10, 1, 50));
}

#[test]
fn players_are_counted_apart() {
    let mut state = AntiSpamState::new();
    assert!(!state.check_message("a", 0, 100, 1, 10));
    assert!(!state.check_message("b", 1, 100, 1, 10));
    assert!(state.check_message("a", 2, 100, 1, 10));
    assert!(state.check_message("b", 3, 100, 1, 10));
}

#[test]
fn zero_allowed_messages_mutes_at_once() {
    let mut state = AntiSpamState::new();
    assert!(state.check_message("p", 0, 100, 0, 10));
    assert!(state.check_message("p", 9, 100, 0, 10));
    assert!(state.check_message("p", 10, 100, 0, 10));
}

#[test]
fn ping_is_capped_unless_waiting() {
    assert_eq!(estimate_ping(0, false), 0);
    assert_eq!(estimate_ping(999, false), 999);
    assert_eq!(estimate_ping(1_000, false), 1_000);
    assert_eq!(estimate_ping(1_001, false), 1_000);
    assert_eq!(estimate_ping(40_000, true), 40_000);
    assert_eq!(estimate_ping(5, true), 5);
}

#[test]
fn cooldown_counts_down_to_nothing() {
    assert_eq!(cooldown_remaining(60, 0), Some(60));
    assert_eq!(cooldown_remaining(60, 59), Some(1));
    assert_eq!(cooldown_remaining(60, 60), None);
    assert_eq!(cooldown_remaining(60, 61), None);
    assert_eq!(cooldown_remaining(0, 0), None);
}
