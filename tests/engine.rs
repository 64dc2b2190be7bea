use rustbot::config::{on_member_join, standard_prefixes};
use rustbot::dispatch::{gate, reply_for};
use rustbot::error::BotError;
use rustbot::fence::extract_code;
use rustbot::format::format_reply;
use rustbot::history::{EditAction, History};
use rustbot::parse::{parse_invocation, Prefix};
use rustbot::registry::{Guard, GuardDecision, Registry, RegistryBuilder};
use rustbot::text::{chars_of, trimmed};

fn cs(s: &str) -> Vec<char> {
    s.chars().collect()
}

fn st(v: &[char]) -> String {
    v.iter().collect()
}

fn extract(s: &str) -> Result<String, BotError> {
    extract_code(&cs(s)).map(|v| st(&v))
}

#[test]
fn extract_single_backticks() {
    assert_eq!(extract("`hello`"), Ok("hello".to_string()));
}

#[test]
fn extract_single_backticks_trims_inside() {
    assert_eq!(extract("`  hello `"), Ok("hello".to_string()));
}

#[test]
fn extract_triple_fence_with_language() {
    assert_eq!(extract("```rust\nhello\n```"), Ok("hello".to_string()));
}

#[test]
fn extract_triple_fence_space_after_fence() {
    assert_eq!(extract("``` rust\nhello\n```"), Ok("rust\nhello".to_string()));
}

#[test]
fn extract_plain_text_fails() {
    assert_eq!(extract("plain text"), Err(BotError::MissingCodeblock));
}

#[test]
fn extract_triple_fence_without_whitespace_fails() {
    assert_eq!(extract("```rust```"), Err(BotError::MissingCodeblock));
}

#[test]
fn extract_trims_outer_whitespace() {
    assert_eq!(extract("  \n`x + 1`\t "), Ok("x + 1".to_string()));
}

#[test]
fn extract_keeps_multibyte_characters() {
    assert_eq!(extract("`héllo 🦀`"), Ok("héllo 🦀".to_string()));
}

#[test]
fn extract_lone_backtick_fails() {
    assert_eq!(extract("`"), Err(BotError::MissingCodeblock));
}

#[test]
fn truncate_long_body_to_limit() {
    let body = cs(&"a".repeat(2100));
    let r = format_reply(&body, &cs(""), &cs("[TRUNCATED]"));
    assert_eq!(r.len(), 2000);
    assert!(st(&r).ends_with("[TRUNCATED]"));
    assert_eq!(st(&r), format!("{}[TRUNCATED]", "a".repeat(1989)));
}

#[test]
fn truncate_long_body_keeps_closing() {
    let body = cs(&"b".repeat(1999));
    let r = format_reply(&body, &cs("```"), &cs("[T]"));
    assert_eq!(st(&r), format!("{}```[T]", "b".repeat(1994)));
}

#[test]
fn truncate_many_lines() {
    let lines: Vec<&str> = vec!["x"; 46];
    let body = cs(&lines.join("\n"));
    let r = st(&format_reply(&body, &cs(""), &cs("[TRUNCATED]")));
    assert!(r.ends_with("[TRUNCATED]"));
    let content = r.trim_end_matches("[TRUNCATED]");
    assert_eq!(content.lines().count(), 45);
    assert_eq!(content, vec!["x"; 45].join("\n"));
}

#[test]
fn exactly_max_lines_not_truncated() {
    let body = cs(&format!("{}\n", vec!["y"; 45].join("\n")));
    let r = st(&format_reply(&body, &cs("!"), &cs("[TRUNCATED]")));
    assert_eq!(r, format!("{}\n!", vec!["y"; 45].join("\n")));
}

#[test]
fn short_body_gets_closing_only() {
    let r = st(&format_reply(&cs("hi"), &cs("```"), &cs("[TRUNCATED]")));
    assert_eq!(r, "hi```");
}

#[test]
fn body_at_limit_not_truncated() {
    let body = cs(&"c".repeat(1997));
    let r = format_reply(&body, &cs("```"), &cs("[TRUNCATED]"));
    assert_eq!(r.len(), 2000);
    assert!(st(&r).ends_with("c```"));
}

#[test]
fn oversized_closing_and_marker_leave_no_body() {
    let body = cs(&"d".repeat(10));
    let closing = cs(&"e".repeat(1995));
    let marker = cs(&"m".repeat(10));
    let r = st(&format_reply(&body, &closing, &marker));
    assert_eq!(r, format!("{}{}", "e".repeat(1995), "m".repeat(10)));
}

#[test]
fn edits_of_tracked_message_reuse_reply() {
    let mut h = History::new();
    h.record_reply(1, 100);
    assert_eq!(h.on_edit(1, true), EditAction::EditResponse(100));
    assert_eq!(h.on_edit(1, true), EditAction::EditResponse(100));
    assert_eq!(h.response_for(1), Some(100));
}

#[test]
fn second_reply_does_not_rebind() {
    let mut h = History::new();
    h.record_reply(1, 100);
    h.record_reply(1, 200);
    assert_eq!(h.response_for(1), Some(100));
}

#[test]
fn edit_of_untracked_command_sends_new() {
    let h = History::new();
    assert_eq!(h.on_edit(2, true), EditAction::SendNew);
    assert_eq!(h.on_edit(2, false), EditAction::Nothing);
}

#[test]
fn edit_to_non_command_leaves_stale_reply() {
    let mut h = History::new();
    h.record_reply(3, 300);
    assert_eq!(h.on_edit(3, false), EditAction::Nothing);
    assert_eq!(h.response_for(3), Some(300));
}

#[test]
fn delete_tracked_message_deletes_reply() {
    let mut h = History::new();
    h.record_reply(1, 100);
    h.record_reply(2, 200);
    assert_eq!(h.on_delete(1), Some(100));
    assert_eq!(h.response_for(1), None);
    assert_eq!(h.on_delete(1), None);
    assert_eq!(h.response_for(2), Some(200));
}

#[test]
fn delete_untracked_message_is_noop() {
    let mut h = History::new();
    assert_eq!(h.on_delete(9), None);
    assert_eq!(h.response_for(9), None);
}

fn sample_registry() -> Registry {
    let mut b = RegistryBuilder::new();
    assert!(b.register(cs("play")));
    assert!(b.register_protected(cs("ban"), cs("mod")));
    assert!(b.register(cs("help")));
    assert!(b.attach_help(&cs("play"), cs("Run code"), cs("Compiles and runs code")));
    assert!(b.attach_help(&cs("ban"), cs("Ban a member"), cs("")));
    assert!(b.attach_help(&cs("help"), cs("Show commands"), cs("")));
    b.build()
}

#[test]
fn protected_command_denied_without_role() {
    let reg = sample_registry();
    let i = reg.find(&cs("ban")).unwrap();
    let r = reg.check_guard(i, Some(Ok(7)), &vec![1, 2]);
    assert_eq!(r.map(|v| st(&v)), Some(st(&BotError::MissingPermissions.render())));
    assert_eq!(
        st(&BotError::MissingPermissions.render()),
        "You do not have the permissions to run this command"
    );
}

#[test]
fn protected_command_allowed_with_role() {
    let reg = sample_registry();
    let i = reg.find(&cs("ban")).unwrap();
    assert_eq!(reg.check_guard(i, Some(Ok(7)), &vec![1, 7]), None);
}

#[test]
fn protected_command_lookup_failure_replies_error() {
    let reg = sample_registry();
    let i = reg.find(&cs("ban")).unwrap();
    let r = reg.check_guard(i, Some(Err(BotError::Unknown(cs("store down")))), &vec![7]);
    assert_eq!(
        r.map(|v| st(&v)),
        Some("An unexpected error occurred while running this command".to_string())
    );
}

#[test]
fn protected_command_without_lookup_denied() {
    let reg = sample_registry();
    let i = reg.find(&cs("ban")).unwrap();
    assert!(reg.check_guard(i, None, &vec![7]).is_some());
}

#[test]
fn unprotected_command_always_allowed() {
    let reg = sample_registry();
    let i = reg.find(&cs("play")).unwrap();
    assert_eq!(reg.check_guard(i, None, &vec![]), None);
}

#[test]
fn guard_evaluate_decisions() {
    let g = Guard::RequiresRole(cs("mod"));
    assert!(matches!(g.evaluate(Some(Ok(4)), &vec![4]), GuardDecision::Allow));
    assert!(matches!(g.evaluate(Some(Ok(4)), &vec![5]), GuardDecision::Deny));
    assert!(matches!(
        g.evaluate(Some(Err(BotError::NoCratesFound)), &vec![4]),
        GuardDecision::Failed(BotError::NoCratesFound)
    ));
    assert!(matches!(Guard::AlwaysAllow.evaluate(None, &vec![]), GuardDecision::Allow));
}

#[test]
fn menu_for_unprivileged_hides_protected() {
    let reg = sample_registry();
    let ids = vec![None, Some(7), None];
    let menu = st(&reg.help_menu(&ids, &vec![1]));
    assert_eq!(menu, "play: Run code\nhelp: Show commands\n");
    assert_eq!(reg.visible_commands(&ids, &vec![1]), vec![0, 2]);
}

#[test]
fn menu_for_privileged_lists_all() {
    let reg = sample_registry();
    let ids = vec![None, Some(7), None];
    let menu = st(&reg.help_menu(&ids, &vec![7]));
    assert_eq!(menu, "play: Run code\nban: Ban a member\nhelp: Show commands\n");
}

#[test]
fn duplicate_registration_refused() {
    let mut b = RegistryBuilder::new();
    assert!(b.register(cs("go")));
    assert!(!b.register(cs("go")));
    assert!(!b.register_protected(cs("go"), cs("mod")));
    assert!(b.register(cs("Go")));
    assert!(!b.attach_help(&cs("nope"), cs("a"), cs("b")));
    let reg = b.build();
    assert_eq!(reg.len(), 2);
    assert_eq!(st(&reg.command(1).name), "Go");
}

#[test]
fn parse_question_prefix() {
    let ps = standard_prefixes();
    let inv = parse_invocation(&ps, &cs("?crate   serde json  ")).unwrap();
    assert_eq!(inv.prefix_len, 1);
    assert_eq!(st(&inv.name), "crate");
    assert_eq!(st(&inv.body), "serde json");
}

#[test]
fn parse_crab_prefix_with_space_first() {
    let ps = standard_prefixes();
    let inv = parse_invocation(&ps, &cs("🦀 help")).unwrap();
    assert_eq!(inv.prefix_len, 2);
    assert_eq!(st(&inv.name), "help");
    assert_eq!(st(&inv.body), "");
}

#[test]
fn parse_casual_prefix() {
    let ps = standard_prefixes();
    let inv = parse_invocation(&ps, &cs("hey ferris, can you please play `1+1`")).unwrap();
    assert_eq!(inv.prefix_len, "hey ferris, can you please ".chars().count());
    assert_eq!(st(&inv.name), "play");
    assert_eq!(st(&inv.body), "`1+1`");
    let inv = parse_invocation(&ps, &cs("yo crab can you eval\n`2`")).unwrap();
    assert_eq!(st(&inv.name), "eval");
    assert_eq!(st(&inv.body), "`2`");
}

#[test]
fn parse_without_prefix_is_none() {
    let ps = standard_prefixes();
    assert!(parse_invocation(&ps, &cs("hello there")).is_none());
    assert!(parse_invocation(&ps, &cs("hey rustacean, can you play")).is_none());
}

#[test]
fn resolve_unknown_command_ignored() {
    let ps = standard_prefixes();
    let reg = sample_registry();
    assert!(reg.resolve(&ps, &cs("?what is this")).is_none());
    assert!(reg.resolve(&ps, &cs("?Play x")).is_none());
    let (i, inv) = reg.resolve(&ps, &cs("? play `x`")).unwrap();
    assert_eq!(i, 0);
    assert_eq!(st(&inv.body), "`x`");
}

#[test]
fn custom_literal_and_pattern() {
    let ps = vec![Prefix::Literal(cs("!")), Prefix::Literal(cs("!!"))];
    let inv = parse_invocation(&ps, &cs("!!go")).unwrap();
    assert_eq!(inv.prefix_len, 1);
    assert_eq!(st(&inv.name), "!go");
}

#[test]
fn gate_replies() {
    assert!(gate(GuardDecision::Allow).is_none());
    assert_eq!(
        gate(GuardDecision::Failed(BotError::DomainSpecific(cs("bad target")))).map(|v| st(&v)),
        Some("bad target".to_string())
    );
}

#[test]
fn reply_for_results() {
    assert_eq!(st(&reply_for(Ok(cs("done")))), "done");
    assert_eq!(st(&reply_for(Err(BotError::NoCratesFound))), "No crates found");
    assert!(st(&reply_for(Err(BotError::MissingCodeblock))).starts_with("Missing code block."));
}

#[test]
fn member_join_grant() {
    let g = on_member_join(42);
    assert_eq!(g.delay_secs, 1800);
    assert_eq!(g.role, 42);
    assert_eq!(st(&g.reason), "Automatically rustified after 30 minutes");
}

#[test]
fn text_helpers() {
    assert_eq!(chars_of("ab🦀"), vec!['a', 'b', '🦀']);
    assert_eq!(st(&trimmed(&cs("\u{a0} x y\u{3000}"))), "x y");
}

#[test]
fn history_counts_tracked_messages() {
    let mut h = History::new();
    assert_eq!(h.bound_count(), 0);
    h.record_reply(1, 10);
    h.record_reply(2, 20);
    h.record_reply(1, 30);
    assert_eq!(h.bound_count(), 2);
    h.on_delete(2);
    assert_eq!(h.bound_count(), 1);
}
