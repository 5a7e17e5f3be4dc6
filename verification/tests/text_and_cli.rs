use lasada::cli::{classify_input, resolve_setting, resolve_system_prompt, select_backend, BackendKind, InputCommand};
use lasada::text::{contains_str, decimal_string, nonblank_lines_of, same_text, trim_str, words_of};

#[test]
fn trim_removes_unicode_whitespace_on_both_ends() {
    assert_eq!(trim_str("  a b \n"), "a b");
    assert_eq!(trim_str("\u{3000}x\u{a0}"), "x");
    assert_eq!(trim_str(" \t\r\n "), "");
    assert_eq!(trim_str(""), "");
}

#[test]
fn trim_matches_std_trim() {
    for s in ["abc", "  abc", "abc  ", "\u{2028}a\u{85}", " \u{200b} "] {
        assert_eq!(trim_str(s), s.trim());
    }
}

#[test]
fn lines_are_trimmed_and_blank_ones_dropped() {
    assert_eq!(nonblank_lines_of(" a \n\n  \r\nb\r\n"), vec!["a".to_string(), "b".to_string()]);
    assert!(nonblank_lines_of("").is_empty());
}

#[test]
fn words_split_on_whitespace_runs() {
    assert_eq!(words_of("  key  ctrl+c \t x"), vec!["key", "ctrl+c", "x"]);
    assert!(words_of("   ").is_empty());
}

#[test]
fn contains_and_equality() {
    assert!(contains_str("list files with ls", "ls"));
    assert!(!contains_str("l s", "ls"));
    assert!(contains_str("abc", ""));
    assert!(same_text("abc", "abc"));
    assert!(!same_text("abc", "abd"));
}

#[test]
fn decimal_rendering() {
    assert_eq!(decimal_string(0), "0");
    assert_eq!(decimal_string(1234567), "1234567");
    assert_eq!(decimal_string(u128::MAX), u128::MAX.to_string());
}

#[test]
fn input_lines_are_classified() {
    assert!(matches!(classify_input("   \n"), InputCommand::Skip));
    assert!(matches!(classify_input(" exit\n"), InputCommand::Quit));
    assert!(matches!(classify_input("quit"), InputCommand::Quit));
    match classify_input("  list files \n") {
        InputCommand::Chat(t) => assert_eq!(t, "list files"),
        _ => panic!("expected chat"),
    }
    assert!(matches!(classify_input("exit now"), InputCommand::Chat(_)));
}

#[test]
fn settings_prefer_command_line_then_config() {
    assert_eq!(resolve_setting(Some("a".into()), Some("b".into()), "c"), "a");
    assert_eq!(resolve_setting(None, Some("b".into()), "c"), "b");
    assert_eq!(resolve_setting(None, None, "c"), "c");
    assert_eq!(resolve_system_prompt(None, None), "You are a helpful assistant.");
}

#[test]
fn backend_selection() {
    assert!(select_backend("openai_compatible") == BackendKind::OpenAICompatible);
    assert!(select_backend("mock") == BackendKind::Mock);
    assert!(select_backend("") == BackendKind::Mock);
}
