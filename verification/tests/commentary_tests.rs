use emojiopticon::cli::Args;
use emojiopticon::commentary::{build_analysis_input, CommentaryState};
use emojiopticon::prompts::{PromptConfig, Prompts};

#[test]
fn fresh_state_shows_placeholders() {
    let c = CommentaryState::new();
    assert_eq!(c.current, "Analyzing emoji trends...");
    assert_eq!(c.previous, "No previous analysis.");
}

#[test]
fn success_rotates_the_lines() {
    let mut c = CommentaryState::new();
    c.apply_analysis(Some("rockets are up".to_string()));
    assert_eq!(c.current, "rockets are up");
    assert_eq!(c.previous, "Analyzing emoji trends...");
    c.apply_analysis(Some("parties now".to_string()));
    assert_eq!(c.current, "parties now");
    assert_eq!(c.previous, "rockets are up");
}

#[test]
fn failure_changes_nothing() {
    let mut c = CommentaryState::new();
    c.apply_analysis(Some("rockets are up".to_string()));
    c.apply_analysis(None);
    assert_eq!(c.current, "rockets are up");
    assert_eq!(c.previous, "Analyzing emoji trends...");
}

#[test]
fn analyzer_input_is_exact() {
    let snapshot = vec![
        ("\u{1F389}".to_string(), 3u64),
        ("\u{1F680}".to_string(), 1u64),
    ];
    let text = build_analysis_input(&snapshot, "nothing yet");
    assert_eq!(
        text,
        "Previous analysis: 'nothing yet'. Here are the current top emoji frequencies: \
         \u{1F389}: 3, \u{1F680}: 1. What's interesting about this?"
    );
}

#[test]
fn analyzer_input_stops_at_one_hundred_entries() {
    let mut snapshot: Vec<(String, u64)> = Vec::new();
    for i in 0..150u64 {
        snapshot.push((format!("e{}", i), i));
    }
    let text = build_analysis_input(&snapshot, "p");
    assert!(text.contains("e99: 99"));
    assert!(!text.contains("e100: 100"));
}

#[test]
fn prompt_config_hands_out_the_current_text() {
    let config = PromptConfig::default();
    assert!(config.get_system_prompt().starts_with("You are an emoji trend analyzer."));
    let mut config = PromptConfig::new(Prompts::default());
    config.apply(Prompts { system_prompt: "be terse".to_string() });
    assert_eq!(config.get_system_prompt(), "be terse");
}

#[test]
fn default_args_match_the_shipped_setup() {
    let args = Args::default();
    assert_eq!(args.config, "config/prompts.toml");
    assert_eq!(args.data, "/var/lib/emojiopticon");
    assert_eq!(args.port, 1337);
}
