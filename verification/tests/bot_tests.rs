use twitchy::bot::{mentions_bot, strip_mentions, names_bot, drop_tag_words, build_prompt, route_message, startup_messages, MessageRoute};
use twitchy::commands::{commands, CommandKind};

#[test]
fn mentions_ignore_case() {
    assert!(mentions_bot("hey TwitchyBot!", "twitchybot"));
    assert!(mentions_bot("HEY @twitchybot", "TwitchyBot"));
    assert!(!mentions_bot("hey there", "TwitchyBot"));
}

#[test]
fn strip_mentions_removes_tags() {
    assert_eq!(strip_mentions("Hey   @TwitchyBot how are you", "twitchybot"), "Hey how are you");
    assert_eq!(strip_mentions("@twitchybot", "TwitchyBot"), "");
    assert_eq!(strip_mentions("TwitchyBot is @TwitchyBot,", "TwitchyBot"), "TwitchyBot is @TwitchyBot,");
}

#[test]
fn prompt_has_instructions_emotes_and_message() {
    let emotes = vec!["Kappa".to_string(), "LUL".to_string()];
    assert_eq!(
        build_prompt("Be nice.", &emotes, "hi"),
        "Be nice.\nYou can use any of the following emotes: Kappa, LUL\nRespond in one paragraph to this message:\n\"hi\""
    );
}

#[test]
fn routing_prefers_commands() {
    let reg = commands();
    match route_message("!dice 20 @TwitchyBot", "TwitchyBot", &reg) {
        MessageRoute::Command { kind, args } => {
            assert_eq!(kind, CommandKind::Dice);
            assert_eq!(args, vec!["20".to_string(), "@TwitchyBot".to_string()]);
        }
        _ => panic!("expected a command"),
    }
    match route_message("!unknown @TwitchyBot hi", "TwitchyBot", &reg) {
        MessageRoute::Mention { message } => assert_eq!(message, "!unknown hi"),
        _ => panic!("expected a mention"),
    }
    assert!(matches!(route_message("just chatting", "TwitchyBot", &reg), MessageRoute::Ignore));
}

#[test]
fn startup_lines() {
    let channels = vec!["one".to_string(), "two".to_string()];
    let lines = startup_messages("TwitchyBot", &channels, &commands());
    assert_eq!(lines, vec![
        "--- Logged in as TwitchyBot ---".to_string(),
        "Joining 2 channels: one, two".to_string(),
        "Registered 2 commands: hello, dice".to_string(),
    ]);
}

#[test]
fn names_bot_on_lowered_text() {
    assert!(names_bot("hey @mybot there", "mybot"));
    assert!(!names_bot("hey @MyBot there", "mybot"));
    assert!(!names_bot("hello", "mybot"));
}

#[test]
fn drop_tag_words_compares_the_lowered_forms() {
    let ws: Vec<String> = vec!["@MyBot".to_string(), "Hi".to_string(), "@mybot".to_string(), "there".to_string()];
    let lowered: Vec<String> = vec!["@mybot".to_string(), "hi".to_string(), "@mybot".to_string(), "there".to_string()];
    assert_eq!(drop_tag_words(&ws, &lowered, "@mybot"), "Hi there");
    assert_eq!(drop_tag_words(&ws, &lowered, "@other"), "@MyBot Hi @mybot there");
}
