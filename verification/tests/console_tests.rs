use twitchy::console::{run_console_line, push_log, start_enabled_features, Console, KeyInput, LOG_WINDOW};
use twitchy::editor::InputLine;
use twitchy::features::{AutoCategory, Feature, FeatureEffect, init_features};
use twitchy::config::Config;

fn config_with(features: Vec<(&str, bool)>) -> Config {
    Config {
        channels: vec!["somechannel".to_string()],
        ai_prompt: "Be nice.".to_string(),
        own_user_id: "123".to_string(),
        features: features.into_iter().map(|(k, v)| (k.to_string(), v)).collect(),
    }
}

#[test]
fn input_line_inserts_at_cursor() {
    let mut line = InputLine::new();
    line.insert_char('a');
    line.insert_char('c');
    line.move_left();
    line.insert_char('é');
    assert_eq!(line.text(), "aéc");
    assert_eq!(line.cursor(), 2);
    line.insert_char('😀');
    assert_eq!(line.text(), "aé😀c");
    assert_eq!(line.cursor(), 3);
}

#[test]
fn backspace_removes_character_before_cursor() {
    let mut line = InputLine::new();
    for c in "héllo".chars() {
        line.insert_char(c);
    }
    line.move_left();
    line.move_left();
    line.move_left();
    line.backspace();
    assert_eq!(line.text(), "hllo");
    assert_eq!(line.cursor(), 1);
    line.move_left();
    line.backspace();
    assert_eq!(line.text(), "hllo");
    assert_eq!(line.cursor(), 0);
}

#[test]
fn backspace_after_insert_restores_line() {
    let mut line = InputLine::new();
    for c in "abc".chars() {
        line.insert_char(c);
    }
    line.move_left();
    line.insert_char('€');
    line.backspace();
    assert_eq!(line.text(), "abc");
    assert_eq!(line.cursor(), 2);
}

#[test]
fn cursor_moves_stay_in_line() {
    let mut line = InputLine::new();
    line.move_left();
    assert_eq!(line.cursor(), 0);
    line.insert_char('x');
    line.move_right();
    assert_eq!(line.cursor(), 1);
    line.move_left();
    line.move_right();
    assert_eq!(line.cursor(), 1);
    line.clear();
    assert_eq!(line.text(), "");
    assert_eq!(line.cursor(), 0);
}

#[test]
fn init_features_reads_the_switch() {
    let on = init_features(&config_with(vec![("auto_category", true)]));
    assert_eq!(on.len(), 1);
    assert!(on[0].is_enabled());
    assert_eq!(on[0].name(), "auto_category");
    let off = init_features(&config_with(vec![("other", true)]));
    assert!(!off[0].is_enabled());
    let explicit_off = init_features(&config_with(vec![("auto_category", false)]));
    assert!(!explicit_off[0].is_enabled());
}

#[test]
fn auto_category_start_and_stop() {
    let mut f = AutoCategory::new(false);
    assert!(!f.is_enabled());
    assert_eq!(f.start(), FeatureEffect::SpawnWorker);
    assert!(f.is_enabled());
    assert_eq!(f.start(), FeatureEffect::Nothing);
    assert_eq!(f.stop(), FeatureEffect::JoinWorker);
    assert!(!f.is_enabled());
    assert_eq!(f.stop(), FeatureEffect::Nothing);
    assert!(!f.is_enabled());
}

fn messages(out: &twitchy::console::ConsoleOutcome) -> Vec<String> {
    out.messages.clone()
}

#[test]
fn console_list_help_unknown() {
    let mut features = vec![AutoCategory::new(false)];
    let out = run_console_line(&mut features, "  list ");
    assert_eq!(messages(&out), vec!["> ".to_string() + "  list ", "auto_category - Disabled".to_string()]);
    let out = run_console_line(&mut features, "help");
    assert_eq!(messages(&out), vec!["> help", "Available commands: help, list, start <feature>, stop <feature>"]);
    let out = run_console_line(&mut features, " dance ");
    assert_eq!(messages(&out), vec!["> ".to_string() + " dance ", "Unknown command ' dance ' ~ Type 'help' for a list of commands!".to_string()]);
    let out = run_console_line(&mut features, "   ");
    assert!(out.messages.is_empty());
    assert!(out.effects.is_empty());
}

#[test]
fn console_start_and_stop_features() {
    let mut features = vec![AutoCategory::new(false)];
    let out = run_console_line(&mut features, "start auto_category");
    assert_eq!(messages(&out), vec!["> start auto_category", "Feature 'auto_category' started."]);
    assert_eq!(out.effects, vec![(0, FeatureEffect::SpawnWorker)]);
    assert!(features[0].is_enabled());
    let out = run_console_line(&mut features, "list");
    assert_eq!(messages(&out), vec!["> list", "auto_category - Enabled"]);
    let out = run_console_line(&mut features, "start nothing");
    assert_eq!(messages(&out), vec!["> start nothing", "Feature 'nothing' not found."]);
    assert!(out.effects.is_empty());
    let out = run_console_line(&mut features, "stop auto_category");
    assert_eq!(messages(&out), vec!["> stop auto_category", "Feature 'auto_category' stopped."]);
    assert_eq!(out.effects, vec![(0, FeatureEffect::JoinWorker)]);
    assert!(!features[0].is_enabled());
    let out = run_console_line(&mut features, "start");
    assert_eq!(messages(&out), vec!["> start", "Unknown command 'start' ~ Type 'help' for a list of commands!"]);
}

#[test]
fn starting_enabled_features() {
    let mut features = vec![AutoCategory::new(true)];
    let out = start_enabled_features(&mut features);
    assert_eq!(messages(&out), vec!["Feature 'auto_category' started."]);
    assert_eq!(out.effects, vec![(0, FeatureEffect::SpawnWorker)]);
    let mut off = vec![AutoCategory::new(false)];
    let out = start_enabled_features(&mut off);
    assert!(out.messages.is_empty());
    assert!(!off[0].is_enabled());
}

#[test]
fn log_keeps_last_ten_lines() {
    let mut logs: Vec<String> = vec!["Welcome to Twitchy!".to_string()];
    for i in 0..15 {
        push_log(&mut logs, format!("line {}", i));
        assert!(logs.len() <= LOG_WINDOW);
    }
    assert_eq!(logs.len(), 10);
    assert_eq!(logs[0], "line 5");
    assert_eq!(logs[9], "line 14");
}

#[test]
fn console_keys_edit_and_run_lines() {
    let mut console = Console::new();
    let mut features = vec![AutoCategory::new(false)];
    for c in "help".chars() {
        let out = console.handle_key(KeyInput::Char(c), &mut features);
        assert!(out.messages.is_empty());
    }
    assert_eq!(console.input(), "help");
    console.handle_key(KeyInput::Left, &mut features);
    console.handle_key(KeyInput::Backspace, &mut features);
    assert_eq!(console.input(), "hep");
    console.handle_key(KeyInput::Char('l'), &mut features);
    console.handle_key(KeyInput::Right, &mut features);
    assert_eq!(console.cursor(), 4);
    let out = console.handle_key(KeyInput::Enter, &mut features);
    assert_eq!(out.messages.len(), 2);
    assert_eq!(console.input(), "");
    assert_eq!(console.cursor(), 0);
    console.handle_key(KeyInput::Char(' '), &mut features);
    let out = console.handle_key(KeyInput::Enter, &mut features);
    assert!(out.messages.is_empty());
    assert_eq!(console.input(), " ");
    assert!(!console.should_quit());
    console.handle_key(KeyInput::Other, &mut features);
    console.handle_key(KeyInput::Esc, &mut features);
    assert!(console.should_quit());
}
