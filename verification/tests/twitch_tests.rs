use twitchy::json::JsonValue;
use twitchy::twitch::{stream_category_from, game_id_from, auto_category_game_id, game_id_or_default, channel_is_live,
    category_body, channel_update_url, users_url, emotes_url, first_user_id, UserLookupError, UpdateOutcome,
    category_update_message, gemini_request, gemini_reply_text};
use twitchy::config::Config;
use twitchy::features::{CategoryWorker, WorkerEvent, WorkerAction};

fn s(x: &str) -> JsonValue {
    JsonValue::Str(x.to_string())
}

fn obj(entries: Vec<(&str, JsonValue)>) -> JsonValue {
    JsonValue::Object(entries.into_iter().map(|(k, v)| (k.to_string(), v)).collect())
}

#[test]
fn reads_first_data_fields() {
    let resp = Some(obj(vec![("data", JsonValue::Array(vec![obj(vec![("id", s("509658")), ("game_name", s("Just Chatting"))])]))]));
    assert_eq!(game_id_from(&resp), Some("509658".to_string()));
    assert_eq!(stream_category_from(&resp), Some("Just Chatting".to_string()));
    assert_eq!(auto_category_game_id(&resp), "509658");
    let empty = Some(obj(vec![("data", JsonValue::Array(vec![]))]));
    assert_eq!(game_id_from(&empty), None);
    assert_eq!(auto_category_game_id(&empty), "");
    assert_eq!(game_id_from(&None), None);
    let number = Some(obj(vec![("data", JsonValue::Array(vec![obj(vec![("id", JsonValue::Number("5".to_string()))])]))]));
    assert_eq!(game_id_from(&number), None);
}

#[test]
fn default_game_is_just_chatting() {
    assert_eq!(game_id_or_default(&None), "509658");
    assert_eq!(game_id_or_default(&Some("33214".to_string())), "33214");
}

#[test]
fn live_means_a_stream_is_listed() {
    let live = Some(obj(vec![("data", JsonValue::Array(vec![obj(vec![])]))]));
    assert!(channel_is_live(&live));
    assert!(!channel_is_live(&Some(obj(vec![("data", JsonValue::Array(vec![]))]))));
    assert!(!channel_is_live(&Some(obj(vec![("data", s("x"))]))));
    assert!(!channel_is_live(&Some(JsonValue::Null)));
    assert!(!channel_is_live(&None));
}

#[test]
fn bodies_and_addresses() {
    match category_body("509658") {
        JsonValue::Object(entries) => {
            assert_eq!(entries.len(), 1);
            assert_eq!(entries[0].0, "game_id");
            assert!(matches!(&entries[0].1, JsonValue::Str(v) if v == "509658"));
        }
        _ => panic!("expected an object"),
    }
    assert_eq!(channel_update_url("42"), "https://api.twitch.tv/helix/channels?broadcaster_id=42");
    assert_eq!(users_url("bob"), "https://api.twitch.tv/helix/users?login=bob");
    assert_eq!(emotes_url("42"), "https://7tv.io/v3/users/twitch/42");
}

#[test]
fn first_user() {
    assert_eq!(first_user_id(&vec!["7".to_string(), "8".to_string()]), Ok("7".to_string()));
    assert_eq!(first_user_id(&vec![]), Err(UserLookupError::NotFound));
}

#[test]
fn category_messages() {
    assert_eq!(category_update_message("Chess", true, &UpdateOutcome::Success), "[Auto Category] Category updated to 'Chess'");
    assert_eq!(
        category_update_message("Chess", false, &UpdateOutcome::Success),
        "[Auto Category] 'Chess' not found! Category updated to 'Chess'"
    );
    assert_eq!(
        category_update_message("Chess", true, &UpdateOutcome::Failed { status: "401 Unauthorized".to_string() }),
        "[Auto Category] Failed to update category: 401 Unauthorized"
    );
    assert_eq!(
        category_update_message("Chess", true, &UpdateOutcome::Error { error: "timeout".to_string() }),
        "[Auto Category] Error updating category: timeout"
    );
}

#[test]
fn gemini_round_trip() {
    let body = gemini_request("hello");
    let reply = obj(vec![("candidates", JsonValue::Array(vec![obj(vec![("content", obj(vec![("parts", JsonValue::Array(vec![obj(vec![("text", s("hi there"))])]))]))])]))]);
    assert_eq!(gemini_reply_text(&reply), Some("hi there".to_string()));
    assert_eq!(gemini_reply_text(&JsonValue::Null), None);
    match body {
        JsonValue::Object(entries) => assert_eq!(entries[0].0, "contents"),
        _ => panic!("expected an object"),
    }
}

#[test]
fn config_feature_flags() {
    let config = Config {
        channels: vec![],
        ai_prompt: String::new(),
        own_user_id: String::new(),
        features: vec![("auto_category".to_string(), true), ("other".to_string(), false)],
    };
    assert!(config.feature_flag("auto_category"));
    assert!(!config.feature_flag("other"));
    assert!(!config.feature_flag("missing"));
}

#[test]
fn category_worker_steps() {
    let mut w = CategoryWorker::new();
    assert!(matches!(w.step(WorkerEvent::Wake { enabled: false }), WorkerAction::Exit));
    assert!(matches!(w.step(WorkerEvent::Wake { enabled: true }), WorkerAction::CheckLive));
    assert!(matches!(w.step(WorkerEvent::LiveChecked { live: false }), WorkerAction::Sleep { secs: 60 }));
    assert!(matches!(w.step(WorkerEvent::Wake { enabled: true }), WorkerAction::CheckLive));
    assert!(matches!(w.step(WorkerEvent::LiveChecked { live: true }), WorkerAction::ReadActiveWindow));
    match w.step(WorkerEvent::ActiveWindow { name: Some("chess".to_string()) }) {
        WorkerAction::UpdateCategory { category } => assert_eq!(category, "chess"),
        _ => panic!("expected an update"),
    }
    assert!(matches!(w.step(WorkerEvent::CategoryUpdated), WorkerAction::Sleep { secs: 1 }));
    assert!(matches!(w.step(WorkerEvent::Wake { enabled: true }), WorkerAction::CheckLive));
    assert!(matches!(w.step(WorkerEvent::LiveChecked { live: true }), WorkerAction::ReadActiveWindow));
    assert!(matches!(w.step(WorkerEvent::ActiveWindow { name: Some("chess".to_string()) }), WorkerAction::Sleep { secs: 1 }));
    assert!(matches!(w.step(WorkerEvent::Wake { enabled: true }), WorkerAction::CheckLive));
    assert!(matches!(w.step(WorkerEvent::LiveChecked { live: true }), WorkerAction::ReadActiveWindow));
    match w.step(WorkerEvent::ActiveWindow { name: None }) {
        WorkerAction::UpdateCategory { category } => assert_eq!(category, "Just Chatting"),
        _ => panic!("expected an update"),
    }
}

#[test]
fn category_worker_updates_only_after_a_live_check() {
    let mut w = CategoryWorker::new();
    // A window read that no positive live check asked for sets nothing.
    assert!(matches!(w.step(WorkerEvent::ActiveWindow { name: Some("chess".to_string()) }), WorkerAction::Sleep { secs: 1 }));
    // A live answer without an enabled wake before it does not lead to a window read.
    assert!(matches!(w.step(WorkerEvent::LiveChecked { live: true }), WorkerAction::Sleep { secs: 60 }));
    assert!(matches!(w.step(WorkerEvent::Wake { enabled: true }), WorkerAction::CheckLive));
    assert!(matches!(w.step(WorkerEvent::LiveChecked { live: false }), WorkerAction::Sleep { secs: 60 }));
    assert!(matches!(w.step(WorkerEvent::ActiveWindow { name: Some("chess".to_string()) }), WorkerAction::Sleep { secs: 1 }));
}
