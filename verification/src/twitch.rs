//! What the bot asks the Twitch, 7TV and Gemini web services, and what it makes of their
//! answers. A missing answer (`None`) stands for a request that failed or an answer that was
//! not JSON.

use vstd::prelude::*;
use crate::json::{JsonValue, member, opt_member, opt_element, opt_string,
    member_of, element_of, string_value_of, deref_opt, only_member, only_element};
use crate::text::to_string;

verus! {

/// `answer["data"][0][field]`, where it is a string.
pub open spec fn first_data_field(resp: Option<JsonValue>, field: Seq<char>) -> Option<Seq<char>> {
    opt_string(opt_member(opt_element(opt_member(resp, "data"@), 0), field))
}

/// Reads `answer["data"][0][field]` as a string.
fn first_data_string(resp: &Option<JsonValue>, field: &str) -> (r: Option<String>)
    ensures
        r matches Some(x) ==> first_data_field(*resp, field@) == Some(x@),
        r is None ==> first_data_field(*resp, field@) is None,
{
    let root: Option<&JsonValue> = match resp {
        Some(v) => Some(v),
        None => None,
    };
    assert(deref_opt(root) == *resp);
    let data = member_of(root, "data");
    let first = element_of(data, 0);
    let value = member_of(first, field);
    string_value_of(value)
}

/// The category that a channel shows: the `game_name` of the first channel in the answer.
pub fn stream_category_from(resp: &Option<JsonValue>) -> (r: Option<String>)
    ensures
        r matches Some(x) ==> first_data_field(*resp, "game_name"@) == Some(x@),
        r is None ==> first_data_field(*resp, "game_name"@) is None,
{
    first_data_string(resp, "game_name")
}

/// The id of the first game in the answer to a game search.
pub fn game_id_from(resp: &Option<JsonValue>) -> (r: Option<String>)
    ensures
        r matches Some(x) ==> first_data_field(*resp, "id"@) == Some(x@),
        r is None ==> first_data_field(*resp, "id"@) is None,
{
    first_data_string(resp, "id")
}

/// The game id that the automatic category sends: the id found, or an empty id.
pub fn auto_category_game_id(resp: &Option<JsonValue>) -> (r: String)
    ensures
        r@ == match first_data_field(*resp, "id"@) {
            Some(id) => id,
            None => Seq::<char>::empty(),
        },
{
    match game_id_from(resp) {
        Some(id) => id,
        None => String::new(),
    }
}

/// The game id that a manual category change sends: the id found, or that of "Just Chatting".
pub fn game_id_or_default(found: &Option<String>) -> (r: String)
    ensures
        r@ == match found {
            Some(id) => id@,
            None => "509658"@,
        },
{
    match found {
        Some(id) => id.clone(),
        None => to_string("509658"),
    }
}

/// The answer lists at least one stream: `answer["data"]` is a non-empty array.
pub open spec fn live_in(resp: Option<JsonValue>) -> bool {
    match opt_member(resp, "data"@) {
        Some(JsonValue::Array(items)) => items@.len() > 0,
        _ => false,
    }
}

/// Whether the broadcaster is live, from the answer to a stream search.
pub fn channel_is_live(resp: &Option<JsonValue>) -> (r: bool)
    ensures
        r == live_in(*resp),
{
    let root: Option<&JsonValue> = match resp {
        Some(v) => Some(v),
        None => None,
    };
    assert(deref_opt(root) == *resp);
    match member_of(root, "data") {
        Some(d) => d.is_nonempty_array(),
        None => false,
    }
}

/// The body that sets a channel's category: `{"game_id": game_id}`.
pub fn category_body(game_id: &str) -> (r: JsonValue)
    ensures
        opt_string(only_member(Some(r), "game_id"@)) == Some(game_id@),
{
    single_member("game_id", JsonValue::Str(to_string(game_id)))
}

/// The address that changes the channel of `broadcaster_id`.
pub fn channel_update_url(broadcaster_id: &str) -> (r: String)
    ensures
        r@ == "https://api.twitch.tv/helix/channels?broadcaster_id="@ + broadcaster_id@,
{
    let mut r = to_string("https://api.twitch.tv/helix/channels?broadcaster_id=");
    r.append(broadcaster_id);
    r
}

/// The address that looks up the user `username`.
pub fn users_url(username: &str) -> (r: String)
    ensures
        r@ == "https://api.twitch.tv/helix/users?login="@ + username@,
{
    let mut r = to_string("https://api.twitch.tv/helix/users?login=");
    r.append(username);
    r
}

/// The address of the 7TV profile of the Twitch user `user_id`.
pub fn emotes_url(user_id: &str) -> (r: String)
    ensures
        r@ == "https://7tv.io/v3/users/twitch/"@ + user_id@,
{
    let mut r = to_string("https://7tv.io/v3/users/twitch/");
    r.append(user_id);
    r
}

/// Why looking up a user gave no id.
#[derive(PartialEq, Eq, Structural, Clone, Copy, Debug)]
pub enum UserLookupError {
    /// The answer listed no user.
    NotFound,
}

/// The id of the first user that the answer lists.
pub fn first_user_id(ids: &Vec<String>) -> (r: Result<String, UserLookupError>)
    ensures
        ids@.len() > 0 ==> (r matches Ok(id) && id@ == ids@[0]@),
        ids@.len() == 0 ==> r == Err::<String, UserLookupError>(UserLookupError::NotFound),
{
    if ids.len() > 0 {
        Ok(ids[0].clone())
    } else {
        Err(UserLookupError::NotFound)
    }
}

/// How the request that sets the category ended.
pub enum UpdateOutcome {
    /// The service accepted it.
    Success,
    /// The service answered with another status, given as its text.
    Failed { status: String },
    /// The request could not be made, for the reason given.
    Error { error: String },
}

/// The log line for a category change to `category_name`.
pub open spec fn category_update_text(category_name: Seq<char>, game_found: bool, outcome: UpdateOutcome) -> Seq<char> {
    match outcome {
        UpdateOutcome::Success => "[Auto Category] "@ + (if game_found {
            Seq::<char>::empty()
        } else {
            "'"@ + category_name + "' not found! "@
        }) + "Category updated to '"@ + category_name + "'"@,
        UpdateOutcome::Failed { status } => "[Auto Category] Failed to update category: "@ + status@,
        UpdateOutcome::Error { error } => "[Auto Category] Error updating category: "@ + error@,
    }
}

/// The log line for a category change to `category_name`.
pub fn category_update_message(category_name: &str, game_found: bool, outcome: &UpdateOutcome) -> (r: String)
    ensures
        r@ == category_update_text(category_name@, game_found, *outcome),
{
    match outcome {
        UpdateOutcome::Success => {
            let mut r = to_string("[Auto Category] ");
            if !game_found {
                r.append("'");
                r.append(category_name);
                r.append("' not found! ");
            }
            r.append("Category updated to '");
            r.append(category_name);
            r.append("'");
            r
        },
        UpdateOutcome::Failed { status } => {
            let mut r = to_string("[Auto Category] Failed to update category: ");
            r.append(status.as_str());
            r
        },
        UpdateOutcome::Error { error } => {
            let mut r = to_string("[Auto Category] Error updating category: ");
            r.append(error.as_str());
            r
        },
    }
}

/// The request body that asks Gemini to answer `prompt`:
/// `{"contents": [{"parts": [{"text": prompt}]}]}`, each object with that one member and each
/// array with that one element.
pub open spec fn gemini_body_shape(r: JsonValue, prompt: Seq<char>) -> bool {
    opt_string(only_member(only_element(only_member(only_element(only_member(Some(r), "contents"@)), "parts"@)), "text"@))
        == Some(prompt)
}

/// An object with one member.
fn single_member(key: &str, value: JsonValue) -> (r: JsonValue)
    ensures
        only_member(Some(r), key@) == Some(value),
{
    let mut entries: Vec<(String, JsonValue)> = Vec::new();
    entries.push((to_string(key), value));
    JsonValue::Object(entries)
}

/// An array with one element.
fn single_element(value: JsonValue) -> (r: JsonValue)
    ensures
        only_element(Some(r)) == Some(value),
{
    let mut items: Vec<JsonValue> = Vec::new();
    items.push(value);
    JsonValue::Array(items)
}

/// The request body that asks Gemini to answer `prompt`.
pub fn gemini_request(prompt: &str) -> (r: JsonValue)
    ensures
        gemini_body_shape(r, prompt@),
{
    let text = single_member("text", JsonValue::Str(to_string(prompt)));
    let parts = single_member("parts", single_element(text));
    single_member("contents", single_element(parts))
}

/// `answer["candidates"][0]["content"]["parts"][0]["text"]`, where it is a string.
pub open spec fn gemini_text(resp: JsonValue) -> Option<Seq<char>> {
    opt_string(opt_member(opt_element(opt_member(opt_member(opt_element(member(resp, "candidates"@), 0), "content"@), "parts"@), 0), "text"@))
}

/// The text of Gemini's answer.
pub fn gemini_reply_text(resp: &JsonValue) -> (r: Option<String>)
    ensures
        r matches Some(x) ==> gemini_text(*resp) == Some(x@),
        r is None ==> gemini_text(*resp) is None,
{
    let candidates = resp.get_member("candidates");
    let first = element_of(candidates, 0);
    let content = member_of(first, "content");
    let parts = member_of(content, "parts");
    let part = element_of(parts, 0);
    let text = member_of(part, "text");
    string_value_of(text)
}

} // verus!
