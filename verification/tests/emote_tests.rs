use twitchy::emotes::fix_emote_spacing;

fn emotes(names: &[&str]) -> Vec<String> {
    names.iter().map(|s| s.to_string()).collect()
}

#[test]
fn emote_followed_by_space_stays() {
    assert_eq!(fix_emote_spacing(&emotes(&["Kappa"]), "hi Kappa there"), "hi Kappa there");
}

#[test]
fn emote_running_into_a_word_gets_a_space() {
    assert_eq!(fix_emote_spacing(&emotes(&["Kappa"]), "hi Kappathere"), "hi Kappa there");
    assert_eq!(fix_emote_spacing(&emotes(&["PogChamp"]), "PogChampPogChamp nice"), "PogChamp PogChamp nice");
}

#[test]
fn text_without_emotes_is_unchanged() {
    assert_eq!(fix_emote_spacing(&emotes(&["Kappa", "LUL"]), "nothing to see"), "nothing to see");
    assert_eq!(fix_emote_spacing(&emotes(&[]), "anything"), "anything");
}

#[test]
fn several_emotes_in_turn() {
    assert_eq!(
        fix_emote_spacing(&emotes(&["Kappa", "LUL"]), "Kappafun LULwow ok"),
        "Kappa fun LUL wow ok"
    );
}

#[test]
fn emote_at_the_very_end_counts_as_followed() {
    assert_eq!(fix_emote_spacing(&emotes(&["Kappa"]), "hi Kappa"), "hi Kappa");
    assert_eq!(fix_emote_spacing(&emotes(&["Kappa"]), "KappaKappa"), "Kappa Kappa");
}

#[test]
fn characters_before_the_emote_may_be_wide() {
    assert_eq!(fix_emote_spacing(&emotes(&["Kappa"]), "héllo Kappa there"), "héllo Kappa there");
    assert_eq!(fix_emote_spacing(&emotes(&["Kappa"]), "éKappa!"), "éKappa !");
    assert_eq!(fix_emote_spacing(&emotes(&["a"]), "ééa😀 "), "ééa 😀 ");
}

#[test]
fn four_byte_character_after_an_emote_gets_a_space() {
    assert_eq!(fix_emote_spacing(&emotes(&["a"]), "a😀b"), "a 😀b");
}

#[test]
fn spacing_twice_changes_nothing_more() {
    let list = emotes(&["Kappa", "LUL"]);
    let once = fix_emote_spacing(&list, "KappaLULx héLULLUL Kappa");
    assert_eq!(once, "Kappa LUL x héLUL LUL Kappa");
    assert_eq!(fix_emote_spacing(&list, &once), once);
}

#[test]
fn spacing_at_most_doubles_the_length() {
    let list = emotes(&["a", "ab"]);
    let input = "aaaab";
    let out = fix_emote_spacing(&list, input);
    assert_eq!(out, "a a a a b");
    assert!(out.chars().count() <= 2 * input.chars().count());
}
