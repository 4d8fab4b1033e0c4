use twitchy::commands::{parse_command, parse_u32, dice_sides, dice_roll, dice_reply, dice_run, hello_reply,
    run_command, commands, find_command, CommandKind};

fn strings(v: &[&str]) -> Vec<String> {
    v.iter().map(|s| s.to_string()).collect()
}

#[test]
fn parse_command_reads_name_and_arguments() {
    assert_eq!(parse_command("  !Dice 20  x "), Some(("dice".to_string(), strings(&["20", "x"]))));
    assert_eq!(parse_command("!HELLO"), Some(("hello".to_string(), vec![])));
    assert_eq!(parse_command("hello !dice"), None);
    assert_eq!(parse_command("!"), None);
    assert_eq!(parse_command("!   "), None);
    assert_eq!(parse_command(""), None);
}

#[test]
fn parse_u32_follows_from_str() {
    for s in ["42", "+42", "007", "4294967295", "4294967296", "-1", "", "+", "1_000", " 1", "12a", "٣"] {
        assert_eq!(parse_u32(s), s.parse::<u32>().ok(), "{}", s);
    }
}

#[test]
fn dice_sides_from_arguments() {
    assert_eq!(dice_sides(&strings(&[])), 6);
    assert_eq!(dice_sides(&strings(&["20"])), 20);
    assert_eq!(dice_sides(&strings(&["2"])), 6);
    assert_eq!(dice_sides(&strings(&["3", "9"])), 3);
    assert_eq!(dice_sides(&strings(&["many"])), 6);
    assert_eq!(dice_sides(&strings(&["-5"])), 6);
}

#[test]
fn dice_roll_and_reply() {
    assert_eq!(dice_roll(6, 13), 2);
    assert_eq!(dice_roll(6, 5), 6);
    assert_eq!(dice_roll(20, u32::MAX), u32::MAX % 20 + 1);
    assert_eq!(dice_reply(5), "You rolled a 5! 🎲");
    assert_eq!(dice_reply(120), "You rolled a 120! 🎲");
}

#[test]
fn dice_run_stays_in_range() {
    for _ in 0..50 {
        let reply = dice_run(&strings(&["3"]));
        assert!(["You rolled a 1! 🎲", "You rolled a 2! 🎲", "You rolled a 3! 🎲"].contains(&reply.as_str()), "{}", reply);
    }
}

#[test]
fn hello_greets_sender() {
    assert_eq!(hello_reply("viewer42"), "Hello, viewer42!");
    assert_eq!(run_command(CommandKind::Hello, "Ann", &vec![]), Some("Hello, Ann!".to_string()));
    assert!(run_command(CommandKind::Dice, "Ann", &strings(&["4"])).unwrap().starts_with("You rolled a "));
}

#[test]
fn registry_finds_commands() {
    let reg = commands();
    assert_eq!(reg.len(), 2);
    assert_eq!(find_command(&reg, "hello"), Some(CommandKind::Hello));
    assert_eq!(find_command(&reg, "dice"), Some(CommandKind::Dice));
    assert_eq!(find_command(&reg, "Dice"), None);
    assert_eq!(find_command(&reg, "roll"), None);
}
