//! Chat commands: reading `!name args` out of a message, the registry of commands, and what
//! each command replies.

use vstd::prelude::*;
use vstd::string::*;
use crate::unicode::chars_of;
use crate::text::{trimmed, words, views, lowercase, trim, split_whitespace, to_lowercase,
    to_string, str_equal, decimal, decimal_string};

verus! {

broadcast use vstd::string::group_string_axioms;

/// The commands that the bot knows.
#[derive(PartialEq, Eq, Structural, Clone, Copy, Debug)]
pub enum CommandKind {
    /// Greets the sender.
    Hello,
    /// Rolls a die.
    Dice,
}

/// A command's name, as typed after `!`, and what it does.
pub struct CommandDescriptor {
    pub name: &'static str,
    pub kind: CommandKind,
}

/// The registered commands, in order of registration.
pub fn commands() -> (r: Vec<CommandDescriptor>)
    ensures
        r@.len() == 2,
        r@[0].name@ == "hello"@,
        r@[0].kind == CommandKind::Hello,
        r@[1].name@ == "dice"@,
        r@[1].kind == CommandKind::Dice,
{
    let mut r: Vec<CommandDescriptor> = Vec::new();
    r.push(CommandDescriptor { name: "hello", kind: CommandKind::Hello });
    r.push(CommandDescriptor { name: "dice", kind: CommandKind::Dice });
    r
}

/// The command registered under `name`; where several are, the one registered last wins.
pub open spec fn lookup(registry: Seq<CommandDescriptor>, name: Seq<char>) -> Option<CommandKind>
    decreases registry.len(),
{
    if registry.len() == 0 {
        None
    } else if registry.last().name@ == name {
        Some(registry.last().kind)
    } else {
        lookup(registry.drop_last(), name)
    }
}

/// The command registered under `name`, if any (the one registered last).
pub fn find_command(registry: &Vec<CommandDescriptor>, name: &str) -> (r: Option<CommandKind>)
    ensures
        r == lookup(registry@, name@),
{
    let n = registry.len();
    let mut found: Option<CommandKind> = None;
    let mut i: usize = 0;
    proof {
        assert(registry@.take(0) =~= Seq::<CommandDescriptor>::empty());
    }
    while i < n
        invariant
            n == registry@.len(),
            i <= n,
            found == lookup(registry@.take(i as int), name@),
        decreases n - i,
    {
        proof {
            assert(registry@.take(i + 1).drop_last() =~= registry@.take(i as int));
        }
        if str_equal(registry[i].name, name) {
            found = Some(registry[i].kind);
        }
        i = i + 1;
    }
    proof {
        assert(registry@.take(n as int) =~= registry@);
    }
    found
}

/// A message that starts with `!` after trimming: the first word after the `!`, lowercased,
/// and the words after it.
pub open spec fn parsed_command(text: Seq<char>) -> Option<(Seq<char>, Seq<Seq<char>>)> {
    let t = trimmed(text);
    if t.len() > 0 && t[0] == '!' {
        let parts = words(t.drop_first());
        if parts.len() > 0 {
            Some((lowercase(parts[0]), parts.drop_first()))
        } else {
            None
        }
    } else {
        None
    }
}

/// Law: a command is read exactly from a trimmed message that starts with `!` and has a word
/// after it; its name is the first of the words after the `!`, lowercased, and its arguments
/// are all the other words, in order, with their case kept.
pub proof fn law_command_words(text: Seq<char>)
    ensures
        parsed_command(text) is Some <==> (trimmed(text).len() > 0 && trimmed(text)[0] == '!'
            && words(trimmed(text).drop_first()).len() > 0),
        parsed_command(text) matches Some((name, args)) ==> {
            let ws = words(trimmed(text).drop_first());
            &&& ws.len() == args.len() + 1
            &&& name == lowercase(ws[0])
            &&& forall|i: int| 0 <= i < args.len() ==> args[i] == #[trigger] ws[i + 1]
        },
{
}

/// Reads a command out of a chat message: `None` unless the trimmed message starts with `!`
/// and a word follows it. The command's name is never empty.
pub fn parse_command(text: &str) -> (r: Option<(String, Vec<String>)>)
    ensures
        match r {
            Some((cmd, args)) => {
                &&& parsed_command(text@) == Some((cmd@, views(args@)))
                &&& cmd@.len() > 0
                &&& args@.len() + 1 == words(trimmed(text@).drop_first()).len()
            },
            None => parsed_command(text@) is None,
        },
{
    let t = trim(text);
    let tv = chars_of(t.as_str());
    if tv.len() == 0 || tv[0] != '!' {
        return None;
    }
    let rest = t.as_str().substring_char(1, tv.len());
    proof {
        assert(rest@ =~= t@.drop_first());
    }
    let mut parts = split_whitespace(rest);
    if parts.len() == 0 {
        return None;
    }
    proof {
        crate::text::law_words_are_nonempty_and_unspaced(t@.drop_first());
        assert(parts@[0]@ == words(t@.drop_first())[0]);
    }
    let first = parts.remove(0);
    let cmd = to_lowercase(first.as_str());
    proof {
        assert(views(parts@) =~= words(t@.drop_first()).drop_first());
    }
    Some((cmd, parts))
}

/// The value of a sequence of decimal digits.
pub open spec fn digits_value(ds: Seq<char>) -> nat
    decreases ds.len(),
{
    if ds.len() == 0 {
        0
    } else {
        digits_value(ds.drop_last()) * 10 + ((ds.last() as u32) - ('0' as u32)) as nat
    }
}

/// `c` is a decimal digit.
pub open spec fn is_digit(c: char) -> bool {
    '0' as u32 <= c as u32 <= '9' as u32
}

/// The digits part of a number: `s` without a leading `+`.
pub open spec fn digits_part(s: Seq<char>) -> Seq<char> {
    if s.len() > 0 && s[0] == '+' {
        s.drop_first()
    } else {
        s
    }
}

/// Every character of `ds` is a decimal digit.
pub open spec fn all_digits(ds: Seq<char>) -> bool {
    forall|i: int| 0 <= i < ds.len() ==> is_digit(#[trigger] ds[i])
}

/// What `u32::from_str` gives for `s`: an optional `+`, then one or more decimal digits whose
/// value fits in a `u32`.
pub open spec fn parsed_u32(s: Seq<char>) -> Option<u32> {
    let ds = digits_part(s);
    if ds.len() > 0 && all_digits(ds) && digits_value(ds) <= u32::MAX {
        Some(digits_value(ds) as u32)
    } else {
        None
    }
}

/// A longer run of digits is worth at least as much.
proof fn lemma_digits_value_prefix(ds: Seq<char>, i: int)
    requires
        0 <= i <= ds.len(),
        all_digits(ds),
    ensures
        digits_value(ds.take(i)) <= digits_value(ds),
    decreases ds.len() - i,
{
    if i < ds.len() {
        lemma_digits_value_prefix(ds, i + 1);
        assert(ds.take(i + 1).drop_last() =~= ds.take(i));
        assert(is_digit(ds[i]));
    } else {
        assert(ds.take(i) =~= ds);
    }
}

/// Reads a `u32` in decimal notation, as `u32::from_str` does.
pub fn parse_u32(s: &str) -> (r: Option<u32>)
    ensures
        r == parsed_u32(s@),
{
    let cs = chars_of(s);
    let n = cs.len();
    let start: usize = if n > 0 && cs[0] == '+' { 1 } else { 0 };
    let ghost ds = digits_part(s@);
    proof {
        assert(ds =~= cs@.subrange(start as int, n as int));
    }
    if start == n {
        return None;
    }
    let mut value: u64 = 0;
    let mut i: usize = start;
    proof {
        assert(ds.take(0) =~= Seq::<char>::empty());
    }
    while i < n
        invariant
            cs@ == s@,
            n == cs@.len(),
            start < n,
            start <= i <= n,
            ds == cs@.subrange(start as int, n as int),
            ds == digits_part(s@),
            forall|j: int| 0 <= j < i - start ==> is_digit(#[trigger] ds[j]),
            value == digits_value(ds.take(i - start)),
            value <= u32::MAX,
        decreases n - i,
    {
        let c = cs[i];
        let code = c as u32;
        let ghost k = i - start;
        proof {
            assert(ds[k] == c);
            assert(ds.take(k + 1).drop_last() =~= ds.take(k));
        }
        if code < 48 || code > 57 {
            assert(!is_digit(ds[k]));
            assert(!all_digits(ds));
            return None;
        }
        let next = value * 10 + (code - 48) as u64;
        if next > 4294967295 {
            proof {
                if all_digits(ds) {
                    lemma_digits_value_prefix(ds, k + 1);
                }
            }
            return None;
        }
        value = next;
        i = i + 1;
    }
    proof {
        assert(ds.take(n - start) =~= ds);
    }
    Some(value as u32)
}

/// The number of sides of the die: the first argument where it reads as a number above two,
/// else six.
pub open spec fn dice_sides_of(args: Seq<Seq<char>>) -> u32 {
    if args.len() > 0 {
        match parsed_u32(args[0]) {
            Some(n) => if n > 2 { n } else { 6 },
            None => 6,
        }
    } else {
        6
    }
}

/// The number of sides of the die that `args` ask for.
pub fn dice_sides(args: &Vec<String>) -> (r: u32)
    ensures
        r == dice_sides_of(views(args@)),
        r >= 3,
{
    if args.len() > 0 {
        match parse_u32(args[0].as_str()) {
            Some(n) => if n > 2 { n } else { 6 },
            None => 6,
        }
    } else {
        6
    }
}

/// The roll that the random value `rnd` gives on a die with `sides` sides.
pub fn dice_roll(sides: u32, rnd: u32) -> (r: u32)
    requires
        sides > 0,
    ensures
        r == rnd % sides + 1,
        1 <= r <= sides,
{
    rnd % sides + 1
}

/// The reply to a roll.
pub open spec fn dice_reply_text(roll: nat) -> Seq<char> {
    "You rolled a "@ + decimal(roll) + "! 🎲"@
}

/// The reply to a roll.
pub fn dice_reply(roll: u32) -> (r: String)
    ensures
        r@ == dice_reply_text(roll as nat),
{
    let mut r = to_string("You rolled a ");
    let digits = decimal_string(roll as u64);
    r.append(digits.as_str());
    r.append("! 🎲");
    r
}

/// Calls `rand::random::<u32>()`: a value from the thread's random generator. Nothing is
/// claimed of the value.
#[verifier::external_body]
fn random_u32() -> u32 {
    rand::random::<u32>()
}

/// The reply to `args` when the random draw was `rnd`: the draw's roll on the die that
/// `args` ask for.
pub fn dice_answer(args: &Vec<String>, rnd: u32) -> (r: String)
    ensures
        r@ == dice_reply_text((rnd % dice_sides_of(views(args@)) + 1) as nat),
{
    let sides = dice_sides(args);
    let roll = dice_roll(sides, rnd);
    dice_reply(roll)
}

/// Law: on a die of any number of sides that `args` may ask for, every roll from one to that
/// number is the answer to some draw (the draw one less than the roll), so no roll is out of
/// reach; and every answer is a roll from one to that number.
pub proof fn law_every_roll_reachable(args: Seq<Seq<char>>, roll: nat, rnd: u32)
    ensures
        1 <= roll <= dice_sides_of(args) ==> ((roll - 1) as u32) % dice_sides_of(args) + 1 == roll,
        dice_sides_of(args) >= 3,
        1 <= rnd % dice_sides_of(args) + 1 <= dice_sides_of(args),
{
    let sides = dice_sides_of(args);
    assert(sides >= 3) by {
        if args.len() > 0 {
            match parsed_u32(args[0]) {
                Some(n) => {},
                None => {},
            }
        }
    }
    if 1 <= roll <= sides {
        let d = (roll - 1) as u32;
        assert(d < sides);
        assert(d % sides == d) by (nonlinear_arith)
            requires d < sides;
    }
}

/// Rolls a die with as many sides as `args` ask for: the reply names the roll of a random
/// draw on that die, one from one to the number of sides.
pub fn dice_run(args: &Vec<String>) -> (r: String)
    ensures
        exists|roll: nat| 1 <= roll <= dice_sides_of(views(args@)) && r@ == dice_reply_text(roll),
        exists|rnd: u32| r@ == #[trigger] dice_reply_text((rnd % dice_sides_of(views(args@)) + 1) as nat),
{
    let rnd = random_u32();
    let r = dice_answer(args, rnd);
    proof {
        law_every_roll_reachable(views(args@), 1, rnd);
    }
    r
}

/// The greeting for `sender`.
pub open spec fn hello_reply_text(sender: Seq<char>) -> Seq<char> {
    "Hello, "@ + sender + "!"@
}

/// The greeting for `sender`.
pub fn hello_reply(sender: &str) -> (r: String)
    ensures
        r@ == hello_reply_text(sender@),
{
    let mut r = to_string("Hello, ");
    r.append(sender);
    r.append("!");
    r
}

/// Runs a command for the user `sender` with the arguments `args`: the reply to post.
pub fn run_command(kind: CommandKind, sender: &str, args: &Vec<String>) -> (r: Option<String>)
    ensures
        r is Some,
        kind == CommandKind::Hello ==> r.unwrap()@ == hello_reply_text(sender@),
        kind == CommandKind::Dice ==> exists|roll: nat|
            1 <= roll <= dice_sides_of(views(args@)) && r.unwrap()@ == dice_reply_text(roll),
        kind == CommandKind::Dice ==> exists|rnd: u32|
            r.unwrap()@ == #[trigger] dice_reply_text((rnd % dice_sides_of(views(args@)) + 1) as nat),
{
    match kind {
        CommandKind::Hello => Some(hello_reply(sender)),
        CommandKind::Dice => Some(dice_run(args)),
    }
}

} // verus!
