//! What the bot does with a chat message: run a command, answer a mention, or let it pass;
//! and the lines it logs when it starts.

use vstd::prelude::*;
use vstd::string::*;
use crate::text::{views, words, join, lowercase, join_offset, occurs_at, law_join_holds_every_part, contains_seq, decimal, to_lowercase,
    split_whitespace, str_equal, contains_str, join_strings, to_string, decimal_string};
use crate::commands::{CommandKind, CommandDescriptor, lookup, parsed_command, parse_command,
    find_command};

verus! {

broadcast use vstd::string::group_string_axioms;

/// The word that mentions the bot: `@` and the bot's name, lowercased.
pub open spec fn mention_tag(username: Seq<char>) -> Seq<char> {
    "@"@ + lowercase(lowercase(username))
}

/// The message names the bot, whatever the case of its letters.
pub open spec fn mentions(text: Seq<char>, username: Seq<char>) -> bool {
    contains_seq(lowercase(text), lowercase(lowercase(username)))
}

/// The words other than the mention tag, in order.
pub open spec fn without_tag(ws: Seq<Seq<char>>, tag: Seq<char>) -> Seq<Seq<char>>
    decreases ws.len(),
{
    if ws.len() == 0 {
        Seq::<Seq<char>>::empty()
    } else if lowercase(ws.last()) == tag {
        without_tag(ws.drop_last(), tag)
    } else {
        without_tag(ws.drop_last(), tag).push(ws.last())
    }
}

/// The message with every `@bot` word taken out and single spaces between the other words.
pub open spec fn stripped(text: Seq<char>, username: Seq<char>) -> Seq<char> {
    join(without_tag(words(text), mention_tag(username)), " "@)
}

/// Law: a message names the bot exactly where the lowercased name occurs somewhere in the
/// lowercased message, at its start as anywhere else.
pub proof fn law_mention_anywhere(text: Seq<char>, username: Seq<char>, k: int)
    ensures
        occurs_at(lowercase(text), lowercase(lowercase(username)), k) ==> mentions(text, username),
        mentions(text, username) ==> exists|p: int| 0 <= p && #[trigger] occurs_at(lowercase(text),
            lowercase(lowercase(username)), p),
{
}

/// Whether the lowercased message holds the twice-lowercased name of the bot.
pub fn names_bot(lowered_text: &str, lowered_name: &str) -> (r: bool)
    ensures
        r == contains_seq(lowered_text@, lowered_name@),
{
    contains_str(lowered_text, lowered_name)
}

/// Whether the message names the bot.
pub fn mentions_bot(text: &str, username: &str) -> (r: bool)
    ensures
        r == mentions(text@, username@),
{
    let lowered = to_lowercase(text);
    let name = to_lowercase(username);
    let name2 = to_lowercase(name.as_str());
    names_bot(lowered.as_str(), name2.as_str())
}

/// The words whose lowercased forms (`lowered`, position by position) differ from `tag`.
pub open spec fn kept_words(ws: Seq<Seq<char>>, lowered: Seq<Seq<char>>, tag: Seq<char>) -> Seq<Seq<char>>
    decreases ws.len(),
{
    if ws.len() == 0 {
        Seq::<Seq<char>>::empty()
    } else if lowered[ws.len() - 1] == tag {
        kept_words(ws.drop_last(), lowered, tag)
    } else {
        kept_words(ws.drop_last(), lowered, tag).push(ws.last())
    }
}

/// With each word lowercased in `lowered`, keeping the words whose lowercased form is not the
/// tag keeps the words that `without_tag` keeps.
proof fn lemma_kept_words(ws: Seq<Seq<char>>, lowered: Seq<Seq<char>>, tag: Seq<char>)
    requires
        ws.len() <= lowered.len(),
        forall|j: int| 0 <= j < ws.len() ==> lowered[j] == lowercase(#[trigger] ws[j]),
    ensures
        kept_words(ws, lowered, tag) == without_tag(ws, tag),
    decreases ws.len(),
{
    if ws.len() > 0 {
        lemma_kept_words(ws.drop_last(), lowered, tag);
        assert(lowered[ws.len() - 1] == lowercase(ws[ws.len() - 1]));
    }
}

/// The words of a message, each beside its lowercased form, with those whose lowercased form
/// is `tag` taken out, joined with single spaces.
pub fn drop_tag_words(ws: &Vec<String>, lowered: &Vec<String>, tag: &str) -> (r: String)
    requires
        ws.len() == lowered.len(),
    ensures
        r@ == join(kept_words(views(ws@), views(lowered@), tag@), " "@),
{
    let ghost lv = views(lowered@);
    let mut kept: Vec<String> = Vec::new();
    let n = ws.len();
    let mut i: usize = 0;
    proof {
        assert(views(ws@).take(0) =~= Seq::<Seq<char>>::empty());
        assert(views(kept@) =~= Seq::<Seq<char>>::empty());
    }
    while i < n
        invariant
            n == ws@.len(),
            n == lowered@.len(),
            lv == views(lowered@),
            i <= n,
            views(kept@) == kept_words(views(ws@).take(i as int), lv, tag@),
        decreases n - i,
    {
        let ghost prev = views(ws@).take(i as int);
        proof {
            assert(views(ws@).take(i + 1).drop_last() =~= prev);
            assert(views(ws@).take(i + 1).last() == ws@[i as int]@);
            assert(views(ws@).take(i + 1).len() - 1 == i);
            assert(lv[i as int] == lowered@[i as int]@);
        }
        if !str_equal(lowered[i].as_str(), tag) {
            kept.push(ws[i].clone());
            proof {
                assert(views(kept@) =~= kept_words(prev, lv, tag@).push(ws@[i as int]@));
            }
        }
        i = i + 1;
    }
    proof {
        assert(views(ws@).take(n as int) =~= views(ws@));
    }
    join_strings(&kept, " ")
}

/// The message without the words that mention the bot.
pub fn strip_mentions(text: &str, username: &str) -> (r: String)
    ensures
        r@ == stripped(text@, username@),
{
    let ws = split_whitespace(text);
    let name = to_lowercase(username);
    let name2 = to_lowercase(name.as_str());
    let mut tag = to_string("@");
    tag.append(name2.as_str());
    let mut lowered: Vec<String> = Vec::new();
    let n = ws.len();
    let mut i: usize = 0;
    while i < n
        invariant
            n == ws@.len(),
            i <= n,
            lowered@.len() == i,
            forall|j: int| 0 <= j < i ==> (#[trigger] lowered@[j])@ == lowercase(ws@[j]@),
        decreases n - i,
    {
        lowered.push(to_lowercase(ws[i].as_str()));
        i = i + 1;
    }
    proof {
        let wv = views(ws@);
        let lv = views(lowered@);
        assert forall|j: int| 0 <= j < wv.len() implies lv[j] == lowercase(#[trigger] wv[j]) by {
            assert(lowered@[j]@ == lowercase(ws@[j]@));
        }
        lemma_kept_words(wv, lv, tag@);
    }
    drop_tag_words(&ws, &lowered, tag.as_str())
}

/// The request to the language model: the instructions, the emotes it may use, and the message.
pub open spec fn prompt_text(ai_prompt: Seq<char>, emotes: Seq<Seq<char>>, message: Seq<char>) -> Seq<char> {
    ai_prompt + "\nYou can use any of the following emotes: "@ + join(emotes, ", "@)
        + "\nRespond in one paragraph to this message:\n\""@ + message + "\""@
}

/// Law: every emote of the channel is offered in the prompt, whole and in order: the emote `i`
/// stands right after the instructions and the line that introduces the emotes, behind the
/// emotes before it, each followed by a comma and a space. The message closes the prompt,
/// inside quotes.
pub proof fn law_prompt_offers_every_emote(ai_prompt: Seq<char>, emotes: Seq<Seq<char>>, message: Seq<char>, i: int)
    requires
        0 <= i < emotes.len(),
    ensures
        occurs_at(prompt_text(ai_prompt, emotes, message), emotes[i],
            ai_prompt.len() + "\nYou can use any of the following emotes: "@.len() + join_offset(emotes, 2, i)),
        prompt_text(ai_prompt, emotes, message).take(ai_prompt.len() as int) == ai_prompt,
        prompt_text(ai_prompt, emotes, message).skip(
            prompt_text(ai_prompt, emotes, message).len() - message.len() - 1) == message + "\""@,
{
    reveal_strlit(", ");
    reveal_strlit("\"");
    let h = "\nYou can use any of the following emotes: "@;
    let l = join(emotes, ", "@);
    let t = "\nRespond in one paragraph to this message:\n\""@;
    let p = prompt_text(ai_prompt, emotes, message);
    law_join_holds_every_part(emotes, ", "@, i);
    let off = ai_prompt.len() + h.len() + join_offset(emotes, 2, i);
    let lo = join_offset(emotes, 2, i);
    assert(p =~= (ai_prompt + h) + l + t + message + "\""@);
    assert(p.subrange(off, off + emotes[i].len()) =~= l.subrange(lo, lo + emotes[i].len()));
    assert(p.take(ai_prompt.len() as int) =~= ai_prompt);
    assert(p.skip(p.len() - message.len() - 1) =~= message + "\""@);
}

/// The request to the language model.
pub fn build_prompt(ai_prompt: &str, emotes: &Vec<String>, message: &str) -> (r: String)
    ensures
        r@ == prompt_text(ai_prompt@, views(emotes@), message@),
{
    let mut r = to_string(ai_prompt);
    r.append("\nYou can use any of the following emotes: ");
    let list = join_strings(emotes, ", ");
    r.append(list.as_str());
    r.append("\nRespond in one paragraph to this message:\n\"");
    r.append(message);
    r.append("\"");
    r
}

/// The registered command that the message calls, with its arguments.
pub open spec fn command_call(text: Seq<char>, registry: Seq<CommandDescriptor>) -> Option<(CommandKind, Seq<Seq<char>>)> {
    match parsed_command(text) {
        Some((name, args)) => match lookup(registry, name) {
            Some(kind) => Some((kind, args)),
            None => None,
        },
        None => None,
    }
}

/// What to do with a chat message.
pub enum MessageRoute {
    /// Run a registered command with these arguments and post its reply.
    Command { kind: CommandKind, args: Vec<String> },
    /// Ask the language model about this message, which mentioned the bot.
    Mention { message: String },
    /// Nothing.
    Ignore,
}

/// Decides what to do with the chat message `text`: a registered command goes first; else a
/// message that names the bot `username` is answered; anything else passes.
pub fn route_message(text: &str, username: &str, registry: &Vec<CommandDescriptor>) -> (r: MessageRoute)
    ensures
        match r {
            MessageRoute::Command { kind, args } => command_call(text@, registry@) == Some((kind, views(args@))),
            MessageRoute::Mention { message } => {
                &&& command_call(text@, registry@) is None
                &&& mentions(text@, username@)
                &&& message@ == stripped(text@, username@)
            },
            MessageRoute::Ignore => command_call(text@, registry@) is None && !mentions(text@, username@),
        },
{
    match parse_command(text) {
        Some((name, args)) => {
            match find_command(registry, name.as_str()) {
                Some(kind) => {
                    return MessageRoute::Command { kind, args };
                },
                None => {},
            }
        },
        None => {},
    }
    if mentions_bot(text, username) {
        MessageRoute::Mention { message: strip_mentions(text, username) }
    } else {
        MessageRoute::Ignore
    }
}

/// The names of the registered commands, in order.
pub open spec fn command_names(registry: Seq<CommandDescriptor>) -> Seq<Seq<char>> {
    registry.map_values(|d: CommandDescriptor| d.name@)
}

/// The lines that the bot logs once it has logged in.
pub open spec fn startup_lines(username: Seq<char>, channels: Seq<Seq<char>>, registry: Seq<CommandDescriptor>) -> Seq<Seq<char>> {
    seq![
        "--- Logged in as "@ + username + " ---"@,
        "Joining "@ + decimal(channels.len()) + " channels: "@ + join(channels, ", "@),
        "Registered "@ + decimal(registry.len()) + " commands: "@ + join(command_names(registry), ", "@),
    ]
}

/// The lines that the bot logs once it has logged in.
pub fn startup_messages(username: &str, channels: &Vec<String>, registry: &Vec<CommandDescriptor>) -> (r: Vec<String>)
    ensures
        views(r@) == startup_lines(username@, views(channels@), registry@),
{
    let mut first = to_string("--- Logged in as ");
    first.append(username);
    first.append(" ---");

    let mut second = to_string("Joining ");
    let count = decimal_string(channels.len() as u64);
    second.append(count.as_str());
    second.append(" channels: ");
    let joined = join_strings(channels, ", ");
    second.append(joined.as_str());

    let mut names: Vec<String> = Vec::new();
    let n = registry.len();
    let mut i: usize = 0;
    while i < n
        invariant
            n == registry@.len(),
            i <= n,
            names@.len() == i,
            views(names@) == command_names(registry@).take(i as int),
        decreases n - i,
    {
        let nm = to_string(registry[i].name);
        let ghost prev = names@;
        names.push(nm);
        proof {
            assert(names@[i as int]@ == registry@[i as int].name@);
            assert(views(names@) =~= views(prev).push(nm@));
            assert(views(names@) =~= command_names(registry@).take(i + 1));
        }
        i = i + 1;
    }
    proof {
        assert(command_names(registry@).take(n as int) =~= command_names(registry@));
    }
    let mut third = to_string("Registered ");
    let count = decimal_string(n as u64);
    third.append(count.as_str());
    third.append(" commands: ");
    let joined = join_strings(&names, ", ");
    third.append(joined.as_str());

    let mut r: Vec<String> = Vec::new();
    r.push(first);
    r.push(second);
    r.push(third);
    proof {
        assert(views(r@) =~= startup_lines(username@, views(channels@), registry@));
    }
    r
}

} // verus!
