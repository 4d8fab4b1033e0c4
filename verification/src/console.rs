//! The broadcaster's console: keys typed into the input line, the commands `help`, `list`,
//! `start <feature>` and `stop <feature>`, and the window of recent log lines.

use vstd::prelude::*;
use vstd::string::*;
use vstd::utf8::encode_utf8;
use crate::unicode::chars_of;
use crate::text::{views, trimmed, has_prefix, trim, starts_with, str_equal, to_string};
use crate::features::{Feature, FeatureEffect};
use crate::editor::{InputLine, inserted_at, removed_before};

verus! {

broadcast use vstd::string::group_string_axioms;

/// A console command, as typed.
pub enum ConsoleRequest {
    /// Nothing but white space.
    Blank,
    List,
    Start(Seq<char>),
    Stop(Seq<char>),
    Help,
    Unknown,
}

/// What the input line asks for, once trimmed: `list`, `help`, `start <name>`, `stop <name>`.
pub open spec fn console_request(input: Seq<char>) -> ConsoleRequest {
    let t = trimmed(input);
    if t.len() == 0 {
        ConsoleRequest::Blank
    } else if t == "list"@ {
        ConsoleRequest::List
    } else if has_prefix(t, "start "@) {
        ConsoleRequest::Start(t.skip("start "@.len() as int))
    } else if has_prefix(t, "stop "@) {
        ConsoleRequest::Stop(t.skip("stop "@.len() as int))
    } else if t == "help"@ {
        ConsoleRequest::Help
    } else {
        ConsoleRequest::Unknown
    }
}

/// The echo of a line that was entered.
pub open spec fn echo_line(input: Seq<char>) -> Seq<char> {
    "> "@ + input
}

/// A feature's name and whether it is on.
pub open spec fn status_line<F: Feature>(f: F) -> Seq<char> {
    f.feature_name() + " - "@ + if f.enabled() {
        "Enabled"@
    } else {
        "Disabled"@
    }
}

/// A line about the feature `name`; `tail` says what happened.
pub open spec fn feature_line(name: Seq<char>, tail: Seq<char>) -> Seq<char> {
    "Feature '"@ + name + tail
}

/// The answer to `help`.
pub open spec fn help_line() -> Seq<char> {
    "Available commands: help, list, start <feature>, stop <feature>"@
}

/// The answer to a line that is no command.
pub open spec fn unknown_line(input: Seq<char>) -> Seq<char> {
    "Unknown command '"@ + input + "' ~ Type 'help' for a list of commands!"@
}

/// The position of the first feature named `name`.
pub open spec fn feature_position<F: Feature>(fs: Seq<F>, name: Seq<char>) -> Option<int>
    decreases fs.len(),
{
    if fs.len() == 0 {
        None
    } else if fs[0].feature_name() == name {
        Some(0)
    } else {
        match feature_position(fs.drop_first(), name) {
            Some(j) => Some(j + 1),
            None => None,
        }
    }
}

/// `after` is `before` with the feature at `i` switched on or off, as `on` says.
pub open spec fn switched<F: Feature>(before: Seq<F>, after: Seq<F>, i: int, on: bool) -> bool {
    &&& after.len() == before.len()
    &&& forall|j: int| 0 <= j < before.len() && j != i ==> after[j] == before[j]
    &&& after[i].enabled() == on
    &&& after[i].feature_name() == before[i].feature_name()
}

/// What entering the line `input` does: the lines logged, the features after it, and the
/// background work asked for (by feature position).
pub open spec fn line_handled<F: Feature>(
    before: Seq<F>,
    after: Seq<F>,
    input: Seq<char>,
    messages: Seq<Seq<char>>,
    effects: Seq<(usize, FeatureEffect)>,
) -> bool {
    match console_request(input) {
        ConsoleRequest::Blank => messages.len() == 0 && after == before && effects.len() == 0,
        ConsoleRequest::List => {
            &&& messages == seq![echo_line(input)] + before.map_values(|f: F| status_line(f))
            &&& after == before
            &&& effects.len() == 0
        },
        ConsoleRequest::Start(name) => match feature_position(before, name) {
            Some(i) => {
                &&& messages == seq![echo_line(input), feature_line(name, "' started."@)]
                &&& switched(before, after, i, true)
                &&& effects == seq![(i as usize, before[i].start_effect())]
            },
            None => {
                &&& messages == seq![echo_line(input), feature_line(name, "' not found."@)]
                &&& after == before
                &&& effects.len() == 0
            },
        },
        ConsoleRequest::Stop(name) => match feature_position(before, name) {
            Some(i) => {
                &&& messages == seq![echo_line(input), feature_line(name, "' stopped."@)]
                &&& switched(before, after, i, false)
                &&& effects == seq![(i as usize, before[i].stop_effect())]
            },
            None => {
                &&& messages == seq![echo_line(input), feature_line(name, "' not found."@)]
                &&& after == before
                &&& effects.len() == 0
            },
        },
        ConsoleRequest::Help => {
            &&& messages == seq![echo_line(input), help_line()]
            &&& after == before
            &&& effects.len() == 0
        },
        ConsoleRequest::Unknown => {
            &&& messages == seq![echo_line(input), unknown_line(input)]
            &&& after == before
            &&& effects.len() == 0
        },
    }
}

/// The lines to log and the background work that a console action asks for.
pub struct ConsoleOutcome {
    pub messages: Vec<String>,
    pub effects: Vec<(usize, FeatureEffect)>,
}

/// An outcome with nothing in it.
fn nothing() -> (r: ConsoleOutcome)
    ensures
        r.messages@.len() == 0,
        r.effects@.len() == 0,
{
    ConsoleOutcome { messages: Vec::new(), effects: Vec::new() }
}

/// Two lines to log and no work.
fn two_lines(a: String, b: String) -> (r: ConsoleOutcome)
    ensures
        views(r.messages@) == seq![a@, b@],
        r.effects@.len() == 0,
{
    let mut messages: Vec<String> = Vec::new();
    messages.push(a);
    messages.push(b);
    proof {
        assert(views(messages@) =~= seq![a@, b@]);
    }
    ConsoleOutcome { messages, effects: Vec::new() }
}

/// The line about the feature `name`.
fn feature_message(name: &str, tail: &str) -> (r: String)
    ensures
        r@ == feature_line(name@, tail@),
{
    let mut r = to_string("Feature '");
    r.append(name);
    r.append(tail);
    r
}

/// The position of the first feature named `name`.
fn find_feature<F: Feature>(features: &Vec<F>, name: &str) -> (r: Option<usize>)
    ensures
        r matches Some(i) ==> feature_position(features@, name@) == Some(i as int) && i < features@.len(),
        r is None ==> feature_position(features@, name@) is None,
{
    let n = features.len();
    let mut i: usize = 0;
    while i < n
        invariant
            n == features@.len(),
            i <= n,
            forall|j: int| 0 <= j < i ==> features@[j].feature_name() != name@,
        decreases n - i,
    {
        if str_equal(features[i].name(), name) {
            proof {
                lemma_feature_position(features@, name@, i as int);
            }
            return Some(i);
        }
        i = i + 1;
    }
    proof {
        lemma_feature_position_none(features@, name@);
    }
    None
}

/// The first feature with the name is the one found first.
proof fn lemma_feature_position<F: Feature>(fs: Seq<F>, name: Seq<char>, i: int)
    requires
        0 <= i < fs.len(),
        fs[i].feature_name() == name,
        forall|j: int| 0 <= j < i ==> fs[j].feature_name() != name,
    ensures
        feature_position(fs, name) == Some(i),
    decreases i,
{
    if i > 0 {
        let rest = fs.drop_first();
        assert forall|j: int| 0 <= j < i - 1 implies rest[j].feature_name() != name by {
            assert(rest[j] == fs[j + 1]);
        }
        assert(rest[i - 1] == fs[i]);
        lemma_feature_position(rest, name, i - 1);
    }
}

/// No feature has the name.
proof fn lemma_feature_position_none<F: Feature>(fs: Seq<F>, name: Seq<char>)
    requires
        forall|j: int| 0 <= j < fs.len() ==> fs[j].feature_name() != name,
    ensures
        feature_position(fs, name) is None,
    decreases fs.len(),
{
    if fs.len() > 0 {
        let rest = fs.drop_first();
        assert forall|j: int| 0 <= j < rest.len() implies rest[j].feature_name() != name by {
            assert(rest[j] == fs[j + 1]);
        }
        lemma_feature_position_none(rest, name);
    }
}

/// Carries out the console line `input`.
pub fn run_console_line<F: Feature>(features: &mut Vec<F>, input: &str) -> (out: ConsoleOutcome)
    ensures
        line_handled(old(features)@, final(features)@, input@, views(out.messages@), out.effects@),
{
    let t = trim(input);
    let tv = chars_of(t.as_str());
    let n = tv.len();
    proof {
        reveal_strlit("start ");
        reveal_strlit("stop ");
        reveal_strlit("list");
        reveal_strlit("help");
    }
    if n == 0 {
        return nothing();
    }
    let mut echo = to_string("> ");
    echo.append(input);
    if str_equal(t.as_str(), "list") {
        let mut messages: Vec<String> = Vec::new();
        messages.push(echo);
        let count = features.len();
        let mut i: usize = 0;
        let ghost fs = features@;
        while i < count
            invariant
                count == fs.len(),
                features@ == fs,
                i <= count,
                messages@.len() == i + 1,
                views(messages@) == seq![echo_line(input@)] + fs.map_values(|f: F| status_line(f)).take(i as int),
            decreases count - i,
        {
            let mut line = to_string(features[i].name());
            line.append(" - ");
            if features[i].is_enabled() {
                line.append("Enabled");
            } else {
                line.append("Disabled");
            }
            let ghost prev = messages@;
            assert(line@ == status_line(fs[i as int]));
            messages.push(line);
            proof {
                assert(views(messages@) =~= views(prev).push(status_line(fs[i as int])));
                assert(views(messages@) =~= seq![echo_line(input@)] + fs.map_values(|f: F| status_line(f)).take(i + 1));
            }
            i = i + 1;
        }
        proof {
            assert(fs.map_values(|f: F| status_line(f)).take(count as int) =~= fs.map_values(|f: F| status_line(f)));
        }
        return ConsoleOutcome { messages, effects: Vec::new() };
    }
    if starts_with(&tv, "start ") {
        let name = t.as_str().substring_char(6, n);
        match find_feature(features, name) {
            Some(i) => {
                let effect = features[i].start();
                let mut effects: Vec<(usize, FeatureEffect)> = Vec::new();
                effects.push((i, effect));
                let r = two_lines(echo, feature_message(name, "' started."));
                return ConsoleOutcome { messages: r.messages, effects };
            },
            None => {
                return two_lines(echo, feature_message(name, "' not found."));
            },
        }
    }
    if starts_with(&tv, "stop ") {
        let name = t.as_str().substring_char(5, n);
        match find_feature(features, name) {
            Some(i) => {
                let effect = features[i].stop();
                let mut effects: Vec<(usize, FeatureEffect)> = Vec::new();
                effects.push((i, effect));
                let r = two_lines(echo, feature_message(name, "' stopped."));
                return ConsoleOutcome { messages: r.messages, effects };
            },
            None => {
                return two_lines(echo, feature_message(name, "' not found."));
            },
        }
    }
    if str_equal(t.as_str(), "help") {
        return two_lines(echo, to_string("Available commands: help, list, start <feature>, stop <feature>"));
    }
    let mut unknown = to_string("Unknown command '");
    unknown.append(input);
    unknown.append("' ~ Type 'help' for a list of commands!");
    two_lines(echo, unknown)
}

/// The number of log lines that the console shows.
pub const LOG_WINDOW: usize = 10;

/// The last `LOG_WINDOW` lines of `lines`.
pub open spec fn log_window(lines: Seq<Seq<char>>) -> Seq<Seq<char>> {
    if lines.len() > LOG_WINDOW {
        lines.skip(lines.len() - LOG_WINDOW)
    } else {
        lines
    }
}

/// Adds `line` to the log and keeps only the last `LOG_WINDOW` lines.
pub fn push_log(logs: &mut Vec<String>, line: String)
    ensures
        views(final(logs)@) == log_window(views(old(logs)@).push(line@)),
        final(logs)@.len() == if old(logs)@.len() + 1 > 10 { 10 } else { old(logs)@.len() + 1 },
        final(logs)@.last()@ == line@,
        forall|i: int| 0 <= i < final(logs)@.len() - 1 ==> (#[trigger] final(logs)@[i])@
            == old(logs)@[old(logs)@.len() - (final(logs)@.len() - 1) + i]@,
{
    let ghost all = views(old(logs)@).push(line@);
    logs.push(line);
    proof {
        assert(views(logs@) =~= all);
    }
    while logs.len() > LOG_WINDOW
        invariant
            logs@.len() <= all.len(),
            logs@.len() >= LOG_WINDOW || logs@.len() == all.len(),
            views(logs@) == all.skip(all.len() - logs@.len()),
        decreases logs@.len(),
    {
        let ghost before = logs@;
        logs.remove(0);
        proof {
            assert(logs@ =~= before.drop_first());
            assert(views(logs@) =~= views(before).drop_first());
            assert(views(logs@) =~= all.skip(all.len() - logs@.len()));
        }
    }
    proof {
        if all.len() <= LOG_WINDOW {
            assert(all.skip(0) =~= all);
        }
        law_log_window_keeps_last(all);
        assert forall|i: int| 0 <= i < logs@.len() - 1 implies (#[trigger] logs@[i])@
            == old(logs)@[old(logs)@.len() - (logs@.len() - 1) + i]@ by {
            assert(views(logs@)[i] == logs@[i]@);
            assert(all[all.len() - logs@.len() + i] == views(old(logs)@)[old(logs)@.len() - (logs@.len() - 1) + i]);
        }
        assert(views(logs@)[logs@.len() - 1] == logs@.last()@);
    }
}

/// Law: the log window holds as many of the lines as fit, `LOG_WINDOW` at most, and they are
/// the latest lines, in the order they were logged.
pub proof fn law_log_window_keeps_last(lines: Seq<Seq<char>>)
    ensures
        log_window(lines).len() == if lines.len() > 10 { 10 } else { lines.len() },
        forall|i: int| 0 <= i < log_window(lines).len() ==> #[trigger] log_window(lines)[i]
            == lines[lines.len() - log_window(lines).len() + i],
{
}

/// The lines "Feature '<name>' started." for the features that are on, in order.
pub open spec fn started_lines<F: Feature>(fs: Seq<F>) -> Seq<Seq<char>>
    decreases fs.len(),
{
    if fs.len() == 0 {
        Seq::<Seq<char>>::empty()
    } else if fs.last().enabled() {
        started_lines(fs.drop_last()).push(feature_line(fs.last().feature_name(), "' started."@))
    } else {
        started_lines(fs.drop_last())
    }
}

/// The work asked for by starting the features that are on: their positions, in order, each
/// with what starting it asks for.
pub open spec fn start_effects<F: Feature>(fs: Seq<F>) -> Seq<(usize, FeatureEffect)>
    decreases fs.len(),
{
    if fs.len() == 0 {
        Seq::<(usize, FeatureEffect)>::empty()
    } else if fs.last().enabled() {
        start_effects(fs.drop_last()).push(((fs.len() - 1) as usize, fs.last().start_effect()))
    } else {
        start_effects(fs.drop_last())
    }
}

/// Starts every feature that the settings switched on, as the bot does when it starts.
pub fn start_enabled_features<F: Feature>(features: &mut Vec<F>) -> (out: ConsoleOutcome)
    ensures
        final(features)@.len() == old(features)@.len(),
        forall|i: int| 0 <= i < old(features)@.len() ==> (#[trigger] final(features)@[i]).feature_name() == old(features)@[i].feature_name(),
        forall|i: int| 0 <= i < old(features)@.len() ==> (old(features)@[i].enabled() ==> (#[trigger] final(features)@[i]).enabled()),
        forall|i: int| 0 <= i < old(features)@.len() && !old(features)@[i].enabled() ==> #[trigger] final(features)@[i] == old(features)@[i],
        views(out.messages@) == started_lines(old(features)@),
        out.effects@ == start_effects(old(features)@),
{
    let ghost fs = features@;
    let n = features.len();
    let mut messages: Vec<String> = Vec::new();
    let mut effects: Vec<(usize, FeatureEffect)> = Vec::new();
    let mut i: usize = 0;
    proof {
        assert(fs.take(0) =~= Seq::<F>::empty());
    }
    while i < n
        invariant
            n == fs.len(),
            i <= n,
            features@.len() == n,
            forall|j: int| 0 <= j < n ==> (#[trigger] features@[j]).feature_name() == fs[j].feature_name(),
            forall|j: int| 0 <= j < i ==> (fs[j].enabled() ==> (#[trigger] features@[j]).enabled()),
            forall|j: int| 0 <= j < n && (j >= i || !fs[j].enabled()) ==> #[trigger] features@[j] == fs[j],
            views(messages@) == started_lines(fs.take(i as int)),
            effects@ == start_effects(fs.take(i as int)),
        decreases n - i,
    {
        proof {
            assert(fs.take(i + 1).drop_last() =~= fs.take(i as int));
            assert(fs.take(i + 1).last() == fs[i as int]);
        }
        if features[i].is_enabled() {
            let effect = features[i].start();
            let line = feature_message(features[i].name(), "' started.");
            let ghost prev_m = views(messages@);
            messages.push(line);
            effects.push((i, effect));
            proof {
                assert(views(messages@) =~= prev_m.push(line@));
            }
        }
        i = i + 1;
    }
    proof {
        assert(fs.take(n as int) =~= fs);
    }
    ConsoleOutcome { messages, effects }
}

/// A key that the broadcaster pressed.
pub enum KeyInput {
    Char(char),
    Backspace,
    Left,
    Right,
    Enter,
    Esc,
    Other,
}

/// The console: the input line, and whether the broadcaster asked to quit.
pub struct Console {
    line: InputLine,
    quit: bool,
}

impl Console {
    /// The characters on the input line.
    pub closed spec fn line_chars(&self) -> Seq<char> {
        self.line.chars()
    }

    /// The cursor on the input line.
    pub closed spec fn line_pos(&self) -> nat {
        self.line.pos()
    }

    /// Whether the broadcaster asked to quit.
    pub closed spec fn quitting(&self) -> bool {
        self.quit
    }

    /// An empty console.
    pub fn new() -> (r: Self)
        ensures
            r.line_chars() == Seq::<char>::empty(),
            r.line_pos() == 0,
            !r.quitting(),
    {
        Console { line: InputLine::new(), quit: false }
    }

    /// The text on the input line.
    pub fn input(&self) -> (r: &str)
        ensures
            r@ == self.line_chars(),
    {
        self.line.text()
    }

    /// The cursor on the input line.
    pub fn cursor(&self) -> (r: usize)
        ensures
            r == self.line_pos(),
            r <= self.line_chars().len(),
    {
        self.line.cursor()
    }

    /// Whether the broadcaster asked to quit.
    pub fn should_quit(&self) -> (r: bool)
        ensures
            r == self.quitting(),
    {
        self.quit
    }

    /// Handles one key: characters and the arrow keys edit the line; Enter carries out a line
    /// that is not blank and empties it; Esc asks to quit.
    pub fn handle_key<F: Feature>(&mut self, key: KeyInput, features: &mut Vec<F>) -> (out: ConsoleOutcome)
        requires
            key is Char ==> encode_utf8(old(self).line_chars()).len() + 4 <= isize::MAX,
        ensures
            match key {
                KeyInput::Char(c) => {
                    &&& final(self).line_chars() == inserted_at(old(self).line_chars(), old(self).line_pos() as int, c)
                    &&& final(self).line_pos() == old(self).line_pos() + 1
                    &&& final(self).quitting() == old(self).quitting()
                    &&& final(features)@ == old(features)@
                    &&& out.messages@.len() == 0 && out.effects@.len() == 0
                },
                KeyInput::Backspace => {
                    &&& (if old(self).line_pos() > 0 {
                        final(self).line_chars() == removed_before(old(self).line_chars(), old(self).line_pos() as int)
                            && final(self).line_pos() == old(self).line_pos() - 1
                    } else {
                        final(self).line_chars() == old(self).line_chars() && final(self).line_pos() == 0
                    })
                    &&& final(self).quitting() == old(self).quitting()
                    &&& final(features)@ == old(features)@
                    &&& out.messages@.len() == 0 && out.effects@.len() == 0
                },
                KeyInput::Left => {
                    &&& final(self).line_chars() == old(self).line_chars()
                    &&& final(self).line_pos() == if old(self).line_pos() > 0 { old(self).line_pos() - 1 } else { 0 }
                    &&& final(self).quitting() == old(self).quitting()
                    &&& final(features)@ == old(features)@
                    &&& out.messages@.len() == 0 && out.effects@.len() == 0
                },
                KeyInput::Right => {
                    &&& final(self).line_chars() == old(self).line_chars()
                    &&& final(self).line_pos() == if old(self).line_pos() < old(self).line_chars().len() {
                        old(self).line_pos() + 1
                    } else {
                        old(self).line_pos()
                    }
                    &&& final(self).quitting() == old(self).quitting()
                    &&& final(features)@ == old(features)@
                    &&& out.messages@.len() == 0 && out.effects@.len() == 0
                },
                KeyInput::Enter => {
                    &&& line_handled(old(features)@, final(features)@, old(self).line_chars(), views(out.messages@), out.effects@)
                    &&& final(self).quitting() == old(self).quitting()
                    &&& if trimmed(old(self).line_chars()).len() == 0 {
                        final(self).line_chars() == old(self).line_chars() && final(self).line_pos() == old(self).line_pos()
                    } else {
                        final(self).line_chars() == Seq::<char>::empty() && final(self).line_pos() == 0
                    }
                },
                KeyInput::Esc => {
                    &&& final(self).line_chars() == old(self).line_chars()
                    &&& final(self).line_pos() == old(self).line_pos()
                    &&& final(self).quitting()
                    &&& final(features)@ == old(features)@
                    &&& out.messages@.len() == 0 && out.effects@.len() == 0
                },
                KeyInput::Other => {
                    &&& final(self).line_chars() == old(self).line_chars()
                    &&& final(self).line_pos() == old(self).line_pos()
                    &&& final(self).quitting() == old(self).quitting()
                    &&& final(features)@ == old(features)@
                    &&& out.messages@.len() == 0 && out.effects@.len() == 0
                },
            },
    {
        match key {
            KeyInput::Char(c) => {
                self.line.insert_char(c);
                nothing()
            },
            KeyInput::Backspace => {
                self.line.backspace();
                nothing()
            },
            KeyInput::Left => {
                self.line.move_left();
                nothing()
            },
            KeyInput::Right => {
                self.line.move_right();
                nothing()
            },
            KeyInput::Enter => {
                let out = run_console_line(features, self.line.text());
                let blank = trim(self.line.text());
                if blank.as_str().unicode_len() > 0 {
                    self.line.clear();
                }
                out
            },
            KeyInput::Esc => {
                self.quit = true;
                nothing()
            },
            KeyInput::Other => nothing(),
        }
    }
}

/// Law: the log never shows more than `LOG_WINDOW` lines, and the newest line is always the
/// last one shown.
pub proof fn law_log_window(lines: Seq<Seq<char>>, line: Seq<char>)
    ensures
        log_window(lines.push(line)).len() <= LOG_WINDOW,
        log_window(lines.push(line)).last() == line,
{
}

/// The feature found by name carries that name.
proof fn lemma_feature_position_named<F: Feature>(fs: Seq<F>, name: Seq<char>)
    ensures
        feature_position(fs, name) matches Some(i) ==> 0 <= i < fs.len() && fs[i].feature_name() == name,
    decreases fs.len(),
{
    if fs.len() > 0 && fs[0].feature_name() != name {
        lemma_feature_position_named(fs.drop_first(), name);
    }
}

/// Law: after `start <name>` found a feature, `list` shows it as "<name> - Enabled"; after
/// `stop <name>`, as "<name> - Disabled".
pub proof fn law_switch_then_list<F: Feature>(
    before: Seq<F>,
    after: Seq<F>,
    input: Seq<char>,
    messages: Seq<Seq<char>>,
    effects: Seq<(usize, FeatureEffect)>,
)
    requires
        line_handled(before, after, input, messages, effects),
    ensures
        console_request(input) matches ConsoleRequest::Start(name) ==> (feature_position(before, name) matches Some(i)
            ==> status_line(after[i]) == name + " - "@ + "Enabled"@),
        console_request(input) matches ConsoleRequest::Stop(name) ==> (feature_position(before, name) matches Some(i)
            ==> status_line(after[i]) == name + " - "@ + "Disabled"@),
{
    match console_request(input) {
        ConsoleRequest::Start(name) => lemma_feature_position_named(before, name),
        ConsoleRequest::Stop(name) => lemma_feature_position_named(before, name),
        _ => {},
    }
}

} // verus!
