//! The commands of a conversation: their names, how they are completed, and
//! how a line is read as one.
use vstd::prelude::*;

use crate::i18n;
use crate::i18n::Language;
use crate::text;

verus! {

/// The number of commands.
pub const COMMAND_COUNT: usize = 16;

/// The commands: the name, two other names (an empty one is none), what the
/// command does, how it is used, whether it takes an argument and whether it
/// needs one.
pub const COMMANDS: [(
    &'static str,
    [&'static str; 2],
    &'static str,
    &'static str,
    bool,
    bool,
); 16] = [
    (
        "exit",
        ["quit", "q"],
        "Exit conversation",
        "/exit",
        false,
        false,
    ),
    (
        "new",
        ["", ""],
        "Start a new session",
        "/new",
        false,
        false,
    ),
    (
        "help",
        ["?", ""],
        "Command help",
        "/help",
        false,
        false,
    ),
    (
        "resume",
        ["", ""],
        "Resume a session",
        "/resume <id>",
        true,
        true,
    ),
    (
        "model",
        ["m", ""],
        "Switch model",
        "/model <name> [effort]",
        true,
        true,
    ),
    (
        "effort",
        ["e", ""],
        "Set reasoning effort",
        "/effort <low|medium|high>",
        true,
        true,
    ),
    (
        "endpoint",
        ["ep", ""],
        "Show or configure endpoints (list / add / set / use / remove)",
        "/endpoint [name | add|set|use|remove ...]",
        true,
        false,
    ),
    (
        "mcp",
        ["", ""],
        "Show or register MCP servers (list / add / set / remove)",
        "/mcp [name | add|set|remove ...]",
        true,
        false,
    ),
    (
        "language",
        ["lang", "l"],
        "Change language (en / ko / ja)",
        "/language <en|ko|ja>",
        true,
        false,
    ),
    (
        "session-info",
        ["info", ""],
        "Show current session info (id / model / context usage)",
        "/session-info",
        false,
        false,
    ),
    (
        "sessions",
        ["ls", ""],
        "List sessions",
        "/sessions",
        false,
        false,
    ),
    (
        "compact",
        ["", ""],
        "Compact conversation history (summarize to shrink context)",
        "/compact",
        false,
        false,
    ),
    (
        "fork",
        ["", ""],
        "Fork the current session (copy to a new session id)",
        "/fork",
        false,
        false,
    ),
    (
        "export",
        ["", ""],
        "Export conversation history to a markdown file",
        "/export [path]",
        true,
        false,
    ),
    (
        "usage",
        ["u", ""],
        "Show session token and cost usage",
        "/usage",
        false,
        false,
    ),
    (
        "history",
        ["h", ""],
        "Browse prompt history (↑/↓ keys or this command)",
        "/history [query]",
        true,
        false,
    ),
];

/// A command.
#[derive(Debug, Clone, Copy)]
pub struct SlashCommand {
    pub name: &'static str,
    /// Other names; an empty one is none.
    pub aliases: [&'static str; 2],
    /// What the command does, as a key of the message catalog.
    pub description: &'static str,
    /// How the command is used, as a key of the message catalog.
    pub usage: &'static str,
    pub takes_args: bool,
    pub args_required: bool,
}

/// The name of a command.
pub open spec fn name_of(i: int) -> Seq<char> {
    COMMANDS@[i].0@
}

/// Another name of a command.
pub open spec fn alias_of(i: int, k: int) -> Seq<char> {
    COMMANDS@[i].1@[k]@
}

/// The command with the given number.
pub fn command(i: usize) -> (r: SlashCommand)
    requires
        i < COMMAND_COUNT,
    ensures
        r.name@ == name_of(i as int),
        r.aliases@[0]@ == alias_of(i as int, 0),
        r.aliases@[1]@ == alias_of(i as int, 1),
        r.description@ == COMMANDS@[i as int].2@,
        r.usage@ == COMMANDS@[i as int].3@,
        r.takes_args == COMMANDS@[i as int].4,
        r.args_required == COMMANDS@[i as int].5,
{
    let c = COMMANDS[i];
    SlashCommand {
        name: c.0,
        aliases: c.1,
        description: c.2,
        usage: c.3,
        takes_args: c.4,
        args_required: c.5,
    }
}

// ---------------------------------------------------------------------------
// Names
// ---------------------------------------------------------------------------

/// Whether a word names a command.
pub open spec fn names(i: int, cmd: Seq<char>) -> bool {
    ||| name_of(i) == cmd
    ||| cmd.len() > 0 && alias_of(i, 0) == cmd
    ||| cmd.len() > 0 && alias_of(i, 1) == cmd
}

/// The first command from number `i` on that a word names.
pub open spec fn command_from(cmd: Seq<char>, i: int) -> Option<int>
    decreases COMMAND_COUNT - i,
{
    if i >= COMMAND_COUNT {
        None
    } else if names(i, cmd) {
        Some(i)
    } else {
        command_from(cmd, i + 1)
    }
}

/// The name of the command that a word names, empty where it names none.
pub open spec fn resolved(cmd: Seq<char>) -> Seq<char> {
    match command_from(cmd, 0) {
        Some(i) => name_of(i),
        None => Seq::empty(),
    }
}

/// The name of the command that a word names, empty where it names none.
pub fn resolve_alias(cmd: &str) -> (r: &'static str)
    ensures
        r@ == resolved(cmd@),
{
    let mut i: usize = 0;
    while i < COMMAND_COUNT
        invariant
            i <= COMMAND_COUNT,
            command_from(cmd@, i as int) == command_from(cmd@, 0),
        decreases COMMAND_COUNT - i,
    {
        let c = command(i);
        if text::str_eq(c.name, cmd) {
            return c.name;
        }
        if !cmd.is_empty() && (text::str_eq(c.aliases[0], cmd) || text::str_eq(c.aliases[1], cmd)) {
            return c.name;
        }
        i = i + 1;
    }
    proof {
        reveal_strlit("");
        assert(""@ =~= Seq::empty());
    }
    ""
}

/// Whether a word names a command.
pub fn is_supported(cmd: &str) -> (r: bool)
    ensures
        r == (resolved(cmd@).len() > 0),
{
    !resolve_alias(cmd).is_empty()
}

// ---------------------------------------------------------------------------
// Reading a line
// ---------------------------------------------------------------------------

/// A line read as a command: the name of the command, empty where it is
/// unknown, and what stands behind it.
#[derive(Debug, Clone)]
pub struct ParsedCommand {
    pub name: String,
    pub args: String,
}

/// What a line that begins with a slash says: the first word, and what stands
/// behind it, trimmed.
pub open spec fn split_command(body: Seq<char>) -> (Seq<char>, Seq<char>) {
    let e = text::word_end(body, 0);
    (body.take(e), text::trimmed(body.skip(e)))
}

/// A line read as a command, if it begins with a slash.
pub open spec fn parsed(line: Seq<char>) -> Option<(Seq<char>, Seq<char>)> {
    let t = text::trimmed(line);
    if t.len() > 0 && t[0] == '/' {
        let (cmd, args) = split_command(t.skip(1));
        Some((resolved(cmd), args))
    } else {
        None
    }
}

/// Where the first word of a text ends.
fn first_word_end(v: &[char]) -> (e: usize)
    ensures
        e == text::word_end(v@, 0),
        e <= v@.len(),
{
    let mut e: usize = 0;
    while e < v.len() && !text::is_space(v[e])
        invariant
            e <= v.len(),
            text::word_end(v@, e as int) == text::word_end(v@, 0),
        decreases v.len() - e,
    {
        e = e + 1;
    }
    e
}

/// Reads a line as a command. A line that does not begin with a slash is none;
/// an unknown command has an empty name.
pub fn parse(line: &str) -> (r: Option<ParsedCommand>)
    ensures
        (match r {
            Some(p) => Some((p.name@, p.args@)),
            None => None,
        }) == parsed(line@),
{
    let t = text::trim(line);
    let v = text::chars_of(t);
    if v.len() == 0 || v[0] != '/' {
        return None;
    }
    let n: usize = v.len();
    let body = text::slice(t, 1, n);
    proof {
        assert(t@.subrange(1, n as int) =~= t@.skip(1));
    }
    let w = text::chars_of(body);
    let e: usize = first_word_end(&w);
    let m: usize = w.len();
    let cmd = text::slice(body, 0, e);
    let rest = text::slice(body, e, m);
    proof {
        assert(body@.subrange(0, e as int) =~= body@.take(e as int));
        assert(body@.subrange(e as int, m as int) =~= body@.skip(e as int));
    }
    Some(
        ParsedCommand {
            name: resolve_alias(cmd).to_string(),
            args: text::trim(rest).to_string(),
        },
    )
}

/// A text without the slash at its beginning, if it has one.
pub open spec fn without_slash(s: Seq<char>) -> Seq<char> {
    if s.len() > 0 && s[0] == '/' {
        s.skip(1)
    } else {
        s
    }
}

fn strip_slash<'a>(s: &'a str) -> (r: &'a str)
    ensures
        r@ == without_slash(s@),
{
    let v = text::chars_of(s);
    if v.len() > 0 && v[0] == '/' {
        let n: usize = v.len();
        let r = text::slice(s, 1, n);
        proof {
            assert(s@.subrange(1, n as int) =~= s@.skip(1));
        }
        r
    } else {
        s
    }
}

/// The first word of a line, without its slash.
pub open spec fn first_word(line: Seq<char>) -> Seq<char> {
    let body = text::trimmed_start(without_slash(text::trimmed(line)));
    body.take(text::word_end(body, 0))
}

/// The first word of a line, without its slash.
pub fn raw_name<'a>(line: &'a str) -> (r: &'a str)
    ensures
        r@ == first_word(line@),
{
    let body = text::trim_start(strip_slash(text::trim(line)));
    let w = text::chars_of(body);
    let e: usize = first_word_end(&w);
    let r = text::slice(body, 0, e);
    proof {
        assert(body@.subrange(0, e as int) =~= body@.take(e as int));
    }
    r
}

// ---------------------------------------------------------------------------
// Fuzzy matching
// ---------------------------------------------------------------------------

/// The first character of what `char::to_lowercase` makes of a character.
pub uninterp spec fn lowercase_first(c: char) -> char;

/// `char::to_lowercase`, its first character: the lower case by the Unicode
/// mapping, which depends on the character alone. An ASCII character has its
/// ASCII lower case.
#[verifier::external_body]
fn lower_first(c: char) -> (r: char)
    ensures
        r == lowercase_first(c),
        (c as u32) < 128 ==> r == text::ascii_lower_char(c),
{
    c.to_lowercase().next().unwrap_or(c)
}

/// A text in lower case, character by character.
pub open spec fn lowered(s: Seq<char>) -> Seq<char> {
    s.map_values(|c: char| lowercase_first(c))
}

/// Whether the characters of a query stand in a text in their order, the first
/// fitting one being taken each time.
pub open spec fn matched(t: Seq<char>, q: Seq<char>) -> bool
    decreases t.len(),
{
    if q.len() == 0 {
        true
    } else if t.len() == 0 {
        false
    } else if t[0] == q[0] {
        matched(t.skip(1), q.skip(1))
    } else {
        matched(t.skip(1), q)
    }
}

/// Whether the characters of a query stand in a text in their order: what is
/// left when some characters of the text are dropped is the query.
pub open spec fn embeds(t: Seq<char>, q: Seq<char>) -> bool
    decreases t.len(),
{
    if q.len() == 0 {
        true
    } else if t.len() == 0 {
        false
    } else {
        embeds(t.skip(1), q) || (t[0] == q[0] && embeds(t.skip(1), q.skip(1)))
    }
}

/// Whether the characters of a query stand in a text, given in lower case, in
/// their order.
pub fn is_embedded(t: &[char], query: &str) -> (r: bool)
    ensures
        r == matched(t@, query@),
{
    let q = text::chars_of(query);
    let mut i: usize = 0;
    let mut k: usize = 0;
    proof {
        assert(t@.skip(0) =~= t@);
        assert(q@.skip(0) =~= q@);
    }
    while i < t.len() && k < q.len()
        invariant
            q@ == query@,
            i <= t.len(),
            k <= q.len(),
            matched(t@.skip(i as int), q@.skip(k as int)) == matched(t@, query@),
        decreases t.len() - i,
    {
        proof {
            assert(t@.skip(i as int).skip(1) =~= t@.skip(i + 1));
            assert(q@.skip(k as int).skip(1) =~= q@.skip(k + 1));
        }
        if t[i] == q[k] {
            k = k + 1;
        }
        i = i + 1;
    }
    k == q.len()
}

/// Whether the characters of a query stand in a text in their order, whatever
/// the case of the text.
pub fn fuzzy_match(text: &str, query: &str) -> (r: bool)
    ensures
        r == matched(lowered(text@), query@),
        text::all_ascii(text@) ==> r == matched(text::ascii_lower(text@), query@),
{
    let v = text::chars_of(text);
    let mut low: Vec<char> = Vec::new();
    let mut i: usize = 0;
    while i < v.len()
        invariant
            v@ == text@,
            i <= v.len(),
            low.len() == i,
            forall|k: int| 0 <= k < i ==> #[trigger] low@[k] == lowercase_first(v@[k]),
            forall|k: int|
                0 <= k < i && (v@[k] as u32) < 128 ==> #[trigger] low@[k]
                    == text::ascii_lower_char(v@[k]),
        decreases v.len() - i,
    {
        low.push(lower_first(v[i]));
        i = i + 1;
    }
    proof {
        assert(low@ =~= lowered(text@));
        if text::all_ascii(text@) {
            assert(low@ =~= text::ascii_lower(text@));
        }
    }
    is_embedded(&low, query)
}

// ---------------------------------------------------------------------------
// Completion
// ---------------------------------------------------------------------------

/// A completion: what is shown, what is put in, and what it means.
#[derive(Debug, Clone)]
pub struct Suggestion {
    pub display: String,
    pub insert: String,
    pub description: &'static str,
}

/// The model of a completion.
pub struct SuggestionModel {
    pub display: Seq<char>,
    pub insert: Seq<char>,
    pub description: Seq<char>,
}

impl View for Suggestion {
    type V = SuggestionModel;

    open spec fn view(&self) -> SuggestionModel {
        SuggestionModel {
            display: self.display@,
            insert: self.insert@,
            description: self.description@,
        }
    }
}

/// The models of completions.
pub open spec fn suggestion_views(v: Seq<Suggestion>) -> Seq<SuggestionModel> {
    v.map_values(|s: Suggestion| s@)
}

/// The names that arguments are completed from.
#[derive(Debug, Clone)]
pub struct CompletionContext {
    pub models: Vec<String>,
    pub endpoints: Vec<String>,
    pub mcp: Vec<String>,
    pub languages: Vec<String>,
}

impl Default for CompletionContext {
    fn default() -> (r: Self)
        ensures
            r.models@.len() == 0,
            r.endpoints@.len() == 0,
            r.mcp@.len() == 0,
            r.languages@.len() == 0,
    {
        CompletionContext {
            models: Vec::new(),
            endpoints: Vec::new(),
            mcp: Vec::new(),
            languages: Vec::new(),
        }
    }
}

/// The word that a command is suggested by for a query in lower case: one of
/// its other names that matches, or its name. For an empty query it is the
/// name.
pub open spec fn suggested_word(i: int, q: Seq<char>) -> Option<Seq<char>> {
    if q.len() == 0 {
        Some(name_of(i))
    } else if alias_of(i, 0).len() > 0 && matched(lowered(alias_of(i, 0)), q) {
        Some(alias_of(i, 0))
    } else if alias_of(i, 1).len() > 0 && matched(lowered(alias_of(i, 1)), q) {
        Some(alias_of(i, 1))
    } else if matched(lowered(name_of(i)), q) {
        Some(name_of(i))
    } else {
        None
    }
}

/// The suggestions of the first `n` commands for a query in lower case.
pub open spec fn suggestions(lang: Language, q: Seq<char>, n: nat) -> Seq<SuggestionModel>
    decreases n,
{
    if n == 0 {
        Seq::empty()
    } else {
        let rest = suggestions(lang, q, (n - 1) as nat);
        match suggested_word(n - 1, q) {
            Some(w) => rest.push(
                SuggestionModel {
                    display: "/"@ + w,
                    insert: "/"@ + w,
                    description: i18n::message(lang, COMMANDS@[n - 1].2@),
                },
            ),
            None => rest,
        }
    }
}

/// The word that a command is suggested by for a query in lower case.
fn word_for(i: usize, q: &str) -> (r: Option<&'static str>)
    requires
        i < COMMAND_COUNT,
    ensures
        (match r {
            Some(w) => Some(w@),
            None => None,
        }) == suggested_word(i as int, q@),
{
    let c = command(i);
    if q.is_empty() {
        return Some(c.name);
    }
    if !c.aliases[0].is_empty() && fuzzy_match(c.aliases[0], q) {
        return Some(c.aliases[0]);
    }
    if !c.aliases[1].is_empty() && fuzzy_match(c.aliases[1], q) {
        return Some(c.aliases[1]);
    }
    if fuzzy_match(c.name, q) {
        return Some(c.name);
    }
    None
}

/// A command line with a slash.
fn slashed(w: &str) -> (r: String)
    ensures
        r@ == "/"@ + w@,
{
    let mut out = "/".to_string();
    out.append(w);
    out
}

/// Suggests commands for a query in lower case.
pub fn suggest_lower(lang: Language, q: &str) -> (r: Vec<Suggestion>)
    ensures
        suggestion_views(r@) == suggestions(lang, q@, COMMAND_COUNT as nat),
{
    let mut out: Vec<Suggestion> = Vec::new();
    let mut i: usize = 0;
    proof {
        assert(suggestion_views(out@) =~= Seq::empty());
    }
    while i < COMMAND_COUNT
        invariant
            i <= COMMAND_COUNT,
            suggestion_views(out@) == suggestions(lang, q@, i as nat),
        decreases COMMAND_COUNT - i,
    {
        match word_for(i, q) {
            Some(w) => {
                let s = Suggestion {
                    display: slashed(w),
                    insert: slashed(w),
                    description: i18n::translate(lang, command(i).description),
                };
                let ghost before = suggestion_views(out@);
                out.push(s);
                proof {
                    assert(suggestion_views(out@) =~= before.push(s@));
                }
            },
            None => {},
        }
        i = i + 1;
    }
    out
}

/// Suggests commands for what was typed behind the slash.
pub fn suggest(lang: Language, query: &str) -> (r: Vec<Suggestion>)
    ensures
        suggestion_views(r@) == suggestions(
            lang,
            text::lowercase(text::trimmed(query@)),
            COMMAND_COUNT as nat,
        ),
{
    let q = text::to_lowercase(text::trim(query));
    suggest_lower(lang, q.as_str())
}

/// The names that the argument of a command is completed from, and what they
/// are called.
pub open spec fn candidates(cmd: Seq<char>, ctx: CompletionContext) -> Option<
    (Seq<Seq<char>>, Seq<char>),
> {
    if cmd == "model"@ {
        Some((text::views(ctx.models@), "model"@))
    } else if cmd == "endpoint"@ {
        Some((text::views(ctx.endpoints@), "endpoint"@))
    } else if cmd == "mcp"@ {
        Some((text::views(ctx.mcp@), "MCP server"@))
    } else if cmd == "language"@ {
        Some((text::views(ctx.languages@), "language"@))
    } else {
        None
    }
}

/// The names that the argument of a command is completed from.
fn arg_candidates<'a>(cmd: &str, ctx: &'a CompletionContext) -> (r: Option<
    (&'a Vec<String>, &'static str),
>)
    ensures
        (match r {
            Some((v, d)) => Some((text::views(v@), d@)),
            None => None,
        }) == candidates(cmd@, *ctx),
{
    if text::str_eq(cmd, "model") {
        Some((&ctx.models, "model"))
    } else if text::str_eq(cmd, "endpoint") {
        Some((&ctx.endpoints, "endpoint"))
    } else if text::str_eq(cmd, "mcp") {
        Some((&ctx.mcp, "MCP server"))
    } else if text::str_eq(cmd, "language") {
        Some((&ctx.languages, "language"))
    } else {
        None
    }
}

/// The completions of an argument by the names that contain it, whatever the
/// case.
pub open spec fn argument_suggestions(
    lang: Language,
    cmd: Seq<char>,
    names: Seq<Seq<char>>,
    label: Seq<char>,
    q: Seq<char>,
) -> Seq<SuggestionModel>
    decreases names.len(),
{
    if names.len() == 0 {
        Seq::empty()
    } else {
        let rest = argument_suggestions(lang, cmd, names.drop_last(), label, q);
        let c = names.last();
        if text::contains(text::lowercase(c), q) {
            rest.push(
                SuggestionModel {
                    display: c,
                    insert: "/"@ + cmd + " "@ + c,
                    description: i18n::message(lang, label),
                },
            )
        } else {
            rest
        }
    }
}

/// The completions of what was typed: of the command while no white space
/// stands behind it, and of its argument from then on.
pub open spec fn completions(lang: Language, query: Seq<char>, ctx: CompletionContext) -> Seq<
    SuggestionModel,
> {
    let body = without_slash(query);
    let e = text::word_end(body, 0);
    if e >= body.len() {
        suggestions(lang, text::lowercase(text::trimmed(body)), COMMAND_COUNT as nat)
    } else {
        let cmd = resolved(body.take(e));
        match candidates(cmd, ctx) {
            Some((names, label)) => {
                let words = text::words_of(body.skip(e + 1));
                let arg = if words.len() > 0 {
                    words[0]
                } else {
                    Seq::empty()
                };
                argument_suggestions(lang, cmd, names, label, text::lowercase(arg))
            },
            None => Seq::empty(),
        }
    }
}

/// The completions of an argument, given in lower case, by names.
fn suggest_names(
    lang: Language,
    cmd: &str,
    names: &Vec<String>,
    label: &'static str,
    q: &str,
) -> (r: Vec<Suggestion>)
    ensures
        suggestion_views(r@) == argument_suggestions(
            lang,
            cmd@,
            text::views(names@),
            label@,
            q@,
        ),
{
    let ghost all = text::views(names@);
    let mut out: Vec<Suggestion> = Vec::new();
    let mut i: usize = 0;
    proof {
        assert(suggestion_views(out@) =~= Seq::empty());
        assert(all.take(0) =~= Seq::empty());
    }
    while i < names.len()
        invariant
            i <= names.len(),
            all == text::views(names@),
            suggestion_views(out@) == argument_suggestions(
                lang,
                cmd@,
                all.take(i as int),
                label@,
                q@,
            ),
        decreases names.len() - i,
    {
        let c = &names[i];
        let lc = text::to_lowercase(c.as_str());
        proof {
            assert(all.take(i + 1).drop_last() =~= all.take(i as int));
            assert(all.take(i + 1).last() == c@);
        }
        if text::has(lc.as_str(), q) {
            let mut insert = slashed(cmd);
            insert.append(" ");
            insert.append(c.as_str());
            let s = Suggestion {
                display: c.clone(),
                insert,
                description: i18n::translate(lang, label),
            };
            let ghost before = suggestion_views(out@);
            out.push(s);
            proof {
                assert(suggestion_views(out@) =~= before.push(s@));
            }
        }
        i = i + 1;
    }
    proof {
        assert(all.take(i as int) =~= all);
    }
    out
}

/// Completes what was typed.
pub fn suggest_with(lang: Language, query: &str, ctx: &CompletionContext) -> (r: Vec<Suggestion>)
    ensures
        suggestion_views(r@) == completions(lang, query@, *ctx),
{
    let body = strip_slash(query);
    let w = text::chars_of(body);
    let e: usize = first_word_end(&w);
    if e >= w.len() {
        return suggest(lang, body);
    }
    let n: usize = w.len();
    let cmd_raw = text::slice(body, 0, e);
    let rest = text::slice(body, e + 1, n);
    proof {
        assert(body@.subrange(0, e as int) =~= body@.take(e as int));
        assert(body@.subrange(e + 1, n as int) =~= body@.skip(e + 1));
    }
    let cmd = resolve_alias(cmd_raw);
    match arg_candidates(cmd, ctx) {
        Some((names, label)) => {
            let words = text::words(rest);
            proof {
                assert(text::views(words@).len() == words@.len());
            }
            let arg = if words.len() > 0 {
                words[0].clone()
            } else {
                String::new()
            };
            let q = text::to_lowercase(arg.as_str());
            suggest_names(lang, cmd, names, label, q.as_str())
        },
        None => {
            let none: Vec<Suggestion> = Vec::new();
            proof {
                assert(suggestion_views(none@) =~= Seq::empty());
            }
            none
        },
    }
}

// ---------------------------------------------------------------------------
// Edit distance
// ---------------------------------------------------------------------------

/// The smaller of two numbers.
pub open spec fn smaller(a: nat, b: nat) -> nat {
    if a <= b {
        a
    } else {
        b
    }
}

/// The number of insertions, deletions and replacements of a character that it
/// takes to make one text of another.
pub open spec fn distance(a: Seq<char>, b: Seq<char>) -> nat
    decreases a.len() + b.len(),
{
    if a.len() == 0 {
        b.len()
    } else if b.len() == 0 {
        a.len()
    } else {
        let drop_a = distance(a.drop_last(), b) + 1;
        let drop_b = distance(a, b.drop_last()) + 1;
        let both = distance(a.drop_last(), b.drop_last()) + (if a.last() == b.last() {
            0nat
        } else {
            1nat
        });
        smaller(smaller(drop_a, drop_b), both)
    }
}

/// The distance is at most the length of the longer text.
pub proof fn lemma_distance_bound(a: Seq<char>, b: Seq<char>)
    ensures
        distance(a, b) <= a.len() + b.len(),
        distance(a, b) <= a.len() || distance(a, b) <= b.len(),
    decreases a.len() + b.len(),
{
    if a.len() > 0 && b.len() > 0 {
        lemma_distance_bound(a.drop_last(), b.drop_last());
    }
}

/// The distance is the same in both directions.
pub proof fn law_distance_symmetric(a: Seq<char>, b: Seq<char>)
    ensures
        distance(a, b) == distance(b, a),
    decreases a.len() + b.len(),
{
    if a.len() > 0 && b.len() > 0 {
        law_distance_symmetric(a.drop_last(), b);
        law_distance_symmetric(a, b.drop_last());
        law_distance_symmetric(a.drop_last(), b.drop_last());
    }
}

/// The distance is zero between equal texts and between no others.
pub proof fn law_distance_zero_iff_equal(a: Seq<char>, b: Seq<char>)
    ensures
        distance(a, b) == 0 <==> a == b,
    decreases a.len() + b.len(),
{
    if a.len() == 0 || b.len() == 0 {
        if distance(a, b) == 0 {
            assert(a =~= b);
        }
    } else {
        law_distance_zero_iff_equal(a.drop_last(), b.drop_last());
        if distance(a, b) == 0 {
            assert(a =~= a.drop_last().push(a.last()));
            assert(b =~= b.drop_last().push(b.last()));
        }
    }
}

/// The distance is never below the difference of the lengths.
pub proof fn law_distance_length_difference(a: Seq<char>, b: Seq<char>)
    ensures
        a.len() <= b.len() + distance(a, b),
        b.len() <= a.len() + distance(a, b),
    decreases a.len() + b.len(),
{
    if a.len() > 0 && b.len() > 0 {
        law_distance_length_difference(a.drop_last(), b);
        law_distance_length_difference(a, b.drop_last());
        law_distance_length_difference(a.drop_last(), b.drop_last());
    }
}

fn min_of(a: usize, b: usize) -> (r: usize)
    ensures
        r == smaller(a as nat, b as nat),
{
    if a <= b {
        a
    } else {
        b
    }
}

/// The edit distance of two texts.
pub fn levenshtein(a: &str, b: &str) -> (r: usize)
    ensures
        r == distance(a@, b@),
{
    let x = text::chars_of(a);
    let y = text::chars_of(b);
    let mut prev: Vec<usize> = Vec::new();
    while prev.len() <= y.len()
        invariant
            prev.len() <= y.len() + 1,
            forall|k: int|
                0 <= k < prev.len() ==> #[trigger] prev@[k] == distance(x@.take(0), y@.take(k)),
        decreases y.len() + 1 - prev.len(),
    {
        prev.push(prev.len());
    }
    let mut i: usize = 0;
    while i < x.len()
        invariant
            i <= x.len(),
            prev.len() == y.len() + 1,
            forall|k: int|
                0 <= k <= y.len() ==> #[trigger] prev@[k] == distance(
                    x@.take(i as int),
                    y@.take(k),
                ),
        decreases x.len() - i,
    {
        let mut cur: Vec<usize> = Vec::new();
        cur.push(i + 1);
        let mut j: usize = 0;
        while j < y.len()
            invariant
                i < x.len(),
                j <= y.len(),
                prev.len() == y.len() + 1,
                cur.len() == j + 1,
                forall|k: int|
                    0 <= k <= y.len() ==> #[trigger] prev@[k] == distance(
                        x@.take(i as int),
                        y@.take(k),
                    ),
                forall|k: int|
                    0 <= k <= j ==> #[trigger] cur@[k] == distance(x@.take(i + 1), y@.take(k)),
            decreases y.len() - j,
        {
            let cost: usize = if x[i] == y[j] {
                0
            } else {
                1
            };
            proof {
                let p = x@.take(i + 1);
                let q = y@.take(j + 1);
                assert(p.drop_last() =~= x@.take(i as int));
                assert(q.drop_last() =~= y@.take(j as int));
                lemma_distance_bound(x@.take(i as int), q);
                lemma_distance_bound(x@.take(i as int), y@.take(j as int));
                assert(prev@[j + 1] == distance(x@.take(i as int), q));
                assert(cur@[j as int] == distance(p, y@.take(j as int)));
                assert(prev@[j as int] == distance(x@.take(i as int), y@.take(j as int)));
            }
            let d: usize = min_of(min_of(prev[j + 1], cur[j]) + 1, prev[j] + cost);
            cur.push(d);
            j = j + 1;
        }
        prev = cur;
        i = i + 1;
    }
    proof {
        assert(x@.take(i as int) =~= a@);
        assert(y@.take(y@.len() as int) =~= b@);
        assert(prev@[y@.len() as int] == distance(x@.take(i as int), y@.take(y@.len() as int)));
    }
    prev[y.len()]
}

// ---------------------------------------------------------------------------
// Similar commands
// ---------------------------------------------------------------------------

/// The distance of a query from the nearest name of a command.
pub open spec fn command_distance(i: int, q: Seq<char>) -> nat {
    let d = distance(name_of(i), q);
    let d0 = if alias_of(i, 0).len() > 0 {
        smaller(d, distance(alias_of(i, 0), q))
    } else {
        d
    };
    if alias_of(i, 1).len() > 0 {
        smaller(d0, distance(alias_of(i, 1), q))
    } else {
        d0
    }
}

/// The distance up to which a command is similar to a query: one for a short
/// query, two for a longer one.
pub open spec fn tolerance(q: Seq<char>) -> nat {
    if text::byte_len(q) <= 4 {
        1
    } else {
        2
    }
}

/// Whether a command comes before another in the order of similarity: it is
/// nearer, or as near and its name comes first.
pub open spec fn ranks_before(a: (nat, Seq<char>), b: (nat, Seq<char>)) -> bool {
    a.0 < b.0 || (a.0 == b.0 && text::before(a.1, b.1))
}

/// The number of leading entries that rank before the given one.
pub open spec fn rank_of(v: Seq<(nat, Seq<char>)>, e: (nat, Seq<char>)) -> int
    decreases v.len(),
{
    if v.len() == 0 || !ranks_before(v[0], e) {
        0
    } else {
        1 + rank_of(v.skip(1), e)
    }
}

/// The similar ones among the first `n` commands, the most similar first.
pub open spec fn ranked(q: Seq<char>, n: nat) -> Seq<(nat, Seq<char>)>
    decreases n,
{
    if n == 0 {
        Seq::empty()
    } else {
        let rest = ranked(q, (n - 1) as nat);
        let d = command_distance(n - 1, q);
        if d <= tolerance(q) {
            let e = (d, name_of(n - 1));
            rest.insert(rank_of(rest, e), e)
        } else {
            rest
        }
    }
}

/// The three commands that are most similar to a query in lower case.
pub open spec fn similar(q: Seq<char>) -> Seq<Seq<char>> {
    if q.len() == 0 {
        Seq::empty()
    } else {
        let all = ranked(q, COMMAND_COUNT as nat);
        (if all.len() > 3 {
            all.take(3)
        } else {
            all
        }).map_values(|e: (nat, Seq<char>)| e.1)
    }
}

/// The view of ranked commands.
pub open spec fn rank_views(v: Seq<(usize, String)>) -> Seq<(nat, Seq<char>)> {
    v.map_values(|e: (usize, String)| (e.0 as nat, e.1@))
}

proof fn lemma_rank_bound(v: Seq<(nat, Seq<char>)>, e: (nat, Seq<char>))
    ensures
        0 <= rank_of(v, e) <= v.len(),
    decreases v.len(),
{
    if v.len() > 0 && ranks_before(v[0], e) {
        lemma_rank_bound(v.skip(1), e);
    }
}

/// Puts a command into its place among the ranked ones.
fn insert_ranked(v: &mut Vec<(usize, String)>, d: usize, name: String)
    ensures
        rank_views(final(v)@) == rank_views(old(v)@).insert(
            rank_of(rank_views(old(v)@), (d as nat, name@)),
            (d as nat, name@),
        ),
{
    let ghost all = rank_views(v@);
    let ghost e = (d as nat, name@);
    let mut k: usize = 0;
    proof {
        assert(all.skip(0) =~= all);
        lemma_rank_bound(all, e);
    }
    while k < v.len() && (v[k].0 < d || (v[k].0 == d && text::is_before(
        v[k].1.as_str(),
        name.as_str(),
    )))
        invariant
            k <= v.len(),
            all == rank_views(v@),
            e == (d as nat, name@),
            k + rank_of(all.skip(k as int), e) == rank_of(all, e),
        decreases v.len() - k,
    {
        proof {
            assert(all.skip(k as int)[0] == (v@[k as int].0 as nat, v@[k as int].1@));
            assert(all.skip(k as int).skip(1) =~= all.skip(k + 1));
        }
        k = k + 1;
    }
    proof {
        if k < v.len() {
            assert(all.skip(k as int)[0] == (v@[k as int].0 as nat, v@[k as int].1@));
        }
    }
    v.insert(k, (d, name));
    proof {
        assert(rank_views(v@) =~= all.insert(k as int, e));
    }
}

/// The distance of a query from the nearest name of a command.
fn nearest(i: usize, q: &str) -> (r: usize)
    requires
        i < COMMAND_COUNT,
    ensures
        r == command_distance(i as int, q@),
{
    let c = command(i);
    let mut d: usize = levenshtein(c.name, q);
    if !c.aliases[0].is_empty() {
        d = min_of(d, levenshtein(c.aliases[0], q));
    }
    if !c.aliases[1].is_empty() {
        d = min_of(d, levenshtein(c.aliases[1], q));
    }
    d
}

/// The names of the three commands that are most similar to a query in lower
/// case.
pub fn similar_lower(q: &str) -> (r: Vec<String>)
    ensures
        text::views(r@) == similar(q@),
{
    let mut out: Vec<String> = Vec::new();
    proof {
        assert(text::views(out@) =~= Seq::empty());
    }
    if q.is_empty() {
        return out;
    }
    let limit: usize = if q.len() <= 4 {
        1
    } else {
        2
    };
    let mut scored: Vec<(usize, String)> = Vec::new();
    let mut i: usize = 0;
    proof {
        assert(rank_views(scored@) =~= Seq::empty());
    }
    while i < COMMAND_COUNT
        invariant
            i <= COMMAND_COUNT,
            limit == tolerance(q@),
            rank_views(scored@) == ranked(q@, i as nat),
        decreases COMMAND_COUNT - i,
    {
        let d: usize = nearest(i, q);
        if d <= limit {
            insert_ranked(&mut scored, d, command(i).name.to_string());
        }
        i = i + 1;
    }
    let ghost all = ranked(q@, COMMAND_COUNT as nat);
    let ghost want = similar(q@);
    let mut k: usize = 0;
    while k < scored.len() && k < 3
        invariant
            k <= scored.len(),
            k <= 3,
            all == rank_views(scored@),
            want == (if all.len() > 3 {
                all.take(3)
            } else {
                all
            }).map_values(|e: (nat, Seq<char>)| e.1),
            text::views(out@) == want.take(k as int),
        decreases scored.len() - k,
    {
        let ghost before = text::views(out@);
        out.push(scored[k].1.clone());
        proof {
            assert(text::views(out@) =~= before.push(scored@[k as int].1@));
            assert(all[k as int] == (scored@[k as int].0 as nat, scored@[k as int].1@));
            assert(want.take(k + 1) =~= want.take(k as int).push(want[k as int]));
        }
        k = k + 1;
    }
    proof {
        assert(want.take(k as int) =~= want);
    }
    out
}

/// The names of the commands that a mistyped one is similar to, the most
/// similar first, three at most.
pub fn suggest_similar(input: &str) -> (r: Vec<String>)
    ensures
        text::views(r@) == similar(text::lowercase(text::trimmed(input@))),
{
    let q = text::to_lowercase(text::trim(input));
    similar_lower(q.as_str())
}

// ---------------------------------------------------------------------------
// Laws
// ---------------------------------------------------------------------------

/// A query that is embedded in the tail of a text is embedded in the text.
proof fn lemma_embeds_more(t: Seq<char>, q: Seq<char>)
    requires
        t.len() > 0,
        embeds(t.skip(1), q),
    ensures
        embeds(t, q),
{
}

/// A text that embeds a query embeds the query without its first character.
proof fn lemma_embeds_less(t: Seq<char>, q: Seq<char>)
    requires
        q.len() > 0,
        embeds(t, q),
    ensures
        embeds(t, q.skip(1)),
    decreases t.len(),
{
    if t.len() > 0 {
        if embeds(t.skip(1), q) {
            lemma_embeds_less(t.skip(1), q);
            lemma_embeds_more(t, q.skip(1));
        } else {
            lemma_embeds_more(t, q.skip(1));
        }
    }
}

/// Taking the first fitting character each time misses nothing: a query
/// matches exactly where its characters stand in the text in their order.
pub proof fn law_fuzzy_match_is_embedding(t: Seq<char>, q: Seq<char>)
    ensures
        matched(t, q) == embeds(t, q),
    decreases t.len(),
{
    if q.len() > 0 && t.len() > 0 {
        law_fuzzy_match_is_embedding(t.skip(1), q);
        law_fuzzy_match_is_embedding(t.skip(1), q.skip(1));
        if t[0] == q[0] && embeds(t.skip(1), q) {
            lemma_embeds_less(t.skip(1), q);
        }
    }
}

/// An empty query matches everything.
pub proof fn law_empty_query_matches(t: Seq<char>, q: Seq<char>)
    requires
        q.len() == 0,
    ensures
        matched(t, q),
{
}

/// A word that names a command resolves to the first command that it names.
pub proof fn law_known_words_resolve(cmd: Seq<char>, i: int)
    requires
        0 <= i < COMMAND_COUNT,
        names(i, cmd),
    ensures
        exists|k: int|
            0 <= k <= i && #[trigger] names(k, cmd) && resolved(cmd) == name_of(k) && forall|j: int|
                0 <= j < k ==> !names(j, cmd),
{
    lemma_command_from(cmd, 0);
    match command_from(cmd, 0) {
        Some(k) => {
            assert(names(k, cmd));
            assert(k <= i);
        },
        None => {
            lemma_no_command(cmd, 0, i);
        },
    }
}

/// A word that names no command from `i` on is not found from there.
proof fn lemma_no_command(cmd: Seq<char>, i: int, k: int)
    requires
        0 <= i <= k < COMMAND_COUNT,
        command_from(cmd, i) is None,
    ensures
        !names(k, cmd),
    decreases COMMAND_COUNT - i,
{
    if i < k {
        lemma_no_command(cmd, i + 1, k);
    }
}

proof fn lemma_command_from(cmd: Seq<char>, i: int)
    requires
        0 <= i,
    ensures
        command_from(cmd, i) matches Some(k) ==> i <= k < COMMAND_COUNT && names(k, cmd)
            && forall|j: int| i <= j < k ==> !names(j, cmd),
    decreases COMMAND_COUNT - i,
{
    if i >= COMMAND_COUNT {
    } else if names(i, cmd) {
    } else {
        lemma_command_from(cmd, i + 1);
    }
}

/// There are never more than three suggestions of similar commands.
pub proof fn law_at_most_three_similar(q: Seq<char>)
    ensures
        similar(q).len() <= 3,
{
}

/// Whether ranked commands stand in the order of similarity.
pub open spec fn in_rank_order(v: Seq<(nat, Seq<char>)>) -> bool {
    forall|i: int, j: int| 0 <= i < j < v.len() ==> !ranks_before(#[trigger] v[j], #[trigger] v[i])
}

/// The commands similar to a query stand in the order of similarity.
pub proof fn law_similar_in_rank_order(q: Seq<char>, n: nat)
    ensures
        in_rank_order(ranked(q, n)),
    decreases n,
{
    if n > 0 {
        law_similar_in_rank_order(q, (n - 1) as nat);
        let rest = ranked(q, (n - 1) as nat);
        let d = command_distance(n - 1, q);
        if d <= tolerance(q) {
            let e = (d, name_of(n - 1));
            lemma_rank(rest, e);
            let k = rank_of(rest, e);
            let out = rest.insert(k, e);
            text::lemma_before_irreflexive(e.1);
            assert forall|i: int, j: int| 0 <= i < j < out.len() implies !ranks_before(
                #[trigger] out[j],
                #[trigger] out[i],
            ) by {
                let oi = if i < k {
                    i
                } else {
                    i - 1
                };
                let oj = if j < k {
                    j
                } else {
                    j - 1
                };
                if i != k {
                    assert(out[i] == rest[oi]);
                }
                if j != k {
                    assert(out[j] == rest[oj]);
                }
                if i == k {
                    if ranks_before(rest[oj], e) {
                        if oj > k {
                            lemma_ranks_transitive_not(rest[oj], e, rest[k]);
                        }
                    }
                } else if j == k {
                    if ranks_before(e, rest[oi]) {
                        lemma_ranks_asymmetric(rest[oi], e);
                    }
                }
            }
        }
    }
}

proof fn lemma_rank(v: Seq<(nat, Seq<char>)>, e: (nat, Seq<char>))
    ensures
        0 <= rank_of(v, e) <= v.len(),
        forall|i: int| 0 <= i < rank_of(v, e) ==> ranks_before(#[trigger] v[i], e),
        rank_of(v, e) < v.len() ==> !ranks_before(v[rank_of(v, e)], e),
    decreases v.len(),
{
    if v.len() > 0 && ranks_before(v[0], e) {
        lemma_rank(v.skip(1), e);
        assert forall|i: int| 0 <= i < rank_of(v, e) implies ranks_before(#[trigger] v[i], e) by {
            if i > 0 {
                assert(v[i] == v.skip(1)[i - 1]);
            }
        }
    }
}

proof fn lemma_ranks_asymmetric(a: (nat, Seq<char>), b: (nat, Seq<char>))
    requires
        ranks_before(a, b),
    ensures
        !ranks_before(b, a),
{
    if ranks_before(b, a) {
        if a.0 == b.0 {
            text::lemma_before_transitive(a.1, b.1, a.1);
            text::lemma_before_irreflexive(a.1);
        }
    }
}

/// What ranks before an entry ranks before all that do not rank before it.
proof fn lemma_ranks_transitive_not(
    a: (nat, Seq<char>),
    e: (nat, Seq<char>),
    b: (nat, Seq<char>),
)
    requires
        ranks_before(a, e),
        !ranks_before(b, e),
    ensures
        ranks_before(a, b),
{
    text::lemma_before_total(b.1, e.1);
    if a.0 == e.0 && e.0 == b.0 {
        if b.1 == e.1 {
        } else {
            text::lemma_before_transitive(a.1, e.1, b.1);
        }
    }
}

} // verus!
