//! The completion providers and how they are selected.

use vstd::prelude::*;
use vstd::string::*;

use crate::agent::extract::{trim, trimmed};
use crate::text::{
    begins, chars_of, contains_text, fill1, fill2, fmt, join, join_strings, occurs, starts_with,
    str_eq, string_of, views,
};

verus! {

/// A completion provider: it turns a prompt into the model's raw reply. A failure
/// is a message, never a panic.
pub trait Provider {
    /// Complete a prompt.
    fn complete(&mut self, prompt: &str) -> Result<String, String>;

    /// A short label for transcripts and reports.
    fn label(&self) -> String;
}

// ---------------------------------------------------------------------------
// Providers
// ---------------------------------------------------------------------------

/// A provider that is a shell command: the prompt goes to its standard input, and
/// its standard output is the reply.
#[derive(Debug)]
pub struct CmdProvider {
    pub shell: String,
    pub name: String,
}

impl CmdProvider {
    /// A provider for a raw shell command.
    pub fn new(shell: &str) -> (r: CmdProvider)
        ensures
            r.shell@ == shell@,
            r.name@ == fmt("cmd:{}"@, seq![shell@]),
    {
        CmdProvider { shell: shell.to_owned(), name: fill1("cmd:{}", shell) }
    }

    /// A provider for a shell command under a name.
    pub fn named(name: &str, shell: String) -> (r: CmdProvider)
        ensures
            r.shell@ == shell@,
            r.name@ == name@,
    {
        CmdProvider { shell, name: name.to_owned() }
    }
}

/// Built-in deterministic provider: the first reply, without feedback, is a
/// program with a type error that the checker finds; every later one is the
/// corrected program.
#[derive(Debug)]
pub struct MockProvider {
    /// The number of completions so far.
    pub calls: usize,
}

/// The first attempt's text.
pub const BUGGY: &'static str =
    "fn sum_to(n: Int) -> Int =\n  if n == 0 { 0 } else { n + sum_to(n - 1) }\n\nfn main() -> Int = {\n  print_int(sum_to(10));\n  \"done\"\n}\n";

/// The corrected attempt's text.
pub const FIXED: &'static str =
    "fn sum_to(n: Int) -> Int =\n  if n == 0 { 0 } else { n + sum_to(n - 1) }\n\nfn main() -> Int = {\n  print_int(sum_to(10));\n  sum_to(10)\n}\n";

impl MockProvider {
    /// A provider that was not asked yet.
    pub fn new() -> (r: MockProvider)
        ensures
            r.calls == 0,
    {
        MockProvider { calls: 0 }
    }

    /// The first attempt, as a text.
    pub open spec fn buggy() -> Seq<char> {
        BUGGY@
    }

    /// The corrected attempt, as a text.
    pub open spec fn fixed() -> Seq<char> {
        FIXED@
    }

    /// First attempt: it declares `-> Int`, but the body is a `String`.
    pub fn buggy_program() -> (r: &'static str)
        ensures
            r@ == Self::buggy(),
    {
        BUGGY
    }

    /// Corrected attempt: `main` returns an `Int`.
    pub fn fixed_program() -> (r: &'static str)
        ensures
            r@ == Self::fixed(),
    {
        FIXED
    }

    /// The reply to a prompt after a number of calls: the buggy program only for
    /// the first call, and only where the prompt carries no feedback.
    pub open spec fn reply(calls: int, prompt: Seq<char>) -> Seq<char> {
        if calls == 0 && !occurs(prompt, "Your program had these errors"@) {
            fmt("Here is the program:\n```aria\n{}```\n"@, seq![Self::buggy()])
        } else {
            fmt("```aria\n{}```"@, seq![Self::fixed()])
        }
    }

    /// The reply to a prompt.
    pub fn answer(&mut self, prompt: &str) -> (r: String)
        ensures
            r@ == Self::reply(old(self).calls as int, prompt@),
            final(self).calls == if old(self).calls == usize::MAX {
                usize::MAX
            } else {
                (old(self).calls + 1) as usize
            },
    {
        let n: usize = self.calls;
        if n < usize::MAX {
            self.calls = n + 1;
        }
        if n == 0 && !contains_text(prompt, "Your program had these errors") {
            fill1("Here is the program:\n```aria\n{}```\n", Self::buggy_program())
        } else {
            fill1("```aria\n{}```", Self::fixed_program())
        }
    }
}

impl Default for MockProvider {
    fn default() -> (r: MockProvider)
        ensures
            r.calls == 0,
    {
        MockProvider::new()
    }
}

impl Provider for MockProvider {
    fn complete(&mut self, prompt: &str) -> (r: Result<String, String>)
        ensures
            r is Ok,
            r->Ok_0@ == Self::reply(old(self).calls as int, prompt@),
            final(self).calls == if old(self).calls == usize::MAX {
                usize::MAX
            } else {
                (old(self).calls + 1) as usize
            },
    {
        Ok(self.answer(prompt))
    }

    fn label(&self) -> (r: String)
        ensures
            r@ == "mock"@,
    {
        "mock".to_owned()
    }
}

/// A provider whose every reply is the same program, fenced.
#[derive(Debug)]
pub struct FixedProvider {
    pub program: String,
    pub name: String,
}

impl FixedProvider {
    /// A provider of a program under a name.
    pub fn new(program: &str, name: &str) -> (r: FixedProvider)
        ensures
            r.program@ == program@,
            r.name@ == name@,
    {
        FixedProvider { program: program.to_owned(), name: name.to_owned() }
    }
}

impl Provider for FixedProvider {
    fn complete(&mut self, _prompt: &str) -> (r: Result<String, String>)
        ensures
            r is Ok,
            r->Ok_0@ == fmt("```aria\n{}```"@, seq![old(self).program@]),
            *final(self) == *old(self),
    {
        Ok(fill1("```aria\n{}```", self.program.as_str()))
    }

    fn label(&self) -> (r: String)
        ensures
            r@ == self.name@,
    {
        self.name.clone()
    }
}

// ---------------------------------------------------------------------------
// Selection
// ---------------------------------------------------------------------------

/// A selected provider.
#[derive(Debug)]
pub enum ProviderChoice {
    /// The deterministic built-in.
    Mock(MockProvider),
    /// A shell command.
    Command(CmdProvider),
    /// A local model, by its path. Its command also names a file with the grammar
    /// that constrains the decoding ([`llama_command`]).
    Llama(String),
}

/// A selected provider, as a model.
pub enum ChoiceV {
    /// The built-in, by the calls that it has answered.
    Mock(nat),
    Command { name: Seq<char>, shell: Seq<char> },
    Llama(Seq<char>),
}

impl ProviderChoice {
    /// The choice's model.
    pub open spec fn view(&self) -> ChoiceV {
        match self {
            ProviderChoice::Mock(m) => ChoiceV::Mock(m.calls as nat),
            ProviderChoice::Command(c) => ChoiceV::Command { name: c.name@, shell: c.shell@ },
            ProviderChoice::Llama(m) => ChoiceV::Llama(m@),
        }
    }

    /// A short label for transcripts and reports.
    pub fn label(&self) -> (r: String)
        ensures
            r@ == match self@ {
                ChoiceV::Mock(_) => "mock"@,
                ChoiceV::Command { name, shell } => name,
                ChoiceV::Llama(m) => fmt("llama:{}"@, seq![m]),
            },
    {
        match self {
            ProviderChoice::Mock(_) => "mock".to_owned(),
            ProviderChoice::Command(c) => c.name.clone(),
            ProviderChoice::Llama(m) => fill1("llama:{}", m.as_str()),
        }
    }
}

/// A named shell command.
#[derive(Debug)]
pub struct Preset {
    pub name: String,
    pub command: String,
}

/// The commands that can be selected by name: agentic command-line tools and cloud
/// models.
#[derive(Debug)]
pub struct Presets {
    pub tools: Vec<Preset>,
    pub clouds: Vec<Preset>,
}

/// The contents of a list of presets.
pub open spec fn preset_views(v: Seq<Preset>) -> Seq<(Seq<char>, Seq<char>)> {
    v.map_values(|p: Preset| (p.name@, p.command@))
}

impl Presets {
    /// The presets: a tool that is called by its name, Codex, and the two cloud
    /// models, of which the first has a default model.
    pub fn standard(tool: &str, model: &str) -> (r: Presets)
        ensures
            preset_views(r.tools@) == seq![
                (tool@, fmt("{} -p"@, seq![tool@])),
                ("codex"@, CODEX@),
            ],
            preset_views(r.clouds@) == seq![
                ("anthropic"@, fmt(ANTHROPIC@, seq![model@])),
                ("openai"@, OPENAI@),
            ],
    {
        let tools: Vec<Preset> = vec![
            Preset { name: tool.to_owned(), command: claude_command(tool) },
            Preset { name: "codex".to_owned(), command: codex_command() },
        ];
        let clouds: Vec<Preset> = vec![
            Preset { name: "anthropic".to_owned(), command: anthropic_command(model) },
            Preset { name: "openai".to_owned(), command: openai_command() },
        ];
        proof {
            assert(preset_views(tools@) =~= seq![
                (tool@, fmt("{} -p"@, seq![tool@])),
                ("codex"@, CODEX@),
            ]);
            assert(preset_views(clouds@) =~= seq![
                ("anthropic"@, fmt(ANTHROPIC@, seq![model@])),
                ("openai"@, OPENAI@),
            ]);
        }
        Presets { tools, clouds }
    }
}

/// The first command of a name.
pub open spec fn command_named(ps: Seq<(Seq<char>, Seq<char>)>, name: Seq<char>) -> Option<
    Seq<char>,
>
    decreases ps.len(),
{
    if ps.len() == 0 {
        None
    } else if ps[0].0 == name {
        Some(ps[0].1)
    } else {
        command_named(ps.drop_first(), name)
    }
}

/// What can be selected, in the order of the help text.
pub open spec fn options(
    tools: Seq<(Seq<char>, Seq<char>)>,
    clouds: Seq<(Seq<char>, Seq<char>)>,
) -> Seq<Seq<char>> {
    seq!["mock"@, "cmd:<shell>"@] + tools.map_values(|p: (Seq<char>, Seq<char>)| p.0) + seq![
        "llama:<model.gguf>"@,
    ] + clouds.map_values(|p: (Seq<char>, Seq<char>)| p.0)
}

/// The provider that a `--provider` value selects.
pub open spec fn chosen(
    spec: Seq<char>,
    tools: Seq<(Seq<char>, Seq<char>)>,
    clouds: Seq<(Seq<char>, Seq<char>)>,
) -> Result<ChoiceV, Seq<char>> {
    if spec == "mock"@ {
        Ok(ChoiceV::Mock(0))
    } else if begins(spec, "cmd:"@) {
        let shell = spec.skip(4);
        if trimmed(shell).len() == 0 {
            Err("provider `cmd:` requires a shell command"@)
        } else {
            Ok(ChoiceV::Command { name: fmt("cmd:{}"@, seq![shell]), shell })
        }
    } else if command_named(tools, spec) is Some {
        Ok(ChoiceV::Command { name: spec, shell: command_named(tools, spec)->0 })
    } else if begins(spec, "llama:"@) {
        let model = spec.skip(6);
        if trimmed(model).len() == 0 {
            Err("provider `llama:` requires a path to a .gguf model"@)
        } else {
            Ok(ChoiceV::Llama(model))
        }
    } else if command_named(clouds, spec) is Some {
        Ok(ChoiceV::Command { name: spec, shell: command_named(clouds, spec)->0 })
    } else {
        Err(
            fmt(
                "unknown provider `{}` (try: {})"@,
                seq![spec, join(options(tools, clouds), ", "@)],
            ),
        )
    }
}

/// See [`codex_command`].
pub const CODEX: &'static str = "codex exec";

/// See [`anthropic_command`]; the placeholder is the default model.
pub const ANTHROPIC: &'static str =
    "PROMPT=$(jq -Rs .); curl -s https://api.anthropic.com/v1/messages -H \"x-api-key: $ANTHROPIC_API_KEY\" -H \"anthropic-version: 2023-06-01\" -H \"content-type: application/json\" -d \"{\\\"model\\\":\\\"${ANTHROPIC_MODEL:-{}}\\\",\\\"max_tokens\\\":2048,\\\"messages\\\":[{\\\"role\\\":\\\"user\\\",\\\"content\\\":$PROMPT}]}\"";

/// See [`openai_command`].
pub const OPENAI: &'static str =
    "PROMPT=$(jq -Rs .); curl -s https://api.openai.com/v1/chat/completions -H \"Authorization: Bearer $OPENAI_API_KEY\" -H \"content-type: application/json\" -d \"{\\\"model\\\":\\\"${OPENAI_MODEL:-gpt-4o}\\\",\\\"messages\\\":[{\\\"role\\\":\\\"user\\\",\\\"content\\\":$PROMPT}]}\"";

fn find_command(ps: &Vec<Preset>, name: &str) -> (r: Option<String>)
    ensures
        match r {
            Some(c) => command_named(preset_views(ps@), name@) == Some(c@),
            None => command_named(preset_views(ps@), name@) is None,
        },
{
    let ghost all = preset_views(ps@);
    let mut i: usize = 0;
    assert(all.skip(0) =~= all);
    while i < ps.len()
        invariant
            i <= ps@.len(),
            all == preset_views(ps@),
            command_named(all, name@) == command_named(all.skip(i as int), name@),
        decreases ps@.len() - i,
    {
        proof {
            assert(all.skip(i as int)[0] == (ps@[i as int].name@, ps@[i as int].command@));
            assert(all.skip(i as int).drop_first() =~= all.skip(i + 1));
        }
        if str_eq(ps[i].name.as_str(), name) {
            return Some(ps[i].command.clone());
        }
        i = i + 1;
    }
    None
}

fn add_names(out: &mut Vec<String>, ps: &Vec<Preset>)
    ensures
        views(final(out)@) == views(old(out)@) + preset_views(ps@).map_values(
            |p: (Seq<char>, Seq<char>)| p.0,
        ),
{
    let ghost start = views(out@);
    let ghost names = preset_views(ps@).map_values(|p: (Seq<char>, Seq<char>)| p.0);
    let mut i: usize = 0;
    assert(start + names.take(0) =~= start);
    while i < ps.len()
        invariant
            i <= ps@.len(),
            names == preset_views(ps@).map_values(|p: (Seq<char>, Seq<char>)| p.0),
            views(out@) == start + names.take(i as int),
        decreases ps@.len() - i,
    {
        let ghost before = out@;
        out.push(ps[i].name.clone());
        proof {
            assert(views(out@) =~= views(before).push(names[i as int]));
            assert(names.take(i + 1) =~= names.take(i as int).push(names[i as int]));
            assert(views(out@) =~= start + names.take(i + 1));
        }
        i = i + 1;
    }
    assert(names.take(ps@.len() as int) =~= names);
}

fn list_options(presets: &Presets) -> (r: String)
    ensures
        r@ == join(
            options(preset_views(presets.tools@), preset_views(presets.clouds@)),
            ", "@,
        ),
{
    let mut all: Vec<String> = Vec::new();
    all.push("mock".to_owned());
    all.push("cmd:<shell>".to_owned());
    assert(views(all@) =~= seq!["mock"@, "cmd:<shell>"@]);
    add_names(&mut all, &presets.tools);
    let ghost before = views(all@);
    all.push("llama:<model.gguf>".to_owned());
    assert(views(all@) =~= before + seq!["llama:<model.gguf>"@]);
    add_names(&mut all, &presets.clouds);
    join_strings(&all, ", ")
}

/// The rest of `s` behind a prefix.
fn strip(s: &str, prefix: &str) -> (r: Option<String>)
    ensures
        match r {
            Some(rest) => begins(s@, prefix@) && rest@ == s@.skip(prefix@.len() as int),
            None => !begins(s@, prefix@),
        },
{
    if !starts_with(s, prefix) {
        return None;
    }
    let cs: Vec<char> = chars_of(s);
    let ps: Vec<char> = chars_of(prefix);
    assert(cs@.subrange(ps@.len() as int, cs@.len() as int) =~= s@.skip(prefix@.len() as int));
    Some(string_of(&cs, ps.len(), cs.len()))
}

fn blank(s: &str) -> (r: bool)
    ensures
        r == (trimmed(s@).len() == 0),
{
    let t: String = trim(s);
    let cs: Vec<char> = chars_of(t.as_str());
    cs.len() == 0
}

/// Parse a `--provider` value:
///   - `mock`                  the deterministic built-in (no model)
///   - `cmd:<shell>`           run the shell command, prompt on standard input
///   - a tool's name           an agentic command-line tool
///   - `llama:<model.gguf>`    a local model, grammar-constrained
///   - a cloud's name          a cloud model through `curl`
pub fn provider_from_spec(spec: &str, presets: &Presets) -> (r: Result<ProviderChoice, String>)
    ensures
        match r {
            Ok(p) => chosen(
                spec@,
                preset_views(presets.tools@),
                preset_views(presets.clouds@),
            ) == Ok::<ChoiceV, Seq<char>>(p@),
            Err(m) => chosen(
                spec@,
                preset_views(presets.tools@),
                preset_views(presets.clouds@),
            ) == Err::<ChoiceV, Seq<char>>(m@),
        },
        r matches Ok(ProviderChoice::Mock(m)) ==> m.calls == 0,
{
    proof {
        reveal_strlit("cmd:");
        reveal_strlit("llama:");
    }
    if str_eq(spec, "mock") {
        return Ok(ProviderChoice::Mock(MockProvider::new()));
    }
    if let Some(shell) = strip(spec, "cmd:") {
        if blank(shell.as_str()) {
            return Err("provider `cmd:` requires a shell command".to_owned());
        }
        return Ok(ProviderChoice::Command(CmdProvider::new(shell.as_str())));
    }
    if let Some(command) = find_command(&presets.tools, spec) {
        return Ok(ProviderChoice::Command(CmdProvider::named(spec, command)));
    }
    if let Some(model) = strip(spec, "llama:") {
        if blank(model.as_str()) {
            return Err("provider `llama:` requires a path to a .gguf model".to_owned());
        }
        return Ok(ProviderChoice::Llama(model));
    }
    if let Some(command) = find_command(&presets.clouds, spec) {
        return Ok(ProviderChoice::Command(CmdProvider::named(spec, command)));
    }
    let all: String = list_options(presets);
    Err(fill2("unknown provider `{}` (try: {})", spec, all.as_str()))
}

/// The command of a tool that prints its answer and exits; the prompt arrives on
/// standard input.
pub fn claude_command(tool: &str) -> (r: String)
    ensures
        r@ == fmt("{} -p"@, seq![tool@]),
{
    fill1("{} -p", tool)
}

/// The Codex command for one task; the prompt arrives on standard input.
pub fn codex_command() -> (r: String)
    ensures
        r@ == CODEX@,
{
    CODEX.to_owned()
}

/// A local llama.cpp command whose decoding the grammar file constrains to
/// syntactically valid programs. The prompt arrives on standard input.
pub fn llama_command(model: &str, grammar: &str) -> (r: String)
    ensures
        r@ == fmt(
            "llama-cli -m {} --grammar-file {} -no-cnv -f /dev/stdin"@,
            seq![shell_quoted(model@), shell_quoted(grammar@)],
        ),
{
    let model: String = shell_quote(model);
    let grammar: String = shell_quote(grammar);
    fill2(
        "llama-cli -m {} --grammar-file {} -no-cnv -f /dev/stdin",
        model.as_str(),
        grammar.as_str(),
    )
}

/// Cloud command: post the prompt to the Messages API; the raw JSON is the reply.
/// `model` is asked where the environment names none.
pub fn anthropic_command(model: &str) -> (r: String)
    ensures
        r@ == fmt(ANTHROPIC@, seq![model@]),
{
    fill1(ANTHROPIC, model)
}

/// Cloud command: post the prompt to the chat-completions API.
pub fn openai_command() -> (r: String)
    ensures
        r@ == OPENAI@,
{
    OPENAI.to_owned()
}

// ---------------------------------------------------------------------------
// Quoting
// ---------------------------------------------------------------------------

/// The quoted form of the first `n` characters: the open quotation.
pub open spec fn quoting(s: Seq<char>, n: nat) -> Seq<char>
    decreases n,
{
    if n == 0 || n > s.len() {
        "'"@
    } else if s[n - 1] == '\'' {
        quoting(s, (n - 1) as nat) + "'\\''"@
    } else {
        quoting(s, (n - 1) as nat).push(s[n - 1])
    }
}

/// A text in single quotes for a shell. A quote in it closes the quotation, stands
/// escaped, and opens it again.
pub open spec fn shell_quoted(s: Seq<char>) -> Seq<char> {
    quoting(s, s.len()).push('\'')
}

/// Single-quote `s` for embedding in a shell command.
pub fn shell_quote(s: &str) -> (r: String)
    ensures
        r@ == shell_quoted(s@),
{
    let cs: Vec<char> = chars_of(s);
    let mut out: String = "'".to_owned();
    let mut i: usize = 0;
    while i < cs.len()
        invariant
            i <= cs@.len(),
            cs@ == s@,
            out@ == quoting(s@, i as nat),
        decreases cs@.len() - i,
    {
        if cs[i] == '\'' {
            out.append("'\\''");
        } else {
            out.push(cs[i]);
        }
        i = i + 1;
    }
    out.push('\'');
    out
}

/// What a shell reads a word as that is made of quotations and escaped quotes: a
/// quotation stands for its contents, and `\'` outside one for a quote.
pub open spec fn shell_read(t: Seq<char>, inside: bool) -> Option<Seq<char>>
    decreases t.len(),
{
    if t.len() == 0 {
        if inside {
            None
        } else {
            Some(Seq::empty())
        }
    } else if inside {
        if t[0] == '\'' {
            shell_read(t.drop_first(), false)
        } else {
            match shell_read(t.drop_first(), true) {
                Some(r) => Some(seq![t[0]] + r),
                None => None,
            }
        }
    } else if t[0] == '\'' {
        shell_read(t.drop_first(), true)
    } else if t[0] == '\\' && t.len() > 1 && t[1] == '\'' {
        match shell_read(t.skip(2), false) {
            Some(r) => Some(seq!['\''] + r),
            None => None,
        }
    } else {
        None
    }
}

/// A shell reads a quoted text as the text itself, whatever it holds.
pub proof fn quoted_reads_back(s: Seq<char>)
    ensures
        shell_read(shell_quoted(s), false) == Some(s),
{
    reveal_strlit("'");
    lemma_quoting(s, s.len(), seq!['\'']);
    let end = seq!['\''];
    assert(end.drop_first() =~= Seq::<char>::empty());
    assert(shell_read(end, true) == Some(Seq::<char>::empty())) by {
        reveal_with_fuel(shell_read, 2);
    }
    assert(shell_quoted(s) =~= quoting(s, s.len()) + end);
    assert(s.take(s.len() as int) + Seq::<char>::empty() =~= s);
}

/// Behind the open quotation of a prefix, what follows is read inside it.
proof fn lemma_quoting(s: Seq<char>, n: nat, rest: Seq<char>)
    requires
        n <= s.len(),
    ensures
        shell_read(quoting(s, n) + rest, false) == match shell_read(rest, true) {
            Some(r) => Some(s.take(n as int) + r),
            None => None,
        },
    decreases n,
{
    reveal_strlit("'");
    reveal_strlit("'\\''");
    if n == 0 {
        let t = quoting(s, n) + rest;
        assert(t.drop_first() =~= rest);
        if let Some(r) = shell_read(rest, true) {
            assert(s.take(0) + r =~= r);
        }
    } else {
        let c = s[n - 1];
        let before = quoting(s, (n - 1) as nat);
        assert(s.take(n as int) =~= s.take(n - 1).push(c));
        if c == '\'' {
            let esc = "'\\''"@;
            let more = esc + rest;
            assert(quoting(s, n) + rest =~= before + more);
            lemma_quoting(s, (n - 1) as nat, more);
            let t1 = more.drop_first();
            assert(t1[0] == '\\' && t1[1] == '\'');
            assert(t1.skip(2) =~= seq!['\''] + rest);
            let t2 = seq!['\''] + rest;
            assert(t2.drop_first() =~= rest);
            assert(shell_read(t2, false) == shell_read(rest, true));
            assert(shell_read(t1, false) == match shell_read(t2, false) {
                Some(r) => Some(seq!['\''] + r),
                None => None,
            });
            assert(shell_read(more, true) == shell_read(t1, false));
            if let Some(r) = shell_read(rest, true) {
                assert(s.take(n - 1) + (seq!['\''] + r) =~= s.take(n as int) + r);
            }
        } else {
            let more = seq![c] + rest;
            assert(quoting(s, n) + rest =~= before + more);
            lemma_quoting(s, (n - 1) as nat, more);
            assert(more.drop_first() =~= rest);
            if let Some(r) = shell_read(rest, true) {
                assert(s.take(n - 1) + (seq![c] + r) =~= s.take(n as int) + r);
            }
        }
    }
}

} // verus!
