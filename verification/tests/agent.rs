//! The authoring loop: extraction, prompts, providers, and the loop itself.

use aria::agent::extract::defines_main;
use aria::agent::providers::{Provider, ProviderChoice};
use aria::agent::{
    anthropic_command, build_feedback, build_prompt, check_program, claude_command, codex_command,
    extract_program, llama_command, openai_command, primer, provider_from_spec, run_loop,
    run_program, shell_quote, AgentOutcome, Attempt, Checked, CmdProvider, FixedProvider, FrontEnd,
    MockProvider, Presets, Replied, Turn,
};
use aria::diagnostics::Diagnostic;

#[test]
fn extract_fenced_aria_block() {
    let r = "blah\n```aria\nfn main() -> Int = 0\n```\ntrailing";
    assert_eq!(extract_program(r), "fn main() -> Int = 0");
}

#[test]
fn extract_fenced_plain_block() {
    let r = "```\nfn main() -> Int = 1\n```";
    assert_eq!(extract_program(r), "fn main() -> Int = 1");
}

#[test]
fn extract_bare_program() {
    let r = "fn main() -> Int = 2\n";
    assert_eq!(extract_program(r), "fn main() -> Int = 2");
}

#[test]
fn extract_prose_then_block() {
    let r = "Sure! Here you go:\n\n```aria\nfn main() -> Int = 3\n```\n\nHope that helps.";
    assert_eq!(extract_program(r), "fn main() -> Int = 3");
}

#[test]
fn extract_multiple_blocks_picks_fn_main() {
    // A helper block then the real program — must pick the `fn main` one.
    let r = "First a helper:\n```aria\nfn helper(x: Int) -> Int = x + 1\n```\n\
             Now the program:\n```aria\nfn helper(x: Int) -> Int = x + 1\n\
             fn main() -> Int = helper(41)\n```";
    let p = extract_program(r);
    assert!(p.contains("fn main"), "picked the wrong block: {}", p);
    assert!(p.contains("helper(41)"));
}

#[test]
fn extract_handles_unterminated_fence() {
    let r = "```aria\nfn main() -> Int = 9";
    assert_eq!(extract_program(r), "fn main() -> Int = 9");
}

#[test]
fn extract_empty_response_is_empty() {
    assert_eq!(extract_program(""), "");
    assert_eq!(extract_program("   \n  "), "");
}

#[test]
fn prompt_contains_primer_task_and_only_instruction() {
    let p = build_prompt("print the number 7", &[]);
    // Primer essentials.
    assert!(p.contains("EVERYTHING IS AN EXPRESSION"));
    assert!(p.contains("fn main() -> Int"));
    assert!(p.contains("match"));
    // The task.
    assert!(p.contains("print the number 7"));
    // The strict instruction.
    assert!(p.contains("Return ONLY a complete Aria program"));
}

#[test]
fn prompt_includes_transcript_feedback() {
    let fb = vec!["Your program had these errors: [...]".to_string()];
    let p = build_prompt("task", &fb);
    assert!(p.contains("PRIOR ATTEMPTS & COMPILER FEEDBACK"));
    assert!(p.contains("Your program had these errors"));
}

#[test]
fn feedback_contains_diagnostic_codes() {
    // What the type checker says of `fn main() -> Int = "hi"`.
    let diags = check_program(FrontEnd::Checked(vec![Diagnostic::error(
        "type",
        "function `main`: body has type String but return type is Int (expected String, found Int)"
            .into(),
    )]));
    assert!(!diags.is_empty());
    let fb = build_feedback("fn main() -> Int = \"hi\"", &diags);
    assert!(fb.contains("Your program had these errors"));
    assert!(fb.contains("E0201"), "feedback should embed the diagnostic code");
    assert!(fb.contains("fn main"));
}

fn presets() -> Presets {
    Presets::standard("tool", "some-model")
}

fn select(spec: &str) -> Result<ProviderChoice, String> {
    provider_from_spec(spec, &presets())
}

#[test]
fn preset_codex_builds_expected_command() {
    let p = select("codex").unwrap();
    assert_eq!(p.label(), "codex");
}

#[test]
fn tool_command_strings() {
    assert_eq!(claude_command("tool"), "tool -p");
    assert_eq!(codex_command(), "codex exec");
    assert_eq!(select("tool").unwrap().label(), "tool");
}

#[test]
fn preset_llama_includes_grammar_file() {
    let cmd = llama_command("/models/m.gguf", "/tmp/g.gbnf");
    assert!(cmd.contains("llama-cli"));
    assert!(cmd.contains("-m '/models/m.gguf'"));
    assert!(cmd.contains("--grammar-file '/tmp/g.gbnf'"));
    // And the spec path materialises a real grammar file + provider.
    let p = select("llama:/models/m.gguf").unwrap();
    assert!(p.label().starts_with("llama:"));
}

#[test]
fn preset_cloud_commands_use_curl_and_keys() {
    let a = anthropic_command("some-model");
    assert!(a.contains("${ANTHROPIC_MODEL:-some-model}"));
    assert!(a.contains("curl"));
    assert!(a.contains("api.anthropic.com"));
    assert!(a.contains("ANTHROPIC_API_KEY"));
    let o = openai_command();
    assert!(o.contains("curl"));
    assert!(o.contains("api.openai.com"));
    assert!(o.contains("OPENAI_API_KEY"));
    // And the specs construct providers.
    assert_eq!(select("anthropic").unwrap().label(), "anthropic");
    assert_eq!(select("openai").unwrap().label(), "openai");
}

#[test]
fn cmd_provider_spec_parses() {
    let p = select("cmd:cat").unwrap();
    assert_eq!(p.label(), "cmd:cat");
}

#[test]
fn unknown_and_empty_provider_specs_error() {
    assert!(select("nope").is_err());
    assert!(select("cmd:").is_err());
    assert!(select("cmd:   ").is_err());
    assert!(select("llama:").is_err());
}

#[test]
fn shell_quote_escapes_single_quotes() {
    assert_eq!(shell_quote("a b"), "'a b'");
    assert_eq!(shell_quote("a'b"), "'a'\\''b'");
}

// ---------------------------------------------------------------------------
// The loop, against a compiler that answers for the programs of these tests
// ---------------------------------------------------------------------------

type Run = (Option<String>, Option<String>, Option<String>);

/// The checker's answer: `main` of a program that ends in a text has the wrong type.
fn check(program: &str) -> Vec<Diagnostic> {
    if program.contains("\"done\"") || program.contains("\"nope\"") {
        check_program(FrontEnd::Checked(vec![Diagnostic::error(
            "type",
            "function `main`: body has type String but return type is Int (expected String, found Int)"
                .into(),
        )]))
    } else {
        check_program(FrontEnd::Checked(Vec::new()))
    }
}

/// The interpreter's answer for the corrected program of the built-in provider.
fn run(program: &str) -> Run {
    assert_eq!(program, MockProvider::fixed_program().trim());
    run_program(Ok(("55".to_string(), "55\n".to_string())))
}

fn drive<P: Provider>(provider: &mut P, task: &str, max_iters: usize) -> AgentOutcome {
    let mut attempt = Attempt::begin(task, max_iters);
    loop {
        let prompt = attempt.prompt();
        let candidate = match attempt.replied(provider.complete(&prompt)) {
            Replied::Candidate(c) => c,
            Replied::Failed(o) => return o,
        };
        let diags = check(candidate.program());
        match candidate.checked(diags) {
            Checked::Clean(c) => {
                let r = run(c.program());
                return c.ran(r);
            }
            Checked::Exhausted(o) => return o,
            Checked::Again(next) => attempt = next,
        }
    }
}

#[test]
fn loop_converges_via_diagnostic_feedback() {
    let mut provider = MockProvider::new();
    let outcome = drive(&mut provider, "print the sum of 1..10", 5);

    // Converged, and used exactly 2 iterations (buggy -> feedback -> fixed).
    assert!(outcome.success, "loop should converge: {:?}", outcome.diagnostics);
    assert_eq!(outcome.iterations, 2, "should take 2 iterations");
    assert!(outcome.diagnostics.is_empty());
    assert_eq!(outcome.result.as_deref(), Some("55"));
    // The loop CAPTURED what the program printed (print_int(sum_to(10))).
    assert_eq!(outcome.output.as_deref(), Some("55\n"));
    assert!(outcome.program.contains("fn main"));

    // The transcript (feedback that drove the fix) must contain the
    // diagnostic code caught on iteration 1 — proving diagnostics drove it.
    assert_eq!(outcome.transcript.len(), 1, "one feedback message");
    assert!(
        outcome.transcript[0].contains("E0201"),
        "feedback must carry the diagnostic code"
    );
    assert!(outcome.transcript[0].contains("Your program had these errors"));
}

struct AlwaysBroken;

impl Provider for AlwaysBroken {
    fn complete(&mut self, _p: &str) -> Result<String, String> {
        Ok("fn main() -> Int = \"nope\"".to_string())
    }
    fn label(&self) -> String {
        "broken".to_string()
    }
}

#[test]
fn loop_reports_failure_when_budget_exhausted() {
    // A provider that always returns the same broken program never converges.
    let outcome = drive(&mut AlwaysBroken, "task", 3);
    assert!(!outcome.success);
    assert_eq!(outcome.iterations, 3);
    assert!(!outcome.diagnostics.is_empty());
    // Three failed attempts => three feedback messages in the transcript.
    assert_eq!(outcome.transcript.len(), 3);
}

struct Failing;

impl Provider for Failing {
    fn complete(&mut self, _p: &str) -> Result<String, String> {
        Err("boom".to_string())
    }
    fn label(&self) -> String {
        "failing".to_string()
    }
}

#[test]
fn loop_handles_provider_failure_gracefully() {
    let outcome = drive(&mut Failing, "task", 5);
    assert!(!outcome.success);
    assert!(outcome.runtime_error.as_deref().unwrap().contains("boom"));
}

// ---------------------------------------------------------------------------
// Further cases
// ---------------------------------------------------------------------------

fn turn(reply: &str, diags: Vec<Diagnostic>, run: Run) -> Turn {
    Turn { reply: Ok(reply.to_string()), diagnostics: diags, run }
}

fn broken() -> Vec<Diagnostic> {
    vec![Diagnostic::error("parse", "line 1: expected".into())]
}

#[test]
fn run_loop_follows_its_turns() {
    let clean = run_program(Ok(("0".to_string(), "7\n".to_string())));
    let none = || (None, None, None);
    let turns = vec![turn("x", broken(), none()), turn("```\ny\n```", Vec::new(), clean)];
    let o = run_loop(turns, "task", 4).unwrap();
    assert!(o.success);
    assert_eq!((o.program.as_str(), o.iterations), ("y", 2));
    assert_eq!(o.transcript.len(), 1);
    assert!(o.transcript[0].contains("Here is the program you wrote:\nx\n"));

    // The turns end before the loop does.
    assert!(run_loop(vec![turn("x", broken(), none())], "task", 2).is_none());
    // A budget of nothing still gives one iteration.
    let o = run_loop(vec![turn("x", broken(), none())], "task", 0).unwrap();
    assert_eq!((o.success, o.iterations, o.transcript.len()), (false, 1, 1));
    // A clean program that fails to run is no success.
    let failed = run_program(Err("division by zero".to_string()));
    let o = run_loop(vec![turn("x", Vec::new(), failed)], "task", 2).unwrap();
    assert!(!o.success);
    assert_eq!(o.runtime_error.as_deref(), Some("division by zero"));
    assert!(o.result.is_none() && o.output.is_none() && o.diagnostics.is_empty());
    // A provider's failure keeps what is there so far.
    let turns = vec![
        turn("x", broken(), none()),
        Turn { reply: Err("gone".to_string()), diagnostics: Vec::new(), run: none() },
    ];
    let o = run_loop(turns, "task", 3).unwrap();
    assert_eq!(o.runtime_error.as_deref(), Some("provider error: gone"));
    assert_eq!((o.program.as_str(), o.iterations, o.diagnostics.len()), ("x", 2, 1));
}

#[test]
fn prompt_is_the_primer_the_task_and_the_instruction() {
    let end = "\nReturn ONLY a complete Aria program (no markdown, no prose, no explanation).\n";
    let first = build_prompt("  add 1 and 2\n", &[]);
    assert_eq!(first, format!("{}\nTASK\nadd 1 and 2\n{}", primer(), end));
    let told = build_prompt("t", &["one".to_string(), "two".to_string()]);
    assert_eq!(
        told,
        format!(
            "{}\nTASK\nt\n\nPRIOR ATTEMPTS & COMPILER FEEDBACK\none\ntwo\n{}",
            primer(),
            end
        )
    );
    assert!(primer().starts_with("You are writing a program in Aria"));
    assert!(primer().contains("Lambdas: `\\x -> body`"));
}

#[test]
fn fenced_programs_are_recovered() {
    for program in ["fn main() -> Int = 1", "a\nb", "", "x ` y", "let s = 1;\n"] {
        let mut p = FixedProvider::new(program, "fixed");
        let reply = p.complete("any").unwrap();
        assert_eq!(reply, format!("```aria\n{}```", program));
        assert_eq!(extract_program(&reply), program.trim());
        assert_eq!(p.label(), "fixed");
    }
    // A program that ends in a backtick runs into the closing fence.
    let mut p = FixedProvider::new("a`", "fixed");
    assert_eq!(extract_program(&p.complete("any").unwrap()), "a");
}

#[test]
fn extraction_edges() {
    // An opening fence without a line behind it holds nothing.
    assert_eq!(extract_program("```aria"), "```aria");
    // The last block with `main` is taken, over a later one without.
    let r = "```\nfn main() -> Int = 1\n```\n```\nfn main() -> Int = 2\n```\n```\nfn g() -> Int = 3\n```";
    assert_eq!(extract_program(r), "fn main() -> Int = 2");
    // Without `main`, the last block.
    assert_eq!(extract_program("```\na\n```\n```\nb\n```"), "b");
    // `main` counts behind white space and `pure`, not in the middle of a line.
    let r = "```\n  pure fn main() -> Int = 1\n```\n```\n-- fn main\n```";
    assert_eq!(extract_program(r), "pure fn main() -> Int = 1");
    // A longer name is not `main`.
    let r = "```\nfn main() -> Int = 1\n```\n```\nfn main_helper() -> Int = 0\n```";
    assert_eq!(extract_program(r), "fn main() -> Int = 1");
    assert!(!defines_main("fn main_helper() -> Int = 0"));
    assert!(!defines_main("pure fn main2() -> Int = 0"));
    assert!(defines_main("x\n\tfn main () -> Int = 0"));
    assert!(defines_main("fn main"));
    // Extracting twice is extracting once.
    assert_eq!(extract_program(&extract_program(r)), extract_program(r));
    assert_eq!(extract_program("  ```no line "), "```no line");
    // White space of every kind is cut off.
    assert_eq!(extract_program("\u{3000}\u{a0} x\u{2028}\t"), "x");
}

#[test]
fn mock_replies_by_feedback_and_count() {
    let mut m = MockProvider::default();
    assert_eq!(m.label(), "mock");
    let first = m.complete("go").unwrap();
    assert_eq!(
        first,
        format!("Here is the program:\n```aria\n{}```\n", MockProvider::buggy_program())
    );
    assert_eq!(m.calls, 1);
    let second = m.complete("go").unwrap();
    assert_eq!(second, format!("```aria\n{}```", MockProvider::fixed_program()));
    let mut told = MockProvider::new();
    assert_eq!(told.complete("Your program had these errors: []").unwrap(), second);
}

#[test]
fn provider_messages() {
    let message = |s: &str| select(s).unwrap_err();
    assert_eq!(message("cmd: "), "provider `cmd:` requires a shell command");
    assert_eq!(message("llama: "), "provider `llama:` requires a path to a .gguf model");
    assert_eq!(
        message("x"),
        "unknown provider `x` (try: mock, cmd:<shell>, tool, codex, llama:<model.gguf>, anthropic, openai)"
    );
    match select("cmd:cat -n").unwrap() {
        ProviderChoice::Command(CmdProvider { shell, name }) => {
            assert_eq!((shell.as_str(), name.as_str()), ("cat -n", "cmd:cat -n"));
        }
        other => panic!("{:?}", other),
    }
    assert_eq!(CmdProvider::new("cat").name, "cmd:cat");
    assert!(matches!(select("mock"), Ok(ProviderChoice::Mock(_))));
    assert_eq!(
        llama_command("a'b", "g"),
        "llama-cli -m 'a'\\''b' --grammar-file 'g' -no-cnv -f /dev/stdin"
    );
}

/// What a shell makes of a word of quotations and escaped quotes.
fn unquoted(word: &str) -> String {
    let mut out = String::new();
    let mut cs = word.chars();
    let mut inside = false;
    while let Some(c) = cs.next() {
        if c == '\'' {
            inside = !inside;
        } else if c == '\\' && !inside {
            out.push(cs.next().unwrap());
        } else {
            assert!(inside);
            out.push(c);
        }
    }
    assert!(!inside);
    out
}

#[test]
fn quoted_words_read_back() {
    for s in ["", "'", "''", "a b", "$(rm) `x` \\ \"", "it's 'so'"] {
        assert_eq!(unquoted(&shell_quote(s)), s);
    }
}

#[test]
fn front_end_failures_become_diagnostics() {
    let d = check_program(FrontEnd::LexError("line 2: unexpected character `@`".to_string()));
    assert_eq!((d.len(), d[0].phase, d[0].code, d[0].line), (1, "lex", "E0001", Some(2)));
    let d = check_program(FrontEnd::ParseError("line 3: expected".to_string()));
    assert_eq!((d.len(), d[0].phase, d[0].code, d[0].line), (1, "parse", "E0100", Some(3)));
    assert_eq!(run_program(Err("e".to_string())), (None, None, Some("e".to_string())));
}

struct Recorder {
    prompts: Vec<String>,
}

impl Provider for Recorder {
    fn complete(&mut self, p: &str) -> Result<String, String> {
        self.prompts.push(p.to_string());
        Ok("fn main() -> Int = \"nope\"".to_string())
    }
    fn label(&self) -> String {
        "recorder".to_string()
    }
}

#[test]
fn each_prompt_carries_the_feedback_so_far() {
    let mut r = Recorder { prompts: Vec::new() };
    let o = drive(&mut r, "task", 3);
    assert_eq!(r.prompts.len(), o.iterations);
    for (k, p) in r.prompts.iter().enumerate() {
        assert_eq!(*p, build_prompt("task", &o.transcript[..k]));
    }
    for t in &o.transcript {
        assert_eq!(*t, build_feedback(&o.program, &o.diagnostics));
    }
}
