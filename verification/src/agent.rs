//! A provider-agnostic authoring loop for Aria.
//!
//! A model writes an Aria program, the compiler checks it, and the structured
//! diagnostics are fed back so that the model fixes it, until the program checks
//! and runs, or the budget is spent:
//!
//! ```text
//!   prompt -> PROVIDER -> reply -> extract -> CHECK -> clean -> RUN -> outcome
//!     ^                                         |
//!     +--------------- feedback ----------------+
//! ```
//!
//! The provider, the check and the run are the caller's; the loop says what to ask
//! for next and what to make of each answer. An [`Attempt`] waits for the
//! provider's reply, a [`Candidate`] for the check's diagnostics, and a [`Clean`]
//! program for its run.

use vstd::prelude::*;
use vstd::string::*;

use crate::agent::extract::extracted;
use crate::agent::prompt::{feedback_text, prompt_text};
use crate::diagnostics::{
    classified, embedded_function, embedded_line, opt_view, DiagV, Diagnostic,
};
use crate::text::{fill1, fmt, views};

pub mod extract;
pub mod prompt;
pub mod providers;

pub use crate::agent::extract::extract_program;
pub use crate::agent::prompt::{build_feedback, build_prompt, primer};
pub use crate::agent::providers::{
    anthropic_command, claude_command, codex_command, llama_command, openai_command,
    provider_from_spec, shell_quote, CmdProvider, FixedProvider, MockProvider, Preset, Presets,
    Provider, ProviderChoice,
};

verus! {

/// The outcome of one authoring run.
#[derive(Debug)]
pub struct AgentOutcome {
    pub success: bool,
    /// The final program produced.
    pub program: String,
    /// The diagnostics on the final program; none if it checked clean.
    pub diagnostics: Vec<Diagnostic>,
    /// `main`'s rendered result, if the program checked clean and ran.
    pub result: Option<String>,
    /// What the program printed, if it checked clean and ran.
    pub output: Option<String>,
    /// A run-time error, if the program checked clean but failed to run, or the
    /// provider's failure.
    pub runtime_error: Option<String>,
    /// How many provider iterations were used.
    pub iterations: usize,
    /// The running feedback.
    pub transcript: Vec<String>,
}

/// An outcome, as a model.
pub struct OutcomeV {
    pub success: bool,
    pub program: Seq<char>,
    pub diagnostics: Seq<DiagV>,
    pub result: Option<Seq<char>>,
    pub output: Option<Seq<char>>,
    pub runtime_error: Option<Seq<char>>,
    pub iterations: int,
    pub transcript: Seq<Seq<char>>,
}

/// The models of a list of diagnostics.
pub open spec fn diag_views(v: Seq<Diagnostic>) -> Seq<DiagV> {
    v.map_values(|d: Diagnostic| d@)
}

impl AgentOutcome {
    /// The outcome's model.
    pub open spec fn view(&self) -> OutcomeV {
        OutcomeV {
            success: self.success,
            program: self.program@,
            diagnostics: diag_views(self.diagnostics@),
            result: opt_view(self.result),
            output: opt_view(self.output),
            runtime_error: opt_view(self.runtime_error),
            iterations: self.iterations as int,
            transcript: views(self.transcript@),
        }
    }
}

// ---------------------------------------------------------------------------
// The loop, as a model
// ---------------------------------------------------------------------------

/// An attempt, as a model: what the loop knows before an iteration.
pub struct AttemptV {
    pub task: Seq<char>,
    pub program: Seq<char>,
    pub diagnostics: Seq<DiagV>,
    pub transcript: Seq<Seq<char>>,
    pub iter: int,
    pub iters: int,
}

/// What an iteration gets: the provider's reply, the diagnostics of the check of
/// its program, and what the run of a clean program gives: the result, the output
/// and the run-time error.
pub struct TurnV {
    pub reply: Result<Seq<char>, Seq<char>>,
    pub diagnostics: Seq<DiagV>,
    pub run: (Option<Seq<char>>, Option<Seq<char>>, Option<Seq<char>>),
}

/// The first attempt at a task; there is at least one iteration.
pub open spec fn first_attempt(task: Seq<char>, max_iters: int) -> AttemptV {
    AttemptV {
        task,
        program: Seq::empty(),
        diagnostics: Seq::empty(),
        transcript: Seq::empty(),
        iter: 1,
        iters: if max_iters < 1 {
            1
        } else {
            max_iters
        },
    }
}

/// The outcome of a provider's failure: what is there so far.
pub open spec fn provider_failed(a: AttemptV, message: Seq<char>) -> OutcomeV {
    OutcomeV {
        success: false,
        program: a.program,
        diagnostics: a.diagnostics,
        result: None,
        output: None,
        runtime_error: Some(fmt("provider error: {}"@, seq![message])),
        iterations: a.iter,
        transcript: a.transcript,
    }
}

/// The outcome of a clean program's run.
pub open spec fn ran_clean(
    a: AttemptV,
    program: Seq<char>,
    run: (Option<Seq<char>>, Option<Seq<char>>, Option<Seq<char>>),
) -> OutcomeV {
    OutcomeV {
        success: run.2 is None,
        program,
        diagnostics: Seq::empty(),
        result: run.0,
        output: run.1,
        runtime_error: run.2,
        iterations: a.iter,
        transcript: a.transcript,
    }
}

/// The attempt after a program with diagnostics: they join the transcript.
pub open spec fn next_attempt(a: AttemptV, program: Seq<char>, ds: Seq<DiagV>) -> AttemptV {
    AttemptV {
        program,
        diagnostics: ds,
        transcript: a.transcript.push(feedback_text(program, ds)),
        iter: a.iter + 1,
        ..a
    }
}

/// The outcome when the budget is spent on a program with diagnostics.
pub open spec fn exhausted(a: AttemptV, program: Seq<char>, ds: Seq<DiagV>) -> OutcomeV {
    OutcomeV {
        success: false,
        program,
        diagnostics: ds,
        result: None,
        output: None,
        runtime_error: None,
        iterations: a.iter,
        transcript: a.transcript.push(feedback_text(program, ds)),
    }
}

/// One iteration: the outcome, or the next attempt.
pub open spec fn iteration(a: AttemptV, t: TurnV) -> Result<OutcomeV, AttemptV> {
    match t.reply {
        Err(m) => Ok(provider_failed(a, m)),
        Ok(reply) => {
            let program = extracted(reply);
            if t.diagnostics.len() == 0 {
                Ok(ran_clean(a, program, t.run))
            } else if a.iter < a.iters {
                Err(next_attempt(a, program, t.diagnostics))
            } else {
                Ok(exhausted(a, program, t.diagnostics))
            }
        },
    }
}

/// The outcome of the loop over the turns from position `k` on, if it ends there.
pub open spec fn loop_outcome(turns: Seq<TurnV>, k: int, a: AttemptV) -> Option<OutcomeV>
    decreases turns.len() - k,
{
    if k < 0 || k >= turns.len() {
        None
    } else {
        match iteration(a, turns[k]) {
            Ok(o) => Some(o),
            Err(next) => loop_outcome(turns, k + 1, next),
        }
    }
}

// ---------------------------------------------------------------------------
// The loop
// ---------------------------------------------------------------------------

/// The loop before an iteration: it waits for the provider's reply to the prompt.
#[derive(Debug)]
pub struct Attempt {
    task: String,
    program: String,
    diagnostics: Vec<Diagnostic>,
    transcript: Vec<String>,
    iter: usize,
    iters: usize,
}

/// A program that waits for its diagnostics.
#[derive(Debug)]
pub struct Candidate {
    attempt: Attempt,
    program: String,
}

/// A program without diagnostics, which waits for its run.
#[derive(Debug)]
pub struct Clean {
    attempt: Attempt,
    program: String,
}

/// What a reply makes of an attempt.
#[derive(Debug)]
pub enum Replied {
    /// A program to check.
    Candidate(Candidate),
    /// The provider failed.
    Failed(AgentOutcome),
}

/// What the diagnostics make of a candidate.
#[derive(Debug)]
pub enum Checked {
    /// The program is clean and can run.
    Clean(Clean),
    /// The diagnostics are fed back.
    Again(Attempt),
    /// The budget is spent.
    Exhausted(AgentOutcome),
}

impl Attempt {
    /// The attempt's model.
    pub closed spec fn view(&self) -> AttemptV {
        AttemptV {
            task: self.task@,
            program: self.program@,
            diagnostics: diag_views(self.diagnostics@),
            transcript: views(self.transcript@),
            iter: self.iter as int,
            iters: self.iters as int,
        }
    }

    /// The first attempt at a task.
    pub fn begin(task: &str, max_iters: usize) -> (r: Attempt)
        ensures
            r@ == first_attempt(task@, max_iters as int),
    {
        let r = Attempt {
            task: task.to_owned(),
            program: String::new(),
            diagnostics: Vec::new(),
            transcript: Vec::new(),
            iter: 1,
            iters: if max_iters < 1 {
                1
            } else {
                max_iters
            },
        };
        proof {
            assert(r@.program =~= Seq::<char>::empty());
            assert(r@.diagnostics =~= Seq::<DiagV>::empty());
            assert(r@.transcript =~= Seq::<Seq<char>>::empty());
        }
        r
    }

    /// The number of the iteration, from 1.
    pub fn iteration(&self) -> (r: usize)
        ensures
            r == self@.iter,
    {
        self.iter
    }

    /// The prompt for the provider.
    pub fn prompt(&self) -> (r: String)
        ensures
            r@ == prompt_text(self@.task, self@.transcript),
    {
        build_prompt(self.task.as_str(), self.transcript.as_slice())
    }

    /// Take the provider's reply, or its failure.
    pub fn replied(self, reply: Result<String, String>) -> (r: Replied)
        ensures
            match reply {
                Ok(text) => r is Candidate && r->Candidate_0@ == (self@, extracted(text@)),
                Err(m) => r is Failed && r->Failed_0@ == provider_failed(self@, m@),
            },
    {
        match reply {
            Ok(text) => {
                let program: String = extract_program(text.as_str());
                Replied::Candidate(Candidate { attempt: self, program })
            },
            Err(m) => Replied::Failed(
                AgentOutcome {
                    success: false,
                    program: self.program,
                    diagnostics: self.diagnostics,
                    result: None,
                    output: None,
                    runtime_error: Some(fill1("provider error: {}", m.as_str())),
                    iterations: self.iter,
                    transcript: self.transcript,
                },
            ),
        }
    }
}

impl Candidate {
    /// The attempt and the program.
    pub closed spec fn view(&self) -> (AttemptV, Seq<char>) {
        (self.attempt@, self.program@)
    }

    /// The program to check.
    pub fn program(&self) -> (r: &str)
        ensures
            r@ == self@.1,
    {
        self.program.as_str()
    }

    /// Take the diagnostics of the check.
    pub fn checked(self, diags: Vec<Diagnostic>) -> (r: Checked)
        ensures
            ({
                let (a, program) = self@;
                let ds = diag_views(diags@);
                if ds.len() == 0 {
                    r is Clean && r->Clean_0@ == (a, program)
                } else if a.iter < a.iters {
                    r is Again && r->Again_0@ == next_attempt(a, program, ds)
                } else {
                    r is Exhausted && r->Exhausted_0@ == exhausted(a, program, ds)
                }
            }),
    {
        if diags.len() == 0 {
            return Checked::Clean(Clean { attempt: self.attempt, program: self.program });
        }
        let feedback: String = build_feedback(self.program.as_str(), diags.as_slice());
        let a: Attempt = self.attempt;
        let mut transcript: Vec<String> = a.transcript;
        let ghost before = transcript@;
        transcript.push(feedback);
        assert(views(transcript@) =~= views(before).push(feedback@));
        if a.iter < a.iters {
            Checked::Again(
                Attempt {
                    task: a.task,
                    program: self.program,
                    diagnostics: diags,
                    transcript,
                    iter: a.iter + 1,
                    iters: a.iters,
                },
            )
        } else {
            Checked::Exhausted(
                AgentOutcome {
                    success: false,
                    program: self.program,
                    diagnostics: diags,
                    result: None,
                    output: None,
                    runtime_error: None,
                    iterations: a.iter,
                    transcript,
                },
            )
        }
    }
}

impl Clean {
    /// The attempt and the program.
    pub closed spec fn view(&self) -> (AttemptV, Seq<char>) {
        (self.attempt@, self.program@)
    }

    /// The program to run.
    pub fn program(&self) -> (r: &str)
        ensures
            r@ == self@.1,
    {
        self.program.as_str()
    }

    /// Take what the run gave: the result, the output and the run-time error.
    pub fn ran(self, run: (Option<String>, Option<String>, Option<String>)) -> (r: AgentOutcome)
        ensures
            r@ == ran_clean(
                self@.0,
                self@.1,
                (opt_view(run.0), opt_view(run.1), opt_view(run.2)),
            ),
    {
        let (result, output, runtime_error) = run;
        let none: Vec<Diagnostic> = Vec::new();
        assert(diag_views(none@) =~= Seq::<DiagV>::empty());
        AgentOutcome {
            success: runtime_error.is_none(),
            program: self.program,
            diagnostics: none,
            result,
            output,
            runtime_error,
            iterations: self.attempt.iter,
            transcript: self.attempt.transcript,
        }
    }
}

/// What one iteration gets from outside.
#[derive(Debug)]
pub struct Turn {
    pub reply: Result<String, String>,
    pub diagnostics: Vec<Diagnostic>,
    pub run: (Option<String>, Option<String>, Option<String>),
}

impl Turn {
    /// The turn's model.
    pub open spec fn view(&self) -> TurnV {
        TurnV {
            reply: match self.reply {
                Ok(s) => Ok(s@),
                Err(m) => Err(m@),
            },
            diagnostics: diag_views(self.diagnostics@),
            run: (opt_view(self.run.0), opt_view(self.run.1), opt_view(self.run.2)),
        }
    }
}

/// The models of a list of turns.
pub open spec fn turn_views(v: Seq<Turn>) -> Seq<TurnV> {
    v.map_values(|t: Turn| t@)
}

/// Run the loop for `task`, up to `max_iters` iterations, over what the turns give
/// one after the other. `None` if the turns end before the loop does.
pub fn run_loop(turns: Vec<Turn>, task: &str, max_iters: usize) -> (r: Option<AgentOutcome>)
    ensures
        match r {
            Some(o) => loop_outcome(
                turn_views(turns@),
                0,
                first_attempt(task@, max_iters as int),
            ) == Some(o@),
            None => loop_outcome(
                turn_views(turns@),
                0,
                first_attempt(task@, max_iters as int),
            ) is None,
        },
{
    let ghost all = turn_views(turns@);
    let ghost goal = loop_outcome(all, 0, first_attempt(task@, max_iters as int));
    let mut rest: Vec<Turn> = turns;
    let mut attempt: Attempt = Attempt::begin(task, max_iters);
    let ghost mut k: int = 0;
    assert(all.skip(0) =~= all);
    while rest.len() > 0
        invariant
            0 <= k <= all.len(),
            rest@.len() == all.len() - k,
            turn_views(rest@) == all.skip(k),
            goal == loop_outcome(all, k, attempt@),
            goal == loop_outcome(
                turn_views(turns@),
                0,
                first_attempt(task@, max_iters as int),
            ),
        decreases rest@.len(),
    {
        let ghost rest0 = rest@;
        let turn: Turn = rest.remove(0);
        proof {
            assert(turn_views(rest0)[0] == turn@);
            assert(all.skip(k)[0] == all[k]);
            assert(turn_views(rest@) =~= all.skip(k + 1)) by {
                assert forall|j: int| 0 <= j < rest@.len() implies turn_views(rest@)[j]
                    == all.skip(k + 1)[j] by {
                    assert(turn_views(rest0)[j + 1] == all.skip(k)[j + 1]);
                }
            }
        }
        let candidate: Candidate = match attempt.replied(turn.reply) {
            Replied::Candidate(c) => c,
            Replied::Failed(o) => return Some(o),
        };
        match candidate.checked(turn.diagnostics) {
            Checked::Clean(c) => return Some(c.ran(turn.run)),
            Checked::Exhausted(o) => return Some(o),
            Checked::Again(next) => {
                attempt = next;
            },
        }
        proof {
            k = k + 1;
        }
    }
    assert(turn_views(rest@).len() == 0);
    None
}

// ---------------------------------------------------------------------------
// The compiler's answers
// ---------------------------------------------------------------------------

/// How far the front end came with a program.
#[derive(Debug)]
pub enum FrontEnd {
    /// The text does not lex: the lexer's message.
    LexError(String),
    /// The tokens do not parse: the parser's message.
    ParseError(String),
    /// The program parses: the type checker's diagnostics.
    Checked(Vec<Diagnostic>),
}

/// The diagnostic of a phase's message.
pub open spec fn phase_error(phase: Seq<char>, m: Seq<char>) -> DiagV {
    DiagV {
        severity: "error"@,
        phase: classified(phase, m).0,
        code: classified(phase, m).1,
        message: m,
        line: embedded_line(m),
        col: None,
        end_line: None,
        end_col: None,
        function: embedded_function(m),
    }
}

/// The structured diagnostics of a candidate program. A lexing or parsing failure
/// becomes a single diagnostic.
pub fn check_program(front: FrontEnd) -> (r: Vec<Diagnostic>)
    ensures
        match front {
            FrontEnd::LexError(m) => diag_views(r@) == seq![phase_error("lex"@, m@)],
            FrontEnd::ParseError(m) => diag_views(r@) == seq![phase_error("parse"@, m@)],
            FrontEnd::Checked(ds) => r == ds,
        },
{
    match front {
        FrontEnd::LexError(m) => {
            let d = Diagnostic::error("lex", m);
            let r: Vec<Diagnostic> = vec![d];
            assert(diag_views(r@) =~= seq![d@]);
            r
        },
        FrontEnd::ParseError(m) => {
            let d = Diagnostic::error("parse", m);
            let r: Vec<Diagnostic> = vec![d];
            assert(diag_views(r@) =~= seq![d@]);
            r
        },
        FrontEnd::Checked(ds) => ds,
    }
}

/// What the run of a clean program gives the loop: the rendered result and the
/// captured output of a run that ended, or the message of one that failed.
pub fn run_program(run: Result<(String, String), String>) -> (r: (
    Option<String>,
    Option<String>,
    Option<String>,
))
    ensures
        match run {
            Ok((result, output)) => r == (Some(result), Some(output), None::<String>),
            Err(m) => r == (None::<String>, None::<String>, Some(m)),
        },
{
    match run {
        Ok((result, output)) => (Some(result), Some(output), None),
        Err(m) => (None, None, Some(m)),
    }
}

// ---------------------------------------------------------------------------
// Laws
// ---------------------------------------------------------------------------

/// The loop keeps to its budget, each failed check adds one message to the
/// transcript, it succeeds only with a program that checked clean and ran, and a
/// clean program ends it.
pub proof fn loop_keeps_its_budget(turns: Seq<TurnV>, task: Seq<char>, max_iters: int)
    ensures
        match loop_outcome(turns, 0, first_attempt(task, max_iters)) {
            Some(o) => {
                &&& 1 <= o.iterations <= (if max_iters < 1 {
                    1
                } else {
                    max_iters
                })
                &&& o.iterations <= turns.len()
                &&& o.transcript.len() == o.iterations || o.transcript.len() == o.iterations - 1
                &&& o.success ==> o.diagnostics.len() == 0 && o.runtime_error is None
                    && o.transcript.len() == o.iterations - 1
            },
            None => true,
        },
{
    lemma_budget(turns, 0, first_attempt(task, max_iters));
}

proof fn lemma_budget(turns: Seq<TurnV>, k: int, a: AttemptV)
    requires
        0 <= k <= turns.len(),
        1 <= a.iter == k + 1,
        a.iter <= a.iters,
        a.transcript.len() == k,
    ensures
        match loop_outcome(turns, k, a) {
            Some(o) => {
                &&& 1 <= o.iterations <= a.iters
                &&& o.iterations <= turns.len()
                &&& o.transcript.len() == o.iterations || o.transcript.len() == o.iterations - 1
                &&& o.success ==> o.diagnostics.len() == 0 && o.runtime_error is None
                    && o.transcript.len() == o.iterations - 1
            },
            None => true,
        },
    decreases turns.len() - k,
{
    if k < turns.len() {
        if let Err(next) = iteration(a, turns[k]) {
            lemma_budget(turns, k + 1, next);
        }
    }
}

/// With as many turns as iterations the loop ends, whatever the turns hold.
pub proof fn loop_ends(turns: Seq<TurnV>, task: Seq<char>, max_iters: int)
    requires
        turns.len() >= 1,
        turns.len() >= max_iters,
    ensures
        loop_outcome(turns, 0, first_attempt(task, max_iters)) is Some,
{
    lemma_ends(turns, 0, first_attempt(task, max_iters));
}

proof fn lemma_ends(turns: Seq<TurnV>, k: int, a: AttemptV)
    requires
        0 <= k < turns.len(),
        a.iter == k + 1,
        a.iter <= a.iters <= turns.len(),
    ensures
        loop_outcome(turns, k, a) is Some,
    decreases turns.len() - k,
{
    if let Err(next) = iteration(a, turns[k]) {
        lemma_ends(turns, k + 1, next);
    }
}

/// The attempt before turn `k`, if the loop gets there.
pub open spec fn attempt_at(turns: Seq<TurnV>, k: nat, first: AttemptV) -> Option<AttemptV>
    decreases k,
{
    if k == 0 {
        Some(first)
    } else {
        match attempt_at(turns, (k - 1) as nat, first) {
            None => None,
            Some(a) => if k > turns.len() {
                None
            } else {
                match iteration(a, turns[k - 1]) {
                    Ok(_) => None,
                    Err(next) => Some(next),
                }
            },
        }
    }
}

/// The prompt that the provider is sent at turn `k`; none once the loop has ended.
pub open spec fn prompt_at(turns: Seq<TurnV>, k: nat, task: Seq<char>, max_iters: int) -> Option<
    Seq<char>,
> {
    match attempt_at(turns, k, first_attempt(task, max_iters)) {
        Some(a) => Some(prompt_text(a.task, a.transcript)),
        None => None,
    }
}

/// Whether a turn ends the loop whatever the budget: the provider failed, or the
/// program checked clean.
pub open spec fn ends_loop(t: TurnV) -> bool {
    t.reply is Err || t.diagnostics.len() == 0
}

/// The loop asks the provider once for each iteration, with the task and the
/// feedback that stands in the transcript by then, and does not ask again. Only its
/// last turn can be a failure or a clean program, and every other turn has left the
/// feedback on its program in the transcript.
pub proof fn loop_sends_its_feedback(turns: Seq<TurnV>, task: Seq<char>, max_iters: int)
    ensures
        loop_outcome(turns, 0, first_attempt(task, max_iters)) matches Some(o) ==> {
            &&& 1 <= o.iterations <= turns.len()
            &&& forall|k: int|
                0 <= k < o.iterations ==> #[trigger] prompt_at(turns, k as nat, task, max_iters)
                    == Some(prompt_text(task, o.transcript.take(k)))
            &&& forall|k: int|
                k >= o.iterations ==> #[trigger] prompt_at(turns, k as nat, task, max_iters) is None
            &&& forall|k: int|
                0 <= k < o.iterations - 1 ==> !ends_loop(#[trigger] turns[k])
            &&& forall|k: int|
                0 <= k < o.iterations && !ends_loop(#[trigger] turns[k]) ==> k < o.transcript.len()
                    && o.transcript[k] == feedback_text(
                    extracted(turns[k].reply->Ok_0),
                    turns[k].diagnostics,
                )
            &&& o.transcript.len() == if ends_loop(turns[o.iterations - 1]) {
                o.iterations - 1
            } else {
                o.iterations
            }
        },
{
    let first = first_attempt(task, max_iters);
    lemma_sent(turns, 0, first, first);
    if let Some(o) = loop_outcome(turns, 0, first) {
        assert forall|k: int| 0 <= k < o.iterations implies #[trigger] prompt_at(
            turns,
            k as nat,
            task,
            max_iters,
        ) == Some(prompt_text(task, o.transcript.take(k))) by {
            assert(attempt_at(turns, k as nat, first) is Some);
        }
        assert forall|k: int| k >= o.iterations implies #[trigger] prompt_at(
            turns,
            k as nat,
            task,
            max_iters,
        ) is None by {
            lemma_ended(turns, o.iterations as nat, k as nat, first);
        }
    }
}

proof fn lemma_ended(turns: Seq<TurnV>, n: nat, k: nat, first: AttemptV)
    requires
        n <= k,
        attempt_at(turns, n, first) is None,
    ensures
        attempt_at(turns, k, first) is None,
    decreases k,
{
    if n < k {
        lemma_ended(turns, n, (k - 1) as nat, first);
    }
}

proof fn lemma_sent(turns: Seq<TurnV>, k: int, a: AttemptV, first: AttemptV)
    requires
        0 <= k <= turns.len(),
        attempt_at(turns, k as nat, first) == Some(a),
        a.iter == k + 1,
        a.task == first.task,
        a.transcript.len() == k,
    ensures
        loop_outcome(turns, k, a) matches Some(o) ==> {
            &&& k < o.iterations <= turns.len()
            &&& k <= o.transcript.len()
            &&& o.transcript.take(k) == a.transcript
            &&& forall|j: int|
                k <= j < o.iterations ==> (#[trigger] attempt_at(turns, j as nat, first) matches Some(
                    b,
                ) && b.task == first.task && b.transcript == o.transcript.take(j))
            &&& attempt_at(turns, o.iterations as nat, first) is None
            &&& forall|j: int| k <= j < o.iterations - 1 ==> !ends_loop(#[trigger] turns[j])
            &&& forall|j: int|
                k <= j < o.iterations && !ends_loop(#[trigger] turns[j]) ==> j < o.transcript.len()
                    && o.transcript[j] == feedback_text(
                    extracted(turns[j].reply->Ok_0),
                    turns[j].diagnostics,
                )
            &&& o.transcript.len() == if ends_loop(turns[o.iterations - 1]) {
                o.iterations - 1
            } else {
                o.iterations
            }
        },
    decreases turns.len() - k,
{
    if k < turns.len() {
        match iteration(a, turns[k]) {
            Ok(o) => {
                assert(o.transcript.take(k) =~= a.transcript);
                assert(attempt_at(turns, (k + 1) as nat, first) is None);
            },
            Err(next) => {
                assert(attempt_at(turns, (k + 1) as nat, first) == Some(next));
                lemma_sent(turns, k + 1, next, first);
                if let Some(o) = loop_outcome(turns, k + 1, next) {
                    assert(o.transcript.take(k) =~= o.transcript.take(k + 1).take(k));
                    assert(o.transcript.take(k) =~= a.transcript);
                    assert(o.transcript[k] == o.transcript.take(k + 1)[k]);
                }
            },
        }
    }
}

} // verus!
