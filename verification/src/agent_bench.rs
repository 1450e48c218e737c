//! The authoring benchmark runner: each task's loop outcome is graded, and the
//! results are summed up to the headline number, the share of tasks whose program
//! is correct, beside convergence and iterations to green.
//!
//! The provider `reference` feeds each task its own reference solution, so that
//! the whole harness runs without a model.

use vstd::prelude::*;
use vstd::string::*;

use crate::agent::providers::{chosen, preset_views};
use crate::agent::{
    provider_from_spec, AgentOutcome, FixedProvider, OutcomeV, Presets, ProviderChoice,
};
use crate::agent_tasks::{grade, graded, Grade, GradeV, Task, TaskV};
use crate::diagnostics::opt_view;
use crate::text::{chars_of, dec, fill1, fmt, put3, put5, str_eq, usize_text};

verus! {

/// The benchmark result for a single task.
#[derive(Debug)]
pub struct TaskResult {
    pub name: &'static str,
    /// Whether the loop reached a program that checks clean and runs.
    pub converged: bool,
    /// The iterations that the loop used.
    pub iterations: usize,
    /// The grade of the converged program; none where it never converged.
    pub grade: Option<Grade>,
    /// A short note: an error, or the grader's reason. Empty when correct.
    pub note: String,
}

/// A result, as a model.
pub struct ResultV {
    pub name: Seq<char>,
    pub converged: bool,
    pub iterations: int,
    pub grade: Option<GradeV>,
    pub note: Seq<char>,
}

impl TaskResult {
    /// The result's model.
    pub open spec fn view(&self) -> ResultV {
        ResultV {
            name: self.name@,
            converged: self.converged,
            iterations: self.iterations as int,
            grade: match self.grade {
                Some(g) => Some(g@),
                None => None,
            },
            note: self.note@,
        }
    }

    /// Whether the produced program converged and is correct.
    pub fn correct(&self) -> (r: bool)
        ensures
            r == is_right(self@),
    {
        match &self.grade {
            Some(g) => g.is_correct(),
            None => false,
        }
    }
}

/// Whether the produced program is correct.
pub open spec fn is_right(r: ResultV) -> bool {
    match r.grade {
        Some(g) => g is Correct,
        None => false,
    }
}

/// The models of a list of results.
pub open spec fn result_views(v: Seq<TaskResult>) -> Seq<ResultV> {
    v.map_values(|r: TaskResult| r@)
}

// ---------------------------------------------------------------------------
// One task
// ---------------------------------------------------------------------------

/// The provider of a task.
#[derive(Debug)]
pub enum TaskProvider {
    /// The task's own reference solution.
    Reference(FixedProvider),
    /// A selected provider.
    Chosen(ProviderChoice),
}

/// The provider for a task: its own reference solution for `reference`, and for any
/// other value the provider that it selects. Each task gets a fresh one.
pub fn provider_for_task(spec: &str, task: &Task, presets: &Presets) -> (r: Result<
    TaskProvider,
    String,
>)
    ensures
        if spec@ == "reference"@ {
            r matches Ok(TaskProvider::Reference(p)) && p.program@ == task.reference@ && p.name@
                == "reference"@
        } else {
            match chosen(
                spec@,
                preset_views(presets.tools@),
                preset_views(presets.clouds@),
            ) {
                Ok(c) => r matches Ok(TaskProvider::Chosen(p)) && p@ == c,
                Err(m) => r matches Err(e) && e@ == m,
            }
        },
{
    if str_eq(spec, "reference") {
        Ok(TaskProvider::Reference(FixedProvider::new(task.reference, "reference")))
    } else {
        match provider_from_spec(spec, presets) {
            Ok(p) => Ok(TaskProvider::Chosen(p)),
            Err(m) => Err(m),
        }
    }
}

/// The result of a task whose provider could not be selected.
pub open spec fn unprovided(task: TaskV, m: Seq<char>) -> ResultV {
    ResultV {
        name: task.name,
        converged: false,
        iterations: 0,
        grade: None,
        note: fmt("provider error: {}"@, seq![m]),
    }
}

/// The result of a task whose loop ended, with what a run of its program gave.
pub open spec fn ended(
    task: TaskV,
    o: OutcomeV,
    run: (Option<Seq<char>>, Option<Seq<char>>, Option<Seq<char>>),
) -> ResultV {
    if !o.success {
        ResultV {
            name: task.name,
            converged: false,
            iterations: o.iterations,
            grade: None,
            note: match o.runtime_error {
                Some(m) => m,
                None => "did not converge within budget"@,
            },
        }
    } else {
        let g = graded(task, run.0, run.1, run.2);
        ResultV {
            name: task.name,
            converged: true,
            iterations: o.iterations,
            grade: Some(g),
            note: match g {
                GradeV::Correct => Seq::empty(),
                GradeV::Incorrect(why) => why,
            },
        }
    }
}

/// The benchmark result of one task. `outcome` is that of the loop, or the message
/// of a provider that could not be selected; `run` is what a run of the outcome's
/// program gave, which is graded where the loop converged.
pub fn run_task(
    task: &Task,
    outcome: Result<AgentOutcome, String>,
    run: &(Option<String>, Option<String>, Option<String>),
) -> (r: TaskResult)
    ensures
        match outcome {
            Ok(o) => r@ == ended(
                task@,
                o@,
                (opt_view(run.0), opt_view(run.1), opt_view(run.2)),
            ),
            Err(m) => r@ == unprovided(task@, m@),
        },
{
    let o: AgentOutcome = match outcome {
        Ok(o) => o,
        Err(m) => return TaskResult {
            name: task.name,
            converged: false,
            iterations: 0,
            grade: None,
            note: fill1("provider error: {}", m.as_str()),
        },
    };
    if !o.success {
        let note: String = match o.runtime_error {
            Some(m) => m,
            None => "did not converge within budget".to_owned(),
        };
        return TaskResult {
            name: task.name,
            converged: false,
            iterations: o.iterations,
            grade: None,
            note,
        };
    }
    let g: Grade = grade(task, run);
    let note: String = match &g {
        Grade::Correct => {
            let none: String = String::new();
            assert(none@ =~= Seq::<char>::empty());
            none
        },
        Grade::Incorrect { why } => why.clone(),
    };
    TaskResult {
        name: task.name,
        converged: true,
        iterations: o.iterations,
        grade: Some(g),
        note,
    }
}

// ---------------------------------------------------------------------------
// The sweep
// ---------------------------------------------------------------------------

/// The aggregate over a whole sweep.
#[derive(Debug)]
pub struct Aggregate {
    pub total: usize,
    pub converged: usize,
    pub correct: usize,
    /// The iteration counts of the converged tasks.
    pub converged_iters: Vec<usize>,
}

/// An aggregate, as a model.
pub struct AggregateV {
    pub total: nat,
    pub converged: nat,
    pub correct: nat,
    pub converged_iters: Seq<usize>,
}

impl Aggregate {
    /// The aggregate's model.
    pub open spec fn view(&self) -> AggregateV {
        AggregateV {
            total: self.total as nat,
            converged: self.converged as nat,
            correct: self.correct as nat,
            converged_iters: self.converged_iters@,
        }
    }

    /// The counts fit together: what is correct converged.
    pub open spec fn wf(&self) -> bool {
        self.correct <= self.converged <= self.total
    }

    /// The sum of the iterations and their number, from which the mean is taken;
    /// none if no task converged.
    pub fn iters_sum(&self) -> (r: Option<(u128, usize)>)
        ensures
            match r {
                Some((sum, n)) => sum == total_of(self.converged_iters@, n as nat) && n
                    == self.converged_iters@.len() && n > 0,
                None => self.converged_iters@.len() == 0,
            },
    {
        let n: usize = self.converged_iters.len();
        if n == 0 {
            return None;
        }
        let mut sum: u128 = 0;
        let mut i: usize = 0;
        while i < n
            invariant
                i <= n == self.converged_iters@.len(),
                sum == total_of(self.converged_iters@, i as nat),
                sum <= i * 0xFFFF_FFFF_FFFF_FFFF,
            decreases n - i,
        {
            assert(i * 0xFFFF_FFFF_FFFF_FFFF + 0xFFFF_FFFF_FFFF_FFFF == (i + 1)
                * 0xFFFF_FFFF_FFFF_FFFF) by (nonlinear_arith);
            assert((i + 1) * 0xFFFF_FFFF_FFFF_FFFF
                < 0x1_0000_0000_0000_0000_0000_0000_0000_0000) by (nonlinear_arith)
                requires
                    i + 1 <= 0xFFFF_FFFF_FFFF_FFFF,
            ;
            sum = sum + self.converged_iters[i] as u128;
            i = i + 1;
        }
        Some((sum, n))
    }

    /// The two middle iteration counts, which are the same one for an odd number of
    /// converged tasks; their mean is the median. None if no task converged.
    pub fn middle_iters(&self) -> (r: Option<(usize, usize)>)
        ensures
            match r {
                Some((a, b)) => {
                    let v = self.converged_iters@;
                    let n = v.len();
                    &&& n > 0
                    &&& ranked(v, a, (n - 1) / 2)
                    &&& ranked(v, b, n as int / 2)
                },
                None => self.converged_iters@.len() == 0,
            },
    {
        let n: usize = self.converged_iters.len();
        if n == 0 {
            return None;
        }
        let a: usize = select(&self.converged_iters, (n - 1) / 2);
        let b: usize = select(&self.converged_iters, n / 2);
        Some((a, b))
    }
}

/// The sum of the first `n` numbers.
pub open spec fn total_of(v: Seq<usize>, n: nat) -> nat
    decreases n,
{
    if n == 0 || n > v.len() {
        0
    } else {
        total_of(v, (n - 1) as nat) + v[n - 1] as nat
    }
}

/// How many of the first `n` numbers are less than `x`.
pub open spec fn below(v: Seq<usize>, x: int, n: nat) -> nat
    decreases n,
{
    if n == 0 || n > v.len() {
        0
    } else {
        below(v, x, (n - 1) as nat) + if v[n - 1] < x {
            1nat
        } else {
            0nat
        }
    }
}

/// Whether `x` is the number that stands at position `k` once the numbers are
/// sorted: at most `k` of them are less, and more than `k` are not greater.
pub open spec fn ranked(v: Seq<usize>, x: usize, k: int) -> bool {
    v.contains(x) && below(v, x as int, v.len()) <= k < below(v, x + 1, v.len())
}

fn count_below(v: &Vec<usize>, x: usize, inclusive: bool) -> (r: usize)
    ensures
        r == below(
            v@,
            if inclusive {
                x + 1
            } else {
                x as int
            },
            v@.len(),
        ),
{
    let ghost limit: int = if inclusive {
        x + 1
    } else {
        x as int
    };
    let mut count: usize = 0;
    let mut i: usize = 0;
    while i < v.len()
        invariant
            i <= v@.len(),
            count <= i,
            limit == (if inclusive {
                x + 1
            } else {
                x as int
            }),
            count == below(v@, limit, i as nat),
        decreases v@.len() - i,
    {
        if v[i] < x || (inclusive && v[i] == x) {
            count = count + 1;
        }
        i = i + 1;
    }
    count
}

/// The number that stands at position `k` once the numbers are sorted.
fn select(v: &Vec<usize>, k: usize) -> (r: usize)
    requires
        k < v@.len(),
    ensures
        ranked(v@, r, k as int),
{
    let mut i: usize = 0;
    while i < v.len()
        invariant
            i <= v@.len(),
            k < v@.len(),
            forall|j: int| 0 <= j < i ==> !ranked(v@, #[trigger] v@[j], k as int),
        decreases v@.len() - i,
    {
        let less: usize = count_below(v, v[i], false);
        let most: usize = count_below(v, v[i], true);
        if less <= k && k < most {
            assert(v@.contains(v@[i as int]));
            return v[i];
        }
        i = i + 1;
    }
    proof {
        lemma_rank_exists(v@, k as int);
        let x = choose|x: usize| #[trigger] ranked(v@, x, k as int);
        let j = v@.index_of(x);
        assert(ranked(v@, v@[j], k as int));
    }
    0
}

/// Every position holds a number once the numbers are sorted.
proof fn lemma_rank_exists(v: Seq<usize>, k: int)
    requires
        0 <= k < v.len(),
    ensures
        exists|x: usize| #[trigger] ranked(v, x, k),
{
    let n = v.len();
    lemma_below_none(v, 0, n);
    lemma_below_all(v, usize::MAX + 1, n);
    let x = lemma_crossing(v, k, 0, usize::MAX + 1);
    if !v.contains(x) {
        lemma_below_same(v, x as int, n);
    }
    assert(ranked(v, x, k));
}

/// Somewhere between two limits the count passes `k`.
proof fn lemma_crossing(v: Seq<usize>, k: int, lo: int, hi: int) -> (x: usize)
    requires
        0 <= lo < hi <= usize::MAX + 1,
        below(v, lo, v.len()) <= k < below(v, hi, v.len()),
    ensures
        below(v, x as int, v.len()) <= k < below(v, x + 1, v.len()),
    decreases hi - lo,
{
    if hi == lo + 1 {
        lo as usize
    } else {
        let mid = (lo + hi) / 2;
        if below(v, mid, v.len()) <= k {
            lemma_crossing(v, k, mid, hi)
        } else {
            lemma_crossing(v, k, lo, mid)
        }
    }
}

proof fn lemma_below_none(v: Seq<usize>, x: int, n: nat)
    requires
        x <= 0,
        n <= v.len(),
    ensures
        below(v, x, n) == 0,
    decreases n,
{
    if n > 0 {
        lemma_below_none(v, x, (n - 1) as nat);
    }
}

proof fn lemma_below_all(v: Seq<usize>, x: int, n: nat)
    requires
        x > usize::MAX,
        n <= v.len(),
    ensures
        below(v, x, n) == n,
    decreases n,
{
    if n > 0 {
        lemma_below_all(v, x, (n - 1) as nat);
    }
}

proof fn lemma_below_same(v: Seq<usize>, x: int, n: nat)
    requires
        n <= v.len(),
        forall|i: int| 0 <= i < v.len() ==> v[i] != x,
    ensures
        below(v, x, n) == below(v, x + 1, n),
    decreases n,
{
    if n > 0 {
        lemma_below_same(v, x, (n - 1) as nat);
    }
}

/// How many of the first `n` results converged.
pub open spec fn converged_count(rs: Seq<ResultV>, n: nat) -> nat
    decreases n,
{
    if n == 0 || n > rs.len() {
        0
    } else {
        converged_count(rs, (n - 1) as nat) + if rs[n - 1].converged {
            1nat
        } else {
            0nat
        }
    }
}

/// How many of the first `n` results are correct.
pub open spec fn correct_count(rs: Seq<ResultV>, n: nat) -> nat
    decreases n,
{
    if n == 0 || n > rs.len() {
        0
    } else {
        correct_count(rs, (n - 1) as nat) + if is_right(rs[n - 1]) {
            1nat
        } else {
            0nat
        }
    }
}

/// The iterations of the converged ones among the first `n` results.
pub open spec fn iters_of(rs: Seq<ResultV>, n: nat) -> Seq<usize>
    decreases n,
{
    if n == 0 || n > rs.len() {
        Seq::empty()
    } else {
        let before = iters_of(rs, (n - 1) as nat);
        if rs[n - 1].converged {
            before.push(rs[n - 1].iterations as usize)
        } else {
            before
        }
    }
}

/// Sum up the results of a sweep; they come back with the aggregate.
pub fn run(results: Vec<TaskResult>) -> (r: (Vec<TaskResult>, Aggregate))
    ensures
        r.0 == results,
        ({
            let rs = result_views(results@);
            r.1@ == AggregateV {
                total: rs.len(),
                converged: converged_count(rs, rs.len()),
                correct: correct_count(rs, rs.len()),
                converged_iters: iters_of(rs, rs.len()),
            }
        }),
{
    let ghost rs = result_views(results@);
    let total: usize = results.len();
    let mut converged: usize = 0;
    let mut correct: usize = 0;
    let mut converged_iters: Vec<usize> = Vec::new();
    let mut i: usize = 0;
    while i < total
        invariant
            i <= total == results@.len(),
            rs == result_views(results@),
            converged <= i,
            correct <= i,
            converged == converged_count(rs, i as nat),
            correct == correct_count(rs, i as nat),
            converged_iters@ == iters_of(rs, i as nat),
        decreases total - i,
    {
        let r: &TaskResult = &results[i];
        assert(rs[i as int] == r@);
        if r.converged {
            converged = converged + 1;
            converged_iters.push(r.iterations);
        }
        if r.correct() {
            correct = correct + 1;
        }
        i = i + 1;
    }
    (results, Aggregate { total, converged, correct, converged_iters })
}

// ---------------------------------------------------------------------------
// The report
// ---------------------------------------------------------------------------

/// `n` spaces.
pub open spec fn spaces(n: nat) -> Seq<char> {
    Seq::new(n, |i: int| ' ')
}

/// A text with spaces behind it up to a width.
pub open spec fn flush_left(s: Seq<char>, width: nat) -> Seq<char> {
    if s.len() < width {
        s + spaces((width - s.len()) as nat)
    } else {
        s
    }
}

/// A text with spaces before it up to a width.
pub open spec fn flush_right(s: Seq<char>, width: nat) -> Seq<char> {
    if s.len() < width {
        spaces((width - s.len()) as nat) + s
    } else {
        s
    }
}

fn blanks(n: usize) -> (r: String)
    ensures
        r@ == spaces(n as nat),
{
    let mut r: String = String::new();
    let mut i: usize = 0;
    while i < n
        invariant
            i <= n,
            r@ =~= spaces(i as nat),
        decreases n - i,
    {
        r.push(' ');
        i = i + 1;
    }
    r
}

fn pad_right(s: &str, width: usize) -> (r: String)
    ensures
        r@ == flush_left(s@, width as nat),
{
    let n: usize = chars_of(s).len();
    let mut r: String = s.to_owned();
    if n < width {
        let gap: String = blanks(width - n);
        r.append(gap.as_str());
    }
    r
}

fn pad_left(s: &str, width: usize) -> (r: String)
    ensures
        r@ == flush_right(s@, width as nat),
{
    let n: usize = chars_of(s).len();
    if n < width {
        let mut r: String = blanks(width - n);
        r.append(s);
        r
    } else {
        s.to_owned()
    }
}

/// A line of the table.
pub open spec fn table_line(
    name: Seq<char>,
    converged: Seq<char>,
    iters: Seq<char>,
    correct: Seq<char>,
    note: Seq<char>,
) -> Seq<char> {
    fmt(
        "TASK {} {} {} {}  {}\n"@,
        seq![
            flush_left(name, 18),
            flush_right(converged, 9),
            flush_right(iters, 6),
            flush_right(correct, 8),
            note,
        ],
    )
}

/// The line of a result.
pub open spec fn result_line(r: ResultV) -> Seq<char> {
    table_line(
        r.name,
        if r.converged {
            "yes"@
        } else {
            "no"@
        },
        dec(r.iterations),
        match r.grade {
            Some(GradeV::Correct) => "yes"@,
            Some(GradeV::Incorrect(_)) => "no"@,
            None => "-"@,
        },
        r.note,
    )
}

/// The first `n` result lines behind what stands before.
pub open spec fn result_lines(out: Seq<char>, rs: Seq<ResultV>, n: nat) -> Seq<char>
    decreases n,
{
    if n == 0 || n > rs.len() {
        out
    } else {
        result_lines(out, rs, (n - 1) as nat) + result_line(rs[n - 1])
    }
}

/// The rates of an aggregate as texts: percentages with one digit behind the
/// point, the mean with two and the median with one, or `n/a`.
#[derive(Debug)]
pub struct Rates {
    pub convergence: String,
    pub correctness: String,
    pub mean: String,
    pub median: String,
}

/// The report.
pub open spec fn report(spec: Seq<char>, rs: Seq<ResultV>, a: AggregateV, rates: Rates) -> Seq<char> {
    let s1 = fmt("== aria authoring benchmark :: provider `{}` ==\n"@, seq![spec]) + table_line(
        "name"@,
        "converged"@,
        "iters"@,
        "correct"@,
        "note"@,
    );
    let s2 = result_lines(s1, rs, rs.len()) + "---\n"@;
    let s3 = s2 + fmt(
        "BENCH convergence {}% ({}/{})\n"@,
        seq![rates.convergence@, dec(a.converged as int), dec(a.total as int)],
    );
    let s4 = s3 + fmt(
        "BENCH correctness {}% ({}/{})  <- author-correctness pass-rate\n"@,
        seq![rates.correctness@, dec(a.correct as int), dec(a.total as int)],
    );
    let s5 = s4 + fmt(
        "BENCH iters-to-green mean {} median {} (over {} converged)\n"@,
        seq![rates.mean@, rates.median@, dec(a.converged_iters.len() as int)],
    );
    s5 + fmt(
        "BENCH counts total={} converged={} correct={} incorrect={} nonconverged={}\n"@,
        seq![
            dec(a.total as int),
            dec(a.converged as int),
            dec(a.correct as int),
            dec(a.converged - a.correct),
            dec(a.total - a.converged),
        ],
    )
}

fn put_line(out: &mut String, name: &str, converged: &str, iters: &str, correct: &str, note: &str)
    ensures
        final(out)@ == old(out)@ + table_line(name@, converged@, iters@, correct@, note@),
{
    let name: String = pad_right(name, 18);
    let converged: String = pad_left(converged, 9);
    let iters: String = pad_left(iters, 6);
    let correct: String = pad_left(correct, 8);
    put5(
        out,
        "TASK {} {} {} {}  {}\n",
        name.as_str(),
        converged.as_str(),
        iters.as_str(),
        correct.as_str(),
        note,
    );
}

/// Render the full report: a line per task and the summary. Task lines start with
/// `TASK ` and summary lines with `BENCH `.
pub fn render_report(spec: &str, results: &[TaskResult], agg: &Aggregate, rates: &Rates) -> (r:
    String)
    requires
        agg.wf(),
    ensures
        r@ == report(spec@, result_views(results@), agg@, *rates),
{
    let ghost rs = result_views(results@);
    let mut s: String = fill1("== aria authoring benchmark :: provider `{}` ==\n", spec);
    put_line(&mut s, "name", "converged", "iters", "correct", "note");
    let ghost head = s@;
    let mut i: usize = 0;
    while i < results.len()
        invariant
            i <= results@.len(),
            rs == result_views(results@),
            s@ == result_lines(head, rs, i as nat),
        decreases results@.len() - i,
    {
        let r: &TaskResult = &results[i];
        assert(rs[i as int] == r@);
        let converged: &str = if r.converged {
            "yes"
        } else {
            "no"
        };
        let correct: &str = match &r.grade {
            Some(Grade::Correct) => "yes",
            Some(Grade::Incorrect { why: _ }) => "no",
            None => "-",
        };
        let iters: String = usize_text(r.iterations);
        put_line(&mut s, r.name, converged, iters.as_str(), correct, r.note.as_str());
        i = i + 1;
    }
    s.append("---\n");
    let total: String = usize_text(agg.total);
    let converged: String = usize_text(agg.converged);
    let correct: String = usize_text(agg.correct);
    put3(
        &mut s,
        "BENCH convergence {}% ({}/{})\n",
        rates.convergence.as_str(),
        converged.as_str(),
        total.as_str(),
    );
    put3(
        &mut s,
        "BENCH correctness {}% ({}/{})  <- author-correctness pass-rate\n",
        rates.correctness.as_str(),
        correct.as_str(),
        total.as_str(),
    );
    let over: String = usize_text(agg.converged_iters.len());
    put3(
        &mut s,
        "BENCH iters-to-green mean {} median {} (over {} converged)\n",
        rates.mean.as_str(),
        rates.median.as_str(),
        over.as_str(),
    );
    let incorrect: String = usize_text(agg.converged - agg.correct);
    let open: String = usize_text(agg.total - agg.converged);
    put5(
        &mut s,
        "BENCH counts total={} converged={} correct={} incorrect={} nonconverged={}\n",
        total.as_str(),
        converged.as_str(),
        correct.as_str(),
        incorrect.as_str(),
        open.as_str(),
    );
    s
}

// ---------------------------------------------------------------------------
// Laws
// ---------------------------------------------------------------------------

/// A result in which only a converged program is graded.
pub open spec fn graded_if_converged(r: ResultV) -> bool {
    r.grade is Some ==> r.converged
}

/// What a task gives is graded only if it converged.
pub proof fn only_converged_is_graded(
    task: TaskV,
    o: OutcomeV,
    run: (Option<Seq<char>>, Option<Seq<char>>, Option<Seq<char>>),
    m: Seq<char>,
)
    ensures
        graded_if_converged(ended(task, o, run)),
        graded_if_converged(unprovided(task, m)),
        is_right(ended(task, o, run)) <==> o.success && graded(task, run.0, run.1, run.2)
            is Correct,
{
}

/// The counts of a sweep fit together, as the report needs: no more is correct than
/// converged, no more converged than there are tasks, and each converged task has
/// its iterations.
pub proof fn counts_fit(rs: Seq<ResultV>)
    requires
        forall|i: int| 0 <= i < rs.len() ==> graded_if_converged(#[trigger] rs[i]),
    ensures
        correct_count(rs, rs.len()) <= converged_count(rs, rs.len()) <= rs.len(),
        iters_of(rs, rs.len()).len() == converged_count(rs, rs.len()),
{
    lemma_counts(rs, rs.len());
}

proof fn lemma_counts(rs: Seq<ResultV>, n: nat)
    requires
        n <= rs.len(),
        forall|i: int| 0 <= i < rs.len() ==> graded_if_converged(#[trigger] rs[i]),
    ensures
        correct_count(rs, n) <= converged_count(rs, n) <= n,
        iters_of(rs, n).len() == converged_count(rs, n),
    decreases n,
{
    if n > 0 {
        lemma_counts(rs, (n - 1) as nat);
        assert(graded_if_converged(rs[n - 1]));
    }
}

} // verus!
