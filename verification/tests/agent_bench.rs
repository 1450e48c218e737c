//! The task suite, the grader and the benchmark's bookkeeping.

use aria::agent::{
    extract_program, run_program, AgentOutcome, Attempt, Checked, FixedProvider, Presets, Provider,
    Replied,
};
use aria::agent_bench::{
    provider_for_task, render_report, run, run_task, Aggregate, Rates, TaskProvider, TaskResult,
};
use aria::agent_tasks::{grade, task_by_name, tasks, Grade, Task};

type Run = (Option<String>, Option<String>, Option<String>);

fn ran(result: &str, output: &str) -> Run {
    run_program(Ok((result.to_string(), output.to_string())))
}

// The grader is not trivially passing: a deliberately WRONG program — one
// that checks clean and RUNS but prints/returns the wrong thing — must be
// graded INCORRECT.
#[test]
fn grader_fails_a_wrong_program() {
    let t = task_by_name("sum_1_to_100").expect("task exists");
    // Clean + runs, but prints 9999 instead of 5050 — converged but WRONG.
    let g = grade(&t, &ran("0", "9999\n"));
    assert!(!g.is_correct(), "wrong output must grade incorrect: {:?}", g);
    match g {
        Grade::Incorrect { why } => assert!(
            why.contains("output mismatch"),
            "expected an output-mismatch reason, got: {}",
            why
        ),
        Grade::Correct => panic!("should be incorrect"),
    }
}

// A program that checks clean but RETURNS the wrong value (right output,
// wrong return) is also incorrect — proves the return-value oracle bites.
#[test]
fn grader_fails_wrong_return_value() {
    let t = task_by_name("constant").expect("task exists");
    // Prints 42 (right) but returns 1 (wrong — oracle wants 0).
    let g = grade(&t, &ran("1", "42\n"));
    assert!(!g.is_correct(), "wrong return must grade incorrect: {:?}", g);
}

// A program that fails to RUN (e.g. division by zero) grades incorrect with a
// runtime-error reason — never a panic.
#[test]
fn grader_fails_a_runtime_error_cleanly() {
    let t = task_by_name("constant").expect("task exists");
    let g = grade(&t, &run_program(Err("division by zero".to_string())));
    assert!(!g.is_correct());
    match g {
        Grade::Incorrect { why } => assert!(why.contains("runtime error")),
        Grade::Correct => panic!("should be incorrect"),
    }
}

#[test]
fn task_names_are_unique_and_findable() {
    let ts = tasks();
    let mut names: Vec<&str> = ts.iter().map(|t| t.name).collect();
    names.sort();
    let n = names.len();
    names.dedup();
    assert_eq!(names.len(), n, "task names must be unique");
    assert!(task_by_name("gcd").is_some());
    assert!(task_by_name("does_not_exist").is_none());
    assert!(n >= 12, "expected a spread of >=12 tasks, got {}", n);
}

#[test]
fn each_task_is_found_by_its_name() {
    for t in tasks() {
        let found = task_by_name(t.name).unwrap();
        assert_eq!(
            (found.prompt, found.expected_output, found.expected_return, found.reference),
            (t.prompt, t.expected_output, t.expected_return, t.reference)
        );
    }
}

// No prompt may STATE its expected answer in prose ("the sum is 100",
// "gcd(48,36) = 12", ...): such phrasing lets a model echo the constant
// (`print_int(100)`) and grade CORRECT without computing, inflating the
// author-correctness measure. None of these answer-revealing phrases may stand
// in a prompt. (A bare answer
// digit that legitimately appears among the INPUTS — e.g. `9` in the list
// `3,7,2,9,4` for max_of_list — is not a leak; only an answer STATEMENT is.)
#[test]
fn no_prompt_states_its_answer() {
    // (task, banned answer-revealing substrings that must NOT appear).
    let banned: &[(&str, &[&str])] = &[
        ("fib_20", &["6765"]),
        ("sum_array", &["sum is 100", "= 100", "is 100"]),
        ("count_evens", &["5 even", "are 5"]),
        ("map_squares", &["sum to 30", "= 30", "is 30", "0,1,4,9,16"]),
        ("map_sum_values", &["is 600", "= 600", "sum of the values is"]),
        ("max_of_list", &["maximum is 9", "is 9", "= 9"]),
        ("record_field", &["i.e. 7", "= 7", "is 7"]),
        ("gcd", &["= 12", "is 12", "gcd(48, 36) ="]),
        ("set_dedup_count", &["3 distinct", "are 3", "(1, 3, 5)"]),
        ("string_build", &["15"]),
        ("reverse_list", &["4 then 3 then 2 then 1"]),
    ];
    for (name, subs) in banned {
        let t = task_by_name(name).unwrap_or_else(|| panic!("task `{}` exists", name));
        for s in *subs {
            assert!(
                !t.prompt.contains(s),
                "task `{}` prompt reveals its answer via {:?}:\n{}",
                name,
                s,
                t.prompt
            );
        }
    }
}

// Spot-check: a constant-echo program (`print_int(<answer>)`) is NOT derivable
// straight from the prompt text — the literal answer is absent — so a model
// cannot copy it without doing the computation. (Grading is out-of-band, so
// such an echo still grades CORRECT if it prints the right value; the point is
// the PROMPT can no longer be the source of the constant.)
#[test]
fn constant_echo_not_copyable_from_prompt() {
    // These answers do NOT coincide with any number appearing in their prompt.
    for (name, answer) in [("sum_array", "100"), ("count_evens", "5"), ("gcd", "12")] {
        let t = task_by_name(name).expect("task exists");
        assert_eq!(t.expected_output, Some(format!("{}\n", answer).as_str()));
        assert!(
            !t.prompt.contains(answer),
            "task `{}` prompt still contains the constant {:?}",
            name,
            answer
        );
    }
}

// ---------------------------------------------------------------------------
// The benchmark
// ---------------------------------------------------------------------------

/// What a run of the reference solution of a task gives.
fn reference_run(task: &Task) -> Run {
    ran(task.expected_return.unwrap(), task.expected_output.unwrap())
}

/// The loop of a task whose provider's programs check clean and run.
fn converge<P: Provider>(provider: &mut P, task: &Task, result: Run) -> AgentOutcome {
    let attempt = Attempt::begin(task.prompt, 3);
    let prompt = attempt.prompt();
    match attempt.replied(provider.complete(&prompt)) {
        Replied::Candidate(c) => match c.checked(Vec::new()) {
            Checked::Clean(c) => c.ran(result),
            other => panic!("{:?}", other),
        },
        Replied::Failed(o) => o,
    }
}

fn sweep(spec: &str) -> (Vec<TaskResult>, Aggregate) {
    let mut results = Vec::new();
    for t in tasks() {
        let outcome = match provider_for_task(spec, &t, &Presets::standard("tool", "m")) {
            Ok(TaskProvider::Reference(mut p)) => {
                let o = converge(&mut p, &t, reference_run(&t));
                assert_eq!(o.program, t.reference.trim());
                Ok(o)
            }
            Ok(other) => panic!("{:?}", other),
            Err(m) => Err(m),
        };
        results.push(run_task(&t, outcome, &reference_run(&t)));
    }
    run(results)
}

fn full_rates() -> Rates {
    Rates {
        convergence: "100.0".to_string(),
        correctness: "100.0".to_string(),
        mean: "1.00".to_string(),
        median: "1.0".to_string(),
    }
}

#[test]
fn reference_provider_scores_full_marks_offline() {
    let tasks = tasks();
    let (results, agg) = sweep("reference");
    assert_eq!(agg.total, tasks.len());
    assert_eq!(agg.converged, agg.total, "reference should converge every task");
    assert_eq!(agg.correct, agg.total, "reference should be correct on every task");
    // Each converged in exactly ONE iteration (the reference checks clean
    // immediately — no feedback round needed).
    for r in &results {
        assert!(r.converged, "task `{}` should converge", r.name);
        assert!(r.correct(), "task `{}` should be correct", r.name);
        assert_eq!(r.iterations, 1, "task `{}` should take 1 iteration", r.name);
    }
    // The mean and the median are 1.
    assert_eq!(agg.iters_sum(), Some((agg.total as u128, agg.total)));
    assert_eq!(agg.middle_iters(), Some((1, 1)));
}

#[test]
fn reference_report_is_greppable_and_full_marks() {
    let tasks = tasks();
    let (results, agg) = sweep("reference");
    let report = render_report("reference", &results, &agg, &full_rates());
    assert!(report.contains("BENCH correctness 100.0%"), "report:\n{}", report);
    assert!(report.contains("author-correctness pass-rate"));
    assert!(report.contains("BENCH convergence 100.0%"));
    // One TASK line per task (plus the header line, which also starts TASK).
    let task_lines = report.lines().filter(|l| l.starts_with("TASK ")).count();
    assert_eq!(task_lines, tasks.len() + 1, "one header + one line per task");
    // Spot-check a couple of task names appear.
    assert!(report.contains("gcd"));
    assert!(report.contains("sum_1_to_100"));
}

struct WrongButClean;

impl Provider for WrongButClean {
    fn complete(&mut self, _p: &str) -> Result<String, String> {
        Ok("```aria\nfn main() -> Int = { print_int(1); 0 }\n```".to_string())
    }
    fn label(&self) -> String {
        "wrong".to_string()
    }
}

#[test]
fn converged_but_incorrect_is_measured() {
    let task = task_by_name("sum_1_to_100").unwrap();
    // It checks clean and runs, but prints 1.
    let outcome = converge(&mut WrongButClean, &task, ran("0", "1\n"));
    assert!(outcome.success, "wrong-but-clean program still converges");
    assert_eq!(outcome.program, "fn main() -> Int = { print_int(1); 0 }");
    let r = run_task(&task, Ok(outcome), &ran("0", "1\n"));
    assert!(r.converged && !r.correct(), "but it must grade INCORRECT");
    assert_eq!(r.note, "output mismatch: expected \"5050\\n\", got \"1\\n\"");
}

struct Exits;

impl Provider for Exits {
    fn complete(&mut self, _p: &str) -> Result<String, String> {
        Err("provider `exit 7` exited with exit status: 7: ".to_string())
    }
    fn label(&self) -> String {
        "cmd:exit 7".to_string()
    }
}

#[test]
fn failing_provider_yields_sane_zero_aggregate() {
    let mut results = Vec::new();
    for t in tasks().into_iter().take(2) {
        let o = converge(&mut Exits, &t, (None, None, None));
        results.push(run_task(&t, Ok(o), &(None, None, None)));
    }
    let (results, agg) = run(results);
    assert_eq!(agg.total, 2);
    assert_eq!(agg.converged, 0);
    assert_eq!(agg.correct, 0);
    assert!(agg.iters_sum().is_none(), "no converged tasks -> no mean");
    assert!(agg.middle_iters().is_none());
    assert!(results.iter().all(|r| !r.converged));
    // The report still renders cleanly with n/a iterations.
    let rates = Rates {
        convergence: "0.0".to_string(),
        correctness: "0.0".to_string(),
        mean: "n/a".to_string(),
        median: "n/a".to_string(),
    };
    let report = render_report("cmd:exit 7", &results, &agg, &rates);
    assert!(report.contains("BENCH correctness 0.0%"));
    assert!(report.contains("iters-to-green mean n/a"));
}

// ---------------------------------------------------------------------------
// Further cases
// ---------------------------------------------------------------------------

#[test]
fn report_text_is_exact() {
    let results = vec![
        TaskResult {
            name: "gcd",
            converged: true,
            iterations: 12,
            grade: Some(Grade::Correct),
            note: String::new(),
        },
        TaskResult {
            name: "a_name_of_more_than_18",
            converged: true,
            iterations: 2,
            grade: Some(Grade::Incorrect { why: "w".to_string() }),
            note: "w".to_string(),
        },
        TaskResult {
            name: "fib_20",
            converged: false,
            iterations: 3,
            grade: None,
            note: "n".to_string(),
        },
    ];
    let (results, agg) = run(results);
    assert_eq!((agg.total, agg.converged, agg.correct), (3, 2, 1));
    assert_eq!(agg.converged_iters, vec![12, 2]);
    let rates = Rates {
        convergence: "66.7".to_string(),
        correctness: "33.3".to_string(),
        mean: "7.00".to_string(),
        median: "7.0".to_string(),
    };
    let expected = "\
== aria authoring benchmark :: provider `p` ==
TASK name               converged  iters  correct  note
TASK gcd                      yes     12      yes  \n\
TASK a_name_of_more_than_18       yes      2       no  w
TASK fib_20                    no      3        -  n
---
BENCH convergence 66.7% (2/3)
BENCH correctness 33.3% (1/3)  <- author-correctness pass-rate
BENCH iters-to-green mean 7.00 median 7.0 (over 2 converged)
BENCH counts total=3 converged=2 correct=1 incorrect=1 nonconverged=1
";
    assert_eq!(render_report("p", &results, &agg, &rates), expected);
}

#[test]
fn middle_iterations() {
    let middle = |v: Vec<usize>| {
        let n = v.len();
        Aggregate { total: n, converged: n, correct: 0, converged_iters: v }.middle_iters()
    };
    assert_eq!(middle(vec![5]), Some((5, 5)));
    assert_eq!(middle(vec![3, 1, 2]), Some((2, 2)));
    assert_eq!(middle(vec![4, 1, 3, 2]), Some((2, 3)));
    assert_eq!(middle(vec![1, 9, 1, 1]), Some((1, 1)));
    let a = Aggregate { total: 2, converged: 2, correct: 0, converged_iters: vec![usize::MAX; 2] };
    assert_eq!(a.iters_sum(), Some((2 * usize::MAX as u128, 2)));
}

#[test]
fn unselected_provider_is_recorded() {
    let t = task_by_name("gcd").unwrap();
    let e = provider_for_task("nope", &t, &Presets::standard("tool", "m")).unwrap_err();
    let r = run_task(&t, Err(e), &(None, None, None));
    assert!(!r.converged && r.grade.is_none());
    assert_eq!(r.iterations, 0);
    assert!(r.note.starts_with("provider error: unknown provider `nope`"));
    // A loop that ends without a program says so.
    let o = AgentOutcome {
        success: false,
        program: String::new(),
        diagnostics: Vec::new(),
        result: None,
        output: None,
        runtime_error: None,
        iterations: 4,
        transcript: Vec::new(),
    };
    let r = run_task(&t, Ok(o), &(None, None, None));
    assert_eq!((r.note.as_str(), r.iterations), ("did not converge within budget", 4));
}

#[test]
fn grades_by_output_then_return() {
    let t = task_by_name("constant").unwrap();
    assert!(grade(&t, &ran("0", "42\n")).is_correct());
    let why = |r: &Run| match grade(&t, r) {
        Grade::Incorrect { why } => why,
        Grade::Correct => String::new(),
    };
    assert_eq!(why(&ran("1", "7\n")), "output mismatch: expected \"42\\n\", got \"7\\n\"");
    assert_eq!(why(&ran("1", "42\n")), "return mismatch: expected \"0\", got \"1\"");
    assert_eq!(why(&(None, None, None)), "output mismatch: expected \"42\\n\", got \"\"");
    assert_eq!(why(&run_program(Err("e".to_string()))), "runtime error: e");
    let any = Task {
        name: "any",
        prompt: "",
        expected_output: None,
        expected_return: None,
        reference: "",
    };
    assert!(grade(&any, &ran("x", "y")).is_correct());
}

#[test]
fn references_survive_the_fence() {
    for t in tasks() {
        let mut p = FixedProvider::new(t.reference, "reference");
        assert_eq!(extract_program(&p.complete("").unwrap()), t.reference.trim());
    }
}
