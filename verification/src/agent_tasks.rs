//! The authoring benchmark: a fixed suite of tasks in natural language, each with
//! a correctness oracle and a known-correct reference solution, and the grader.
//!
//! The loop of [`crate::agent`] makes a provider write a program that checks clean
//! and runs; this module asks whether that program is correct for the task. The
//! oracle is never placed in a prompt: what a program printed and returned is
//! compared with it out of band.

use vstd::prelude::*;
use vstd::string::*;

use crate::diagnostics::opt_view;
use crate::text::{fill1, fill2, fmt, str_eq};
use crate::types::{debug_str, str_debug};

verus! {

/// One authoring task.
#[derive(Debug)]
pub struct Task {
    /// The stable name, by which a task is selected.
    pub name: &'static str,
    /// The specification shown to the provider.
    pub prompt: &'static str,
    /// The exact expected output, if the task is graded on it.
    pub expected_output: Option<&'static str>,
    /// The expected rendering of `main`'s result, if the task is graded on it.
    pub expected_return: Option<&'static str>,
    /// A known-correct program, never shown to a real provider.
    pub reference: &'static str,
}

/// A task, as a model.
pub struct TaskV {
    pub name: Seq<char>,
    pub prompt: Seq<char>,
    pub expected_output: Option<Seq<char>>,
    pub expected_return: Option<Seq<char>>,
    pub reference: Seq<char>,
}

/// The contents of an optional text.
pub open spec fn opt_str(s: Option<&'static str>) -> Option<Seq<char>> {
    match s {
        Some(x) => Some(x@),
        None => None,
    }
}

impl Task {
    /// The task's model.
    pub open spec fn view(&self) -> TaskV {
        TaskV {
            name: self.name@,
            prompt: self.prompt@,
            expected_output: opt_str(self.expected_output),
            expected_return: opt_str(self.expected_return),
            reference: self.reference@,
        }
    }
}

/// The models of a list of tasks.
pub open spec fn task_views(v: Seq<Task>) -> Seq<TaskV> {
    v.map_values(|t: Task| t@)
}

// ---------------------------------------------------------------------------
// Grading
// ---------------------------------------------------------------------------

/// The grade of a produced program against a task.
#[derive(Debug, Clone, PartialEq, Eq)]
pub enum Grade {
    /// Output and result match the oracle.
    Correct,
    /// The program ran but did the wrong thing, or failed to run.
    Incorrect { why: String },
}

/// A grade, as a model: the reason, if it is incorrect.
pub enum GradeV {
    Correct,
    Incorrect(Seq<char>),
}

impl Grade {
    /// The grade's model.
    pub open spec fn view(&self) -> GradeV {
        match self {
            Grade::Correct => GradeV::Correct,
            Grade::Incorrect { why } => GradeV::Incorrect(why@),
        }
    }

    /// Whether the program is correct.
    pub fn is_correct(&self) -> (r: bool)
        ensures
            r == (self@ is Correct),
    {
        match self {
            Grade::Correct => true,
            Grade::Incorrect { why: _ } => false,
        }
    }
}

/// What a run gave, or the empty text.
pub open spec fn or_empty(s: Option<Seq<char>>) -> Seq<char> {
    match s {
        Some(x) => x,
        None => Seq::empty(),
    }
}

/// The grade of a run, which is its result, its output and its run-time error.
pub open spec fn graded(
    task: TaskV,
    ret: Option<Seq<char>>,
    out: Option<Seq<char>>,
    err: Option<Seq<char>>,
) -> GradeV {
    if err is Some {
        GradeV::Incorrect(fmt("runtime error: {}"@, seq![err->0]))
    } else if task.expected_output is Some && or_empty(out) != task.expected_output->0 {
        GradeV::Incorrect(
            fmt(
                "output mismatch: expected {}, got {}"@,
                seq![str_debug(task.expected_output->0), str_debug(or_empty(out))],
            ),
        )
    } else if task.expected_return is Some && or_empty(ret) != task.expected_return->0 {
        GradeV::Incorrect(
            fmt(
                "return mismatch: expected {}, got {}"@,
                seq![str_debug(task.expected_return->0), str_debug(or_empty(ret))],
            ),
        )
    } else {
        GradeV::Correct
    }
}

fn text_or_empty(s: &Option<String>) -> (r: String)
    ensures
        r@ == or_empty(opt_view(*s)),
{
    match s {
        Some(x) => x.clone(),
        None => {
            let r: String = String::new();
            assert(r@ =~= Seq::<char>::empty());
            r
        },
    }
}

/// Grade a program against `task` by what its run gave: the result, the output and
/// the run-time error. It is correct if every expectation of the task is met.
pub fn grade(task: &Task, run: &(Option<String>, Option<String>, Option<String>)) -> (r: Grade)
    ensures
        r@ == graded(task@, opt_view(run.0), opt_view(run.1), opt_view(run.2)),
{
    if let Some(e) = &run.2 {
        return Grade::Incorrect { why: fill1("runtime error: {}", e.as_str()) };
    }
    if let Some(expected) = task.expected_output {
        let got: String = text_or_empty(&run.1);
        if !str_eq(got.as_str(), expected) {
            let want: String = debug_str(expected);
            let have: String = debug_str(got.as_str());
            return Grade::Incorrect {
                why: fill2(
                    "output mismatch: expected {}, got {}",
                    want.as_str(),
                    have.as_str(),
                ),
            };
        }
    }
    if let Some(expected) = task.expected_return {
        let got: String = text_or_empty(&run.0);
        if !str_eq(got.as_str(), expected) {
            let want: String = debug_str(expected);
            let have: String = debug_str(got.as_str());
            return Grade::Incorrect {
                why: fill2(
                    "return mismatch: expected {}, got {}",
                    want.as_str(),
                    have.as_str(),
                ),
            };
        }
    }
    Grade::Correct
}

// ---------------------------------------------------------------------------
// The suite. Each task holds its name, its prompt, the expected output, the
// expected result and the reference solution.
// ---------------------------------------------------------------------------

/// The task `constant`.
pub const CONSTANT: [&'static str; 5] = [
    "constant",
    "Write a program whose `main` prints the integer 42 on its own line (using print_int) and returns 0.",
    "42\n",
    "0",
    "fn main() -> Int = {\n  print_int(42);\n  0\n}\n",
];

/// The task `sum_1_to_100`.
pub const SUM_1_TO_100: [&'static str; 5] = [
    "sum_1_to_100",
    "Write a program whose `main` prints the sum of the integers from 1 to 100 inclusive (using print_int) and returns 0.",
    "5050\n",
    "0",
    "fn sum_to(n: Int) -> Int =\n  if n == 0 { 0 } else { n + sum_to(n - 1) }\n\nfn main() -> Int = {\n  print_int(sum_to(100));\n  0\n}\n",
];

/// The task `factorial_10`.
pub const FACTORIAL_10: [&'static str; 5] = [
    "factorial_10",
    "Write a program whose `main` prints 10! (ten factorial = the product 1*2*...*10) using print_int, and returns 0.",
    "3628800\n",
    "0",
    "fn fact(n: Int) -> Int =\n  if n == 0 { 1 } else { n * fact(n - 1) }\n\nfn main() -> Int = {\n  print_int(fact(10));\n  0\n}\n",
];

/// The task `fib_20`.
pub const FIB_20: [&'static str; 5] = [
    "fib_20",
    "Write a program whose `main` prints the 20th Fibonacci number using print_int, and returns 0. Define Fibonacci with fib(0) = 0, fib(1) = 1, fib(n) = fib(n-1) + fib(n-2), and print fib(20).",
    "6765\n",
    "0",
    "fn fib(n: Int) -> Int =\n  if n < 2 { n } else { fib(n - 1) + fib(n - 2) }\n\nfn main() -> Int = {\n  print_int(fib(20));\n  0\n}\n",
];

/// The task `is_prime_97`.
pub const IS_PRIME_97: [&'static str; 5] = [
    "is_prime_97",
    "Write a program whose `main` prints whether 97 is a prime number, using print_bool (so it prints `true` if 97 is prime, `false` otherwise), and returns 0.",
    "true\n",
    "0",
    "fn divides(d: Int, n: Int) -> Bool = n % d == 0\nfn has_factor(n: Int, d: Int) -> Bool =\n  if d * d > n { false }\n  else { if divides(d, n) { true } else { has_factor(n, d + 1) } }\nfn is_prime(n: Int) -> Bool =\n  if n < 2 { false } else { !has_factor(n, 2) }\n\nfn main() -> Int = {\n  print_bool(is_prime(97));\n  0\n}\n",
];

/// The task `reverse_list`.
pub const REVERSE_LIST: [&'static str; 5] = [
    "reverse_list",
    "Define an algebraic list type `type List[T] = | Nil | Cons(T, List[T])`. Build the list 1, 2, 3, 4 (in that order), reverse it, and have `main` print the reversed list's elements with print_int, one per line, in the reversed order (last element first). Return 0.",
    "4\n3\n2\n1\n",
    "0",
    "type List[T] = | Nil | Cons(T, List[T])\n\nfn rev_onto(xs: List[Int], acc: List[Int]) -> List[Int] =\n  match xs {\n    Nil => acc,\n    Cons(h, t) => rev_onto(t, Cons(h, acc)),\n  }\nfn print_all(xs: List[Int]) -> Int =\n  match xs {\n    Nil => 0,\n    Cons(h, t) => { print_int(h); print_all(t) },\n  }\n\nfn main() -> Int = {\n  let xs = Cons(1, Cons(2, Cons(3, Cons(4, Nil))));\n  let r = rev_onto(xs, Nil);\n  print_all(r);\n  0\n}\n",
];

/// The task `sum_array`.
pub const SUM_ARRAY: [&'static str; 5] = [
    "sum_array",
    "Write a program that builds the array [10, 20, 30, 40] (using array_new and array_push) and has `main` print the sum of its elements with print_int, then returns 0.",
    "100\n",
    "0",
    "fn main() -> Int = {\n  let a0 = array_new();\n  let a1 = array_push(a0, 10);\n  let a2 = array_push(a1, 20);\n  let a3 = array_push(a2, 30);\n  let a4 = array_push(a3, 40);\n  print_int(array_fold(a4, 0, \\(acc: Int, x: Int) -> acc + x));\n  0\n}\n",
];

/// The task `count_evens`.
pub const COUNT_EVENS: [&'static str; 5] = [
    "count_evens",
    "Write a program that, using range(10) to get [0,1,...,9], counts how many of those numbers are even (divisible by 2) with array_filter and array_fold, and has `main` print that count with print_int, then returns 0.",
    "5\n",
    "0",
    "fn main() -> Int = {\n  let evens = array_filter(range(10), \\x -> x % 2 == 0);\n  print_int(array_fold(evens, 0, \\(acc: Int, x: Int) -> acc + 1));\n  0\n}\n",
];

/// The task `map_squares`.
pub const MAP_SQUARES: [&'static str; 5] = [
    "map_squares",
    "Write a program that maps x -> x*x over range(5) (i.e. over [0,1,2,3,4]) with array_map, sums the resulting squares with array_fold, and has `main` print that sum with print_int, then returns 0.",
    "30\n",
    "0",
    "fn main() -> Int = {\n  let sq = array_map(range(5), \\x -> x * x);\n  print_int(array_fold(sq, 0, \\(acc: Int, x: Int) -> acc + x));\n  0\n}\n",
];

/// The task `map_sum_values`.
pub const MAP_SUM_VALUES: [&'static str; 5] = [
    "map_sum_values",
    "Build a Map (with map_new and map_insert) holding the entries 1 -> 100, 2 -> 200, 3 -> 300. Have `main` print the sum of its values with print_int (using map_values and array_fold), then return 0.",
    "600\n",
    "0",
    "fn main() -> Int = {\n  let m0 = map_new();\n  let m1 = map_insert(m0, 1, 100);\n  let m2 = map_insert(m1, 2, 200);\n  let m3 = map_insert(m2, 3, 300);\n  print_int(array_fold(map_values(m3), 0, \\(acc: Int, x: Int) -> acc + x));\n  0\n}\n",
];

/// The task `max_of_list`.
pub const MAX_OF_LIST: [&'static str; 5] = [
    "max_of_list",
    "Define `type List[T] = | Nil | Cons(T, List[T])`, build the list 3, 7, 2, 9, 4, and have `main` print the maximum element with print_int using recursion and match, then return 0.",
    "9\n",
    "0",
    "type List[T] = | Nil | Cons(T, List[T])\n\nfn max2(a: Int, b: Int) -> Int = if a > b { a } else { b }\nfn max_list(xs: List[Int], best: Int) -> Int =\n  match xs {\n    Nil => best,\n    Cons(h, t) => max_list(t, max2(best, h)),\n  }\n\nfn main() -> Int = {\n  let xs = Cons(3, Cons(7, Cons(2, Cons(9, Cons(4, Nil)))));\n  print_int(max_list(xs, 0 - 1000000));\n  0\n}\n",
];

/// The task `record_field`.
pub const RECORD_FIELD: [&'static str; 5] = [
    "record_field",
    "Define a record `type Point = { x: Int, y: Int }`, construct the point with x = 3 and y = 4, and have `main` print the sum x + y with print_int via field access, then return 0.",
    "7\n",
    "0",
    "type Point = { x: Int, y: Int }\n\nfn main() -> Int = {\n  let p = Point { x: 3, y: 4 };\n  print_int(p.x + p.y);\n  0\n}\n",
];

/// The task `gcd`.
pub const GCD: [&'static str; 5] = [
    "gcd",
    "Write a program that computes the greatest common divisor (GCD) of 48 and 36 using Euclid's algorithm (recursion with the modulo operator %), and has `main` print it with print_int, then return 0.",
    "12\n",
    "0",
    "fn gcd(a: Int, b: Int) -> Int =\n  if b == 0 { a } else { gcd(b, a % b) }\n\nfn main() -> Int = {\n  print_int(gcd(48, 36));\n  0\n}\n",
];

/// The task `set_dedup_count`.
pub const SET_DEDUP_COUNT: [&'static str; 5] = [
    "set_dedup_count",
    "Build a Set (with set_new and set_add) by adding the numbers 5, 3, 5, 1, 3, 5 in that order (with duplicates). Have `main` print the number of DISTINCT elements with print_int (using set_len), then return 0.",
    "3\n",
    "0",
    "fn main() -> Int = {\n  let s0 = set_new();\n  let s1 = set_add(s0, 5);\n  let s2 = set_add(s1, 3);\n  let s3 = set_add(s2, 5);\n  let s4 = set_add(s3, 1);\n  let s5 = set_add(s4, 3);\n  let s6 = set_add(s5, 5);\n  print_int(set_len(s6));\n  0\n}\n",
];

/// The task `string_build`.
pub const STRING_BUILD: [&'static str; 5] = [
    "string_build",
    "Write a program whose `main` computes the sum 1+2+3+4+5 and uses concat and int_to_str to build a string of the form `sum = N` where N is that sum (the literal text `sum = ` followed by the number), prints it with print_str on its own line, then returns 0.",
    "sum = 15\n",
    "0",
    "fn main() -> Int = {\n  print_str(concat(\"sum = \", int_to_str(1 + 2 + 3 + 4 + 5)));\n  0\n}\n",
];

/// The task that an entry describes.
pub open spec fn task_of(e: [&'static str; 5]) -> TaskV {
    TaskV {
        name: e[0]@,
        prompt: e[1]@,
        expected_output: Some(e[2]@),
        expected_return: Some(e[3]@),
        reference: e[4]@,
    }
}

/// The suite.
pub open spec fn suite() -> Seq<TaskV> {
    seq![
        task_of(CONSTANT),
        task_of(SUM_1_TO_100),
        task_of(FACTORIAL_10),
        task_of(FIB_20),
        task_of(IS_PRIME_97),
        task_of(REVERSE_LIST),
        task_of(SUM_ARRAY),
        task_of(COUNT_EVENS),
        task_of(MAP_SQUARES),
        task_of(MAP_SUM_VALUES),
        task_of(MAX_OF_LIST),
        task_of(RECORD_FIELD),
        task_of(GCD),
        task_of(SET_DEDUP_COUNT),
        task_of(STRING_BUILD),
    ]
}

fn enter(out: &mut Vec<Task>, e: [&'static str; 5])
    ensures
        task_views(final(out)@) == task_views(old(out)@).push(task_of(e)),
{
    let ghost before = out@;
    out.push(
        Task {
            name: e[0],
            prompt: e[1],
            expected_output: Some(e[2]),
            expected_return: Some(e[3]),
            reference: e[4],
        },
    );
    assert(task_views(out@) =~= task_views(before).push(task_of(e)));
}

/// The full benchmark suite. Each prompt makes the expected output unambiguous, so
/// that grading is deterministic, without stating the expected value.
pub fn tasks() -> (r: Vec<Task>)
    ensures
        task_views(r@) == suite(),
{
    let mut out: Vec<Task> = Vec::new();
    assert(task_views(out@) =~= Seq::<TaskV>::empty());
    enter(&mut out, CONSTANT);
    enter(&mut out, SUM_1_TO_100);
    enter(&mut out, FACTORIAL_10);
    enter(&mut out, FIB_20);
    enter(&mut out, IS_PRIME_97);
    enter(&mut out, REVERSE_LIST);
    enter(&mut out, SUM_ARRAY);
    enter(&mut out, COUNT_EVENS);
    enter(&mut out, MAP_SQUARES);
    enter(&mut out, MAP_SUM_VALUES);
    enter(&mut out, MAX_OF_LIST);
    enter(&mut out, RECORD_FIELD);
    enter(&mut out, GCD);
    enter(&mut out, SET_DEDUP_COUNT);
    enter(&mut out, STRING_BUILD);
    assert(task_views(out@) =~= suite());
    out
}

/// The first task of a name.
pub open spec fn find_task(ts: Seq<TaskV>, name: Seq<char>) -> Option<TaskV>
    decreases ts.len(),
{
    if ts.len() == 0 {
        None
    } else if ts[0].name == name {
        Some(ts[0])
    } else {
        find_task(ts.drop_first(), name)
    }
}

/// Look up a task by exact name.
pub fn task_by_name(name: &str) -> (r: Option<Task>)
    ensures
        match r {
            Some(t) => find_task(suite(), name@) == Some(t@),
            None => find_task(suite(), name@) is None,
        },
{
    let mut rest: Vec<Task> = tasks();
    let ghost mut k: int = 0;
    assert(suite().skip(0) =~= suite());
    while rest.len() > 0
        invariant
            0 <= k <= suite().len(),
            rest@.len() == suite().len() - k,
            task_views(rest@) == suite().skip(k),
            find_task(suite(), name@) == find_task(suite().skip(k), name@),
        decreases rest@.len(),
    {
        let ghost rest0 = rest@;
        let t: Task = rest.remove(0);
        proof {
            assert(task_views(rest0)[0] == t@);
            assert(suite().skip(k).drop_first() =~= suite().skip(k + 1));
            assert forall|j: int| 0 <= j < rest@.len() implies task_views(rest@)[j]
                == suite().skip(k + 1)[j] by {
                assert(task_views(rest0)[j + 1] == suite().skip(k)[j + 1]);
            }
            assert(task_views(rest@) =~= suite().skip(k + 1));
        }
        if str_eq(t.name, name) {
            return Some(t);
        }
        proof {
            k = k + 1;
        }
    }
    None
}

// ---------------------------------------------------------------------------
// Laws
// ---------------------------------------------------------------------------

/// A program is correct exactly when it ran and did what the task expects.
pub proof fn correct_iff_expected(
    task: TaskV,
    ret: Option<Seq<char>>,
    out: Option<Seq<char>>,
    err: Option<Seq<char>>,
)
    ensures
        graded(task, ret, out, err) is Correct <==> err is None && (task.expected_output is Some
            ==> or_empty(out) == task.expected_output->0) && (task.expected_return is Some
            ==> or_empty(ret) == task.expected_return->0),
{
}

/// What tells the names of the suite apart.
spec fn mark(name: Seq<char>) -> (nat, char, char) {
    (name.len(), name[0], name[2])
}

/// No two tasks share a name, so every task can be selected.
pub proof fn names_are_unique(i: int, j: int)
    requires
        0 <= i < j < suite().len(),
    ensures
        suite()[i].name != suite()[j].name,
{
    reveal_strlit("constant");
    reveal_strlit("sum_1_to_100");
    reveal_strlit("factorial_10");
    reveal_strlit("fib_20");
    reveal_strlit("is_prime_97");
    reveal_strlit("reverse_list");
    reveal_strlit("sum_array");
    reveal_strlit("count_evens");
    reveal_strlit("map_squares");
    reveal_strlit("map_sum_values");
    reveal_strlit("max_of_list");
    reveal_strlit("record_field");
    reveal_strlit("gcd");
    reveal_strlit("set_dedup_count");
    reveal_strlit("string_build");
    let s = suite();
    assert(mark(s[0].name) == (8nat, 'c', 'n'));
    assert(mark(s[1].name) == (12nat, 's', 'm'));
    assert(mark(s[2].name) == (12nat, 'f', 'c'));
    assert(mark(s[3].name) == (6nat, 'f', 'b'));
    assert(mark(s[4].name) == (11nat, 'i', '_'));
    assert(mark(s[5].name) == (12nat, 'r', 'v'));
    assert(mark(s[6].name) == (9nat, 's', 'm'));
    assert(mark(s[7].name) == (11nat, 'c', 'u'));
    assert(mark(s[8].name) == (11nat, 'm', 'p'));
    assert(mark(s[9].name) == (14nat, 'm', 'p'));
    assert(mark(s[10].name) == (11nat, 'm', 'x'));
    assert(mark(s[11].name) == (12nat, 'r', 'c'));
    assert(mark(s[12].name) == (3nat, 'g', 'd'));
    assert(mark(s[13].name) == (15nat, 's', 't'));
    assert(mark(s[14].name) == (12nat, 's', 'r'));
}

proof fn lemma_found(ts: Seq<TaskV>, i: int)
    requires
        0 <= i < ts.len(),
        forall|j: int| 0 <= j < i ==> (#[trigger] ts[j]).name != ts[i].name,
    ensures
        find_task(ts, ts[i].name) == Some(ts[i]),
    decreases i,
{
    if i > 0 {
        let rest = ts.drop_first();
        assert forall|j: int| 0 <= j < i - 1 implies (#[trigger] rest[j]).name != rest[i - 1].name by {
            assert(rest[j] == ts[j + 1]);
        }
        lemma_found(rest, i - 1);
        assert(ts[0].name != ts[i].name);
    }
}

/// The suite has at least a dozen tasks, and looking up the name of any of them
/// gives that task.
pub proof fn every_task_is_found()
    ensures
        suite().len() >= 12,
        forall|i: int|
            0 <= i < suite().len() ==> find_task(suite(), (#[trigger] suite()[i]).name) == Some(
                suite()[i],
            ),
{
    assert forall|i: int| 0 <= i < suite().len() implies find_task(
        suite(),
        (#[trigger] suite()[i]).name,
    ) == Some(suite()[i]) by {
        assert forall|j: int| 0 <= j < i implies (#[trigger] suite()[j]).name != suite()[i].name by {
            names_are_unique(j, i);
        }
        lemma_found(suite(), i);
    }
}

} // verus!
