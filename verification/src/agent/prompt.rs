//! The prompts that the authoring loop sends.

use vstd::prelude::*;
use vstd::string::*;

use crate::agent::extract::{trim, trimmed};
use crate::diagnostics::{array_to_json, diag_json, diags_json, json_array, DiagV, Diagnostic};
use crate::text::{fill2, fmt, views};

verus! {

/// The primer's text.
pub const PRIMER: &'static str = "\
You are writing a program in Aria, a small, pure, statically-typed functional language.

CORE RULES
- Comments start with `--`.
- EVERYTHING IS AN EXPRESSION: `if`/`else`, `match`, and blocks all yield values.
- NO mutation, NO loops, NO statements: use RECURSION and expressions instead.
- A block is `{ e1; e2; ...; last }` and evaluates to its LAST expression.
- Functions: `fn name(p: T, q: U) -> R = <expr>`. Generics: `fn id[T](x: T) -> T = x`.
- `pure fn` may be declared; ordinary `fn` may call the `print_*` builtins.
- Bindings: `let x = <expr>; <rest>` (no reassignment).
- Conditionals: `if cond { a } else { b }` (both branches required, same type).
- Lambdas: `\\x -> body` (one param) or `\\(x: T, y: U) -> body` (annotated).

TYPES & DATA
- Primitives: `Int`, `Float`, `Bool`, `String`, `Unit`.
- Algebraic data types (uppercase names):
    `type Color = | Red | Green | Blue`
    `type Shape = | Circle(Float) | Rect(Float, Float)`
    `type List[T] = | Nil | Cons(T, List[T])`   -- generic, `[T]` type params
- Records:  `type Point = { x: Int, y: Int }`  built as `Point { x: 1, y: 2 }`,
  accessed as `p.x`.
- `match` MUST be EXHAUSTIVE (cover every constructor or use `_`):
    `match s { Circle(r) => 3.14 * r * r, Rect(w, h) => w * h }`
- Data-model builtins: Array, Map, Set, Vector, Tensor, e.g.
    `array_new()`, `array_push(xs, x)`, `array_get(xs, i)`, `array_len(xs)`,
    `map_new()`, `map_insert(m, k, v)`, `set_new()`, `vec_new(...)`, tensors.

PRELUDE HIGHER-ORDER FUNCTIONS (use these instead of loops)
- `range(n) -> Array[Int]`                      -- [0, 1, ..., n-1]
- `array_map(xs, \\x -> ...) -> Array[B]`
- `array_filter(xs, \\x -> <Bool>) -> Array[A]`
- `array_fold(xs, init, \\(acc, x) -> ...) -> B`   -- note: pass a NAMED fn for
  multi-param folds if a bare lambda will not infer; e.g. `fn add(a:Int,b:Int)->Int=a+b`.

OUTPUT BUILTINS
- `print_int(n)`, `print_float(x)`, `print_str(s)`, `print_bool(b)` print a line.
- `int_to_str(n) -> String`, `concat(a, b) -> String` for building strings.

PROGRAM SHAPE
- The entry point is `fn main() -> Int` (or `-> Float`/`-> String`). It takes NO
  parameters. Its return value is the program's result. Use `print_*` for output
  and end `main` with a final expression of the declared return type.
";

/// The language primer that starts every prompt.
pub open spec fn primer_text() -> Seq<char> {
    PRIMER@
}

/// The tight, accurate Aria primer fed to the model.
pub fn primer() -> (r: &'static str)
    ensures
        r@ == primer_text(),
{
    PRIMER
}

/// The text with the first `n` messages appended, each on a line of its own.
pub open spec fn with_messages(out: Seq<char>, ms: Seq<Seq<char>>, n: nat) -> Seq<char>
    decreases n,
{
    if n == 0 || n > ms.len() {
        out
    } else {
        with_messages(out, ms, (n - 1) as nat) + ms[n - 1] + "\n"@
    }
}

/// The prompt for a task, after the messages of earlier attempts.
pub open spec fn prompt_text(task: Seq<char>, ms: Seq<Seq<char>>) -> Seq<char> {
    let asked = primer_text() + "\nTASK\n"@ + trimmed(task) + "\n"@;
    let told = if ms.len() > 0 {
        with_messages(asked + "\nPRIOR ATTEMPTS & COMPILER FEEDBACK\n"@, ms, ms.len())
    } else {
        asked
    };
    told
        + "\nReturn ONLY a complete Aria program (no markdown, no prose, no explanation).\n"@
}

/// Assemble the full prompt: the primer, the task, the running feedback from
/// earlier attempts, and a strict instruction to emit only a complete program.
pub fn build_prompt(task: &str, transcript: &[String]) -> (r: String)
    ensures
        r@ == prompt_text(task@, views(transcript@)),
{
    let mut s: String = primer().to_owned();
    let task: String = trim(task);
    s.append("\nTASK\n");
    s.append(task.as_str());
    s.append("\n");
    if transcript.len() > 0 {
        s.append("\nPRIOR ATTEMPTS & COMPILER FEEDBACK\n");
        let ghost start = s@;
        let mut i: usize = 0;
        while i < transcript.len()
            invariant
                i <= transcript@.len(),
                s@ == with_messages(start, views(transcript@), i as nat),
            decreases transcript@.len() - i,
        {
            s.append(transcript[i].as_str());
            s.append("\n");
            i = i + 1;
        }
    }
    s.append(
        "\nReturn ONLY a complete Aria program (no markdown, no prose, no explanation).\n",
    );
    s
}

/// The feedback on a program that failed to check.
pub open spec fn feedback_text(program: Seq<char>, ds: Seq<DiagV>) -> Seq<char> {
    fmt(
        "Your program had these errors: {}\nHere is the program you wrote:\n{}\nReturn the corrected full Aria program (only the program)."@,
        seq![json_array(ds.map_values(|d: DiagV| diag_json(d))), program],
    )
}

/// Build the feedback appended to the transcript when a candidate fails to check:
/// the diagnostics as JSON and the program that the model produced.
pub fn build_feedback(program: &str, diags: &[Diagnostic]) -> (r: String)
    ensures
        r@ == feedback_text(program@, diags@.map_values(|d: Diagnostic| d@)),
{
    let list: String = array_to_json(diags);
    proof {
        let ds = diags@.map_values(|d: Diagnostic| d@);
        assert(diags_json(diags@) =~= ds.map_values(|d: DiagV| diag_json(d)));
    }
    fill2(
        "Your program had these errors: {}\nHere is the program you wrote:\n{}\nReturn the corrected full Aria program (only the program).",
        list.as_str(),
        program,
    )
}

} // verus!
