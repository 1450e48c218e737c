# Aria, the verified core

Aria is a small, pure, statically typed functional language made for programs that
language models write. This crate is its core as a Verus library: every function in
`src/` has a contract, and Verus proves it.

| module | what it does |
|---|---|
| `arith` | adaptive binary range coder, with the proof that it is lossless |
| `ast`, `types`, `ir` | syntax trees, types and the lowered form, as data and as models |
| `builtins` | the signatures of the built-in functions |
| `diagnostics` | structured compiler diagnostics and their JSON |
| `analyze` | the call graph: callers, dead code, recursion, cycles, typed edges |
| `dataflow` | def-use chains, dead bindings, shadowing, lint warnings |
| `c_backend` | the native backend: lowered functions to C |
| `grad_native` | reverse-mode gradients as traced C helpers |
| `gbnf` | the grammar for constrained decoding |
| `agent`, `agent_tasks`, `agent_bench` | the authoring loop, its tasks and its benchmark |
| `embed` | the counting half of a word-embedding model |
| `text`, `names` | texts and tables of names |

What holds beyond single functions is stated as public proof functions: that the coder
is lossless, that generated C names are distinct, that a report's lists agree, that a
condition inside a traced function records nothing, that escaped text reads back, and
more. They stand beside the functions they speak of, the longer ones in modules of
their own (`analyze::laws`, `builtins::laws`, `dataflow::metadata`, `gbnf::laws`,
`grad_native::conditions`, `grad_native::laws`).

Two facts about the standard library are taken on trust: what `String::push` does
(`text`), and that the quoted form of a text depends on the text alone (`types`).

`app/` holds what cannot be verified: files, processes and floating point. `tests/`
runs the library.

The lexer, the parser, the type checker and the interpreter are not part of this
crate. Functions that need their answers take them as arguments: a parsed program,
a table of types by span, the messages of a check, the output of a run.
