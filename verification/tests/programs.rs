//! The call graph, the data-flow and the gradients of programs written as text.

use aria::analyze::{analyze, analyze_typed, prelude_fn_names, CallGraph, FnInfo};
use aria::ast::{
    Arm, BinOp, BinderSpans, Expr, ExprKind, FloatLit, FnDecl, Item, Param, Pattern, PatternKind,
    Program, Span, Stmt, StmtKind, Ty, TypeDecl, UnOp, Variant,
};
use aria::dataflow::{
    to_json, unused_let_warnings, warnings_for_source, BindKind, Binding, CheckedSource,
    FnDataFlow, W_UNUSED_PARAMETER, W_UNUSED_VARIABLE,
};
use aria::grad_native::{rewrite_grad, GradSite};

// ---------------------------------------------------------------------------
// A small reader of Aria source, for writing programs as text.
// ---------------------------------------------------------------------------

#[derive(Clone, Debug, PartialEq)]
enum Tok {
    Word(String),
    Num(String),
    Text(String),
    Sign(String),
    End,
}

struct Reader {
    toks: Vec<(Tok, Span)>,
    at: usize,
    binders: BinderSpans,
}

fn lex(src: &str, first_line: u32) -> Vec<(Tok, Span)> {
    let cs: Vec<char> = src.chars().collect();
    let (mut i, mut line, mut col) = (0usize, first_line, 1u32);
    let mut out = Vec::new();
    while i < cs.len() {
        let c = cs[i];
        if c == '\n' {
            i += 1;
            line += 1;
            col = 1;
            continue;
        }
        if c.is_whitespace() {
            i += 1;
            col += 1;
            continue;
        }
        let from = i;
        let tok = if c.is_ascii_alphabetic() || c == '_' {
            while i < cs.len() && (cs[i].is_ascii_alphanumeric() || cs[i] == '_') {
                i += 1;
            }
            Tok::Word(cs[from..i].iter().collect())
        } else if c.is_ascii_digit() {
            while i < cs.len()
                && (cs[i].is_ascii_digit()
                    || cs[i] == '.' && i + 1 < cs.len() && cs[i + 1].is_ascii_digit())
            {
                i += 1;
            }
            Tok::Num(cs[from..i].iter().collect())
        } else if c == '"' {
            i += 1;
            while cs[i] != '"' {
                i += 1;
            }
            i += 1;
            Tok::Text(cs[from + 1..i - 1].iter().collect())
        } else {
            let two: String = cs[i..(i + 2).min(cs.len())].iter().collect();
            let n = if ["->", "=>", "==", "!=", "<=", ">=", "&&", "||"].contains(&two.as_str()) {
                2
            } else {
                1
            };
            i += n;
            Tok::Sign(cs[from..i].iter().collect())
        };
        let width = (i - from) as u32;
        out.push((
            tok,
            Span { start_line: line, start_col: col, end_line: line, end_col: col + width },
        ));
        col += width;
    }
    out.push((
        Tok::End,
        Span { start_line: line, start_col: col, end_line: line, end_col: col },
    ));
    out
}

fn joined(a: Span, b: Span) -> Span {
    Span {
        start_line: a.start_line,
        start_col: a.start_col,
        end_line: b.end_line,
        end_col: b.end_col,
    }
}

fn upper(s: &str) -> bool {
    s.chars().next().map_or(false, |c| c.is_ascii_uppercase())
}

impl Reader {
    fn peek(&self) -> &Tok {
        &self.toks[self.at].0
    }

    fn span(&self) -> Span {
        self.toks[self.at].1
    }

    fn before(&self) -> Span {
        self.toks[self.at - 1].1
    }

    fn next(&mut self) -> (Tok, Span) {
        let t = self.toks[self.at].clone();
        self.at += 1;
        t
    }

    fn is(&self, s: &str) -> bool {
        match self.peek() {
            Tok::Sign(x) | Tok::Word(x) => x == s,
            _ => false,
        }
    }

    fn eat(&mut self, s: &str) -> bool {
        if self.is(s) {
            self.at += 1;
            true
        } else {
            false
        }
    }

    fn want(&mut self, s: &str) {
        assert!(self.eat(s), "expected `{}` at {:?}, found {:?}", s, self.span(), self.peek());
    }

    fn word(&mut self) -> (String, Span) {
        match self.next() {
            (Tok::Word(w), s) => (w, s),
            t => panic!("expected a name, found {:?}", t),
        }
    }

    fn items(&mut self) -> Vec<Item> {
        let mut out = Vec::new();
        while *self.peek() != Tok::End {
            if self.eat("type") {
                out.push(Item::Type(self.type_decl()));
            } else if self.eat("interface") {
                self.skip_braces();
            } else if self.eat("impl") {
                while !self.is("{") {
                    self.at += 1;
                }
                self.want("{");
                while !self.eat("}") {
                    let mut f = self.fn_decl();
                    f.name = format!("{}$impl", f.name);
                    out.push(Item::Fn(f));
                    self.eat(",");
                }
            } else {
                out.push(Item::Fn(self.fn_decl()));
            }
        }
        out
    }

    fn skip_braces(&mut self) {
        while !self.is("{") {
            self.at += 1;
        }
        while !self.eat("}") {
            self.at += 1;
        }
    }

    fn type_decl(&mut self) -> TypeDecl {
        let name = self.word().0;
        let mut params = Vec::new();
        if self.eat("[") {
            while !self.eat("]") {
                params.push(self.word().0);
                self.eat(",");
            }
        }
        self.want("=");
        let mut variants = Vec::new();
        if self.eat("{") {
            let (mut fields, mut names) = (Vec::new(), Vec::new());
            while !self.eat("}") {
                names.push(self.word().0);
                self.want(":");
                fields.push(self.ty());
                self.eat(",");
            }
            variants.push(Variant { name: name.clone(), fields, field_names: Some(names) });
        } else {
            while self.eat("|") {
                let v = self.word().0;
                let mut fields = Vec::new();
                if self.eat("(") {
                    while !self.eat(")") {
                        fields.push(self.ty());
                        self.eat(",");
                    }
                }
                variants.push(Variant { name: v, fields, field_names: None });
            }
        }
        TypeDecl { name, params, variants }
    }

    fn ty(&mut self) -> Ty {
        if self.eat("(") {
            let mut ps = Vec::new();
            while !self.eat(")") {
                ps.push(self.ty());
                self.eat(",");
            }
            self.want("->");
            return Ty::Fn(ps, Box::new(self.ty()));
        }
        let name = self.word().0;
        let mut args = Vec::new();
        if self.eat("[") {
            while !self.eat("]") {
                args.push(self.ty());
                self.eat(",");
            }
        }
        match name.as_str() {
            "Int" => Ty::Int,
            "Float" => Ty::Float,
            "Bool" => Ty::Bool,
            "String" => Ty::Str,
            "Unit" => Ty::Unit,
            _ if name.len() == 1 => Ty::Var(name),
            _ => Ty::Named(name, args),
        }
    }

    fn fn_decl(&mut self) -> FnDecl {
        let pure = self.eat("pure");
        let line = self.span().start_line as usize;
        self.want("fn");
        let name = self.word().0;
        let (mut type_params, mut bounds) = (Vec::new(), Vec::new());
        if self.eat("[") {
            while !self.eat("]") {
                let t = self.word().0;
                if self.eat(":") {
                    bounds.push((t.clone(), self.word().0));
                }
                type_params.push(t);
                self.eat(",");
            }
        }
        self.want("(");
        let mut params = Vec::new();
        while !self.eat(")") {
            let (name, span) = self.word();
            self.want(":");
            let ty = self.ty();
            params.push(Param { name, ty, span });
            self.eat(",");
        }
        self.want("->");
        let ret = self.ty();
        self.want("=");
        let body = self.expr();
        FnDecl { name, line, pure, type_params, bounds, params, ret, body }
    }

    fn expr(&mut self) -> Expr {
        self.binary(0)
    }

    fn binary(&mut self, level: usize) -> Expr {
        let levels: [&[(&str, BinOp)]; 5] = [
            &[("||", BinOp::Or)],
            &[("&&", BinOp::And)],
            &[
                ("==", BinOp::Eq),
                ("!=", BinOp::Ne),
                ("<=", BinOp::Le),
                (">=", BinOp::Ge),
                ("<", BinOp::Lt),
                (">", BinOp::Gt),
            ],
            &[("+", BinOp::Add), ("-", BinOp::Sub)],
            &[("*", BinOp::Mul), ("/", BinOp::Div), ("%", BinOp::Mod)],
        ];
        if level == levels.len() {
            return self.unary();
        }
        let mut l = self.binary(level + 1);
        'more: loop {
            for (s, op) in levels[level] {
                if self.eat(s) {
                    let r = self.binary(level + 1);
                    let span = joined(l.span, r.span);
                    l = Expr::new(ExprKind::Binary(*op, Box::new(l), Box::new(r)), span);
                    continue 'more;
                }
            }
            return l;
        }
    }

    fn unary(&mut self) -> Expr {
        let start = self.span();
        if self.eat("-") {
            let x = self.unary();
            let span = joined(start, x.span);
            return Expr::new(ExprKind::Unary(UnOp::Neg, Box::new(x)), span);
        }
        if self.eat("!") {
            let x = self.unary();
            let span = joined(start, x.span);
            return Expr::new(ExprKind::Unary(UnOp::Not, Box::new(x)), span);
        }
        if self.eat("\\") {
            let mut params = Vec::new();
            let mut spans = Vec::new();
            if self.eat("(") {
                while !self.eat(")") {
                    let (n, s) = self.word();
                    self.want(":");
                    params.push((n, self.ty()));
                    spans.push(s);
                    self.eat(",");
                }
            } else {
                let (n, s) = self.word();
                params.push((n, Ty::Var("_".to_string())));
                spans.push(s);
            }
            self.want("->");
            let body = self.expr();
            for (i, s) in spans.into_iter().enumerate() {
                self.binders.lambda_params.push((body.span, i, s));
            }
            let span = joined(start, body.span);
            return Expr::new(ExprKind::Lambda(params, Box::new(body), None), span);
        }
        self.applied()
    }

    fn args(&mut self) -> Vec<Expr> {
        let mut out = Vec::new();
        while !self.eat(")") {
            out.push(self.expr());
            self.eat(",");
        }
        out
    }

    fn applied(&mut self) -> Expr {
        let mut e = self.atom();
        loop {
            let start = e.span;
            if self.eat("(") {
                let args = self.args();
                let span = joined(start, self.before());
                e = match e.kind {
                    ExprKind::Var(n) => Expr::new(ExprKind::Call(n, args), span),
                    kind => Expr::new(
                        ExprKind::Apply(Box::new(Expr::new(kind, start)), args, None),
                        span,
                    ),
                };
            } else if self.eat(".") {
                let field = self.word().0;
                let span = joined(start, self.before());
                e = Expr::new(ExprKind::Field(Box::new(e), field), span);
            } else {
                return e;
            }
        }
    }

    fn atom(&mut self) -> Expr {
        let (tok, start) = self.next();
        let kind = match tok {
            Tok::Num(n) if n.contains('.') => ExprKind::Float(FloatLit {
                bits: n.parse::<f64>().unwrap().to_bits(),
                shortest: format!("{:?}", n.parse::<f64>().unwrap()),
                scientific: format!("{:.17e}", n.parse::<f64>().unwrap()),
            }),
            Tok::Num(n) => ExprKind::Int(n.parse().unwrap()),
            Tok::Text(s) => ExprKind::Str(s),
            Tok::Sign(s) if s == "(" => {
                if self.eat(")") {
                    ExprKind::Unit
                } else {
                    let inner = self.expr();
                    self.want(")");
                    return Expr::new(inner.kind, joined(start, self.before()));
                }
            }
            Tok::Sign(s) if s == "[" => {
                let mut xs = Vec::new();
                while !self.eat("]") {
                    xs.push(self.expr());
                    self.eat(",");
                }
                ExprKind::Call("array_lit".to_string(), xs)
            }
            Tok::Sign(s) if s == "{" => {
                let (stmts, last) = self.block();
                ExprKind::Block(stmts, Box::new(last))
            }
            Tok::Word(w) if w == "true" || w == "false" => ExprKind::Bool(w == "true"),
            Tok::Word(w) if w == "if" => {
                let c = self.expr();
                let t = self.braced();
                self.want("else");
                let f = self.braced();
                ExprKind::If(Box::new(c), Box::new(t), Box::new(f))
            }
            Tok::Word(w) if w == "match" => {
                let x = self.expr();
                self.want("{");
                let mut arms = Vec::new();
                while !self.eat("}") {
                    let pat = self.pattern();
                    self.want("=>");
                    let body = self.expr();
                    arms.push(Arm { pat, body });
                    self.eat(",");
                }
                ExprKind::Match(Box::new(x), arms)
            }
            Tok::Word(w) if upper(&w) => {
                let record = self.is("{") && matches!(self.toks[self.at + 2].0, Tok::Sign(ref s) if s == ":");
                if record {
                    self.want("{");
                    let mut fs = Vec::new();
                    while !self.eat("}") {
                        let n = self.word().0;
                        self.want(":");
                        fs.push((n, self.expr()));
                        self.eat(",");
                    }
                    ExprKind::Record(w, fs)
                } else {
                    let args = if self.eat("(") { self.args() } else { Vec::new() };
                    ExprKind::Ctor(w, args)
                }
            }
            Tok::Word(w) => ExprKind::Var(w),
            t => panic!("unexpected {:?} at {:?}", t, start),
        };
        Expr::new(kind, joined(start, self.before()))
    }

    fn braced(&mut self) -> Expr {
        let start = self.span();
        self.want("{");
        let (stmts, last) = self.block();
        Expr::new(ExprKind::Block(stmts, Box::new(last)), joined(start, self.before()))
    }

    fn block(&mut self) -> (Vec<Stmt>, Expr) {
        let mut stmts = Vec::new();
        loop {
            let start = self.span();
            if self.eat("}") {
                return (stmts, Expr::synth(ExprKind::Unit));
            }
            if self.eat("let") {
                let (name, name_span) = self.word();
                let ann = if self.eat(":") { Some(self.ty()) } else { None };
                self.want("=");
                let value = self.expr();
                self.want(";");
                let span = joined(start, self.before());
                stmts.push(Stmt::new(StmtKind::Let { name, name_span, ann, value }, span));
                continue;
            }
            let e = self.expr();
            if self.eat(";") {
                let span = joined(start, self.before());
                stmts.push(Stmt::new(StmtKind::Expr(e), span));
            } else {
                self.want("}");
                return (stmts, e);
            }
        }
    }

    fn pattern(&mut self) -> Pattern {
        let (tok, start) = self.next();
        let kind = match tok {
            Tok::Num(n) => PatternKind::Int(n.parse().unwrap()),
            Tok::Word(w) if w == "_" => PatternKind::Wild,
            Tok::Word(w) if w == "true" || w == "false" => PatternKind::Bool(w == "true"),
            Tok::Word(w) if upper(&w) => {
                if self.eat("{") {
                    let mut fs = Vec::new();
                    while !self.eat("}") {
                        let (n, s) = self.word();
                        let sub = if self.eat(":") {
                            self.pattern()
                        } else {
                            Pattern::new(PatternKind::Var(n.clone()), s)
                        };
                        fs.push((n, sub));
                        self.eat(",");
                    }
                    PatternKind::Record(w, fs)
                } else {
                    let mut subs = Vec::new();
                    if self.eat("(") {
                        while !self.eat(")") {
                            subs.push(self.pattern());
                            self.eat(",");
                        }
                    }
                    PatternKind::Ctor(w, subs)
                }
            }
            Tok::Word(w) => PatternKind::Var(w),
            t => panic!("unexpected {:?} in a pattern", t),
        };
        Pattern::new(kind, joined(start, self.before()))
    }
}

const PRELUDE: &str = "\
fn range_from(i: Int, n: Int, acc: Array[Int]) -> Array[Int] =
  if i == n { acc } else { range_from(i + 1, n, array_push(acc, i)) }
fn range(n: Int) -> Array[Int] = range_from(0, n, array_new())
fn fold_from[A, B](xs: Array[A], i: Int, acc: B, f: (B, A) -> B) -> B =
  if i == array_len(xs) { acc } else { fold_from(xs, i + 1, f(acc, array_get(xs, i)), f) }
fn array_map[A, B](xs: Array[A], f: (A) -> B) -> Array[B] =
  fold_from(xs, 0, array_new(), \\(acc: Array[B], x: A) -> array_push(acc, f(x)))
";

fn read(src: &str) -> (Program, BinderSpans) {
    let mut r = Reader {
        toks: lex(src, 1),
        at: 0,
        binders: BinderSpans { lambda_params: Vec::new() },
    };
    let mut items = r.items();
    let lines = src.lines().count() as u32;
    let mut p = Reader { toks: lex(PRELUDE, lines + 2), at: 0, binders: r.binders };
    items.extend(p.items());
    (Program { items }, p.binders)
}

fn prelude_names() -> Vec<String> {
    let mut r = Reader {
        toks: lex(PRELUDE, 1),
        at: 0,
        binders: BinderSpans { lambda_params: Vec::new() },
    };
    let prelude = Program { items: r.items() };
    prelude_fn_names(Some(&prelude))
}

/// The span of an occurrence of a piece of one line.
fn span_of(src: &str, piece: &str, nth: usize) -> Span {
    let at = src.match_indices(piece).nth(nth).expect("piece occurs").0;
    let line = src[..at].matches('\n').count() as u32 + 1;
    let col = (at - src[..at].rfind('\n').map_or(0, |i| i + 1)) as u32 + 1;
    let width = piece.chars().count() as u32;
    Span { start_line: line, start_col: col, end_line: line, end_col: col + width }
}

/// A type table from pieces of the source.
fn typed(src: &str, rows: &[(&str, usize, &str)]) -> Vec<(Span, String)> {
    rows.iter().map(|(p, n, t)| (span_of(src, p, *n), t.to_string())).collect()
}

fn graph_of(src: &str) -> CallGraph {
    let (prog, _) = read(src);
    analyze(&prog, &prelude_names())
}

fn info<'a>(g: &'a CallGraph, name: &str) -> &'a FnInfo {
    g.functions.iter().find(|f| f.name == name).unwrap_or_else(|| panic!("no fn {}", name))
}

fn typed_graph_of(src: &str, rows: &[(&str, usize, &str)]) -> CallGraph {
    let (prog, _) = read(src);
    analyze_typed(&prog, &prelude_names(), Some(&typed(src, rows)))
}

fn typed_sites_to(g: &CallGraph, name: &str, callee: &str) -> Vec<(Vec<String>, String)> {
    info(g, name)
        .typed_sites
        .iter()
        .filter(|s| s.callee == callee)
        .map(|s| {
            let args = s
                .arg_types
                .iter()
                .map(|a| a.clone().unwrap_or_else(|| "?".to_string()))
                .collect();
            (args, s.result_type.clone().unwrap_or_else(|| "?".to_string()))
        })
        .collect()
}

#[test]
fn chain_callees_and_callers() {
    let src = "\
fn c() -> Int = 3
fn b() -> Int = c()
fn a() -> Int = b()
fn main() -> Int = a()
";
    let g = graph_of(src);
    assert_eq!(g.entry.as_deref(), Some("main"));
    assert_eq!(info(&g, "a").callees, vec!["b".to_string()]);
    assert_eq!(info(&g, "b").callees, vec!["c".to_string()]);
    assert_eq!(info(&g, "main").callees, vec!["a".to_string()]);
    // callers are the inverse.
    assert_eq!(info(&g, "b").callers, vec!["a".to_string()]);
    assert_eq!(info(&g, "a").callers, vec!["main".to_string()]);
    // fan_in / fan_out.
    assert_eq!(info(&g, "b").fan_in, 1);
    assert_eq!(info(&g, "a").fan_out, 1);
    // No unused, no cycles.
    assert!(g.unused.is_empty(), "unused: {:?}", g.unused);
    assert!(g.cycles.is_empty(), "cycles: {:?}", g.cycles);
}

#[test]
fn unused_and_unreachable_dead_code() {
    let src = "\
fn used() -> Int = 1
fn unused() -> Int = 2
fn main() -> Int = used()
";
    let g = graph_of(src);
    assert_eq!(g.unused, vec!["unused".to_string()]);
    assert_eq!(g.unreachable, vec!["unused".to_string()]);
    assert!(info(&g, "used").callers.contains(&"main".to_string()));
}

#[test]
fn self_recursion_flagged() {
    let src = "\
fn fact(n: Int) -> Int = if n == 0 { 1 } else { n * fact(n - 1) }
fn main() -> Int = fact(5)
";
    let g = graph_of(src);
    assert!(info(&g, "fact").recursive, "fact should be recursive");
    assert!(info(&g, "fact").callees.contains(&"fact".to_string()));
    assert_eq!(g.cycles, vec![vec!["fact".to_string()]]);
}

#[test]
fn mutual_recursion_is_a_cycle() {
    let src = "\
fn even(n: Int) -> Bool = if n == 0 { true } else { odd(n - 1) }
fn odd(n: Int) -> Bool = if n == 0 { false } else { even(n - 1) }
fn main() -> Int = if even(10) { 1 } else { 0 }
";
    let g = graph_of(src);
    // even <-> odd form one SCC of size 2.
    assert_eq!(g.cycles, vec![vec!["even".to_string(), "odd".to_string()]]);
    // Neither is "directly" recursive (no self-edge).
    assert!(!info(&g, "even").recursive);
    assert!(!info(&g, "odd").recursive);
    assert!(info(&g, "even").callees.contains(&"odd".to_string()));
    assert!(info(&g, "odd").callees.contains(&"even".to_string()));
}

#[test]
fn builtins_are_lib_callees_not_user_edges() {
    let src = "\
fn main() -> Int = { print_int(7); 7 }
";
    let g = graph_of(src);
    let m = info(&g, "main");
    assert!(m.callees.is_empty(), "no user callees: {:?}", m.callees);
    assert!(m.lib_callees.contains(&"print_int".to_string()));
}

#[test]
fn prelude_call_is_lib_not_user() {
    let src = "\
fn main() -> Int = array_len(range(3))
";
    let g = graph_of(src);
    let m = info(&g, "main");
    // `range` is a prelude function -> a lib callee, not a user callee.
    assert!(m.callees.is_empty(), "user callees should be empty: {:?}", m.callees);
    assert!(m.lib_callees.contains(&"range".to_string()));
    // `range` itself is present but flagged non-user, so it's never "unused".
    assert!(!g.unused.contains(&"range".to_string()));
}

#[test]
fn function_passed_by_name_is_a_callee() {
    let src = "\
fn dbl(x: Int) -> Int = x * 2
fn main() -> Int = { let ys = array_map(range(3), dbl); array_len(ys) }
";
    let g = graph_of(src);
    // `dbl` is referenced by NAME as a value -> recorded as a user callee, so
    // it is NOT dead code.
    assert!(info(&g, "main").callees.contains(&"dbl".to_string()));
    assert!(!g.unused.contains(&"dbl".to_string()), "dbl is used as a value");
}

#[test]
fn json_is_well_formed_and_stable() {
    let src = "\
fn helper() -> Int = 1
fn unused() -> Int = 9
fn main() -> Int = helper()
";
    let g = graph_of(src);
    let json = g.to_json();
    // Spot-check structure and content.
    assert!(json.starts_with('{') && json.ends_with('}'));
    assert!(json.contains("\"entry\":\"main\""));
    assert!(json.contains("\"unused\":[\"unused\"]"));
    assert!(json.contains("\"name\":\"helper\""));
    // Each function carries a `call_sites` object; `main` calls `helper` at a
    // precise `[line, col]` (line 3). The empty-call function reports `{}`.
    assert!(json.contains("\"call_sites\":"));
    assert!(json.contains("\"call_sites\":{\"helper\":[[3,"), "got {}", json);
    // Roundtrip-ish: balanced braces/brackets.
    let braces = json.chars().filter(|&c| c == '{').count();
    let close = json.chars().filter(|&c| c == '}').count();
    assert_eq!(braces, close, "balanced braces in {}", json);
}

#[test]
fn call_sites_record_precise_locations_and_filter_locals() {
    // Each edge OUT of a function carries the precise `(line, col)` it occurs
    // at; a bare local-variable reference (`x`) is NOT an edge and must not
    // appear among the call sites.
    let src = "\
fn helper(x: Int) -> Int = x + 1
fn main() -> Int = helper(1) + helper(2)
";
    let g = graph_of(src);
    let m = info(&g, "main");
    let sites: &Vec<(u32, u32)> = &m
        .call_sites
        .iter()
        .find(|(c, _)| c == "helper")
        .expect("helper edge has call sites")
        .1;
    // Two calls to `helper` on line 2, at the two precise columns.
    assert_eq!(sites, &vec![(2, 20), (2, 32)], "precise call sites of helper");
    // `helper` itself only references its param `x`, which is not a call edge.
    let h = info(&g, "helper");
    assert!(
        h.call_sites.is_empty(),
        "local var `x` must not be a call site: {:?}",
        h.call_sites
    );
}

// ---- typed call graph: declared signatures ------------------------

#[test]
fn signature_renders_generic_multi_arg_recursive_and_unit() {
    let src = "\
fn id[T](x: T) -> T = x
fn fib(n: Int) -> Int = if n < 2 { n } else { fib(n - 1) + fib(n - 2) }
fn add(a: Int, b: Int) -> Int = a + b
fn noop() -> Unit = ()
fn main() -> Int = { let z = noop(); add(id(fib(5)), 0) }
";
    let g = graph_of(src);
    // Generic single-param identity: type_params=[T], param x: T, ret T.
    let id = info(&g, "id");
    assert_eq!(id.signature.type_params, vec!["T".to_string()]);
    assert_eq!(id.signature.params, vec![("x".to_string(), "T".to_string())]);
    assert_eq!(id.signature.ret, "T");
    assert_eq!(id.signature.render("id"), "fn id[T](x: T) -> T");
    // Recursive Int->Int.
    let fib = info(&g, "fib");
    assert_eq!(fib.signature.render("fib"), "fn fib(n: Int) -> Int");
    assert!(fib.recursive);
    // Multi-arg.
    let add = info(&g, "add");
    assert_eq!(add.signature.render("add"), "fn add(a: Int, b: Int) -> Int");
    // No-param, Unit return.
    let noop = info(&g, "noop");
    assert!(noop.signature.params.is_empty());
    assert_eq!(noop.signature.ret, "Unit");
    assert_eq!(noop.signature.render("noop"), "fn noop() -> Unit");
}

#[test]
fn signature_renders_bounds() {
    let src = "\
interface Show[T] { fn show(self: T) -> String }
type Color = | Red
impl Show for Color { fn show(self: Color) -> String = \"red\" }
fn label[T: Show](x: T) -> String = show(x)
fn main() -> Int = { let z = label(Red); 0 }
";
    let g = graph_of(src);
    let lbl = info(&g, "label");
    assert_eq!(lbl.signature.type_params, vec!["T".to_string()]);
    assert_eq!(lbl.signature.bounds, vec![("T".to_string(), "Show".to_string())]);
    // The bound attaches to its type param in the rendered form.
    assert_eq!(lbl.signature.render("label"), "fn label[T: Show](x: T) -> String");
}

#[test]
fn json_carries_signatures_and_is_well_formed() {
    let src = "\
fn id[T](x: T) -> T = x
fn fib(n: Int) -> Int = if n < 2 { n } else { fib(n - 1) + fib(n - 2) }
fn even(n: Int) -> Bool = if n == 0 { true } else { odd(n - 1) }
fn odd(n: Int) -> Bool = if n == 0 { false } else { even(n - 1) }
fn add(a: Int, b: Int) -> Int = a + b
fn dead() -> Int = 0
fn main() -> Int = { let z = even(id(fib(add(1, 2)))); 0 }
";
    let g = graph_of(src);
    let json = g.to_json();
    // Each function carries a `signature` object.
    assert!(json.contains("\"signature\":{\"type_params\":"));
    // The generic id renders its type param + param type + ret.
    assert!(json.contains("\"name\":\"id\",\"signature\":{\"type_params\":[\"T\"],\"bounds\":[],\"params\":[{\"name\":\"x\",\"type\":\"T\"}],\"ret\":\"T\"}"), "got {}", json);
    // The multi-arg add.
    assert!(json.contains("\"params\":[{\"name\":\"a\",\"type\":\"Int\"},{\"name\":\"b\",\"type\":\"Int\"}]"));
    // Bool return on even/odd.
    assert!(json.contains("\"ret\":\"Bool\""));
    // Structure preserved alongside the new signatures: mutual + self cycles,
    // and dead code. (fib is self-recursive; even<->odd is a mutual cycle.)
    assert!(json.contains("\"cycles\":[[\"even\",\"odd\"],[\"fib\"]]"), "got {}", json);
    assert!(json.contains("\"unused\":[\"dead\"]"));
    // Balanced braces (well-formedness spot-check; full check is python json.tool).
    let open = json.chars().filter(|&c| c == '{').count();
    let close = json.chars().filter(|&c| c == '}').count();
    assert_eq!(open, close, "balanced braces in {}", json);
    let ob = json.chars().filter(|&c| c == '[').count();
    let cb = json.chars().filter(|&c| c == ']').count();
    assert_eq!(ob, cb, "balanced brackets in {}", json);
}

#[test]
fn human_summary_shows_signatures() {
    let src = "\
fn fib(n: Int) -> Int = if n < 2 { n } else { fib(n - 1) + fib(n - 2) }
fn main() -> Int = fib(5)
";
    let g = graph_of(src);
    let h = g.to_human();
    assert!(h.contains("fn fib(n: Int) -> Int"), "human summary should show signatures:\n{}", h);
    assert!(h.contains("fn main() -> Int"));
}

#[test]
fn human_summary_is_readable() {
    let src = "\
fn even(n: Int) -> Bool = if n == 0 { true } else { odd(n - 1) }
fn odd(n: Int) -> Bool = if n == 0 { false } else { even(n - 1) }
fn dead() -> Int = 0
fn main() -> Int = if even(4) { 1 } else { 0 }
";
    let g = graph_of(src);
    let h = g.to_human();
    assert!(h.contains("entry: main"));
    assert!(h.contains("unused (dead code): dead"));
    assert!(h.contains("recursive cycles:"));
    assert!(h.contains("even <-> odd") || h.contains("odd <-> even"));
}

// ---- scope tracking: a local binder shadows a top-level function ----

#[test]
fn shadowed_let_is_not_a_call_edge() {
    // `h` binds a local `let g`, so the reference to `g` is the local, NOT the
    // top-level `fn g`. `g` therefore has no callers and is unused.
    let src = "\
fn g() -> Int = 5
fn h() -> Int = { let g = 1; g + 1 }
fn main() -> Int = h()
";
    let g = graph_of(src);
    assert!(info(&g, "h").callees.is_empty(), "h calls nothing: {:?}", info(&g, "h").callees);
    assert!(info(&g, "g").callers.is_empty(), "g has no callers");
    assert!(g.unused.contains(&"g".to_string()), "g is unused: {:?}", g.unused);
}

#[test]
fn shadowed_param_is_not_a_call_edge() {
    // The param `inc` shadows the top-level `fn inc`, so `inc(x)` in `use_it`
    // calls the LOCAL value, not the top-level function.
    let src = "\
fn inc(n: Int) -> Int = n + 1
fn use_it(inc: Int) -> Int = inc + 1
fn main() -> Int = use_it(3)
";
    let g = graph_of(src);
    assert!(info(&g, "use_it").callees.is_empty(), "use_it calls nothing");
    assert!(g.unused.contains(&"inc".to_string()), "inc is unused: {:?}", g.unused);
}

#[test]
fn shadowed_param_local_recursion_is_not_self_recursive() {
    // `loopy` binds a local `let loopy`; the reference is the local, so `loopy`
    // is NOT self-recursive and forms no cycle.
    let src = "\
fn loopy(n: Int) -> Int = { let loopy = n + 1; loopy }
fn main() -> Int = loopy(3)
";
    let g = graph_of(src);
    assert!(!info(&g, "loopy").recursive, "loopy is not recursive");
    assert!(g.cycles.is_empty(), "no cycles: {:?}", g.cycles);
}

#[test]
fn shadowed_lambda_param_is_not_a_call_edge() {
    // The lambda param `target` shadows top-level `fn target`, so the body's
    // reference is the param, not the function.
    let src = "\
fn target(x: Int) -> Int = x
fn run() -> Int = { let f = \\(target: Int) -> target + 1; f(2) }
fn main() -> Int = run()
";
    let g = graph_of(src);
    assert!(info(&g, "run").callees.is_empty(), "run calls nothing: {:?}", info(&g, "run").callees);
    assert!(g.unused.contains(&"target".to_string()), "target is unused: {:?}", g.unused);
}

#[test]
fn shadowed_match_var_is_not_a_call_edge() {
    // The match-arm var `helper` shadows top-level `fn helper`; the arm body's
    // reference is the bound pattern variable.
    let src = "\
fn helper() -> Int = 7
fn pick(n: Int) -> Int = match n { helper => helper, }
fn main() -> Int = pick(1)
";
    let g = graph_of(src);
    assert!(info(&g, "pick").callees.is_empty(), "pick calls nothing: {:?}", info(&g, "pick").callees);
    assert!(g.unused.contains(&"helper".to_string()), "helper is unused: {:?}", g.unused);
}

#[test]
fn user_fn_colliding_with_prelude_local_has_no_phantom_caller() {
    // A user `fn x` collides in NAME with locals used inside prelude bodies
    // (e.g. `x`/`f`/`n` in array combinators). Walking the prelude must NOT
    // create a phantom caller for the user's `x`: it is unused.
    let src = "\
fn x(n: Int) -> Int = n + 1
fn main() -> Int = 0
";
    let g = graph_of(src);
    assert!(info(&g, "x").callers.is_empty(), "x has no callers: {:?}", info(&g, "x").callers);
    assert!(g.unused.contains(&"x".to_string()), "x is unused: {:?}", g.unused);
}

#[test]
fn function_valued_local_called_is_not_a_user_edge() {
    // `apply` takes a function-valued param `f` and calls `f(x)`. That call is
    // to the LOCAL value, not a top-level function, so `apply` has no callee.
    let src = "\
fn dbl(x: Int) -> Int = x * 2
fn apply(f: (Int) -> Int, x: Int) -> Int = f(x)
fn main() -> Int = apply(dbl, 3)
";
    let g = graph_of(src);
    // `apply`'s body call `f(x)` is the param, not an edge.
    assert!(info(&g, "apply").callees.is_empty(), "apply has no user callee: {:?}", info(&g, "apply").callees);
    // `dbl` is passed by NAME to `apply` from main -> it is a callee of main and used.
    assert!(info(&g, "main").callees.contains(&"apply".to_string()));
    assert!(info(&g, "main").callees.contains(&"dbl".to_string()));
    assert!(!g.unused.contains(&"dbl".to_string()), "dbl is used as a value");
}

// ---- typed call edges: per-call-site argument & result types -------

#[test]
fn typed_sites_record_concrete_arg_and_result_types() {
    let src = "\
fn add(a: Int, b: Int) -> Int = a + b
fn main() -> Int = add(1, 2)
";
    let g = typed_graph_of(
        src,
        &[("add(1, 2)", 0, "Int"), ("1", 0, "Int"), ("2", 0, "Int")],
    );
    let sites = typed_sites_to(&g, "main", "add");
    assert_eq!(sites, vec![(vec!["Int".to_string(), "Int".to_string()], "Int".to_string())]);
}

#[test]
fn typed_sites_generic_instantiation_differs_per_site() {
    // The headline: one generic `id`, two call sites, DIFFERENT concrete types.
    let src = "\
fn id[T](x: T) -> T = x
fn main() -> Int = { let a = id(2); let s = id(\"hi\"); a }
";
    let g = typed_graph_of(
        src,
        &[("id(2)", 0, "Int"), ("2", 0, "Int"), ("id(\"hi\")", 0, "String"), ("\"hi\"", 0, "String")],
    );
    let sites = typed_sites_to(&g, "main", "id");
    // Two sites: one instantiated at Int, one at String.
    assert!(
        sites.contains(&(vec!["Int".to_string()], "Int".to_string())),
        "id(2) is Int->Int: {:?}",
        sites
    );
    assert!(
        sites.contains(&(vec!["String".to_string()], "String".to_string())),
        "id(\"hi\") is String->String: {:?}",
        sites
    );
    assert_eq!(sites.len(), 2);
}

#[test]
fn typed_sites_nested_call_argument_types() {
    // `add(id(2), 3)`: the inner `id(2)` is Int->Int, and the outer `add` sees
    // both arguments as Int.
    let src = "\
fn add(a: Int, b: Int) -> Int = a + b
fn id[T](x: T) -> T = x
fn main() -> Int = add(id(2), 3)
";
    let g = typed_graph_of(
        src,
        &[("add(id(2), 3)", 0, "Int"), ("id(2)", 0, "Int"), ("2", 0, "Int"), ("3", 0, "Int")],
    );
    let add_sites = typed_sites_to(&g, "main", "add");
    assert_eq!(
        add_sites,
        vec![(vec!["Int".to_string(), "Int".to_string()], "Int".to_string())]
    );
    let id_sites = typed_sites_to(&g, "main", "id");
    assert_eq!(id_sites, vec![(vec!["Int".to_string()], "Int".to_string())]);
}

#[test]
fn typed_sites_builtin_call_concrete_collection_types() {
    // A builtin (Vector/Array) call carries the concrete instantiation.
    let src = "\
fn main() -> Int = { let v = [10, 20, 30]; array_len(v) }
";
    let g = typed_graph_of(
        src,
        &[("array_len(v)", 0, "Int"), ("v", 1, "Array[Int]")],
    );
    let sites = typed_sites_to(&g, "main", "array_len");
    assert_eq!(
        sites,
        vec![(vec!["Array[Int]".to_string()], "Int".to_string())]
    );
}

#[test]
fn typed_sites_record_and_float_argument_types() {
    let src = "\
type Point = { x: Float, y: Float }
fn scale(p: Point, k: Float) -> Float = p.x + k
fn main() -> Float = scale(Point { x: 1.0, y: 2.0 }, 3.5)
";
    let g = typed_graph_of(
        src,
        &[("scale(Point { x: 1.0, y: 2.0 }, 3.5)", 0, "Float"), ("Point { x: 1.0, y: 2.0 }", 0, "Point"), ("3.5", 0, "Float")],
    );
    let sites = typed_sites_to(&g, "main", "scale");
    assert_eq!(
        sites,
        vec![(vec!["Point".to_string(), "Float".to_string()], "Float".to_string())]
    );
}

#[test]
fn typed_sites_map_builtin_concrete_types() {
    let src = "\
fn main() -> Int = { let m0 = map_new(); let m1 = map_insert(m0, 1, 100); map_len(m1) }
";
    let g = typed_graph_of(
        src,
        &[("map_new()", 0, "Map[Int, Int]"), ("map_insert(m0, 1, 100)", 0, "Map[Int, Int]"), ("m0", 1, "Map[Int, Int]"), ("1", 1, "Int"), ("100", 0, "Int")],
    );
    let new_sites = typed_sites_to(&g, "main", "map_new");
    assert_eq!(new_sites, vec![(vec![], "Map[Int, Int]".to_string())]);
    let ins_sites = typed_sites_to(&g, "main", "map_insert");
    assert_eq!(
        ins_sites,
        vec![(
            vec![
                "Map[Int, Int]".to_string(),
                "Int".to_string(),
                "Int".to_string()
            ],
            "Map[Int, Int]".to_string()
        )]
    );
}

#[test]
fn untyped_analyze_has_empty_typed_sites() {
    // The structural-only `analyze` (no type map) leaves `typed_sites` empty,
    // and the structural fields are identical to before.
    let src = "\
fn helper(x: Int) -> Int = x + 1
fn main() -> Int = helper(1)
";
    let g = graph_of(src);
    assert!(info(&g, "main").typed_sites.is_empty());
    // Structural fields unchanged.
    assert!(info(&g, "main").callees.contains(&"helper".to_string()));
}

#[test]
fn typed_sites_graceful_null_when_type_unavailable() {
    // A type map missing a span yields `None` (JSON null), never a fabricated
    // type. Build a graph with an EMPTY type map and confirm null surfaces.
    let (prog, _) = read("fn helper(x: Int) -> Int = x + 1
fn main() -> Int = helper(1)");
    let empty: Vec<(Span, String)> = Vec::new();
    let g = analyze_typed(&prog, &prelude_names(), Some(&empty));
    let site = info(&g, "main")
        .typed_sites
        .iter()
        .find(|s| s.callee == "helper")
        .expect("helper edge");
    assert_eq!(site.arg_types, vec![None]);
    assert_eq!(site.result_type, None);
}

#[test]
fn typed_call_sites_json_is_well_formed_and_concrete() {
    let src = "\
fn id[T](x: T) -> T = x
fn main() -> Int = { let a = id(2); let s = id(\"hi\"); a }
";
    let g = typed_graph_of(
        src,
        &[("id(2)", 0, "Int"), ("2", 0, "Int"), ("id(\"hi\")", 0, "String"), ("\"hi\"", 0, "String")],
    );
    let json = g.to_json();
    // The new key is present and carries the per-site concrete instantiations.
    assert!(json.contains("\"typed_call_sites\":"));
    assert!(
        json.contains("\"callee\":\"id\",\"line\":2,") && json.contains("\"arg_types\":[\"Int\"],\"result_type\":\"Int\""),
        "id(2) typed site: {}",
        json
    );
    assert!(
        json.contains("\"arg_types\":[\"String\"],\"result_type\":\"String\""),
        "id(\"hi\") typed site: {}",
        json
    );
    // Balanced braces/brackets (well-formedness spot-check).
    let ob = json.chars().filter(|&c| c == '{').count();
    let cb = json.chars().filter(|&c| c == '}').count();
    assert_eq!(ob, cb, "balanced braces");
    let os = json.chars().filter(|&c| c == '[').count();
    let cs = json.chars().filter(|&c| c == ']').count();
    assert_eq!(os, cs, "balanced brackets");
}

#[test]
fn typed_human_summary_shows_call_types() {
    let src = "\
fn add(a: Int, b: Int) -> Int = a + b
fn main() -> Int = add(1, 2)
";
    let g = typed_graph_of(
        src,
        &[("add(1, 2)", 0, "Int"), ("1", 0, "Int"), ("2", 0, "Int")],
    );
    let h = g.to_human();
    assert!(h.contains("call:      add(Int, Int) -> Int"), "human shows typed call:\n{}", h);
}

fn checked(src: &str, rows: &[(&str, usize, &str)]) -> CheckedSource {
    let (program, binders) = read(src);
    CheckedSource {
        program,
        binders,
        types: typed(src, rows),
        prelude_names: prelude_names(),
    }
}

fn flows_of(src: &str, rows: &[(&str, usize, &str)]) -> Vec<FnDataFlow> {
    let c = checked(src, rows);
    aria::dataflow::analyze(&c.program, &c.prelude_names, &c.types, &c.binders)
}

fn flow<'a>(fs: &'a [FnDataFlow], name: &str) -> &'a FnDataFlow {
    fs.iter().find(|f| f.name == name).unwrap_or_else(|| panic!("no fn {}", name))
}

fn binding<'a>(f: &'a FnDataFlow, name: &str) -> &'a Binding {
    f.bindings.iter().find(|b| b.name == name).unwrap_or_else(|| panic!("no binding {}", name))
}

#[test]
fn param_used_twice_records_two_uses() {
    let src = "fn add(x: Int) -> Int = x + x\nfn main() -> Int = add(1)\n";
    let fs = flows_of(src, &[]);
    let f = flow(&fs, "add");
    let x = binding(f, "x");
    assert_eq!(x.kind, BindKind::Param);
    assert_eq!(x.use_count(), 2, "x used twice: {:?}", x.uses);
    assert!(!x.unused);
    assert_eq!(x.ty.as_deref(), Some("Int"));
    // def points at the param binder on line 1.
    assert_eq!(x.def.0, 1);
}

#[test]
fn unused_let_is_dead() {
    let src = "fn f() -> Int = { let tmp = 5; 1 }\nfn main() -> Int = f()\n";
    let fs = flows_of(src, &[("5", 0, "Int")]);
    let f = flow(&fs, "f");
    let tmp = binding(f, "tmp");
    assert_eq!(tmp.kind, BindKind::Let);
    assert!(tmp.unused, "tmp should be unused");
    assert_eq!(tmp.use_count(), 0);
    assert_eq!(tmp.ty.as_deref(), Some("Int"));
    assert_eq!(f.unused_bindings.len(), 1);
    assert_eq!(f.unused_bindings[0].0, "tmp");
}

#[test]
fn used_let_records_use() {
    let src = "fn f() -> Int = { let y = 5; y + 1 }\nfn main() -> Int = f()\n";
    let fs = flows_of(src, &[]);
    let f = flow(&fs, "f");
    let y = binding(f, "y");
    assert!(!y.unused);
    assert_eq!(y.use_count(), 1);
    assert!(f.unused_bindings.is_empty());
}

#[test]
fn inner_shadow_does_not_count_for_outer() {
    // Outer `x` (param) shadowed by an inner `let x`; the inner use binds to
    // the inner binding only. The outer param is then unused.
    let src = "\
fn g(x: Int) -> Int = {
  let x = 99;
  x + 1
}
fn main() -> Int = g(3)
";
    let fs = flows_of(src, &[]);
    let f = flow(&fs, "g");
    // Two bindings named `x`: the param and the inner let.
    let xs: Vec<&Binding> = f.bindings.iter().filter(|b| b.name == "x").collect();
    assert_eq!(xs.len(), 2);
    let param_x = xs.iter().find(|b| b.kind == BindKind::Param).unwrap();
    let let_x = xs.iter().find(|b| b.kind == BindKind::Let).unwrap();
    // The inner `x + 1` use binds to the LET, not the param.
    assert_eq!(let_x.use_count(), 1, "inner use binds to let-x");
    assert_eq!(param_x.use_count(), 0, "param x is shadowed + unused");
    assert!(param_x.unused);
    // And a shadow is reported (inner def line 2 shadows outer def line 1).
    assert_eq!(f.shadows.len(), 1);
    assert_eq!(f.shadows[0].name, "x");
    assert_eq!(f.shadows[0].inner.0, 2);
    assert_eq!(f.shadows[0].outer.0, 1);
}

#[test]
fn lambda_param_and_match_binder() {
    let src = "\
type Box = | Box(Int)
fn h(b: Box) -> Int = {
  let f = \\(n: Int) -> n + 1;
  match b {
Box(v) => f(v)
  }
}
fn main() -> Int = h(Box(2))
";
    let fs = flows_of(src, &[]);
    let f = flow(&fs, "h");
    let n = binding(f, "n");
    assert_eq!(n.kind, BindKind::LambdaParam);
    assert_eq!(n.use_count(), 1, "lambda param n used once");
    assert_eq!(n.ty.as_deref(), Some("Int"));
    let v = binding(f, "v");
    assert_eq!(v.kind, BindKind::MatchBinder);
    assert_eq!(v.use_count(), 1, "match binder v used once");
    // `f` (the let-bound lambda) is used once in the arm.
    let fb = binding(f, "f");
    assert_eq!(fb.use_count(), 1);
}

#[test]
fn bindings_come_in_source_order() {
    let src = "\
fn h(z: Int) -> Int = {
  let f = \\(n: Int) -> 1;
  let g = 2;
  g
}
fn main() -> Int = h(1)
";
    let fs = flows_of(src, &[]);
    let f = flow(&fs, "h");
    // The lambda stands in the value of `f`, so its parameter follows `f`.
    let names: Vec<&str> = f.bindings.iter().map(|b| b.name.as_str()).collect();
    assert_eq!(names, ["z", "f", "n", "g"]);
    let dead: Vec<&str> = f.unused_bindings.iter().map(|u| u.0.as_str()).collect();
    assert_eq!(dead, ["z", "f", "n"]);
}

#[test]
fn a_parameter_has_its_declared_type() {
    let src = "fn id[T](x: T) -> T = x\nfn main() -> Int = id(1)\n";
    let fs = flows_of(src, &[]);
    let x = binding(flow(&fs, "id"), "x");
    assert_eq!(x.ty.as_deref(), Some("T"));
}

#[test]
fn record_field_shorthand_binder() {
    let src = "\
type Point = { x: Int, y: Int }
fn px(p: Point) -> Int = match p { Point { x, y } => x }
fn main() -> Int = px(Point { x: 1, y: 2 })
";
    let fs = flows_of(src, &[]);
    let f = flow(&fs, "px");
    let x = binding(f, "x");
    assert_eq!(x.kind, BindKind::MatchBinder);
    assert_eq!(x.use_count(), 1);
    // `y` is bound by the shorthand but never used -> dead.
    let y = binding(f, "y");
    assert!(y.unused, "y should be unused");
    assert!(f.unused_bindings.iter().any(|(n, _)| n == "y"));
}

#[test]
fn json_is_well_formed() {
    let src = "fn f(x: Int) -> Int = { let tmp = 5; x }\nfn main() -> Int = f(1)\n";
    let fs = flows_of(src, &[]);
    let j = to_json(&fs);
    assert!(j.starts_with('{') && j.ends_with('}'));
    assert!(j.contains("\"kind\":\"param\""));
    assert!(j.contains("\"kind\":\"let\""));
    assert!(j.contains("\"unused\":true"));
    assert!(j.contains("\"use_count\":"));
}

#[test]
fn unused_let_warning_emitted_params_not() {
    // An unused `let` produces a W0001 warning; an unused PARAM does NOT (it
    // may be legitimately required by a signature) — no false-positive noise.
    let src = "fn f(unused_p: Int) -> Int = { let tmp = 5; 1 }\nfn main() -> Int = f(2)\n";
    let ws = warnings_for_source(Some(&checked(src, &[])));
    assert_eq!(ws.len(), 1, "only the let warns: {:?}", ws);
    assert_eq!(ws[0].code, "W0001");
    assert_eq!(ws[0].severity, "warning");
    assert!(ws[0].message.contains("tmp"));
    assert_eq!(ws[0].function.as_deref(), Some("f"));
    // Precise span on the binder.
    assert_eq!(ws[0].line, Some(1));
}

#[test]
fn clean_program_has_no_warnings() {
    let src = "fn f() -> Int = { let y = 5; y }\nfn main() -> Int = f()\n";
    assert!(warnings_for_source(Some(&checked(src, &[]))).is_empty());
}

#[test]
fn warnings_empty_on_ill_typed_source() {
    // Lint only runs on well-formed code; a type error yields no warnings here
    // (errors are reported separately by the caller).
    // `fn f() -> Int = true` does not type-check.
    assert!(warnings_for_source(None).is_empty());
}

#[test]
fn shadow_in_nested_block_only() {
    // A use of the OUTER var before the inner shadow binds to the outer.
    let src = "\
fn k(x: Int) -> Int = {
  let a = x + 1;
  let x = a;
  x
}
fn main() -> Int = k(1)
";
    let fs = flows_of(src, &[]);
    let f = flow(&fs, "k");
    let param_x = f.bindings.iter().find(|b| b.name == "x" && b.kind == BindKind::Param).unwrap();
    let let_x = f.bindings.iter().find(|b| b.name == "x" && b.kind == BindKind::Let).unwrap();
    // `x + 1` (in `let a`) is BEFORE the inner `let x`, so binds to the param.
    assert_eq!(param_x.use_count(), 1, "param x used once before shadow");
    // The final `x` binds to the let.
    assert_eq!(let_x.use_count(), 1);
    assert!(!param_x.unused);
}

// ---------------------------------------------------------------------------
// Further cases of the call graph
// ---------------------------------------------------------------------------

#[test]
fn graph_report_texts_are_exact() {
    let src = "\
fn even(n: Int) -> Bool = if n == 0 { true } else { odd(n - 1) }
fn odd(n: Int) -> Bool = if n == 0 { false } else { even(n - 1) }
fn main() -> Int = { print_bool(even(4)); 0 }
";
    let g = graph_of(src);
    let even = info(&g, "even");
    assert!(even.user && !even.recursive);
    assert_eq!((even.line, even.fan_in, even.fan_out), (1, 2, 1));
    assert_eq!(even.callers, vec!["main".to_string(), "odd".to_string()]);
    assert_eq!(even.call_sites, vec![("odd".to_string(), vec![(1, 53)])]);
    assert!(!info(&g, "range").user);
    let json = g.to_json();
    assert!(
        json.contains(
            "{\"name\":\"odd\",\"signature\":{\"type_params\":[],\"bounds\":[],\"params\":[{\"name\":\"n\",\"type\":\"Int\"}],\"ret\":\"Bool\"}"
        ),
        "{}",
        json
    );
    assert!(json.contains("\"cycles\":[[\"even\",\"odd\"]]"), "{}", json);
    assert!(g.to_human().contains("even <-> odd"));
}

#[test]
fn generated_functions_are_no_user_code() {
    let (mut program, _) = read("fn show() -> Int = 1\nfn aux() -> Int = show()\nfn main() -> Int = 0\n");
    for item in program.items.iter_mut() {
        if let Item::Fn(f) = item {
            if f.name == "show" {
                f.line = 0;
            }
        }
    }
    let g = analyze(&program, &prelude_names());
    let show = info(&g, "show");
    assert_eq!((show.user, show.line), (false, 0));
    // It is called as library code, and never reported as dead.
    assert!(info(&g, "aux").callees.is_empty());
    assert_eq!(info(&g, "aux").lib_callees, vec!["show".to_string()]);
    assert_eq!(g.unused, vec!["aux".to_string()]);
    assert_eq!(g.unreachable, vec!["aux".to_string()]);
}

#[test]
fn no_entry_leaves_nothing_unreachable() {
    let g = graph_of("fn a() -> Int = b()\nfn b() -> Int = 1\n");
    assert_eq!(g.entry, None);
    assert!(g.unreachable.is_empty());
    assert_eq!(g.unused, vec!["a".to_string()]);
}

#[test]
fn unused_is_unreachable_where_main_is() {
    let src = "\
fn a() -> Int = b()
fn b() -> Int = a()
fn c() -> Int = 1
fn main() -> Int = 0
";
    let g = graph_of(src);
    // `a` and `b` call each other: called, but out of reach.
    assert_eq!(g.unused, vec!["c".to_string()]);
    assert_eq!(g.unreachable, vec!["a".to_string(), "b".to_string(), "c".to_string()]);
    assert_eq!(g.cycles, vec![vec!["a".to_string(), "b".to_string()]]);
}

#[test]
fn prelude_names_are_sorted_and_none_without_a_prelude() {
    assert_eq!(
        prelude_names(),
        vec!["array_map", "fold_from", "range", "range_from"]
    );
    assert!(prelude_fn_names(None).is_empty());
}

// ---------------------------------------------------------------------------
// Further cases of the data-flow
// ---------------------------------------------------------------------------

#[test]
fn flow_texts_are_exact() {
    let src = "fn f(x: Int) -> Int = { let tmp = 5; let x = x; x }\n";
    let fs = flows_of(src, &[("5", 0, "Int")]);
    assert_eq!(
        to_json(&fs),
        "{\"f\":{\"bindings\":[\
         {\"name\":\"x\",\"kind\":\"param\",\"def\":[1,6],\"type\":\"Int\",\"uses\":[[1,46]],\"use_count\":1,\"unused\":false},\
         {\"name\":\"tmp\",\"kind\":\"let\",\"def\":[1,29],\"type\":\"Int\",\"uses\":[],\"use_count\":0,\"unused\":true},\
         {\"name\":\"x\",\"kind\":\"let\",\"def\":[1,42],\"type\":null,\"uses\":[[1,49]],\"use_count\":1,\"unused\":false}],\
         \"unused_bindings\":[{\"name\":\"tmp\",\"def\":[1,29]}],\
         \"shadows\":[{\"name\":\"x\",\"def\":[1,42],\"shadows\":[1,6]}]}}"
    );
    assert_eq!(
        fs[0].to_human(),
        "unused: tmp (line 1); shadows: x (line 1 shadows line 1)"
    );
    assert_eq!(flows_of("fn f() -> Int = 1\n", &[])[0].to_human(), "");
}

#[test]
fn types_fall_back_to_the_first_use() {
    let src = "fn f(n: Int) -> Int = match n { k => k + k }\n";
    let fs = flows_of(src, &[("k", 2, "Late"), ("k", 1, "Int")]);
    let k = binding(&fs[0], "k");
    assert_eq!(k.uses, vec![(1, 38), (1, 42)]);
    assert_eq!(k.ty.as_deref(), Some("Int"));
    let kinds: Vec<&str> = fs[0].bindings.iter().map(|b| b.kind.as_str()).collect();
    assert_eq!(kinds, vec!["param", "match_binder"]);
}

#[test]
fn only_unused_lets_warn() {
    let src = "\
fn f(p: Int) -> Int = { let a = 1; let g = \\(q: Int) -> 0; match p { r => g(1) } }
fn h() -> Int = { let b = 2; 3 }
";
    let fs = flows_of(src, &[]);
    let dead: Vec<&str> = fs[0].unused_bindings.iter().map(|d| d.0.as_str()).collect();
    assert_eq!(dead, vec!["a", "q", "r"]);
    let ws = unused_let_warnings(&fs);
    let said: Vec<(&str, &str)> =
        ws.iter().map(|w| (w.message.as_str(), w.function.as_deref().unwrap())).collect();
    assert_eq!(said, vec![("unused variable `a`", "f"), ("unused variable `b`", "h")]);
    assert_eq!((ws[0].phase, ws[0].code), ("lint", W_UNUSED_VARIABLE));
    assert_eq!((ws[0].line, ws[0].col, ws[0].end_line, ws[0].end_col), (Some(1), Some(29), Some(1), Some(30)));
    assert_eq!(W_UNUSED_PARAMETER, "W0002");
}

// ---------------------------------------------------------------------------
// Gradients
// ---------------------------------------------------------------------------

fn grads(src: &str) -> Result<(Program, Vec<GradSite>), String> {
    let (mut program, _) = read(src);
    let sites = rewrite_grad(&mut program, &Vec::new())?;
    Ok((program, sites))
}

/// The helper for one `f`.
fn helper(f: &str) -> GradSite {
    let mut r = grads(&format!("fn main() -> Int = {{ let g = grad({}, x); 0 }}\n", f)).unwrap();
    assert_eq!(r.1.len(), 1);
    r.1.remove(0)
}

/// What the trace of one `f` emits between the leaves and the sweep.
fn trace_of(f: &str) -> String {
    let c = helper(f).c_def;
    let from = c.find("aria_tape_leaf(&$tp, $xv->elems[$i]);\n").unwrap()
        + "aria_tape_leaf(&$tp, $xv->elems[$i]);\n".len();
    let to = c.find("    aria_tape_backward").unwrap();
    c[from..to].to_string()
}

fn refused(f: &str) -> String {
    refused_in("", f)
}

fn refused_in(fns: &str, f: &str) -> String {
    match grads(&format!("{}fn main() -> Int = {{ let g = grad({}, x); 0 }}\n", fns, f)) {
        Ok((_, s)) => panic!("accepted: {}", s[0].c_def),
        Err(m) => m,
    }
}

#[test]
fn grad_helper_is_exact() {
    let s = helper("\\v -> vec_dot(v, v)");
    assert_eq!(s.helper, "vec_grad$0");
    assert!(s.captures.is_empty());
    assert_eq!(
        s.c_def,
        "/* reverse-mode autodiff: traced `grad` over the native AriaTape */
static void* af_vec_grad_240(void* $x) {
    AriaTape $tp; aria_tape_init(&$tp);
    AriaVector* $xv = (AriaVector*)$x;
    AriaTVec $leaves = aria_tvec_alloc($xv->len);
    for (int64_t $i = 0; $i < $xv->len; $i++) $leaves.ids[$i] = aria_tape_leaf(&$tp, $xv->elems[$i]);
    int64_t $g0 = aria_trace_dot(&$tp, &$leaves, &$leaves);
    aria_tape_backward(&$tp, $g0);
    void* $g = aria_tvec_to_grad(&$tp, &$leaves);
    aria_tvec_free(&$leaves);
    aria_tape_free(&$tp);
    aria_vec_drop($x);  /* grad consumes its input vector */
    return $g;
}
"
    );
}

#[test]
fn grad_captures_become_parameters() {
    let src = "fn main() -> Int = { let g = grad(\\v -> vec_dot(v, w) * k + vec_dot(w, v), x); 0 }\n";
    let (program, sites) = grads(src).unwrap();
    assert_eq!(sites[0].captures, vec![("w".to_string(), true), ("k".to_string(), false)]);
    let c = &sites[0].c_def;
    assert!(c.contains("static void* af_vec_grad_240(void* $x, void* $cap_w, double $cap_k) {\n"));
    assert!(c.contains("    AriaTVec $g0 = aria_tvec_from_vec(&$tp, $cap_w);\n"));
    assert!(c.contains("    int64_t $g2 = aria_tape_leaf(&$tp, $cap_k);\n"));
    assert!(c.contains("    aria_vec_drop($cap_w);\n    return $g;\n"));
    assert!(!c.contains("aria_vec_drop($cap_k)"));
    // The call passes the captures behind `x`.
    let shown = format!("{:?}", program.items[0]);
    assert!(!shown.contains("Call(\"grad\""), "{}", shown);
    for name in ["\"x\"", "\"w\"", "\"k\""] {
        assert!(shown.contains(&format!("Var({})", name)), "{}", shown);
    }
    assert!(shown.contains("Call(\"vec_grad$0\""), "{}", shown);
}

#[test]
fn grad_traces_each_operation() {
    assert_eq!(
        trace_of("\\v -> -vec_norm(v) / 2"),
        "    int64_t $g0 = aria_trace_norm(&$tp, &$leaves);
    int64_t $g1 = aria_tape_unary(&$tp, $g0, -aria_tape_value(&$tp, $g0), -1.0);
    int64_t $g2 = aria_tape_leaf(&$tp, 2.0);
    if (aria_tape_value(&$tp, $g2) == 0.0) aria_trap_msg(\"grad: division by zero in a differentiated value\");
    int64_t $g3 = aria_tape_binary(&$tp, $g1, $g2, aria_tape_value(&$tp, $g1) / aria_tape_value(&$tp, $g2), 1.0 / (aria_tape_value(&$tp, $g2)), -(aria_tape_value(&$tp, $g1)) / ((aria_tape_value(&$tp, $g2)) * (aria_tape_value(&$tp, $g2))));
"
    );
    assert_eq!(
        trace_of("\\v -> vec_get(v, 2 * 3 - 5) * 1.5"),
        "    if (1 < 0 || 1 >= $leaves.len) aria_trap_msg(\"vector index out of range\");
    int64_t $g0 = aria_tape_unary(&$tp, $leaves.ids[1], aria_tape_value(&$tp, $leaves.ids[1]), 1.0);
    int64_t $g1 = aria_tape_leaf(&$tp, 1.5);
    int64_t $g2 = aria_tape_binary(&$tp, $g0, $g1, aria_tape_value(&$tp, $g0) * aria_tape_value(&$tp, $g1), aria_tape_value(&$tp, $g1), aria_tape_value(&$tp, $g0));
"
    );
    assert_eq!(
        trace_of("\\v -> { let a = vec_sub(v, v); vec_norm(a) }"),
        "    AriaTVec $g0 = aria_tvec_alloc($leaves.len);
    if ($leaves.len != $leaves.len) aria_trap_msg(\"vector length mismatch\");
    for (int64_t $j = 0; $j < $leaves.len; $j++) { double av = aria_tape_value(&$tp, $leaves.ids[$j]), bv = aria_tape_value(&$tp, $leaves.ids[$j]); $g0.ids[$j] = aria_tape_binary(&$tp, $leaves.ids[$j], $leaves.ids[$j], av - bv, 1.0, -1.0); }
    int64_t $g1 = aria_trace_norm(&$tp, &$g0);
"
    );
    assert_eq!(
        trace_of("\\v -> vec_norm(vec_push(vec_scale(v, 2.0), 3.0))"),
        "    int64_t $g0 = aria_tape_leaf(&$tp, 2.0);
    AriaTVec $g1 = aria_tvec_alloc($leaves.len);
    for (int64_t $j = 0; $j < $leaves.len; $j++) { double av = aria_tape_value(&$tp, $leaves.ids[$j]), sv = aria_tape_value(&$tp, $g0); $g1.ids[$j] = aria_tape_binary(&$tp, $leaves.ids[$j], $g0, sv * av, sv, av); }
    int64_t $g2 = aria_tape_leaf(&$tp, 3.0);
    AriaTVec $g3 = aria_tvec_alloc($g1.len + 1);
    for (int64_t $j = 0; $j < $g1.len; $j++) $g3.ids[$j] = $g1.ids[$j];
    $g3.ids[$g1.len] = $g2;
    int64_t $g4 = aria_trace_norm(&$tp, &$g3);
"
    );
    assert_eq!(
        trace_of("\\v -> vec_dot(vec_from_array([1, k]), v)"),
        "    int64_t $g0 = aria_tape_leaf(&$tp, 1.0);
    int64_t $g1 = aria_tape_leaf(&$tp, $cap_k);
    AriaTVec $g2 = aria_tvec_alloc(2);
    $g2.ids[0] = $g0;
    $g2.ids[1] = $g1;
    int64_t $g3 = aria_trace_dot(&$tp, &$g2, &$leaves);
"
    );
}

#[test]
fn grad_follows_the_taken_branch() {
    assert_eq!(
        trace_of("\\v -> if vec_len(v) > 2 && k < 1.5 { vec_norm(v) } else { 0.0 }"),
        "    int64_t $g2;
    if ((((($leaves.len) > ((int64_t)2))) && ((($cap_k) < (1.5))))) {
    int64_t $g0 = aria_trace_norm(&$tp, &$leaves);
        $g2 = $g0;
    }
    else {
    int64_t $g1 = aria_tape_leaf(&$tp, 0.0);
        $g2 = $g1;
    }
"
    );
    // Without an irrefutable arm the chain ends in a trap.
    assert_eq!(
        trace_of("\\v -> match vec_len(v) { 1 => 1.0, 2 => 2.0 }"),
        "    int64_t $g2;
    if ($leaves.len == 1) {
    int64_t $g0 = aria_tape_leaf(&$tp, 1.0);
        $g2 = $g0;
    }
    else if ($leaves.len == 2) {
    int64_t $g1 = aria_tape_leaf(&$tp, 2.0);
        $g2 = $g1;
    }
    else { aria_trap_msg(\"grad: no matching `match` arm (non-exhaustive)\"); }
"
    );
    // A variable binds the scrutinee; a lone irrefutable arm is a plain block.
    assert_eq!(
        trace_of("\\v -> match vec_len(v) { n => if n == 0 { 1.0 } else { vec_norm(v) } }"),
        "    int64_t $g4;
    {
    int64_t $g0 = $leaves.len;
    int64_t $g3;
    if ((($g0) == ((int64_t)0))) {
    int64_t $g1 = aria_tape_leaf(&$tp, 1.0);
        $g3 = $g1;
    }
    else {
    int64_t $g2 = aria_trace_norm(&$tp, &$leaves);
        $g3 = $g2;
    }
        $g4 = $g3;
    }
"
    );
    // A division in a condition is guarded.
    let c = trace_of("\\v -> if vec_len(v) / 2 == 1 { 1.0 } else { 2.0 }");
    assert!(c.starts_with(
        "    if (((int64_t)2) == 0) aria_trap_msg(\"grad: division by zero in a condition\");\n"
    ));
}

#[test]
fn grad_inlines_named_functions() {
    let src = "\
fn sq(a: Float) -> Float = a * a
fn loss(v: Vector) -> Float = sq(vec_norm(v))
fn main() -> Int = { let g = grad(loss, x); 0 }
";
    let (_, sites) = grads(src).unwrap();
    assert!(sites[0].c_def.contains(
        "    int64_t $g0 = aria_trace_norm(&$tp, &$leaves);
    int64_t $g1 = aria_tape_binary(&$tp, $g0, $g0, aria_tape_value(&$tp, $g0) * aria_tape_value(&$tp, $g0), aria_tape_value(&$tp, $g0), aria_tape_value(&$tp, $g0));
    aria_tape_backward(&$tp, $g1);
"
    ));
    // Sites are numbered in the order of their discovery.
    let src = "fn main() -> Int = { let a = grad(\\v -> vec_norm(v), grad(\\w -> vec_norm(w), x)); 0 }\n";
    let (_, sites) = grads(src).unwrap();
    let names: Vec<&str> = sites.iter().map(|s| s.helper.as_str()).collect();
    assert_eq!(names, vec!["vec_grad$0", "vec_grad$1"]);
    // Deep, non-recursive nesting is refused at its limit.
    let mut fns = String::new();
    for i in 0..66 {
        fns.push_str(&format!("fn f{}(a: Float) -> Float = f{}(a)\n", i, i + 1));
    }
    fns.push_str("fn f66(a: Float) -> Float = a\n");
    assert_eq!(
        refused_in(&fns, "\\v -> f0(vec_norm(v))"),
        "grad: inlining inside `f` exceeded depth 64 at `f64` on the native backend; use the interpreter `aria run`"
    );
}

#[test]
fn grad_literals_read_back() {
    assert!(trace_of("\\v -> vec_norm(v) + 7").contains("aria_tape_leaf(&$tp, 7.0);"));
    assert!(trace_of("\\v -> vec_norm(v) + 0.1").contains("aria_tape_leaf(&$tp, 0.1);"));
    // Beyond 2^53 the rendering comes from the table.
    let src = "fn main() -> Int = { let g = grad(\\v -> vec_norm(v) + 20000000000000000, x); 0 }\n";
    let (mut program, _) = read(src);
    let wide = vec![(20000000000000000i64, format!("{:?}", 20000000000000000i64 as f64))];
    let sites = rewrite_grad(&mut program, &wide).unwrap();
    assert!(sites[0].c_def.contains("aria_tape_leaf(&$tp, 2e16);"));
}

#[test]
fn grad_refusals() {
    let arity = "grad: `f` must take exactly one Vector argument";
    assert_eq!(refused("\\(a: Vector, b: Vector) -> 1.0"), arity);
    assert_eq!(
        refused_in("fn two(a: Int, b: Int) -> Int = a\n", "two"),
        "grad: the function `two` passed to grad must take exactly one Vector argument"
    );
    assert!(refused("nobody").starts_with(
        "grad: `f` must be a lambda literal or a top-level function, not `nobody`"
    ));
    assert!(refused("1").starts_with("grad: `f` must be a lambda literal `\\v -> ..`"));
    assert_eq!(
        grads("fn main() -> Int = { let g = grad(x); 0 }\n").unwrap_err(),
        "grad expects (f: (Vector) -> Float, x: Vector)"
    );
    assert_eq!(
        refused("\\v -> v"),
        "grad: `f` must return a Float (scalar), but it returns a Vector"
    );
    assert_eq!(
        refused("\\v -> vec_len(v)"),
        "grad: `f` must return a Float (differentiated scalar), but it returns a concrete Int/Bool"
    );
    assert_eq!(
        refused("\\v -> vec_norm(v) % 2.0"),
        "grad: operator `Mod` is not differentiable in `f` on the native backend (only + - * / and unary -)"
    );
    assert_eq!(
        refused("\\v -> vec_get(v, k)"),
        "grad: vec_get index must be a constant Int in `f` on the native backend"
    );
    assert_eq!(
        refused("\\v -> vec_get(v, 9223372036854775807 + 1)"),
        "grad: vec_get index must be a constant Int in `f` on the native backend"
    );
    assert_eq!(
        refused("\\v -> vec_dot(v, w) + w"),
        "grad: captured `w` is used as both a Vector and a Float in `f`"
    );
    assert_eq!(
        refused("\\v -> k + vec_dot(v, k)"),
        "grad: captured `k` is used as both a Float and a Vector in `f`"
    );
    assert_eq!(
        refused("\\v -> if vec_norm(v) > 1.0 { 1.0 } else { 2.0 }"),
        "grad: this `if`/`match` condition/scrutinee is not a supported concrete Int/Bool/Float expression on the native backend (supported: literals, captured scalars, `vec_len`, and +-*/%, comparisons, &&/||/! over them)"
    );
    // The length of a vector that would be built on the tape is refused, too.
    assert_eq!(
        refused("\\v -> if vec_len(vec_add(v, v)) > 1 { 1.0 } else { 2.0 }"),
        refused("\\v -> if vec_norm(v) > 1.0 { 1.0 } else { 2.0 }")
    );
    assert_eq!(
        refused("\\v -> { let n = vec_norm(v); if n > 1.0 { 1.0 } else { 2.0 } }"),
        "grad: the differentiated value `n` cannot be used in an `if`/`match` condition inside `f` (the branch must not depend on a value being differentiated) on the native backend"
    );
    assert_eq!(
        refused("\\v -> if true { v } else { 1.0 }"),
        "grad: the arms of an `if`/`match` inside `f` must all produce the SAME kind (all Float, or all Vector) on the native backend"
    );
    assert_eq!(
        refused("\\v -> match vec_len(v) { _ => 1.0, 2 => 2.0 }"),
        "grad: `match` inside `f` has arm(s) after an irrefutable pattern on the native backend"
    );
    assert_eq!(
        refused("\\v -> tensor_sum(v)"),
        "grad: unsupported operation `tensor_sum` inside `f` on the native backend"
    );
    assert_eq!(
        refused("\\v -> vec_dot(grad(\\w -> vec_norm(w), v), v)"),
        "grad: unsupported operation `vec_grad$0` inside `f` on the native backend"
    );
    assert!(refused_in("fn r(a: Float) -> Float = r(a)\n", "\\v -> r(vec_norm(v))").starts_with(
        "grad: `f` (transitively) calls the recursive function `r`"
    ));
    assert_eq!(
        refused_in("fn r(a: Float) -> Float = a\n", "\\v -> r(1.0, 2.0)"),
        "grad: call to `r` inside `f` has 2 argument(s) but `r` takes 1"
    );
    assert_eq!(
        refused("\\v -> P { x: 1.0 }"),
        "grad: unsupported expression in `f` on the native backend: a record literal"
    );
}

#[test]
fn programs_without_grad_stay() {
    let src = "\
type Box = | Box(Int)
fn h(b: Box) -> Int = { let f = \\(n: Int) -> n + 1; match b { Box(v) => f(v), _ => -1 } }
";
    let (before, _) = read(src);
    let (after, sites) = grads(src).unwrap();
    assert!(sites.is_empty());
    assert_eq!(format!("{:?}", before), format!("{:?}", after));
}

#[test]
fn a_refused_call_ends_the_rewriting() {
    let src = "\
fn a(x: Vector) -> Vector = grad(\\v -> vec_norm(v), x)
fn b(x: Vector) -> Int = { let p = grad(\\v -> vec_dot(v, v), x); let q = grad(x); let r = grad(\\v -> vec_norm(v), x); 0 }
fn c(x: Vector) -> Vector = grad(\\v -> vec_norm(v), x)
";
    let (mut program, _) = read(src);
    let before = format!("{:?}", program);
    assert_eq!(
        rewrite_grad(&mut program, &Vec::new()).unwrap_err(),
        "grad expects (f: (Vector) -> Float, x: Vector)"
    );
    // The calls before the refused one are rewritten; it and the later ones are not.
    let after = format!("{:?}", program);
    assert_eq!(before.matches("Call(\"grad\"").count(), 5);
    assert_eq!(after.matches("Call(\"grad\"").count(), 3);
    assert_eq!(after.matches("Call(\"vec_grad$").count(), 2);
    let body = |p: &Program, name: &str| {
        p.items.iter().find_map(|i| match i {
            Item::Fn(f) if f.name == name => Some(format!("{:?}", f.body)),
            _ => None,
        })
    };
    let (untouched, _) = read(src);
    assert_ne!(body(&program, "a"), body(&untouched, "a"));
    assert_ne!(body(&program, "b"), body(&untouched, "b"));
    assert_eq!(body(&program, "c"), body(&untouched, "c"));
}

#[test]
fn a_recursive_function_is_in_one_cycle() {
    let src = "\
fn a(n: Int) -> Int = b(n)
fn b(n: Int) -> Int = c(n) + d(n)
fn c(n: Int) -> Int = a(n)
fn d(n: Int) -> Int = if n == 0 { 0 } else { d(n - 1) }
fn e(n: Int) -> Int = a(n)
fn main() -> Int = e(1)
";
    let g = graph_of(src);
    for (name, cycles) in [("a", 1), ("b", 1), ("c", 1), ("d", 1), ("e", 0), ("main", 0)] {
        let n = g.cycles.iter().filter(|c| c.contains(&name.to_string())).count();
        assert_eq!(n, cycles, "{}", name);
    }
    assert_eq!(g.cycles.len(), 2);
}

#[test]
fn reports_are_values() {
    let src = "fn f(x: Int) -> Int = { let x = x; let y = 1; x }\nfn main() -> Int = f(1)\n";
    let (program, binders) = read(src);
    assert_eq!(format!("{:?}", program.clone()), format!("{:?}", program));
    assert_eq!(format!("{:?}", binders.clone()), format!("{:?}", binders));
    let g = graph_of(src);
    assert_eq!(g.clone().functions, g.functions);
    assert_ne!(g.functions[0], g.functions[1]);
    let fs = flows_of(src, &[]);
    assert_eq!(fs.clone(), fs);
    assert_eq!((fs[0].bindings.len(), fs[0].shadows.len(), fs[0].unused_bindings.len()), (3, 1, 1));
    assert_ne!(fs[0], fs[1]);
}

#[test]
fn the_lists_of_a_report_agree() {
    let src = "\
fn a(n: Int) -> Int = if n == 0 { b(n) } else { a(n - 1) + b(2) }
fn b(n: Int) -> Int = { print_int(n); array_len(range(n)) }
fn c() -> Int = a(1)
fn main() -> Int = a(3)
";
    let g = typed_graph_of(src, &[("n - 1", 0, "Int")]);
    for f in &g.functions {
        for list in [&f.callees, &f.lib_callees, &f.callers] {
            assert!(list.windows(2).all(|w| w[0] < w[1]), "{:?}", list);
        }
        assert_eq!((f.fan_in, f.fan_out), (f.callers.len(), f.callees.len()));
        assert_eq!(f.recursive, f.callees.contains(&f.name));
        assert!(f.callees.iter().all(|x| !f.lib_callees.contains(x) && info(&g, x).user));
        for h in &g.functions {
            assert_eq!(f.callees.contains(&h.name), h.callers.contains(&f.name));
        }
        // The typed calls stand where the calls stand.
        let mut sites: Vec<(String, u32, u32)> = Vec::new();
        for (callee, at) in &f.call_sites {
            sites.extend(at.iter().map(|p| (callee.clone(), p.0, p.1)));
        }
        let mut typed: Vec<_> =
            f.typed_sites.iter().map(|t| (t.callee.clone(), t.line, t.col)).collect();
        sites.sort();
        typed.sort();
        typed.dedup();
        assert_eq!(sites, typed);
        let dead = f.user && f.name != "main" && f.callers.is_empty();
        assert_eq!(g.unused.contains(&f.name), dead);
    }
    assert!(g.unused.iter().all(|x| g.unreachable.contains(x)));
}
