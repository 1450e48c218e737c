//! Abstract syntax tree for Aria.
//!
//! The AST is deliberately small and regular. Every construct is an
//! expression, identifiers are disambiguated by case at parse time
//! (Uppercase = constructor/type, lowercase = value/function), and there
//! is exactly one way to spell each thing.

use vstd::prelude::*;

pub mod copy;
pub mod model;

verus! {

#[derive(Debug, PartialEq)]
pub enum Ty {
    Int,
    Float,
    Bool,
    Str,
    Unit,
    /// A named type, possibly with type arguments, e.g. `List[Int]` or `Option[T]`.
    /// A non-generic named type has an empty argument list.
    Named(String, Vec<Ty>),
    /// A type variable, either a declared generic parameter (`T`) or a fresh
    /// unification variable introduced by the checker.
    Var(String),
    /// A first-class function type: parameter types and a return type, e.g.
    /// `(Int, Bool) -> Int`.
    Fn(Vec<Ty>, Box<Ty>),
}

/// A 64-bit float literal, held as plain values: its IEEE-754 bits, and its two
/// decimal renderings, which the reader of the literal computes.
#[derive(Debug, Clone, PartialEq)]
pub struct FloatLit {
    /// The IEEE-754 binary64 encoding.
    pub bits: u64,
    /// The shortest decimal that reads back as the same number, e.g. `2.0` or
    /// `1e300` (Rust's `{:?}`).
    pub shortest: String,
    /// Scientific notation with 17 digits after the point (Rust's `{:.17e}`).
    pub scientific: String,
}

impl FloatLit {
    /// The magnitude bits: everything but the sign.
    pub open spec fn magnitude(&self) -> u64 {
        self.bits % 0x8000_0000_0000_0000
    }

    /// Not a number: all exponent bits set and a fraction.
    pub open spec fn is_nan(&self) -> bool {
        self.magnitude() > 0x7FF0_0000_0000_0000
    }

    /// An infinity: all exponent bits set and no fraction.
    pub open spec fn is_infinite(&self) -> bool {
        self.magnitude() == 0x7FF0_0000_0000_0000
    }

    /// The sign bit.
    pub open spec fn is_negative(&self) -> bool {
        self.bits >= 0x8000_0000_0000_0000
    }

    /// Whether the literal is not a number.
    pub fn nan(&self) -> (r: bool)
        ensures
            r == self.is_nan(),
    {
        self.bits % 0x8000_0000_0000_0000 > 0x7FF0_0000_0000_0000
    }

    /// Whether the literal is an infinity.
    pub fn infinite(&self) -> (r: bool)
        ensures
            r == self.is_infinite(),
    {
        self.bits % 0x8000_0000_0000_0000 == 0x7FF0_0000_0000_0000
    }

    /// Whether the sign bit is set.
    pub fn negative(&self) -> (r: bool)
        ensures
            r == self.is_negative(),
    {
        self.bits >= 0x8000_0000_0000_0000
    }
}

/// Concrete closure type information attached to an `ExprKind::Lambda` by the
/// monomorphizer: the captured free variables (in the order they are stored in
/// the closure cell) with their concrete types, and the lambda's return type.
#[derive(Debug, Clone)]
pub struct ClosureSig {
    pub captures: Vec<(String, Ty)>,
    pub ret: Ty,
}

/// A precise source span: the 1-based start and end (line, column) of a token
/// or a parsed node. Columns are 1-based and count Unicode scalar values from
/// the start of the line. `end_line`/`end_col` point one past the last
/// character of the node, so a single-character token at line 4 col 7 has
/// `end_col == 8`.
///
/// A compiler-synthesized node (one with no single source location) carries
/// [`Span::none`], whose fields are all zero. Spans are pure metadata: they feed
/// diagnostics, the call graph and the data-flow report, and never affect a
/// program's result.
#[derive(Debug, Clone, Copy, PartialEq, Eq, Hash, Structural)]
pub struct Span {
    pub start_line: u32,
    pub start_col: u32,
    pub end_line: u32,
    pub end_col: u32,
}

impl Span {
    /// The sentinel span for a compiler-synthesized node with no source
    /// location: all fields zero. Consumers treat a zero `start_line` as
    /// "no precise location" and fall back to the function-definition line.
    pub fn none() -> (r: Span)
        ensures
            r == (Span { start_line: 0, start_col: 0, end_line: 0, end_col: 0 }),
    {
        Span { start_line: 0, start_col: 0, end_line: 0, end_col: 0 }
    }

    /// Whether the span gives a source location.
    pub open spec fn located(&self) -> bool {
        self.start_line != 0
    }

    /// `true` for the [`Span::none`] sentinel (no precise source location).
    pub fn is_none(&self) -> (r: bool)
        ensures
            r == !self.located(),
    {
        self.start_line == 0
    }
}

/// An expression: its `kind` (the shape of the node) plus the precise source
/// `span` it was parsed from. Synthesized expressions use [`Span::none`].
#[derive(Debug)]
pub struct Expr {
    pub kind: ExprKind,
    pub span: Span,
}

impl Expr {
    /// Build an expression node from its kind and span.
    pub fn new(kind: ExprKind, span: Span) -> (r: Expr)
        ensures
            r.kind == kind,
            r.span == span,
    {
        Expr { kind, span }
    }

    /// Build a compiler-synthesized expression (no source location).
    pub fn synth(kind: ExprKind) -> (r: Expr)
        ensures
            r.kind == kind,
            !r.span.located(),
            r.span == (Span { start_line: 0, start_col: 0, end_line: 0, end_col: 0 }),
    {
        Expr { kind, span: Span::none() }
    }
}

#[derive(Debug)]
pub enum ExprKind {
    Int(i64),
    Float(FloatLit),
    Bool(bool),
    Str(String),
    Unit,
    Var(String),
    /// Constructor application, e.g. `Circle(2.0)` or nullary `Nil`.
    Ctor(String, Vec<Expr>),
    /// Function or builtin call, e.g. `factorial(5)`.
    Call(String, Vec<Expr>),
    /// A lambda with typed parameters and a body, e.g. `\(x: Int) -> x + 1`.
    /// The third field is concrete closure type information; it is `None` as
    /// produced by the parser and filled in by the monomorphizer.
    Lambda(Vec<(String, Ty)>, Box<Expr>, Option<ClosureSig>),
    /// Application of an arbitrary expression (a lambda, a function-valued
    /// variable, or a call result) to arguments. The third field is the concrete
    /// result type, filled in by the monomorphizer.
    Apply(Box<Expr>, Vec<Expr>, Option<Ty>),
    /// A record literal, e.g. `Point { x: 1.0, y: 2.0 }`. Fields may be written
    /// in any order.
    Record(String, Vec<(String, Expr)>),
    /// Field access, e.g. `p.x`.
    Field(Box<Expr>, String),
    /// Functional record update, e.g. `{ p | x = 3.0 }`: a copy of the base
    /// record with the listed fields replaced.
    Update(Box<Expr>, Vec<(String, Expr)>),
    Unary(UnOp, Box<Expr>),
    Binary(BinOp, Box<Expr>, Box<Expr>),
    If(Box<Expr>, Box<Expr>, Box<Expr>),
    Match(Box<Expr>, Vec<Arm>),
    /// A sequence of statements ending in a result expression.
    Block(Vec<Stmt>, Box<Expr>),
}

/// A block statement: its `kind` plus the precise source `span` covering the
/// whole statement. Synthesized statements carry [`Span::none`].
#[derive(Debug)]
pub struct Stmt {
    pub kind: StmtKind,
    pub span: Span,
}

impl Stmt {
    /// Build a statement node from its kind and span.
    pub fn new(kind: StmtKind, span: Span) -> (r: Stmt)
        ensures
            r.kind == kind,
            r.span == span,
    {
        Stmt { kind, span }
    }

    /// Build a compiler-synthesized statement (no source location).
    pub fn synth(kind: StmtKind) -> (r: Stmt)
        ensures
            r.kind == kind,
            !r.span.located(),
            r.span == (Span { start_line: 0, start_col: 0, end_line: 0, end_col: 0 }),
    {
        Stmt { kind, span: Span::none() }
    }
}

#[derive(Debug)]
pub enum StmtKind {
    /// A `let` binding `let name[: Ty] = value;`. `name_span` is the precise
    /// source span of the bound name alone.
    Let { name: String, name_span: Span, ann: Option<Ty>, value: Expr },
    Expr(Expr),
}

#[derive(Debug)]
pub struct Arm {
    pub pat: Pattern,
    pub body: Expr,
}

/// A pattern: its `kind` plus the precise source `span` it was parsed from.
/// Synthesized patterns use [`Span::none`].
#[derive(Debug)]
pub struct Pattern {
    pub kind: PatternKind,
    pub span: Span,
}

impl Pattern {
    /// Build a pattern node from its kind and span.
    pub fn new(kind: PatternKind, span: Span) -> (r: Pattern)
        ensures
            r.kind == kind,
            r.span == span,
    {
        Pattern { kind, span }
    }

    /// Build a compiler-synthesized pattern (no source location).
    pub fn synth(kind: PatternKind) -> (r: Pattern)
        ensures
            r.kind == kind,
            !r.span.located(),
            r.span == (Span { start_line: 0, start_col: 0, end_line: 0, end_col: 0 }),
    {
        Pattern { kind, span: Span::none() }
    }
}

#[derive(Debug)]
pub enum PatternKind {
    Wild,
    Var(String),
    Int(i64),
    Bool(bool),
    Ctor(String, Vec<Pattern>),
    /// A record pattern, e.g. `Point { x, y }`, binding each named field to a
    /// same-named variable. Unmentioned fields are ignored. For the field-name
    /// shorthand (`{ x }`), the sub-pattern is a [`PatternKind::Var`] whose span
    /// is the field name's source extent.
    Record(String, Vec<(String, Pattern)>),
}

#[derive(Debug, Clone, Copy, PartialEq, Eq, Structural)]
pub enum UnOp {
    Neg,
    Not,
}

#[derive(Debug, Clone, Copy, PartialEq, Eq, Structural)]
pub enum BinOp {
    Add,
    Sub,
    Mul,
    Div,
    Mod,
    Eq,
    Ne,
    Lt,
    Le,
    Gt,
    Ge,
    And,
    Or,
}

#[derive(Debug, Clone)]
pub struct Param {
    pub name: String,
    pub ty: Ty,
    /// Precise source span of the parameter name. [`Span::none`] for
    /// compiler-synthesized parameters.
    pub span: Span,
}

#[derive(Debug, Clone)]
pub struct FnDecl {
    pub name: String,
    /// 1-based source line of the `fn` keyword that introduced this function;
    /// `0` for compiler-generated functions that have no single source line.
    pub line: usize,
    /// `true` if the function carries a `pure` annotation.
    pub pure: bool,
    /// Declared generic type parameters, e.g. `[T, U]`.
    pub type_params: Vec<String>,
    /// Trait bounds on the type parameters, e.g. `[T: Show]` gives `("T", "Show")`.
    pub bounds: Vec<(String, String)>,
    pub params: Vec<Param>,
    pub ret: Ty,
    pub body: Expr,
}

#[derive(Debug, Clone)]
pub struct Variant {
    pub name: String,
    pub fields: Vec<Ty>,
    /// `Some(names)` iff this is a record-style variant (`type P = { x: T, .. }`):
    /// the field names, positionally aligned with `fields`.
    pub field_names: Option<Vec<String>>,
}

#[derive(Debug, Clone)]
pub struct TypeDecl {
    pub name: String,
    /// Declared generic type parameters, e.g. `[T]`.
    pub params: Vec<String>,
    pub variants: Vec<Variant>,
}

#[derive(Debug, Clone)]
pub enum Item {
    Fn(FnDecl),
    Type(TypeDecl),
}

/// A single method signature inside an `interface` declaration, e.g.
/// `fn show(self: T) -> String`.
#[derive(Debug, Clone)]
pub struct MethodSig {
    pub name: String,
    pub params: Vec<Param>,
    pub ret: Ty,
}

/// An `interface Show[T] { fn show(self: T) -> String, .. }`: a trait. The
/// parser lowers interfaces and their impls to ordinary functions.
#[derive(Debug, Clone)]
pub struct InterfaceDecl {
    pub name: String,
    /// The type variable standing for the implementing type.
    pub self_param: String,
    pub methods: Vec<MethodSig>,
}

/// An `impl Show for Point { fn show(self: Point) -> String = .. }`: a concrete
/// implementation of an interface for one head type.
#[derive(Debug, Clone)]
pub struct ImplDecl {
    pub trait_name: String,
    pub head_type: String,
    pub methods: Vec<FnDecl>,
}

#[derive(Debug, Clone)]
pub struct Program {
    pub items: Vec<Item>,
}

/// A side table of precise binder source spans for the one binder kind the AST
/// cannot carry a span for directly: lambda parameters. It is metadata for the
/// data-flow report.
#[derive(Debug, Clone, Default)]
pub struct BinderSpans {
    /// Lambda parameter binder spans: the lambda body's span, the parameter's
    /// index, and the span of its name. The first entry of a key counts.
    pub lambda_params: Vec<(Span, usize, Span)>,
}

} // verus!
