//! The administrative-normal-form intermediate representation: every operand is
//! an atom, every intermediate value is named, and reference counting is
//! explicit.

use vstd::prelude::*;

use crate::ast::{BinOp, FloatLit, Ty, UnOp};

verus! {

/// An operand: a literal or a variable.
#[derive(Debug)]
pub enum Atom {
    Int(i64),
    Bool(bool),
    Float(FloatLit),
    Str(String),
    Var(String),
    Unit,
}

/// The right-hand side of a `let`.
#[derive(Debug)]
pub enum Bind {
    Atom(Atom),
    Prim(BinOp, Atom, Atom),
    Unary(UnOp, Atom),
    Call(String, Vec<Atom>),
    Ctor(String, Vec<Atom>),
    /// A constructor built in the cell that the token (the first name) holds, if
    /// it holds one.
    CtorReuse(String, String, Vec<Atom>),
    If(Atom, Box<IExpr>, Box<IExpr>),
    Match(Atom, Vec<IArm>),
    /// A closure over a lifted lambda, with the captured values.
    MakeClosure(String, Vec<Atom>),
    /// A closure applied to arguments, with the result type where it is known.
    ApplyClosure(Atom, Vec<Atom>, Option<Ty>),
}

/// An expression: a chain of bindings and reference-count operations that ends
/// in a value or a self tail call.
#[derive(Debug)]
pub enum IExpr {
    Ret(Atom),
    Let(String, Bind, Box<IExpr>),
    Dup(String, Box<IExpr>),
    Drop(String, Box<IExpr>),
    /// Drops the first name and keeps its cell, if it became free, under the
    /// token (the second name).
    DropReuse(String, String, Box<IExpr>),
    TailCall(Vec<Atom>),
}

/// A match arm: `ctor` is `None` for a catch-all.
#[derive(Debug)]
pub struct IArm {
    pub ctor: Option<String>,
    pub binders: Vec<String>,
    pub body: IExpr,
}

/// The types of a lifted lambda.
#[derive(Debug)]
pub struct LamSig {
    pub param_tys: Vec<Ty>,
    pub ret_ty: Ty,
    pub capture_tys: Vec<Ty>,
}

/// A lowered function. A lifted lambda has captures and a `lam_sig`.
#[derive(Debug)]
pub struct IFn {
    pub params: Vec<String>,
    pub captures: Vec<String>,
    pub body: IExpr,
    /// Whether the body holds self tail calls.
    pub tail_recursive: bool,
    pub lam_sig: Option<LamSig>,
}

} // verus!
