//! GBNF grammar export for Aria.
//!
//! GBNF is the grammar format of llama.cpp and similar local stacks. A model whose
//! decoding is constrained by this grammar cannot emit a syntax error.
//!
//! The operator precedence is a layered rule chain,
//!
//!   expr -> or-expr -> and-expr -> cmp-expr -> add-expr
//!        -> mul-expr -> unary -> app -> atom
//!
//! and `ws` (white space and `--` line comments) is threaded between tokens.

use vstd::prelude::*;
use vstd::string::*;

pub mod laws;

verus! {

// ---------------------------------------------------------------------------
// The rules for programs and their items.
// ---------------------------------------------------------------------------

/// The rule `root`, word by word.
pub const ROOT: [&'static str; 11] = [
    "root", "::=", "ws", "item", "(", "ws", "item", ")*", "ws", "|", "ws",
];

/// The rule `item`, word by word.
pub const ITEM: [&'static str; 9] = [
    "item", "::=", "fn-decl", "|", "type-decl", "|", "interface-decl", "|", "impl-decl",
];

/// The rule `fn-decl`, word by word.
pub const FN_DECL: [&'static str; 25] = [
    "fn-decl", "::=", "(", "\"pure\"", "ws", ")?", "\"fn\"", "ws", "lower-ident", "ws",
    "bound-params?", "ws", "\"(\"", "ws", "params?", "ws", "\")\"", "ws", "\"->\"", "ws", "type",
    "ws", "\"=\"", "ws", "expr",
];

/// The rule `interface-decl`, word by word.
pub const INTERFACE_DECL: [&'static str; 23] = [
    "interface-decl", "::=", "\"interface\"", "ws", "upper-ident", "ws", "type-params", "ws",
    "\"{\"", "ws", "method-sig", "(", "ws", "\",\"?", "ws", "method-sig", ")*", "(", "ws", "\",\"",
    ")?", "ws", "\"}\"",
];

/// The rule `method-sig`, word by word.
pub const METHOD_SIG: [&'static str; 15] = [
    "method-sig", "::=", "\"fn\"", "ws", "lower-ident", "ws", "\"(\"", "ws", "params?", "ws",
    "\")\"", "ws", "\"->\"", "ws", "type",
];

/// The rule `impl-decl`, word by word.
pub const IMPL_DECL: [&'static str; 25] = [
    "impl-decl", "::=", "\"impl\"", "ws", "upper-ident", "ws", "\"for\"", "ws", "upper-ident", "ws",
    "\"{\"", "ws", "fn-decl", "(", "ws", "\",\"?", "ws", "fn-decl", ")*", "(", "ws", "\",\"", ")?",
    "ws", "\"}\"",
];

/// The rule `bound-params`, word by word.
pub const BOUND_PARAMS: [&'static str; 13] = [
    "bound-params", "::=", "\"[\"", "ws", "bound-param", "(", "ws", "\",\"", "ws", "bound-param",
    ")*", "ws", "\"]\"",
];

/// The rule `bound-param`, word by word.
pub const BOUND_PARAM: [&'static str; 9] = [
    "bound-param", "::=", "ident", "(", "ws", "\":\"", "ws", "upper-ident", ")?",
];

/// The rule `type-decl`, word by word.
pub const TYPE_DECL: [&'static str; 15] = [
    "type-decl", "::=", "\"type\"", "ws", "upper-ident", "ws", "type-params?", "ws", "\"=\"", "ws",
    "(", "record-body", "|", "sum-body", ")",
];

/// The rule `sum-body`, word by word.
pub const SUM_BODY: [&'static str; 11] = [
    "sum-body", "::=", "\"|\"", "ws", "variant", "(", "ws", "\"|\"", "ws", "variant", ")*",
];

/// The rule `record-body`, word by word.
pub const RECORD_BODY: [&'static str; 15] = [
    "record-body", "::=", "\"{\"", "ws", "(", "field-decl", "(", "ws", "\",\"", "ws", "field-decl",
    ")*", "ws", ")?", "\"}\"",
];

/// The rule `field-decl`, word by word.
pub const FIELD_DECL: [&'static str; 7] = [
    "field-decl", "::=", "lower-ident", "ws", "\":\"", "ws", "type",
];

/// The rule `variant`, word by word.
pub const VARIANT: [&'static str; 17] = [
    "variant", "::=", "upper-ident", "(", "ws", "\"(\"", "ws", "type", "(", "ws", "\",\"", "ws",
    "type", ")*", "ws", "\")\"", ")?",
];

/// The rule `type-params`, word by word.
pub const TYPE_PARAMS: [&'static str; 13] = [
    "type-params", "::=", "\"[\"", "ws", "ident", "(", "ws", "\",\"", "ws", "ident", ")*", "ws",
    "\"]\"",
];

/// The rule `params`, word by word.
pub const PARAMS: [&'static str; 9] = [
    "params", "::=", "param", "(", "ws", "\",\"", "ws", "param", ")*",
];

/// The rule `param`, word by word.
pub const PARAM: [&'static str; 7] = [
    "param", "::=", "lower-ident", "ws", "\":\"", "ws", "type",
];

/// The rules for programs and their items.
pub open spec fn program_rules() -> Seq<Seq<&'static str>> {
    seq![
        ROOT@, ITEM@, FN_DECL@, INTERFACE_DECL@, METHOD_SIG@, IMPL_DECL@, BOUND_PARAMS@,
        BOUND_PARAM@, TYPE_DECL@, SUM_BODY@, RECORD_BODY@, FIELD_DECL@, VARIANT@, TYPE_PARAMS@,
        PARAMS@, PARAM@,
    ]
}

// ---------------------------------------------------------------------------
// The rules for types.
// ---------------------------------------------------------------------------

/// The rule `type`, word by word.
pub const TYPE: [&'static str; 5] = [
    "type", "::=", "fn-type", "|", "named-type",
];

/// The rule `fn-type`, word by word.
pub const FN_TYPE: [&'static str; 19] = [
    "fn-type", "::=", "\"(\"", "ws", "(", "type", "(", "ws", "\",\"", "ws", "type", ")*", "ws",
    ")?", "\")\"", "ws", "\"->\"", "ws", "type",
];

/// The rule `named-type`, word by word.
pub const NAMED_TYPE: [&'static str; 17] = [
    "named-type", "::=", "ident", "(", "ws", "\"[\"", "ws", "type", "(", "ws", "\",\"", "ws",
    "type", ")*", "ws", "\"]\"", ")?",
];

/// The rules for types.
pub open spec fn type_rules() -> Seq<Seq<&'static str>> {
    seq![
        TYPE@, FN_TYPE@, NAMED_TYPE@,
    ]
}

// ---------------------------------------------------------------------------
// The rules for expressions, one per level of precedence.
// ---------------------------------------------------------------------------

/// The rule `expr`, word by word.
pub const EXPR: [&'static str; 3] = [
    "expr", "::=", "or-expr",
];

/// The rule `or-expr`, word by word.
pub const OR_EXPR: [&'static str; 9] = [
    "or-expr", "::=", "and-expr", "(", "ws", "\"||\"", "ws", "and-expr", ")*",
];

/// The rule `and-expr`, word by word.
pub const AND_EXPR: [&'static str; 9] = [
    "and-expr", "::=", "cmp-expr", "(", "ws", "\"&&\"", "ws", "cmp-expr", ")*",
];

/// The rule `cmp-expr`, word by word.
pub const CMP_EXPR: [&'static str; 9] = [
    "cmp-expr", "::=", "add-expr", "(", "ws", "cmp-op", "ws", "add-expr", ")*",
];

/// The rule `cmp-op`, word by word.
pub const CMP_OP: [&'static str; 13] = [
    "cmp-op", "::=", "\"==\"", "|", "\"!=\"", "|", "\"<=\"", "|", "\">=\"", "|", "\"<\"", "|",
    "\">\"",
];

/// The rule `add-expr`, word by word.
pub const ADD_EXPR: [&'static str; 9] = [
    "add-expr", "::=", "mul-expr", "(", "ws", "add-op", "ws", "mul-expr", ")*",
];

/// The rule `add-op`, word by word.
pub const ADD_OP: [&'static str; 5] = [
    "add-op", "::=", "\"+\"", "|", "\"-\"",
];

/// The rule `mul-expr`, word by word.
pub const MUL_EXPR: [&'static str; 9] = [
    "mul-expr", "::=", "unary-expr", "(", "ws", "mul-op", "ws", "unary-expr", ")*",
];

/// The rule `mul-op`, word by word.
pub const MUL_OP: [&'static str; 7] = [
    "mul-op", "::=", "\"*\"", "|", "\"/\"", "|", "\"%\"",
];

/// The rule `unary-expr`, word by word.
pub const UNARY_EXPR: [&'static str; 13] = [
    "unary-expr", "::=", "\"-\"", "ws", "unary-expr", "|", "\"!\"", "ws", "unary-expr", "|",
    "lambda", "|", "app-expr",
];

/// The rule `lambda`, word by word.
pub const LAMBDA: [&'static str; 9] = [
    "lambda", "::=", "\"\\\\\"", "ws", "lambda-params", "ws", "\"->\"", "ws", "expr",
];

/// The rule `lambda-params`, word by word.
pub const LAMBDA_PARAMS: [&'static str; 17] = [
    "lambda-params", "::=", "\"(\"", "ws", "(", "param", "(", "ws", "\",\"", "ws", "param", ")*",
    "ws", ")?", "\")\"", "|", "lower-ident",
];

/// The rule `app-expr`, word by word.
pub const APP_EXPR: [&'static str; 23] = [
    "app-expr", "::=", "atom", "(", "ws", "\"(\"", "ws", "args?", "ws", "\")\"", "|", "ws", "\"[\"",
    "ws", "expr", "ws", "\"]\"", "|", "ws", "\".\"", "ws", "lower-ident", ")*",
];

/// The rule `args`, word by word.
pub const ARGS: [&'static str; 9] = [
    "args", "::=", "expr", "(", "ws", "\",\"", "ws", "expr", ")*",
];

/// The rules for expressions, one per level of precedence.
pub open spec fn expression_rules() -> Seq<Seq<&'static str>> {
    seq![
        EXPR@, OR_EXPR@, AND_EXPR@, CMP_EXPR@, CMP_OP@, ADD_EXPR@, ADD_OP@, MUL_EXPR@, MUL_OP@,
        UNARY_EXPR@, LAMBDA@, LAMBDA_PARAMS@, APP_EXPR@, ARGS@,
    ]
}

// ---------------------------------------------------------------------------
// The rules for atoms.
// ---------------------------------------------------------------------------

/// The rule `atom`, word by word.
pub const ATOM: [&'static str; 21] = [
    "atom", "::=", "if-expr", "|", "match-expr", "|", "update-expr", "|", "block", "|",
    "paren-expr", "|", "array-lit", "|", "record-lit", "|", "literal", "|", "ctor-expr", "|",
    "call-or-var",
];

/// The rule `array-lit`, word by word.
pub const ARRAY_LIT: [&'static str; 15] = [
    "array-lit", "::=", "\"[\"", "ws", "(", "expr", "(", "ws", "\",\"", "ws", "expr", ")*", "ws",
    ")?", "\"]\"",
];

/// The rule `record-lit`, word by word.
pub const RECORD_LIT: [&'static str; 17] = [
    "record-lit", "::=", "upper-ident", "ws", "\"{\"", "ws", "(", "field-init", "(", "ws", "\",\"",
    "ws", "field-init", ")*", "ws", ")?", "\"}\"",
];

/// The rule `field-init`, word by word.
pub const FIELD_INIT: [&'static str; 7] = [
    "field-init", "::=", "lower-ident", "ws", "\":\"", "ws", "expr",
];

/// The rule `update-expr`, word by word.
pub const UPDATE_EXPR: [&'static str; 17] = [
    "update-expr", "::=", "\"{\"", "ws", "expr", "ws", "\"|\"", "ws", "field-set", "(", "ws",
    "\",\"", "ws", "field-set", ")*", "ws", "\"}\"",
];

/// The rule `field-set`, word by word.
pub const FIELD_SET: [&'static str; 7] = [
    "field-set", "::=", "lower-ident", "ws", "\"=\"", "ws", "expr",
];

/// The rule `paren-expr`, word by word.
pub const PAREN_EXPR: [&'static str; 7] = [
    "paren-expr", "::=", "\"(\"", "ws", "expr", "ws", "\")\"",
];

/// The rule `if-expr`, word by word.
pub const IF_EXPR: [&'static str; 11] = [
    "if-expr", "::=", "\"if\"", "ws", "expr", "ws", "block", "ws", "\"else\"", "ws", "block",
];

/// The rule `match-expr`, word by word.
pub const MATCH_EXPR: [&'static str; 21] = [
    "match-expr", "::=", "\"match\"", "ws", "expr", "ws", "\"{\"", "ws", "arm", "(", "ws", "\",\"",
    "ws", "arm", ")*", "(", "ws", "\",\"", ")?", "ws", "\"}\"",
];

/// The rule `arm`, word by word.
pub const ARM: [&'static str; 7] = [
    "arm", "::=", "pattern", "ws", "\"=>\"", "ws", "expr",
];

/// The rule `block`, word by word.
pub const BLOCK: [&'static str; 13] = [
    "block", "::=", "\"{\"", "ws", "(", "stmt", "ws", ")*", "(", "expr", "ws", ")?", "\"}\"",
];

/// The rule `stmt`, word by word.
pub const STMT: [&'static str; 7] = [
    "stmt", "::=", "let-stmt", "|", "expr", "ws", "\";\"",
];

/// The rule `let-stmt`, word by word.
pub const LET_STMT: [&'static str; 17] = [
    "let-stmt", "::=", "\"let\"", "ws", "lower-ident", "ws", "(", "\":\"", "ws", "type", "ws", ")?",
    "\"=\"", "ws", "expr", "ws", "\";\"",
];

/// The rule `ctor-expr`, word by word.
pub const CTOR_EXPR: [&'static str; 11] = [
    "ctor-expr", "::=", "upper-ident", "(", "ws", "\"(\"", "ws", "args?", "ws", "\")\"", ")?",
];

/// The rule `call-or-var`, word by word.
pub const CALL_OR_VAR: [&'static str; 11] = [
    "call-or-var", "::=", "lower-ident", "(", "ws", "\"(\"", "ws", "args?", "ws", "\")\"", ")?",
];

/// The rules for atoms.
pub open spec fn atom_rules() -> Seq<Seq<&'static str>> {
    seq![
        ATOM@, ARRAY_LIT@, RECORD_LIT@, FIELD_INIT@, UPDATE_EXPR@, FIELD_SET@, PAREN_EXPR@,
        IF_EXPR@, MATCH_EXPR@, ARM@, BLOCK@, STMT@, LET_STMT@, CTOR_EXPR@, CALL_OR_VAR@,
    ]
}

// ---------------------------------------------------------------------------
// The rules for patterns.
// ---------------------------------------------------------------------------

/// The rule `pattern`, word by word.
pub const PATTERN: [&'static str; 13] = [
    "pattern", "::=", "\"_\"", "|", "int", "|", "bool", "|", "record-pattern", "|", "ctor-pattern",
    "|", "lower-ident",
];

/// The rule `ctor-pattern`, word by word.
pub const CTOR_PATTERN: [&'static str; 17] = [
    "ctor-pattern", "::=", "upper-ident", "(", "ws", "\"(\"", "ws", "pattern", "(", "ws", "\",\"",
    "ws", "pattern", ")*", "ws", "\")\"", ")?",
];

/// The rule `record-pattern`, word by word.
pub const RECORD_PATTERN: [&'static str; 17] = [
    "record-pattern", "::=", "upper-ident", "ws", "\"{\"", "ws", "(", "field-pat", "(", "ws",
    "\",\"", "ws", "field-pat", ")*", "ws", ")?", "\"}\"",
];

/// The rule `field-pat`, word by word.
pub const FIELD_PAT: [&'static str; 9] = [
    "field-pat", "::=", "lower-ident", "(", "ws", "\":\"", "ws", "pattern", ")?",
];

/// The rules for patterns.
pub open spec fn pattern_rules() -> Seq<Seq<&'static str>> {
    seq![
        PATTERN@, CTOR_PATTERN@, RECORD_PATTERN@, FIELD_PAT@,
    ]
}

// ---------------------------------------------------------------------------
// The rules for literals.
// ---------------------------------------------------------------------------

/// The rule `literal`, word by word.
pub const LITERAL: [&'static str; 9] = [
    "literal", "::=", "float", "|", "int", "|", "string", "|", "bool",
];

/// The rule `bool`, word by word.
pub const BOOL: [&'static str; 5] = [
    "bool", "::=", "\"true\"", "|", "\"false\"",
];

/// The rule `float`, word by word.
pub const FLOAT: [&'static str; 5] = [
    "float", "::=", "digit+", "\".\"", "digit+",
];

/// The rule `int`, word by word.
pub const INT: [&'static str; 3] = [
    "int", "::=", "digit+",
];

/// The rule `string`, word by word.
pub const STRING: [&'static str; 5] = [
    "string", "::=", "\"\\\"\"", "str-char*", "\"\\\"\"",
];

/// The rule `str-char`, word by word.
pub const STR_CHAR: [&'static str; 6] = [
    "str-char", "::=", "[^\"\\\\]", "|", "\"\\\\\"", "[nt\\\\\"]",
];

/// The rules for literals.
pub open spec fn literal_rules() -> Seq<Seq<&'static str>> {
    seq![
        LITERAL@, BOOL@, FLOAT@, INT@, STRING@, STR_CHAR@,
    ]
}

// ---------------------------------------------------------------------------
// The rules for identifiers; the case of the first letter is significant.
// ---------------------------------------------------------------------------

/// The rule `ident`, word by word.
pub const IDENT: [&'static str; 4] = [
    "ident", "::=", "[A-Za-z_]", "[A-Za-z0-9_]*",
];

/// The rule `lower-ident`, word by word.
pub const LOWER_IDENT: [&'static str; 4] = [
    "lower-ident", "::=", "[a-z_]", "[A-Za-z0-9_]*",
];

/// The rule `upper-ident`, word by word.
pub const UPPER_IDENT: [&'static str; 4] = [
    "upper-ident", "::=", "[A-Z]", "[A-Za-z0-9_]*",
];

/// The rule `digit`, word by word.
pub const DIGIT: [&'static str; 3] = [
    "digit", "::=", "[0-9]",
];

/// The rules for identifiers.
pub open spec fn identifier_rules() -> Seq<Seq<&'static str>> {
    seq![
        IDENT@, LOWER_IDENT@, UPPER_IDENT@, DIGIT@,
    ]
}

// ---------------------------------------------------------------------------
// The rules for white space and comments.
// ---------------------------------------------------------------------------

/// The rule `ws`, word by word.
pub const WS: [&'static str; 7] = [
    "ws", "::=", "(", "[ \\t\\r\\n]", "|", "comment", ")*",
];

/// The rule `comment`, word by word.
pub const COMMENT: [&'static str; 4] = [
    "comment", "::=", "\"--\"", "[^\\n]*",
];

/// The rules for white space and comments.
pub open spec fn spacing_rules() -> Seq<Seq<&'static str>> {
    seq![
        WS@, COMMENT@,
    ]
}

// ---------------------------------------------------------------------------
// The grammar
// ---------------------------------------------------------------------------

/// The rules of the grammar, each as its words: the name, `::=`, and the body.
pub open spec fn rules() -> Seq<Seq<&'static str>> {
    program_rules() + type_rules() + expression_rules() + atom_rules() + pattern_rules()
        + literal_rules() + identifier_rules() + spacing_rules()
}

/// The first `n` words behind what stands before, with a blank between two.
pub open spec fn with_words(out: Seq<char>, words: Seq<&'static str>, n: nat) -> Seq<char>
    decreases n,
{
    if n == 0 || n > words.len() {
        out
    } else if n == 1 {
        out + words[0]@
    } else {
        with_words(out, words, (n - 1) as nat) + " "@ + words[n - 1]@
    }
}

/// The first `n` rules behind what stands before, each on a line of its own.
pub open spec fn with_rules(out: Seq<char>, rules: Seq<Seq<&'static str>>, n: nat) -> Seq<char>
    decreases n,
{
    if n == 0 || n > rules.len() {
        out
    } else {
        with_words(with_rules(out, rules, (n - 1) as nat), rules[n - 1], rules[n - 1].len())
            + "\n"@
    }
}

/// The grammar.
pub open spec fn grammar_text() -> Seq<char> {
    with_rules(Seq::empty(), rules(), rules().len())
}

fn put_rule(out: &mut String, words: &[&'static str])
    ensures
        final(out)@ == with_words(old(out)@, words@, words@.len()) + "\n"@,
{
    let ghost start = out@;
    let mut i: usize = 0;
    while i < words.len()
        invariant
            i <= words@.len(),
            out@ == with_words(start, words@, i as nat),
        decreases words@.len() - i,
    {
        if i > 0 {
            out.append(" ");
        }
        out.append(words[i]);
        i = i + 1;
    }
    out.append("\n");
}

fn put_program_rules(out: &mut String)
    ensures
        final(out)@ == with_rules(old(out)@, program_rules(), program_rules().len()),
{
    proof {
        reveal_with_fuel(with_rules, 17);
    }
    put_rule(out, &ROOT);
    put_rule(out, &ITEM);
    put_rule(out, &FN_DECL);
    put_rule(out, &INTERFACE_DECL);
    put_rule(out, &METHOD_SIG);
    put_rule(out, &IMPL_DECL);
    put_rule(out, &BOUND_PARAMS);
    put_rule(out, &BOUND_PARAM);
    put_rule(out, &TYPE_DECL);
    put_rule(out, &SUM_BODY);
    put_rule(out, &RECORD_BODY);
    put_rule(out, &FIELD_DECL);
    put_rule(out, &VARIANT);
    put_rule(out, &TYPE_PARAMS);
    put_rule(out, &PARAMS);
    put_rule(out, &PARAM);
}

fn put_type_rules(out: &mut String)
    ensures
        final(out)@ == with_rules(old(out)@, type_rules(), type_rules().len()),
{
    proof {
        reveal_with_fuel(with_rules, 4);
    }
    put_rule(out, &TYPE);
    put_rule(out, &FN_TYPE);
    put_rule(out, &NAMED_TYPE);
}

fn put_expression_rules(out: &mut String)
    ensures
        final(out)@ == with_rules(old(out)@, expression_rules(), expression_rules().len()),
{
    proof {
        reveal_with_fuel(with_rules, 15);
    }
    put_rule(out, &EXPR);
    put_rule(out, &OR_EXPR);
    put_rule(out, &AND_EXPR);
    put_rule(out, &CMP_EXPR);
    put_rule(out, &CMP_OP);
    put_rule(out, &ADD_EXPR);
    put_rule(out, &ADD_OP);
    put_rule(out, &MUL_EXPR);
    put_rule(out, &MUL_OP);
    put_rule(out, &UNARY_EXPR);
    put_rule(out, &LAMBDA);
    put_rule(out, &LAMBDA_PARAMS);
    put_rule(out, &APP_EXPR);
    put_rule(out, &ARGS);
}

fn put_atom_rules(out: &mut String)
    ensures
        final(out)@ == with_rules(old(out)@, atom_rules(), atom_rules().len()),
{
    proof {
        reveal_with_fuel(with_rules, 16);
    }
    put_rule(out, &ATOM);
    put_rule(out, &ARRAY_LIT);
    put_rule(out, &RECORD_LIT);
    put_rule(out, &FIELD_INIT);
    put_rule(out, &UPDATE_EXPR);
    put_rule(out, &FIELD_SET);
    put_rule(out, &PAREN_EXPR);
    put_rule(out, &IF_EXPR);
    put_rule(out, &MATCH_EXPR);
    put_rule(out, &ARM);
    put_rule(out, &BLOCK);
    put_rule(out, &STMT);
    put_rule(out, &LET_STMT);
    put_rule(out, &CTOR_EXPR);
    put_rule(out, &CALL_OR_VAR);
}

fn put_pattern_rules(out: &mut String)
    ensures
        final(out)@ == with_rules(old(out)@, pattern_rules(), pattern_rules().len()),
{
    proof {
        reveal_with_fuel(with_rules, 5);
    }
    put_rule(out, &PATTERN);
    put_rule(out, &CTOR_PATTERN);
    put_rule(out, &RECORD_PATTERN);
    put_rule(out, &FIELD_PAT);
}

fn put_literal_rules(out: &mut String)
    ensures
        final(out)@ == with_rules(old(out)@, literal_rules(), literal_rules().len()),
{
    proof {
        reveal_with_fuel(with_rules, 7);
    }
    put_rule(out, &LITERAL);
    put_rule(out, &BOOL);
    put_rule(out, &FLOAT);
    put_rule(out, &INT);
    put_rule(out, &STRING);
    put_rule(out, &STR_CHAR);
}

fn put_identifier_rules(out: &mut String)
    ensures
        final(out)@ == with_rules(old(out)@, identifier_rules(), identifier_rules().len()),
{
    proof {
        reveal_with_fuel(with_rules, 5);
    }
    put_rule(out, &IDENT);
    put_rule(out, &LOWER_IDENT);
    put_rule(out, &UPPER_IDENT);
    put_rule(out, &DIGIT);
}

fn put_spacing_rules(out: &mut String)
    ensures
        final(out)@ == with_rules(old(out)@, spacing_rules(), spacing_rules().len()),
{
    proof {
        reveal_with_fuel(with_rules, 3);
    }
    put_rule(out, &WS);
    put_rule(out, &COMMENT);
}

/// Rules are written group by group.
proof fn lemma_groups(out: Seq<char>, a: Seq<Seq<&'static str>>, b: Seq<Seq<&'static str>>, n: nat)
    requires
        n <= b.len(),
    ensures
        with_rules(out, a + b, a.len() + n) == with_rules(with_rules(out, a, a.len()), b, n),
    decreases n,
{
    if n > 0 {
        lemma_groups(out, a, b, (n - 1) as nat);
        assert((a + b)[a.len() + n - 1] == b[n - 1]);
    } else {
        lemma_prefix(out, a, b, a.len());
    }
}

proof fn lemma_prefix(out: Seq<char>, a: Seq<Seq<&'static str>>, b: Seq<Seq<&'static str>>, n: nat)
    requires
        n <= a.len(),
    ensures
        with_rules(out, a + b, n) == with_rules(out, a, n),
    decreases n,
{
    if n > 0 {
        lemma_prefix(out, a, b, (n - 1) as nat);
        assert((a + b)[n - 1] == a[n - 1]);
    }
}

/// The Aria grammar in GBNF, one rule a line, ready to feed to llama.cpp.
pub fn grammar() -> (r: String)
    ensures
        r@ == grammar_text(),
{
    let mut out: String = String::new();
    assert(out@ =~= Seq::<char>::empty());
    put_program_rules(&mut out);
    put_type_rules(&mut out);
    put_expression_rules(&mut out);
    put_atom_rules(&mut out);
    put_pattern_rules(&mut out);
    put_literal_rules(&mut out);
    put_identifier_rules(&mut out);
    put_spacing_rules(&mut out);
    proof {
        let s0 = program_rules();
        let s1 = s0 + type_rules();
        lemma_groups(Seq::empty(), s0, type_rules(), type_rules().len());
        let s2 = s1 + expression_rules();
        lemma_groups(Seq::empty(), s1, expression_rules(), expression_rules().len());
        let s3 = s2 + atom_rules();
        lemma_groups(Seq::empty(), s2, atom_rules(), atom_rules().len());
        let s4 = s3 + pattern_rules();
        lemma_groups(Seq::empty(), s3, pattern_rules(), pattern_rules().len());
        let s5 = s4 + literal_rules();
        lemma_groups(Seq::empty(), s4, literal_rules(), literal_rules().len());
        let s6 = s5 + identifier_rules();
        lemma_groups(Seq::empty(), s5, identifier_rules(), identifier_rules().len());
        let s7 = s6 + spacing_rules();
        lemma_groups(Seq::empty(), s6, spacing_rules(), spacing_rules().len());
    }
    out
}

} // verus!
