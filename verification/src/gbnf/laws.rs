//! What holds of the grammar as a whole.

use vstd::prelude::*;
use vstd::string::*;

use crate::gbnf::{
    atom_rules, expression_rules, identifier_rules, literal_rules, pattern_rules, program_rules,
    rules, spacing_rules, type_rules, ADD_EXPR, ADD_OP, AND_EXPR, APP_EXPR, ARGS, ARM, ARRAY_LIT,
    ATOM, BLOCK, BOOL, BOUND_PARAM, BOUND_PARAMS, CALL_OR_VAR, CMP_EXPR, CMP_OP, COMMENT, CTOR_EXPR,
    CTOR_PATTERN, DIGIT, EXPR, FIELD_DECL, FIELD_INIT, FIELD_PAT, FIELD_SET, FLOAT, FN_DECL,
    FN_TYPE, IDENT, IF_EXPR, IMPL_DECL, INT, INTERFACE_DECL, ITEM, LAMBDA, LAMBDA_PARAMS, LET_STMT,
    LITERAL, LOWER_IDENT, MATCH_EXPR, METHOD_SIG, MUL_EXPR, MUL_OP, NAMED_TYPE, OR_EXPR, PARAM,
    PARAMS, PAREN_EXPR, PATTERN, RECORD_BODY, RECORD_LIT, RECORD_PATTERN, ROOT, STMT, STRING,
    STR_CHAR, SUM_BODY, TYPE, TYPE_DECL, TYPE_PARAMS, UNARY_EXPR, UPDATE_EXPR, UPPER_IDENT, VARIANT,
    WS,
};

verus! {

/// The name that a rule defines.
pub open spec fn rule_name(rule: Seq<&'static str>) -> Seq<char> {
    rule[0]@
}

/// Whether the grammar has a rule of the name.
pub open spec fn defined(name: Seq<char>) -> bool {
    exists|j: int| 0 <= j < rules().len() && rule_name(#[trigger] rules()[j]) == name
}

/// A word without the mark that it is optional or repeated.
pub open spec fn bare(word: Seq<char>) -> Seq<char> {
    if word.len() > 1 && (word.last() == '?' || word.last() == '*' || word.last() == '+') {
        word.drop_last()
    } else {
        word
    }
}

/// Whether a word is a quoted text or a class of characters.
pub open spec fn is_terminal(word: Seq<char>) -> bool {
    let w = bare(word);
    w.len() > 1 && (w[0] == '"' && w.last() == '"' || w[0] == '[' && w.last() == ']')
}

/// Whether a word groups others or parts alternatives.
pub open spec fn is_operator(word: Seq<char>) -> bool {
    bare(word) == "("@ || bare(word) == ")"@ || word == "|"@
}

/// Whether a word refers to a rule of the grammar.
pub open spec fn is_reference(word: Seq<char>) -> bool {
    'a' <= word[0] <= 'z' && defined(bare(word))
}

/// Whether a rule is a name, `::=` and a body of words that all mean something.
pub open spec fn is_rule(rule: Seq<&'static str>) -> bool {
    &&& rule.len() > 2
    &&& rule[1]@ == "::="@
    &&& forall|k: int| 2 <= k < rule.len() ==> is_word(#[trigger] rule[k]@)
}

/// Whether a word of a body means something.
pub open spec fn is_word(word: Seq<char>) -> bool {
    is_terminal(word) || is_operator(word) || is_reference(word)
}

/// The place of a rule in the grammar, by the letters that tell its name apart.
spec fn place(s: Seq<char>) -> int {
    if s.len() == 2 {
        62
    } else if s.len() == 3 {
        if s[0] == 'a' {
            42
        } else {
            55
        }
    } else if s.len() == 4 {
        if s[0] == 'r' {
            0
        } else if s[0] == 'i' {
            1
        } else if s[0] == 't' {
            16
        } else if s[0] == 'e' {
            19
        } else if s[0] == 'a' {
            if s[1] == 'r' {
                32
            } else {
                33
            }
        } else if s[0] == 's' {
            44
        } else {
            53
        }
    } else if s.len() == 5 {
        if s[0] == 'p' {
            15
        } else if s[0] == 'b' {
            43
        } else if s[0] == 'f' {
            54
        } else if s[0] == 'i' {
            58
        } else {
            61
        }
    } else if s.len() == 6 {
        if s[0] == 'p' {
            14
        } else if s[0] == 'c' {
            23
        } else if s[0] == 'a' {
            25
        } else if s[0] == 'm' {
            27
        } else if s[0] == 'l' {
            29
        } else {
            56
        }
    } else if s.len() == 7 {
        if s[0] == 'f' {
            if s[3] == 'd' {
                2
            } else {
                17
            }
        } else if s[0] == 'v' {
            12
        } else if s[0] == 'o' {
            20
        } else if s[0] == 'i' {
            40
        } else if s[0] == 'p' {
            48
        } else if s[0] == 'l' {
            52
        } else {
            63
        }
    } else if s.len() == 8 {
        if s[1] == 'u' {
            if s[0] == 's' {
                9
            } else {
                26
            }
        } else if s[1] == 'n' {
            21
        } else if s[1] == 'm' {
            22
        } else if s[1] == 'd' {
            24
        } else if s[1] == 'p' {
            31
        } else if s[1] == 'e' {
            45
        } else {
            57
        }
    } else if s.len() == 9 {
        if s[0] == 'i' {
            5
        } else if s[0] == 't' {
            8
        } else if s[0] == 'a' {
            34
        } else if s[0] == 'f' {
            if s[6] == 's' {
                38
            } else {
                51
            }
        } else {
            46
        }
    } else if s.len() == 10 {
        if s[0] == 'm' {
            if s[1] == 'e' {
                4
            } else {
                41
            }
        } else if s[0] == 'f' {
            if s[6] == 'd' {
                11
            } else {
                36
            }
        } else if s[0] == 'n' {
            18
        } else if s[0] == 'u' {
            28
        } else if s[0] == 'r' {
            35
        } else {
            39
        }
    } else if s.len() == 11 {
        if s[0] == 'b' {
            7
        } else if s[0] == 'r' {
            10
        } else if s[0] == 't' {
            13
        } else if s[0] == 'u' {
            if s[2] == 'd' {
                37
            } else {
                60
            }
        } else if s[0] == 'c' {
            47
        } else {
            59
        }
    } else if s.len() == 12 {
        if s[0] == 'b' {
            6
        } else {
            49
        }
    } else if s.len() == 13 {
        30
    } else {
        if s[0] == 'i' {
            3
        } else {
            50
        }
    }
}

proof fn lemma_program_names()
    ensures
        program_rules().len() == 16,
        forall|k: int| 0 <= k < 16 ==> place(rule_name(#[trigger] program_rules()[k])) == 0 + k,
{
    reveal_strlit("root");
    reveal_strlit("item");
    reveal_strlit("fn-decl");
    reveal_strlit("interface-decl");
    reveal_strlit("method-sig");
    reveal_strlit("impl-decl");
    reveal_strlit("bound-params");
    reveal_strlit("bound-param");
    reveal_strlit("type-decl");
    reveal_strlit("sum-body");
    reveal_strlit("record-body");
    reveal_strlit("field-decl");
    reveal_strlit("variant");
    reveal_strlit("type-params");
    reveal_strlit("params");
    reveal_strlit("param");
    let rs = program_rules();
    assert(place(rule_name(rs[0])) == 0);
    assert(place(rule_name(rs[1])) == 1);
    assert(place(rule_name(rs[2])) == 2);
    assert(place(rule_name(rs[3])) == 3);
    assert(place(rule_name(rs[4])) == 4);
    assert(place(rule_name(rs[5])) == 5);
    assert(place(rule_name(rs[6])) == 6);
    assert(place(rule_name(rs[7])) == 7);
    assert(place(rule_name(rs[8])) == 8);
    assert(place(rule_name(rs[9])) == 9);
    assert(place(rule_name(rs[10])) == 10);
    assert(place(rule_name(rs[11])) == 11);
    assert(place(rule_name(rs[12])) == 12);
    assert(place(rule_name(rs[13])) == 13);
    assert(place(rule_name(rs[14])) == 14);
    assert(place(rule_name(rs[15])) == 15);
}

proof fn lemma_type_names()
    ensures
        type_rules().len() == 3,
        forall|k: int| 0 <= k < 3 ==> place(rule_name(#[trigger] type_rules()[k])) == 16 + k,
{
    reveal_strlit("type");
    reveal_strlit("fn-type");
    reveal_strlit("named-type");
    let rs = type_rules();
    assert(place(rule_name(rs[0])) == 16);
    assert(place(rule_name(rs[1])) == 17);
    assert(place(rule_name(rs[2])) == 18);
}

proof fn lemma_expression_names()
    ensures
        expression_rules().len() == 14,
        forall|k: int| 0 <= k < 14 ==> place(rule_name(#[trigger] expression_rules()[k])) == 19 + k,
{
    reveal_strlit("expr");
    reveal_strlit("or-expr");
    reveal_strlit("and-expr");
    reveal_strlit("cmp-expr");
    reveal_strlit("cmp-op");
    reveal_strlit("add-expr");
    reveal_strlit("add-op");
    reveal_strlit("mul-expr");
    reveal_strlit("mul-op");
    reveal_strlit("unary-expr");
    reveal_strlit("lambda");
    reveal_strlit("lambda-params");
    reveal_strlit("app-expr");
    reveal_strlit("args");
    let rs = expression_rules();
    assert(place(rule_name(rs[0])) == 19);
    assert(place(rule_name(rs[1])) == 20);
    assert(place(rule_name(rs[2])) == 21);
    assert(place(rule_name(rs[3])) == 22);
    assert(place(rule_name(rs[4])) == 23);
    assert(place(rule_name(rs[5])) == 24);
    assert(place(rule_name(rs[6])) == 25);
    assert(place(rule_name(rs[7])) == 26);
    assert(place(rule_name(rs[8])) == 27);
    assert(place(rule_name(rs[9])) == 28);
    assert(place(rule_name(rs[10])) == 29);
    assert(place(rule_name(rs[11])) == 30);
    assert(place(rule_name(rs[12])) == 31);
    assert(place(rule_name(rs[13])) == 32);
}

proof fn lemma_atom_names()
    ensures
        atom_rules().len() == 15,
        forall|k: int| 0 <= k < 15 ==> place(rule_name(#[trigger] atom_rules()[k])) == 33 + k,
{
    reveal_strlit("atom");
    reveal_strlit("array-lit");
    reveal_strlit("record-lit");
    reveal_strlit("field-init");
    reveal_strlit("update-expr");
    reveal_strlit("field-set");
    reveal_strlit("paren-expr");
    reveal_strlit("if-expr");
    reveal_strlit("match-expr");
    reveal_strlit("arm");
    reveal_strlit("block");
    reveal_strlit("stmt");
    reveal_strlit("let-stmt");
    reveal_strlit("ctor-expr");
    reveal_strlit("call-or-var");
    let rs = atom_rules();
    assert(place(rule_name(rs[0])) == 33);
    assert(place(rule_name(rs[1])) == 34);
    assert(place(rule_name(rs[2])) == 35);
    assert(place(rule_name(rs[3])) == 36);
    assert(place(rule_name(rs[4])) == 37);
    assert(place(rule_name(rs[5])) == 38);
    assert(place(rule_name(rs[6])) == 39);
    assert(place(rule_name(rs[7])) == 40);
    assert(place(rule_name(rs[8])) == 41);
    assert(place(rule_name(rs[9])) == 42);
    assert(place(rule_name(rs[10])) == 43);
    assert(place(rule_name(rs[11])) == 44);
    assert(place(rule_name(rs[12])) == 45);
    assert(place(rule_name(rs[13])) == 46);
    assert(place(rule_name(rs[14])) == 47);
}

proof fn lemma_pattern_names()
    ensures
        pattern_rules().len() == 4,
        forall|k: int| 0 <= k < 4 ==> place(rule_name(#[trigger] pattern_rules()[k])) == 48 + k,
{
    reveal_strlit("pattern");
    reveal_strlit("ctor-pattern");
    reveal_strlit("record-pattern");
    reveal_strlit("field-pat");
    let rs = pattern_rules();
    assert(place(rule_name(rs[0])) == 48);
    assert(place(rule_name(rs[1])) == 49);
    assert(place(rule_name(rs[2])) == 50);
    assert(place(rule_name(rs[3])) == 51);
}

proof fn lemma_literal_names()
    ensures
        literal_rules().len() == 6,
        forall|k: int| 0 <= k < 6 ==> place(rule_name(#[trigger] literal_rules()[k])) == 52 + k,
{
    reveal_strlit("literal");
    reveal_strlit("bool");
    reveal_strlit("float");
    reveal_strlit("int");
    reveal_strlit("string");
    reveal_strlit("str-char");
    let rs = literal_rules();
    assert(place(rule_name(rs[0])) == 52);
    assert(place(rule_name(rs[1])) == 53);
    assert(place(rule_name(rs[2])) == 54);
    assert(place(rule_name(rs[3])) == 55);
    assert(place(rule_name(rs[4])) == 56);
    assert(place(rule_name(rs[5])) == 57);
}

proof fn lemma_identifier_names()
    ensures
        identifier_rules().len() == 4,
        forall|k: int| 0 <= k < 4 ==> place(rule_name(#[trigger] identifier_rules()[k])) == 58 + k,
{
    reveal_strlit("ident");
    reveal_strlit("lower-ident");
    reveal_strlit("upper-ident");
    reveal_strlit("digit");
    let rs = identifier_rules();
    assert(place(rule_name(rs[0])) == 58);
    assert(place(rule_name(rs[1])) == 59);
    assert(place(rule_name(rs[2])) == 60);
    assert(place(rule_name(rs[3])) == 61);
}

proof fn lemma_spacing_names()
    ensures
        spacing_rules().len() == 2,
        forall|k: int| 0 <= k < 2 ==> place(rule_name(#[trigger] spacing_rules()[k])) == 62 + k,
{
    reveal_strlit("ws");
    reveal_strlit("comment");
    let rs = spacing_rules();
    assert(place(rule_name(rs[0])) == 62);
    assert(place(rule_name(rs[1])) == 63);
}

proof fn lemma_place(i: int)
    requires
        0 <= i < rules().len(),
    ensures
        place(rule_name(rules()[i])) == i,
{
    lemma_program_names();
    lemma_type_names();
    lemma_expression_names();
    lemma_atom_names();
    lemma_pattern_names();
    lemma_literal_names();
    lemma_identifier_names();
    lemma_spacing_names();
}

proof fn lemma_terminals()
    ensures
        is_word("\"pure\""@),
        is_word("\"fn\""@),
        is_word("\"(\""@),
        is_word("\")\""@),
        is_word("\"->\""@),
        is_word("\"=\""@),
        is_word("\"interface\""@),
        is_word("\"{\""@),
        is_word("\",\"?"@),
        is_word("\",\""@),
        is_word("\"}\""@),
        is_word("\"impl\""@),
        is_word("\"for\""@),
        is_word("\"[\""@),
        is_word("\"]\""@),
        is_word("\":\""@),
        is_word("\"type\""@),
        is_word("\"|\""@),
        is_word("\"||\""@),
        is_word("\"&&\""@),
        is_word("\"==\""@),
        is_word("\"!=\""@),
        is_word("\"<=\""@),
        is_word("\">=\""@),
        is_word("\"<\""@),
        is_word("\">\""@),
        is_word("\"+\""@),
        is_word("\"-\""@),
        is_word("\"*\""@),
        is_word("\"/\""@),
        is_word("\"%\""@),
        is_word("\"!\""@),
        is_word("\"\\\\\""@),
        is_word("\".\""@),
        is_word("\"if\""@),
        is_word("\"else\""@),
        is_word("\"match\""@),
        is_word("\"=>\""@),
        is_word("\";\""@),
        is_word("\"let\""@),
        is_word("\"_\""@),
        is_word("\"true\""@),
        is_word("\"false\""@),
        is_word("\"\\\"\""@),
        is_word("[^\"\\\\]"@),
        is_word("[nt\\\\\"]"@),
        is_word("[A-Za-z_]"@),
        is_word("[A-Za-z0-9_]*"@),
        is_word("[a-z_]"@),
        is_word("[A-Z]"@),
        is_word("[0-9]"@),
        is_word("[ \\t\\r\\n]"@),
        is_word("\"--\""@),
        is_word("[^\\n]*"@),
{
    reveal_strlit("\"pure\"");
    reveal_strlit("\"fn\"");
    reveal_strlit("\"(\"");
    reveal_strlit("\")\"");
    reveal_strlit("\"->\"");
    reveal_strlit("\"=\"");
    reveal_strlit("\"interface\"");
    reveal_strlit("\"{\"");
    reveal_strlit("\",\"?");
    reveal_strlit("\",\"");
    reveal_strlit("\"}\"");
    reveal_strlit("\"impl\"");
    reveal_strlit("\"for\"");
    reveal_strlit("\"[\"");
    reveal_strlit("\"]\"");
    reveal_strlit("\":\"");
    reveal_strlit("\"type\"");
    reveal_strlit("\"|\"");
    reveal_strlit("\"||\"");
    reveal_strlit("\"&&\"");
    reveal_strlit("\"==\"");
    reveal_strlit("\"!=\"");
    reveal_strlit("\"<=\"");
    reveal_strlit("\">=\"");
    reveal_strlit("\"<\"");
    reveal_strlit("\">\"");
    reveal_strlit("\"+\"");
    reveal_strlit("\"-\"");
    reveal_strlit("\"*\"");
    reveal_strlit("\"/\"");
    reveal_strlit("\"%\"");
    reveal_strlit("\"!\"");
    reveal_strlit("\"\\\\\"");
    reveal_strlit("\".\"");
    reveal_strlit("\"if\"");
    reveal_strlit("\"else\"");
    reveal_strlit("\"match\"");
    reveal_strlit("\"=>\"");
    reveal_strlit("\";\"");
    reveal_strlit("\"let\"");
    reveal_strlit("\"_\"");
    reveal_strlit("\"true\"");
    reveal_strlit("\"false\"");
    reveal_strlit("\"\\\"\"");
    reveal_strlit("[^\"\\\\]");
    reveal_strlit("[nt\\\\\"]");
    reveal_strlit("[A-Za-z_]");
    reveal_strlit("[A-Za-z0-9_]*");
    reveal_strlit("[a-z_]");
    reveal_strlit("[A-Z]");
    reveal_strlit("[0-9]");
    reveal_strlit("[ \\t\\r\\n]");
    reveal_strlit("\"--\"");
    reveal_strlit("[^\\n]*");
}

proof fn lemma_operators()
    ensures
        is_word("("@),
        is_word(")"@),
        is_word(")?"@),
        is_word(")*"@),
        is_word("|"@),
{
    reveal_strlit("(");
    reveal_strlit(")");
    reveal_strlit(")?");
    reveal_strlit(")*");
    reveal_strlit("|");
    assert(")?"@.drop_last() =~= ")"@);
    assert(")*"@.drop_last() =~= ")"@);
}

proof fn lemma_program_references()
    ensures
        is_word("item"@),
        is_word("fn-decl"@),
        is_word("type-decl"@),
        is_word("interface-decl"@),
        is_word("impl-decl"@),
        is_word("bound-params?"@),
        is_word("params?"@),
        is_word("type-params"@),
        is_word("method-sig"@),
        is_word("bound-param"@),
        is_word("type-params?"@),
        is_word("record-body"@),
        is_word("sum-body"@),
        is_word("variant"@),
        is_word("field-decl"@),
        is_word("param"@),
{
    lemma_program_names();
    lemma_type_names();
    lemma_expression_names();
    lemma_atom_names();
    lemma_pattern_names();
    lemma_literal_names();
    lemma_identifier_names();
    lemma_spacing_names();
    reveal_strlit("item");
    reveal_strlit("fn-decl");
    reveal_strlit("type-decl");
    reveal_strlit("interface-decl");
    reveal_strlit("impl-decl");
    reveal_strlit("bound-params?");
    reveal_strlit("bound-params");
    reveal_strlit("params?");
    reveal_strlit("params");
    reveal_strlit("type-params");
    reveal_strlit("method-sig");
    reveal_strlit("bound-param");
    reveal_strlit("type-params?");
    reveal_strlit("record-body");
    reveal_strlit("sum-body");
    reveal_strlit("variant");
    reveal_strlit("field-decl");
    reveal_strlit("param");
    let rs = rules();
    assert(rule_name(rs[1]) == "item"@);
    assert(rule_name(rs[2]) == "fn-decl"@);
    assert(rule_name(rs[8]) == "type-decl"@);
    assert(rule_name(rs[3]) == "interface-decl"@);
    assert(rule_name(rs[5]) == "impl-decl"@);
    assert(rule_name(rs[6]) == "bound-params"@);
    assert("bound-params?"@.drop_last() =~= "bound-params"@);
    assert(rule_name(rs[14]) == "params"@);
    assert("params?"@.drop_last() =~= "params"@);
    assert(rule_name(rs[13]) == "type-params"@);
    assert(rule_name(rs[4]) == "method-sig"@);
    assert(rule_name(rs[7]) == "bound-param"@);
    assert(rule_name(rs[13]) == "type-params"@);
    assert("type-params?"@.drop_last() =~= "type-params"@);
    assert(rule_name(rs[10]) == "record-body"@);
    assert(rule_name(rs[9]) == "sum-body"@);
    assert(rule_name(rs[12]) == "variant"@);
    assert(rule_name(rs[11]) == "field-decl"@);
    assert(rule_name(rs[15]) == "param"@);
}

proof fn lemma_type_references()
    ensures
        is_word("type"@),
        is_word("fn-type"@),
        is_word("named-type"@),
{
    lemma_program_names();
    lemma_type_names();
    lemma_expression_names();
    lemma_atom_names();
    lemma_pattern_names();
    lemma_literal_names();
    lemma_identifier_names();
    lemma_spacing_names();
    reveal_strlit("type");
    reveal_strlit("fn-type");
    reveal_strlit("named-type");
    let rs = rules();
    assert(rule_name(rs[16]) == "type"@);
    assert(rule_name(rs[17]) == "fn-type"@);
    assert(rule_name(rs[18]) == "named-type"@);
}

proof fn lemma_expression_references()
    ensures
        is_word("expr"@),
        is_word("or-expr"@),
        is_word("and-expr"@),
        is_word("cmp-expr"@),
        is_word("add-expr"@),
        is_word("cmp-op"@),
        is_word("mul-expr"@),
        is_word("add-op"@),
        is_word("unary-expr"@),
        is_word("mul-op"@),
        is_word("lambda"@),
        is_word("app-expr"@),
        is_word("lambda-params"@),
        is_word("args?"@),
{
    lemma_program_names();
    lemma_type_names();
    lemma_expression_names();
    lemma_atom_names();
    lemma_pattern_names();
    lemma_literal_names();
    lemma_identifier_names();
    lemma_spacing_names();
    reveal_strlit("expr");
    reveal_strlit("or-expr");
    reveal_strlit("and-expr");
    reveal_strlit("cmp-expr");
    reveal_strlit("add-expr");
    reveal_strlit("cmp-op");
    reveal_strlit("mul-expr");
    reveal_strlit("add-op");
    reveal_strlit("unary-expr");
    reveal_strlit("mul-op");
    reveal_strlit("lambda");
    reveal_strlit("app-expr");
    reveal_strlit("lambda-params");
    reveal_strlit("args?");
    reveal_strlit("args");
    let rs = rules();
    assert(rule_name(rs[19]) == "expr"@);
    assert(rule_name(rs[20]) == "or-expr"@);
    assert(rule_name(rs[21]) == "and-expr"@);
    assert(rule_name(rs[22]) == "cmp-expr"@);
    assert(rule_name(rs[24]) == "add-expr"@);
    assert(rule_name(rs[23]) == "cmp-op"@);
    assert(rule_name(rs[26]) == "mul-expr"@);
    assert(rule_name(rs[25]) == "add-op"@);
    assert(rule_name(rs[28]) == "unary-expr"@);
    assert(rule_name(rs[27]) == "mul-op"@);
    assert(rule_name(rs[29]) == "lambda"@);
    assert(rule_name(rs[31]) == "app-expr"@);
    assert(rule_name(rs[30]) == "lambda-params"@);
    assert(rule_name(rs[32]) == "args"@);
    assert("args?"@.drop_last() =~= "args"@);
}

proof fn lemma_atom_references()
    ensures
        is_word("atom"@),
        is_word("if-expr"@),
        is_word("match-expr"@),
        is_word("update-expr"@),
        is_word("block"@),
        is_word("paren-expr"@),
        is_word("array-lit"@),
        is_word("record-lit"@),
        is_word("ctor-expr"@),
        is_word("call-or-var"@),
        is_word("field-init"@),
        is_word("field-set"@),
        is_word("arm"@),
        is_word("stmt"@),
        is_word("let-stmt"@),
{
    lemma_program_names();
    lemma_type_names();
    lemma_expression_names();
    lemma_atom_names();
    lemma_pattern_names();
    lemma_literal_names();
    lemma_identifier_names();
    lemma_spacing_names();
    reveal_strlit("atom");
    reveal_strlit("if-expr");
    reveal_strlit("match-expr");
    reveal_strlit("update-expr");
    reveal_strlit("block");
    reveal_strlit("paren-expr");
    reveal_strlit("array-lit");
    reveal_strlit("record-lit");
    reveal_strlit("ctor-expr");
    reveal_strlit("call-or-var");
    reveal_strlit("field-init");
    reveal_strlit("field-set");
    reveal_strlit("arm");
    reveal_strlit("stmt");
    reveal_strlit("let-stmt");
    let rs = rules();
    assert(rule_name(rs[33]) == "atom"@);
    assert(rule_name(rs[40]) == "if-expr"@);
    assert(rule_name(rs[41]) == "match-expr"@);
    assert(rule_name(rs[37]) == "update-expr"@);
    assert(rule_name(rs[43]) == "block"@);
    assert(rule_name(rs[39]) == "paren-expr"@);
    assert(rule_name(rs[34]) == "array-lit"@);
    assert(rule_name(rs[35]) == "record-lit"@);
    assert(rule_name(rs[46]) == "ctor-expr"@);
    assert(rule_name(rs[47]) == "call-or-var"@);
    assert(rule_name(rs[36]) == "field-init"@);
    assert(rule_name(rs[38]) == "field-set"@);
    assert(rule_name(rs[42]) == "arm"@);
    assert(rule_name(rs[44]) == "stmt"@);
    assert(rule_name(rs[45]) == "let-stmt"@);
}

proof fn lemma_pattern_references()
    ensures
        is_word("pattern"@),
        is_word("record-pattern"@),
        is_word("ctor-pattern"@),
        is_word("field-pat"@),
{
    lemma_program_names();
    lemma_type_names();
    lemma_expression_names();
    lemma_atom_names();
    lemma_pattern_names();
    lemma_literal_names();
    lemma_identifier_names();
    lemma_spacing_names();
    reveal_strlit("pattern");
    reveal_strlit("record-pattern");
    reveal_strlit("ctor-pattern");
    reveal_strlit("field-pat");
    let rs = rules();
    assert(rule_name(rs[48]) == "pattern"@);
    assert(rule_name(rs[50]) == "record-pattern"@);
    assert(rule_name(rs[49]) == "ctor-pattern"@);
    assert(rule_name(rs[51]) == "field-pat"@);
}

proof fn lemma_literal_references()
    ensures
        is_word("literal"@),
        is_word("int"@),
        is_word("bool"@),
        is_word("float"@),
        is_word("string"@),
        is_word("str-char*"@),
{
    lemma_program_names();
    lemma_type_names();
    lemma_expression_names();
    lemma_atom_names();
    lemma_pattern_names();
    lemma_literal_names();
    lemma_identifier_names();
    lemma_spacing_names();
    reveal_strlit("literal");
    reveal_strlit("int");
    reveal_strlit("bool");
    reveal_strlit("float");
    reveal_strlit("string");
    reveal_strlit("str-char*");
    reveal_strlit("str-char");
    let rs = rules();
    assert(rule_name(rs[52]) == "literal"@);
    assert(rule_name(rs[55]) == "int"@);
    assert(rule_name(rs[53]) == "bool"@);
    assert(rule_name(rs[54]) == "float"@);
    assert(rule_name(rs[56]) == "string"@);
    assert(rule_name(rs[57]) == "str-char"@);
    assert("str-char*"@.drop_last() =~= "str-char"@);
}

proof fn lemma_identifier_references()
    ensures
        is_word("lower-ident"@),
        is_word("upper-ident"@),
        is_word("ident"@),
        is_word("digit+"@),
{
    lemma_program_names();
    lemma_type_names();
    lemma_expression_names();
    lemma_atom_names();
    lemma_pattern_names();
    lemma_literal_names();
    lemma_identifier_names();
    lemma_spacing_names();
    reveal_strlit("lower-ident");
    reveal_strlit("upper-ident");
    reveal_strlit("ident");
    reveal_strlit("digit+");
    reveal_strlit("digit");
    let rs = rules();
    assert(rule_name(rs[59]) == "lower-ident"@);
    assert(rule_name(rs[60]) == "upper-ident"@);
    assert(rule_name(rs[58]) == "ident"@);
    assert(rule_name(rs[61]) == "digit"@);
    assert("digit+"@.drop_last() =~= "digit"@);
}

proof fn lemma_spacing_references()
    ensures
        is_word("ws"@),
        is_word("comment"@),
{
    lemma_program_names();
    lemma_type_names();
    lemma_expression_names();
    lemma_atom_names();
    lemma_pattern_names();
    lemma_literal_names();
    lemma_identifier_names();
    lemma_spacing_names();
    reveal_strlit("ws");
    reveal_strlit("comment");
    let rs = rules();
    assert(rule_name(rs[62]) == "ws"@);
    assert(rule_name(rs[63]) == "comment"@);
}

proof fn lemma_program_rules()
    ensures
        forall|k: int| 0 <= k < program_rules().len() ==> is_rule(#[trigger] program_rules()[k]),
{
    lemma_terminals();
    lemma_operators();
    lemma_program_references();
    lemma_type_references();
    lemma_expression_references();
    lemma_atom_references();
    lemma_pattern_references();
    lemma_literal_references();
    lemma_identifier_references();
    lemma_spacing_references();
    assert(is_rule(ROOT@));
    assert(is_rule(ITEM@));
    assert(is_rule(FN_DECL@));
    assert(is_rule(INTERFACE_DECL@));
    assert(is_rule(METHOD_SIG@));
    assert(is_rule(IMPL_DECL@));
    assert(is_rule(BOUND_PARAMS@));
    assert(is_rule(BOUND_PARAM@));
    assert(is_rule(TYPE_DECL@));
    assert(is_rule(SUM_BODY@));
    assert(is_rule(RECORD_BODY@));
    assert(is_rule(FIELD_DECL@));
    assert(is_rule(VARIANT@));
    assert(is_rule(TYPE_PARAMS@));
    assert(is_rule(PARAMS@));
    assert(is_rule(PARAM@));
}

proof fn lemma_type_rules()
    ensures
        forall|k: int| 0 <= k < type_rules().len() ==> is_rule(#[trigger] type_rules()[k]),
{
    lemma_terminals();
    lemma_operators();
    lemma_program_references();
    lemma_type_references();
    lemma_expression_references();
    lemma_atom_references();
    lemma_pattern_references();
    lemma_literal_references();
    lemma_identifier_references();
    lemma_spacing_references();
    assert(is_rule(TYPE@));
    assert(is_rule(FN_TYPE@));
    assert(is_rule(NAMED_TYPE@));
}

proof fn lemma_expression_rules()
    ensures
        forall|k: int|
            0 <= k < expression_rules().len() ==> is_rule(#[trigger] expression_rules()[k]),
{
    lemma_terminals();
    lemma_operators();
    lemma_program_references();
    lemma_type_references();
    lemma_expression_references();
    lemma_atom_references();
    lemma_pattern_references();
    lemma_literal_references();
    lemma_identifier_references();
    lemma_spacing_references();
    assert(is_rule(EXPR@));
    assert(is_rule(OR_EXPR@));
    assert(is_rule(AND_EXPR@));
    assert(is_rule(CMP_EXPR@));
    assert(is_rule(CMP_OP@));
    assert(is_rule(ADD_EXPR@));
    assert(is_rule(ADD_OP@));
    assert(is_rule(MUL_EXPR@));
    assert(is_rule(MUL_OP@));
    assert(is_rule(UNARY_EXPR@));
    assert(is_rule(LAMBDA@));
    assert(is_rule(LAMBDA_PARAMS@));
    assert(is_rule(APP_EXPR@));
    assert(is_rule(ARGS@));
}

proof fn lemma_atom_rules()
    ensures
        forall|k: int| 0 <= k < atom_rules().len() ==> is_rule(#[trigger] atom_rules()[k]),
{
    lemma_terminals();
    lemma_operators();
    lemma_program_references();
    lemma_type_references();
    lemma_expression_references();
    lemma_atom_references();
    lemma_pattern_references();
    lemma_literal_references();
    lemma_identifier_references();
    lemma_spacing_references();
    assert(is_rule(ATOM@));
    assert(is_rule(ARRAY_LIT@));
    assert(is_rule(RECORD_LIT@));
    assert(is_rule(FIELD_INIT@));
    assert(is_rule(UPDATE_EXPR@));
    assert(is_rule(FIELD_SET@));
    assert(is_rule(PAREN_EXPR@));
    assert(is_rule(IF_EXPR@));
    assert(is_rule(MATCH_EXPR@));
    assert(is_rule(ARM@));
    assert(is_rule(BLOCK@));
    assert(is_rule(STMT@));
    assert(is_rule(LET_STMT@));
    assert(is_rule(CTOR_EXPR@));
    assert(is_rule(CALL_OR_VAR@));
}

proof fn lemma_pattern_rules()
    ensures
        forall|k: int| 0 <= k < pattern_rules().len() ==> is_rule(#[trigger] pattern_rules()[k]),
{
    lemma_terminals();
    lemma_operators();
    lemma_program_references();
    lemma_type_references();
    lemma_expression_references();
    lemma_atom_references();
    lemma_pattern_references();
    lemma_literal_references();
    lemma_identifier_references();
    lemma_spacing_references();
    assert(is_rule(PATTERN@));
    assert(is_rule(CTOR_PATTERN@));
    assert(is_rule(RECORD_PATTERN@));
    assert(is_rule(FIELD_PAT@));
}

proof fn lemma_literal_rules()
    ensures
        forall|k: int| 0 <= k < literal_rules().len() ==> is_rule(#[trigger] literal_rules()[k]),
{
    lemma_terminals();
    lemma_operators();
    lemma_program_references();
    lemma_type_references();
    lemma_expression_references();
    lemma_atom_references();
    lemma_pattern_references();
    lemma_literal_references();
    lemma_identifier_references();
    lemma_spacing_references();
    assert(is_rule(LITERAL@));
    assert(is_rule(BOOL@));
    assert(is_rule(FLOAT@));
    assert(is_rule(INT@));
    assert(is_rule(STRING@));
    assert(is_rule(STR_CHAR@));
}

proof fn lemma_identifier_rules()
    ensures
        forall|k: int|
            0 <= k < identifier_rules().len() ==> is_rule(#[trigger] identifier_rules()[k]),
{
    lemma_terminals();
    lemma_operators();
    lemma_program_references();
    lemma_type_references();
    lemma_expression_references();
    lemma_atom_references();
    lemma_pattern_references();
    lemma_literal_references();
    lemma_identifier_references();
    lemma_spacing_references();
    assert(is_rule(IDENT@));
    assert(is_rule(LOWER_IDENT@));
    assert(is_rule(UPPER_IDENT@));
    assert(is_rule(DIGIT@));
}

proof fn lemma_spacing_rules()
    ensures
        forall|k: int| 0 <= k < spacing_rules().len() ==> is_rule(#[trigger] spacing_rules()[k]),
{
    lemma_terminals();
    lemma_operators();
    lemma_program_references();
    lemma_type_references();
    lemma_expression_references();
    lemma_atom_references();
    lemma_pattern_references();
    lemma_literal_references();
    lemma_identifier_references();
    lemma_spacing_references();
    assert(is_rule(WS@));
    assert(is_rule(COMMENT@));
}

/// The grammar is well formed: `root` comes first, no two rules share a name, and
/// every word of a body is a terminal, an operator or the name of a rule, so that no
/// name dangles.
pub proof fn grammar_is_well_formed()
    ensures
        rules().len() > 0,
        rule_name(rules()[0]) == "root"@,
        forall|i: int, j: int|
            0 <= i < j < rules().len() ==> rule_name(#[trigger] rules()[i]) != rule_name(
                #[trigger] rules()[j],
            ),
        forall|i: int| 0 <= i < rules().len() ==> is_rule(#[trigger] rules()[i]),
{
    lemma_program_names();
    lemma_type_names();
    lemma_expression_names();
    lemma_atom_names();
    lemma_pattern_names();
    lemma_literal_names();
    lemma_identifier_names();
    lemma_spacing_names();
    lemma_program_rules();
    lemma_type_rules();
    lemma_expression_rules();
    lemma_atom_rules();
    lemma_pattern_rules();
    lemma_literal_rules();
    lemma_identifier_rules();
    lemma_spacing_rules();
    assert(rules()[0] == program_rules()[0]);
    assert forall|i: int, j: int| 0 <= i < j < rules().len() implies rule_name(
        #[trigger] rules()[i],
    ) != rule_name(#[trigger] rules()[j]) by {
        lemma_place(i);
        lemma_place(j);
    }
}

} // verus!
