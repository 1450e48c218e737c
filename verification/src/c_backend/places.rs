//! Where the parts of a value, a call and a loop go.

use vstd::prelude::*;
use vstd::string::*;

use crate::c_backend::body::{
    binders_code, chain_code, ctor_code, field_load, fields_code, iexpr_code, tail_code,
    tail_moves, tail_temps,
};
use crate::c_backend::builtins::inline_builtin;
use crate::c_backend::emit::{call_code, stored, temp_name, St};
use crate::c_backend::env::{atom_code, atoms_code, ctor_of, CxV, Types};
use crate::c_backend::kinds::{CType, SlotKind};
use crate::c_backend::layout::{
    conversion, converted, lemma_braces, lemma_ways, value_of, CVal,
};
use crate::c_backend::mangle::{fn_name, var_name};
use crate::ir::{Atom, IArm};
use crate::text::pieces::{hole, lemma_fill1, lemma_fill2, lemma_fill3, lemma_fill4};
use crate::text::{dec, fmt, join};

verus! {

/// A text between two others.
pub open spec fn around(a: Seq<char>, piece: Seq<char>, b: Seq<char>) -> Seq<char> {
    a + (piece + b)
}

/// Whether a text holds a piece behind what it starts with.
pub open spec fn holds_after(text: Seq<char>, start: Seq<char>, piece: Seq<char>) -> bool {
    exists|a: Seq<char>, b: Seq<char>| text == start + #[trigger] around(a, piece, b)
}

proof fn lemma_longer(text: Seq<char>, start: Seq<char>, piece: Seq<char>, more: Seq<char>)
    requires
        holds_after(text, start, piece),
    ensures
        holds_after(text + more, start, piece),
{
    let (a, b) = choose|a: Seq<char>, b: Seq<char>| text == start + #[trigger] around(a, piece, b);
    assert(text + more =~= start + around(a, piece, b + more));
}

proof fn lemma_last(start: Seq<char>, mid: Seq<char>, piece: Seq<char>)
    ensures
        holds_after((start + mid) + piece, start, piece),
{
    assert((start + mid) + piece =~= start + around(mid, piece, Seq::empty()));
}

/// Whether a text starts with another.
pub open spec fn starts_with(text: Seq<char>, start: Seq<char>) -> bool {
    exists|m: Seq<char>| text == #[trigger] (start + m)
}

proof fn lemma_starts(text: Seq<char>, start: Seq<char>, piece: Seq<char>)
    requires
        starts_with(text, start),
    ensures
        holds_after(text + piece, start, piece),
        starts_with(text + piece, start),
{
    let m = choose|m: Seq<char>| text == #[trigger] (start + m);
    lemma_last(start, m, piece);
    assert(text + piece =~= start + (m + piece));
}

proof fn lemma_starts_itself(text: Seq<char>)
    ensures
        starts_with(text, text),
{
    assert(text =~= text + Seq::<char>::empty());
}

// ---------------------------------------------------------------------------
// Cells
// ---------------------------------------------------------------------------

/// The place of a field in a cell.
pub open spec fn place(cell: Seq<char>, i: nat) -> Seq<char> {
    "aria_field("@ + (cell + (", "@ + (dec(i as int) + ")"@)))
}

/// The store of a value in a field of a cell.
pub open spec fn store_line(
    t: CType,
    cell: Seq<char>,
    i: nat,
    ex: Seq<char>,
    ind: Seq<char>,
) -> Seq<char> {
    ind + (place(cell, i) + (" = "@ + (SlotKind::holding(t).encoded(ex) + ";\n"@)))
}

/// The text that reads a place through a conversion: a function is called, a cast
/// stands before.
pub open spec fn reading(by: Seq<char>, at: Seq<char>) -> Seq<char> {
    if by == "aria_i2f"@ {
        by + ("("@ + (at + ")"@))
    } else {
        by + at
    }
}

proof fn lemma_store(ind: Seq<char>, cell: Seq<char>, i: Seq<char>, slot: Seq<char>)
    ensures
        fmt("{}aria_field({}, {}) = {};\n"@, seq![ind, cell, i, slot]) == ind + ("aria_field("@ + (cell + (", "@ + (i + (") = "@ + (slot + ";\n"@)))))),
{
    reveal_strlit("{}aria_field({}, {}) = {};\n");
    reveal_strlit(") = ");
    reveal_strlit(", ");
    reveal_strlit(";\n");
    reveal_strlit("aria_field(");
    assert("{}aria_field({}, {}) = {};\n"@ =~= Seq::<char>::empty() + (hole() + ("aria_field("@ + (hole() + (", "@ + (hole() + (") = "@ + (hole() + ";\n"@))))))));
    lemma_fill4(Seq::<char>::empty(), "aria_field("@, ", "@, ") = "@, ";\n"@, ind, cell, i, slot);
    assert(Seq::<char>::empty() + (ind + ("aria_field("@ + (cell + (", "@ + (i + (") = "@ + (slot + ";\n"@))))))) =~= ind + ("aria_field("@ + (cell + (", "@ + (i + (") = "@ + (slot + ";\n"@)))))));
}

proof fn lemma_load(cell: Seq<char>, i: Seq<char>)
    ensures
        fmt("aria_field({}, {})"@, seq![cell, i]) == "aria_field("@ + (cell + (", "@ + (i + ")"@))),
{
    reveal_strlit("aria_field({}, {})");
    reveal_strlit(")");
    reveal_strlit(", ");
    reveal_strlit("aria_field(");
    assert("aria_field({}, {})"@ =~= "aria_field("@ + (hole() + (", "@ + (hole() + ")"@))));
    lemma_fill2("aria_field("@, ", "@, ")"@, cell, i);
    assert("aria_field("@ + (cell + (", "@ + (i + ")"@))) =~= "aria_field("@ + (cell + (", "@ + (i + ")"@))));
}

proof fn lemma_load_float(cell: Seq<char>, i: Seq<char>)
    ensures
        fmt("aria_i2f(aria_field({}, {}))"@, seq![cell, i]) == "aria_i2f(aria_field("@ + (cell + (", "@ + (i + "))"@))),
{
    reveal_strlit("aria_i2f(aria_field({}, {}))");
    reveal_strlit("))");
    reveal_strlit(", ");
    reveal_strlit("aria_i2f(aria_field(");
    assert("aria_i2f(aria_field({}, {}))"@ =~= "aria_i2f(aria_field("@ + (hole() + (", "@ + (hole() + "))"@))));
    lemma_fill2("aria_i2f(aria_field("@, ", "@, "))"@, cell, i);
    assert("aria_i2f(aria_field("@ + (cell + (", "@ + (i + "))"@))) =~= "aria_i2f(aria_field("@ + (cell + (", "@ + (i + "))"@))));
}

proof fn lemma_load_pointer(cell: Seq<char>, i: Seq<char>)
    ensures
        fmt("(void*)(uintptr_t)aria_field({}, {})"@, seq![cell, i]) == "(void*)(uintptr_t)aria_field("@ + (cell + (", "@ + (i + ")"@))),
{
    reveal_strlit("(void*)(uintptr_t)aria_field({}, {})");
    reveal_strlit("(void*)(uintptr_t)aria_field(");
    reveal_strlit(")");
    reveal_strlit(", ");
    assert("(void*)(uintptr_t)aria_field({}, {})"@ =~= "(void*)(uintptr_t)aria_field("@ + (hole() + (", "@ + (hole() + ")"@))));
    lemma_fill2("(void*)(uintptr_t)aria_field("@, ", "@, ")"@, cell, i);
    assert("(void*)(uintptr_t)aria_field("@ + (cell + (", "@ + (i + ")"@))) =~= "(void*)(uintptr_t)aria_field("@ + (cell + (", "@ + (i + ")"@))));
}

proof fn lemma_stored(st: St, t: CType, cell: Seq<char>, i: nat, ex: Seq<char>, ind: Seq<char>)
    ensures
        stored(st, t, cell, i, ex, ind) == (St {
            out: st.out + store_line(t, cell, i, ex, ind),
            ..st
        }),
{
    let slot = SlotKind::holding(t).encoded(ex);
    let n = dec(i as int);
    lemma_store(ind, cell, n, slot);
    reveal_strlit(")");
    reveal_strlit(" = ");
    reveal_strlit(") = ");
    assert(") = "@ =~= ")"@ + " = "@);
    let rest = slot + ";\n"@;
    assert(place(cell, i) + (" = "@ + rest) =~= "aria_field("@ + (cell + (", "@ + (n + ((")"@
        + " = "@) + rest)))));
}

proof fn lemma_loaded(t: CType, sv: Seq<char>, i: nat, back: Seq<char>)
    requires
        back == if t == CType::Int || t == CType::Bool {
            ""@
        } else if t == CType::Float {
            "aria_i2f"@
        } else {
            "(void*)(uintptr_t)"@
        },
    ensures
        field_load(t, sv, i) == reading(back, place(sv, i)),
{
    let n = dec(i as int);
    lemma_load(sv, n);
    lemma_load_float(sv, n);
    lemma_load_pointer(sv, n);
    reveal_strlit("");
    reveal_strlit("(");
    reveal_strlit(")");
    reveal_strlit("))");
    reveal_strlit("aria_field(");
    reveal_strlit("aria_i2f");
    reveal_strlit("aria_i2f(aria_field(");
    reveal_strlit("(void*)(uintptr_t)");
    reveal_strlit("(void*)(uintptr_t)aria_field(");
    assert("aria_i2f(aria_field("@ =~= "aria_i2f"@ + ("("@ + "aria_field("@));
    assert("(void*)(uintptr_t)aria_field("@ =~= "(void*)(uintptr_t)"@ + "aria_field("@);
    assert("))"@ =~= ")"@ + ")"@);
    assert("(void*)(uintptr_t)"@.len() == 18 && "aria_i2f"@.len() == 8 && ""@.len() == 0);
    let p = place(sv, i);
    assert(""@ + p =~= p);
    let tail = sv + (", "@ + (n + ")"@));
    assert(("aria_i2f"@ + ("("@ + "aria_field("@)) + (sv + (", "@ + (n + (")"@ + ")"@)))) =~= "aria_i2f"@ + ("("@
        + (("aria_field("@ + tail) + ")"@)));
    assert(("(void*)(uintptr_t)"@ + "aria_field("@) + tail =~= "(void*)(uintptr_t)"@ + ("aria_field("@ + tail));
}

/// A field of a cell is read at the place where it was stored, and the value that was
/// stored comes out.
pub proof fn fields_read_back(
    t: CType,
    cell: Seq<char>,
    i: nat,
    ex: Seq<char>,
    st: St,
    ind: Seq<char>,
)
    ensures
        exists|into: Seq<char>, back: Seq<char>|
            {
                &&& stored(st, t, cell, i, ex, ind).out == st.out + (ind + (place(cell, i) + (" = "@
                    + (#[trigger] conversion(into, ex) + ";\n"@))))
                &&& field_load(t, cell, i) == #[trigger] reading(back, place(cell, i))
                &&& forall|v: CVal| #[trigger]
                    value_of(t, v) ==> (converted(into, v) matches Some(w) && converted(back, w)
                        == Some(v))
            },
{
    lemma_stored(st, t, cell, i, ex, ind);
    let (into, back) = lemma_ways(t, ex);
    lemma_loaded(t, cell, i, back);
    assert(SlotKind::holding(t).encoded(ex) == conversion(into, ex));
    assert(field_load(t, cell, i) == reading(back, place(cell, i)));
}

/// Each field of a new cell is stored in the place of its position, and has the type
/// that the constructor gives it.
pub proof fn fields_go_to_their_places(
    name: Seq<char>,
    fields: Seq<Atom>,
    types: Seq<CType>,
    n: nat,
    cell: Seq<char>,
    st: St,
    lits: Seq<Seq<char>>,
    ind: Seq<char>,
    i: int,
)
    requires
        n <= fields.len(),
        n <= types.len(),
    ensures
        fields_code(name, fields, types, n, cell, st, lits, ind) matches Ok(end) ==> {
            &&& end == St { out: end.out, ..st }
            &&& starts_with(end.out, st.out)
            &&& 0 <= i < n ==> (atom_code(fields[i], st.types, lits) matches Ok((t, ex)) && t
                == types[i] && holds_after(
                end.out,
                st.out,
                store_line(t, cell, i as nat, ex, ind),
            ))
        },
    decreases n,
{
    if n == 0 {
        lemma_starts_itself(st.out);
    } else {
        fields_go_to_their_places(name, fields, types, (n - 1) as nat, cell, st, lits, ind, i);
        if let Ok(s) = fields_code(name, fields, types, (n - 1) as nat, cell, st, lits, ind) {
            if let Ok((t, ex)) = atom_code(fields[n - 1], s.types, lits) {
                let piece = store_line(t, cell, (n - 1) as nat, ex, ind);
                lemma_stored(s, t, cell, (n - 1) as nat, ex, ind);
                lemma_starts(s.out, st.out, piece);
                if 0 <= i < n - 1 {
                    let (u, x) = atom_code(fields[i], st.types, lits)->Ok_0;
                    lemma_longer(s.out, st.out, store_line(u, cell, i as nat, x, ind), piece);
                }
            }
        }
    }
}

proof fn lemma_set_tag(ind: Seq<char>, cell: Seq<char>, n: Seq<char>)
    ensures
        fmt("{}aria_set_tag({}, INT64_C({}));\n"@, seq![ind, cell, n]) == ind + ("aria_set_tag("@ + (cell + (", INT64_C("@ + (n + "));\n"@)))),
{
    reveal_strlit("{}aria_set_tag({}, INT64_C({}));\n");
    reveal_strlit("));\n");
    reveal_strlit(", INT64_C(");
    reveal_strlit("aria_set_tag(");
    assert("{}aria_set_tag({}, INT64_C({}));\n"@ =~= Seq::<char>::empty() + (hole() + ("aria_set_tag("@ + (hole() + (", INT64_C("@ + (hole() + "));\n"@))))));
    lemma_fill3(Seq::<char>::empty(), "aria_set_tag("@, ", INT64_C("@, "));\n"@, ind, cell, n);
    assert(Seq::<char>::empty() + (ind + ("aria_set_tag("@ + (cell + (", INT64_C("@ + (n + "));\n"@))))) =~= ind + ("aria_set_tag("@ + (cell + (", INT64_C("@ + (n + "));\n"@)))));
}

proof fn lemma_alloc(ind: Seq<char>, dst: Seq<char>, n: Seq<char>)
    ensures
        fmt("{}{} = aria_alloc({});\n"@, seq![ind, dst, n]) == ind + (dst + (" = aria_alloc("@ + (n + ");\n"@))),
{
    reveal_strlit("{}{} = aria_alloc({});\n");
    reveal_strlit(" = aria_alloc(");
    reveal_strlit(");\n");
    assert("{}{} = aria_alloc({});\n"@ =~= Seq::<char>::empty() + (hole() + (Seq::<char>::empty() + (hole() + (" = aria_alloc("@ + (hole() + ");\n"@))))));
    lemma_fill3(Seq::<char>::empty(), Seq::<char>::empty(), " = aria_alloc("@, ");\n"@, ind, dst, n);
    assert(Seq::<char>::empty() + (ind + (Seq::<char>::empty() + (dst + (" = aria_alloc("@ + (n + ");\n"@))))) =~= ind + (dst + (" = aria_alloc("@ + (n + ");\n"@))));
}

proof fn lemma_test_tag(ind: Seq<char>, cell: Seq<char>, n: Seq<char>)
    ensures
        fmt("{}if (aria_tag({}) == INT64_C({})) {\n"@, seq![ind, cell, n]) == ind + ("if (aria_tag("@ + (cell + (") == INT64_C("@ + (n + ")) {\n"@)))),
{
    reveal_strlit("{}if (aria_tag({}) == INT64_C({})) {\n");
    reveal_strlit(") == INT64_C(");
    reveal_strlit(")) {\n");
    reveal_strlit("if (aria_tag(");
    assert("{}if (aria_tag({}) == INT64_C({})) {\n"@ =~= Seq::<char>::empty() + (hole() + ("if (aria_tag("@ + (hole() + (") == INT64_C("@ + (hole() + ")) {\n"@))))));
    lemma_fill3(Seq::<char>::empty(), "if (aria_tag("@, ") == INT64_C("@, ")) {\n"@, ind, cell, n);
    assert(Seq::<char>::empty() + (ind + ("if (aria_tag("@ + (cell + (") == INT64_C("@ + (n + ")) {\n"@))))) =~= ind + ("if (aria_tag("@ + (cell + (") == INT64_C("@ + (n + ")) {\n"@)))));
}

proof fn lemma_declare(ind: Seq<char>, t: Seq<char>, x: Seq<char>, e: Seq<char>)
    ensures
        fmt("{}{} {} = {};\n"@, seq![ind, t, x, e]) == ind + (t + (" "@ + (x + (" = "@ + (e + ";\n"@))))),
{
    reveal_strlit("{}{} {} = {};\n");
    reveal_strlit(" ");
    reveal_strlit(" = ");
    reveal_strlit(";\n");
    assert("{}{} {} = {};\n"@ =~= Seq::<char>::empty() + (hole() + (Seq::<char>::empty() + (hole() + (" "@ + (hole() + (" = "@ + (hole() + ";\n"@))))))));
    lemma_fill4(Seq::<char>::empty(), Seq::<char>::empty(), " "@, " = "@, ";\n"@, ind, t, x, e);
    assert(Seq::<char>::empty() + (ind + (Seq::<char>::empty() + (t + (" "@ + (x + (" = "@ + (e + ";\n"@))))))) =~= ind + (t + (" "@ + (x + (" = "@ + (e + ";\n"@))))));
}

/// The statement that gives a cell its tag.
pub open spec fn tag_line(cell: Seq<char>, tag: int, ind: Seq<char>) -> Seq<char> {
    ind + ("aria_set_tag("@ + (cell + (", INT64_C("@ + (dec(tag) + "));\n"@))))
}

/// The test of a cell's tag.
pub open spec fn tag_test(cell: Seq<char>, tag: int, ind: Seq<char>) -> Seq<char> {
    ind + ("if (aria_tag("@ + (cell + (") == INT64_C("@ + (dec(tag) + ")) {\n"@))))
}

/// The declaration of a variable with a value.
pub open spec fn declaration(t: CType, x: Seq<char>, ex: Seq<char>, ind: Seq<char>) -> Seq<char> {
    ind + (t.declared() + (" "@ + (x + (" = "@ + (ex + ";\n"@)))))
}

/// A constructor allocates a cell with as many fields as it has, gives it the tag of
/// the constructor, and stores every field in its place; with another number of fields
/// it is refused.
pub proof fn constructors_build_cells(
    name: Seq<char>,
    fields: Seq<Atom>,
    dst: Seq<char>,
    st: St,
    cx: CxV,
    ind: Seq<char>,
    i: int,
)
    ensures
        ctor_code(name, fields, dst, st, cx, ind) matches Ok(end) ==> (ctor_of(
            cx.ctors,
            name,
        ) matches Ok(info) && {
            let head = (st.out + (ind + (dst + (" = aria_alloc("@ + (dec(fields.len() as int)
                + ");\n"@))))) + tag_line(dst, info.tag as int, ind);
            &&& info.fields.len() == fields.len()
            &&& starts_with(end.out, head)
            &&& 0 <= i < fields.len() ==> (atom_code(fields[i], st.types, cx.lits) matches Ok(
                (t, ex),
            ) && t == info.fields[i] && holds_after(
                end.out,
                head,
                store_line(t, dst, i as nat, ex, ind),
            ))
        }),
{
    if let Ok(end) = ctor_code(name, fields, dst, st, cx, ind) {
        let info = ctor_of(cx.ctors, name)->Ok_0;
        lemma_alloc(ind, dst, dec(info.fields.len() as int));
        lemma_set_tag(ind, dst, dec(info.tag as int));
        let s1 = st.put("{}{} = aria_alloc({});\n"@, seq![ind, dst, dec(info.fields.len() as int)]);
        let s2 = s1.put(
            "{}aria_set_tag({}, INT64_C({}));\n"@,
            seq![ind, dst, dec(info.tag as int)],
        );
        fields_go_to_their_places(
            name,
            fields,
            info.fields,
            fields.len(),
            dst,
            s2,
            cx.lits,
            ind,
            i,
        );
    }
}

/// Each binder of an arm is a variable of its field's type, read at the field's place,
/// and is in scope with that type unless a later binder has its name.
pub proof fn binders_read_their_fields(
    sv: Seq<char>,
    binders: Seq<String>,
    types: Seq<CType>,
    n: nat,
    st: St,
    ind: Seq<char>,
    i: int,
)
    requires
        n <= binders.len(),
        n <= types.len(),
    ensures
        ({
            let end = binders_code(sv, binders, types, n, st, ind);
            &&& starts_with(end.out, st.out)
            &&& end.tmp == st.tmp
            &&& 0 <= i < n ==> holds_after(
                end.out,
                st.out,
                declaration(
                    types[i],
                    var_name(binders[i]@),
                    field_load(types[i], sv, i as nat),
                    ind,
                ),
            )
            &&& 0 <= i < n && (forall|j: int| i < j < n ==> #[trigger] binders[j]@ != binders[i]@)
                ==> end.types.contains_key(binders[i]@) && end.types[binders[i]@] == types[i]
        }),
    decreases n,
{
    if n == 0 {
        lemma_starts_itself(st.out);
    } else {
        binders_read_their_fields(sv, binders, types, (n - 1) as nat, st, ind, i);
        let s = binders_code(sv, binders, types, (n - 1) as nat, st, ind);
        let t = types[n - 1];
        let x = var_name(binders[n - 1]@);
        let ex = field_load(t, sv, (n - 1) as nat);
        lemma_declare(ind, t.declared(), x, ex);
        let piece = declaration(t, x, ex, ind);
        lemma_starts(s.out, st.out, piece);
        if 0 <= i < n - 1 {
            lemma_longer(
                s.out,
                st.out,
                declaration(
                    types[i],
                    var_name(binders[i]@),
                    field_load(types[i], sv, i as nat),
                    ind,
                ),
                piece,
            );
            if forall|j: int| i < j < n ==> #[trigger] binders[j]@ != binders[i]@ {
                assert(binders[n - 1]@ != binders[i]@);
            }
        }
    }
}

// ---------------------------------------------------------------------------
// Calls
// ---------------------------------------------------------------------------

/// The texts of atoms stand in the atoms' order.
pub proof fn atoms_keep_their_order(
    atoms: Seq<Atom>,
    n: nat,
    types: Types,
    lits: Seq<Seq<char>>,
    i: int,
)
    requires
        n <= atoms.len(),
    ensures
        atoms_code(atoms, n, types, lits) matches Ok((ts, exs)) ==> {
            &&& ts.len() == n
            &&& exs.len() == n
            &&& 0 <= i < n ==> atom_code(atoms[i], types, lits) == Ok::<
                (CType, Seq<char>),
                Seq<char>,
            >((ts[i], exs[i]))
        },
    decreases n,
{
    if n > 0 {
        atoms_keep_their_order(atoms, (n - 1) as nat, types, lits, i);
    }
}

proof fn lemma_call(ind: Seq<char>, dst: Seq<char>, f: Seq<char>, args: Seq<char>)
    ensures
        fmt("{}{} = {}({});\n"@, seq![ind, dst, f, args]) == ind + (dst + (" = "@ + (f + ("("@ + (args + ");\n"@))))),
{
    reveal_strlit("{}{} = {}({});\n");
    reveal_strlit(" = ");
    reveal_strlit("(");
    reveal_strlit(");\n");
    assert("{}{} = {}({});\n"@ =~= Seq::<char>::empty() + (hole() + (Seq::<char>::empty() + (hole() + (" = "@ + (hole() + ("("@ + (hole() + ");\n"@))))))));
    lemma_fill4(Seq::<char>::empty(), Seq::<char>::empty(), " = "@, "("@, ");\n"@, ind, dst, f, args);
    assert(Seq::<char>::empty() + (ind + (Seq::<char>::empty() + (dst + (" = "@ + (f + ("("@ + (args + ");\n"@))))))) =~= ind + (dst + (" = "@ + (f + ("("@ + (args + ");\n"@))))));
}

/// A call of a function hands over the arguments in their order, as many as the function
/// has parameters, and assigns the result; a call of a function that is not there, or
/// with another number of arguments, is refused.
pub proof fn calls_hand_over_the_arguments(
    name: Seq<char>,
    args: Seq<Atom>,
    dst: Seq<char>,
    st: St,
    cx: CxV,
    ind: Seq<char>,
    i: int,
)
    requires
        !inline_builtin(name),
    ensures
        call_code(name, args, dst, st, cx, ind) matches Ok(end) ==> {
            &&& cx.sigs.contains_key(name)
            &&& cx.sigs[name].params.len() == args.len()
            &&& exists|exs: Seq<Seq<char>>|
                {
                    &&& end == St {
                        out: st.out + (ind + (dst + (" = "@ + (fn_name(name) + ("("@ + (
                        #[trigger] join(exs, ", "@) + ");\n"@)))))),
                        ..st
                    }
                    &&& exs.len() == args.len()
                    &&& 0 <= i < args.len() ==> (atom_code(
                        args[i],
                        st.types,
                        cx.lits,
                    ) matches Ok((_, ex)) && exs[i] == ex)
                }
        },
{
    if let Ok(end) = call_code(name, args, dst, st, cx, ind) {
        let exs = (atoms_code(args, args.len(), st.types, cx.lits)->Ok_0).1;
        atoms_keep_their_order(args, args.len(), st.types, cx.lits, i);
        lemma_call(ind, dst, fn_name(name), join(exs, ", "@));
    }
}

// ---------------------------------------------------------------------------
// Tail calls
// ---------------------------------------------------------------------------

proof fn lemma_move(ind: Seq<char>, x: Seq<char>, y: Seq<char>)
    ensures
        fmt("{}{} = {};\n"@, seq![ind, x, y]) == ind + (x + (" = "@ + (y + ";\n"@))),
{
    reveal_strlit("{}{} = {};\n");
    reveal_strlit(" = ");
    reveal_strlit(";\n");
    assert("{}{} = {};\n"@ =~= Seq::<char>::empty() + (hole() + (Seq::<char>::empty() + (hole() + (" = "@ + (hole() + ";\n"@))))));
    lemma_fill3(Seq::<char>::empty(), Seq::<char>::empty(), " = "@, ";\n"@, ind, x, y);
    assert(Seq::<char>::empty() + (ind + (Seq::<char>::empty() + (x + (" = "@ + (y + ";\n"@))))) =~= ind + (x + (" = "@ + (y + ";\n"@))));
}

proof fn lemma_goto(ind: Seq<char>)
    ensures
        fmt("{}goto aria_loop_top;\n"@, seq![ind]) == ind + "goto aria_loop_top;\n"@,
{
    reveal_strlit("{}goto aria_loop_top;\n");
    reveal_strlit("goto aria_loop_top;\n");
    assert("{}goto aria_loop_top;\n"@ =~= Seq::<char>::empty() + (hole() + "goto aria_loop_top;\n"@));
    lemma_fill1(Seq::<char>::empty(), "goto aria_loop_top;\n"@, ind);
    assert(Seq::<char>::empty() + (ind + "goto aria_loop_top;\n"@) =~= ind + "goto aria_loop_top;\n"@);
}

proof fn lemma_no_arm(ind: Seq<char>)
    ensures
        fmt("{}aria_trap_msg(\"no matching pattern (non-exhaustive match)\");\n"@, seq![ind]) == ind + "aria_trap_msg(\"no matching pattern (non-exhaustive match)\");\n"@,
{
    reveal_strlit("{}aria_trap_msg(\"no matching pattern (non-exhaustive match)\");\n");
    reveal_strlit("aria_trap_msg(\"no matching pattern (non-exhaustive match)\");\n");
    assert("{}aria_trap_msg(\"no matching pattern (non-exhaustive match)\");\n"@ =~= Seq::<char>::empty() + (hole() + "aria_trap_msg(\"no matching pattern (non-exhaustive match)\");\n"@));
    lemma_fill1(Seq::<char>::empty(), "aria_trap_msg(\"no matching pattern (non-exhaustive match)\");\n"@, ind);
    assert(Seq::<char>::empty() + (ind + "aria_trap_msg(\"no matching pattern (non-exhaustive match)\");\n"@) =~= ind + "aria_trap_msg(\"no matching pattern (non-exhaustive match)\");\n"@);
}

proof fn lemma_whole_cell(ind: Seq<char>, x: Seq<char>, sv: Seq<char>)
    ensures
        fmt("{}void* {} = {};\n"@, seq![ind, x, sv]) == ind + ("void* "@ + (x + (" = "@ + (sv + ";\n"@)))),
{
    reveal_strlit("{}void* {} = {};\n");
    reveal_strlit(" = ");
    reveal_strlit(";\n");
    reveal_strlit("void* ");
    assert("{}void* {} = {};\n"@ =~= Seq::<char>::empty() + (hole() + ("void* "@ + (hole() + (" = "@ + (hole() + ";\n"@))))));
    lemma_fill3(Seq::<char>::empty(), "void* "@, " = "@, ";\n"@, ind, x, sv);
    assert(Seq::<char>::empty() + (ind + ("void* "@ + (x + (" = "@ + (sv + ";\n"@))))) =~= ind + ("void* "@ + (x + (" = "@ + (sv + ";\n"@)))));
}

/// The assignment of one variable to another.
pub open spec fn move_line(x: Seq<char>, y: Seq<char>, ind: Seq<char>) -> Seq<char> {
    ind + (x + (" = "@ + (y + ";\n"@)))
}

proof fn lemma_temps(
    args: Seq<Atom>,
    params: Seq<(Seq<char>, CType)>,
    n: nat,
    st: St,
    lits: Seq<Seq<char>>,
    ind: Seq<char>,
    i: int,
)
    requires
        n <= args.len(),
        n <= params.len(),
    ensures
        tail_temps(args, params, n, st, lits, ind) matches Ok(end) ==> {
            &&& end.types == st.types
            &&& end.tmp == st.tmp + n
            &&& starts_with(end.out, st.out)
            &&& 0 <= i < n ==> (atom_code(args[i], st.types, lits) matches Ok((_, ex))
                && holds_after(
                end.out,
                st.out,
                declaration(params[i].1, var_name(temp_name((st.tmp + i) as nat)), ex, ind),
            ))
        },
    decreases n,
{
    if n == 0 {
        lemma_starts_itself(st.out);
    } else {
        lemma_temps(args, params, (n - 1) as nat, st, lits, ind, i);
        if let Ok(s) = tail_temps(args, params, (n - 1) as nat, st, lits, ind) {
            if let Ok((_, ex)) = atom_code(args[n - 1], s.types, lits) {
                let t = params[n - 1].1;
                let x = var_name(s.temp());
                let piece = declaration(t, x, ex, ind);
                lemma_declare(ind, t.declared(), x, ex);
                lemma_starts(s.out, st.out, piece);
                if 0 <= i < n - 1 {
                    let (_, y) = atom_code(args[i], st.types, lits)->Ok_0;
                    lemma_longer(
                        s.out,
                        st.out,
                        declaration(
                            params[i].1,
                            var_name(temp_name((st.tmp + i) as nat)),
                            y,
                            ind,
                        ),
                        piece,
                    );
                }
            }
        }
    }
}

proof fn lemma_moves(
    params: Seq<(Seq<char>, CType)>,
    n: nat,
    first: nat,
    st: St,
    ind: Seq<char>,
    i: int,
)
    requires
        n <= params.len(),
    ensures
        ({
            let end = tail_moves(params, n, first, st, ind);
            &&& end == St { out: end.out, ..st }
            &&& starts_with(end.out, st.out)
            &&& 0 <= i < n ==> holds_after(
                end.out,
                st.out,
                move_line(
                    var_name(params[i].0),
                    var_name(temp_name((first + i) as nat)),
                    ind,
                ),
            )
        }),
    decreases n,
{
    if n == 0 {
        lemma_starts_itself(st.out);
    } else {
        lemma_moves(params, (n - 1) as nat, first, st, ind, i);
        let s = tail_moves(params, (n - 1) as nat, first, st, ind);
        let x = var_name(params[n - 1].0);
        let y = var_name(temp_name((first + n - 1) as nat));
        lemma_move(ind, x, y);
        lemma_starts(s.out, st.out, move_line(x, y, ind));
        if 0 <= i < n - 1 {
            lemma_longer(
                s.out,
                st.out,
                move_line(
                    var_name(params[i].0),
                    var_name(temp_name((first + i) as nat)),
                    ind,
                ),
                move_line(x, y, ind),
            );
        }
    }
}

/// A tail call computes every argument into a temporary of its own first, then moves
/// each temporary to the parameter of its position, and starts the loop again. So no
/// argument reads a parameter that was already replaced.
pub proof fn tail_calls_replace_the_parameters(
    args: Seq<Atom>,
    st: St,
    cx: CxV,
    ind: Seq<char>,
    i: int,
)
    ensures
        tail_code(args, st, cx, ind) matches Ok(end) ==> {
            &&& cx.tail_params.len() == args.len()
            &&& exists|temps: Seq<char>, moves: Seq<char>|
                {
                    &&& end.out == #[trigger] (temps + (moves + (ind + "goto aria_loop_top;\n"@)))
                    &&& 0 <= i < args.len() ==> (atom_code(
                        args[i],
                        st.types,
                        cx.lits,
                    ) matches Ok((_, ex)) && {
                        let x = var_name(temp_name((st.tmp + i) as nat));
                        &&& holds_after(
                            temps,
                            st.out,
                            declaration(cx.tail_params[i].1, x, ex, ind),
                        )
                        &&& holds_after(
                            moves,
                            Seq::empty(),
                            move_line(var_name(cx.tail_params[i].0), x, ind),
                        )
                    })
                }
        },
{
    if let Ok(end) = tail_code(args, st, cx, ind) {
        let params = cx.tail_params;
        let none = Seq::<char>::empty();
        lemma_temps(args, params, args.len(), st, cx.lits, ind, i);
        let s = tail_temps(args, params, args.len(), st, cx.lits, ind)->Ok_0;
        lemma_moves(params, params.len(), st.tmp, s, ind, i);
        let m = tail_moves(params, params.len(), st.tmp, s, ind);
        let moves = choose|x: Seq<char>| m.out == #[trigger] (s.out + x);
        lemma_goto(ind);
        let last = ind + "goto aria_loop_top;\n"@;
        assert((s.out + moves) + last =~= s.out + (moves + last));
        if 0 <= i < args.len() {
            let piece = move_line(
                var_name(params[i].0),
                var_name(temp_name((st.tmp + i) as nat)),
                ind,
            );
            let (a, b) = choose|a: Seq<char>, b: Seq<char>|
                m.out == s.out + #[trigger] around(a, piece, b);
            assert(m.out.skip(s.out.len() as int) =~= around(a, piece, b));
            assert(m.out.skip(s.out.len() as int) =~= moves);
            assert(moves =~= none + around(a, piece, b));
        }
        assert(end.out == s.out + (moves + last));
    }
}

// ---------------------------------------------------------------------------
// Matches
// ---------------------------------------------------------------------------

/// An arm of a constructor runs where the cell has the tag that the constructor gives
/// its cells, with the fields in its binders; otherwise the next arm is tried. An arm
/// without a constructor takes every cell, and where no arm is left the program traps.
pub proof fn arms_are_tried_in_order(
    sv: Seq<char>,
    arms: Seq<IArm>,
    i: nat,
    dst: Seq<char>,
    st: St,
    cx: CxV,
    ind: Seq<char>,
)
    ensures
        chain_code(sv, arms, i, dst, st, cx, ind) matches Ok(end) ==> if i >= arms.len() {
            end == (St {
                out: st.out + (ind
                    + "aria_trap_msg(\"no matching pattern (non-exhaustive match)\");\n"@),
                ..st
            })
        } else {
            let arm = arms[i as int];
            let inner = ind + "    "@;
            match arm.ctor {
                Some(c) => {
                    let info = ctor_of(cx.ctors, c@)->Ok_0;
                    let s0 = St { out: st.out + tag_test(sv, info.tag as int, ind), ..st };
                    let s1 = binders_code(
                        sv,
                        arm.binders@,
                        info.fields,
                        arm.binders@.len(),
                        s0,
                        inner,
                    );
                    let s2 = iexpr_code(arm.body, dst, s1, cx, inner)->Ok_0;
                    let s3 = St { out: s2.out + (ind + "} else {\n"@), ..s2 };
                    let s4 = chain_code(sv, arms, i + 1, dst, s3, cx, inner)->Ok_0;
                    &&& ctor_of(cx.ctors, c@) is Ok
                    &&& iexpr_code(arm.body, dst, s1, cx, inner) is Ok
                    &&& chain_code(sv, arms, i + 1, dst, s3, cx, inner) is Ok
                    &&& end == St { out: s4.out + (ind + "}\n"@), ..s4 }
                },
                None => if arm.binders@.len() == 0 {
                    iexpr_code(arm.body, dst, st, cx, ind) == Ok::<St, Seq<char>>(end)
                } else {
                    let x = arm.binders@[0]@;
                    let s0 = St {
                        types: st.types.insert(x, CType::Ref),
                        out: st.out + declaration(CType::Ref, var_name(x), sv, ind),
                        ..st
                    };
                    iexpr_code(arm.body, dst, s0, cx, ind) == Ok::<St, Seq<char>>(end)
                },
            }
        },
{
    lemma_braces(ind);
    lemma_no_arm(ind);
    if i < arms.len() {
        let arm = arms[i as int];
        match arm.ctor {
            Some(c) => {
                if let Ok(info) = ctor_of(cx.ctors, c@) {
                    lemma_test_tag(ind, sv, dec(info.tag as int));
                }
            },
            None => {
                if arm.binders@.len() > 0 {
                    let x = var_name(arm.binders@[0]@);
                    lemma_whole_cell(ind, x, sv);
                    reveal_strlit("void* ");
                    reveal_strlit("void*");
                    reveal_strlit(" ");
                    assert("void* "@ =~= "void*"@ + " "@);
                    let rest = x + (" = "@ + (sv + ";\n"@));
                    assert(("void*"@ + " "@) + rest =~= "void*"@ + (" "@ + rest));
                }
            },
        }
    }
}

} // verus!
