//! The data-flow as JSON, as a summary for people, and as lint warnings.

use vstd::prelude::*;
use vstd::string::*;

use crate::analyze::report::{
    bool_str, bool_text, opt_json, opt_text, pos_json, positions_text, pos_text,
};
use crate::ast::{BinderSpans, Program, Span};
use crate::dataflow::{
    analyze, flow_views, flows_of, located_views, BindKind, BindV, DfCx, FlowV, FnDataFlow,
    ShadowV,
};
use crate::diagnostics::{json_escape, json_text, located, DiagV, Diagnostic};
use crate::text::{
    dec, fill1, fill2, fill3, fmt, join, join_strings, put3, put4, usize_text, views,
};

verus! {

/// A binding as a JSON object.
pub open spec fn binding_json(b: BindV) -> Seq<char> {
    fmt(
        "{\"name\":\"{}\",\"kind\":\"{}\",\"def\":{},\"type\":{},"@,
        seq![json_text(b.name), b.kind.named(), pos_json(b.def), opt_json(b.ty)],
    ) + fmt(
        "\"uses\":[{}],\"use_count\":{},\"unused\":{}}"@,
        seq![
            join(b.uses.map_values(|p: (u32, u32)| pos_json(p)), ","@),
            dec(b.uses.len() as int),
            bool_text(b.unused),
        ],
    )
}

/// A dead binding as a JSON object.
pub open spec fn dead_json(d: (Seq<char>, (u32, u32))) -> Seq<char> {
    fmt("{\"name\":\"{}\",\"def\":{}}"@, seq![json_text(d.0), pos_json(d.1)])
}

/// A shadowing as a JSON object.
pub open spec fn shadow_json(s: ShadowV) -> Seq<char> {
    fmt(
        "{\"name\":\"{}\",\"def\":{},\"shadows\":{}}"@,
        seq![json_text(s.name), pos_json(s.inner), pos_json(s.outer)],
    )
}

/// The data-flow of a function as a JSON object.
pub open spec fn flow_json(f: FlowV) -> Seq<char> {
    fmt(
        "{\"bindings\":[{}],\"unused_bindings\":[{}],\"shadows\":[{}]}"@,
        seq![
            join(f.bindings.map_values(|b: BindV| binding_json(b)), ","@),
            join(
                f.unused_bindings.map_values(|d: (Seq<char>, (u32, u32))| dead_json(d)),
                ","@,
            ),
            join(f.shadows.map_values(|s: ShadowV| shadow_json(s)), ","@),
        ],
    )
}

/// A dead binding, for people.
pub open spec fn dead_human(d: (Seq<char>, (u32, u32))) -> Seq<char> {
    fmt("{} (line {})"@, seq![d.0, dec(d.1.0 as int)])
}

/// A shadowing, for people.
pub open spec fn shadow_human(s: ShadowV) -> Seq<char> {
    fmt(
        "{} (line {} shadows line {})"@,
        seq![s.name, dec(s.inner.0 as int), dec(s.outer.0 as int)],
    )
}

/// The dead bindings, for people.
pub open spec fn dead_part(f: FlowV) -> Seq<char> {
    fmt(
        "unused: {}"@,
        seq![
            join(
                f.unused_bindings.map_values(|d: (Seq<char>, (u32, u32))| dead_human(d)),
                ", "@,
            ),
        ],
    )
}

/// The shadowings, for people.
pub open spec fn shadow_part(f: FlowV) -> Seq<char> {
    fmt(
        "shadows: {}"@,
        seq![join(f.shadows.map_values(|s: ShadowV| shadow_human(s)), ", "@)],
    )
}

/// What is notable in a function, for people.
pub open spec fn flow_human(f: FlowV) -> Seq<char> {
    let a: Seq<Seq<char>> = if f.unused_bindings.len() > 0 {
        seq![dead_part(f)]
    } else {
        Seq::empty()
    };
    join(
        if f.shadows.len() > 0 {
            a.push(shadow_part(f))
        } else {
            a
        },
        "; "@,
    )
}

impl FnDataFlow {
    /// Emit this function's data-flow as a stable JSON object with the members
    /// `bindings`, `unused_bindings` and `shadows`.
    pub fn to_json(&self) -> (r: String)
        ensures
            r@ == flow_json(self@),
    {
        let mut bs: Vec<String> = Vec::new();
        let mut i: usize = 0;
        while i < self.bindings.len()
            invariant
                i <= self.bindings@.len(),
                bs@.len() == i,
                forall|j: int|
                    0 <= j < i ==> (#[trigger] bs@[j])@ == binding_json(self.bindings@[j]@),
            decreases self.bindings@.len() - i,
        {
            let b = &self.bindings[i];
            let name: String = json_escape(b.name.as_str());
            let def: String = pos_text(b.def);
            let ty: String = opt_text(&b.ty);
            let uses: String = positions_text(&b.uses);
            let count: String = usize_text(b.use_count());
            let mut s: String = String::new();
            put4(
                &mut s,
                "{\"name\":\"{}\",\"kind\":\"{}\",\"def\":{},\"type\":{},",
                name.as_str(),
                b.kind.as_str(),
                def.as_str(),
                ty.as_str(),
            );
            put3(
                &mut s,
                "\"uses\":[{}],\"use_count\":{},\"unused\":{}}",
                uses.as_str(),
                count.as_str(),
                bool_str(b.unused),
            );
            assert(s@ =~= binding_json(b@));
            bs.push(s);
            i = i + 1;
        }
        let mut ds: Vec<String> = Vec::new();
        let mut i: usize = 0;
        while i < self.unused_bindings.len()
            invariant
                i <= self.unused_bindings@.len(),
                ds@.len() == i,
                forall|j: int|
                    0 <= j < i ==> (#[trigger] ds@[j])@ == dead_json(
                        located_views(self.unused_bindings@)[j],
                    ),
            decreases self.unused_bindings@.len() - i,
        {
            let name: String = json_escape(self.unused_bindings[i].0.as_str());
            let def: String = pos_text(self.unused_bindings[i].1);
            ds.push(fill2("{\"name\":\"{}\",\"def\":{}}", name.as_str(), def.as_str()));
            i = i + 1;
        }
        let mut ss: Vec<String> = Vec::new();
        let mut i: usize = 0;
        while i < self.shadows.len()
            invariant
                i <= self.shadows@.len(),
                ss@.len() == i,
                forall|j: int|
                    0 <= j < i ==> (#[trigger] ss@[j])@ == shadow_json(self.shadows@[j]@),
            decreases self.shadows@.len() - i,
        {
            let name: String = json_escape(self.shadows[i].name.as_str());
            let inner: String = pos_text(self.shadows[i].inner);
            let outer: String = pos_text(self.shadows[i].outer);
            ss.push(
                fill3(
                    "{\"name\":\"{}\",\"def\":{},\"shadows\":{}}",
                    name.as_str(),
                    inner.as_str(),
                    outer.as_str(),
                ),
            );
            i = i + 1;
        }
        let ghost f = self@;
        assert(views(bs@) =~= f.bindings.map_values(|b: BindV| binding_json(b)));
        assert(views(ds@) =~= f.unused_bindings.map_values(
            |d: (Seq<char>, (u32, u32))| dead_json(d),
        ));
        assert(views(ss@) =~= f.shadows.map_values(|s: ShadowV| shadow_json(s)));
        let bs: String = join_strings(&bs, ",");
        let ds: String = join_strings(&ds, ",");
        let ss: String = join_strings(&ss, ",");
        fill3(
            "{\"bindings\":[{}],\"unused_bindings\":[{}],\"shadows\":[{}]}",
            bs.as_str(),
            ds.as_str(),
            ss.as_str(),
        )
    }

    /// A concise summary of this function's data-flow for people, e.g.
    /// `unused: tmp (line 4); shadows: x (line 6 shadows line 2)`. It is
    /// empty where there is nothing notable.
    pub fn to_human(&self) -> (r: String)
        ensures
            r@ == flow_human(self@),
    {
        let ghost f = self@;
        let mut parts: Vec<String> = Vec::new();
        let ghost mut spec_parts: Seq<Seq<char>> = Seq::empty();
        assert(views(parts@) =~= spec_parts);
        if self.unused_bindings.len() > 0 {
            let mut items: Vec<String> = Vec::new();
            let mut i: usize = 0;
            while i < self.unused_bindings.len()
                invariant
                    i <= self.unused_bindings@.len(),
                    items@.len() == i,
                    forall|j: int|
                        0 <= j < i ==> (#[trigger] items@[j])@ == dead_human(
                            located_views(self.unused_bindings@)[j],
                        ),
                decreases self.unused_bindings@.len() - i,
            {
                let line: String = usize_text(self.unused_bindings[i].1.0 as usize);
                items.push(
                    fill2("{} (line {})", self.unused_bindings[i].0.as_str(), line.as_str()),
                );
                i = i + 1;
            }
            assert(views(items@) =~= f.unused_bindings.map_values(
                |d: (Seq<char>, (u32, u32))| dead_human(d),
            ));
            let list: String = join_strings(&items, ", ");
            parts.push(fill1("unused: {}", list.as_str()));
            proof {
                spec_parts = seq![dead_part(f)];
            }
            assert(views(parts@) =~= spec_parts);
        }
        if self.shadows.len() > 0 {
            let mut items: Vec<String> = Vec::new();
            let mut i: usize = 0;
            while i < self.shadows.len()
                invariant
                    i <= self.shadows@.len(),
                    items@.len() == i,
                    forall|j: int|
                        0 <= j < i ==> (#[trigger] items@[j])@ == shadow_human(self.shadows@[j]@),
                decreases self.shadows@.len() - i,
            {
                let inner: String = usize_text(self.shadows[i].inner.0 as usize);
                let outer: String = usize_text(self.shadows[i].outer.0 as usize);
                items.push(
                    fill3(
                        "{} (line {} shadows line {})",
                        self.shadows[i].name.as_str(),
                        inner.as_str(),
                        outer.as_str(),
                    ),
                );
                i = i + 1;
            }
            assert(views(items@) =~= f.shadows.map_values(|s: ShadowV| shadow_human(s)));
            let list: String = join_strings(&items, ", ");
            let ghost before = parts@;
            parts.push(fill1("shadows: {}", list.as_str()));
            assert(views(parts@) =~= views(before).push(shadow_part(f)));
        }
        join_strings(&parts, "; ")
    }
}

/// The data-flows as a JSON object keyed by function name.
pub open spec fn flows_json(fs: Seq<FlowV>) -> Seq<char> {
    fmt(
        "{{}}"@,
        seq![
            join(
                fs.map_values(
                    |f: FlowV| fmt("\"{}\":{}"@, seq![json_text(f.name), flow_json(f)]),
                ),
                ","@,
            ),
        ],
    )
}

/// JSON-encode a whole program's data-flow as an object keyed by function name.
/// Functions appear in source order.
pub fn to_json(flows: &[FnDataFlow]) -> (r: String)
    ensures
        r@ == flows_json(flow_views(flows@)),
{
    let mut parts: Vec<String> = Vec::new();
    let mut i: usize = 0;
    while i < flows.len()
        invariant
            i <= flows@.len(),
            parts@.len() == i,
            forall|j: int|
                0 <= j < i ==> (#[trigger] parts@[j])@ == fmt(
                    "\"{}\":{}"@,
                    seq![json_text(flows@[j]@.name), flow_json(flows@[j]@)],
                ),
        decreases flows@.len() - i,
    {
        let name: String = json_escape(flows[i].name.as_str());
        let body: String = flows[i].to_json();
        parts.push(fill2("\"{}\":{}", name.as_str(), body.as_str()));
        i = i + 1;
    }
    assert(views(parts@) =~= flow_views(flows@).map_values(
        |f: FlowV| fmt("\"{}\":{}"@, seq![json_text(f.name), flow_json(f)]),
    ));
    let list: String = join_strings(&parts, ",");
    fill1("{{}}", list.as_str())
}

// ---------------------------------------------------------------------------
// Warnings
// ---------------------------------------------------------------------------

/// Unused variable: a `let` binding that is never read. Every binding is assigned
/// once, so such a `let` is dead and the warning is exact.
pub const W_UNUSED_VARIABLE: &'static str = "W0001";

/// Unused parameter. It is not emitted: a parameter can be unused because a
/// signature or an interface requires it. Reserved for an explicit lint mode.
pub const W_UNUSED_PARAMETER: &'static str = "W0002";

/// The warning for an unused `let`.
pub open spec fn let_warning(function: Seq<char>, b: BindV) -> DiagV {
    located(
        (DiagV {
            severity: "warning"@,
            phase: "lint"@,
            code: "W0001"@,
            message: fmt("unused variable `{}`"@, seq![b.name]),
            line: None,
            col: None,
            end_line: None,
            end_col: None,
            function: Some(function),
        }),
        b.def_span,
    )
}

/// The warnings for the first `n` bindings of a function, after those before it.
pub open spec fn fn_warnings(f: FlowV, n: nat, before: Seq<DiagV>) -> Seq<DiagV>
    decreases n,
{
    if n == 0 || n > f.bindings.len() {
        before
    } else {
        let w = fn_warnings(f, (n - 1) as nat, before);
        let b = f.bindings[n - 1];
        if b.kind == BindKind::Let && b.unused {
            w.push(let_warning(f.name, b))
        } else {
            w
        }
    }
}

/// The warnings for the first `n` functions.
pub open spec fn warnings(fs: Seq<FlowV>, n: nat) -> Seq<DiagV>
    decreases n,
{
    if n == 0 || n > fs.len() {
        Seq::empty()
    } else {
        fn_warnings(fs[n - 1], fs[n - 1].bindings.len(), warnings(fs, (n - 1) as nat))
    }
}

/// The models of a list of diagnostics.
pub open spec fn diag_views(v: Seq<Diagnostic>) -> Seq<DiagV> {
    v.map_values(|d: Diagnostic| d@)
}

/// Emit the unused-binding warnings: one for each `let` that is never read.
/// Parameters, match binders and lambda parameters give none: a signature, a
/// pattern or a callback shape routinely leaves some of those unused.
pub fn unused_let_warnings(flows: &[FnDataFlow]) -> (r: Vec<Diagnostic>)
    ensures
        diag_views(r@) == warnings(flow_views(flows@), flows@.len()),
{
    let mut out: Vec<Diagnostic> = Vec::new();
    let ghost fs = flow_views(flows@);
    let mut i: usize = 0;
    assert(diag_views(out@) =~= Seq::empty());
    while i < flows.len()
        invariant
            i <= flows@.len(),
            fs == flow_views(flows@),
            diag_views(out@) == warnings(fs, i as nat),
        decreases flows@.len() - i,
    {
        let f: &FnDataFlow = &flows[i];
        let ghost before = diag_views(out@);
        let mut j: usize = 0;
        while j < f.bindings.len()
            invariant
                j <= f.bindings@.len(),
                diag_views(out@) == fn_warnings(f@, j as nat, before),
            decreases f.bindings@.len() - j,
        {
            let b = &f.bindings[j];
            assert(f@.bindings[j as int] == b@);
            if b.kind == BindKind::Let && b.unused {
                let message: String = fill1("unused variable `{}`", b.name.as_str());
                let w: Diagnostic = Diagnostic::warning(
                    W_UNUSED_VARIABLE,
                    message,
                    b.def_span,
                    Some(f.name.clone()),
                );
                let ghost prev = out@;
                out.push(w);
                assert(diag_views(out@) =~= diag_views(prev).push(let_warning(f@.name, b@)));
            }
            j = j + 1;
        }
        assert(fs[i as int] == f@);
        i = i + 1;
    }
    out
}

/// What the front end makes of a source text that lexes, parses and type-checks:
/// the program, the spans of its lambda parameters, its recorded types, and the
/// names of the prelude functions that it was wrapped in.
#[derive(Debug)]
pub struct CheckedSource {
    pub program: Program,
    pub binders: BinderSpans,
    pub types: Vec<(Span, String)>,
    pub prelude_names: Vec<String>,
}

/// The warnings for a source text. `None` stands for a text that does not lex,
/// parse or type-check: lint warnings are only meaningful on otherwise clean code,
/// so it gives none.
pub fn warnings_for_source(checked: Option<&CheckedSource>) -> (r: Vec<Diagnostic>)
    ensures
        match checked {
            Some(c) => {
                let fs = flows_of(
                    c.program.items@,
                    c.program.items@.len(),
                    views(c.prelude_names@),
                    DfCx { types: c.types@, lambda_params: c.binders.lambda_params@ },
                );
                diag_views(r@) == warnings(fs, fs.len())
            },
            None => r@.len() == 0,
        },
{
    match checked {
        Some(c) => {
            let flows: Vec<FnDataFlow> = analyze(
                &c.program,
                &c.prelude_names,
                &c.types,
                &c.binders,
            );
            unused_let_warnings(flows.as_slice())
        },
        None => Vec::new(),
    }
}

/// A warning comes from an unused `let`, and every unused `let` gives one.
pub proof fn warnings_are_unused_lets(fs: Seq<FlowV>, w: DiagV)
    ensures
        warnings(fs, fs.len()).contains(w) <==> exists|i: int, j: int|
            0 <= i < fs.len() && 0 <= j < fs[i].bindings.len() && w == #[trigger] let_warning(
                fs[i].name,
                fs[i].bindings[j],
            ) && fs[i].bindings[j].kind == BindKind::Let && fs[i].bindings[j].unused,
{
    lemma_warnings(fs, fs.len(), w);
}

proof fn lemma_fn_warnings(f: FlowV, n: nat, before: Seq<DiagV>, w: DiagV)
    requires
        n <= f.bindings.len(),
    ensures
        fn_warnings(f, n, before).contains(w) <==> before.contains(w) || exists|j: int|
            0 <= j < n && w == #[trigger] let_warning(f.name, f.bindings[j]) && f.bindings[j].kind
                == BindKind::Let && f.bindings[j].unused,
    decreases n,
{
    if n > 0 {
        let prev = fn_warnings(f, (n - 1) as nat, before);
        let b = f.bindings[n - 1];
        lemma_fn_warnings(f, (n - 1) as nat, before, w);
        if b.kind == BindKind::Let && b.unused {
            let x = let_warning(f.name, b);
            let all = prev.push(x);
            assert(all.contains(w) <==> prev.contains(w) || w == x) by {
                if prev.contains(w) {
                    let k = prev.index_of(w);
                    assert(all[k] == w);
                }
                assert(all[prev.len() as int] == x);
            }
        }
    }
}

proof fn lemma_warnings(fs: Seq<FlowV>, n: nat, w: DiagV)
    requires
        n <= fs.len(),
    ensures
        warnings(fs, n).contains(w) <==> exists|i: int, j: int|
            0 <= i < n && 0 <= j < fs[i].bindings.len() && w == #[trigger] let_warning(
                fs[i].name,
                fs[i].bindings[j],
            ) && fs[i].bindings[j].kind == BindKind::Let && fs[i].bindings[j].unused,
    decreases n,
{
    if n > 0 {
        lemma_warnings(fs, (n - 1) as nat, w);
        let f = fs[n - 1];
        lemma_fn_warnings(f, f.bindings.len(), warnings(fs, (n - 1) as nat), w);
    }
}

} // verus!
