//! The call graph as JSON and as a summary for people.

use vstd::prelude::*;
use vstd::string::*;

use crate::analyze::{
    opt_views, pair_views, site_views, typed_views, CallGraph, FnInfo, FnV, GraphV, Signature,
    SignatureV, TypedSite, TypedV,
};
use crate::diagnostics::{array_text, json_array, json_escape, json_text, opt_view};
use crate::text::{
    dec, fill1, fill2, fill3, fill4, fill5, fmt, join, join_strings, put1, put3, put6, str_eq,
    usize_text, views,
};

verus! {

// ---------------------------------------------------------------------------
// JSON
// ---------------------------------------------------------------------------

/// A text as a JSON string.
pub open spec fn quoted(s: Seq<char>) -> Seq<char> {
    fmt("\"{}\""@, seq![json_text(s)])
}

/// A text as a JSON string.
pub fn quote(s: &str) -> (r: String)
    ensures
        r@ == quoted(s@),
{
    let inner: String = json_escape(s);
    fill1("\"{}\"", inner.as_str())
}

/// Strings as a JSON array.
pub open spec fn strings_json(xs: Seq<Seq<char>>) -> Seq<char> {
    json_array(xs.map_values(|x: Seq<char>| quoted(x)))
}

/// JSON-encode a list of strings as an array literal, escaping each element.
pub fn str_array_json(xs: &Vec<String>) -> (r: String)
    ensures
        r@ == strings_json(views(xs@)),
{
    let mut parts: Vec<String> = Vec::new();
    let mut i: usize = 0;
    while i < xs.len()
        invariant
            i <= xs@.len(),
            parts@.len() == i,
            forall|j: int| 0 <= j < i ==> (#[trigger] parts@[j])@ == quoted(xs@[j]@),
        decreases xs@.len() - i,
    {
        parts.push(quote(xs[i].as_str()));
        i = i + 1;
    }
    assert(views(parts@) =~= views(xs@).map_values(|x: Seq<char>| quoted(x)));
    array_text(&parts)
}

/// `true` or `false`.
pub open spec fn bool_text(b: bool) -> Seq<char> {
    if b {
        "true"@
    } else {
        "false"@
    }
}

/// `true` or `false`.
pub fn bool_str(b: bool) -> (r: &'static str)
    ensures
        r@ == bool_text(b),
{
    if b {
        "true"
    } else {
        "false"
    }
}

/// A pair as a JSON array.
pub open spec fn bound_json(p: (Seq<char>, Seq<char>)) -> Seq<char> {
    fmt("[\"{}\",\"{}\"]"@, seq![json_text(p.0), json_text(p.1)])
}

/// A parameter as a JSON object.
pub open spec fn param_json(p: (Seq<char>, Seq<char>)) -> Seq<char> {
    fmt("{\"name\":\"{}\",\"type\":\"{}\"}"@, seq![json_text(p.0), json_text(p.1)])
}

/// A signature as a JSON object.
pub open spec fn signature_json(s: SignatureV) -> Seq<char> {
    fmt(
        "{\"type_params\":{},\"bounds\":[{}],\"params\":[{}],\"ret\":\"{}\"}"@,
        seq![
            strings_json(s.type_params),
            join(s.bounds.map_values(|p: (Seq<char>, Seq<char>)| bound_json(p)), ","@),
            join(s.params.map_values(|p: (Seq<char>, Seq<char>)| param_json(p)), ","@),
            json_text(s.ret),
        ],
    )
}

fn bounds_text(v: &Vec<(String, String)>) -> (r: String)
    ensures
        r@ == join(
            pair_views(v@).map_values(|p: (Seq<char>, Seq<char>)| bound_json(p)),
            ","@,
        ),
{
    let mut parts: Vec<String> = Vec::new();
    let mut i: usize = 0;
    while i < v.len()
        invariant
            i <= v@.len(),
            parts@.len() == i,
            forall|j: int|
                0 <= j < i ==> (#[trigger] parts@[j])@ == bound_json((v@[j].0@, v@[j].1@)),
        decreases v@.len() - i,
    {
        let a: String = json_escape(v[i].0.as_str());
        let b: String = json_escape(v[i].1.as_str());
        parts.push(fill2("[\"{}\",\"{}\"]", a.as_str(), b.as_str()));
        i = i + 1;
    }
    assert(views(parts@) =~= pair_views(v@).map_values(
        |p: (Seq<char>, Seq<char>)| bound_json(p),
    ));
    join_strings(&parts, ",")
}

fn params_json(v: &Vec<(String, String)>) -> (r: String)
    ensures
        r@ == join(
            pair_views(v@).map_values(|p: (Seq<char>, Seq<char>)| param_json(p)),
            ","@,
        ),
{
    let mut parts: Vec<String> = Vec::new();
    let mut i: usize = 0;
    while i < v.len()
        invariant
            i <= v@.len(),
            parts@.len() == i,
            forall|j: int|
                0 <= j < i ==> (#[trigger] parts@[j])@ == param_json((v@[j].0@, v@[j].1@)),
        decreases v@.len() - i,
    {
        let a: String = json_escape(v[i].0.as_str());
        let b: String = json_escape(v[i].1.as_str());
        parts.push(fill2("{\"name\":\"{}\",\"type\":\"{}\"}", a.as_str(), b.as_str()));
        i = i + 1;
    }
    assert(views(parts@) =~= pair_views(v@).map_values(
        |p: (Seq<char>, Seq<char>)| param_json(p),
    ));
    join_strings(&parts, ",")
}

/// A type parameter with its first bound, if it has one.
pub open spec fn bounded(tp: Seq<char>, bounds: Seq<(Seq<char>, Seq<char>)>) -> Seq<char>
    decreases bounds.len(),
{
    if bounds.len() == 0 {
        tp
    } else if bounds[0].0 == tp {
        fmt("{}: {}"@, seq![tp, bounds[0].1])
    } else {
        bounded(tp, bounds.drop_first())
    }
}

/// A signature in Aria's surface syntax.
pub open spec fn rendered(s: SignatureV, name: Seq<char>) -> Seq<char> {
    fmt(
        "fn {}{}({}) -> {}"@,
        seq![
            name,
            if s.type_params.len() == 0 {
                ""@
            } else {
                fmt(
                    "[{}]"@,
                    seq![
                        join(s.type_params.map_values(|t: Seq<char>| bounded(t, s.bounds)), ", "@),
                    ],
                )
            },
            join(
                s.params.map_values(
                    |p: (Seq<char>, Seq<char>)| fmt("{}: {}"@, seq![p.0, p.1]),
                ),
                ", "@,
            ),
            s.ret,
        ],
    )
}

fn with_bound(tp: &str, bounds: &Vec<(String, String)>) -> (r: String)
    ensures
        r@ == bounded(tp@, pair_views(bounds@)),
{
    let ghost all = pair_views(bounds@);
    let mut i: usize = 0;
    assert(all.skip(0) =~= all);
    while i < bounds.len()
        invariant
            i <= bounds@.len(),
            all == pair_views(bounds@),
            bounded(tp@, all) == bounded(tp@, all.skip(i as int)),
        decreases bounds@.len() - i,
    {
        assert(all.skip(i as int)[0] == (bounds@[i as int].0@, bounds@[i as int].1@));
        assert(all.skip(i as int).drop_first() =~= all.skip(i + 1));
        if str_eq(bounds[i].0.as_str(), tp) {
            return fill2("{}: {}", tp, bounds[i].1.as_str());
        }
        i = i + 1;
    }
    tp.to_owned()
}

impl Signature {
    /// Render this signature in Aria surface syntax, e.g.
    /// `fn id[T](x: T) -> T` or `fn add(a: Int, b: Int) -> Int`.
    pub fn render(&self, name: &str) -> (r: String)
        ensures
            r@ == rendered(self@, name@),
    {
        let generics: String = if self.type_params.len() > 0 {
            let mut parts: Vec<String> = Vec::new();
            let mut i: usize = 0;
            while i < self.type_params.len()
                invariant
                    i <= self.type_params@.len(),
                    parts@.len() == i,
                    forall|j: int|
                        0 <= j < i ==> (#[trigger] parts@[j])@ == bounded(
                            self.type_params@[j]@,
                            pair_views(self.bounds@),
                        ),
                decreases self.type_params@.len() - i,
            {
                parts.push(with_bound(self.type_params[i].as_str(), &self.bounds));
                i = i + 1;
            }
            assert(views(parts@) =~= self@.type_params.map_values(
                |t: Seq<char>| bounded(t, self@.bounds),
            ));
            let inner: String = join_strings(&parts, ", ");
            fill1("[{}]", inner.as_str())
        } else {
            "".to_owned()
        };
        let mut ps: Vec<String> = Vec::new();
        let mut k: usize = 0;
        while k < self.params.len()
            invariant
                k <= self.params@.len(),
                ps@.len() == k,
                forall|j: int|
                    0 <= j < k ==> (#[trigger] ps@[j])@ == fmt(
                        "{}: {}"@,
                        seq![self.params@[j].0@, self.params@[j].1@],
                    ),
            decreases self.params@.len() - k,
        {
            ps.push(fill2("{}: {}", self.params[k].0.as_str(), self.params[k].1.as_str()));
            k = k + 1;
        }
        assert(views(ps@) =~= self@.params.map_values(
            |p: (Seq<char>, Seq<char>)| fmt("{}: {}"@, seq![p.0, p.1]),
        ));
        let list: String = join_strings(&ps, ", ");
        fill4("fn {}{}({}) -> {}", name, generics.as_str(), list.as_str(), self.ret.as_str())
    }

    /// JSON-encode this signature as a stable object.
    pub fn to_json(&self) -> (r: String)
        ensures
            r@ == signature_json(self@),
    {
        let tps: String = str_array_json(&self.type_params);
        let bounds: String = bounds_text(&self.bounds);
        let params: String = params_json(&self.params);
        let ret: String = json_escape(self.ret.as_str());
        fill4(
            "{\"type_params\":{},\"bounds\":[{}],\"params\":[{}],\"ret\":\"{}\"}",
            tps.as_str(),
            bounds.as_str(),
            params.as_str(),
            ret.as_str(),
        )
    }
}

/// A position as a JSON array.
pub open spec fn pos_json(p: (u32, u32)) -> Seq<char> {
    fmt("[{},{}]"@, seq![dec(p.0 as int), dec(p.1 as int)])
}

/// The sites of a callee as a JSON member.
pub open spec fn site_json(s: (Seq<char>, Seq<(u32, u32)>)) -> Seq<char> {
    fmt(
        "\"{}\":[{}]"@,
        seq![json_text(s.0), join(s.1.map_values(|p: (u32, u32)| pos_json(p)), ","@)],
    )
}

/// Call sites as a JSON object keyed by callee.
pub open spec fn sites_json(s: Seq<(Seq<char>, Seq<(u32, u32)>)>) -> Seq<char> {
    fmt(
        "{{}}"@,
        seq![join(s.map_values(|x: (Seq<char>, Seq<(u32, u32)>)| site_json(x)), ","@)],
    )
}

/// A position as a JSON pair.
pub fn pos_text(p: (u32, u32)) -> (r: String)
    ensures
        r@ == pos_json(p),
{
    let a: String = usize_text(p.0 as usize);
    let b: String = usize_text(p.1 as usize);
    fill2("[{},{}]", a.as_str(), b.as_str())
}

/// Positions as comma-separated JSON pairs.
pub fn positions_text(v: &Vec<(u32, u32)>) -> (r: String)
    ensures
        r@ == join(v@.map_values(|p: (u32, u32)| pos_json(p)), ","@),
{
    let mut parts: Vec<String> = Vec::new();
    let mut i: usize = 0;
    while i < v.len()
        invariant
            i <= v@.len(),
            parts@.len() == i,
            forall|j: int| 0 <= j < i ==> (#[trigger] parts@[j])@ == pos_json(v@[j]),
        decreases v@.len() - i,
    {
        parts.push(pos_text(v[i]));
        i = i + 1;
    }
    assert(views(parts@) =~= v@.map_values(|p: (u32, u32)| pos_json(p)));
    join_strings(&parts, ",")
}

/// JSON-encode a function's call sites as an object keyed by callee name, each
/// value an array of `[line, col]` pairs.
pub fn call_sites_json(sites: &Vec<(String, Vec<(u32, u32)>)>) -> (r: String)
    ensures
        r@ == sites_json(site_views(sites@)),
{
    let mut parts: Vec<String> = Vec::new();
    let mut i: usize = 0;
    while i < sites.len()
        invariant
            i <= sites@.len(),
            parts@.len() == i,
            forall|j: int|
                0 <= j < i ==> (#[trigger] parts@[j])@ == site_json((sites@[j].0@, sites@[j].1@)),
        decreases sites@.len() - i,
    {
        let name: String = json_escape(sites[i].0.as_str());
        let locs: String = positions_text(&sites[i].1);
        parts.push(fill2("\"{}\":[{}]", name.as_str(), locs.as_str()));
        i = i + 1;
    }
    assert(views(parts@) =~= site_views(sites@).map_values(
        |x: (Seq<char>, Seq<(u32, u32)>)| site_json(x),
    ));
    let inner: String = join_strings(&parts, ",");
    fill1("{{}}", inner.as_str())
}

/// An optional text as a JSON string or `null`.
pub open spec fn opt_json(t: Option<Seq<char>>) -> Seq<char> {
    match t {
        Some(s) => quoted(s),
        None => "null"@,
    }
}

/// An optional text as a JSON string or `null`.
pub fn opt_text(t: &Option<String>) -> (r: String)
    ensures
        r@ == opt_json(opt_view(*t)),
{
    match t {
        Some(s) => quote(s.as_str()),
        None => "null".to_owned(),
    }
}

/// A typed edge as a JSON object.
pub open spec fn typed_json(t: TypedV) -> Seq<char> {
    fmt(
        "{\"callee\":\"{}\",\"line\":{},\"col\":{},\"arg_types\":[{}],\"result_type\":{}}"@,
        seq![
            json_text(t.callee),
            dec(t.line as int),
            dec(t.col as int),
            join(t.arg_types.map_values(|a: Option<Seq<char>>| opt_json(a)), ","@),
            opt_json(t.result_type),
        ],
    )
}

fn opts_text(v: &Vec<Option<String>>) -> (r: String)
    ensures
        r@ == join(opt_views(v@).map_values(|a: Option<Seq<char>>| opt_json(a)), ","@),
{
    let mut parts: Vec<String> = Vec::new();
    let mut i: usize = 0;
    while i < v.len()
        invariant
            i <= v@.len(),
            parts@.len() == i,
            forall|j: int| 0 <= j < i ==> (#[trigger] parts@[j])@ == opt_json(opt_view(v@[j])),
        decreases v@.len() - i,
    {
        parts.push(opt_text(&v[i]));
        i = i + 1;
    }
    assert(views(parts@) =~= opt_views(v@).map_values(|a: Option<Seq<char>>| opt_json(a)));
    join_strings(&parts, ",")
}

/// JSON-encode a function's typed call edges as an array of objects. A type that
/// was unavailable is `null`.
pub fn typed_sites_json(sites: &Vec<TypedSite>) -> (r: String)
    ensures
        r@ == json_array(typed_views(sites@).map_values(|t: TypedV| typed_json(t))),
{
    let mut parts: Vec<String> = Vec::new();
    let mut i: usize = 0;
    while i < sites.len()
        invariant
            i <= sites@.len(),
            parts@.len() == i,
            forall|j: int| 0 <= j < i ==> (#[trigger] parts@[j])@ == typed_json(sites@[j]@),
        decreases sites@.len() - i,
    {
        let s: &TypedSite = &sites[i];
        let callee: String = json_escape(s.callee.as_str());
        let line: String = usize_text(s.line as usize);
        let col: String = usize_text(s.col as usize);
        let args: String = opts_text(&s.arg_types);
        let result: String = opt_text(&s.result_type);
        parts.push(
            fill5(
                "{\"callee\":\"{}\",\"line\":{},\"col\":{},\"arg_types\":[{}],\"result_type\":{}}",
                callee.as_str(),
                line.as_str(),
                col.as_str(),
                args.as_str(),
                result.as_str(),
            ),
        );
        i = i + 1;
    }
    assert(views(parts@) =~= typed_views(sites@).map_values(|t: TypedV| typed_json(t)));
    array_text(&parts)
}

/// A function's facts as a JSON object.
pub open spec fn fn_json(f: FnV) -> Seq<char> {
    fmt(
        "{\"name\":\"{}\",\"signature\":{},\"line\":{},\"user\":{},\"callees\":{},\"lib_callees\":{},"@,
        seq![
            json_text(f.name),
            signature_json(f.signature),
            dec(f.line as int),
            bool_text(f.user),
            strings_json(f.callees),
            strings_json(f.lib_callees),
        ],
    ) + fmt(
        "\"callers\":{},\"recursive\":{},\"fan_in\":{},\"fan_out\":{},\"call_sites\":{},\"typed_call_sites\":{}}"@,
        seq![
            strings_json(f.callers),
            bool_text(f.recursive),
            dec(f.fan_in as int),
            dec(f.fan_out as int),
            sites_json(f.call_sites),
            json_array(f.typed_sites.map_values(|t: TypedV| typed_json(t))),
        ],
    )
}

fn fn_to_json(f: &FnInfo) -> (r: String)
    ensures
        r@ == fn_json(f@),
{
    let name: String = json_escape(f.name.as_str());
    let signature: String = f.signature.to_json();
    let line: String = usize_text(f.line);
    let callees: String = str_array_json(&f.callees);
    let libs: String = str_array_json(&f.lib_callees);
    let callers: String = str_array_json(&f.callers);
    let fan_in: String = usize_text(f.fan_in);
    let fan_out: String = usize_text(f.fan_out);
    let sites: String = call_sites_json(&f.call_sites);
    let typed: String = typed_sites_json(&f.typed_sites);
    let mut s = String::new();
    put6(
        &mut s,
        "{\"name\":\"{}\",\"signature\":{},\"line\":{},\"user\":{},\"callees\":{},\"lib_callees\":{},",
        name.as_str(),
        signature.as_str(),
        line.as_str(),
        bool_str(f.user),
        callees.as_str(),
        libs.as_str(),
    );
    let ghost first = s@;
    put6(
        &mut s,
        "\"callers\":{},\"recursive\":{},\"fan_in\":{},\"fan_out\":{},\"call_sites\":{},\"typed_call_sites\":{}}",
        callers.as_str(),
        bool_str(f.recursive),
        fan_in.as_str(),
        fan_out.as_str(),
        sites.as_str(),
        typed.as_str(),
    );
    assert(s@ =~= fn_json(f@));
    s
}

/// The report as a JSON object.
pub open spec fn graph_json(g: GraphV) -> Seq<char> {
    fmt(
        "{\"entry\":{},\"functions\":[{}],\"unused\":{},\"unreachable\":{},\"cycles\":[{}]}"@,
        seq![
            opt_json(g.entry),
            join(g.functions.map_values(|f: FnV| fn_json(f)), ","@),
            strings_json(g.unused),
            strings_json(g.unreachable),
            join(g.cycles.map_values(|c: Seq<Seq<char>>| strings_json(c)), ","@),
        ],
    )
}

// ---------------------------------------------------------------------------
// The summary
// ---------------------------------------------------------------------------

/// A type, or `?` where none is known.
pub open spec fn known(t: Option<Seq<char>>) -> Seq<char> {
    match t {
        Some(s) => s,
        None => "?"@,
    }
}

/// A typed edge in the summary.
pub open spec fn typed_human(t: TypedV) -> Seq<char> {
    fmt(
        "  call:      {}({}) -> {}  @ {}:{}\n"@,
        seq![
            t.callee,
            join(t.arg_types.map_values(|a: Option<Seq<char>>| known(a)), ", "@),
            known(t.result_type),
            dec(t.line as int),
            dec(t.col as int),
        ],
    )
}

/// A list of names in the summary, if there are any.
pub open spec fn names_human(label: Seq<char>, names: Seq<Seq<char>>) -> Seq<char> {
    if names.len() == 0 {
        ""@
    } else {
        fmt("  {} {}\n"@, seq![label, join(names, ", "@)])
    }
}

/// A function in the summary: its signature, its fan-in and fan-out, its callees
/// and callers, and at most two typed edges.
pub open spec fn fn_human(f: FnV) -> Seq<char> {
    fmt(
        "{}  ({}){}\n"@,
        seq![
            rendered(f.signature, f.name),
            if f.line == 0 {
                "(generated)"@
            } else {
                fmt("line {}"@, seq![dec(f.line as int)])
            },
            if f.user {
                ""@
            } else {
                " [library]"@
            },
        ],
    ) + fmt(
        "  fan_in={} fan_out={}{}\n"@,
        seq![
            dec(f.fan_in as int),
            dec(f.fan_out as int),
            if f.recursive {
                " recursive"@
            } else {
                ""@
            },
        ],
    ) + names_human("calls:    "@, f.callees) + names_human("uses(lib):"@, f.lib_callees)
        + names_human("called by:"@, f.callers) + (if f.typed_sites.len() > 0 {
        typed_human(f.typed_sites[0])
    } else {
        ""@
    }) + (if f.typed_sites.len() > 1 {
        typed_human(f.typed_sites[1])
    } else {
        ""@
    }) + (if f.typed_sites.len() > 2 {
        fmt(
            "             (+{} more typed call site(s))\n"@,
            seq![dec(f.typed_sites.len() - 2)],
        )
    } else {
        ""@
    })
}

/// The functions up to `n` in the summary.
pub open spec fn fns_human(fs: Seq<FnV>, n: nat, out: Seq<char>) -> Seq<char>
    decreases n,
{
    if n == 0 || n > fs.len() {
        out
    } else {
        fns_human(fs, (n - 1) as nat, out) + fn_human(fs[n - 1])
    }
}

/// A cycle in the summary.
pub open spec fn cycle_human(c: Seq<Seq<char>>) -> Seq<char> {
    if c.len() == 1 {
        fmt("  - {} (self-recursive)\n"@, seq![c[0]])
    } else {
        fmt("  - {} (mutual)\n"@, seq![join(c, " <-> "@)])
    }
}

/// The cycles up to `n` in the summary.
pub open spec fn cycles_human(cs: Seq<Seq<Seq<char>>>, n: nat, out: Seq<char>) -> Seq<char>
    decreases n,
{
    if n == 0 || n > cs.len() {
        out
    } else {
        cycles_human(cs, (n - 1) as nat, out) + cycle_human(cs[n - 1])
    }
}

/// The summary of a report.
pub open spec fn graph_human(g: GraphV) -> Seq<char> {
    let head = (match g.entry {
        Some(e) => fmt("entry: {}\n"@, seq![e]),
        None => "entry: (no `main`)\n"@,
    }) + fmt("functions: {}\n\n"@, seq![dec(g.functions.len() as int)]);
    let derived = fns_human(g.functions, g.functions.len(), head) + "\n"@ + (if g.unused.len()
        == 0 {
        "unused: (none)\n"@
    } else {
        fmt("unused (dead code): {}\n"@, seq![join(g.unused, ", "@)])
    }) + (if g.unreachable.len() == 0 {
        ""@
    } else {
        fmt("unreachable from main: {}\n"@, seq![join(g.unreachable, ", "@)])
    });
    if g.cycles.len() == 0 {
        derived + "recursive cycles: (none)\n"@
    } else {
        cycles_human(g.cycles, g.cycles.len(), derived + "recursive cycles:\n"@)
    }
}

fn known_text(t: &Option<String>) -> (r: String)
    ensures
        r@ == known(opt_view(*t)),
{
    match t {
        Some(s) => s.clone(),
        None => "?".to_owned(),
    }
}

fn typed_text(t: &TypedSite) -> (r: String)
    ensures
        r@ == typed_human(t@),
{
    let mut parts: Vec<String> = Vec::new();
    let mut i: usize = 0;
    while i < t.arg_types.len()
        invariant
            i <= t.arg_types@.len(),
            parts@.len() == i,
            forall|j: int|
                0 <= j < i ==> (#[trigger] parts@[j])@ == known(opt_view(t.arg_types@[j])),
        decreases t.arg_types@.len() - i,
    {
        parts.push(known_text(&t.arg_types[i]));
        i = i + 1;
    }
    assert(views(parts@) =~= t@.arg_types.map_values(|a: Option<Seq<char>>| known(a)));
    let args: String = join_strings(&parts, ", ");
    let ret: String = known_text(&t.result_type);
    let line: String = usize_text(t.line as usize);
    let col: String = usize_text(t.col as usize);
    fill5(
        "  call:      {}({}) -> {}  @ {}:{}\n",
        t.callee.as_str(),
        args.as_str(),
        ret.as_str(),
        line.as_str(),
        col.as_str(),
    )
}

fn names_text(label: &str, names: &Vec<String>) -> (r: String)
    ensures
        r@ == names_human(label@, views(names@)),
{
    if names.len() == 0 {
        "".to_owned()
    } else {
        let joined: String = join_strings(names, ", ");
        fill2("  {} {}\n", label, joined.as_str())
    }
}

fn put_fn(f: &FnInfo, out: &mut String)
    ensures
        final(out)@ == old(out)@ + fn_human(f@),
{
    let ghost start = out@;
    let sig: String = f.signature.render(f.name.as_str());
    let line: String = if f.line == 0 {
        "(generated)".to_owned()
    } else {
        let n: String = usize_text(f.line);
        fill1("line {}", n.as_str())
    };
    let kind: &str = if f.user {
        ""
    } else {
        " [library]"
    };
    let mut s: String = fill3("{}  ({}){}\n", sig.as_str(), line.as_str(), kind);
    let fan_in: String = usize_text(f.fan_in);
    let fan_out: String = usize_text(f.fan_out);
    let rec: &str = if f.recursive {
        " recursive"
    } else {
        ""
    };
    put3(&mut s, "  fan_in={} fan_out={}{}\n", fan_in.as_str(), fan_out.as_str(), rec);
    let calls: String = names_text("calls:    ", &f.callees);
    s.append(calls.as_str());
    let libs: String = names_text("uses(lib):", &f.lib_callees);
    s.append(libs.as_str());
    let callers: String = names_text("called by:", &f.callers);
    s.append(callers.as_str());
    let n: usize = f.typed_sites.len();
    if n > 0 {
        let t: String = typed_text(&f.typed_sites[0]);
        s.append(t.as_str());
    } else {
        s.append("");
    }
    if n > 1 {
        let t: String = typed_text(&f.typed_sites[1]);
        s.append(t.as_str());
    } else {
        s.append("");
    }
    if n > 2 {
        let more: String = usize_text(n - 2);
        put1(&mut s, "             (+{} more typed call site(s))\n", more.as_str());
    } else {
        s.append("");
    }
    assert(s@ == fn_human(f@));
    out.append(s.as_str());
}

impl CallGraph {
    /// Emit the call graph as a stable, well-formed JSON object.
    pub fn to_json(&self) -> (r: String)
        ensures
            r@ == graph_json(self@),
    {
        let entry: String = opt_text(&self.entry);
        let mut fns: Vec<String> = Vec::new();
        let mut i: usize = 0;
        while i < self.functions.len()
            invariant
                i <= self.functions@.len(),
                fns@.len() == i,
                forall|j: int| 0 <= j < i ==> (#[trigger] fns@[j])@ == fn_json(self.functions@[j]@),
            decreases self.functions@.len() - i,
        {
            fns.push(fn_to_json(&self.functions[i]));
            i = i + 1;
        }
        assert(views(fns@) =~= self@.functions.map_values(|f: FnV| fn_json(f)));
        let functions: String = join_strings(&fns, ",");
        let unused: String = str_array_json(&self.unused);
        let unreachable: String = str_array_json(&self.unreachable);
        let mut cs: Vec<String> = Vec::new();
        let mut k: usize = 0;
        while k < self.cycles.len()
            invariant
                k <= self.cycles@.len(),
                cs@.len() == k,
                forall|j: int|
                    0 <= j < k ==> (#[trigger] cs@[j])@ == strings_json(views(self.cycles@[j]@)),
            decreases self.cycles@.len() - k,
        {
            cs.push(str_array_json(&self.cycles[k]));
            k = k + 1;
        }
        assert(views(cs@) =~= self@.cycles.map_values(|c: Seq<Seq<char>>| strings_json(c)));
        let cycles: String = join_strings(&cs, ",");
        fill5(
            "{\"entry\":{},\"functions\":[{}],\"unused\":{},\"unreachable\":{},\"cycles\":[{}]}",
            entry.as_str(),
            functions.as_str(),
            unused.as_str(),
            unreachable.as_str(),
            cycles.as_str(),
        )
    }

    /// A readable human summary of the call graph.
    pub fn to_human(&self) -> (r: String)
        ensures
            r@ == graph_human(self@),
    {
        let mut s: String = match &self.entry {
            Some(e) => fill1("entry: {}\n", e.as_str()),
            None => "entry: (no `main`)\n".to_owned(),
        };
        let count: String = usize_text(self.functions.len());
        put1(&mut s, "functions: {}\n\n", count.as_str());
        let ghost head = s@;
        let mut i: usize = 0;
        while i < self.functions.len()
            invariant
                i <= self.functions@.len(),
                s@ == fns_human(self@.functions, i as nat, head),
            decreases self.functions@.len() - i,
        {
            assert(self@.functions[i as int] == self.functions@[i as int]@);
            put_fn(&self.functions[i], &mut s);
            i = i + 1;
        }
        s.append("\n");
        if self.unused.len() == 0 {
            s.append("unused: (none)\n");
        } else {
            let names: String = join_strings(&self.unused, ", ");
            put1(&mut s, "unused (dead code): {}\n", names.as_str());
        }
        if self.unreachable.len() == 0 {
            s.append("");
        } else {
            let names: String = join_strings(&self.unreachable, ", ");
            put1(&mut s, "unreachable from main: {}\n", names.as_str());
        }
        if self.cycles.len() == 0 {
            s.append("recursive cycles: (none)\n");
        } else {
            s.append("recursive cycles:\n");
            let ghost start = s@;
            let mut k: usize = 0;
            while k < self.cycles.len()
                invariant
                    k <= self.cycles@.len(),
                    s@ == cycles_human(self@.cycles, k as nat, start),
                decreases self.cycles@.len() - k,
            {
                let c: &Vec<String> = &self.cycles[k];
                assert(self@.cycles[k as int] == views(c@));
                if c.len() == 1 {
                    assert(views(c@)[0] == c@[0]@);
                    put1(&mut s, "  - {} (self-recursive)\n", c[0].as_str());
                } else {
                    let names: String = join_strings(c, " <-> ");
                    put1(&mut s, "  - {} (mutual)\n", names.as_str());
                }
                k = k + 1;
            }
        }
        s
    }
}

} // verus!
