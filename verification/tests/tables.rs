//! Types, builtins, names and texts.

use aria::ast::{FloatLit, Span, Ty};
use aria::builtins::{lookup, names, signatures, BUILTIN_TYPES};
use aria::names::{NameMap, NameSet};
use aria::text::{fill3, i64_text, join_strings, str_lt, u128_text};
use aria::types::{clone_ty, debug_ty, show};

fn named(n: &str, args: Vec<Ty>) -> Ty {
    Ty::Named(n.to_string(), args)
}

#[test]
fn types_are_shown_as_the_source_spells_them() {
    let t = Ty::Fn(
        vec![Ty::Int, named("Map", vec![Ty::Str, Ty::Var("T".to_string())])],
        Box::new(named("List", vec![named("Unit2", vec![])])),
    );
    assert_eq!(show(&t), "(Int, Map[String, T]) -> List[Unit2]");
    assert_eq!(show(&clone_ty(&t)), show(&t));
    // The debug form quotes names, with escapes.
    assert_eq!(debug_ty(&named("a\"b", vec![Ty::Int])), "Named(\"a\\\"b\", [Int])");
    assert_eq!(debug_ty(&t), format!("{:?}", t));
}

#[test]
fn builtins_are_listed_once() {
    let sigs = signatures();
    assert_eq!(names(), sigs.iter().map(|s| s.0).collect::<Vec<_>>());
    let mut sorted = names();
    sorted.sort();
    sorted.dedup();
    assert_eq!(sorted.len(), sigs.len());
    let (params, ret) = lookup("array_push").expect("array_push");
    assert_eq!(params.iter().map(show).collect::<Vec<_>>(), vec!["Array[T]", "T"]);
    assert_eq!(show(&ret), "Array[T]");
    let (params, ret) = lookup("grad").expect("grad");
    assert_eq!(show(&params[0]), "(Vector) -> Float");
    assert_eq!((show(&params[1]), show(&ret)), ("Vector".to_string(), "Vector".to_string()));
    assert!(lookup("no_such_builtin").is_none());
    assert_eq!(BUILTIN_TYPES, ["Tensor", "Array", "Bytes", "Map", "Set", "Vector"]);
}

#[test]
fn name_tables() {
    let mut s = NameSet::new();
    for n in ["b", "a", "b", "B", "é"] {
        s.insert(n);
    }
    assert!(s.contains("a") && !s.contains("c"));
    assert_eq!(s.into_vec(), vec!["B", "a", "b", "é"]);
    let mut m: NameMap<u8> = NameMap::new();
    m.insert("k", 1);
    m.insert("k", 2);
    assert_eq!((m.get("k"), m.get("j")), (Some(&2), None));
}

#[test]
fn texts() {
    assert_eq!(i64_text(i64::MIN), i64::MIN.to_string());
    assert_eq!(u128_text(u128::MAX), u128::MAX.to_string());
    assert_eq!(fill3("{}{{}}{ }{}", "a", "b", "c"), "a{b}{ }c");
    assert_eq!(join_strings(&vec!["a".to_string(), String::new(), "b".to_string()], ", "), "a, , b");
    assert!(str_lt("a", "ab") && str_lt("Z", "a") && !str_lt("a", "a"));
}

#[test]
fn float_literals_tell_their_kind() {
    let lit = |v: f64| FloatLit { bits: v.to_bits(), shortest: String::new(), scientific: String::new() };
    assert!(lit(f64::NAN).nan() && !lit(f64::INFINITY).nan() && !lit(1.0).nan());
    assert!(lit(f64::NEG_INFINITY).infinite() && lit(f64::NEG_INFINITY).negative());
    assert!(lit(-0.0).negative() && !lit(f64::MAX).infinite());
    assert!(Span::none().is_none());
}

#[test]
fn each_builtin_is_found_by_its_name() {
    for (name, params, ret) in signatures() {
        let (p, r) = lookup(name).expect(name);
        assert_eq!(p.iter().map(show).collect::<Vec<_>>(), params.iter().map(show).collect::<Vec<_>>());
        assert_eq!(show(&r), show(&ret));
        for t in params.iter().chain(std::iter::once(&ret)) {
            if let Ty::Named(n, _) = t {
                assert!(BUILTIN_TYPES.contains(&n.as_str()), "{} in {}", n, name);
            }
        }
    }
}
