//! Canonical signature keys: renaming insensitivity, sensitivity to
//! swapped generic usage, predicate dropping, and the alias generator.

use overloadf::model::FnArg;
use overloadf::model::GenericParam;
use overloadf::model::Generics;
use overloadf::model::PatType;
use overloadf::model::Receiver;
use overloadf::model::Signature;
use overloadf::model::Tok;
use overloadf::model::WherePredicate;
use overloadf::normalize::IdentGen;
use overloadf::normalize::alias_string;
use overloadf::normalize::generics_normalize;
use overloadf::normalize::sig_normalize;

fn id(s: &str) -> Tok {
    Tok::Ident(s.to_string())
}

fn pu(s: &str) -> Tok {
    Tok::Punct(s.to_string())
}

fn ty_param(name: &str) -> GenericParam {
    GenericParam::TypeParam { name: name.to_string(), bounds: Vec::new() }
}

fn targ(pat: &str, ty: Vec<Tok>) -> FnArg {
    FnArg::Typed(PatType { attrs: Vec::new(), pat: vec![id(pat)], ty, assign: None })
}

fn sig(name: &str, params: Vec<GenericParam>, inputs: Vec<FnArg>, preds: Option<Vec<WherePredicate>>) -> Signature {
    Signature {
        constness: false,
        asyncness: false,
        unsafety: false,
        abi: None,
        ident: name.to_string(),
        generics: Generics { params, where_clause: preds },
        inputs,
        variadic: false,
        output: None,
    }
}

/// `fn f<A>(x: A, y: A)` and `fn f<Z>(p: Z, q: Z)` normalize to one key.
#[test]
fn consistent_renaming_one_key() {
    let s1 = sig(
        "f",
        vec![ty_param("A")],
        vec![targ("x", vec![id("A")]), targ("y", vec![id("A")])],
        None,
    );
    let s2 = sig(
        "f",
        vec![ty_param("Z")],
        vec![targ("p", vec![id("Z")]), targ("q", vec![id("Z")])],
        None,
    );
    assert_eq!(sig_normalize(&s1), sig_normalize(&s2));
}

/// `fn f<A,B>(x: A, y: B)` and `fn f<A,B>(x: B, y: A)` normalize
/// differently: the aliasing is positional, not a free permutation.
#[test]
fn swapped_generic_usage_two_keys() {
    let s1 = sig(
        "f",
        vec![ty_param("A"), ty_param("B")],
        vec![targ("x", vec![id("A")]), targ("y", vec![id("B")])],
        None,
    );
    let s2 = sig(
        "f",
        vec![ty_param("A"), ty_param("B")],
        vec![targ("x", vec![id("B")]), targ("y", vec![id("A")])],
        None,
    );
    assert_ne!(sig_normalize(&s1), sig_normalize(&s2));
}

/// Argument names never reach the key.
#[test]
fn argument_names_ignored() {
    let s1 = sig("f", Vec::new(), vec![targ("alpha", vec![id("i32")])], None);
    let s2 = sig("f", Vec::new(), vec![targ("omega", vec![id("i32")])], None);
    assert_eq!(sig_normalize(&s1), sig_normalize(&s2));
}

/// The key of a plain one-argument function, spelled out: canonical
/// tokens, one space after each.
#[test]
fn key_rendering_exact() {
    let s = sig("f", Vec::new(), vec![targ("x", vec![id("i32")])], None);
    assert_eq!(sig_normalize(&s), "f < > ( _ : i32 , ) ");
}

/// A where-clause predicate whose bounded type names an unknown
/// identifier is dropped; the surviving predicate keeps the key equal to
/// the clause without the dropped one.
#[test]
fn unknown_predicate_dropped() {
    let keep = WherePredicate::TypePred {
        lifetimes: Vec::new(),
        bounded_ty: vec![id("T")],
        bounds: vec![id("Clone")],
    };
    let keep2 = WherePredicate::TypePred {
        lifetimes: Vec::new(),
        bounded_ty: vec![id("T")],
        bounds: vec![id("Clone")],
    };
    let drop = WherePredicate::TypePred {
        lifetimes: Vec::new(),
        bounded_ty: vec![id("V")],
        bounds: vec![id("Clone")],
    };
    let s1 = sig(
        "f",
        vec![ty_param("T")],
        vec![targ("x", vec![id("T")])],
        Some(vec![keep, drop]),
    );
    let s2 = sig(
        "f",
        vec![ty_param("T")],
        vec![targ("x", vec![id("T")])],
        Some(vec![keep2]),
    );
    assert_eq!(sig_normalize(&s1), sig_normalize(&s2));
}

/// Normalized generics rename the parameter and its occurrences in
/// bounds.
#[test]
fn generics_normalize_renames_positionally() {
    let g = Generics {
        params: vec![
            GenericParam::TypeParam {
                name: "T".to_string(),
                bounds: vec![id("Into"), pu("<"), id("T"), pu(">")],
            },
            ty_param("U"),
        ],
        where_clause: None,
    };
    let n = generics_normalize(&g);
    match &n.params[0] {
        GenericParam::TypeParam { name, bounds } => {
            assert_eq!(name, "_1");
            assert_eq!(bounds.len(), 4);
            match &bounds[2] {
                Tok::Ident(s) => assert_eq!(s, "_1"),
                _ => panic!("expected the renamed occurrence"),
            }
        }
        _ => panic!("expected a type parameter"),
    }
    match &n.params[1] {
        GenericParam::TypeParam { name, .. } => assert_eq!(name, "_2"),
        _ => panic!("expected a type parameter"),
    }
}

/// Receivers are distinguished by shape, and arity separates the
/// borrowed-receiver-only signature from the one with a second argument.
#[test]
fn receiver_keys_distinct() {
    let s1 = sig(
        "normal",
        Vec::new(),
        vec![FnArg::Receiver(Receiver { reference: true, lifetime: None, mutable: false })],
        None,
    );
    let s2 = sig(
        "normal",
        Vec::new(),
        vec![
            FnArg::Receiver(Receiver { reference: true, lifetime: None, mutable: false }),
            targ("prefix", vec![pu("&"), id("str")]),
        ],
        None,
    );
    assert_ne!(sig_normalize(&s1), sig_normalize(&s2));
}

/// The alias generator mints `_1`, `_2`, ... and renders positions
/// exactly.
#[test]
fn alias_generator_mints_positional_names() {
    let mut g = IdentGen::new();
    assert_eq!(g.ident(), "_1");
    assert_eq!(g.ident(), "_2");
    assert_eq!(g.id(7), "_7");
    assert_eq!(alias_string(10), "_10");
    assert_eq!(alias_string(205), "_205");
}
