//! End-to-end transformation scenarios over the structured output.

use overloadf::model::Attr;
use overloadf::model::Diag;
use overloadf::model::DiagCode;
use overloadf::model::FnArg;
use overloadf::model::Generics;
use overloadf::model::ImplItem;
use overloadf::model::ImplMethod;
use overloadf::model::Item;
use overloadf::model::ItemFn;
use overloadf::model::ItemImpl;
use overloadf::model::ItemTrait;
use overloadf::model::Level;
use overloadf::model::PatType;
use overloadf::model::Receiver;
use overloadf::model::Signature;
use overloadf::model::Tok;
use overloadf::model::TraitItem;
use overloadf::model::TraitMethod;
use overloadf::model::eq_toks;
use overloadf::out::GenItem;
use overloadf::process::overload;
use overloadf::process::process_fn;
use overloadf::process::process_impl;
use overloadf::process::process_trait;
use overloadf::session::Session;

fn id(s: &str) -> Tok {
    Tok::Ident(s.to_string())
}

fn pu(s: &str) -> Tok {
    Tok::Punct(s.to_string())
}

fn li(s: &str) -> Tok {
    Tok::Lit(s.to_string())
}

fn toks(ts: &[Tok]) -> Vec<Tok> {
    ts.iter()
        .map(|t| match t {
            Tok::Ident(s) => Tok::Ident(s.clone()),
            Tok::Life(s) => Tok::Life(s.clone()),
            Tok::Punct(s) => Tok::Punct(s.clone()),
            Tok::Lit(s) => Tok::Lit(s.clone()),
            Tok::Kw(k) => Tok::Kw(*k),
        })
        .collect()
}

fn plain_sig(name: &str, inputs: Vec<FnArg>, output: Option<Vec<Tok>>) -> Signature {
    Signature {
        constness: false,
        asyncness: false,
        unsafety: false,
        abi: None,
        ident: name.to_string(),
        generics: Generics { params: Vec::new(), where_clause: None },
        inputs,
        variadic: false,
        output,
    }
}

fn typed_arg(pat: &str, ty: &[Tok]) -> FnArg {
    FnArg::Typed(PatType {
        attrs: Vec::new(),
        pat: vec![id(pat)],
        ty: toks(ty),
        assign: None,
    })
}

fn typed_arg_with_default(pat: &str, ty: &[Tok], default_expr: &[Tok]) -> FnArg {
    let mut tail = vec![pu("("), pu("=")];
    tail.extend(toks(default_expr));
    tail.push(pu(")"));
    FnArg::Typed(PatType {
        attrs: vec![Attr { inner: false, path: vec![id("default")], tail }],
        pat: vec![id(pat)],
        ty: toks(ty),
        assign: None,
    })
}

fn assert_toks(actual: &Vec<Tok>, expected: &[Tok]) {
    let e = toks(expected);
    assert!(eq_toks(actual, &e), "token mismatch");
}

/// Two same-named free functions with distinct argument types: one shared
/// dispatch type and static binding, one call-contract group per member,
/// each group holding its member's tuple type and body.
#[test]
fn two_overloads_route_by_tuple() {
    let mut sess = Session::new();
    let f1 = ItemFn {
        attrs: Vec::new(),
        vis: Vec::new(),
        sig: plain_sig("xdd", vec![typed_arg("number", &[id("i32")])], Some(vec![id("i32")])),
        block: vec![id("number"), pu("*"), li("3")],
    };
    let (items1, diags1) = process_fn(&mut sess, &f1);
    assert!(diags1.is_empty());
    assert_eq!(items1.len(), 2);
    match &items1[0] {
        GenItem::Prepare(p) => {
            assert_eq!(p.name, "Overloader_xdd");
            assert_eq!(p.static_ident.as_deref(), Some("xdd"));
            assert!(!p.phantom_generic);
        }
        _ => panic!("expected the dispatch-type declaration first"),
    }
    match &items1[1] {
        GenItem::FnImpls(g) => {
            assert_eq!(g.shared_type, "Overloader_xdd");
            assert_eq!(g.input_tuple.len(), 1);
            assert_toks(&g.input_tuple[0], &[id("i32")]);
            assert_toks(&g.pats[0], &[id("number")]);
            assert!(g.defaults.is_empty());
            assert_toks(&g.body, &[id("number"), pu("*"), li("3")]);
            assert_toks(&g.output, &[id("i32")]);
        }
        _ => panic!("expected one call-contract group"),
    }

    let f2 = ItemFn {
        attrs: Vec::new(),
        vis: Vec::new(),
        sig: plain_sig(
            "xdd",
            vec![typed_arg("number", &[pu("&"), id("u64")])],
            Some(vec![id("u64")]),
        ),
        block: vec![pu("*"), id("number"), pu("*"), li("4")],
    };
    let (items2, diags2) = process_fn(&mut sess, &f2);
    assert!(diags2.is_empty());
    // The name is taken: no second dispatch type, only the new group.
    assert_eq!(items2.len(), 1);
    match &items2[0] {
        GenItem::FnImpls(g) => {
            assert_eq!(g.shared_type, "Overloader_xdd");
            assert_toks(&g.input_tuple[0], &[pu("&"), id("u64")]);
            assert_toks(&g.body, &[pu("*"), id("number"), pu("*"), li("4")]);
        }
        _ => panic!("expected only the new call-contract group"),
    }
}

/// Default-parameter expansion of `xdd(a: i32 = 5, b: u64 = 32)`: three
/// variants, largest arity first, each omitted argument materialized as
/// a synthesized let statement.
#[test]
fn default_expansion_three_variants() {
    let mut sess = Session::new();
    let f = ItemFn {
        attrs: Vec::new(),
        vis: Vec::new(),
        sig: plain_sig(
            "xdd",
            vec![
                typed_arg_with_default("a", &[id("i32")], &[li("5_i32")]),
                typed_arg_with_default("b", &[id("u64")], &[li("32_u64")]),
            ],
            Some(vec![id("u64")]),
        ),
        block: vec![id("b"), pu("-"), id("a"), id("as"), id("u64")],
    };
    let (items, diags) = process_fn(&mut sess, &f);
    assert!(diags.is_empty());
    assert_eq!(items.len(), 4);
    let groups: Vec<_> = items
        .iter()
        .filter_map(|it| match it {
            GenItem::FnImpls(g) => Some(g),
            _ => None,
        })
        .collect();
    assert_eq!(groups.len(), 3);
    // Full arity: both arguments, no synthesized statements.
    assert_eq!(groups[0].input_tuple.len(), 2);
    assert_toks(&groups[0].input_tuple[0], &[id("i32")]);
    assert_toks(&groups[0].input_tuple[1], &[id("u64")]);
    assert!(groups[0].defaults.is_empty());
    // One omitted: `b` is synthesized.
    assert_eq!(groups[1].input_tuple.len(), 1);
    assert_toks(&groups[1].input_tuple[0], &[id("i32")]);
    assert_eq!(groups[1].defaults.len(), 1);
    assert_toks(&groups[1].defaults[0], &[id("let"), id("b"), pu("="), li("32_u64"), pu(";")]);
    // Both omitted: `a` and `b` are synthesized.
    assert_eq!(groups[2].input_tuple.len(), 0);
    assert_eq!(groups[2].defaults.len(), 2);
    assert_toks(&groups[2].defaults[0], &[id("let"), id("a"), pu("="), li("5_i32"), pu(";")]);
    assert_toks(&groups[2].defaults[1], &[id("let"), id("b"), pu("="), li("32_u64"), pu(";")]);
    // Every variant shares the one body and dispatch type.
    for g in &groups {
        assert_eq!(g.shared_type, "Overloader_xdd");
        assert_toks(&g.body, &[id("b"), pu("-"), id("a"), id("as"), id("u64")]);
    }
}

/// A malformed default-value attribute refuses the declaration: nothing
/// is emitted, one error names the function.
#[test]
fn malformed_default_is_refused() {
    let mut sess = Session::new();
    let f = ItemFn {
        attrs: Vec::new(),
        vis: Vec::new(),
        sig: plain_sig(
            "xdd",
            vec![FnArg::Typed(PatType {
                attrs: vec![Attr {
                    inner: false,
                    path: vec![id("default")],
                    tail: vec![pu("("), li("5"), pu(")")],
                }],
                pat: vec![id("a")],
                ty: vec![id("i32")],
                assign: None,
            })],
            None,
        ),
        block: Vec::new(),
    };
    let (items, diags) = process_fn(&mut sess, &f);
    assert!(items.is_empty());
    assert_eq!(diags.len(), 1);
    assert_eq!(diags[0].level, Level::Error);
    assert_eq!(diags[0].code, DiagCode::MalformedDefault);
}

fn trait_method(name: &str, arg_ty: &[Tok], default: Option<Vec<Tok>>) -> TraitMethod {
    TraitMethod {
        attrs: Vec::new(),
        sig: plain_sig(name, vec![typed_arg("input", arg_ty)], Some(vec![id("Self")])),
        default,
    }
}

/// A trait with two same-named methods: the declarations leave the trait,
/// one associated constant and one dispatch type take their place, and
/// the session records the group for later impls.
#[test]
fn trait_rewrite_groups_methods() {
    let mut sess = Session::new();
    let tr = ItemTrait {
        attrs: Vec::new(),
        vis: Vec::new(),
        ident: "Xdd".to_string(),
        head_rest: Vec::new(),
        items: vec![
            TraitItem::Method(trait_method("new", &[id("i32")], None)),
            TraitItem::Method(trait_method("new", &[id("u32")], None)),
        ],
    };
    let (items, diags) = process_trait(&mut sess, &tr);
    assert!(diags.is_empty());
    assert_eq!(items.len(), 2);
    match &items[0] {
        GenItem::Prepare(p) => {
            assert_eq!(p.name, "Overloader_Xdd_new");
            assert!(p.phantom_generic);
            assert!(p.static_ident.is_none());
        }
        _ => panic!("expected the dispatch-type declaration"),
    }
    match &items[1] {
        GenItem::RewrittenTrait(t) => {
            assert_eq!(t.ident, "Xdd");
            assert_eq!(t.items.len(), 1);
            match &t.items[0] {
                overloadf::out::TraitItemOut::Const(c) => {
                    assert_eq!(c.name, "new");
                    assert_eq!(c.shared_type, "Overloader_Xdd_new");
                    assert!(c.self_param);
                }
                _ => panic!("expected the associated-constant binding"),
            }
        }
        _ => panic!("expected the rewritten trait"),
    }
}

/// The inherited-overload scenario: the impl declares only the required
/// overload; the trait's default body for the sibling overload is
/// recovered and specialized, so both overloads are callable.
#[test]
fn impl_recovers_sibling_default() {
    let mut sess = Session::new();
    let tr = ItemTrait {
        attrs: Vec::new(),
        vis: Vec::new(),
        ident: "Xdd".to_string(),
        head_rest: Vec::new(),
        items: vec![
            TraitItem::Method(trait_method("new", &[id("i32")], None)),
            TraitItem::Method(trait_method(
                "new",
                &[id("u32")],
                Some(vec![id("Self"), pu("::"), id("make"), pu("("), id("input"), pu(")")]),
            )),
        ],
    };
    let (_t_items, t_diags) = process_trait(&mut sess, &tr);
    assert!(t_diags.is_empty());

    let im = ItemImpl {
        attrs: Vec::new(),
        generics_toks: Vec::new(),
        trait_path: Some(vec![id("Xdd")]),
        self_ty: vec![id("Haha")],
        where_toks: Vec::new(),
        items: vec![ImplItem::Method(ImplMethod {
            attrs: Vec::new(),
            vis: Vec::new(),
            sig: plain_sig("new", vec![typed_arg("input", &[id("i32")])], Some(vec![id(
                "Self",
            )])),
            block: vec![id("Self"), pu("{"), id("b"), pu(":"), id("input"), pu("}")],
        })],
    };
    let (items, diags) = process_impl(&sess, &im);
    assert!(diags.is_empty());
    let groups: Vec<_> = items
        .iter()
        .filter_map(|it| match it {
            GenItem::FnImpls(g) => Some(g),
            _ => None,
        })
        .collect();
    assert_eq!(groups.len(), 2);
    // The declared member, self-substituted.
    assert_eq!(groups[0].shared_type, "Overloader_Xdd_new");
    assert_toks(&groups[0].body, &[id("Haha"), pu("{"), id("b"), pu(":"), id("input"), pu("}")]);
    // The recovered default, specialized to the impl's self type.
    assert_eq!(groups[1].shared_type, "Overloader_Xdd_new");
    assert_toks(
        &groups[1].body,
        &[id("Haha"), pu("::"), id("make"), pu("("), id("input"), pu(")")],
    );
    match &groups[1].shared_generic {
        Some(tp) => assert_toks(tp, &[id("Haha")]),
        None => panic!("trait dispatch is parameterized by the self type"),
    }
}

/// An impl of a trait never processed is reported and emitted without
/// its items.
#[test]
fn unresolved_trait_is_reported() {
    let sess = Session::new();
    let im = ItemImpl {
        attrs: Vec::new(),
        generics_toks: Vec::new(),
        trait_path: Some(vec![id("Nope")]),
        self_ty: vec![id("Haha")],
        where_toks: Vec::new(),
        items: vec![ImplItem::Other(vec![id("x")])],
    };
    let (items, diags) = process_impl(&sess, &im);
    assert_eq!(diags.len(), 1);
    assert_eq!(diags[0].code, DiagCode::UnresolvedTrait);
    assert_eq!(diags[0].level, Level::Error);
    match &items[0] {
        GenItem::RewrittenImpl(io) => assert!(io.items.is_empty()),
        _ => panic!("expected the emptied impl shell"),
    }
}

/// A trait path with more than one segment is rejected as unsupported.
#[test]
fn compound_trait_path_is_rejected() {
    let sess = Session::new();
    let im = ItemImpl {
        attrs: Vec::new(),
        generics_toks: Vec::new(),
        trait_path: Some(vec![id("a"), pu("::"), id("B")]),
        self_ty: vec![id("Haha")],
        where_toks: Vec::new(),
        items: Vec::new(),
    };
    let (_items, diags) = process_impl(&sess, &im);
    assert_eq!(diags.len(), 1);
    assert_eq!(diags[0].code, DiagCode::AmbiguousPath);
}

/// A required trait method that the impl omits and that has no default
/// body is an error naming the method.
#[test]
fn missing_default_body_is_reported() {
    let mut sess = Session::new();
    let tr = ItemTrait {
        attrs: Vec::new(),
        vis: Vec::new(),
        ident: "Xdd".to_string(),
        head_rest: Vec::new(),
        items: vec![
            TraitItem::Method(trait_method("new", &[id("i32")], None)),
            TraitItem::Method(trait_method("new", &[id("u32")], None)),
        ],
    };
    process_trait(&mut sess, &tr);
    let im = ItemImpl {
        attrs: Vec::new(),
        generics_toks: Vec::new(),
        trait_path: Some(vec![id("Xdd")]),
        self_ty: vec![id("Haha")],
        where_toks: Vec::new(),
        items: vec![ImplItem::Method(ImplMethod {
            attrs: Vec::new(),
            vis: Vec::new(),
            sig: plain_sig("new", vec![typed_arg("input", &[id("i32")])], Some(vec![id(
                "Self",
            )])),
            block: Vec::new(),
        })],
    };
    let (_items, diags) = process_impl(&sess, &im);
    assert_eq!(diags.len(), 1);
    assert_eq!(diags[0].code, DiagCode::MissingDefaultBody);
}

/// A trait recorded without its method map is reported.
#[test]
fn missing_trait_definition_is_reported() {
    let sess = Session {
        namings: Vec::new(),
        trait_idents: vec![("Xdd".to_string(), vec!["new".to_string()])],
        default_definition: Vec::new(),
    };
    let im = ItemImpl {
        attrs: Vec::new(),
        generics_toks: Vec::new(),
        trait_path: Some(vec![id("Xdd")]),
        self_ty: vec![id("Haha")],
        where_toks: Vec::new(),
        items: Vec::new(),
    };
    let (_items, diags) = process_impl(&sess, &im);
    assert_eq!(diags.len(), 1);
    assert_eq!(diags[0].code, DiagCode::MissingTraitDefinition);
}

/// A plain impl with a duplicated method name routes the duplicates
/// through one dispatch type; the receiver becomes the first tuple slot.
#[test]
fn plain_impl_receiver_overloads() {
    let sess = Session::new();
    let m1 = ImplMethod {
        attrs: Vec::new(),
        vis: Vec::new(),
        sig: plain_sig(
            "normal",
            vec![FnArg::Receiver(Receiver { reference: true, lifetime: None, mutable: false })],
            Some(vec![id("String")]),
        ),
        block: vec![id("a")],
    };
    let m2 = ImplMethod {
        attrs: Vec::new(),
        vis: Vec::new(),
        sig: plain_sig(
            "normal",
            vec![
                FnArg::Receiver(Receiver { reference: true, lifetime: None, mutable: false }),
                typed_arg("prefix", &[pu("&"), id("str")]),
            ],
            Some(vec![id("String")]),
        ),
        block: vec![id("b")],
    };
    let im = ItemImpl {
        attrs: Vec::new(),
        generics_toks: Vec::new(),
        trait_path: None,
        self_ty: vec![id("Haha")],
        where_toks: Vec::new(),
        items: vec![ImplItem::Method(m1), ImplItem::Method(m2)],
    };
    let (items, diags) = process_impl(&sess, &im);
    assert!(diags.is_empty());
    let groups: Vec<_> = items
        .iter()
        .filter_map(|it| match it {
            GenItem::FnImpls(g) => Some(g),
            _ => None,
        })
        .collect();
    assert_eq!(groups.len(), 2);
    // The borrowed-receiver slot, then the by-reference argument.
    assert_eq!(groups[0].input_tuple.len(), 1);
    assert_toks(&groups[0].input_tuple[0], &[pu("&"), id("Haha")]);
    assert_toks(&groups[0].pats[0], &[id("__self")]);
    assert_eq!(groups[1].input_tuple.len(), 2);
    assert_toks(&groups[1].input_tuple[0], &[pu("&"), id("Haha")]);
    assert_toks(&groups[1].input_tuple[1], &[pu("&"), id("str")]);
    assert_eq!(groups[0].shared_type, "Overloader_Haha_normal");
    assert_eq!(groups[1].shared_type, "Overloader_Haha_normal");
}

/// Token input that is none of the three shapes produces nothing and one
/// warning per token.
#[test]
fn not_applicable_warns_per_token() {
    let mut sess = Session::new();
    let item = Item::Other(vec![id("struct"), id("S"), pu(";")]);
    let (items, diags) = overload(&mut sess, &item, false);
    assert!(items.is_empty());
    assert_eq!(diags.len(), 3);
    for d in &diags {
        assert_eq!(d.level, Level::Warning);
        assert_eq!(d.code, DiagCode::NotApplicable);
    }
}

/// A const qualifier is dropped with a warning; an unsafe one is
/// approximated with a warning; both still synthesize.
#[test]
fn qualifier_degradation_warns() {
    let mut sess = Session::new();
    let f = ItemFn {
        attrs: Vec::new(),
        vis: Vec::new(),
        sig: Signature {
            constness: true,
            asyncness: false,
            unsafety: true,
            abi: None,
            ident: "q".to_string(),
            generics: Generics { params: Vec::new(), where_clause: None },
            inputs: vec![typed_arg("x", &[id("i32")])],
            variadic: false,
            output: None,
        },
        block: vec![id("x")],
    };
    let (items, diags) = process_fn(&mut sess, &f);
    assert_eq!(items.len(), 2);
    let codes: Vec<Diag> = diags;
    assert_eq!(codes.len(), 2);
    assert_eq!(codes[0].code, DiagCode::UnsupportedConst);
    assert_eq!(codes[1].code, DiagCode::UnsupportedUnsafe);
    match &items[1] {
        GenItem::FnImpls(g) => {
            assert!(g.unsafety);
            // The missing return type is the unit type.
            assert_toks(&g.output, &[pu("("), pu(")")]);
        }
        _ => panic!("expected the call-contract group"),
    }
}

/// An async member's return type is wrapped in the boxed, pinned future
/// exactly once, over every expansion variant.
#[test]
fn async_output_wrapped_once() {
    let mut sess = Session::new();
    let f = ItemFn {
        attrs: Vec::new(),
        vis: Vec::new(),
        sig: Signature {
            constness: false,
            asyncness: true,
            unsafety: false,
            abi: None,
            ident: "aw".to_string(),
            generics: Generics { params: Vec::new(), where_clause: None },
            inputs: vec![
                typed_arg_with_default("a", &[id("i32")], &[li("1")]),
                typed_arg_with_default("b", &[id("i32")], &[li("2")]),
            ],
            variadic: false,
            output: Some(vec![id("i32")]),
        },
        block: vec![id("a")],
    };
    let (items, _diags) = process_fn(&mut sess, &f);
    let groups: Vec<_> = items
        .iter()
        .filter_map(|it| match it {
            GenItem::FnImpls(g) => Some(g),
            _ => None,
        })
        .collect();
    assert_eq!(groups.len(), 3);
    let expected = [
        id("core"),
        pu("::"),
        id("pin"),
        pu("::"),
        id("Pin"),
        pu("<"),
        id("Box"),
        pu("<"),
        id("dyn"),
        id("core"),
        pu("::"),
        id("future"),
        pu("::"),
        id("Future"),
        pu("<"),
        id("Output"),
        pu("="),
        id("i32"),
        pu(">"),
        pu(">"),
        pu(">"),
    ];
    for g in &groups {
        assert!(g.asyncness);
        assert_toks(&g.output, &expected);
    }
}
