//! The declaration parser: accepted shapes, extracted structure, and
//! refusals.

use overloadf::model::FnArg;
use overloadf::model::GenericParam;
use overloadf::model::Tok;
use overloadf::model::eq_toks;
use overloadf::parse::ParseErrorKind;
use overloadf::parse::parse_item_fn;

fn id(s: &str) -> Tok {
    Tok::Ident(s.to_string())
}

fn pu(s: &str) -> Tok {
    Tok::Punct(s.to_string())
}

fn li(s: &str) -> Tok {
    Tok::Lit(s.to_string())
}

fn lt(s: &str) -> Tok {
    Tok::Life(s.to_string())
}

fn assert_toks(actual: &Vec<Tok>, expected: Vec<Tok>) {
    assert!(eq_toks(actual, &expected), "token mismatch");
}

/// `fn xdd(number: i32) -> i32 { number * 3 }`.
#[test]
fn plain_function_parses() {
    let toks = vec![
        id("fn"),
        id("xdd"),
        pu("("),
        id("number"),
        pu(":"),
        id("i32"),
        pu(")"),
        pu("->"),
        id("i32"),
        pu("{"),
        id("number"),
        pu("*"),
        li("3"),
        pu("}"),
    ];
    let f = parse_item_fn(&toks).expect("parses");
    assert_eq!(f.sig.ident, "xdd");
    assert_eq!(f.sig.inputs.len(), 1);
    match &f.sig.inputs[0] {
        FnArg::Typed(pt) => {
            assert_toks(&pt.pat, vec![id("number")]);
            assert_toks(&pt.ty, vec![id("i32")]);
            assert!(pt.assign.is_none());
        }
        _ => panic!("expected a typed argument"),
    }
    assert_toks(f.sig.output.as_ref().expect("output"), vec![id("i32")]);
    assert_toks(&f.block, vec![id("number"), pu("*"), li("3")]);
}

/// The inline default of the extended grammar: `fn f(a: i32 = 5) {}`.
#[test]
fn inline_default_parses() {
    let toks = vec![
        id("fn"),
        id("f"),
        pu("("),
        id("a"),
        pu(":"),
        id("i32"),
        pu("="),
        li("5"),
        pu(")"),
        pu("{"),
        pu("}"),
    ];
    let f = parse_item_fn(&toks).expect("parses");
    match &f.sig.inputs[0] {
        FnArg::Typed(pt) => {
            let a = pt.assign.as_ref().expect("default");
            assert_toks(&a.right, vec![li("5")]);
        }
        _ => panic!("expected a typed argument"),
    }
}

/// A default-value attribute on an argument is carried through.
#[test]
fn default_attribute_parses() {
    let toks = vec![
        id("fn"),
        id("f"),
        pu("("),
        pu("#"),
        pu("["),
        id("default"),
        pu("("),
        pu("="),
        li("5_i32"),
        pu(")"),
        pu("]"),
        id("a"),
        pu(":"),
        id("i32"),
        pu(")"),
        pu("{"),
        pu("}"),
    ];
    let f = parse_item_fn(&toks).expect("parses");
    match &f.sig.inputs[0] {
        FnArg::Typed(pt) => {
            assert_eq!(pt.attrs.len(), 1);
            assert_toks(&pt.attrs[0].path, vec![id("default")]);
            assert_toks(&pt.attrs[0].tail, vec![pu("("), pu("="), li("5_i32"), pu(")")]);
        }
        _ => panic!("expected a typed argument"),
    }
}

/// Receiver shapes and a trailing variadic marker.
#[test]
fn receiver_and_variadic_parse() {
    let toks = vec![
        id("fn"),
        id("m"),
        pu("("),
        pu("&"),
        lt("a"),
        id("mut"),
        id("self"),
        pu(","),
        id("x"),
        pu(":"),
        id("i32"),
        pu(","),
        pu("..."),
        pu(")"),
        pu("{"),
        pu("}"),
    ];
    let f = parse_item_fn(&toks).expect("parses");
    assert!(f.sig.variadic);
    assert_eq!(f.sig.inputs.len(), 2);
    match &f.sig.inputs[0] {
        FnArg::Receiver(r) => {
            assert!(r.reference);
            assert!(r.mutable);
            assert_eq!(r.lifetime.as_deref(), Some("a"));
        }
        _ => panic!("expected the receiver first"),
    }
}

/// Generics with a lifetime, a bounded type parameter, and a where
/// clause.
#[test]
fn generics_and_where_parse() {
    let toks = vec![
        id("fn"),
        id("g"),
        pu("<"),
        lt("a"),
        pu(","),
        id("T"),
        pu(":"),
        id("Clone"),
        pu(">"),
        pu("("),
        id("x"),
        pu(":"),
        pu("&"),
        lt("a"),
        id("T"),
        pu(")"),
        id("where"),
        id("T"),
        pu(":"),
        id("Send"),
        pu("{"),
        pu("}"),
    ];
    let f = parse_item_fn(&toks).expect("parses");
    assert_eq!(f.sig.generics.params.len(), 2);
    match &f.sig.generics.params[0] {
        GenericParam::LifeParam { name, bounds } => {
            assert_eq!(name, "a");
            assert!(bounds.is_empty());
        }
        _ => panic!("expected the lifetime parameter"),
    }
    match &f.sig.generics.params[1] {
        GenericParam::TypeParam { name, bounds } => {
            assert_eq!(name, "T");
            assert_toks(bounds, vec![id("Clone")]);
        }
        _ => panic!("expected the type parameter"),
    }
    let preds = f.sig.generics.where_clause.as_ref().expect("where clause");
    assert_eq!(preds.len(), 1);
}

/// The legacy type-only argument: a bare `Vec<u8>` with no pattern.
#[test]
fn legacy_type_only_argument_parses() {
    let toks = vec![
        id("fn"),
        id("f"),
        pu("("),
        id("Vec"),
        pu("<"),
        id("u8"),
        pu(">"),
        pu(")"),
        pu("{"),
        pu("}"),
    ];
    let f = parse_item_fn(&toks).expect("parses");
    match &f.sig.inputs[0] {
        FnArg::Typed(pt) => {
            assert!(pt.pat.is_empty());
            assert_toks(&pt.ty, vec![id("Vec"), pu("<"), id("u8"), pu(">")]);
        }
        _ => panic!("expected the type-only argument"),
    }
}

/// A second receiver is refused.
#[test]
fn second_receiver_refused() {
    let toks = vec![
        id("fn"),
        id("m"),
        pu("("),
        id("self"),
        pu(","),
        id("self"),
        pu(")"),
        pu("{"),
        pu("}"),
    ];
    let e = parse_item_fn(&toks).err().expect("refused");
    assert_eq!(e.kind, ParseErrorKind::SecondReceiver);
}

/// A receiver after the first position is refused.
#[test]
fn late_receiver_refused() {
    let toks = vec![
        id("fn"),
        id("m"),
        pu("("),
        id("x"),
        pu(":"),
        id("i32"),
        pu(","),
        pu("&"),
        id("self"),
        pu(")"),
        pu("{"),
        pu("}"),
    ];
    let e = parse_item_fn(&toks).err().expect("refused");
    assert_eq!(e.kind, ParseErrorKind::ReceiverNotFirst);
}

/// A variadic marker that is not last is refused.
#[test]
fn early_variadic_refused() {
    let toks = vec![
        id("fn"),
        id("m"),
        pu("("),
        pu("..."),
        pu(","),
        id("x"),
        pu(":"),
        id("i32"),
        pu(")"),
        pu("{"),
        pu("}"),
    ];
    let e = parse_item_fn(&toks).err().expect("refused");
    assert_eq!(e.kind, ParseErrorKind::VariadicNotLast);
}

/// A declaration without its body brace is refused.
#[test]
fn missing_body_refused() {
    let toks = vec![id("fn"), id("m"), pu("("), pu(")")];
    assert!(parse_item_fn(&toks).is_err());
}

/// Qualifiers arrive as keyword tokens and land in the signature flags.
#[test]
fn qualifiers_parse() {
    let toks = vec![
        Tok::Kw(overloadf::Kw::KwConst),
        Tok::Kw(overloadf::Kw::KwAsync),
        Tok::Kw(overloadf::Kw::KwUnsafe),
        id("fn"),
        id("q"),
        pu("("),
        pu(")"),
        pu("{"),
        pu("}"),
    ];
    let f = parse_item_fn(&toks).expect("parses");
    assert!(f.sig.constness);
    assert!(f.sig.asyncness);
    assert!(f.sig.unsafety);
}
