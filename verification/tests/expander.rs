//! The default-parameter expander, walked variant by variant.

use overloadf::expand::InputIter;
use overloadf::expand::param_variants;
use overloadf::model::Assign;
use overloadf::model::Tok;
use overloadf::model::eq_toks;

fn id(s: &str) -> Tok {
    Tok::Ident(s.to_string())
}

fn pu(s: &str) -> Tok {
    Tok::Punct(s.to_string())
}

fn li(s: &str) -> Tok {
    Tok::Lit(s.to_string())
}

fn assert_toks(actual: &Vec<Tok>, expected: Vec<Tok>) {
    assert!(eq_toks(actual, &expected), "token mismatch");
}

/// No defaults: exactly one variant, the original list.
#[test]
fn no_defaults_one_variant() {
    let mut it = InputIter::new(
        vec![vec![id("i32")], vec![id("u8")]],
        vec![vec![id("a")], vec![id("b")]],
        vec![None, None],
    );
    let (tys, pats, stmts) = it.next().expect("one variant");
    assert_eq!(tys.len(), 2);
    assert_eq!(pats.len(), 2);
    assert!(stmts.is_empty());
    assert!(it.next().is_none());
}

/// Two trailing defaults: three variants, largest arity first, the
/// omitted arguments materialized right to left.
#[test]
fn trailing_defaults_expand() {
    let mut it = param_variants(
        vec![vec![id("i32")], vec![id("u64")]],
        vec![vec![id("a")], vec![id("b")]],
        vec![
            Some(Assign { right: vec![li("5_i32")] }),
            Some(Assign { right: vec![li("32_u64")] }),
        ],
    );
    let (t0, _p0, s0) = it.next().expect("full arity");
    assert_eq!(t0.len(), 2);
    assert!(s0.is_empty());
    let (t1, p1, s1) = it.next().expect("one omitted");
    assert_eq!(t1.len(), 1);
    assert_toks(&t1[0], vec![id("i32")]);
    assert_eq!(p1.len(), 1);
    assert_eq!(s1.len(), 1);
    assert_toks(&s1[0], vec![id("let"), id("b"), pu("="), li("32_u64"), pu(";")]);
    let (t2, _p2, s2) = it.next().expect("all omitted");
    assert!(t2.is_empty());
    assert_eq!(s2.len(), 2);
    assert_toks(&s2[0], vec![id("let"), id("a"), pu("="), li("5_i32"), pu(";")]);
    assert_toks(&s2[1], vec![id("let"), id("b"), pu("="), li("32_u64"), pu(";")]);
    assert!(it.next().is_none());
}

/// A non-defaulted argument between two defaulted ones is folded in per
/// position: `f(a = 5, b, c = 32)` keeps `b` in every variant.
#[test]
fn middle_argument_kept() {
    let mut it = InputIter::new(
        vec![vec![id("i32")], vec![id("u8")], vec![id("u64")]],
        vec![vec![id("a")], vec![id("b")], vec![id("c")]],
        vec![
            Some(Assign { right: vec![li("5_i32")] }),
            None,
            Some(Assign { right: vec![li("32_u64")] }),
        ],
    );
    let (t0, _p0, s0) = it.next().expect("full arity");
    assert_eq!(t0.len(), 3);
    assert!(s0.is_empty());
    let (t1, _p1, s1) = it.next().expect("c omitted");
    assert_eq!(t1.len(), 2);
    assert_toks(&t1[0], vec![id("i32")]);
    assert_toks(&t1[1], vec![id("u8")]);
    assert_eq!(s1.len(), 1);
    assert_toks(&s1[0], vec![id("let"), id("c"), pu("="), li("32_u64"), pu(";")]);
    let (t2, p2, s2) = it.next().expect("a and c omitted, b kept");
    assert_eq!(t2.len(), 1);
    assert_toks(&t2[0], vec![id("u8")]);
    assert_toks(&p2[0], vec![id("b")]);
    assert_eq!(s2.len(), 2);
    assert_toks(&s2[0], vec![id("let"), id("a"), pu("="), li("5_i32"), pu(";")]);
    assert_toks(&s2[1], vec![id("let"), id("c"), pu("="), li("32_u64"), pu(";")]);
    assert!(it.next().is_none());
}
