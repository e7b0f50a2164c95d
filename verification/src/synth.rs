//! The dispatch-type synthesizer.
//!
//! For one member of an overload set — a free function, an impl method,
//! or a trait method with a default body — this module builds the
//! structured call-contract implementations: the exact argument-tuple
//! type, the binding patterns, the substituted body, and the return type.
//! Substitution of the implementing type for the self keywords is a
//! token-tree walk that touches only identifier tokens matching exactly,
//! never surrounding text.

use vstd::prelude::*;

use crate::model::FnArg;
use crate::model::FnArgV;
use crate::model::ImplMethod;
use crate::model::ImplMethodV;
use crate::model::ReceiverV;
use crate::model::Tok;
use crate::model::TokV;
use crate::model::TraitMethod;
use crate::model::TraitMethodV;
use crate::model::dup_attrs;
use crate::model::dup_toks;
use crate::normalize::tok_text;
use crate::out::FnTraitImpls;
use crate::out::FnTraitImplsV;
use vstd::string::StringExecFns;

verus! {

/// What one token becomes under self-substitution: the implementing type
/// for the exact identifier `Self`, a reserved placeholder for the exact
/// identifier `self`, the token itself otherwise.
pub open spec fn subst_tok1(t: TokV, to: Seq<TokV>) -> Seq<TokV> {
    match t {
        TokV::Ident(s) => if s == "Self"@ {
            to
        } else if s == "self"@ {
            seq![TokV::Ident("__self"@)]
        } else {
            seq![t]
        },
        TokV::Life(s) => seq![t],
        TokV::Punct(s) => seq![t],
        TokV::Lit(s) => seq![t],
        TokV::Kw(k) => seq![t],
    }
}

/// A token run under self-substitution.
pub open spec fn spec_subst_self(toks: Seq<TokV>, to: Seq<TokV>) -> Seq<TokV>
    decreases toks.len(),
{
    if toks.len() == 0 {
        Seq::empty()
    } else {
        subst_tok1(toks[0], to) + spec_subst_self(toks.drop_first(), to)
    }
}

/// Substitutes the implementing type through a token run.
pub fn subst_self(toks: &Vec<Tok>, to: &Vec<Tok>) -> (r: Vec<Tok>)
    ensures
        r.deep_view() == spec_subst_self(toks.deep_view(), to.deep_view()),
{
    let ghost xv = toks.deep_view();
    let ghost tv = to.deep_view();
    let mut r: Vec<Tok> = Vec::new();
    proof {
        assert(xv.skip(0) =~= xv);
        assert(r.deep_view() + spec_subst_self(xv, tv) =~= spec_subst_self(xv, tv));
    }
    let mut i: usize = 0;
    while i < toks.len()
        invariant
            i <= toks.len(),
            xv == toks.deep_view(),
            tv == to.deep_view(),
            xv.len() == toks@.len(),
            r.deep_view() + spec_subst_self(xv.skip(i as int), tv) =~= spec_subst_self(xv, tv),
        decreases toks.len() - i,
    {
        proof {
            assert(xv[i as int] == toks@[i as int]@);
            assert(xv.skip(i as int)[0] == xv[i as int]);
            assert(xv.skip(i as int).drop_first() =~= xv.skip(i as int + 1));
        }
        let ghost pre = r.deep_view();
        if toks[i].is_ident("Self") {
            crate::normalize::append_toks(&mut r, to);
        } else if toks[i].is_ident("self") {
            r.push(Tok::Ident("__self".to_owned()));
            proof {
                assert(r.deep_view() =~= pre.push(TokV::Ident("__self"@)));
            }
        } else {
            r.push(toks[i].dup());
            proof {
                assert(r.deep_view() =~= pre.push(xv[i as int]));
            }
        }
        proof {
            assert(r.deep_view() =~= pre + subst_tok1(xv[i as int], tv));
            assert(r.deep_view() + spec_subst_self(xv.skip(i as int + 1), tv) =~= spec_subst_self(
                xv,
                tv,
            ));
        }
        i += 1;
    }
    proof {
        assert(spec_subst_self(xv.skip(toks@.len() as int), tv) =~= Seq::<TokV>::empty());
        assert(r.deep_view() =~= spec_subst_self(xv, tv));
    }
    r
}

/// The tokens of the unit type.
pub open spec fn unit_toks() -> Seq<TokV> {
    seq![TokV::Punct("("@), TokV::Punct(")"@)]
}

/// The return type after self-substitution; a missing return type is the
/// unit type.
pub open spec fn spec_get_output(o: Option<Seq<TokV>>, tp: Seq<TokV>) -> Seq<TokV> {
    match o {
        None => unit_toks(),
        Some(t) => spec_subst_self(t, tp),
    }
}

/// The return type of a member, substituted.
pub fn get_output(ast: &Option<Vec<Tok>>, tp: &Vec<Tok>) -> (r: Vec<Tok>)
    ensures
        r.deep_view() == spec_get_output(ast.deep_view(), tp.deep_view()),
{
    match ast {
        None => {
            let mut r: Vec<Tok> = Vec::new();
            r.push(Tok::Punct("(".to_owned()));
            r.push(Tok::Punct(")".to_owned()));
            proof {
                assert(r.deep_view() =~= unit_toks());
            }
            r
        },
        Some(t) => subst_self(t, tp),
    }
}

/// The tokens wrapping an async member's return type into a boxed,
/// pinned future of it.
pub open spec fn async_output(out: Seq<TokV>) -> Seq<TokV> {
    seq![
        TokV::Ident("core"@),
        TokV::Punct("::"@),
        TokV::Ident("pin"@),
        TokV::Punct("::"@),
        TokV::Ident("Pin"@),
        TokV::Punct("<"@),
        TokV::Ident("Box"@),
        TokV::Punct("<"@),
        TokV::Ident("dyn"@),
        TokV::Ident("core"@),
        TokV::Punct("::"@),
        TokV::Ident("future"@),
        TokV::Punct("::"@),
        TokV::Ident("Future"@),
        TokV::Punct("<"@),
        TokV::Ident("Output"@),
        TokV::Punct("="@),
    ] + out + seq![TokV::Punct(">"@), TokV::Punct(">"@), TokV::Punct(">"@)]
}

/// Wraps a return type for an async member.
pub fn wrap_async_output(out: Vec<Tok>) -> (r: Vec<Tok>)
    ensures
        r.deep_view() == async_output(out.deep_view()),
{
    let ghost ov = out.deep_view();
    let mut r: Vec<Tok> = Vec::new();
    r.push(Tok::Ident("core".to_owned()));
    r.push(Tok::Punct("::".to_owned()));
    r.push(Tok::Ident("pin".to_owned()));
    r.push(Tok::Punct("::".to_owned()));
    r.push(Tok::Ident("Pin".to_owned()));
    r.push(Tok::Punct("<".to_owned()));
    r.push(Tok::Ident("Box".to_owned()));
    r.push(Tok::Punct("<".to_owned()));
    r.push(Tok::Ident("dyn".to_owned()));
    r.push(Tok::Ident("core".to_owned()));
    r.push(Tok::Punct("::".to_owned()));
    r.push(Tok::Ident("future".to_owned()));
    r.push(Tok::Punct("::".to_owned()));
    r.push(Tok::Ident("Future".to_owned()));
    r.push(Tok::Punct("<".to_owned()));
    r.push(Tok::Ident("Output".to_owned()));
    r.push(Tok::Punct("=".to_owned()));
    let mut tail = out;
    r.append(&mut tail);
    r.push(Tok::Punct(">".to_owned()));
    r.push(Tok::Punct(">".to_owned()));
    r.push(Tok::Punct(">".to_owned()));
    proof {
        assert(r.deep_view() =~= async_output(ov));
    }
    r
}

/// The member's final return type: async members get the future wrapper,
/// exactly once.
pub open spec fn member_output(o: Option<Seq<TokV>>, tp: Seq<TokV>, asyncness: bool) -> Seq<
    TokV,
> {
    if asyncness {
        async_output(spec_get_output(o, tp))
    } else {
        spec_get_output(o, tp)
    }
}

/// Builds the member's final return type.
pub fn build_member_output(ast: &Option<Vec<Tok>>, tp: &Vec<Tok>, asyncness: bool) -> (r: Vec<
    Tok,
>)
    ensures
        r.deep_view() == member_output(ast.deep_view(), tp.deep_view(), asyncness),
{
    let base = get_output(ast, tp);
    if asyncness {
        wrap_async_output(base)
    } else {
        base
    }
}

/// The text of a token run with nothing between the tokens: the
/// space-stripped rendering used inside generated type names.
pub open spec fn concat_text(toks: Seq<TokV>) -> Seq<char>
    decreases toks.len(),
{
    if toks.len() == 0 {
        Seq::empty()
    } else {
        tok_text(toks[0]) + concat_text(toks.drop_first())
    }
}

/// Renders a token run with nothing between the tokens.
pub fn concat_text_string(toks: &Vec<Tok>) -> (r: String)
    ensures
        r@ == concat_text(toks.deep_view()),
{
    let ghost tv = toks.deep_view();
    let mut out: String = String::new();
    proof {
        assert(tv.skip(0) =~= tv);
        assert(out@ + concat_text(tv) =~= concat_text(tv));
    }
    let mut i: usize = 0;
    while i < toks.len()
        invariant
            i <= toks.len(),
            tv == toks.deep_view(),
            tv.len() == toks@.len(),
            out@ + concat_text(tv.skip(i as int)) =~= concat_text(tv),
        decreases toks.len() - i,
    {
        proof {
            assert(tv[i as int] == toks@[i as int]@);
            assert(tv.skip(i as int)[0] == tv[i as int]);
            assert(tv.skip(i as int).drop_first() =~= tv.skip(i as int + 1));
        }
        match &toks[i] {
            Tok::Ident(s) => out.append(s.as_str()),
            Tok::Life(s) => {
                out.append("'");
                out.append(s.as_str());
                proof {
                    reveal_strlit("'");
                    assert("'"@ =~= seq!['\'']);
                }
            },
            Tok::Punct(s) => out.append(s.as_str()),
            Tok::Lit(s) => out.append(s.as_str()),
            Tok::Kw(k) => match k {
                crate::model::Kw::KwConst => out.append("#kc"),
                crate::model::Kw::KwAsync => out.append("#ka"),
                crate::model::Kw::KwUnsafe => out.append("#ku"),
                crate::model::Kw::KwAbi => out.append("#kx"),
            },
        }
        proof {
            assert(out@ + concat_text(tv.skip(i as int + 1)) =~= concat_text(tv));
        }
        i += 1;
    }
    proof {
        assert(concat_text(tv.skip(toks@.len() as int)) =~= Seq::<char>::empty());
        assert(out@ =~= concat_text(tv));
    }
    out
}

/// The dispatch-type name of a free-function overload set: one per
/// function name, shared by every overload and expansion variant of it.
pub open spec fn free_name(m: Seq<char>) -> Seq<char> {
    "Overloader_"@ + m
}

/// The dispatch-type name for a member inside a context: the context's
/// identifier and the member's, joined.
pub open spec fn ctx_name(c: Seq<char>, m: Seq<char>) -> Seq<char> {
    "Overloader_"@ + c + "_"@ + m
}

/// Builds the free-function dispatch-type name.
pub fn make_free_name(m: &String) -> (r: String)
    ensures
        r@ == free_name(m@),
{
    let mut s: String = String::from_str("Overloader_");
    s.append(m.as_str());
    s
}

/// Builds the in-context dispatch-type name.
pub fn make_ctx_name(c: &String, m: &String) -> (r: String)
    ensures
        r@ == ctx_name(c@, m@),
{
    let mut s: String = String::from_str("Overloader_");
    s.append(c.as_str());
    s.append("_");
    s.append(m.as_str());
    proof {
        reveal_strlit("_");
    }
    s
}

/// The tuple-slot type a receiver turns into: the implementing type, by
/// value, by reference, or by mutable reference.
pub open spec fn recv_ty(r: ReceiverV, tp: Seq<TokV>) -> Seq<TokV> {
    (if r.reference {
        seq![TokV::Punct("&"@)] + (if r.mutable {
            seq![TokV::Ident("mut"@)]
        } else {
            Seq::empty()
        })
    } else {
        Seq::empty()
    }) + tp
}

/// The reserved binding pattern of a receiver slot.
pub open spec fn self_pat() -> Seq<TokV> {
    seq![TokV::Ident("__self"@)]
}

/// Builds the receiver's tuple-slot type.
fn build_recv_ty(reference: bool, mutable: bool, tp: &Vec<Tok>) -> (r: Vec<Tok>)
    ensures
        r.deep_view() == recv_ty(
            ReceiverV { reference, lifetime: None, mutable },
            tp.deep_view(),
        ),
{
    let mut r: Vec<Tok> = Vec::new();
    if reference {
        r.push(Tok::Punct("&".to_owned()));
        if mutable {
            r.push(Tok::Ident("mut".to_owned()));
        }
    }
    crate::normalize::append_toks(&mut r, tp);
    proof {
        assert(r.deep_view() =~= recv_ty(
            ReceiverV { reference, lifetime: None, mutable },
            tp.deep_view(),
        ));
    }
    r
}

/// Whether a token run has the leading shape of a path type.
pub open spec fn is_path_ty(ty: Seq<TokV>) -> bool {
    ty.len() > 0 && ty[0] is Ident
}

/// Whether a path separator stands at angle-bracket depth zero, scanning
/// from position `i` at depth `depth`.
pub open spec fn pathsep_from(ty: Seq<TokV>, i: int, depth: int) -> bool
    decreases ty.len() - i,
{
    if i < 0 || i >= ty.len() {
        false
    } else {
        let d2 = if ty[i] == TokV::Punct("<"@) {
            depth + 1
        } else if ty[i] == TokV::Punct(">"@) {
            depth - 1
        } else {
            depth
        };
        (depth == 0 && ty[i] == TokV::Punct("::"@)) || pathsep_from(ty, i + 1, d2)
    }
}

/// Whether the type's path has more than one segment at top level.
pub open spec fn has_top_sep(ty: Seq<TokV>) -> bool {
    pathsep_from(ty, 0, 0)
}

/// Scans for a top-level path separator.
pub fn scan_top_sep_pub(ty: &Vec<Tok>) -> (r: bool)
    ensures
        r == has_top_sep(ty.deep_view()),
{
    let ghost tv = ty.deep_view();
    let mut depth: i128 = 0;
    let mut i: usize = 0;
    while i < ty.len()
        invariant
            i <= ty.len(),
            tv == ty.deep_view(),
            tv.len() == ty@.len(),
            -(i as i128) <= depth <= i as i128,
            has_top_sep(tv) == pathsep_from(tv, i as int, depth as int),
        decreases ty.len() - i,
    {
        proof {
            assert(tv[i as int] == ty@[i as int]@);
        }
        if depth == 0 && ty[i].is_punct("::") {
            return true;
        }
        if ty[i].is_punct("<") {
            depth += 1;
        } else if ty[i].is_punct(">") {
            depth -= 1;
        }
        i += 1;
    }
    false
}

/// The qualified form `< Type as TraitPath >` used when the argument's
/// path has more than one segment.
pub open spec fn qualified_path(tp: Seq<TokV>, path: Seq<TokV>) -> Seq<TokV> {
    seq![TokV::Punct("<"@)] + tp + seq![TokV::Ident("as"@)] + path + seq![TokV::Punct(">"@)]
}

/// Builds the qualified form.
fn build_qualified_path(tp: &Vec<Tok>, path: &Vec<Tok>) -> (r: Vec<Tok>)
    ensures
        r.deep_view() == qualified_path(tp.deep_view(), path.deep_view()),
{
    let mut r: Vec<Tok> = Vec::new();
    let ghost s0 = r.deep_view();
    r.push(Tok::Punct("<".to_owned()));
    proof {
        assert(r.deep_view() =~= s0.push(TokV::Punct("<"@)));
    }
    crate::normalize::append_toks(&mut r, tp);
    let ghost s1 = r.deep_view();
    r.push(Tok::Ident("as".to_owned()));
    proof {
        assert(r.deep_view() =~= s1.push(TokV::Ident("as"@)));
    }
    crate::normalize::append_toks(&mut r, path);
    let ghost s2 = r.deep_view();
    r.push(Tok::Punct(">".to_owned()));
    proof {
        assert(r.deep_view() =~= s2.push(TokV::Punct(">"@)));
        assert(r.deep_view() =~= qualified_path(tp.deep_view(), path.deep_view()));
    }
    r
}

/// A typed argument's tuple-slot type inside a trait context: a
/// single-segment path type has the self keywords substituted with the
/// trait path; a multi-segment one with the qualified form; any other
/// type passes through unchanged.
pub open spec fn trait_arg_ty(path: Seq<TokV>, tp: Seq<TokV>, ty: Seq<TokV>) -> Seq<TokV> {
    if is_path_ty(ty) {
        if has_top_sep(ty) {
            spec_subst_self(ty, qualified_path(tp, path))
        } else {
            spec_subst_self(ty, path)
        }
    } else {
        ty
    }
}

/// Builds a trait-context argument type.
fn build_trait_arg_ty(path: &Vec<Tok>, tp: &Vec<Tok>, ty: &Vec<Tok>) -> (r: Vec<Tok>)
    ensures
        r.deep_view() == trait_arg_ty(path.deep_view(), tp.deep_view(), ty.deep_view()),
{
    let is_path = match ty.len() {
        0 => false,
        _ => match &ty[0] {
            Tok::Ident(s) => true,
            _ => false,
        },
    };
    proof {
        if ty@.len() > 0 {
            assert(ty.deep_view()[0] == ty@[0]@);
        }
        assert(is_path == is_path_ty(ty.deep_view()));
    }
    if is_path {
        if scan_top_sep_pub(ty) {
            let q = build_qualified_path(tp, path);
            subst_self(ty, &q)
        } else {
            subst_self(ty, path)
        }
    } else {
        dup_toks(ty)
    }
}

/// The argument-tuple types of a plain-impl member.
pub open spec fn impl_tuple(tp: Seq<TokV>, inputs: Seq<FnArgV>) -> Seq<Seq<TokV>> {
    inputs.map_values(
        |a: FnArgV|
            match a {
                FnArgV::Receiver(r) => recv_ty(
                    ReceiverV { reference: r.reference, lifetime: None, mutable: r.mutable },
                    tp,
                ),
                FnArgV::Typed(pt) => pt.ty,
            },
    )
}

/// The binding patterns of a member's tuple slots.
pub open spec fn impl_pats(inputs: Seq<FnArgV>) -> Seq<Seq<TokV>> {
    inputs.map_values(
        |a: FnArgV|
            match a {
                FnArgV::Receiver(r) => self_pat(),
                FnArgV::Typed(pt) => pt.pat,
            },
    )
}

/// The argument-tuple types of a trait-context member.
pub open spec fn trait_tuple(path: Seq<TokV>, tp: Seq<TokV>, inputs: Seq<FnArgV>) -> Seq<
    Seq<TokV>,
> {
    inputs.map_values(
        |a: FnArgV|
            match a {
                FnArgV::Receiver(r) => recv_ty(
                    ReceiverV { reference: r.reference, lifetime: None, mutable: r.mutable },
                    tp,
                ),
                FnArgV::Typed(pt) => trait_arg_ty(path, tp, pt.ty),
            },
    )
}

/// Builds the tuple types and patterns of a plain-impl member.
fn build_impl_tuple(tp: &Vec<Tok>, inputs: &Vec<FnArg>) -> (r: (Vec<Vec<Tok>>, Vec<Vec<Tok>>))
    ensures
        r.0.deep_view() == impl_tuple(tp.deep_view(), inputs.deep_view()),
        r.1.deep_view() == impl_pats(inputs.deep_view()),
{
    let ghost tv = tp.deep_view();
    let ghost iv = inputs.deep_view();
    let ghost tgoal = impl_tuple(tv, iv);
    let ghost pgoal = impl_pats(iv);
    let mut tys: Vec<Vec<Tok>> = Vec::new();
    let mut pats: Vec<Vec<Tok>> = Vec::new();
    let mut i: usize = 0;
    while i < inputs.len()
        invariant
            i <= inputs.len(),
            tv == tp.deep_view(),
            iv == inputs.deep_view(),
            iv.len() == inputs@.len(),
            tgoal == impl_tuple(tv, iv),
            pgoal == impl_pats(iv),
            tys@.len() == i as int,
            pats@.len() == i as int,
            tys.deep_view() =~= tgoal.take(i as int),
            pats.deep_view() =~= pgoal.take(i as int),
        decreases inputs.len() - i,
    {
        proof {
            assert(iv[i as int] == inputs@[i as int].deep_view());
        }
        match &inputs[i] {
            FnArg::Receiver(rc) => {
                let ty = build_recv_ty(rc.reference, rc.mutable, tp);
                let mut p: Vec<Tok> = Vec::new();
                p.push(Tok::Ident("__self".to_owned()));
                proof {
                    assert(p.deep_view() =~= self_pat());
                    assert(ty.deep_view() == tgoal[i as int]);
                }
                tys.push(ty);
                pats.push(p);
            },
            FnArg::Typed(pt) => {
                let ty = dup_toks(&pt.ty);
                let p = dup_toks(&pt.pat);
                proof {
                    assert(ty.deep_view() == tgoal[i as int]);
                    assert(p.deep_view() == pgoal[i as int]);
                }
                tys.push(ty);
                pats.push(p);
            },
        }
        proof {
            assert(tys.deep_view() =~= tgoal.take(i as int + 1));
            assert(pats.deep_view() =~= pgoal.take(i as int + 1));
        }
        i += 1;
    }
    proof {
        assert(tys.deep_view() =~= tgoal);
        assert(pats.deep_view() =~= pgoal);
    }
    (tys, pats)
}

/// Builds the tuple types and patterns of a trait-context member.
fn build_trait_tuple(path: &Vec<Tok>, tp: &Vec<Tok>, inputs: &Vec<FnArg>) -> (r: (
    Vec<Vec<Tok>>,
    Vec<Vec<Tok>>,
))
    ensures
        r.0.deep_view() == trait_tuple(path.deep_view(), tp.deep_view(), inputs.deep_view()),
        r.1.deep_view() == impl_pats(inputs.deep_view()),
{
    let ghost pv = path.deep_view();
    let ghost tv = tp.deep_view();
    let ghost iv = inputs.deep_view();
    let ghost tgoal = trait_tuple(pv, tv, iv);
    let ghost pgoal = impl_pats(iv);
    let mut tys: Vec<Vec<Tok>> = Vec::new();
    let mut pats: Vec<Vec<Tok>> = Vec::new();
    let mut i: usize = 0;
    while i < inputs.len()
        invariant
            i <= inputs.len(),
            pv == path.deep_view(),
            tv == tp.deep_view(),
            iv == inputs.deep_view(),
            iv.len() == inputs@.len(),
            tgoal == trait_tuple(pv, tv, iv),
            pgoal == impl_pats(iv),
            tys@.len() == i as int,
            pats@.len() == i as int,
            tys.deep_view() =~= tgoal.take(i as int),
            pats.deep_view() =~= pgoal.take(i as int),
        decreases inputs.len() - i,
    {
        proof {
            assert(iv[i as int] == inputs@[i as int].deep_view());
        }
        match &inputs[i] {
            FnArg::Receiver(rc) => {
                let ty = build_recv_ty(rc.reference, rc.mutable, tp);
                let mut p: Vec<Tok> = Vec::new();
                p.push(Tok::Ident("__self".to_owned()));
                proof {
                    assert(p.deep_view() =~= self_pat());
                    assert(ty.deep_view() == tgoal[i as int]);
                }
                tys.push(ty);
                pats.push(p);
            },
            FnArg::Typed(pt) => {
                let ty = build_trait_arg_ty(path, tp, &pt.ty);
                let p = dup_toks(&pt.pat);
                proof {
                    assert(ty.deep_view() == tgoal[i as int]);
                    assert(p.deep_view() == pgoal[i as int]);
                }
                tys.push(ty);
                pats.push(p);
            },
        }
        proof {
            assert(tys.deep_view() =~= tgoal.take(i as int + 1));
            assert(pats.deep_view() =~= pgoal.take(i as int + 1));
        }
        i += 1;
    }
    proof {
        assert(tys.deep_view() =~= tgoal);
        assert(pats.deep_view() =~= pgoal);
    }
    (tys, pats)
}

/// The call-contract implementations of one plain-impl member: the tuple
/// holds the receiver slot and the raw argument types; the body and the
/// return type have the implementing type substituted in.
pub open spec fn spec_impl_method_to_non_trait(tp: Seq<TokV>, m: ImplMethodV) -> FnTraitImplsV {
    FnTraitImplsV {
        attrs: m.attrs,
        generics: m.sig.generics,
        shared_type: ctx_name(concat_text(tp), m.sig.ident),
        shared_generic: None,
        input_tuple: impl_tuple(tp, m.sig.inputs),
        pats: impl_pats(m.sig.inputs),
        defaults: Seq::empty(),
        output: member_output(m.sig.output, tp, m.sig.asyncness),
        asyncness: m.sig.asyncness,
        unsafety: m.sig.unsafety,
        body: spec_subst_self(m.block, tp),
    }
}

/// Synthesizes one plain-impl member.
pub fn impl_method_to_non_trait(tp: &Vec<Tok>, ast: &ImplMethod) -> (r: FnTraitImpls)
    ensures
        r.deep_view() == spec_impl_method_to_non_trait(tp.deep_view(), ast.deep_view()),
{
    let ctx = concat_text_string(tp);
    let (tys, pats) = build_impl_tuple(tp, &ast.sig.inputs);
    let defaults: Vec<Vec<Tok>> = Vec::new();
    proof {
        assert(defaults.deep_view() =~= Seq::<Seq<TokV>>::empty());
    }
    let r = FnTraitImpls {
        attrs: dup_attrs(&ast.attrs),
        generics: ast.sig.generics.dup(),
        shared_type: make_ctx_name(&ctx, &ast.sig.ident),
        shared_generic: None,
        input_tuple: tys,
        pats,
        defaults,
        output: build_member_output(&ast.sig.output, tp, ast.sig.asyncness),
        asyncness: ast.sig.asyncness,
        unsafety: ast.sig.unsafety,
        body: subst_self(&ast.block, tp),
    };
    proof {
        assert(r.deep_view().shared_generic == None::<Seq<TokV>>);
        assert(r.deep_view() == spec_impl_method_to_non_trait(tp.deep_view(), ast.deep_view()));
    }
    r
}

/// The call-contract implementations of one method declared in an impl
/// of a trait: argument types go through the trait-path substitution and
/// the dispatch type is the trait's, parameterized by the implementing
/// type.
pub open spec fn spec_impl_method_to_fn_trait(
    path: Seq<TokV>,
    tt: Seq<char>,
    tp: Seq<TokV>,
    m: ImplMethodV,
) -> FnTraitImplsV {
    FnTraitImplsV {
        attrs: m.attrs,
        generics: m.sig.generics,
        shared_type: ctx_name(tt, m.sig.ident),
        shared_generic: Some(tp),
        input_tuple: trait_tuple(path, tp, m.sig.inputs),
        pats: impl_pats(m.sig.inputs),
        defaults: Seq::empty(),
        output: member_output(m.sig.output, tp, m.sig.asyncness),
        asyncness: m.sig.asyncness,
        unsafety: m.sig.unsafety,
        body: spec_subst_self(m.block, tp),
    }
}

/// Synthesizes one method declared in an impl of a trait.
pub fn impl_method_to_fn_trait(
    path: &Vec<Tok>,
    tt: &String,
    tp: &Vec<Tok>,
    ast: &ImplMethod,
) -> (r: FnTraitImpls)
    ensures
        r.deep_view() == spec_impl_method_to_fn_trait(
            path.deep_view(),
            tt@,
            tp.deep_view(),
            ast.deep_view(),
        ),
{
    let (tys, pats) = build_trait_tuple(path, tp, &ast.sig.inputs);
    let defaults: Vec<Vec<Tok>> = Vec::new();
    proof {
        assert(defaults.deep_view() =~= Seq::<Seq<TokV>>::empty());
    }
    let sg = dup_toks(tp);
    let r = FnTraitImpls {
        attrs: dup_attrs(&ast.attrs),
        generics: ast.sig.generics.dup(),
        shared_type: make_ctx_name(tt, &ast.sig.ident),
        shared_generic: Some(sg),
        input_tuple: tys,
        pats,
        defaults,
        output: build_member_output(&ast.sig.output, tp, ast.sig.asyncness),
        asyncness: ast.sig.asyncness,
        unsafety: ast.sig.unsafety,
        body: subst_self(&ast.block, tp),
    };
    proof {
        assert(r.deep_view().shared_generic == Some(tp.deep_view()));
        assert(r.deep_view() == spec_impl_method_to_fn_trait(
            path.deep_view(),
            tt@,
            tp.deep_view(),
            ast.deep_view(),
        ));
    }
    r
}

/// The call-contract implementations recovered from a trait method's
/// default body, specialized to an implementing type; a required method
/// with no default body yields nothing.
pub open spec fn spec_trait_method_to_fn_trait(
    path: Seq<TokV>,
    tt: Seq<char>,
    tp: Seq<TokV>,
    m: TraitMethodV,
) -> Option<FnTraitImplsV> {
    match m.default {
        None => None,
        Some(block) => Some(
            FnTraitImplsV {
                attrs: m.attrs,
                generics: m.sig.generics,
                shared_type: ctx_name(tt, m.sig.ident),
                shared_generic: Some(tp),
                input_tuple: trait_tuple(path, tp, m.sig.inputs),
                pats: impl_pats(m.sig.inputs),
                defaults: Seq::empty(),
                output: member_output(m.sig.output, tp, m.sig.asyncness),
                asyncness: m.sig.asyncness,
                unsafety: m.sig.unsafety,
                body: spec_subst_self(block, tp),
            },
        ),
    }
}

/// Synthesizes a trait method's default body against an implementing
/// type.
pub fn trait_method_to_fn_trait(
    path: &Vec<Tok>,
    tt: &String,
    tp: &Vec<Tok>,
    ast: &TraitMethod,
) -> (r: Option<FnTraitImpls>)
    ensures
        match r {
            Some(f) => spec_trait_method_to_fn_trait(
                path.deep_view(),
                tt@,
                tp.deep_view(),
                ast.deep_view(),
            ) == Some(f.deep_view()),
            None => spec_trait_method_to_fn_trait(
                path.deep_view(),
                tt@,
                tp.deep_view(),
                ast.deep_view(),
            ) is None,
        },
{
    match &ast.default {
        None => None,
        Some(block) => {
            let (tys, pats) = build_trait_tuple(path, tp, &ast.sig.inputs);
            let defaults: Vec<Vec<Tok>> = Vec::new();
            proof {
                assert(defaults.deep_view() =~= Seq::<Seq<TokV>>::empty());
            }
            let sg = dup_toks(tp);
            let f = FnTraitImpls {
                attrs: dup_attrs(&ast.attrs),
                generics: ast.sig.generics.dup(),
                shared_type: make_ctx_name(tt, &ast.sig.ident),
                shared_generic: Some(sg),
                input_tuple: tys,
                pats,
                defaults,
                output: build_member_output(&ast.sig.output, tp, ast.sig.asyncness),
                asyncness: ast.sig.asyncness,
                unsafety: ast.sig.unsafety,
                body: subst_self(block, tp),
            };
            proof {
                assert(f.deep_view().shared_generic == Some(tp.deep_view()));
                assert(ast.deep_view().default == Some(block.deep_view()));
                assert(spec_trait_method_to_fn_trait(
                    path.deep_view(),
                    tt@,
                    tp.deep_view(),
                    ast.deep_view(),
                ) == Some(f.deep_view()));
            }
            Some(f)
        },
    }
}

} // verus!
