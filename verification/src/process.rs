//! The per-declaration transforms: free functions, trait declarations,
//! impl blocks, and the annotation entry point that dispatches between
//! them.
//!
//! Each transform consumes one declaration, consults and updates the
//! session registries, and produces the emitted items together with its
//! diagnostics.  Failures stay local to the declaration being processed.

use vstd::prelude::*;

use crate::expand::VariantV;
use crate::expand::param_variants;
use crate::expand::variant_at;
use crate::expand::variants_from;
use crate::model::Assign;
use crate::model::AssignV;
use crate::model::Attr;
use crate::model::AttrV;
use crate::model::Diag;
use crate::model::DiagCode;
use crate::model::DiagV;
use crate::model::FnArg;
use crate::model::FnArgV;
use crate::model::ItemFn;
use crate::model::ItemFnV;
use crate::model::ImplItem;
use crate::model::ImplItemV;
use crate::model::Item;
use crate::model::ItemImpl;
use crate::model::ItemImplV;
use crate::model::ItemTrait;
use crate::model::ItemTraitV;
use crate::model::ItemV;
use crate::model::TraitItem;
use crate::model::TraitItemV;
use crate::model::TraitMethod;
use crate::model::TraitMethodV;
use crate::model::Level;
use crate::model::Tok;
use crate::model::TokV;
use crate::model::dup_attrs;
use crate::model::dup_toks;
use crate::out::FnTraitImpls;
use crate::out::FnTraitImplsV;
use crate::out::GenItem;
use crate::out::GenItemV;
use crate::out::ConstBinding;
use crate::out::ConstBindingV;
use crate::out::Prepare;
use crate::out::PrepareV;
use crate::out::TraitItemOut;
use crate::out::TraitItemOutV;
use crate::out::ImplItemOut;
use crate::out::ImplItemOutV;
use crate::out::ImplOut;
use crate::out::ImplOutV;
use crate::out::TraitOut;
use crate::out::TraitOutV;
use crate::session::Session;
use crate::session::SessionV;
use crate::normalize::sig_normalize;
use crate::normalize::spec_sig_key;
use crate::session::assoc_get;
use crate::session::assoc_put;
use crate::synth::async_output;
use crate::synth::concat_text;
use crate::synth::ctx_name;
use crate::synth::impl_method_to_fn_trait;
use crate::synth::impl_method_to_non_trait;
use crate::synth::spec_impl_method_to_fn_trait;
use crate::synth::spec_impl_method_to_non_trait;
use crate::synth::spec_trait_method_to_fn_trait;
use crate::synth::trait_method_to_fn_trait;
use crate::synth::free_name;
use crate::synth::make_ctx_name;
use crate::synth::make_free_name;
use crate::synth::unit_toks;
use crate::synth::wrap_async_output;

verus! {

/// What a default-value attribute's tail must hold: `( = expression )`.
/// A malformed tail yields nothing.
pub open spec fn parse_default_tail(tail: Seq<TokV>) -> Option<AssignV> {
    if tail.len() >= 4 && tail[0] == TokV::Punct("("@) && tail[tail.len() - 1] == TokV::Punct(
        ")"@,
    ) && tail[1] == TokV::Punct("="@) {
        Some(AssignV { right: tail.subrange(2, tail.len() - 1) })
    } else {
        None
    }
}

/// The first default-value attribute of an argument: nothing when no
/// attribute names `default`; otherwise the parse of its tail.
pub open spec fn default_of_attrs(attrs: Seq<AttrV>) -> Option<Option<AssignV>>
    decreases attrs.len(),
{
    if attrs.len() == 0 {
        None
    } else if attrs[0].path == seq![TokV::Ident("default"@)] {
        Some(parse_default_tail(attrs[0].tail))
    } else {
        default_of_attrs(attrs.drop_first())
    }
}

/// The types of the typed arguments, in order; receivers contribute
/// nothing to a free function's tuple.
pub open spec fn fn_tys(inputs: Seq<FnArgV>) -> Seq<Seq<TokV>>
    decreases inputs.len(),
{
    if inputs.len() == 0 {
        Seq::empty()
    } else {
        (match inputs[0] {
            FnArgV::Typed(pt) => seq![pt.ty],
            FnArgV::Receiver(r) => Seq::empty(),
        }) + fn_tys(inputs.drop_first())
    }
}

/// The patterns of the typed arguments, in order.
pub open spec fn fn_pats(inputs: Seq<FnArgV>) -> Seq<Seq<TokV>>
    decreases inputs.len(),
{
    if inputs.len() == 0 {
        Seq::empty()
    } else {
        (match inputs[0] {
            FnArgV::Typed(pt) => seq![pt.pat],
            FnArgV::Receiver(r) => Seq::empty(),
        }) + fn_pats(inputs.drop_first())
    }
}

/// The default value drawn from one typed argument: the attribute form
/// wins; the inline form of the extended grammar is honoured when no
/// attribute names one.
pub open spec fn arg_default(pt: crate::model::PatTypeV) -> Option<AssignV> {
    match default_of_attrs(pt.attrs) {
        Some(d) => d,
        None => pt.assign,
    }
}

/// The default values of the typed arguments, in order.
pub open spec fn fn_defaults(inputs: Seq<FnArgV>) -> Seq<Option<AssignV>>
    decreases inputs.len(),
{
    if inputs.len() == 0 {
        Seq::empty()
    } else {
        (match inputs[0] {
            FnArgV::Typed(pt) => seq![arg_default(pt)],
            FnArgV::Receiver(r) => Seq::empty(),
        }) + fn_defaults(inputs.drop_first())
    }
}

/// Whether every default-value attribute in the argument list parses.
pub open spec fn fn_defaults_ok(inputs: Seq<FnArgV>) -> bool {
    forall|i: int|
        0 <= i < inputs.len() ==> match #[trigger] inputs[i] {
            FnArgV::Typed(pt) => default_of_attrs(pt.attrs) != Some(None::<AssignV>),
            FnArgV::Receiver(r) => true,
        }
}

/// A free function's return type: the declared type, or unit, with the
/// future wrapper for an async function — applied exactly once, however
/// many expansion variants there are.
pub open spec fn fn_output(o: Option<Seq<TokV>>, asyncness: bool) -> Seq<TokV> {
    let base = match o {
        None => unit_toks(),
        Some(t) => t,
    };
    if asyncness {
        async_output(base)
    } else {
        base
    }
}

/// The call-contract implementations of one expansion variant of a free
/// function: the variant's tuple, patterns and synthesized statements,
/// the function's own body, and the overload set's one dispatch type.
pub open spec fn fn_variant_impls(f: ItemFnV, v: VariantV) -> FnTraitImplsV {
    FnTraitImplsV {
        attrs: f.attrs,
        generics: f.sig.generics,
        shared_type: free_name(f.sig.ident),
        shared_generic: None,
        input_tuple: v.types,
        pats: v.pats,
        defaults: v.stmts,
        output: fn_output(f.sig.output, f.sig.asyncness),
        asyncness: f.sig.asyncness,
        unsafety: f.sig.unsafety,
        body: f.block,
    }
}

/// A warning diagnostic.
pub open spec fn warn_of(code: DiagCode, detail: Seq<char>) -> DiagV {
    DiagV { level: Level::Warning, code, detail }
}

/// An error diagnostic.
pub open spec fn err_of(code: DiagCode, detail: Seq<char>) -> DiagV {
    DiagV { level: Level::Error, code, detail }
}

/// What processing a free function does.
///
/// With any malformed default-value attribute the declaration is refused:
/// nothing is emitted or registered, one error is reported.  Otherwise
/// the function name is recorded; the first declaration under a name also
/// emits the dispatch type and its static binding, and every declaration
/// emits one set of call-contract implementations per default-expansion
/// variant, largest arity first.  A const qualifier and an unsafe
/// qualifier are each reported as approximated, once per declaration.
pub open spec fn spec_process_fn(sv: SessionV, f: ItemFnV) -> (SessionV, Seq<GenItemV>, Seq<
    DiagV,
>) {
    if !fn_defaults_ok(f.sig.inputs) {
        (sv, Seq::empty(), seq![err_of(DiagCode::MalformedDefault, f.sig.ident)])
    } else {
        let tys = fn_tys(f.sig.inputs);
        let pats = fn_pats(f.sig.inputs);
        let dfs = fn_defaults(f.sig.inputs);
        let fresh = !sv.namings.contains(f.sig.ident);
        let sv2 = SessionV {
            namings: if fresh {
                sv.namings.push(f.sig.ident)
            } else {
                sv.namings
            },
            trait_idents: sv.trait_idents,
            default_definition: sv.default_definition,
        };
        let prep: Seq<GenItemV> = if fresh {
            seq![
                GenItemV::Prepare(
                    PrepareV {
                        vis: f.vis,
                        name: free_name(f.sig.ident),
                        phantom_generic: false,
                        static_ident: Some(f.sig.ident),
                    },
                ),
            ]
        } else {
            Seq::empty()
        };
        let impls = variants_from(tys, pats, dfs, tys.len() as nat).map_values(
            |v: VariantV| GenItemV::FnImpls(fn_variant_impls(f, v)),
        );
        let diags: Seq<DiagV> = (if f.sig.constness {
            seq![warn_of(DiagCode::UnsupportedConst, f.sig.ident)]
        } else {
            Seq::empty()
        }) + (if f.sig.unsafety {
            seq![warn_of(DiagCode::UnsupportedUnsafe, f.sig.ident)]
        } else {
            Seq::empty()
        });
        (sv2, prep + impls, diags)
    }
}

/// Scans an argument's attributes for its default value.
fn find_default(attrs: &Vec<Attr>) -> (r: Result<Option<Assign>, ()>)
    ensures
        match r {
            Ok(d) => default_of_attrs(attrs.deep_view()) == match d {
                Some(a) => Some(Some(a.deep_view())),
                None => None::<Option<AssignV>>,
            },
            Err(e) => default_of_attrs(attrs.deep_view()) == Some(None::<AssignV>),
        },
{
    let ghost av = attrs.deep_view();
    proof {
        assert(av.skip(0) =~= av);
    }
    let mut i: usize = 0;
    while i < attrs.len()
        invariant
            i <= attrs.len(),
            av == attrs.deep_view(),
            av.len() == attrs@.len(),
            default_of_attrs(av) == default_of_attrs(av.skip(i as int)),
        decreases attrs.len() - i,
    {
        proof {
            assert(av[i as int] == attrs@[i as int].deep_view());
            assert(av.skip(i as int)[0] == av[i as int]);
            assert(av.skip(i as int).drop_first() =~= av.skip(i as int + 1));
        }
        let a = &attrs[i];
        let is_default = a.path.len() == 1 && a.path[0].is_ident("default");
        proof {
            let pv2 = av[i as int].path;
            assert(pv2 == a.path.deep_view());
            assert(pv2.len() == a.path@.len());
            if a.path@.len() == 1 {
                assert(pv2[0] == a.path@[0]@);
                assert(pv2 =~= seq![a.path@[0]@]);
            }
            if pv2 == seq![TokV::Ident("default"@)] {
                assert(pv2.len() == 1);
                assert(pv2[0] == TokV::Ident("default"@));
            }
            assert(is_default == (pv2 == seq![TokV::Ident("default"@)]));
        }
        if is_default {
            let t = &a.tail;
            let n = t.len();
            proof {
                assert(t.deep_view().len() == t@.len());
            }
            if n >= 4 && t[0].is_punct("(") && t[n - 1].is_punct(")") && t[1].is_punct("=") {
                proof {
                    assert(t.deep_view()[0] == t@[0]@);
                    assert(t.deep_view()[n - 1] == t@[n - 1]@);
                    assert(t.deep_view()[1] == t@[1]@);
                }
                let mut right: Vec<Tok> = Vec::new();
                let mut j: usize = 2;
                while j < n - 1
                    invariant
                        2 <= j <= n - 1,
                        n == t@.len(),
                        t.deep_view().len() == t@.len(),
                        right@.len() == j - 2,
                        right.deep_view() =~= t.deep_view().subrange(2, j as int),
                    decreases n - j,
                {
                    proof {
                        assert(t.deep_view()[j as int] == t@[j as int]@);
                    }
                    right.push(t[j].dup());
                    proof {
                        assert(right.deep_view() =~= t.deep_view().subrange(2, j as int + 1));
                    }
                    j += 1;
                }
                proof {
                    assert(parse_default_tail(t.deep_view()) == Some(
                        AssignV { right: t.deep_view().subrange(2, t.deep_view().len() - 1) },
                    ));
                }
                return Ok(Some(Assign { right }));
            } else {
                proof {
                    if t.deep_view().len() >= 4 {
                        assert(t.deep_view()[0] == t@[0]@);
                        assert(t.deep_view()[t.deep_view().len() - 1] == t@[t@.len() - 1]@);
                        assert(t.deep_view()[1] == t@[1]@);
                    }
                    assert(parse_default_tail(t.deep_view()) is None);
                }
                return Err(());
            }
        }
        i += 1;
    }
    proof {
        assert(av.skip(attrs@.len() as int) =~= Seq::<AttrV>::empty());
    }
    Ok(None)
}

/// Processes one free-function declaration.
pub fn process_fn(sess: &mut Session, ast: &ItemFn) -> (r: (Vec<GenItem>, Vec<Diag>))
    ensures
        (final(sess).deep_view(), r.0.deep_view(), r.1.deep_view()) == spec_process_fn(
            old(sess).deep_view(),
            ast.deep_view(),
        ),
        final(sess).deep_view().trait_idents == old(sess).deep_view().trait_idents,
        final(sess).deep_view().default_definition == old(sess).deep_view().default_definition,
        old(sess).wf() ==> final(sess).wf(),
{
    let ghost fv = ast.deep_view();
    let ghost iv = ast.sig.inputs.deep_view();
    let mut tys: Vec<Vec<Tok>> = Vec::new();
    let mut pats: Vec<Vec<Tok>> = Vec::new();
    let mut dfs: Vec<Option<Assign>> = Vec::new();
    let mut i: usize = 0;
    proof {
        assert(iv.skip(0) =~= iv);
    }
    while i < ast.sig.inputs.len()
        invariant
            i <= ast.sig.inputs.len(),
            fv == ast.deep_view(),
            iv == ast.sig.inputs.deep_view(),
            iv.len() == ast.sig.inputs@.len(),
            tys@.len() == pats@.len(),
            dfs@.len() == tys@.len(),
            tys.deep_view() + fn_tys(iv.skip(i as int)) =~= fn_tys(iv),
            pats.deep_view() + fn_pats(iv.skip(i as int)) =~= fn_pats(iv),
            dfs.deep_view() + fn_defaults(iv.skip(i as int)) =~= fn_defaults(iv),
            forall|j: int|
                0 <= j < i ==> match #[trigger] iv[j] {
                    FnArgV::Typed(pt) => default_of_attrs(pt.attrs) != Some(None::<AssignV>),
                    FnArgV::Receiver(rc) => true,
                },
        decreases ast.sig.inputs.len() - i,
    {
        proof {
            assert(iv[i as int] == ast.sig.inputs@[i as int].deep_view());
            assert(iv.skip(i as int)[0] == iv[i as int]);
            assert(iv.skip(i as int).drop_first() =~= iv.skip(i as int + 1));
        }
        match &ast.sig.inputs[i] {
            FnArg::Typed(pt) => {
                let d = match find_default(&pt.attrs) {
                    Ok(found) => match found {
                        Some(a) => Some(a),
                        None => crate::model::dup_opt_assign(&pt.assign),
                    },
                    Err(e) => {
                        let mut diags: Vec<Diag> = Vec::new();
                        diags.push(
                            Diag {
                                level: Level::Error,
                                code: DiagCode::MalformedDefault,
                                detail: ast.sig.ident.clone(),
                            },
                        );
                        let empty_items: Vec<GenItem> = Vec::new();
                        proof {
                            assert(fv.sig.inputs == iv);
                            assert(fv.sig.ident == ast.sig.ident@);
                            assert(iv[i as int] is Typed);
                            assert(default_of_attrs(iv[i as int]->Typed_0.attrs) == Some(
                                None::<AssignV>,
                            ));
                            assert(!fn_defaults_ok(fv.sig.inputs));
                            assert(diags@.len() == 1);
                            assert(diags.deep_view()[0] == diags@[0].deep_view());
                            assert(diags.deep_view() =~= seq![
                                err_of(DiagCode::MalformedDefault, fv.sig.ident),
                            ]);
                            assert(empty_items.deep_view() =~= Seq::<GenItemV>::empty());
                        }
                        return (empty_items, diags);
                    },
                };
                let ghost tsnap = tys.deep_view();
                let ghost psnap = pats.deep_view();
                let ghost dsnap = dfs.deep_view();
                tys.push(dup_toks(&pt.ty));
                pats.push(dup_toks(&pt.pat));
                dfs.push(d);
                proof {
                    assert(tys.deep_view() =~= tsnap.push(iv[i as int]->Typed_0.ty));
                    assert(pats.deep_view() =~= psnap.push(iv[i as int]->Typed_0.pat));
                    assert(dfs.deep_view() =~= dsnap.push(arg_default(iv[i as int]->Typed_0)));
                    assert(tys.deep_view() + fn_tys(iv.skip(i as int + 1)) =~= fn_tys(iv));
                    assert(pats.deep_view() + fn_pats(iv.skip(i as int + 1)) =~= fn_pats(iv));
                    assert(dfs.deep_view() + fn_defaults(iv.skip(i as int + 1)) =~= fn_defaults(
                        iv,
                    ));
                }
            },
            FnArg::Receiver(rc) => {
                proof {
                    assert(tys.deep_view() + fn_tys(iv.skip(i as int + 1)) =~= fn_tys(iv));
                    assert(pats.deep_view() + fn_pats(iv.skip(i as int + 1)) =~= fn_pats(iv));
                    assert(dfs.deep_view() + fn_defaults(iv.skip(i as int + 1)) =~= fn_defaults(
                        iv,
                    ));
                }
            },
        }
        i += 1;
    }
    proof {
        assert(iv.skip(iv.len() as int) =~= Seq::<FnArgV>::empty());
        assert(fn_tys(Seq::<FnArgV>::empty()) =~= Seq::<Seq<TokV>>::empty());
        assert(fn_pats(Seq::<FnArgV>::empty()) =~= Seq::<Seq<TokV>>::empty());
        assert(fn_defaults(Seq::<FnArgV>::empty()) =~= Seq::<Option<AssignV>>::empty());
        assert(tys.deep_view() =~= fn_tys(iv));
        assert(pats.deep_view() =~= fn_pats(iv));
        assert(dfs.deep_view() =~= fn_defaults(iv));
        assert(fn_defaults_ok(fv.sig.inputs));
        assert(fn_tys(iv).len() == fn_defaults(iv).len() && fn_pats(iv).len() == fn_defaults(
            iv,
        ).len()) by {
            lemma_fn_extract_lens(iv);
        }
    }
    let mut diags: Vec<Diag> = Vec::new();
    if ast.sig.constness {
        diags.push(
            Diag {
                level: Level::Warning,
                code: DiagCode::UnsupportedConst,
                detail: ast.sig.ident.clone(),
            },
        );
    }
    if ast.sig.unsafety {
        diags.push(
            Diag {
                level: Level::Warning,
                code: DiagCode::UnsupportedUnsafe,
                detail: ast.sig.ident.clone(),
            },
        );
    }
    proof {
        assert(diags.deep_view() =~= (if fv.sig.constness {
            seq![warn_of(DiagCode::UnsupportedConst, fv.sig.ident)]
        } else {
            Seq::<DiagV>::empty()
        }) + (if fv.sig.unsafety {
            seq![warn_of(DiagCode::UnsupportedUnsafe, fv.sig.ident)]
        } else {
            Seq::<DiagV>::empty()
        }));
    }
    let fresh = sess.insert_naming(&ast.sig.ident);
    let mut items: Vec<GenItem> = Vec::new();
    if fresh {
        items.push(
            GenItem::Prepare(
                Prepare {
                    vis: dup_toks(&ast.vis),
                    name: make_free_name(&ast.sig.ident),
                    phantom_generic: false,
                    static_ident: Some(ast.sig.ident.clone()),
                },
            ),
        );
    }
    let ghost prep = items.deep_view();
    proof {
        if fresh {
            assert(prep =~= seq![
                GenItemV::Prepare(
                    PrepareV {
                        vis: fv.vis,
                        name: free_name(fv.sig.ident),
                        phantom_generic: false,
                        static_ident: Some(fv.sig.ident),
                    },
                ),
            ]);
        } else {
            assert(prep =~= Seq::<GenItemV>::empty());
        }
    }
    let ghost tv = tys.deep_view();
    let ghost pv = pats.deep_view();
    let ghost dv = dfs.deep_view();
    let ghost vs = variants_from(tv, pv, dv, tv.len() as nat);
    let ghost goal = vs.map_values(|v: VariantV| GenItemV::FnImpls(fn_variant_impls(fv, v)));
    let output = {
        let base = match &ast.sig.output {
            None => {
                let mut u: Vec<Tok> = Vec::new();
                u.push(Tok::Punct("(".to_owned()));
                u.push(Tok::Punct(")".to_owned()));
                proof {
                    assert(u.deep_view() =~= unit_toks());
                }
                u
            },
            Some(t) => dup_toks(t),
        };
        if ast.sig.asyncness {
            wrap_async_output(base)
        } else {
            base
        }
    };
    proof {
        assert(output.deep_view() == fn_output(fv.sig.output, fv.sig.asyncness));
    }
    let mut it = param_variants(tys, pats, dfs);
    loop
        invariant
            it.wf(),
            tv == it.input_types.deep_view(),
            pv == it.param_assign.deep_view(),
            dv == it.default_values.deep_view(),
            goal == vs.map_values(
                |v: VariantV| GenItemV::FnImpls(fn_variant_impls(fv, v)),
            ),
            output.deep_view() == fn_output(fv.sig.output, fv.sig.asyncness),
            fv == ast.deep_view(),
            items.deep_view() + it.remaining().map_values(
                |v: VariantV| GenItemV::FnImpls(fn_variant_impls(fv, v)),
            ) =~= prep + goal,
        ensures
            items.deep_view() =~= prep + goal,
        decreases it.remaining().len(),
    {
        let ghost rem0 = it.remaining();
        let ghost b0 = it.index as nat;
        match it.next() {
            Some(v) => {
                proof {
                    crate::expand::lemma_rest_is_next(tv, pv, dv, b0);
                    assert(rem0[0] == variant_at(tv, pv, dv, b0 as int));
                }
                let (vt, vp, vd) = v;
                let f = FnTraitImpls {
                    attrs: dup_attrs(&ast.attrs),
                    generics: ast.sig.generics.dup(),
                    shared_type: make_free_name(&ast.sig.ident),
                    shared_generic: None,
                    input_tuple: vt,
                    pats: vp,
                    defaults: vd,
                    output: dup_toks(&output),
                    asyncness: ast.sig.asyncness,
                    unsafety: ast.sig.unsafety,
                    body: dup_toks(&ast.block),
                };
                let ghost pre = items.deep_view();
                items.push(GenItem::FnImpls(f));
                proof {
                    assert(f.deep_view().shared_generic == None::<Seq<TokV>>);
                    assert(f.deep_view() == fn_variant_impls(fv, rem0[0]));
                    assert(items.deep_view() =~= pre.push(
                        GenItemV::FnImpls(fn_variant_impls(fv, rem0[0])),
                    ));
                    assert(rem0.map_values(
                        |v2: VariantV| GenItemV::FnImpls(fn_variant_impls(fv, v2)),
                    ).drop_first() =~= it.remaining().map_values(
                        |v2: VariantV| GenItemV::FnImpls(fn_variant_impls(fv, v2)),
                    ));
                    assert(items.deep_view() + it.remaining().map_values(
                        |v2: VariantV| GenItemV::FnImpls(fn_variant_impls(fv, v2)),
                    ) =~= prep + goal);
                }
            },
            None => {
                proof {
                    assert(it.remaining() =~= Seq::<VariantV>::empty());
                    assert(items.deep_view() =~= prep + goal);
                }
                break ;
            },
        }
    }
    (items, diags)
}

/// The three extraction lists of a free function run in step.
proof fn lemma_fn_extract_lens(inputs: Seq<FnArgV>)
    ensures
        fn_tys(inputs).len() == fn_defaults(inputs).len(),
        fn_pats(inputs).len() == fn_defaults(inputs).len(),
    decreases inputs.len(),
{
    if inputs.len() > 0 {
        lemma_fn_extract_lens(inputs.drop_first());
    }
}


/// Whether the item at `j` is a method named `id`.
pub open spec fn is_method_ident_at(items: Seq<TraitItemV>, j: int, id: Seq<char>) -> bool {
    0 <= j < items.len() && items[j] is Method && items[j]->Method_0.sig.ident == id
}

/// Whether a method named `id` stands before position `i`.
pub open spec fn seen_before(items: Seq<TraitItemV>, i: int, id: Seq<char>) -> bool {
    exists|j: int| 0 <= j < i && is_method_ident_at(items, j, id)
}

/// The method names of the trait, in order of first occurrence, from
/// position `i` on.
pub open spec fn distinct_idents_from(items: Seq<TraitItemV>, i: int) -> Seq<Seq<char>>
    decreases items.len() - i,
{
    if i < 0 || i >= items.len() {
        Seq::empty()
    } else {
        match items[i] {
            TraitItemV::Method(m) => if seen_before(items, i, m.sig.ident) {
                distinct_idents_from(items, i + 1)
            } else {
                seq![m.sig.ident] + distinct_idents_from(items, i + 1)
            },
            TraitItemV::Other(t) => distinct_idents_from(items, i + 1),
        }
    }
}

/// How many methods named `id` stand at position `i` or later.
pub open spec fn method_count(items: Seq<TraitItemV>, id: Seq<char>, i: int) -> int
    decreases items.len() - i,
{
    if i < 0 || i >= items.len() {
        0
    } else {
        (if is_method_ident_at(items, i, id) {
            1int
        } else {
            0int
        }) + method_count(items, id, i + 1)
    }
}

/// The first method named `id` at position `i` or later.
pub open spec fn first_method(items: Seq<TraitItemV>, id: Seq<char>, i: int) -> TraitMethodV
    decreases items.len() - i,
{
    if i < 0 || i >= items.len() {
        arbitrary()
    } else if is_method_ident_at(items, i, id) {
        items[i]->Method_0
    } else {
        first_method(items, id, i + 1)
    }
}

/// Skipping positions that hold no method named `id` keeps the first one.
pub proof fn lemma_first_method_skip(items: Seq<TraitItemV>, id: Seq<char>, j: int)
    requires
        0 <= j <= items.len(),
        forall|j2: int| 0 <= j2 < j ==> !is_method_ident_at(items, j2, id),
    ensures
        first_method(items, id, 0) == first_method(items, id, j),
    decreases j,
{
    if j > 0 {
        lemma_first_method_skip(items, id, j - 1);
    }
}

/// The non-method items, carried through untouched, from position `i` on.
pub open spec fn other_items_from(items: Seq<TraitItemV>, i: int) -> Seq<TraitItemOutV>
    decreases items.len() - i,
{
    if i < 0 || i >= items.len() {
        Seq::empty()
    } else {
        (match items[i] {
            TraitItemV::Other(t) => seq![TraitItemOutV::Other(t)],
            TraitItemV::Method(m) => Seq::empty(),
        }) + other_items_from(items, i + 1)
    }
}

/// Per method-name group, from position `k` of the distinct names on: a
/// group of one keeps its method; a larger group becomes the
/// associated-constant binding of its dispatch type.
pub open spec fn group_out(
    tt: Seq<char>,
    items: Seq<TraitItemV>,
    ids: Seq<Seq<char>>,
    k: int,
) -> Seq<TraitItemOutV>
    decreases ids.len() - k,
{
    if k < 0 || k >= ids.len() {
        Seq::empty()
    } else {
        (if method_count(items, ids[k], 0) > 1 {
            seq![
                TraitItemOutV::Const(
                    ConstBindingV {
                        name: ids[k],
                        shared_type: ctx_name(tt, ids[k]),
                        self_param: true,
                    },
                ),
            ]
        } else {
            seq![TraitItemOutV::Method(first_method(items, ids[k], 0))]
        }) + group_out(tt, items, ids, k + 1)
    }
}

/// The dispatch-type declarations of the overloaded groups.
pub open spec fn prepares_out(
    tt: Seq<char>,
    vis: Seq<TokV>,
    items: Seq<TraitItemV>,
    ids: Seq<Seq<char>>,
    k: int,
) -> Seq<GenItemV>
    decreases ids.len() - k,
{
    if k < 0 || k >= ids.len() {
        Seq::empty()
    } else {
        (if method_count(items, ids[k], 0) > 1 {
            seq![
                GenItemV::Prepare(
                    PrepareV {
                        vis,
                        name: ctx_name(tt, ids[k]),
                        phantom_generic: true,
                        static_ident: None,
                    },
                ),
            ]
        } else {
            Seq::empty()
        }) + prepares_out(tt, vis, items, ids, k + 1)
    }
}

/// The names of the overloaded method groups.
pub open spec fn shared_fields_of(items: Seq<TraitItemV>, ids: Seq<Seq<char>>, k: int) -> Seq<
    Seq<char>,
>
    decreases ids.len() - k,
{
    if k < 0 || k >= ids.len() {
        Seq::empty()
    } else {
        (if method_count(items, ids[k], 0) > 1 {
            seq![ids[k]]
        } else {
            Seq::empty()
        }) + shared_fields_of(items, ids, k + 1)
    }
}

/// Every method keyed by its normalized signature, later declarations
/// replacing earlier ones with the same key.
pub open spec fn fn_map_from(
    items: Seq<TraitItemV>,
    i: int,
    acc: Seq<(Seq<char>, TraitMethodV)>,
) -> Seq<(Seq<char>, TraitMethodV)>
    decreases items.len() - i,
{
    if i < 0 || i >= items.len() {
        acc
    } else {
        match items[i] {
            TraitItemV::Method(m) => fn_map_from(
                items,
                i + 1,
                assoc_put(acc, spec_sig_key(m.sig), m),
            ),
            TraitItemV::Other(t) => fn_map_from(items, i + 1, acc),
        }
    }
}

/// What processing a trait declaration does.
///
/// Methods are grouped by name.  A group of one is kept as it stands; a
/// larger group's declarations leave the trait and one associated
/// constant of the group's dispatch type takes their place, with the
/// dispatch type declared beside the trait.  Every method is recorded in
/// the session under its normalized signature for later recovery by
/// impls, and the overloaded group names are recorded under the trait's
/// name.
pub open spec fn spec_process_trait(sv: SessionV, t: ItemTraitV) -> (SessionV, Seq<GenItemV>, Seq<
    DiagV,
>) {
    let ids = distinct_idents_from(t.items, 0);
    let shared = shared_fields_of(t.items, ids, 0);
    let fm = fn_map_from(t.items, 0, Seq::empty());
    let sv2 = SessionV {
        namings: sv.namings,
        trait_idents: assoc_put(sv.trait_idents, t.ident, shared),
        default_definition: assoc_put(sv.default_definition, t.ident, fm),
    };
    let tout = TraitOutV {
        attrs: t.attrs,
        vis: t.vis,
        ident: t.ident,
        head_rest: t.head_rest,
        items: other_items_from(t.items, 0) + group_out(t.ident, t.items, ids, 0),
    };
    (
        sv2,
        prepares_out(t.ident, t.vis, t.items, ids, 0) + seq![GenItemV::RewrittenTrait(tout)],
        Seq::empty(),
    )
}

/// Binds a key in a method map, last writer winning.
fn defs_put(v: &mut Vec<(String, TraitMethod)>, k: String, m: TraitMethod)
    ensures
        final(v).deep_view() == assoc_put(old(v).deep_view(), k@, m.deep_view()),
{
    let ghost s = v.deep_view();
    let ghost kv = k@;
    let ghost mv = m.deep_view();
    let mut i: usize = 0;
    while i < v.len()
        invariant
            i <= v.len(),
            *v == *old(v),
            s == v.deep_view(),
            s.len() == v@.len(),
            kv == k@,
            mv == m.deep_view(),
            forall|j: int| 0 <= j < i ==> s[j].0 != kv,
        decreases v.len() - i,
    {
        proof {
            assert(s[i as int] == v@[i as int].deep_view());
        }
        if v[i].0 == k {
            let ghost mid = old(v)@.remove(i as int);
            let entry = (k, m);
            proof {
                assert(entry.0.deep_view() == kv);
                assert(entry.1.deep_view() == mv);
                assert(entry.deep_view() == (kv, mv));
            }
            v.remove(i);
            v.insert(i, entry);
            proof {
                crate::session::lemma_assoc_put_shape(s, kv, mv, i as int);
                assert(v@[i as int].deep_view() == (kv, mv));
                assert forall|j: int| 0 <= j < v@.len() implies v.deep_view()[j] == s.update(
                    i as int,
                    (kv, mv),
                )[j] by {
                    assert(v.deep_view()[j] == v@[j].deep_view());
                    if j < i as int {
                        assert(v@[j] == old(v)@[j]);
                        assert(s[j] == old(v)@[j].deep_view());
                    } else if j > i as int {
                        assert(v@[j] == mid[j - 1]);
                        assert(mid[j - 1] == old(v)@[j]);
                        assert(s[j] == old(v)@[j].deep_view());
                    }
                }
                assert(v.deep_view() =~= s.update(i as int, (kv, mv)));
            }
            return ;
        }
        i += 1;
    }
    let entry = (k, m);
    proof {
        assert(entry.0.deep_view() == kv);
        assert(entry.1.deep_view() == mv);
        assert(entry.deep_view() == (kv, mv));
    }
    v.push(entry);
    proof {
        crate::session::lemma_assoc_put_append(s, kv, mv);
        assert(v.deep_view() =~= s.push((kv, mv)));
    }
}

/// Whether a name list holds a name.
fn strs_contains(v: &Vec<String>, x: &String) -> (r: bool)
    ensures
        r == v.deep_view().contains(x@),
{
    let ghost sv = v.deep_view();
    let mut i: usize = 0;
    while i < v.len()
        invariant
            i <= v.len(),
            sv == v.deep_view(),
            sv.len() == v@.len(),
            forall|j: int| 0 <= j < i ==> sv[j] != x@,
        decreases v.len() - i,
    {
        proof {
            assert(sv[i as int] == v@[i as int]@);
        }
        if v[i] == *x {
            proof {
                assert(sv.contains(x@));
            }
            return true;
        }
        i += 1;
    }
    false
}

/// Processes one trait declaration.
pub fn process_trait(sess: &mut Session, ast: &ItemTrait) -> (r: (Vec<GenItem>, Vec<Diag>))
    ensures
        (final(sess).deep_view(), r.0.deep_view(), r.1.deep_view()) == spec_process_trait(
            old(sess).deep_view(),
            ast.deep_view(),
        ),
        final(sess).deep_view().namings == old(sess).deep_view().namings,
        old(sess).wf() ==> final(sess).wf(),
{
    let ghost tv = ast.deep_view();
    let ghost itemsv = ast.items.deep_view();
    let ghost ids = distinct_idents_from(itemsv, 0);

    // First pass: the distinct method names in first-occurrence order,
    // each with the position of its first method.
    let mut names: Vec<String> = Vec::new();
    let mut firsts: Vec<usize> = Vec::new();
    let mut i: usize = 0;
    proof {
        assert(Seq::<Seq<char>>::empty() + distinct_idents_from(itemsv, 0) =~= ids);
    }
    while i < ast.items.len()
        invariant
            i <= ast.items.len(),
            itemsv == ast.items.deep_view(),
            itemsv.len() == ast.items@.len(),
            ids == distinct_idents_from(itemsv, 0),
            names@.len() == firsts@.len(),
            names.deep_view() + distinct_idents_from(itemsv, i as int) =~= ids,
            forall|k: int|
                0 <= k < names@.len() ==> is_method_ident_at(
                    itemsv,
                    #[trigger] firsts@[k] as int,
                    names.deep_view()[k],
                ) && firsts@[k] < i,
            forall|k: int, j2: int|
                0 <= k < names@.len() && 0 <= j2 < firsts@[k] ==> !(#[trigger] is_method_ident_at(
                    itemsv,
                    j2,
                    names.deep_view()[k],
                )),
            forall|id: Seq<char>|
                #[trigger] names.deep_view().contains(id) <==> seen_before(
                    itemsv,
                    i as int,
                    id,
                ),
        decreases ast.items.len() - i,
    {
        proof {
            assert(itemsv[i as int] == ast.items@[i as int].deep_view());
        }
        match &ast.items[i] {
            TraitItem::Method(m) => {
                let ghost mid = itemsv[i as int]->Method_0.sig.ident;
                let present = strs_contains(&names, &m.sig.ident);
                proof {
                    assert(mid == m.sig.ident@);
                    assert(present == seen_before(itemsv, i as int, mid));
                }
                if !present {
                    let ghost nsnap = names.deep_view();
                    names.push(m.sig.ident.clone());
                    firsts.push(i);
                    proof {
                        assert(names.deep_view() =~= nsnap.push(mid));
                        assert(distinct_idents_from(itemsv, i as int) =~= seq![mid]
                            + distinct_idents_from(itemsv, i as int + 1));
                        assert(names.deep_view() + distinct_idents_from(itemsv, i as int + 1)
                            =~= ids);
                        assert forall|id: Seq<char>|
                            #[trigger] names.deep_view().contains(id) <==> seen_before(
                                itemsv,
                                i as int + 1,
                                id,
                            ) by {
                            if names.deep_view().contains(id) {
                                if id == mid {
                                    assert(is_method_ident_at(itemsv, i as int, id));
                                } else {
                                    assert(nsnap.contains(id));
                                }
                            }
                            if seen_before(itemsv, i as int + 1, id) {
                                let j2 = choose|j2: int|
                                    0 <= j2 < i as int + 1 && is_method_ident_at(
                                        itemsv,
                                        j2,
                                        id,
                                    );
                                if j2 < i as int {
                                    assert(seen_before(itemsv, i as int, id));
                                    assert(nsnap.contains(id));
                                    let k = choose|k: int|
                                        0 <= k < nsnap.len() && nsnap[k] == id;
                                    assert(names.deep_view()[k] == id);
                                    assert(names.deep_view().contains(id));
                                } else {
                                    assert(id == mid);
                                    assert(names.deep_view()[nsnap.len() as int] == mid);
                                    assert(names.deep_view().contains(id));
                                }
                            }
                        }
                    }
                } else {
                    proof {
                        assert(distinct_idents_from(itemsv, i as int) == distinct_idents_from(
                            itemsv,
                            i as int + 1,
                        ));
                        assert forall|id: Seq<char>|
                            #[trigger] names.deep_view().contains(id) <==> seen_before(
                                itemsv,
                                i as int + 1,
                                id,
                            ) by {
                            if seen_before(itemsv, i as int + 1, id) {
                                let j2 = choose|j2: int|
                                    0 <= j2 < i as int + 1 && is_method_ident_at(
                                        itemsv,
                                        j2,
                                        id,
                                    );
                                if j2 == i as int {
                                    assert(id == mid);
                                    assert(seen_before(itemsv, i as int, id));
                                } else {
                                    assert(seen_before(itemsv, i as int, id));
                                }
                            }
                        }
                    }
                }
            },
            TraitItem::Other(t) => {
                proof {
                    assert(distinct_idents_from(itemsv, i as int) == distinct_idents_from(
                        itemsv,
                        i as int + 1,
                    ));
                    assert forall|id: Seq<char>|
                        #[trigger] names.deep_view().contains(id) <==> seen_before(
                            itemsv,
                            i as int + 1,
                            id,
                        ) by {
                        if seen_before(itemsv, i as int + 1, id) {
                            let j2 = choose|j2: int|
                                0 <= j2 < i as int + 1 && is_method_ident_at(itemsv, j2, id);
                            assert(j2 < i as int);
                            assert(seen_before(itemsv, i as int, id));
                        }
                    }
                }
            },
        }
        i += 1;
    }
    proof {
        assert(distinct_idents_from(itemsv, itemsv.len() as int) =~= Seq::<Seq<char>>::empty());
        assert(names.deep_view() =~= ids);
    }

    // Second pass over the groups: counts decide constants against kept
    // methods; overloaded groups get a dispatch-type declaration.
    let mut shared: Vec<String> = Vec::new();
    let mut prepares: Vec<GenItem> = Vec::new();
    let mut gitems: Vec<TraitItemOut> = Vec::new();
    let mut k: usize = 0;
    proof {
        assert(Seq::<Seq<char>>::empty() + shared_fields_of(itemsv, ids, 0) =~= shared_fields_of(
            itemsv,
            ids,
            0,
        ));
    }
    while k < names.len()
        invariant
            k <= names.len(),
            tv == ast.deep_view(),
            itemsv == ast.items.deep_view(),
            itemsv.len() == ast.items@.len(),
            ids == distinct_idents_from(itemsv, 0),
            names.deep_view() == ids,
            names@.len() == firsts@.len(),
            names@.len() == ids.len(),
            forall|k2: int|
                0 <= k2 < names@.len() ==> is_method_ident_at(
                    itemsv,
                    #[trigger] firsts@[k2] as int,
                    names.deep_view()[k2],
                ),
            forall|k2: int, j2: int|
                0 <= k2 < names@.len() && 0 <= j2 < firsts@[k2] ==> !(#[trigger] is_method_ident_at(
                    itemsv,
                    j2,
                    names.deep_view()[k2],
                )),
            shared.deep_view() + shared_fields_of(itemsv, ids, k as int) =~= shared_fields_of(
                itemsv,
                ids,
                0,
            ),
            prepares.deep_view() + prepares_out(tv.ident, tv.vis, itemsv, ids, k as int)
                =~= prepares_out(tv.ident, tv.vis, itemsv, ids, 0),
            gitems.deep_view() + group_out(tv.ident, itemsv, ids, k as int) =~= group_out(
                tv.ident,
                itemsv,
                ids,
                0,
            ),
        decreases names.len() - k,
    {
        proof {
            assert(ids[k as int] == names@[k as int]@);
        }
        let id = &names[k];
        let mut cnt: usize = 0;
        let mut j: usize = 0;
        while j < ast.items.len()
            invariant
                j <= ast.items.len(),
                k < names@.len(),
                itemsv == ast.items.deep_view(),
                itemsv.len() == ast.items@.len(),
                ids == distinct_idents_from(itemsv, 0),
                names.deep_view() == ids,
                id == names@[k as int],
                ids[k as int] == names@[k as int]@,
                cnt <= j,
                cnt + method_count(itemsv, ids[k as int], j as int) == method_count(
                    itemsv,
                    ids[k as int],
                    0,
                ),
            decreases ast.items.len() - j,
        {
            proof {
                assert(itemsv[j as int] == ast.items@[j as int].deep_view());
            }
            match &ast.items[j] {
                TraitItem::Method(m) => {
                    if m.sig.ident == *id {
                        cnt += 1;
                        proof {
                            assert(is_method_ident_at(itemsv, j as int, ids[k as int]));
                        }
                    } else {
                        proof {
                            assert(!is_method_ident_at(itemsv, j as int, ids[k as int]));
                        }
                    }
                },
                TraitItem::Other(t) => {
                    proof {
                        assert(!is_method_ident_at(itemsv, j as int, ids[k as int]));
                    }
                },
            }
            j += 1;
        }
        proof {
            assert(method_count(itemsv, ids[k as int], itemsv.len() as int) == 0);
            assert(cnt == method_count(itemsv, ids[k as int], 0));
        }
        if cnt > 1 {
            let ghost ssnap = shared.deep_view();
            let ghost psnap = prepares.deep_view();
            let ghost gsnap = gitems.deep_view();
            shared.push(id.clone());
            prepares.push(
                GenItem::Prepare(
                    Prepare {
                        vis: dup_toks(&ast.vis),
                        name: make_ctx_name(&ast.ident, id),
                        phantom_generic: true,
                        static_ident: None,
                    },
                ),
            );
            gitems.push(
                TraitItemOut::Const(
                    ConstBinding {
                        name: id.clone(),
                        shared_type: make_ctx_name(&ast.ident, id),
                        self_param: true,
                    },
                ),
            );
            proof {
                assert(shared.deep_view() =~= ssnap.push(ids[k as int]));
                assert(prepares.deep_view() =~= psnap.push(
                    GenItemV::Prepare(
                        PrepareV {
                            vis: tv.vis,
                            name: ctx_name(tv.ident, ids[k as int]),
                            phantom_generic: true,
                            static_ident: None,
                        },
                    ),
                ));
                assert(gitems.deep_view() =~= gsnap.push(
                    TraitItemOutV::Const(
                        ConstBindingV {
                            name: ids[k as int],
                            shared_type: ctx_name(tv.ident, ids[k as int]),
                            self_param: true,
                        },
                    ),
                ));
                assert(shared.deep_view() + shared_fields_of(itemsv, ids, k as int + 1)
                    =~= shared_fields_of(itemsv, ids, 0));
                assert(prepares.deep_view() + prepares_out(
                    tv.ident,
                    tv.vis,
                    itemsv,
                    ids,
                    k as int + 1,
                ) =~= prepares_out(tv.ident, tv.vis, itemsv, ids, 0));
                assert(gitems.deep_view() + group_out(tv.ident, itemsv, ids, k as int + 1)
                    =~= group_out(tv.ident, itemsv, ids, 0));
            }
        } else {
            let fi = firsts[k];
            proof {
                assert(is_method_ident_at(itemsv, fi as int, ids[k as int]));
                lemma_first_method_skip(itemsv, ids[k as int], fi as int);
                assert(first_method(itemsv, ids[k as int], 0) == itemsv[fi as int]->Method_0);
            }
            let ghost gsnap = gitems.deep_view();
            match &ast.items[fi] {
                TraitItem::Method(m) => {
                    gitems.push(TraitItemOut::Method(m.dup()));
                    proof {
                        assert(itemsv[fi as int] == ast.items@[fi as int].deep_view());
                        assert(gitems.deep_view() =~= gsnap.push(
                            TraitItemOutV::Method(first_method(itemsv, ids[k as int], 0)),
                        ));
                    }
                },
                TraitItem::Other(t) => {
                    proof {
                        assert(itemsv[fi as int] == ast.items@[fi as int].deep_view());
                        assert(false);
                    }
                },
            }
            proof {
                assert(shared.deep_view() + shared_fields_of(itemsv, ids, k as int + 1)
                    =~= shared_fields_of(itemsv, ids, 0));
                assert(prepares.deep_view() + prepares_out(
                    tv.ident,
                    tv.vis,
                    itemsv,
                    ids,
                    k as int + 1,
                ) =~= prepares_out(tv.ident, tv.vis, itemsv, ids, 0));
                assert(gitems.deep_view() + group_out(tv.ident, itemsv, ids, k as int + 1)
                    =~= group_out(tv.ident, itemsv, ids, 0));
            }
        }
        k += 1;
    }
    proof {
        assert(shared_fields_of(itemsv, ids, ids.len() as int) =~= Seq::<Seq<char>>::empty());
        assert(prepares_out(tv.ident, tv.vis, itemsv, ids, ids.len() as int)
            =~= Seq::<GenItemV>::empty());
        assert(group_out(tv.ident, itemsv, ids, ids.len() as int)
            =~= Seq::<TraitItemOutV>::empty());
        assert(shared.deep_view() =~= shared_fields_of(itemsv, ids, 0));
        assert(prepares.deep_view() =~= prepares_out(tv.ident, tv.vis, itemsv, ids, 0));
        assert(gitems.deep_view() =~= group_out(tv.ident, itemsv, ids, 0));
    }

    // Third pass: the non-method items, and the method map keyed by
    // normalized signature.
    let mut others: Vec<TraitItemOut> = Vec::new();
    let mut fm: Vec<(String, TraitMethod)> = Vec::new();
    let mut i2: usize = 0;
    proof {
        assert(fm.deep_view() =~= Seq::<(Seq<char>, TraitMethodV)>::empty());
    }
    while i2 < ast.items.len()
        invariant
            i2 <= ast.items.len(),
            itemsv == ast.items.deep_view(),
            itemsv.len() == ast.items@.len(),
            others.deep_view() + other_items_from(itemsv, i2 as int) =~= other_items_from(
                itemsv,
                0,
            ),
            fn_map_from(itemsv, i2 as int, fm.deep_view()) == fn_map_from(
                itemsv,
                0,
                Seq::empty(),
            ),
        decreases ast.items.len() - i2,
    {
        proof {
            assert(itemsv[i2 as int] == ast.items@[i2 as int].deep_view());
        }
        match &ast.items[i2] {
            TraitItem::Method(m) => {
                let key = sig_normalize(&m.sig);
                defs_put(&mut fm, key, m.dup());
                proof {
                    assert(others.deep_view() + other_items_from(itemsv, i2 as int + 1)
                        =~= other_items_from(itemsv, 0));
                }
            },
            TraitItem::Other(t) => {
                let ghost osnap = others.deep_view();
                others.push(TraitItemOut::Other(dup_toks(t)));
                proof {
                    assert(others.deep_view() =~= osnap.push(
                        TraitItemOutV::Other(itemsv[i2 as int]->Other_0),
                    ));
                    assert(others.deep_view() + other_items_from(itemsv, i2 as int + 1)
                        =~= other_items_from(itemsv, 0));
                }
            },
        }
        i2 += 1;
    }
    proof {
        assert(other_items_from(itemsv, itemsv.len() as int) =~= Seq::<TraitItemOutV>::empty());
        assert(others.deep_view() =~= other_items_from(itemsv, 0));
    }

    sess.set_default_definition(ast.ident.clone(), fm);
    sess.set_trait_idents(ast.ident.clone(), shared);

    let mut out_items: Vec<GenItem> = prepares;
    let mut trait_items: Vec<TraitItemOut> = others;
    let mut tail = gitems;
    let ghost oiv = trait_items.deep_view();
    let ghost gv = tail.deep_view();
    trait_items.append(&mut tail);
    proof {
        assert(trait_items.deep_view() =~= oiv + gv);
    }
    let tout = TraitOut {
        attrs: dup_attrs(&ast.attrs),
        vis: dup_toks(&ast.vis),
        ident: ast.ident.clone(),
        head_rest: dup_toks(&ast.head_rest),
        items: trait_items,
    };
    let ghost pv = out_items.deep_view();
    out_items.push(GenItem::RewrittenTrait(tout));
    let diags: Vec<Diag> = Vec::new();
    proof {
        assert(out_items.deep_view() =~= pv.push(
            GenItemV::RewrittenTrait(
                TraitOutV {
                    attrs: tv.attrs,
                    vis: tv.vis,
                    ident: tv.ident,
                    head_rest: tv.head_rest,
                    items: other_items_from(itemsv, 0) + group_out(tv.ident, itemsv, ids, 0),
                },
            ),
        ));
        assert(out_items.deep_view() =~= spec_process_trait(old(sess).deep_view(), tv).1);
        assert(diags.deep_view() =~= Seq::<DiagV>::empty());
        assert(sess.deep_view() == spec_process_trait(old(sess).deep_view(), tv).0);
    }
    (out_items, diags)
}


/// Whether the impl item at `j` is a method named `id`.
pub open spec fn impl_is_method_at(items: Seq<ImplItemV>, j: int, id: Seq<char>) -> bool {
    0 <= j < items.len() && items[j] is Method && items[j]->Method_0.sig.ident == id
}

/// How many impl methods named `id` stand at position `i` or later.
pub open spec fn impl_method_count(items: Seq<ImplItemV>, id: Seq<char>, i: int) -> int
    decreases items.len() - i,
{
    if i < 0 || i >= items.len() {
        0
    } else {
        (if impl_is_method_at(items, i, id) {
            1int
        } else {
            0int
        }) + impl_method_count(items, id, i + 1)
    }
}

/// The walk over a trait impl's items, from position `i` on: emitted
/// call-contract implementations, retained items, the normalized keys of
/// every declared method, and diagnostics.
pub open spec fn trait_impl_walk(
    path: Seq<TokV>,
    tt: Seq<char>,
    tp: Seq<TokV>,
    shared: Seq<Seq<char>>,
    items: Seq<ImplItemV>,
    i: int,
) -> (Seq<GenItemV>, Seq<ImplItemOutV>, Seq<Seq<char>>, Seq<DiagV>)
    decreases items.len() - i,
{
    if i < 0 || i >= items.len() {
        (Seq::empty(), Seq::empty(), Seq::empty(), Seq::empty())
    } else {
        let rest = trait_impl_walk(path, tt, tp, shared, items, i + 1);
        match items[i] {
            ImplItemV::Method(m) => {
                let key = spec_sig_key(m.sig);
                if shared.contains(m.sig.ident) {
                    let dg: Seq<DiagV> = if m.sig.unsafety {
                        seq![warn_of(DiagCode::UnsupportedUnsafe, m.sig.ident)]
                    } else {
                        Seq::empty()
                    };
                    (
                        seq![
                            GenItemV::FnImpls(spec_impl_method_to_fn_trait(path, tt, tp, m)),
                        ] + rest.0,
                        rest.1,
                        seq![key] + rest.2,
                        dg + rest.3,
                    )
                } else {
                    (rest.0, seq![ImplItemOutV::Method(m)] + rest.1, seq![key] + rest.2, rest.3)
                }
            },
            ImplItemV::Other(t) => (
                rest.0,
                seq![ImplItemOutV::Other(t)] + rest.1,
                rest.2,
                rest.3,
            ),
        }
    }
}

/// The walk over a trait's recorded methods, from entry `i` on: any
/// method whose normalized signature the impl did not cover, and whose
/// name is overloaded, is recovered from its default body; one with no
/// default body is an error.
pub open spec fn defaults_walk(
    path: Seq<TokV>,
    tt: Seq<char>,
    tp: Seq<TokV>,
    shared: Seq<Seq<char>>,
    covered: Seq<Seq<char>>,
    map: Seq<(Seq<char>, TraitMethodV)>,
    i: int,
) -> (Seq<GenItemV>, Seq<DiagV>)
    decreases map.len() - i,
{
    if i < 0 || i >= map.len() {
        (Seq::empty(), Seq::empty())
    } else {
        let rest = defaults_walk(path, tt, tp, shared, covered, map, i + 1);
        let k = map[i].0;
        let m = map[i].1;
        if !covered.contains(k) && shared.contains(m.sig.ident) {
            match spec_trait_method_to_fn_trait(path, tt, tp, m) {
                Some(f) => (
                    seq![GenItemV::FnImpls(f)] + rest.0,
                    (if m.sig.unsafety {
                        seq![warn_of(DiagCode::UnsupportedUnsafe, m.sig.ident)]
                    } else {
                        Seq::empty()
                    }) + rest.1,
                ),
                None => (rest.0, seq![err_of(DiagCode::MissingDefaultBody, k)] + rest.1),
            }
        } else {
            rest
        }
    }
}

/// The walk over a plain impl's items, from position `i` on, with the
/// names whose dispatch type was already emitted: a method whose name
/// appears more than once is routed through the dispatch type — first
/// encounter also emits the type and its constant binding — and a
/// singleton method passes through unchanged.
pub open spec fn plain_walk(
    tp: Seq<TokV>,
    items: Seq<ImplItemV>,
    i: int,
    emitted: Seq<Seq<char>>,
) -> (Seq<GenItemV>, Seq<ImplItemOutV>, Seq<DiagV>)
    decreases items.len() - i,
{
    if i < 0 || i >= items.len() {
        (Seq::empty(), Seq::empty(), Seq::empty())
    } else {
        match items[i] {
            ImplItemV::Method(m) => {
                let id = m.sig.ident;
                let dg: Seq<DiagV> = if m.sig.unsafety {
                    seq![warn_of(DiagCode::UnsupportedUnsafe, id)]
                } else {
                    Seq::empty()
                };
                if impl_method_count(items, id, 0) > 1 {
                    if !emitted.contains(id) {
                        let rest = plain_walk(tp, items, i + 1, emitted.push(id));
                        (
                            seq![
                                GenItemV::Prepare(
                                    PrepareV {
                                        vis: m.vis,
                                        name: ctx_name(concat_text(tp), id),
                                        phantom_generic: false,
                                        static_ident: None,
                                    },
                                ),
                                GenItemV::FnImpls(spec_impl_method_to_non_trait(tp, m)),
                            ] + rest.0,
                            seq![
                                ImplItemOutV::Const(
                                    ConstBindingV {
                                        name: id,
                                        shared_type: ctx_name(concat_text(tp), id),
                                        self_param: false,
                                    },
                                ),
                            ] + rest.1,
                            dg + rest.2,
                        )
                    } else {
                        let rest = plain_walk(tp, items, i + 1, emitted);
                        (
                            seq![GenItemV::FnImpls(spec_impl_method_to_non_trait(tp, m))]
                                + rest.0,
                            rest.1,
                            dg + rest.2,
                        )
                    }
                } else {
                    let rest = plain_walk(tp, items, i + 1, emitted);
                    (rest.0, seq![ImplItemOutV::Method(m)] + rest.1, rest.2)
                }
            },
            ImplItemV::Other(t) => {
                let rest = plain_walk(tp, items, i + 1, emitted);
                (rest.0, seq![ImplItemOutV::Other(t)] + rest.1, rest.2)
            },
        }
    }
}

/// The rewritten impl shell around a given item list.
pub open spec fn impl_shell(im: ItemImplV, items: Seq<ImplItemOutV>) -> ImplOutV {
    ImplOutV {
        attrs: im.attrs,
        generics_toks: im.generics_toks,
        trait_path: im.trait_path,
        self_ty: im.self_ty,
        where_toks: im.where_toks,
        items,
    }
}

/// What processing an impl block does.
///
/// For an impl of a trait the trait must already stand in the session —
/// declaration order is a hard precondition — and its path must be one
/// plain identifier; failing either, the impl is reported and emitted
/// with its items removed.  Methods of overloaded groups are routed
/// through the trait's dispatch types; the trait's recorded defaults
/// back-fill every overload the impl omitted.  A plain impl routes its
/// duplicated method names through fresh dispatch types and keeps the
/// rest unchanged.
pub open spec fn spec_process_impl(sv: SessionV, im: ItemImplV) -> (Seq<GenItemV>, Seq<DiagV>) {
    match im.trait_path {
        Some(path) => {
            if !crate::synth::is_path_ty(path) || crate::synth::has_top_sep(path) {
                (
                    seq![GenItemV::RewrittenImpl(impl_shell(im, Seq::empty()))],
                    seq![err_of(DiagCode::AmbiguousPath, concat_text(path))],
                )
            } else {
                let tt = path[0]->Ident_0;
                match assoc_get(sv.trait_idents, tt) {
                    None => (
                        seq![GenItemV::RewrittenImpl(impl_shell(im, Seq::empty()))],
                        seq![err_of(DiagCode::UnresolvedTrait, tt)],
                    ),
                    Some(shared) => {
                        let w = trait_impl_walk(path, tt, im.self_ty, shared, im.items, 0);
                        match assoc_get(sv.default_definition, tt) {
                            None => (
                                w.0 + seq![GenItemV::RewrittenImpl(impl_shell(im, w.1))],
                                w.3 + seq![err_of(DiagCode::MissingTraitDefinition, tt)],
                            ),
                            Some(map) => {
                                let d = defaults_walk(
                                    path,
                                    tt,
                                    im.self_ty,
                                    shared,
                                    w.2,
                                    map,
                                    0,
                                );
                                (
                                    w.0 + d.0 + seq![
                                        GenItemV::RewrittenImpl(impl_shell(im, w.1)),
                                    ],
                                    w.3 + d.1,
                                )
                            },
                        }
                    },
                }
            }
        },
        None => {
            let w = plain_walk(im.self_ty, im.items, 0, Seq::empty());
            (w.0 + seq![GenItemV::RewrittenImpl(impl_shell(im, w.1))], w.2)
        },
    }
}

/// Builds the rewritten impl shell.
fn build_impl_shell(ast: &ItemImpl, items: Vec<ImplItemOut>) -> (r: ImplOut)
    ensures
        r.deep_view() == impl_shell(ast.deep_view(), items.deep_view()),
{
    ImplOut {
        attrs: dup_attrs(&ast.attrs),
        generics_toks: dup_toks(&ast.generics_toks),
        trait_path: match &ast.trait_path {
            Some(t) => Some(dup_toks(t)),
            None => None,
        },
        self_ty: dup_toks(&ast.self_ty),
        where_toks: dup_toks(&ast.where_toks),
        items,
    }
}

/// Processes one impl block.
pub fn process_impl(sess: &Session, ast: &ItemImpl) -> (r: (Vec<GenItem>, Vec<Diag>))
    ensures
        (r.0.deep_view(), r.1.deep_view()) == spec_process_impl(
            sess.deep_view(),
            ast.deep_view(),
        ),
{
    let ghost imv = ast.deep_view();
    let ghost sv = sess.deep_view();
    match &ast.trait_path {
        Some(path) => {
            let ghost pathv = path.deep_view();
            let mut tt_opt: Option<String> = None;
            if path.len() > 0 {
                proof {
                    assert(pathv[0] == path@[0]@);
                }
                match &path[0] {
                    Tok::Ident(s0) => {
                        tt_opt = Some(s0.clone());
                    },
                    _ => {},
                }
            }
            proof {
                if pathv.len() > 0 {
                    assert(pathv[0] == path@[0]@);
                }
            }
            match tt_opt {
                None => {
                    proof {
                        assert(!crate::synth::is_path_ty(pathv));
                    }
                    let mut diags: Vec<Diag> = Vec::new();
                    diags.push(
                        Diag {
                            level: Level::Error,
                            code: DiagCode::AmbiguousPath,
                            detail: crate::synth::concat_text_string(path),
                        },
                    );
                    let mut items: Vec<GenItem> = Vec::new();
                    let inner: Vec<ImplItemOut> = Vec::new();
                    proof {
                        assert(inner.deep_view() =~= Seq::<ImplItemOutV>::empty());
                    }
                    items.push(GenItem::RewrittenImpl(build_impl_shell(ast, inner)));
                    proof {
                        assert(items.deep_view() =~= seq![
                            GenItemV::RewrittenImpl(impl_shell(imv, Seq::empty())),
                        ]);
                        assert(diags.deep_view() =~= seq![
                            err_of(DiagCode::AmbiguousPath, concat_text(pathv)),
                        ]);
                    }
                    (items, diags)
                },
                Some(tt) => {
                    proof {
                        assert(crate::synth::is_path_ty(pathv));
                        assert(tt@ == pathv[0]->Ident_0);
                    }
                    if crate::synth::scan_top_sep_pub(path) {
                        let mut diags: Vec<Diag> = Vec::new();
                        diags.push(
                            Diag {
                                level: Level::Error,
                                code: DiagCode::AmbiguousPath,
                                detail: crate::synth::concat_text_string(path),
                            },
                        );
                        let mut items: Vec<GenItem> = Vec::new();
                        let inner: Vec<ImplItemOut> = Vec::new();
                        proof {
                            assert(inner.deep_view() =~= Seq::<ImplItemOutV>::empty());
                        }
                        items.push(GenItem::RewrittenImpl(build_impl_shell(ast, inner)));
                        proof {
                            assert(items.deep_view() =~= seq![
                                GenItemV::RewrittenImpl(impl_shell(imv, Seq::empty())),
                            ]);
                            assert(diags.deep_view() =~= seq![
                                err_of(DiagCode::AmbiguousPath, concat_text(pathv)),
                            ]);
                        }
                        return (items, diags);
                    }
                    match sess.get_trait_idents(&tt) {
                        None => {
                            let mut diags: Vec<Diag> = Vec::new();
                            diags.push(
                                Diag {
                                    level: Level::Error,
                                    code: DiagCode::UnresolvedTrait,
                                    detail: tt.clone(),
                                },
                            );
                            let mut items: Vec<GenItem> = Vec::new();
                            let inner: Vec<ImplItemOut> = Vec::new();
                            proof {
                                assert(inner.deep_view() =~= Seq::<ImplItemOutV>::empty());
                            }
                            items.push(GenItem::RewrittenImpl(build_impl_shell(ast, inner)));
                            proof {
                                assert(items.deep_view() =~= seq![
                                    GenItemV::RewrittenImpl(impl_shell(imv, Seq::empty())),
                                ]);
                                assert(diags.deep_view() =~= seq![
                                    err_of(DiagCode::UnresolvedTrait, tt@),
                                ]);
                            }
                            (items, diags)
                        },
                        Some(shared) => {
                            let ghost sharedv = shared.deep_view();
                            let ghost w = trait_impl_walk(
                                pathv,
                                tt@,
                                imv.self_ty,
                                sharedv,
                                imv.items,
                                0,
                            );
                            let mut gens: Vec<GenItem> = Vec::new();
                            let mut outs: Vec<ImplItemOut> = Vec::new();
                            let mut covered: Vec<String> = Vec::new();
                            let mut diags: Vec<Diag> = Vec::new();
                            let ghost itemsv = ast.items.deep_view();
                            let mut i: usize = 0;
                            while i < ast.items.len()
                                invariant
                                    i <= ast.items.len(),
                                    imv == ast.deep_view(),
                                    itemsv == ast.items.deep_view(),
                                    itemsv.len() == ast.items@.len(),
                                    pathv == path.deep_view(),
                                    sharedv == shared.deep_view(),
                                    tt@ == pathv[0]->Ident_0,
                                    w == trait_impl_walk(
                                        pathv,
                                        tt@,
                                        imv.self_ty,
                                        sharedv,
                                        imv.items,
                                        0,
                                    ),
                                    imv.items == itemsv,
                                    imv.self_ty == ast.self_ty.deep_view(),
                                    gens.deep_view() + trait_impl_walk(
                                        pathv,
                                        tt@,
                                        imv.self_ty,
                                        sharedv,
                                        itemsv,
                                        i as int,
                                    ).0 =~= w.0,
                                    outs.deep_view() + trait_impl_walk(
                                        pathv,
                                        tt@,
                                        imv.self_ty,
                                        sharedv,
                                        itemsv,
                                        i as int,
                                    ).1 =~= w.1,
                                    covered.deep_view() + trait_impl_walk(
                                        pathv,
                                        tt@,
                                        imv.self_ty,
                                        sharedv,
                                        itemsv,
                                        i as int,
                                    ).2 =~= w.2,
                                    diags.deep_view() + trait_impl_walk(
                                        pathv,
                                        tt@,
                                        imv.self_ty,
                                        sharedv,
                                        itemsv,
                                        i as int,
                                    ).3 =~= w.3,
                                decreases ast.items.len() - i,
                            {
                                proof {
                                    assert(itemsv[i as int] == ast.items@[i as int].deep_view());
                                }
                                match &ast.items[i] {
                                    ImplItem::Method(m) => {
                                        let key = sig_normalize(&m.sig);
                                        let ghost csnap = covered.deep_view();
                                        covered.push(key);
                                        proof {
                                            assert(covered.deep_view() =~= csnap.push(
                                                spec_sig_key(itemsv[i as int]->Method_0.sig),
                                            ));
                                        }
                                        if strs_contains(shared, &m.sig.ident) {
                                            let f = impl_method_to_fn_trait(
                                                path,
                                                &tt,
                                                &ast.self_ty,
                                                m,
                                            );
                                            let ghost gsnap = gens.deep_view();
                                            gens.push(GenItem::FnImpls(f));
                                            proof {
                                                assert(gens.deep_view() =~= gsnap.push(
                                                    GenItemV::FnImpls(
                                                        spec_impl_method_to_fn_trait(
                                                            pathv,
                                                            tt@,
                                                            imv.self_ty,
                                                            itemsv[i as int]->Method_0,
                                                        ),
                                                    ),
                                                ));
                                            }
                                            if m.sig.unsafety {
                                                let ghost dsnap = diags.deep_view();
                                                diags.push(
                                                    Diag {
                                                        level: Level::Warning,
                                                        code: DiagCode::UnsupportedUnsafe,
                                                        detail: m.sig.ident.clone(),
                                                    },
                                                );
                                                proof {
                                                    assert(diags.deep_view() =~= dsnap.push(
                                                        warn_of(
                                                            DiagCode::UnsupportedUnsafe,
                                                            itemsv[i as int]->Method_0.sig.ident,
                                                        ),
                                                    ));
                                                }
                                            }
                                        } else {
                                            let ghost osnap = outs.deep_view();
                                            outs.push(ImplItemOut::Method(m.dup()));
                                            proof {
                                                assert(outs.deep_view() =~= osnap.push(
                                                    ImplItemOutV::Method(
                                                        itemsv[i as int]->Method_0,
                                                    ),
                                                ));
                                            }
                                        }
                                    },
                                    ImplItem::Other(t) => {
                                        let ghost osnap = outs.deep_view();
                                        outs.push(ImplItemOut::Other(dup_toks(t)));
                                        proof {
                                            assert(outs.deep_view() =~= osnap.push(
                                                ImplItemOutV::Other(itemsv[i as int]->Other_0),
                                            ));
                                        }
                                    },
                                }
                                proof {
                                    assert(gens.deep_view() + trait_impl_walk(
                                        pathv,
                                        tt@,
                                        imv.self_ty,
                                        sharedv,
                                        itemsv,
                                        i as int + 1,
                                    ).0 =~= w.0);
                                    assert(outs.deep_view() + trait_impl_walk(
                                        pathv,
                                        tt@,
                                        imv.self_ty,
                                        sharedv,
                                        itemsv,
                                        i as int + 1,
                                    ).1 =~= w.1);
                                    assert(covered.deep_view() + trait_impl_walk(
                                        pathv,
                                        tt@,
                                        imv.self_ty,
                                        sharedv,
                                        itemsv,
                                        i as int + 1,
                                    ).2 =~= w.2);
                                    assert(diags.deep_view() + trait_impl_walk(
                                        pathv,
                                        tt@,
                                        imv.self_ty,
                                        sharedv,
                                        itemsv,
                                        i as int + 1,
                                    ).3 =~= w.3);
                                }
                                i += 1;
                            }
                            proof {
                                let e = trait_impl_walk(
                                    pathv,
                                    tt@,
                                    imv.self_ty,
                                    sharedv,
                                    itemsv,
                                    itemsv.len() as int,
                                );
                                assert(e.0 =~= Seq::<GenItemV>::empty());
                                assert(e.1 =~= Seq::<ImplItemOutV>::empty());
                                assert(e.2 =~= Seq::<Seq<char>>::empty());
                                assert(e.3 =~= Seq::<DiagV>::empty());
                                assert(gens.deep_view() =~= w.0);
                                assert(outs.deep_view() =~= w.1);
                                assert(covered.deep_view() =~= w.2);
                                assert(diags.deep_view() =~= w.3);
                            }
                            match sess.get_default_definition(&tt) {
                                None => {
                                    diags.push(
                                        Diag {
                                            level: Level::Error,
                                            code: DiagCode::MissingTraitDefinition,
                                            detail: tt.clone(),
                                        },
                                    );
                                    let ghost gsnap = gens.deep_view();
                                    gens.push(
                                        GenItem::RewrittenImpl(build_impl_shell(ast, outs)),
                                    );
                                    proof {
                                        assert(gens.deep_view() =~= gsnap.push(
                                            GenItemV::RewrittenImpl(impl_shell(imv, w.1)),
                                        ));
                                        assert(gens.deep_view() =~= w.0 + seq![
                                            GenItemV::RewrittenImpl(impl_shell(imv, w.1)),
                                        ]);
                                        assert(diags.deep_view() =~= w.3 + seq![
                                            err_of(DiagCode::MissingTraitDefinition, tt@),
                                        ]);
                                    }
                                    (gens, diags)
                                },
                                Some(map) => {
                                    let ghost mapv = map.deep_view();
                                    let ghost d = defaults_walk(
                                        pathv,
                                        tt@,
                                        imv.self_ty,
                                        sharedv,
                                        w.2,
                                        mapv,
                                        0,
                                    );
                                    let mut j: usize = 0;
                                    while j < map.len()
                                        invariant
                                            j <= map.len(),
                                            imv == ast.deep_view(),
                                            pathv == path.deep_view(),
                                            sharedv == shared.deep_view(),
                                            mapv == map.deep_view(),
                                            mapv.len() == map@.len(),
                                            tt@ == pathv[0]->Ident_0,
                                            imv.self_ty == ast.self_ty.deep_view(),
                                            covered.deep_view() == w.2,
                                            d == defaults_walk(
                                                pathv,
                                                tt@,
                                                imv.self_ty,
                                                sharedv,
                                                w.2,
                                                mapv,
                                                0,
                                            ),
                                            gens.deep_view() + defaults_walk(
                                                pathv,
                                                tt@,
                                                imv.self_ty,
                                                sharedv,
                                                w.2,
                                                mapv,
                                                j as int,
                                            ).0 =~= w.0 + d.0,
                                            diags.deep_view() + defaults_walk(
                                                pathv,
                                                tt@,
                                                imv.self_ty,
                                                sharedv,
                                                w.2,
                                                mapv,
                                                j as int,
                                            ).1 =~= w.3 + d.1,
                                        decreases map.len() - j,
                                    {
                                        proof {
                                            assert(mapv[j as int] == map@[
                                                j as int].deep_view());
                                        }
                                        let entry = &map[j];
                                        let in_covered = strs_contains(&covered, &entry.0);
                                        let in_shared = strs_contains(
                                            shared,
                                            &entry.1.sig.ident,
                                        );
                                        if !in_covered && in_shared {
                                            match trait_method_to_fn_trait(
                                                path,
                                                &tt,
                                                &ast.self_ty,
                                                &entry.1,
                                            ) {
                                                Some(f) => {
                                                    let ghost gsnap = gens.deep_view();
                                                    gens.push(GenItem::FnImpls(f));
                                                    proof {
                                                        assert(gens.deep_view() =~= gsnap.push(
                                                            GenItemV::FnImpls(
                                                                spec_trait_method_to_fn_trait(
                                                                    pathv,
                                                                    tt@,
                                                                    imv.self_ty,
                                                                    mapv[j as int].1,
                                                                )->Some_0,
                                                            ),
                                                        ));
                                                    }
                                                    if entry.1.sig.unsafety {
                                                        let ghost dsnap = diags.deep_view();
                                                        diags.push(
                                                            Diag {
                                                                level: Level::Warning,
                                                                code:
                                                                    DiagCode::UnsupportedUnsafe,
                                                                detail:
                                                                    entry.1.sig.ident.clone(),
                                                            },
                                                        );
                                                        proof {
                                                            assert(diags.deep_view()
                                                                =~= dsnap.push(
                                                                warn_of(
                                                                    DiagCode::UnsupportedUnsafe,
                                                                    mapv[
                                                                        j as int].1.sig.ident,
                                                                ),
                                                            ));
                                                        }
                                                    }
                                                },
                                                None => {
                                                    let ghost dsnap = diags.deep_view();
                                                    diags.push(
                                                        Diag {
                                                            level: Level::Error,
                                                            code: DiagCode::MissingDefaultBody,
                                                            detail: entry.0.clone(),
                                                        },
                                                    );
                                                    proof {
                                                        assert(diags.deep_view() =~= dsnap.push(
                                                            err_of(
                                                                DiagCode::MissingDefaultBody,
                                                                mapv[j as int].0,
                                                            ),
                                                        ));
                                                    }
                                                },
                                            }
                                        }
                                        proof {
                                            assert(gens.deep_view() + defaults_walk(
                                                pathv,
                                                tt@,
                                                imv.self_ty,
                                                sharedv,
                                                w.2,
                                                mapv,
                                                j as int + 1,
                                            ).0 =~= w.0 + d.0);
                                            assert(diags.deep_view() + defaults_walk(
                                                pathv,
                                                tt@,
                                                imv.self_ty,
                                                sharedv,
                                                w.2,
                                                mapv,
                                                j as int + 1,
                                            ).1 =~= w.3 + d.1);
                                        }
                                        j += 1;
                                    }
                                    proof {
                                        let e2 = defaults_walk(
                                            pathv,
                                            tt@,
                                            imv.self_ty,
                                            sharedv,
                                            w.2,
                                            mapv,
                                            mapv.len() as int,
                                        );
                                        assert(e2.0 =~= Seq::<GenItemV>::empty());
                                        assert(e2.1 =~= Seq::<DiagV>::empty());
                                        assert(gens.deep_view() =~= w.0 + d.0);
                                        assert(diags.deep_view() =~= w.3 + d.1);
                                    }
                                    let ghost gsnap = gens.deep_view();
                                    gens.push(
                                        GenItem::RewrittenImpl(build_impl_shell(ast, outs)),
                                    );
                                    proof {
                                        assert(gens.deep_view() =~= gsnap.push(
                                            GenItemV::RewrittenImpl(impl_shell(imv, w.1)),
                                        ));
                                        assert(gens.deep_view() =~= w.0 + d.0 + seq![
                                            GenItemV::RewrittenImpl(impl_shell(imv, w.1)),
                                        ]);
                                    }
                                    (gens, diags)
                                },
                            }
                        },
                    }
                },
            }
        },
        None => {
            let ghost itemsv = ast.items.deep_view();
            let ghost pw = plain_walk(imv.self_ty, itemsv, 0, Seq::empty());
            let mut gens: Vec<GenItem> = Vec::new();
            let mut outs: Vec<ImplItemOut> = Vec::new();
            let mut diags: Vec<Diag> = Vec::new();
            let mut emitted: Vec<String> = Vec::new();
            let mut i: usize = 0;
            proof {
                assert(emitted.deep_view() =~= Seq::<Seq<char>>::empty());
            }
            while i < ast.items.len()
                invariant
                    i <= ast.items.len(),
                    imv == ast.deep_view(),
                    itemsv == ast.items.deep_view(),
                    itemsv.len() == ast.items@.len(),
                    imv.self_ty == ast.self_ty.deep_view(),
                    imv.items == itemsv,
                    pw == plain_walk(imv.self_ty, itemsv, 0, Seq::empty()),
                    gens.deep_view() + plain_walk(
                        imv.self_ty,
                        itemsv,
                        i as int,
                        emitted.deep_view(),
                    ).0 =~= pw.0,
                    outs.deep_view() + plain_walk(
                        imv.self_ty,
                        itemsv,
                        i as int,
                        emitted.deep_view(),
                    ).1 =~= pw.1,
                    diags.deep_view() + plain_walk(
                        imv.self_ty,
                        itemsv,
                        i as int,
                        emitted.deep_view(),
                    ).2 =~= pw.2,
                decreases ast.items.len() - i,
            {
                proof {
                    assert(itemsv[i as int] == ast.items@[i as int].deep_view());
                }
                match &ast.items[i] {
                    ImplItem::Method(m) => {
                        let mut cnt: usize = 0;
                        let mut j: usize = 0;
                        while j < ast.items.len()
                            invariant
                                j <= ast.items.len(),
                                i < ast.items@.len(),
                                itemsv == ast.items.deep_view(),
                                itemsv.len() == ast.items@.len(),
                                itemsv[i as int] is Method,
                                m.sig.ident@ == itemsv[i as int]->Method_0.sig.ident,
                                m == ast.items@[i as int]->Method_0,
                                cnt <= j,
                                cnt + impl_method_count(
                                    itemsv,
                                    itemsv[i as int]->Method_0.sig.ident,
                                    j as int,
                                ) == impl_method_count(
                                    itemsv,
                                    itemsv[i as int]->Method_0.sig.ident,
                                    0,
                                ),
                            decreases ast.items.len() - j,
                        {
                            proof {
                                assert(itemsv[j as int] == ast.items@[j as int].deep_view());
                            }
                            let ghost mid = itemsv[i as int]->Method_0.sig.ident;
                            match &ast.items[j] {
                                ImplItem::Method(m2) => {
                                    if m2.sig.ident == m.sig.ident {
                                        cnt += 1;
                                        proof {
                                            assert(impl_is_method_at(itemsv, j as int, mid));
                                        }
                                    } else {
                                        proof {
                                            assert(!impl_is_method_at(itemsv, j as int, mid));
                                        }
                                    }
                                },
                                ImplItem::Other(t) => {
                                    proof {
                                        assert(!impl_is_method_at(
                                            itemsv,
                                            j as int,
                                            mid,
                                        ));
                                    }
                                },
                            }
                            j += 1;
                        }
                        proof {
                            assert(impl_method_count(
                                itemsv,
                                itemsv[i as int]->Method_0.sig.ident,
                                itemsv.len() as int,
                            ) == 0);
                        }
                        let ghost mid = itemsv[i as int]->Method_0.sig.ident;
                        if cnt > 1 {
                            let already = strs_contains(&emitted, &m.sig.ident);
                            proof {
                                assert(already == emitted.deep_view().contains(mid));
                            }
                            let ghost esnap = emitted.deep_view();
                            if !already {
                                let ctxs = crate::synth::concat_text_string(&ast.self_ty);
                                let ghost osnap = outs.deep_view();
                                outs.push(
                                    ImplItemOut::Const(
                                        ConstBinding {
                                            name: m.sig.ident.clone(),
                                            shared_type: make_ctx_name(&ctxs, &m.sig.ident),
                                            self_param: false,
                                        },
                                    ),
                                );
                                let ghost gsnap = gens.deep_view();
                                gens.push(
                                    GenItem::Prepare(
                                        Prepare {
                                            vis: dup_toks(&m.vis),
                                            name: make_ctx_name(&ctxs, &m.sig.ident),
                                            phantom_generic: false,
                                            static_ident: None,
                                        },
                                    ),
                                );
                                gens.push(
                                    GenItem::FnImpls(
                                        impl_method_to_non_trait(&ast.self_ty, m),
                                    ),
                                );
                                emitted.push(m.sig.ident.clone());
                                proof {
                                    assert(emitted.deep_view() =~= esnap.push(mid));
                                    assert(outs.deep_view() =~= osnap.push(
                                        ImplItemOutV::Const(
                                            ConstBindingV {
                                                name: mid,
                                                shared_type: ctx_name(
                                                    concat_text(imv.self_ty),
                                                    mid,
                                                ),
                                                self_param: false,
                                            },
                                        ),
                                    ));
                                    assert(gens.deep_view() =~= gsnap.push(
                                        GenItemV::Prepare(
                                            PrepareV {
                                                vis: itemsv[i as int]->Method_0.vis,
                                                name: ctx_name(
                                                    concat_text(imv.self_ty),
                                                    mid,
                                                ),
                                                phantom_generic: false,
                                                static_ident: None,
                                            },
                                        ),
                                    ).push(
                                        GenItemV::FnImpls(
                                            spec_impl_method_to_non_trait(
                                                imv.self_ty,
                                                itemsv[i as int]->Method_0,
                                            ),
                                        ),
                                    ));
                                }
                            } else {
                                let ghost gsnap = gens.deep_view();
                                gens.push(
                                    GenItem::FnImpls(
                                        impl_method_to_non_trait(&ast.self_ty, m),
                                    ),
                                );
                                proof {
                                    assert(gens.deep_view() =~= gsnap.push(
                                        GenItemV::FnImpls(
                                            spec_impl_method_to_non_trait(
                                                imv.self_ty,
                                                itemsv[i as int]->Method_0,
                                            ),
                                        ),
                                    ));
                                }
                            }
                            if m.sig.unsafety {
                                let ghost dsnap = diags.deep_view();
                                diags.push(
                                    Diag {
                                        level: Level::Warning,
                                        code: DiagCode::UnsupportedUnsafe,
                                        detail: m.sig.ident.clone(),
                                    },
                                );
                                proof {
                                    assert(diags.deep_view() =~= dsnap.push(
                                        warn_of(DiagCode::UnsupportedUnsafe, mid),
                                    ));
                                }
                            }
                        } else {
                            let ghost osnap = outs.deep_view();
                            outs.push(ImplItemOut::Method(m.dup()));
                            proof {
                                assert(outs.deep_view() =~= osnap.push(
                                    ImplItemOutV::Method(itemsv[i as int]->Method_0),
                                ));
                            }
                        }
                        proof {
                            assert(gens.deep_view() + plain_walk(
                                imv.self_ty,
                                itemsv,
                                i as int + 1,
                                emitted.deep_view(),
                            ).0 =~= pw.0);
                            assert(outs.deep_view() + plain_walk(
                                imv.self_ty,
                                itemsv,
                                i as int + 1,
                                emitted.deep_view(),
                            ).1 =~= pw.1);
                            assert(diags.deep_view() + plain_walk(
                                imv.self_ty,
                                itemsv,
                                i as int + 1,
                                emitted.deep_view(),
                            ).2 =~= pw.2);
                        }
                    },
                    ImplItem::Other(t) => {
                        let ghost osnap = outs.deep_view();
                        outs.push(ImplItemOut::Other(dup_toks(t)));
                        proof {
                            assert(outs.deep_view() =~= osnap.push(
                                ImplItemOutV::Other(itemsv[i as int]->Other_0),
                            ));
                            assert(gens.deep_view() + plain_walk(
                                imv.self_ty,
                                itemsv,
                                i as int + 1,
                                emitted.deep_view(),
                            ).0 =~= pw.0);
                            assert(outs.deep_view() + plain_walk(
                                imv.self_ty,
                                itemsv,
                                i as int + 1,
                                emitted.deep_view(),
                            ).1 =~= pw.1);
                            assert(diags.deep_view() + plain_walk(
                                imv.self_ty,
                                itemsv,
                                i as int + 1,
                                emitted.deep_view(),
                            ).2 =~= pw.2);
                        }
                    },
                }
                i += 1;
            }
            proof {
                let e = plain_walk(
                    imv.self_ty,
                    itemsv,
                    itemsv.len() as int,
                    emitted.deep_view(),
                );
                assert(e.0 =~= Seq::<GenItemV>::empty());
                assert(e.1 =~= Seq::<ImplItemOutV>::empty());
                assert(e.2 =~= Seq::<DiagV>::empty());
                assert(gens.deep_view() =~= pw.0);
                assert(outs.deep_view() =~= pw.1);
                assert(diags.deep_view() =~= pw.2);
            }
            let ghost gsnap = gens.deep_view();
            gens.push(GenItem::RewrittenImpl(build_impl_shell(ast, outs)));
            proof {
                assert(gens.deep_view() =~= gsnap.push(
                    GenItemV::RewrittenImpl(impl_shell(imv, pw.1)),
                ));
                assert(gens.deep_view() =~= pw.0 + seq![
                    GenItemV::RewrittenImpl(impl_shell(imv, pw.1)),
                ]);
            }
            (gens, diags)
        },
    }
}

/// What the annotation does for each of the shapes it accepts, and for
/// token input that is none of them: the latter produces nothing and one
/// warning per token.
pub open spec fn spec_overload(sv: SessionV, it: ItemV) -> (SessionV, Seq<GenItemV>, Seq<
    DiagV,
>) {
    match it {
        ItemV::Trait(t) => spec_process_trait(sv, t),
        ItemV::Impl(im) => {
            let r = spec_process_impl(sv, im);
            (sv, r.0, r.1)
        },
        ItemV::Fn(f) => spec_process_fn(sv, f),
        ItemV::Other(toks) => (
            sv,
            Seq::empty(),
            toks.map_values(|t: TokV| warn_of(DiagCode::NotApplicable, Seq::<char>::empty())),
        ),
    }
}

/// Transforms one annotated declaration.  The annotation's optional flag
/// argument is reserved and inert; it changes nothing.
pub fn overload(sess: &mut Session, ast: &Item, default_marker: bool) -> (r: (
    Vec<GenItem>,
    Vec<Diag>,
))
    ensures
        (final(sess).deep_view(), r.0.deep_view(), r.1.deep_view()) == spec_overload(
            old(sess).deep_view(),
            ast.deep_view(),
        ),
        old(sess).wf() ==> final(sess).wf(),
{
    let _ = default_marker;
    match ast {
        Item::Trait(t) => process_trait(sess, t),
        Item::Impl(im) => process_impl(&*sess, im),
        Item::Fn(f) => process_fn(sess, f),
        Item::Other(toks) => {
            let ghost tv = toks.deep_view();
            let ghost goal = tv.map_values(
                |t: TokV| warn_of(DiagCode::NotApplicable, Seq::<char>::empty()),
            );
            let mut diags: Vec<Diag> = Vec::new();
            let mut i: usize = 0;
            while i < toks.len()
                invariant
                    i <= toks.len(),
                    tv == toks.deep_view(),
                    tv.len() == toks@.len(),
                    goal == tv.map_values(
                        |t: TokV| warn_of(DiagCode::NotApplicable, Seq::<char>::empty()),
                    ),
                    diags@.len() == i as int,
                    diags.deep_view() =~= goal.take(i as int),
                decreases toks.len() - i,
            {
                diags.push(
                    Diag {
                        level: Level::Warning,
                        code: DiagCode::NotApplicable,
                        detail: String::new(),
                    },
                );
                proof {
                    assert(diags.deep_view() =~= goal.take(i as int + 1));
                }
                i += 1;
            }
            let empty_items: Vec<GenItem> = Vec::new();
            proof {
                assert(diags.deep_view() =~= goal);
                assert(empty_items.deep_view() =~= Seq::<GenItemV>::empty());
            }
            (empty_items, diags)
        },
    }
}

} // verus!
