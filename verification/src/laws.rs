//! The properties the transformation promises, stated and proved.
//!
//! Each law speaks over the specification functions that the executable
//! transforms are proved to implement exactly, so what holds here holds
//! of what the library emits.  Two companion laws live beside the code
//! they govern: the trailing-block expansion count in [`crate::expand`]
//! (`lemma_default_expansion_trailing`), and the normalizer's idempotence
//! and renaming insensitivity in [`crate::normalize`]
//! (`lemma_normalize_idempotent`, `lemma_key_insensitive_to_renaming`).

use vstd::prelude::*;

use crate::expand::VariantV;
use crate::expand::lemma_rest_none_below;
use crate::expand::variant_at;
use crate::expand::variants_from;
use crate::model::AssignV;
use crate::model::FnArgV;
use crate::model::ItemFnV;
use crate::model::ItemImplV;
use crate::model::ItemTraitV;
use crate::model::SignatureV;
use crate::model::TokV;
use crate::model::TraitItemV;
use crate::model::TraitMethodV;
use crate::normalize::norm_arg_types;
use crate::normalize::spec_sig_key;
use crate::out::FnTraitImplsV;
use crate::out::GenItemV;
use crate::process::arg_default;
use crate::process::default_of_attrs;
use crate::process::defaults_walk;
use crate::process::fn_defaults;
use crate::process::fn_defaults_ok;
use crate::process::fn_pats;
use crate::process::fn_tys;
use crate::process::fn_variant_impls;
use crate::process::spec_process_fn;
use crate::process::spec_process_impl;
use crate::process::spec_process_trait;
use crate::process::trait_impl_walk;
use crate::session::SessionV;
use crate::session::assoc_get;
use crate::session::assoc_put;
use crate::session::lemma_assoc_get_put;
use crate::synth::ctx_name;
use crate::synth::free_name;
use crate::synth::spec_impl_method_to_fn_trait;
use crate::synth::spec_trait_method_to_fn_trait;

verus! {

/// The call-contract implementations among a run of emitted items, in
/// order.
pub open spec fn fn_impls_of(items: Seq<GenItemV>) -> Seq<FnTraitImplsV>
    decreases items.len(),
{
    if items.len() == 0 {
        Seq::empty()
    } else {
        (match items[0] {
            GenItemV::FnImpls(f) => seq![f],
            GenItemV::Prepare(p) => Seq::empty(),
            GenItemV::RewrittenTrait(t) => Seq::empty(),
            GenItemV::RewrittenImpl(i) => Seq::empty(),
        }) + fn_impls_of(items.drop_first())
    }
}

/// The dispatch-type declarations among a run of emitted items.
pub open spec fn preps_of(items: Seq<GenItemV>) -> Seq<crate::out::PrepareV>
    decreases items.len(),
{
    if items.len() == 0 {
        Seq::empty()
    } else {
        (match items[0] {
            GenItemV::Prepare(p) => seq![p],
            GenItemV::FnImpls(f) => Seq::empty(),
            GenItemV::RewrittenTrait(t) => Seq::empty(),
            GenItemV::RewrittenImpl(i) => Seq::empty(),
        }) + preps_of(items.drop_first())
    }
}

/// Filtering distributes over concatenation.
proof fn lemma_filters_add(a: Seq<GenItemV>, b: Seq<GenItemV>)
    ensures
        fn_impls_of(a + b) == fn_impls_of(a) + fn_impls_of(b),
        preps_of(a + b) == preps_of(a) + preps_of(b),
    decreases a.len(),
{
    if a.len() == 0 {
        assert(a + b =~= b);
        assert(fn_impls_of(a) + fn_impls_of(b) =~= fn_impls_of(b));
        assert(preps_of(a) + preps_of(b) =~= preps_of(b));
    } else {
        assert((a + b)[0] == a[0]);
        assert((a + b).drop_first() =~= a.drop_first() + b);
        lemma_filters_add(a.drop_first(), b);
        assert(fn_impls_of(a + b) =~= fn_impls_of(a) + fn_impls_of(b));
        assert(preps_of(a + b) =~= preps_of(a) + preps_of(b));
    }
}

/// An argument list with no receiver and no default values anywhere.
pub open spec fn plain_args(inputs: Seq<FnArgV>) -> bool {
    forall|a: int|
        0 <= a < inputs.len() ==> (#[trigger] inputs[a]) is Typed && default_of_attrs(
            inputs[a]->Typed_0.attrs,
        ) is None && inputs[a]->Typed_0.assign is None
}

/// Extraction from a plain argument list: full length, no defaults.
proof fn lemma_plain_extract(inputs: Seq<FnArgV>)
    requires
        plain_args(inputs),
    ensures
        fn_defaults_ok(inputs),
        fn_tys(inputs).len() == inputs.len(),
        fn_pats(inputs).len() == inputs.len(),
        fn_defaults(inputs).len() == inputs.len(),
        forall|i: int| 0 <= i < inputs.len() ==> (#[trigger] fn_defaults(inputs)[i]) is None,
        forall|i: int|
            0 <= i < inputs.len() ==> (#[trigger] fn_tys(inputs)[i]) == inputs[i]->Typed_0.ty,
    decreases inputs.len(),
{
    if inputs.len() > 0 {
        assert(inputs[0] is Typed);
        assert(plain_args(inputs.drop_first())) by {
            assert forall|a: int| 0 <= a < inputs.drop_first().len() implies (
            #[trigger] inputs.drop_first()[a]) is Typed && default_of_attrs(
                inputs.drop_first()[a]->Typed_0.attrs,
            ) is None && inputs.drop_first()[a]->Typed_0.assign is None by {
                assert(inputs.drop_first()[a] == inputs[a + 1]);
            }
        }
        lemma_plain_extract(inputs.drop_first());
        assert(fn_tys(inputs) =~= seq![inputs[0]->Typed_0.ty] + fn_tys(inputs.drop_first()));
        assert(arg_default(inputs[0]->Typed_0) is None);
        assert forall|i: int| 0 <= i < inputs.len() implies (#[trigger] fn_defaults(inputs)[i])
            is None by {
            if i > 0 {
                assert(fn_defaults(inputs)[i] == fn_defaults(inputs.drop_first())[i - 1]);
            }
        }
        assert forall|i: int| 0 <= i < inputs.len() implies (#[trigger] fn_tys(inputs)[i])
            == inputs[i]->Typed_0.ty by {
            if i > 0 {
                assert(fn_tys(inputs)[i] == fn_tys(inputs.drop_first())[i - 1]);
                assert(inputs.drop_first()[i - 1] == inputs[i]);
            }
        }
    }
}

/// With no default anywhere, expansion is the one full-arity variant.
proof fn lemma_single_variant(t: Seq<Seq<TokV>>, p: Seq<Seq<TokV>>, d: Seq<Option<AssignV>>)
    requires
        t.len() == d.len(),
        p.len() == d.len(),
        forall|i: int| 0 <= i < d.len() ==> (#[trigger] d[i]) is None,
    ensures
        variants_from(t, p, d, t.len() as nat) == seq![
            VariantV { types: t, pats: p, stmts: Seq::empty() },
        ],
{
    lemma_rest_none_below(t, p, d, t.len() as nat);
    let v = variant_at(t, p, d, t.len() as int);
    assert(v.types =~= t);
    assert(v.pats =~= p);
    assert(v.stmts =~= Seq::<Seq<TokV>>::empty());
    assert(variants_from(t, p, d, t.len() as nat) =~= seq![v]);
}

/// Processing a run of declarations of one free-function name, in order.
pub open spec fn process_fns(sv: SessionV, fs: Seq<ItemFnV>) -> (SessionV, Seq<GenItemV>)
    decreases fs.len(),
{
    if fs.len() == 0 {
        (sv, Seq::empty())
    } else {
        let r = spec_process_fn(sv, fs[0]);
        let rest = process_fns(r.0, fs.drop_first());
        (rest.0, r.1 + rest.1)
    }
}

/// The full-arity variant of a member.
pub open spec fn full_variant(f: ItemFnV) -> VariantV {
    VariantV {
        types: fn_tys(f.sig.inputs),
        pats: fn_pats(f.sig.inputs),
        stmts: Seq::empty(),
    }
}

/// The shape of processing a run of same-named, plain-argument free
/// functions: one call-contract group per member, in order, and the
/// dispatch type with its static binding emitted exactly once.
proof fn lemma_process_fns_shape(sv: SessionV, fs: Seq<ItemFnV>, id: Seq<char>)
    requires
        forall|k: int| 0 <= k < fs.len() ==> (#[trigger] fs[k]).sig.ident == id,
        forall|k: int| 0 <= k < fs.len() ==> plain_args((#[trigger] fs[k]).sig.inputs),
    ensures
        process_fns(sv, fs).0.trait_idents == sv.trait_idents,
        process_fns(sv, fs).0.default_definition == sv.default_definition,
        process_fns(sv, fs).0.namings == if fs.len() > 0 && !sv.namings.contains(id) {
            sv.namings.push(id)
        } else {
            sv.namings
        },
        fn_impls_of(process_fns(sv, fs).1).len() == fs.len(),
        forall|k: int|
            0 <= k < fs.len() ==> #[trigger] fn_impls_of(process_fns(sv, fs).1)[k]
                == fn_variant_impls(fs[k], full_variant(fs[k])),
        preps_of(process_fns(sv, fs).1).len() == if fs.len() > 0 && !sv.namings.contains(id) {
            1int
        } else {
            0int
        },
    decreases fs.len(),
{
    if fs.len() > 0 {
        let f = fs[0];
        lemma_plain_extract(f.sig.inputs);
        lemma_single_variant(fn_tys(f.sig.inputs), fn_pats(f.sig.inputs), fn_defaults(f.sig.inputs));
        let r = spec_process_fn(sv, f);
        let vs = variants_from(
            fn_tys(f.sig.inputs),
            fn_pats(f.sig.inputs),
            fn_defaults(f.sig.inputs),
            fn_tys(f.sig.inputs).len() as nat,
        );
        assert(vs == seq![full_variant(f)]);
        let impls = vs.map_values(|v: VariantV| GenItemV::FnImpls(fn_variant_impls(f, v)));
        assert(impls =~= seq![GenItemV::FnImpls(fn_variant_impls(f, full_variant(f)))]);
        let fresh = !sv.namings.contains(id);
        assert(r.0.namings == if fresh {
            sv.namings.push(id)
        } else {
            sv.namings
        });
        if fresh {
            assert(r.0.namings.contains(id)) by {
                assert(r.0.namings[sv.namings.len() as int] == id);
            }
        } else {
            assert(r.0.namings.contains(id));
        }
        assert forall|k: int| 0 <= k < fs.drop_first().len() implies (#[trigger] fs.drop_first()[
        k]).sig.ident == id && plain_args(fs.drop_first()[k].sig.inputs) by {
            assert(fs.drop_first()[k] == fs[k + 1]);
        }
        lemma_process_fns_shape(r.0, fs.drop_first(), id);
        lemma_filters_add(r.1, process_fns(r.0, fs.drop_first()).1);
        // r.1 itself: the optional preparation, then the one group.
        reveal_with_fuel(fn_impls_of, 3);
        reveal_with_fuel(preps_of, 3);
        assert(impls.len() == 1);
        assert(impls[0] == GenItemV::FnImpls(fn_variant_impls(f, full_variant(f))));
        assert(impls.drop_first() =~= Seq::<GenItemV>::empty());
        assert(fn_impls_of(impls) =~= seq![fn_variant_impls(f, full_variant(f))]);
        assert(preps_of(impls) =~= Seq::<crate::out::PrepareV>::empty());
        if fresh {
            assert(r.1[0] is Prepare);
            assert(r.1.drop_first() =~= impls);
            assert(fn_impls_of(r.1) =~= seq![fn_variant_impls(f, full_variant(f))]);
            assert(preps_of(r.1).len() == 1);
        } else {
            assert(r.1 =~= impls);
            assert(fn_impls_of(r.1) =~= seq![fn_variant_impls(f, full_variant(f))]);
            assert(preps_of(r.1).len() == 0);
        }
        assert forall|k: int|
            0 <= k < fs.len() implies #[trigger] fn_impls_of(process_fns(sv, fs).1)[k]
            == fn_variant_impls(fs[k], full_variant(fs[k])) by {
            assert(fn_impls_of(process_fns(sv, fs).1) == fn_impls_of(r.1) + fn_impls_of(
                process_fns(r.0, fs.drop_first()).1,
            ));
            if k > 0 {
                assert(fn_impls_of(process_fns(r.0, fs.drop_first()).1)[k - 1]
                    == fn_variant_impls(fs.drop_first()[k - 1], full_variant(
                    fs.drop_first()[k - 1],
                )));
                assert(fs.drop_first()[k - 1] == fs[k]);
            }
        }
    }
}

/// For free-function declarations sharing one identifier whose argument
/// lists have pairwise-distinct normalized type signatures, the emitted
/// dispatch carries exactly one call-contract group per member: group `k`
/// is keyed by member `k`'s exact argument-tuple type, runs member `k`'s
/// body and no other, and all groups hang off the one dispatch type of
/// that identifier — so a call site whose argument types match exactly
/// one member resolves to that member's body and no other.
pub proof fn lemma_free_overload_dispatch(sv: SessionV, fs: Seq<ItemFnV>, id: Seq<char>)
    requires
        forall|k: int| 0 <= k < fs.len() ==> (#[trigger] fs[k]).sig.ident == id,
        forall|k: int| 0 <= k < fs.len() ==> plain_args((#[trigger] fs[k]).sig.inputs),
        forall|j: int, k: int|
            0 <= j < k < fs.len() ==> norm_arg_types(fs[j].sig) != norm_arg_types(fs[k].sig),
    ensures
        fn_impls_of(process_fns(sv, fs).1).len() == fs.len(),
        forall|k: int|
            0 <= k < fs.len() ==> {
                let g = #[trigger] fn_impls_of(process_fns(sv, fs).1)[k];
                &&& g.shared_type == free_name(id)
                &&& g.input_tuple == fn_tys(fs[k].sig.inputs)
                &&& g.pats == fn_pats(fs[k].sig.inputs)
                &&& g.body == fs[k].block
                &&& g.defaults == Seq::<Seq<TokV>>::empty()
            },
        forall|j: int, k: int|
            0 <= j < fs.len() && 0 <= k < fs.len() ==> ((norm_arg_types(fs[j].sig)
                == norm_arg_types(fs[k].sig)) <==> j == k),
{
    lemma_process_fns_shape(sv, fs, id);
}

/// Two same-named free functions of different arity yield two
/// independently callable call-contract groups — their tuple types differ
/// already in length — both reachable through the one static binding,
/// which is emitted exactly once.
pub proof fn lemma_two_arities_one_name(sv: SessionV, f1: ItemFnV, f2: ItemFnV, id: Seq<char>)
    requires
        f1.sig.ident == id,
        f2.sig.ident == id,
        plain_args(f1.sig.inputs),
        plain_args(f2.sig.inputs),
        f1.sig.inputs.len() != f2.sig.inputs.len(),
        !sv.namings.contains(id),
    ensures
        fn_impls_of(process_fns(sv, seq![f1, f2]).1).len() == 2,
        fn_impls_of(process_fns(sv, seq![f1, f2]).1)[0].input_tuple.len()
            != fn_impls_of(process_fns(sv, seq![f1, f2]).1)[1].input_tuple.len(),
        fn_impls_of(process_fns(sv, seq![f1, f2]).1)[0].shared_type == free_name(id),
        fn_impls_of(process_fns(sv, seq![f1, f2]).1)[1].shared_type == free_name(id),
        fn_impls_of(process_fns(sv, seq![f1, f2]).1)[0].body == f1.block,
        fn_impls_of(process_fns(sv, seq![f1, f2]).1)[1].body == f2.block,
        preps_of(process_fns(sv, seq![f1, f2]).1).len() == 1,
        preps_of(process_fns(sv, seq![f1, f2]).1)[0].static_ident == Some(id),
{
    let fs = seq![f1, f2];
    assert(fs[0] == f1 && fs[1] == f2);
    lemma_process_fns_shape(sv, fs, id);
    lemma_plain_extract(f1.sig.inputs);
    lemma_plain_extract(f2.sig.inputs);
    let out = process_fns(sv, fs).1;
    assert(fn_impls_of(out)[0] == fn_variant_impls(f1, full_variant(f1)));
    assert(fn_impls_of(out)[1] == fn_variant_impls(f2, full_variant(f2)));
    // The one preparation carries the externally visible binding.
    let r = spec_process_fn(sv, f1);
    assert(preps_of(out)[0].static_ident == Some(id)) by {
        lemma_plain_extract(f1.sig.inputs);
        assert(fn_defaults_ok(f1.sig.inputs));
        assert(!sv.namings.contains(id));
        assert(r.1[0] == GenItemV::Prepare(
            crate::out::PrepareV {
                vis: f1.vis,
                name: free_name(id),
                phantom_generic: false,
                static_ident: Some(id),
            },
        ));
        lemma_filters_add(r.1, process_fns(r.0, fs.drop_first()).1);
        assert(fs.drop_first() =~= seq![f2]);
        assert(preps_of(out) == preps_of(r.1) + preps_of(
            process_fns(r.0, fs.drop_first()).1,
        ));
        assert(preps_of(r.1)[0].static_ident == Some(id));
    }
}


/// An impl of a trait that declares only the required member of an
/// overloaded method, while the trait carries a default body for a
/// sibling overload of the same name, still makes both overloads
/// callable against the impl's self type: the emitted dispatch carries
/// the declared member's call-contract group and the recovered default's,
/// both on the trait's one dispatch type for that method name.
pub proof fn lemma_inherited_overload_members(
    sv: SessionV,
    tr: ItemTraitV,
    im: ItemImplV,
    m_req: TraitMethodV,
    m_def: TraitMethodV,
    d: crate::model::ImplMethodV,
    path: Seq<TokV>,
    mname: Seq<char>,
)
    requires
        tr.items == seq![TraitItemV::Method(m_req), TraitItemV::Method(m_def)],
        m_req.sig.ident == mname,
        m_def.sig.ident == mname,
        m_def.default is Some,
        spec_sig_key(m_req.sig) != spec_sig_key(m_def.sig),
        im.trait_path == Some(path),
        crate::synth::is_path_ty(path),
        !crate::synth::has_top_sep(path),
        path[0]->Ident_0 == tr.ident,
        im.items == seq![crate::model::ImplItemV::Method(d)],
        d.sig.ident == mname,
        spec_sig_key(d.sig) == spec_sig_key(m_req.sig),
    ensures
        ({
            let sv1 = spec_process_trait(sv, tr).0;
            let r = spec_process_impl(sv1, im);
            &&& fn_impls_of(r.0).len() == 2
            &&& fn_impls_of(r.0)[0] == spec_impl_method_to_fn_trait(
                path,
                tr.ident,
                im.self_ty,
                d,
            )
            &&& Some(fn_impls_of(r.0)[1]) == spec_trait_method_to_fn_trait(
                path,
                tr.ident,
                im.self_ty,
                m_def,
            )
            &&& fn_impls_of(r.0)[0].shared_type == ctx_name(tr.ident, mname)
            &&& fn_impls_of(r.0)[1].shared_type == ctx_name(tr.ident, mname)
        }),
{
    reveal_with_fuel(crate::process::distinct_idents_from, 4);
    reveal_with_fuel(crate::process::method_count, 4);
    reveal_with_fuel(crate::process::shared_fields_of, 4);
    reveal_with_fuel(crate::process::fn_map_from, 4);
    reveal_with_fuel(trait_impl_walk, 4);
    reveal_with_fuel(defaults_walk, 4);
    reveal_with_fuel(assoc_put, 4);
    reveal_with_fuel(assoc_get, 4);
    reveal_with_fuel(fn_impls_of, 5);
    let items = tr.items;
    let k_req = spec_sig_key(m_req.sig);
    let k_def = spec_sig_key(m_def.sig);

    // The trait's one method group, overloaded.
    assert(crate::process::is_method_ident_at(items, 0, mname));
    assert(crate::process::is_method_ident_at(items, 1, mname));
    assert(crate::process::seen_before(items, 1, mname));
    assert(items.drop_first() =~= seq![TraitItemV::Method(m_def)]);
    assert(items.drop_first().drop_first() =~= Seq::<TraitItemV>::empty());
    let ids = crate::process::distinct_idents_from(items, 0);
    assert(ids =~= seq![mname]);
    assert(crate::process::method_count(items, mname, 0) == 2);
    let shared = crate::process::shared_fields_of(items, ids, 0);
    assert(shared =~= seq![mname]);

    // The recorded method map: both members, keyed distinctly.
    let fm = crate::process::fn_map_from(items, 0, Seq::empty());
    let one = assoc_put(Seq::empty(), k_req, m_req);
    assert(one =~= seq![(k_req, m_req)]);
    let two = assoc_put(one, k_def, m_def);
    assert(two =~= seq![(k_req, m_req), (k_def, m_def)]);
    assert(fm == two);

    let sv1 = spec_process_trait(sv, tr).0;
    assert(sv1.trait_idents == assoc_put(sv.trait_idents, tr.ident, shared));
    assert(sv1.default_definition == assoc_put(sv.default_definition, tr.ident, fm));
    lemma_assoc_get_put(sv.trait_idents, tr.ident, shared, tr.ident);
    lemma_assoc_get_put(sv.default_definition, tr.ident, fm, tr.ident);
    assert(assoc_get(sv1.trait_idents, tr.ident) == Some(shared));
    assert(assoc_get(sv1.default_definition, tr.ident) == Some(fm));

    // The impl's walk: the declared member routes through the dispatch
    // type and covers the required key.
    assert(shared.contains(mname)) by {
        assert(shared[0] == mname);
    }
    let w = trait_impl_walk(path, tr.ident, im.self_ty, shared, im.items, 0);
    assert(im.items.drop_first() =~= Seq::<crate::model::ImplItemV>::empty());
    let a = spec_impl_method_to_fn_trait(path, tr.ident, im.self_ty, d);
    assert(w.0 =~= seq![GenItemV::FnImpls(a)]);
    assert(w.1 =~= Seq::<crate::out::ImplItemOutV>::empty());
    assert(w.2 =~= seq![k_req]);

    // The defaults walk recovers the sibling overload.
    assert(w.2.contains(k_req)) by {
        assert(w.2[0] == k_req);
    }
    assert(!w.2.contains(k_def)) by {
        assert(forall|i: int| 0 <= i < w.2.len() ==> #[trigger] w.2[i] == k_req);
    }
    let dw = defaults_walk(path, tr.ident, im.self_ty, shared, w.2, fm, 0);
    assert(fm[0] == (k_req, m_req));
    assert(fm[1] == (k_def, m_def));
    let fb = spec_trait_method_to_fn_trait(path, tr.ident, im.self_ty, m_def);
    assert(fb is Some);
    let b = fb->Some_0;
    assert(dw.0 =~= seq![GenItemV::FnImpls(b)]);

    let r = spec_process_impl(sv1, im);
    assert(r.0 == w.0 + dw.0 + seq![
        GenItemV::RewrittenImpl(crate::process::impl_shell(im, w.1)),
    ]);
    let whole = r.0;
    assert(whole =~= seq![
        GenItemV::FnImpls(a),
        GenItemV::FnImpls(b),
        GenItemV::RewrittenImpl(crate::process::impl_shell(im, w.1)),
    ]);
    assert(whole.drop_first() =~= seq![
        GenItemV::FnImpls(b),
        GenItemV::RewrittenImpl(crate::process::impl_shell(im, w.1)),
    ]);
    assert(whole.drop_first().drop_first() =~= seq![
        GenItemV::RewrittenImpl(crate::process::impl_shell(im, w.1)),
    ]);
    assert(whole.drop_first().drop_first().drop_first() =~= Seq::<GenItemV>::empty());
    assert(fn_impls_of(whole) =~= seq![a, b]);
}

/// Signature normalization does not read argument names: two signatures
/// that differ only in the binding patterns of their typed arguments get
/// one canonical key.
pub proof fn lemma_key_ignores_argument_names(s1: SignatureV, s2: SignatureV)
    requires
        s1.ident == s2.ident,
        s1.generics == s2.generics,
        s1.variadic == s2.variadic,
        s1.inputs.len() == s2.inputs.len(),
        forall|a: int|
            0 <= a < s1.inputs.len() ==> ((#[trigger] s1.inputs[a]) is Receiver && s2.inputs[a]
                == s1.inputs[a]) || (s1.inputs[a] is Typed && (#[trigger] s2.inputs[a]) is Typed
                && s2.inputs[a]->Typed_0.ty == s1.inputs[a]->Typed_0.ty),
    ensures
        spec_sig_key(s1) == spec_sig_key(s2),
{
    let t = crate::normalize::spec_build_table(s1.generics.params).0;
    assert(crate::normalize::norm_inputs(t, s1.inputs) =~= crate::normalize::norm_inputs(
        t,
        s2.inputs,
    )) by {
        assert forall|a: int| 0 <= a < s1.inputs.len() implies crate::normalize::norm_inputs(
            t,
            s1.inputs,
        )[a] == crate::normalize::norm_inputs(t, s2.inputs)[a] by {
            assert(crate::normalize::norm_inputs(t, s1.inputs)[a]
                == crate::normalize::norm_arg(t, s1.inputs[a]));
            assert(crate::normalize::norm_inputs(t, s2.inputs)[a]
                == crate::normalize::norm_arg(t, s2.inputs[a]));
        }
    }
    assert(crate::normalize::norm_sig_struct(s1) == crate::normalize::norm_sig_struct(s2));
}

/// A receiver-bearing impl method's generated group: with two overloads
/// of one name — one taking only the borrowed receiver, one taking the
/// borrowed receiver and a typed argument — the emitted groups route by
/// tuple shape: the receiver slot is the borrowed self type in both, the
/// tuples differ, and each group runs its own member's body.
pub proof fn lemma_receiver_dispatch(
    sv: SessionV,
    im: ItemImplV,
    m1: crate::model::ImplMethodV,
    m2: crate::model::ImplMethodV,
    pt: crate::model::PatTypeV,
    n: Seq<char>,
)
    requires
        im.trait_path is None,
        im.items == seq![
            crate::model::ImplItemV::Method(m1),
            crate::model::ImplItemV::Method(m2),
        ],
        m1.sig.ident == n,
        m2.sig.ident == n,
        m1.sig.inputs == seq![
            FnArgV::Receiver(
                crate::model::ReceiverV { reference: true, lifetime: None, mutable: false },
            ),
        ],
        m2.sig.inputs == seq![
            FnArgV::Receiver(
                crate::model::ReceiverV { reference: true, lifetime: None, mutable: false },
            ),
            FnArgV::Typed(pt),
        ],
    ensures
        ({
            let r = spec_process_impl(sv, im);
            let gs = fn_impls_of(r.0);
            &&& gs.len() == 2
            &&& gs[0].input_tuple =~= seq![seq![TokV::Punct("&"@)] + im.self_ty]
            &&& gs[1].input_tuple =~= seq![seq![TokV::Punct("&"@)] + im.self_ty, pt.ty]
            &&& gs[0].input_tuple != gs[1].input_tuple
            &&& gs[0].pats =~= seq![crate::synth::self_pat()]
            &&& gs[1].pats =~= seq![crate::synth::self_pat(), pt.pat]
            &&& gs[0].body == crate::synth::spec_subst_self(m1.block, im.self_ty)
            &&& gs[1].body == crate::synth::spec_subst_self(m2.block, im.self_ty)
            &&& gs[0].shared_type == ctx_name(crate::synth::concat_text(im.self_ty), n)
            &&& gs[1].shared_type == ctx_name(crate::synth::concat_text(im.self_ty), n)
        }),
{
    reveal_with_fuel(crate::process::plain_walk, 4);
    reveal_with_fuel(crate::process::impl_method_count, 4);
    reveal_with_fuel(fn_impls_of, 6);
    let items = im.items;
    let tp = im.self_ty;
    assert(crate::process::impl_is_method_at(items, 0, n));
    assert(crate::process::impl_is_method_at(items, 1, n));
    assert(items.drop_first() =~= seq![crate::model::ImplItemV::Method(m2)]);
    assert(items.drop_first().drop_first() =~= Seq::<crate::model::ImplItemV>::empty());
    assert(crate::process::impl_method_count(items, n, 0) == 2);
    let e0 = Seq::<Seq<char>>::empty();
    let e1 = e0.push(n);
    assert(!e0.contains(n));
    assert(e1.contains(n)) by {
        assert(e1[0] == n);
    }
    let a = crate::synth::spec_impl_method_to_non_trait(tp, m1);
    let b = crate::synth::spec_impl_method_to_non_trait(tp, m2);
    let w = crate::process::plain_walk(tp, items, 0, e0);
    let shell = GenItemV::RewrittenImpl(crate::process::impl_shell(im, w.1));
    let r = spec_process_impl(sv, im);
    assert(r.0 == w.0 + seq![shell]);
    assert(w.0 =~= seq![
        GenItemV::Prepare(
            crate::out::PrepareV {
                vis: m1.vis,
                name: ctx_name(crate::synth::concat_text(tp), n),
                phantom_generic: false,
                static_ident: None,
            },
        ),
        GenItemV::FnImpls(a),
        GenItemV::FnImpls(b),
    ]);
    let whole = r.0;
    assert(whole =~= seq![
        GenItemV::Prepare(
            crate::out::PrepareV {
                vis: m1.vis,
                name: ctx_name(crate::synth::concat_text(tp), n),
                phantom_generic: false,
                static_ident: None,
            },
        ),
        GenItemV::FnImpls(a),
        GenItemV::FnImpls(b),
        shell,
    ]);
    assert(whole.drop_first() =~= seq![GenItemV::FnImpls(a), GenItemV::FnImpls(b), shell]);
    assert(whole.drop_first().drop_first() =~= seq![GenItemV::FnImpls(b), shell]);
    assert(whole.drop_first().drop_first().drop_first() =~= seq![shell]);
    assert(whole.drop_first().drop_first().drop_first().drop_first()
        =~= Seq::<GenItemV>::empty());
    assert(fn_impls_of(whole) =~= seq![a, b]);
    let rslot = crate::synth::recv_ty(
        crate::model::ReceiverV { reference: true, lifetime: None, mutable: false },
        tp,
    );
    assert(rslot =~= seq![TokV::Punct("&"@)] + tp);
    assert(a.input_tuple =~= seq![rslot]) by {
        assert(crate::synth::impl_tuple(tp, m1.sig.inputs).len() == 1);
        assert(crate::synth::impl_tuple(tp, m1.sig.inputs)[0] == rslot);
    }
    assert(b.input_tuple =~= seq![rslot, pt.ty]) by {
        assert(crate::synth::impl_tuple(tp, m2.sig.inputs).len() == 2);
        assert(crate::synth::impl_tuple(tp, m2.sig.inputs)[0] == rslot);
        assert(crate::synth::impl_tuple(tp, m2.sig.inputs)[1] == pt.ty);
    }
    assert(a.input_tuple.len() != b.input_tuple.len());
    assert(a.pats =~= seq![crate::synth::self_pat()]) by {
        assert(crate::synth::impl_pats(m1.sig.inputs).len() == 1);
        assert(crate::synth::impl_pats(m1.sig.inputs)[0] == crate::synth::self_pat());
    }
    assert(b.pats =~= seq![crate::synth::self_pat(), pt.pat]) by {
        assert(crate::synth::impl_pats(m2.sig.inputs).len() == 2);
        assert(crate::synth::impl_pats(m2.sig.inputs)[0] == crate::synth::self_pat());
        assert(crate::synth::impl_pats(m2.sig.inputs)[1] == pt.pat);
    }
}

} // verus!
