//! The default-parameter expander.
//!
//! An argument list in which some arguments carry default values expands
//! into a finite sequence of arity-reduced variants.  Each variant keeps
//! the arguments before a boundary verbatim, keeps the later arguments
//! that have no default, and materializes each later defaulted argument
//! as a synthesized `let` statement.  The boundaries walked are the full
//! length first, then every defaulted position from right to left.

use vstd::prelude::*;

use crate::model::Assign;
use crate::model::AssignV;
use crate::model::Tok;
use crate::model::TokV;
use crate::model::dup_toks;

verus! {

/// The tokens of the synthesized statement `let <pat> = <rhs> ;`.
pub open spec fn spec_let_stmt(pat: Seq<TokV>, rhs: Seq<TokV>) -> Seq<TokV> {
    seq![TokV::Ident("let"@)] + pat + seq![TokV::Punct("="@)] + rhs + seq![TokV::Punct(";"@)]
}

/// Of the items at positions `i` and later, those with no default value.
pub open spec fn kept_tail(xs: Seq<Seq<TokV>>, d: Seq<Option<AssignV>>, i: int) -> Seq<Seq<TokV>>
    decreases xs.len() - i,
{
    if i < 0 || i >= xs.len() {
        Seq::empty()
    } else if d[i] is None {
        seq![xs[i]] + kept_tail(xs, d, i + 1)
    } else {
        kept_tail(xs, d, i + 1)
    }
}

/// Of the patterns at positions `i` and later, a `let` statement for each
/// one with a default value.
pub open spec fn default_tail(p: Seq<Seq<TokV>>, d: Seq<Option<AssignV>>, i: int) -> Seq<
    Seq<TokV>,
>
    decreases p.len() - i,
{
    if i < 0 || i >= p.len() {
        Seq::empty()
    } else {
        match d[i] {
            Some(a) => seq![spec_let_stmt(p[i], a.right)] + default_tail(p, d, i + 1),
            None => default_tail(p, d, i + 1),
        }
    }
}

/// The retained types of the variant at boundary `b`.
pub open spec fn variant_types(t: Seq<Seq<TokV>>, d: Seq<Option<AssignV>>, b: int) -> Seq<
    Seq<TokV>,
> {
    t.take(b) + kept_tail(t, d, b)
}

/// The retained patterns of the variant at boundary `b`.
pub open spec fn variant_pats(p: Seq<Seq<TokV>>, d: Seq<Option<AssignV>>, b: int) -> Seq<
    Seq<TokV>,
> {
    p.take(b) + kept_tail(p, d, b)
}

/// The synthesized statements of the variant at boundary `b`.
pub open spec fn variant_defaults(p: Seq<Seq<TokV>>, d: Seq<Option<AssignV>>, b: int) -> Seq<
    Seq<TokV>,
> {
    default_tail(p, d, b)
}

/// One expansion variant: retained types, retained patterns, synthesized
/// statements.
pub struct VariantV {
    pub types: Seq<Seq<TokV>>,
    pub pats: Seq<Seq<TokV>>,
    pub stmts: Seq<Seq<TokV>>,
}

/// The variant at boundary `b`.
pub open spec fn variant_at(
    t: Seq<Seq<TokV>>,
    p: Seq<Seq<TokV>>,
    d: Seq<Option<AssignV>>,
    b: int,
) -> VariantV {
    VariantV {
        types: variant_types(t, d, b),
        pats: variant_pats(p, d, b),
        stmts: variant_defaults(p, d, b),
    }
}

/// The iterator state after the variant at boundary `b` is emitted: the
/// next boundary, and whether the sequence is exhausted.
pub open spec fn next_state(d: Seq<Option<AssignV>>, b: nat) -> (nat, bool)
    decreases b,
{
    if b == 0 {
        (0 as nat, true)
    } else if d[b - 1] is Some {
        ((b - 1) as nat, false)
    } else {
        next_state(d, (b - 1) as nat)
    }
}

/// The whole expansion from boundary `b` on: the variant at `b`, then the
/// variants at every defaulted position below `b`, right to left.
pub open spec fn variants_from(
    t: Seq<Seq<TokV>>,
    p: Seq<Seq<TokV>>,
    d: Seq<Option<AssignV>>,
    b: nat,
) -> Seq<VariantV>
    decreases b, 1int,
{
    seq![variant_at(t, p, d, b as int)] + rest_from(t, p, d, b)
}

/// The expansion strictly below boundary `b`.
pub open spec fn rest_from(
    t: Seq<Seq<TokV>>,
    p: Seq<Seq<TokV>>,
    d: Seq<Option<AssignV>>,
    b: nat,
) -> Seq<VariantV>
    decreases b, 0int,
{
    if b == 0 {
        Seq::empty()
    } else if d[b - 1] is Some {
        variants_from(t, p, d, (b - 1) as nat)
    } else {
        rest_from(t, p, d, (b - 1) as nat)
    }
}

/// What remains after one emission is the expansion at the next state.
pub proof fn lemma_rest_is_next(
    t: Seq<Seq<TokV>>,
    p: Seq<Seq<TokV>>,
    d: Seq<Option<AssignV>>,
    b: nat,
)
    ensures
        next_state(d, b).1 ==> rest_from(t, p, d, b) == Seq::<VariantV>::empty(),
        !next_state(d, b).1 ==> rest_from(t, p, d, b) == variants_from(
            t,
            p,
            d,
            next_state(d, b).0,
        ),
    decreases b,
{
    if b != 0 && d[b - 1] is None {
        lemma_rest_is_next(t, p, d, (b - 1) as nat);
    }
}

/// The lazy sequence of expansion variants.
pub struct InputIter {
    /// The boundary of the variant emitted next.
    pub index: usize,
    pub input_types: Vec<Vec<Tok>>,
    pub param_assign: Vec<Vec<Tok>>,
    pub default_values: Vec<Option<Assign>>,
    /// Whether the sequence is exhausted.
    pub end: bool,
}

impl InputIter {
    /// Well-formed: the three lists run in step and the boundary is in
    /// range.
    pub open spec fn wf(&self) -> bool {
        &&& self.input_types@.len() == self.default_values@.len()
        &&& self.param_assign@.len() == self.default_values@.len()
        &&& self.index <= self.default_values@.len()
    }

    /// The variants this iterator has yet to emit.
    pub open spec fn remaining(&self) -> Seq<VariantV> {
        if self.end {
            Seq::empty()
        } else {
            variants_from(
                self.input_types.deep_view(),
                self.param_assign.deep_view(),
                self.default_values.deep_view(),
                self.index as nat,
            )
        }
    }

    /// A fresh iterator over the whole expansion, starting at full arity.
    pub fn new(a: Vec<Vec<Tok>>, b: Vec<Vec<Tok>>, c: Vec<Option<Assign>>) -> (r: InputIter)
        requires
            a@.len() == c@.len(),
            b@.len() == c@.len(),
        ensures
            r.wf(),
            !r.end,
            r.index == c@.len(),
            r.input_types.deep_view() == a.deep_view(),
            r.param_assign.deep_view() == b.deep_view(),
            r.default_values.deep_view() == c.deep_view(),
            r.remaining() == variants_from(
                a.deep_view(),
                b.deep_view(),
                c.deep_view(),
                c@.len() as nat,
            ),
    {
        let n = a.len();
        InputIter { index: n, input_types: a, param_assign: b, default_values: c, end: false }
    }

    /// Emits the variant at the current boundary and steps the boundary
    /// left past the next defaulted argument, or ends.
    pub fn next(&mut self) -> (r: Option<(Vec<Vec<Tok>>, Vec<Vec<Tok>>, Vec<Vec<Tok>>)>)
        requires
            old(self).wf(),
        ensures
            final(self).wf(),
            final(self).input_types.deep_view() == old(self).input_types.deep_view(),
            final(self).param_assign.deep_view() == old(self).param_assign.deep_view(),
            final(self).default_values.deep_view() == old(self).default_values.deep_view(),
            old(self).end ==> r is None && final(self).end,
            !old(self).end ==> match r {
                Some(v) => {
                    &&& v.0.deep_view() == variant_types(
                        old(self).input_types.deep_view(),
                        old(self).default_values.deep_view(),
                        old(self).index as int,
                    )
                    &&& v.1.deep_view() == variant_pats(
                        old(self).param_assign.deep_view(),
                        old(self).default_values.deep_view(),
                        old(self).index as int,
                    )
                    &&& v.2.deep_view() == variant_defaults(
                        old(self).param_assign.deep_view(),
                        old(self).default_values.deep_view(),
                        old(self).index as int,
                    )
                    &&& final(self).index == next_state(
                        old(self).default_values.deep_view(),
                        old(self).index as nat,
                    ).0
                    &&& final(self).end == next_state(
                        old(self).default_values.deep_view(),
                        old(self).index as nat,
                    ).1
                },
                None => false,
            },
    {
        let ghost tv = self.input_types.deep_view();
        let ghost pv = self.param_assign.deep_view();
        let ghost dv = self.default_values.deep_view();
        let ghost b = self.index as int;
        if self.end {
            return None;
        }
        let mut inputs: Vec<Vec<Tok>> = Vec::new();
        let mut params: Vec<Vec<Tok>> = Vec::new();
        let mut defaults: Vec<Vec<Tok>> = Vec::new();
        let mut i: usize = 0;
        while i < self.index
            invariant
                *self == *old(self),
                self.wf(),
                !self.end,
                tv == self.input_types.deep_view(),
                pv == self.param_assign.deep_view(),
                dv == self.default_values.deep_view(),
                b == self.index as int,
                i <= self.index,
                inputs@.len() == i as int,
                params@.len() == i as int,
                tv.len() == self.input_types@.len(),
                pv.len() == self.param_assign@.len(),
                dv.len() == self.default_values@.len(),
                inputs.deep_view() =~= tv.take(i as int),
                params.deep_view() =~= pv.take(i as int),
                defaults@.len() == 0,
            decreases self.index - i,
        {
            proof {
                assert(tv[i as int] == self.input_types@[i as int].deep_view());
                assert(pv[i as int] == self.param_assign@[i as int].deep_view());
            }
            let ghost isnap = inputs.deep_view();
            let ghost psnap = params.deep_view();
            let x = dup_toks(&self.input_types[i]);
            let y = dup_toks(&self.param_assign[i]);
            let ghost xv = x.deep_view();
            let ghost yv = y.deep_view();
            inputs.push(x);
            params.push(y);
            proof {
                assert(inputs.deep_view() =~= isnap.push(xv));
                assert(params.deep_view() =~= psnap.push(yv));
                assert(inputs.deep_view() =~= tv.take(i as int + 1));
                assert(params.deep_view() =~= pv.take(i as int + 1));
            }
            i += 1;
        }
        let n = self.default_values.len();
        i = self.index;
        while i < n
            invariant
                *self == *old(self),
                self.wf(),
                !self.end,
                tv == self.input_types.deep_view(),
                pv == self.param_assign.deep_view(),
                dv == self.default_values.deep_view(),
                b == self.index as int,
                n == self.default_values@.len(),
                tv.len() == self.input_types@.len(),
                pv.len() == self.param_assign@.len(),
                dv.len() == self.default_values@.len(),
                self.index <= i <= n,
                inputs.deep_view() + kept_tail(tv, dv, i as int) =~= variant_types(tv, dv, b),
                params.deep_view() + kept_tail(pv, dv, i as int) =~= variant_pats(pv, dv, b),
                defaults.deep_view() + default_tail(pv, dv, i as int) =~= variant_defaults(
                    pv,
                    dv,
                    b,
                ),
            decreases n - i,
        {
            proof {
                assert(dv[i as int] == self.default_values@[i as int].deep_view());
                assert(tv[i as int] == self.input_types@[i as int].deep_view());
                assert(pv[i as int] == self.param_assign@[i as int].deep_view());
            }
            match &self.default_values[i] {
                Some(dflt) => {
                    let mut stmt: Vec<Tok> = Vec::new();
                    stmt.push(Tok::Ident("let".to_owned()));
                    let mut pat = dup_toks(&self.param_assign[i]);
                    stmt.append(&mut pat);
                    stmt.push(Tok::Punct("=".to_owned()));
                    let mut rhs = dup_toks(&dflt.right);
                    stmt.append(&mut rhs);
                    stmt.push(Tok::Punct(";".to_owned()));
                    proof {
                        assert(stmt.deep_view() =~= spec_let_stmt(
                            pv[i as int],
                            match dv[i as int] {
                                Some(a) => a.right,
                                None => Seq::empty(),
                            },
                        ));
                    }
                    let ghost dsnap = defaults.deep_view();
                    let ghost sv = stmt.deep_view();
                    defaults.push(stmt);
                    proof {
                        assert(defaults.deep_view() =~= dsnap.push(sv));
                        assert(default_tail(pv, dv, i as int) =~= seq![sv] + default_tail(
                            pv,
                            dv,
                            i as int + 1,
                        ));
                        assert(defaults.deep_view() + default_tail(pv, dv, i as int + 1)
                            =~= variant_defaults(pv, dv, b));
                        assert(inputs.deep_view() + kept_tail(tv, dv, i as int + 1)
                            =~= variant_types(tv, dv, b));
                        assert(params.deep_view() + kept_tail(pv, dv, i as int + 1)
                            =~= variant_pats(pv, dv, b));
                    }
                },
                None => {
                    let ghost isnap = inputs.deep_view();
                    let ghost psnap = params.deep_view();
                    let x = dup_toks(&self.input_types[i]);
                    let y = dup_toks(&self.param_assign[i]);
                    let ghost xv = x.deep_view();
                    let ghost yv = y.deep_view();
                    inputs.push(x);
                    params.push(y);
                    proof {
                        assert(inputs.deep_view() =~= isnap.push(xv));
                        assert(params.deep_view() =~= psnap.push(yv));
                        assert(kept_tail(tv, dv, i as int) =~= seq![tv[i as int]] + kept_tail(
                            tv,
                            dv,
                            i as int + 1,
                        ));
                        assert(kept_tail(pv, dv, i as int) =~= seq![pv[i as int]] + kept_tail(
                            pv,
                            dv,
                            i as int + 1,
                        ));
                        assert(inputs.deep_view() + kept_tail(tv, dv, i as int + 1)
                            =~= variant_types(tv, dv, b));
                        assert(params.deep_view() + kept_tail(pv, dv, i as int + 1)
                            =~= variant_pats(pv, dv, b));
                        assert(defaults.deep_view() + default_tail(pv, dv, i as int + 1)
                            =~= variant_defaults(pv, dv, b));
                    }
                },
            }
            i += 1;
        }
        proof {
            assert(inputs.deep_view() =~= variant_types(tv, dv, b));
            assert(params.deep_view() =~= variant_pats(pv, dv, b));
            assert(defaults.deep_view() =~= variant_defaults(pv, dv, b));
        }
        loop
            invariant_except_break
                !self.end,
                next_state(dv, b as nat) == next_state(dv, self.index as nat),
            invariant
                self.wf(),
                self.input_types == old(self).input_types,
                self.param_assign == old(self).param_assign,
                self.default_values == old(self).default_values,
                tv == self.input_types.deep_view(),
                pv == self.param_assign.deep_view(),
                dv == self.default_values.deep_view(),
            ensures
                self.index == next_state(dv, b as nat).0,
                self.end == next_state(dv, b as nat).1,
            decreases self.index,
        {
            if self.index > 0 {
                self.index -= 1;
                proof {
                    assert(dv[self.index as int] == self.default_values@[
                        self.index as int].deep_view());
                }
                if self.default_values[self.index].is_some() {
                    proof {
                        assert(next_state(dv, (self.index + 1) as nat) == (
                            self.index as nat,
                            false,
                        ));
                    }
                    break;
                }
            } else {
                self.end = true;
                break;
            }
        }
        Some((inputs, params, defaults))
    }
}

/// The expansion of an argument list: the iterator over all its variants.
pub fn param_variants(
    input_types: Vec<Vec<Tok>>,
    param_assign: Vec<Vec<Tok>>,
    default_values: Vec<Option<Assign>>,
) -> (r: InputIter)
    requires
        input_types@.len() == default_values@.len(),
        param_assign@.len() == default_values@.len(),
    ensures
        r.wf(),
        !r.end,
        r.index == default_values@.len(),
        r.input_types.deep_view() == input_types.deep_view(),
        r.param_assign.deep_view() == param_assign.deep_view(),
        r.default_values.deep_view() == default_values.deep_view(),
{
    InputIter::new(input_types, param_assign, default_values)
}

/// Later positions do not change which of the first `b` items are kept.
proof fn lemma_kept_tail_all_some(xs: Seq<Seq<TokV>>, d: Seq<Option<AssignV>>, i: int)
    requires
        xs.len() == d.len(),
        forall|j: int| i <= j < d.len() ==> d[j] is Some,
    ensures
        kept_tail(xs, d, i) == Seq::<Seq<TokV>>::empty(),
    decreases xs.len() - i,
{
    if 0 <= i < xs.len() {
        lemma_kept_tail_all_some(xs, d, i + 1);
    }
}

/// Below a boundary with no defaulted argument there is nothing to emit.
pub proof fn lemma_rest_none_below(
    t: Seq<Seq<TokV>>,
    p: Seq<Seq<TokV>>,
    d: Seq<Option<AssignV>>,
    b: nat,
)
    requires
        forall|j: int| 0 <= j < b ==> d[j] is None,
    ensures
        rest_from(t, p, d, b) == Seq::<VariantV>::empty(),
    decreases b,
{
    if b != 0 {
        lemma_rest_none_below(t, p, d, (b - 1) as nat);
    }
}

/// Expansion of a list whose defaultable arguments form one contiguous
/// trailing block of length `k = len - m`: exactly `k + 1` variants come
/// out, the variant at position `j` retains exactly the first `len - j`
/// arguments, so the variants are strict arity subsets of one another,
/// largest arity first.
pub proof fn lemma_default_expansion_trailing(
    t: Seq<Seq<TokV>>,
    p: Seq<Seq<TokV>>,
    d: Seq<Option<AssignV>>,
    m: int,
)
    requires
        t.len() == d.len(),
        p.len() == d.len(),
        0 <= m <= d.len(),
        forall|i: int| 0 <= i < m ==> d[i] is None,
        forall|i: int| m <= i < d.len() ==> d[i] is Some,
    ensures
        variants_from(t, p, d, d.len() as nat).len() == d.len() - m + 1,
        forall|j: int|
            0 <= j <= d.len() - m ==> #[trigger] variants_from(t, p, d, d.len() as nat)[j].types
                =~= t.take(d.len() - j),
        forall|j: int|
            0 < j <= d.len() - m ==> #[trigger] variants_from(t, p, d, d.len() as nat)[j].types.len()
                < variants_from(t, p, d, d.len() as nat)[j - 1].types.len(),
{
    lemma_expansion_trailing_from(t, p, d, m, d.len() as nat);
    let vs = variants_from(t, p, d, d.len() as nat);
    assert forall|j: int| 0 <= j <= d.len() - m implies #[trigger] vs[j].types =~= t.take(
        d.len() - j,
    ) by {
        assert(vs[j].types == t.take(d.len() - j));
    }
    assert forall|j: int| 0 < j <= d.len() - m implies #[trigger] vs[j].types.len() < vs[j
        - 1].types.len() by {
        assert(vs[j].types == t.take(d.len() - j));
        assert(vs[j - 1].types == t.take(d.len() - (j - 1)));
    }
}

/// The induction behind the trailing-block law, from boundary `b` down.
proof fn lemma_expansion_trailing_from(
    t: Seq<Seq<TokV>>,
    p: Seq<Seq<TokV>>,
    d: Seq<Option<AssignV>>,
    m: int,
    b: nat,
)
    requires
        t.len() == d.len(),
        p.len() == d.len(),
        0 <= m <= b <= d.len(),
        forall|i: int| 0 <= i < m ==> d[i] is None,
        forall|i: int| m <= i < d.len() ==> d[i] is Some,
    ensures
        variants_from(t, p, d, b).len() == b - m + 1,
        forall|j: int|
            0 <= j <= b - m ==> #[trigger] variants_from(t, p, d, b)[j].types == t.take(b - j),
    decreases b,
{
    lemma_kept_tail_all_some(t, d, b as int);
    assert(variant_at(t, p, d, b as int).types == t.take(b as int) + Seq::<Seq<TokV>>::empty());
    assert(t.take(b as int) + Seq::<Seq<TokV>>::empty() =~= t.take(b as int));
    if b == m {
        lemma_rest_none_below(t, p, d, b);
        assert(variants_from(t, p, d, b) =~= seq![variant_at(t, p, d, b as int)]);
    } else {
        assert(d[b - 1] is Some);
        lemma_expansion_trailing_from(t, p, d, m, (b - 1) as nat);
        let vs = variants_from(t, p, d, b);
        let prev = variants_from(t, p, d, (b - 1) as nat);
        assert(vs =~= seq![variant_at(t, p, d, b as int)] + prev);
        assert forall|j: int| 0 <= j <= b - m implies #[trigger] vs[j].types == t.take(b - j) by {
            if j == 0 {
                assert(vs[0] == variant_at(t, p, d, b as int));
            } else {
                assert(vs[j] == prev[j - 1]);
                assert(prev[j - 1].types == t.take(b - 1 - (j - 1)));
            }
        }
    }
}

} // verus!
