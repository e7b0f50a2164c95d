//! The signature normalizer.
//!
//! Two declarations are the same overload exactly when their normalized
//! signatures agree.  Normalization replaces argument patterns with a
//! wildcard, renames generic type and lifetime parameters to
//! position-indexed aliases (`_1`, `_2`, ... in order of first occurrence),
//! rewrites every occurrence of a renamed name, drops where-clause
//! predicates that reference a name outside the generic-parameter table,
//! and discards the return type, argument attributes and default values,
//! and the callable's qualifiers — none of which the host's call-contract
//! dispatch can distinguish.  The canonical key is a rendering of the
//! normalized signature as one string.

use vstd::prelude::*;

use crate::model::FnArg;
use crate::model::FnArgV;
use crate::model::GenericParam;
use crate::model::GenericParamV;
use crate::model::Generics;
use crate::model::GenericsV;
use crate::model::LifetimeDef;
use crate::model::LifetimeDefV;
use crate::model::PatType;
use crate::model::PatTypeV;
use crate::model::ReceiverV;
use crate::model::Signature;
use crate::model::SignatureV;
use crate::model::Tok;
use crate::model::TokV;
use crate::model::WherePredicate;
use crate::model::WherePredicateV;
use crate::model::dup_toks;
use crate::session::assoc_get;
use vstd::string::StringExecFns;

verus! {

/// The character of one decimal digit.
pub open spec fn digit_char(d: int) -> char {
    if d == 0 {
        '0'
    } else if d == 1 {
        '1'
    } else if d == 2 {
        '2'
    } else if d == 3 {
        '3'
    } else if d == 4 {
        '4'
    } else if d == 5 {
        '5'
    } else if d == 6 {
        '6'
    } else if d == 7 {
        '7'
    } else if d == 8 {
        '8'
    } else {
        '9'
    }
}

/// The decimal rendering of a number.
pub open spec fn dec_digits(n: nat) -> Seq<char>
    decreases n,
{
    if n < 10 {
        seq![digit_char(n as int)]
    } else {
        dec_digits(n / 10) + seq![digit_char((n % 10) as int)]
    }
}

/// The value a digit character stands for.
pub open spec fn digit_val(c: char) -> int {
    if c == '0' {
        0
    } else if c == '1' {
        1
    } else if c == '2' {
        2
    } else if c == '3' {
        3
    } else if c == '4' {
        4
    } else if c == '5' {
        5
    } else if c == '6' {
        6
    } else if c == '7' {
        7
    } else if c == '8' {
        8
    } else {
        9
    }
}

/// The value a digit string stands for.
pub open spec fn dec_val(s: Seq<char>) -> int
    decreases s.len(),
{
    if s.len() == 0 {
        0
    } else {
        dec_val(s.drop_last()) * 10 + digit_val(s.last())
    }
}

/// A digit character stands for the digit that produced it.
proof fn lemma_digit_roundtrip(d: int)
    requires
        0 <= d < 10,
    ensures
        digit_val(digit_char(d)) == d,
{
    if d == 0 {
        assert(digit_val(digit_char(0)) == 0);
    } else if d == 1 {
        assert(digit_val(digit_char(1)) == 1);
    } else if d == 2 {
        assert(digit_val(digit_char(2)) == 2);
    } else if d == 3 {
        assert(digit_val(digit_char(3)) == 3);
    } else if d == 4 {
        assert(digit_val(digit_char(4)) == 4);
    } else if d == 5 {
        assert(digit_val(digit_char(5)) == 5);
    } else if d == 6 {
        assert(digit_val(digit_char(6)) == 6);
    } else if d == 7 {
        assert(digit_val(digit_char(7)) == 7);
    } else if d == 8 {
        assert(digit_val(digit_char(8)) == 8);
    } else {
        assert(digit_val(digit_char(9)) == 9);
    }
}

/// Decimal rendering round-trips through its value: the rendering is
/// injective.
pub proof fn lemma_dec_val_of_digits(n: nat)
    ensures
        dec_val(dec_digits(n)) == n,
    decreases n,
{
    if n < 10 {
        lemma_digit_roundtrip(n as int);
        let s = dec_digits(n);
        assert(s == seq![digit_char(n as int)]);
        assert(s.len() == 1);
        assert(s.drop_last() =~= Seq::<char>::empty());
        assert(s.last() == digit_char(n as int));
        assert(dec_val(s.drop_last()) == 0);
        assert(dec_val(s) == dec_val(s.drop_last()) * 10 + digit_val(s.last()));
        assert(dec_val(s) == digit_val(digit_char(n as int)));
    } else {
        lemma_dec_val_of_digits(n / 10);
        lemma_digit_roundtrip((n % 10) as int);
        let s = dec_digits(n);
        assert(s == dec_digits(n / 10) + seq![digit_char((n % 10) as int)]);
        assert(s.len() > 0);
        assert(s.drop_last() =~= dec_digits(n / 10));
        assert(s.last() == digit_char((n % 10) as int));
        assert(dec_val(s) == dec_val(s.drop_last()) * 10 + digit_val(s.last()));
        assert(dec_val(s) == (n / 10) * 10 + (n % 10));
        vstd::arithmetic::div_mod::lemma_fundamental_div_mod(n as int, 10);
        assert(n == 10 * ((n as int) / 10) + (n as int) % 10);
    }
}

/// The positional alias a renamed generic parameter receives.
pub open spec fn alias_name(k: u32) -> Seq<char> {
    seq!['_'] + dec_digits(k as nat)
}

/// Aliases of distinct positions are distinct names.
pub proof fn lemma_alias_injective(i: u32, j: u32)
    requires
        alias_name(i) == alias_name(j),
    ensures
        i == j,
{
    assert(dec_digits(i as nat) =~= alias_name(i).skip(1));
    assert(dec_digits(j as nat) =~= alias_name(j).skip(1));
    lemma_dec_val_of_digits(i as nat);
    lemma_dec_val_of_digits(j as nat);
}

/// The digit as a one-character string slice.
fn digit_str(d: u32) -> (r: &'static str)
    requires
        d < 10,
    ensures
        r@ == seq![digit_char(d as int)],
{
    let r = if d == 0 {
        "0"
    } else if d == 1 {
        "1"
    } else if d == 2 {
        "2"
    } else if d == 3 {
        "3"
    } else if d == 4 {
        "4"
    } else if d == 5 {
        "5"
    } else if d == 6 {
        "6"
    } else if d == 7 {
        "7"
    } else if d == 8 {
        "8"
    } else {
        "9"
    };
    proof {
        reveal_strlit("0");
        reveal_strlit("1");
        reveal_strlit("2");
        reveal_strlit("3");
        reveal_strlit("4");
        reveal_strlit("5");
        reveal_strlit("6");
        reveal_strlit("7");
        reveal_strlit("8");
        reveal_strlit("9");
        assert(r@ =~= seq![digit_char(d as int)]);
    }
    r
}

/// Appends the decimal rendering of `n`.
fn push_dec(n: u32, out: &mut String)
    ensures
        final(out)@ == old(out)@ + dec_digits(n as nat),
    decreases n,
{
    if n < 10 {
        out.append(digit_str(n));
        proof {
            assert(out@ =~= old(out)@ + dec_digits(n as nat));
        }
    } else {
        proof {
            assert(n / 10 < n) by (nonlinear_arith)
                requires
                    n >= 10,
            ;
        }
        push_dec(n / 10, out);
        out.append(digit_str(n % 10));
        proof {
            assert(out@ =~= old(out)@ + dec_digits(n as nat));
        }
    }
}

/// The alias `_k` as a string.
pub fn alias_string(k: u32) -> (r: String)
    ensures
        r@ == alias_name(k),
{
    let mut s: String = String::from_str("_");
    proof {
        reveal_strlit("_");
        assert(s@ =~= seq!['_']);
    }
    push_dec(k, &mut s);
    s
}

/// A generator of positional alias identifiers.
pub struct IdentGen(pub u32);

impl IdentGen {
    /// A generator whose first minted alias is `_1`.
    pub fn new() -> (r: Self)
        ensures
            r.0 == 0,
    {
        Self(0)
    }

    /// Mints the next alias.
    pub fn ident(&mut self) -> (r: String)
        requires
            old(self).0 < u32::MAX,
        ensures
            final(self).0 == old(self).0 + 1,
            r@ == alias_name((old(self).0 + 1) as u32),
    {
        self.0 += 1;
        alias_string(self.0)
    }

    /// The alias at a given position.
    pub fn id(&self, id: u32) -> (r: String)
        ensures
            r@ == alias_name(id),
    {
        alias_string(id)
    }
}

/// The generic-parameter table: each renamed name with its position.
pub type TblV = Seq<(Seq<char>, u32)>;

/// Adds a name to the table if it is new; the counter saturates rather
/// than wrap.
pub open spec fn tbl_insert(acc: (TblV, u32), name: Seq<char>) -> (TblV, u32) {
    match assoc_get(acc.0, name) {
        Some(_) => acc,
        None => {
            let c: u32 = if acc.1 < u32::MAX {
                (acc.1 + 1) as u32
            } else {
                acc.1
            };
            (acc.0.push((name, c)), c)
        },
    }
}

/// The names one generic parameter contributes to the table, in order.
pub open spec fn param_names(p: GenericParamV) -> Seq<Seq<char>> {
    match p {
        GenericParamV::TypeParam { name, bounds } => seq![name],
        GenericParamV::LifeParam { name, bounds } => seq![name] + bounds,
        GenericParamV::ConstParam { toks } => Seq::empty(),
    }
}

/// All names the parameters from position `i` on contribute.
pub open spec fn flat_names_from(params: Seq<GenericParamV>, i: int) -> Seq<Seq<char>>
    decreases params.len() - i,
{
    if i < 0 || i >= params.len() {
        Seq::empty()
    } else {
        param_names(params[i]) + flat_names_from(params, i + 1)
    }
}

/// Folds a run of names into the table.
pub open spec fn tbl_add_names(acc: (TblV, u32), names: Seq<Seq<char>>) -> (TblV, u32)
    decreases names.len(),
{
    if names.len() == 0 {
        acc
    } else {
        tbl_add_names(tbl_insert(acc, names[0]), names.drop_first())
    }
}

/// The table of a parameter list, with its final counter.
pub open spec fn spec_build_table(params: Seq<GenericParamV>) -> (TblV, u32) {
    tbl_add_names((Seq::empty(), 0), flat_names_from(params, 0))
}

/// A name's alias when the table holds it, the name itself otherwise.
pub open spec fn alias_or(t: TblV, name: Seq<char>) -> Seq<char> {
    match assoc_get(t, name) {
        Some(k) => alias_name(k),
        None => name,
    }
}

/// Whether the table holds the name.
pub open spec fn known(t: TblV, name: Seq<char>) -> bool {
    assoc_get(t, name) is Some
}

/// One token with a renamed identifier or lifetime rewritten to its alias.
pub open spec fn rw_tok(t: TblV, tok: TokV) -> TokV {
    match tok {
        TokV::Ident(s) => TokV::Ident(alias_or(t, s)),
        TokV::Life(s) => TokV::Life(alias_or(t, s)),
        TokV::Punct(s) => tok,
        TokV::Lit(s) => tok,
        TokV::Kw(k) => tok,
    }
}

/// A token run with every renamed name rewritten.
pub open spec fn rw_toks(t: TblV, toks: Seq<TokV>) -> Seq<TokV> {
    toks.map_values(|x: TokV| rw_tok(t, x))
}

/// Whether every identifier and lifetime in the run is a renamed name.
pub open spec fn ty_toks_known(t: TblV, toks: Seq<TokV>) -> bool {
    forall|i: int|
        0 <= i < toks.len() ==> match #[trigger] toks[i] {
            TokV::Ident(s) => known(t, s),
            TokV::Life(s) => known(t, s),
            TokV::Punct(s) => true,
            TokV::Lit(s) => true,
            TokV::Kw(k) => true,
        }
}

/// Whether every name in the list is a renamed name.
pub open spec fn names_known(t: TblV, names: Seq<Seq<char>>) -> bool {
    forall|i: int| 0 <= i < names.len() ==> known(t, #[trigger] names[i])
}

/// One generic parameter with its names rewritten to aliases.
pub open spec fn norm_param(t: TblV, p: GenericParamV) -> GenericParamV {
    match p {
        GenericParamV::TypeParam { name, bounds } => GenericParamV::TypeParam {
            name: alias_or(t, name),
            bounds: rw_toks(t, bounds),
        },
        GenericParamV::LifeParam { name, bounds } => GenericParamV::LifeParam {
            name: alias_or(t, name),
            bounds: bounds.map_values(|b: Seq<char>| alias_or(t, b)),
        },
        GenericParamV::ConstParam { toks } => p,
    }
}

/// Whether a where-clause predicate survives normalization: it survives
/// exactly when every name its shape requires to be resolvable is in the
/// table.  Equality predicates are carried through untouched.
pub open spec fn pred_kept(t: TblV, p: WherePredicateV) -> bool {
    match p {
        WherePredicateV::TypePred { lifetimes, bounded_ty, bounds } => {
            &&& forall|i: int|
                0 <= i < lifetimes.len() ==> known(t, (#[trigger] lifetimes[i]).name)
                    && names_known(t, lifetimes[i].bounds)
            &&& ty_toks_known(t, bounded_ty)
        },
        WherePredicateV::LifePred { name, bounds } => known(t, name) && names_known(t, bounds),
        WherePredicateV::EqPred { toks } => true,
    }
}

/// One surviving predicate with every renamed name rewritten.
pub open spec fn norm_pred(t: TblV, p: WherePredicateV) -> WherePredicateV {
    match p {
        WherePredicateV::TypePred { lifetimes, bounded_ty, bounds } =>
            WherePredicateV::TypePred {
                lifetimes: lifetimes.map_values(
                    |l: LifetimeDefV|
                        LifetimeDefV {
                            name: alias_or(t, l.name),
                            bounds: l.bounds.map_values(|b: Seq<char>| alias_or(t, b)),
                        },
                ),
                bounded_ty: rw_toks(t, bounded_ty),
                bounds: rw_toks(t, bounds),
            },
        WherePredicateV::LifePred { name, bounds } => WherePredicateV::LifePred {
            name: alias_or(t, name),
            bounds: bounds.map_values(|b: Seq<char>| alias_or(t, b)),
        },
        WherePredicateV::EqPred { toks } => p,
    }
}

/// The surviving predicates, rewritten, in order.
pub open spec fn norm_where(t: TblV, preds: Seq<WherePredicateV>) -> Seq<WherePredicateV>
    decreases preds.len(),
{
    if preds.len() == 0 {
        Seq::empty()
    } else {
        let rest = norm_where(t, preds.drop_first());
        if pred_kept(t, preds[0]) {
            seq![norm_pred(t, preds[0])] + rest
        } else {
            rest
        }
    }
}

/// Normalized generics: parameters aliased, the where clause filtered and
/// rewritten.
pub open spec fn spec_generics_normalize(g: GenericsV) -> GenericsV {
    let t = spec_build_table(g.params).0;
    GenericsV {
        params: g.params.map_values(|p: GenericParamV| norm_param(t, p)),
        where_clause: match g.where_clause {
            Some(preds) => Some(norm_where(t, preds)),
            None => None,
        },
    }
}

/// One argument normalized: the pattern is a wildcard, attributes and
/// default values are gone, the type is rewritten; a receiver keeps its
/// shape with its lifetime rewritten.
pub open spec fn norm_arg(t: TblV, a: FnArgV) -> FnArgV {
    match a {
        FnArgV::Receiver(r) => FnArgV::Receiver(
            ReceiverV {
                reference: r.reference,
                lifetime: match r.lifetime {
                    Some(l) => Some(alias_or(t, l)),
                    None => None,
                },
                mutable: r.mutable,
            },
        ),
        FnArgV::Typed(pt) => FnArgV::Typed(
            PatTypeV {
                attrs: Seq::empty(),
                pat: seq![TokV::Ident("_"@)],
                ty: rw_toks(t, pt.ty),
                assign: None,
            },
        ),
    }
}

/// The normalized argument list.
pub open spec fn norm_inputs(t: TblV, inputs: Seq<FnArgV>) -> Seq<FnArgV> {
    inputs.map_values(|a: FnArgV| norm_arg(t, a))
}

/// The normalized argument types alone: what the host's dispatch compares.
pub open spec fn norm_arg_types(s: SignatureV) -> Seq<FnArgV> {
    norm_inputs(spec_build_table(s.generics.params).0, s.inputs)
}

/// The normalized signature as a structure: what the canonical key
/// renders.
pub open spec fn norm_sig_struct(s: SignatureV) -> SignatureV {
    let t = spec_build_table(s.generics.params).0;
    SignatureV {
        constness: false,
        asyncness: false,
        unsafety: false,
        abi: None,
        ident: s.ident,
        generics: spec_generics_normalize(s.generics),
        inputs: norm_inputs(t, s.inputs),
        variadic: s.variadic,
        output: None,
    }
}


/// The tag a qualifier keyword renders to inside a key.
pub open spec fn kw_tag(k: crate::model::Kw) -> Seq<char> {
    match k {
        crate::model::Kw::KwConst => "#kc"@,
        crate::model::Kw::KwAsync => "#ka"@,
        crate::model::Kw::KwUnsafe => "#ku"@,
        crate::model::Kw::KwAbi => "#kx"@,
    }
}

/// The text one token contributes to a rendering.
pub open spec fn tok_text(t: TokV) -> Seq<char> {
    match t {
        TokV::Ident(s) => s,
        TokV::Life(s) => seq!['\''] + s,
        TokV::Punct(s) => s,
        TokV::Lit(s) => s,
        TokV::Kw(k) => kw_tag(k),
    }
}

/// A token run rendered as text, one space after every token.
pub open spec fn render_toks_s(toks: Seq<TokV>) -> Seq<char>
    decreases toks.len(),
{
    if toks.len() == 0 {
        Seq::empty()
    } else {
        tok_text(toks[0]) + seq![' '] + render_toks_s(toks.drop_first())
    }
}

/// Renders a token list to a string.
pub fn render_toks(toks: &Vec<Tok>) -> (r: String)
    ensures
        r@ == render_toks_s(toks.deep_view()),
{
    let ghost tv = toks.deep_view();
    let mut out: String = String::new();
    proof {
        assert(tv.skip(0) =~= tv);
        assert(out@ + render_toks_s(tv) =~= render_toks_s(tv));
    }
    let mut i: usize = 0;
    while i < toks.len()
        invariant
            i <= toks.len(),
            tv == toks.deep_view(),
            tv.len() == toks@.len(),
            out@ + render_toks_s(tv.skip(i as int)) =~= render_toks_s(tv),
        decreases toks.len() - i,
    {
        proof {
            assert(tv[i as int] == toks@[i as int]@);
            assert(tv.skip(i as int)[0] == tv[i as int]);
            assert(tv.skip(i as int).drop_first() =~= tv.skip(i as int + 1));
        }
        match &toks[i] {
            Tok::Ident(s) => out.append(s.as_str()),
            Tok::Life(s) => {
                out.append("'");
                out.append(s.as_str());
                proof {
                    reveal_strlit("'");
                    assert("'"@ =~= seq!['\'']);
                }
            },
            Tok::Punct(s) => out.append(s.as_str()),
            Tok::Lit(s) => out.append(s.as_str()),
            Tok::Kw(k) => match k {
                crate::model::Kw::KwConst => out.append("#kc"),
                crate::model::Kw::KwAsync => out.append("#ka"),
                crate::model::Kw::KwUnsafe => out.append("#ku"),
                crate::model::Kw::KwAbi => out.append("#kx"),
            },
        }
        out.append(" ");
        proof {
            reveal_strlit(" ");
            assert(" "@ =~= seq![' ']);
            assert(out@ + render_toks_s(tv.skip(i as int + 1)) =~= render_toks_s(tv));
        }
        i += 1;
    }
    proof {
        assert(tv.skip(toks@.len() as int) =~= Seq::<TokV>::empty());
        assert(out@ =~= render_toks_s(tv));
    }
    out
}

/// Looks a name up in the table.
fn tbl_get(t: &Vec<(String, u32)>, name: &String) -> (r: Option<u32>)
    ensures
        r == assoc_get(t.deep_view(), name@),
{
    let ghost tv = t.deep_view();
    let mut i: usize = 0;
    while i < t.len()
        invariant
            i <= t.len(),
            tv == t.deep_view(),
            tv.len() == t@.len(),
            forall|j: int| 0 <= j < i ==> tv[j].0 != name@,
        decreases t.len() - i,
    {
        proof {
            assert(tv[i as int] == t@[i as int].deep_view());
        }
        if t[i].0 == *name {
            proof {
                crate::session::lemma_assoc_get_found(tv, name@, i as int);
            }
            return Some(t[i].1);
        }
        i += 1;
    }
    proof {
        crate::session::lemma_assoc_get_none(tv, name@);
    }
    None
}

/// Every name the parameter list contributes to the table, in order.
fn collect_names(params: &Vec<GenericParam>) -> (r: Vec<String>)
    ensures
        r.deep_view() == flat_names_from(params.deep_view(), 0),
{
    let ghost pv = params.deep_view();
    let mut r: Vec<String> = Vec::new();
    let mut i: usize = 0;
    while i < params.len()
        invariant
            i <= params.len(),
            pv == params.deep_view(),
            pv.len() == params@.len(),
            r.deep_view() + flat_names_from(pv, i as int) =~= flat_names_from(pv, 0),
        decreases params.len() - i,
    {
        proof {
            assert(pv[i as int] == params@[i as int].deep_view());
        }
        let ghost rsnap = r.deep_view();
        match &params[i] {
            GenericParam::TypeParam { name, bounds } => {
                r.push(name.clone());
                proof {
                    assert(r.deep_view() =~= rsnap + param_names(pv[i as int]));
                }
            },
            GenericParam::LifeParam { name, bounds } => {
                r.push(name.clone());
                let ghost rsnap2 = r.deep_view();
                let ghost bv = bounds.deep_view();
                let mut j: usize = 0;
                while j < bounds.len()
                    invariant
                        j <= bounds.len(),
                        bv == bounds.deep_view(),
                        bv.len() == bounds@.len(),
                        r.deep_view() =~= rsnap2 + bv.take(j as int),
                    decreases bounds.len() - j,
                {
                    proof {
                        assert(bv[j as int] == bounds@[j as int]@);
                    }
                    let ghost rl = r.deep_view();
                    r.push(bounds[j].clone());
                    proof {
                        assert(r.deep_view() =~= rl.push(bv[j as int]));
                        assert(r.deep_view() =~= rsnap2 + bv.take(j as int + 1));
                    }
                    j += 1;
                }
                proof {
                    assert(bv.take(bounds@.len() as int) =~= bv);
                    assert(r.deep_view() =~= rsnap + param_names(pv[i as int]));
                }
            },
            GenericParam::ConstParam { toks } => {
                proof {
                    assert(r.deep_view() =~= rsnap + param_names(pv[i as int]));
                }
            },
        }
        proof {
            assert(flat_names_from(pv, i as int) =~= param_names(pv[i as int])
                + flat_names_from(pv, i as int + 1));
            assert(r.deep_view() + flat_names_from(pv, i as int + 1) =~= flat_names_from(pv, 0));
        }
        i += 1;
    }
    proof {
        assert(flat_names_from(pv, params@.len() as int) =~= Seq::<Seq<char>>::empty());
        assert(r.deep_view() =~= flat_names_from(pv, 0));
    }
    r
}

/// Builds the generic-parameter table of a parameter list.
pub fn build_table(params: &Vec<GenericParam>) -> (r: (Vec<(String, u32)>, u32))
    ensures
        r.0.deep_view() == spec_build_table(params.deep_view()).0,
        r.1 == spec_build_table(params.deep_view()).1,
{
    let ghost pv = params.deep_view();
    let names = collect_names(params);
    let ghost nv = names.deep_view();
    let mut tbl: Vec<(String, u32)> = Vec::new();
    let mut cnt: u32 = 0;
    proof {
        assert(tbl.deep_view() =~= Seq::<(Seq<char>, u32)>::empty());
        assert(nv.skip(0) =~= nv);
    }
    let mut i: usize = 0;
    while i < names.len()
        invariant
            i <= names.len(),
            nv == names.deep_view(),
            nv.len() == names@.len(),
            tbl_add_names((tbl.deep_view(), cnt), nv.skip(i as int)) == tbl_add_names(
                (Seq::empty(), 0u32),
                nv,
            ),
        decreases names.len() - i,
    {
        proof {
            assert(nv[i as int] == names@[i as int]@);
            assert(nv.skip(i as int)[0] == nv[i as int]);
            assert(nv.skip(i as int).drop_first() =~= nv.skip(i as int + 1));
        }
        let ghost pre = (tbl.deep_view(), cnt);
        match tbl_get(&tbl, &names[i]) {
            Some(_) => {
                proof {
                    assert(tbl_insert(pre, nv[i as int]) == pre);
                }
            },
            None => {
                let c: u32 = if cnt < u32::MAX {
                    cnt + 1
                } else {
                    cnt
                };
                tbl.push((names[i].clone(), c));
                cnt = c;
                proof {
                    assert(tbl.deep_view() =~= pre.0.push((nv[i as int], c)));
                    assert(tbl_insert(pre, nv[i as int]) == (tbl.deep_view(), cnt));
                }
            },
        }
        proof {
            assert(tbl_add_names((tbl.deep_view(), cnt), nv.skip(i as int + 1)) == tbl_add_names(
                (Seq::empty(), 0u32),
                nv,
            ));
        }
        i += 1;
    }
    proof {
        assert(nv.skip(names@.len() as int) =~= Seq::<Seq<char>>::empty());
    }
    (tbl, cnt)
}

/// The alias of a name when the table holds it, the name itself otherwise.
fn apply_tbl_name(t: &Vec<(String, u32)>, name: &String) -> (r: String)
    ensures
        r@ == alias_or(t.deep_view(), name@),
{
    match tbl_get(t, name) {
        Some(k) => alias_string(k),
        None => name.clone(),
    }
}

/// A token list with every renamed name rewritten to its alias.
fn apply_tbl_toks(t: &Vec<(String, u32)>, toks: &Vec<Tok>) -> (r: Vec<Tok>)
    ensures
        r.deep_view() == rw_toks(t.deep_view(), toks.deep_view()),
{
    let ghost tv = t.deep_view();
    let ghost xv = toks.deep_view();
    let mut r: Vec<Tok> = Vec::new();
    let mut i: usize = 0;
    while i < toks.len()
        invariant
            i <= toks.len(),
            tv == t.deep_view(),
            xv == toks.deep_view(),
            xv.len() == toks@.len(),
            r@.len() == i as int,
            r.deep_view() =~= rw_toks(tv, xv).take(i as int),
        decreases toks.len() - i,
    {
        proof {
            assert(xv[i as int] == toks@[i as int]@);
        }
        let nt = match &toks[i] {
            Tok::Ident(s) => Tok::Ident(apply_tbl_name(t, s)),
            Tok::Life(s) => Tok::Life(apply_tbl_name(t, s)),
            Tok::Punct(s) => Tok::Punct(s.clone()),
            Tok::Lit(s) => Tok::Lit(s.clone()),
            Tok::Kw(k) => Tok::Kw(*k),
        };
        proof {
            assert(nt@ == rw_tok(tv, xv[i as int]));
        }
        r.push(nt);
        proof {
            assert(r.deep_view() =~= rw_toks(tv, xv).take(i as int + 1));
        }
        i += 1;
    }
    proof {
        assert(r.deep_view() =~= rw_toks(tv, xv));
    }
    r
}

/// A name list with every renamed name rewritten to its alias.
fn apply_tbl_names(t: &Vec<(String, u32)>, names: &Vec<String>) -> (r: Vec<String>)
    ensures
        r.deep_view() == names.deep_view().map_values(
            |b: Seq<char>| alias_or(t.deep_view(), b),
        ),
{
    let ghost tv = t.deep_view();
    let ghost nv = names.deep_view();
    let ghost goal = nv.map_values(|b: Seq<char>| alias_or(tv, b));
    let mut r: Vec<String> = Vec::new();
    let mut i: usize = 0;
    while i < names.len()
        invariant
            i <= names.len(),
            tv == t.deep_view(),
            nv == names.deep_view(),
            nv.len() == names@.len(),
            goal == nv.map_values(|b: Seq<char>| alias_or(tv, b)),
            r@.len() == i as int,
            r.deep_view() =~= goal.take(i as int),
        decreases names.len() - i,
    {
        proof {
            assert(nv[i as int] == names@[i as int]@);
        }
        r.push(apply_tbl_name(t, &names[i]));
        proof {
            assert(r.deep_view() =~= goal.take(i as int + 1));
        }
        i += 1;
    }
    proof {
        assert(r.deep_view() =~= goal);
    }
    r
}

/// Whether every name in the list is in the table.
fn check_names_known(t: &Vec<(String, u32)>, names: &Vec<String>) -> (r: bool)
    ensures
        r == names_known(t.deep_view(), names.deep_view()),
{
    let ghost tv = t.deep_view();
    let ghost nv = names.deep_view();
    let mut i: usize = 0;
    while i < names.len()
        invariant
            i <= names.len(),
            tv == t.deep_view(),
            nv == names.deep_view(),
            nv.len() == names@.len(),
            forall|j: int| 0 <= j < i ==> known(tv, #[trigger] nv[j]),
        decreases names.len() - i,
    {
        proof {
            assert(nv[i as int] == names@[i as int]@);
        }
        if tbl_get(t, &names[i]).is_none() {
            return false;
        }
        i += 1;
    }
    true
}

/// Whether every identifier and lifetime in the token run is in the table.
fn check_ty_known(t: &Vec<(String, u32)>, toks: &Vec<Tok>) -> (r: bool)
    ensures
        r == ty_toks_known(t.deep_view(), toks.deep_view()),
{
    let ghost tv = t.deep_view();
    let ghost xv = toks.deep_view();
    let mut i: usize = 0;
    while i < toks.len()
        invariant
            i <= toks.len(),
            tv == t.deep_view(),
            xv == toks.deep_view(),
            xv.len() == toks@.len(),
            forall|j: int|
                0 <= j < i ==> match #[trigger] xv[j] {
                    TokV::Ident(s) => known(tv, s),
                    TokV::Life(s) => known(tv, s),
                    TokV::Punct(s) => true,
                    TokV::Lit(s) => true,
                    TokV::Kw(k) => true,
                },
        decreases toks.len() - i,
    {
        proof {
            assert(xv[i as int] == toks@[i as int]@);
        }
        let ok = match &toks[i] {
            Tok::Ident(s) => tbl_get(t, s).is_some(),
            Tok::Life(s) => tbl_get(t, s).is_some(),
            Tok::Punct(s) => true,
            Tok::Lit(s) => true,
            Tok::Kw(k) => true,
        };
        if !ok {
            return false;
        }
        i += 1;
    }
    true
}

/// The parameter list with every parameter renamed to its alias.
fn normalize_params(t: &Vec<(String, u32)>, params: &Vec<GenericParam>) -> (r: Vec<GenericParam>)
    ensures
        r.deep_view() == params.deep_view().map_values(
            |p: GenericParamV| norm_param(t.deep_view(), p),
        ),
{
    let ghost tv = t.deep_view();
    let ghost pv = params.deep_view();
    let ghost goal = pv.map_values(|p: GenericParamV| norm_param(tv, p));
    let mut r: Vec<GenericParam> = Vec::new();
    let mut i: usize = 0;
    while i < params.len()
        invariant
            i <= params.len(),
            tv == t.deep_view(),
            pv == params.deep_view(),
            pv.len() == params@.len(),
            goal == pv.map_values(|p: GenericParamV| norm_param(tv, p)),
            r@.len() == i as int,
            r.deep_view() =~= goal.take(i as int),
        decreases params.len() - i,
    {
        proof {
            assert(pv[i as int] == params@[i as int].deep_view());
        }
        let np = match &params[i] {
            GenericParam::TypeParam { name, bounds } => GenericParam::TypeParam {
                name: apply_tbl_name(t, name),
                bounds: apply_tbl_toks(t, bounds),
            },
            GenericParam::LifeParam { name, bounds } => GenericParam::LifeParam {
                name: apply_tbl_name(t, name),
                bounds: apply_tbl_names(t, bounds),
            },
            GenericParam::ConstParam { toks } => GenericParam::ConstParam {
                toks: dup_toks(toks),
            },
        };
        proof {
            assert(np.deep_view() == norm_param(tv, pv[i as int]));
        }
        r.push(np);
        proof {
            assert(r.deep_view() =~= goal.take(i as int + 1));
        }
        i += 1;
    }
    proof {
        assert(r.deep_view() =~= goal);
    }
    r
}

/// The where clause filtered to the surviving predicates, each rewritten.
fn normalize_where(t: &Vec<(String, u32)>, preds: &Vec<WherePredicate>) -> (r: Vec<
    WherePredicate,
>)
    ensures
        r.deep_view() == norm_where(t.deep_view(), preds.deep_view()),
{
    let ghost tv = t.deep_view();
    let ghost pv = preds.deep_view();
    let mut r: Vec<WherePredicate> = Vec::new();
    proof {
        assert(pv.skip(0) =~= pv);
        assert(r.deep_view() + norm_where(tv, pv) =~= norm_where(tv, pv));
    }
    let mut i: usize = 0;
    while i < preds.len()
        invariant
            i <= preds.len(),
            tv == t.deep_view(),
            pv == preds.deep_view(),
            pv.len() == preds@.len(),
            r.deep_view() + norm_where(tv, pv.skip(i as int)) =~= norm_where(tv, pv),
        decreases preds.len() - i,
    {
        proof {
            assert(pv[i as int] == preds@[i as int].deep_view());
            assert(pv.skip(i as int)[0] == pv[i as int]);
            assert(pv.skip(i as int).drop_first() =~= pv.skip(i as int + 1));
        }
        let ghost rsnap = r.deep_view();
        match &preds[i] {
            WherePredicate::TypePred { lifetimes, bounded_ty, bounds } => {
                let mut all_known = check_ty_known(t, bounded_ty);
                let ghost lv = lifetimes.deep_view();
                let mut j: usize = 0;
                while j < lifetimes.len()
                    invariant
                        j <= lifetimes.len(),
                        tv == t.deep_view(),
                        lv == lifetimes.deep_view(),
                        lv.len() == lifetimes@.len(),
                        all_known == (ty_toks_known(tv, bounded_ty.deep_view()) && forall|
                            k: int,
                        |
                            0 <= k < j ==> known(tv, (#[trigger] lv[k]).name) && names_known(
                                tv,
                                lv[k].bounds,
                            )),
                        pv[i as int] is TypePred,
                        bounded_ty.deep_view() == pv[i as int]->TypePred_bounded_ty,
                    decreases lifetimes.len() - j,
                {
                    proof {
                        assert(lv[j as int] == lifetimes@[j as int].deep_view());
                    }
                    if tbl_get(t, &lifetimes[j].name).is_none() {
                        all_known = false;
                    }
                    if !check_names_known(t, &lifetimes[j].bounds) {
                        all_known = false;
                    }
                    j += 1;
                }
                if all_known {
                    let mut nls: Vec<LifetimeDef> = Vec::new();
                    let ghost lgoal = lv.map_values(
                        |l: LifetimeDefV|
                            LifetimeDefV {
                                name: alias_or(tv, l.name),
                                bounds: l.bounds.map_values(|b: Seq<char>| alias_or(tv, b)),
                            },
                    );
                    let mut j2: usize = 0;
                    while j2 < lifetimes.len()
                        invariant
                            j2 <= lifetimes.len(),
                            tv == t.deep_view(),
                            lv == lifetimes.deep_view(),
                            lv.len() == lifetimes@.len(),
                            lgoal == lv.map_values(
                                |l: LifetimeDefV|
                                    LifetimeDefV {
                                        name: alias_or(tv, l.name),
                                        bounds: l.bounds.map_values(
                                            |b: Seq<char>| alias_or(tv, b),
                                        ),
                                    },
                            ),
                            nls@.len() == j2 as int,
                            nls.deep_view() =~= lgoal.take(j2 as int),
                        decreases lifetimes.len() - j2,
                    {
                        proof {
                            assert(lv[j2 as int] == lifetimes@[j2 as int].deep_view());
                        }
                        nls.push(
                            LifetimeDef {
                                name: apply_tbl_name(t, &lifetimes[j2].name),
                                bounds: apply_tbl_names(t, &lifetimes[j2].bounds),
                            },
                        );
                        proof {
                            assert(nls.deep_view() =~= lgoal.take(j2 as int + 1));
                        }
                        j2 += 1;
                    }
                    proof {
                        assert(nls.deep_view() =~= lgoal);
                    }
                    let np = WherePredicate::TypePred {
                        lifetimes: nls,
                        bounded_ty: apply_tbl_toks(t, bounded_ty),
                        bounds: apply_tbl_toks(t, bounds),
                    };
                    proof {
                        assert(pred_kept(tv, pv[i as int]));
                        assert(np.deep_view() == norm_pred(tv, pv[i as int]));
                    }
                    r.push(np);
                    proof {
                        assert(r.deep_view() =~= rsnap.push(norm_pred(tv, pv[i as int])));
                    }
                } else {
                    proof {
                        assert(!pred_kept(tv, pv[i as int]));
                    }
                }
            },
            WherePredicate::LifePred { name, bounds } => {
                let known_name = tbl_get(t, name).is_some();
                let known_bounds = check_names_known(t, bounds);
                if known_name && known_bounds {
                    let np = WherePredicate::LifePred {
                        name: apply_tbl_name(t, name),
                        bounds: apply_tbl_names(t, bounds),
                    };
                    proof {
                        assert(pred_kept(tv, pv[i as int]));
                        assert(np.deep_view() == norm_pred(tv, pv[i as int]));
                    }
                    r.push(np);
                    proof {
                        assert(r.deep_view() =~= rsnap.push(norm_pred(tv, pv[i as int])));
                    }
                } else {
                    proof {
                        assert(!pred_kept(tv, pv[i as int]));
                    }
                }
            },
            WherePredicate::EqPred { toks } => {
                let np = WherePredicate::EqPred { toks: dup_toks(toks) };
                proof {
                    assert(pred_kept(tv, pv[i as int]));
                    assert(np.deep_view() == norm_pred(tv, pv[i as int]));
                }
                r.push(np);
                proof {
                    assert(r.deep_view() =~= rsnap.push(norm_pred(tv, pv[i as int])));
                }
            },
        }
        proof {
            assert(r.deep_view() + norm_where(tv, pv.skip(i as int + 1)) =~= norm_where(tv, pv));
        }
        i += 1;
    }
    proof {
        assert(norm_where(tv, pv.skip(preds@.len() as int)) =~= Seq::<WherePredicateV>::empty());
        assert(r.deep_view() =~= norm_where(tv, pv));
    }
    r
}

/// The generics with parameter names aliased, occurrences rewritten, and
/// unresolvable where-clause predicates dropped.
pub fn generics_normalize(ast: &Generics) -> (r: Generics)
    ensures
        r.deep_view() == spec_generics_normalize(ast.deep_view()),
{
    let (tbl, _cnt) = build_table(&ast.params);
    let params = normalize_params(&tbl, &ast.params);
    let where_clause = match &ast.where_clause {
        Some(preds) => Some(normalize_where(&tbl, preds)),
        None => None,
    };
    Generics { params, where_clause }
}

/// The argument list normalized against the table.
fn normalize_inputs(t: &Vec<(String, u32)>, inputs: &Vec<FnArg>) -> (r: Vec<FnArg>)
    ensures
        r.deep_view() == norm_inputs(t.deep_view(), inputs.deep_view()),
{
    let ghost tv = t.deep_view();
    let ghost iv = inputs.deep_view();
    let ghost goal = norm_inputs(tv, iv);
    let mut r: Vec<FnArg> = Vec::new();
    let mut i: usize = 0;
    while i < inputs.len()
        invariant
            i <= inputs.len(),
            tv == t.deep_view(),
            iv == inputs.deep_view(),
            iv.len() == inputs@.len(),
            goal == norm_inputs(tv, iv),
            r@.len() == i as int,
            r.deep_view() =~= goal.take(i as int),
        decreases inputs.len() - i,
    {
        proof {
            assert(iv[i as int] == inputs@[i as int].deep_view());
        }
        let na = match &inputs[i] {
            FnArg::Receiver(rc) => {
                let nr = crate::model::Receiver {
                    reference: rc.reference,
                    lifetime: match &rc.lifetime {
                        Some(l) => Some(apply_tbl_name(t, l)),
                        None => None,
                    },
                    mutable: rc.mutable,
                };
                proof {
                    assert(iv[i as int] is Receiver);
                    assert(nr.deep_view() == norm_arg(tv, iv[i as int])->Receiver_0);
                }
                FnArg::Receiver(nr)
            },
            FnArg::Typed(pt) => {
                let mut wild: Vec<Tok> = Vec::new();
                wild.push(Tok::Ident("_".to_owned()));
                let empty_attrs: Vec<crate::model::Attr> = Vec::new();
                proof {
                    assert(wild.deep_view() =~= seq![TokV::Ident("_"@)]);
                    assert(empty_attrs.deep_view() =~= Seq::<crate::model::AttrV>::empty());
                }
                FnArg::Typed(
                    PatType {
                        attrs: empty_attrs,
                        pat: wild,
                        ty: apply_tbl_toks(t, &pt.ty),
                        assign: None,
                    },
                )
            },
        };
        proof {
            assert(na.deep_view() == norm_arg(tv, iv[i as int]));
        }
        r.push(na);
        proof {
            assert(r.deep_view() =~= goal.take(i as int + 1));
        }
        i += 1;
    }
    proof {
        assert(r.deep_view() =~= goal);
    }
    r
}


/// Key tokens of lifetime-bound names: `+ 'b` for each bound.
pub open spec fn bounds_key_toks(bounds: Seq<Seq<char>>) -> Seq<TokV>
    decreases bounds.len(),
{
    if bounds.len() == 0 {
        Seq::empty()
    } else {
        seq![TokV::Punct("+"@), TokV::Life(bounds[0])] + bounds_key_toks(bounds.drop_first())
    }
}

/// Key tokens of one generic parameter, a comma after it.
pub open spec fn param_key_toks(p: GenericParamV) -> Seq<TokV> {
    match p {
        GenericParamV::TypeParam { name, bounds } => seq![TokV::Ident(name)] + (if bounds.len()
            > 0 {
            seq![TokV::Punct(":"@)] + bounds
        } else {
            Seq::empty()
        }) + seq![TokV::Punct(","@)],
        GenericParamV::LifeParam { name, bounds } => seq![TokV::Life(name)] + bounds_key_toks(
            bounds,
        ) + seq![TokV::Punct(","@)],
        GenericParamV::ConstParam { toks } => toks + seq![TokV::Punct(","@)],
    }
}

/// Key tokens of the parameters from position `i` on.
pub open spec fn params_key_from(ps: Seq<GenericParamV>, i: int) -> Seq<TokV>
    decreases ps.len() - i,
{
    if i < 0 || i >= ps.len() {
        Seq::empty()
    } else {
        param_key_toks(ps[i]) + params_key_from(ps, i + 1)
    }
}

/// Key tokens of one argument, a comma after it.
pub open spec fn arg_key_toks(a: FnArgV) -> Seq<TokV> {
    match a {
        FnArgV::Receiver(r) => (if r.reference {
            seq![TokV::Punct("&"@)]
        } else {
            Seq::empty()
        }) + (match r.lifetime {
            Some(l) => seq![TokV::Life(l)],
            None => Seq::empty(),
        }) + (if r.mutable {
            seq![TokV::Ident("mut"@)]
        } else {
            Seq::empty()
        }) + seq![TokV::Ident("self"@), TokV::Punct(","@)],
        FnArgV::Typed(pt) => pt.pat + seq![TokV::Punct(":"@)] + pt.ty + seq![TokV::Punct(","@)],
    }
}

/// Key tokens of the arguments from position `i` on.
pub open spec fn args_key_from(args: Seq<FnArgV>, i: int) -> Seq<TokV>
    decreases args.len() - i,
{
    if i < 0 || i >= args.len() {
        Seq::empty()
    } else {
        arg_key_toks(args[i]) + args_key_from(args, i + 1)
    }
}

/// Key tokens of one bound lifetime binder, a comma after it.
pub open spec fn ld_key_toks(l: LifetimeDefV) -> Seq<TokV> {
    seq![TokV::Life(l.name), TokV::Punct(":"@)] + bounds_key_toks(l.bounds) + seq![
        TokV::Punct(","@),
    ]
}

/// Key tokens of the binders from position `i` on.
pub open spec fn lds_key_from(ls: Seq<LifetimeDefV>, i: int) -> Seq<TokV>
    decreases ls.len() - i,
{
    if i < 0 || i >= ls.len() {
        Seq::empty()
    } else {
        ld_key_toks(ls[i]) + lds_key_from(ls, i + 1)
    }
}

/// Key tokens of one where-clause predicate, a comma after it.
pub open spec fn pred_key_toks(p: WherePredicateV) -> Seq<TokV> {
    match p {
        WherePredicateV::TypePred { lifetimes, bounded_ty, bounds } => (if lifetimes.len() > 0 {
            seq![TokV::Ident("for"@), TokV::Punct("<"@)] + lds_key_from(lifetimes, 0) + seq![
                TokV::Punct(">"@),
            ]
        } else {
            Seq::empty()
        }) + bounded_ty + seq![TokV::Punct(":"@)] + bounds + seq![TokV::Punct(","@)],
        WherePredicateV::LifePred { name, bounds } => seq![TokV::Life(name), TokV::Punct(":"@)]
            + bounds_key_toks(bounds) + seq![TokV::Punct(","@)],
        WherePredicateV::EqPred { toks } => toks + seq![TokV::Punct(","@)],
    }
}

/// Key tokens of the predicates from position `i` on.
pub open spec fn preds_key_from(ps: Seq<WherePredicateV>, i: int) -> Seq<TokV>
    decreases ps.len() - i,
{
    if i < 0 || i >= ps.len() {
        Seq::empty()
    } else {
        pred_key_toks(ps[i]) + preds_key_from(ps, i + 1)
    }
}

/// The canonical key of a signature, as tokens: identifier, normalized
/// parameters in angle brackets, normalized arguments in parentheses, the
/// variadic marker, and the surviving where-clause predicates.
pub open spec fn sig_key_toks(s: SignatureV) -> Seq<TokV> {
    let ns = norm_sig_struct(s);
    seq![TokV::Ident(ns.ident), TokV::Punct("<"@)] + params_key_from(ns.generics.params, 0)
        + seq![TokV::Punct(">"@), TokV::Punct("("@)] + args_key_from(ns.inputs, 0) + seq![
        TokV::Punct(")"@),
    ] + (if ns.variadic {
        seq![TokV::Punct("..."@)]
    } else {
        Seq::empty()
    }) + (match ns.generics.where_clause {
        Some(ps) => seq![TokV::Ident("where"@)] + preds_key_from(ps, 0),
        None => Seq::empty(),
    })
}

/// The canonical key of a signature, as one string.
pub open spec fn spec_sig_key(s: SignatureV) -> Seq<char> {
    render_toks_s(sig_key_toks(s))
}

/// Pushes a punctuation token.
fn push_punct(out: &mut Vec<Tok>, s: &str)
    ensures
        final(out).deep_view() == old(out).deep_view().push(TokV::Punct(s@)),
{
    let ghost pre = out.deep_view();
    out.push(Tok::Punct(s.to_owned()));
    proof {
        assert(out.deep_view() =~= pre.push(TokV::Punct(s@)));
    }
}

/// Pushes an identifier token.
fn push_ident(out: &mut Vec<Tok>, s: &str)
    ensures
        final(out).deep_view() == old(out).deep_view().push(TokV::Ident(s@)),
{
    let ghost pre = out.deep_view();
    out.push(Tok::Ident(s.to_owned()));
    proof {
        assert(out.deep_view() =~= pre.push(TokV::Ident(s@)));
    }
}

/// Appends a copy of a token run.
pub fn append_toks(out: &mut Vec<Tok>, src: &Vec<Tok>)
    ensures
        final(out).deep_view() == old(out).deep_view() + src.deep_view(),
{
    let ghost base = out.deep_view();
    let ghost sv = src.deep_view();
    let mut i: usize = 0;
    while i < src.len()
        invariant
            i <= src.len(),
            sv == src.deep_view(),
            sv.len() == src@.len(),
            out.deep_view() =~= base + sv.take(i as int),
        decreases src.len() - i,
    {
        proof {
            assert(sv[i as int] == src@[i as int]@);
        }
        let ghost pre = out.deep_view();
        out.push(src[i].dup());
        proof {
            assert(out.deep_view() =~= pre.push(sv[i as int]));
            assert(out.deep_view() =~= base + sv.take(i as int + 1));
        }
        i += 1;
    }
    proof {
        assert(out.deep_view() =~= base + sv);
    }
}

/// Appends the key tokens of lifetime-bound names.
fn ser_bounds(out: &mut Vec<Tok>, bounds: &Vec<String>)
    ensures
        final(out).deep_view() == old(out).deep_view() + bounds_key_toks(bounds.deep_view()),
{
    let ghost base = out.deep_view();
    let ghost bv = bounds.deep_view();
    proof {
        assert(bv.skip(0) =~= bv);
    }
    let mut i: usize = 0;
    while i < bounds.len()
        invariant
            i <= bounds.len(),
            bv == bounds.deep_view(),
            bv.len() == bounds@.len(),
            out.deep_view() + bounds_key_toks(bv.skip(i as int)) =~= base + bounds_key_toks(bv),
        decreases bounds.len() - i,
    {
        proof {
            assert(bv[i as int] == bounds@[i as int]@);
            assert(bv.skip(i as int)[0] == bv[i as int]);
            assert(bv.skip(i as int).drop_first() =~= bv.skip(i as int + 1));
        }
        push_punct(out, "+");
        let ghost pre = out.deep_view();
        out.push(Tok::Life(bounds[i].clone()));
        proof {
            assert(out.deep_view() =~= pre.push(TokV::Life(bv[i as int])));
            assert(out.deep_view() + bounds_key_toks(bv.skip(i as int + 1)) =~= base
                + bounds_key_toks(bv));
        }
        i += 1;
    }
    proof {
        assert(bounds_key_toks(bv.skip(bounds@.len() as int)) =~= Seq::<TokV>::empty());
        assert(out.deep_view() =~= base + bounds_key_toks(bv));
    }
}

/// Appends the key tokens of a parameter list.
fn ser_params(out: &mut Vec<Tok>, params: &Vec<GenericParam>)
    ensures
        final(out).deep_view() == old(out).deep_view() + params_key_from(
            params.deep_view(),
            0,
        ),
{
    let ghost base = out.deep_view();
    let ghost pv = params.deep_view();
    proof {
        assert(pv.skip(0) =~= pv);
    }
    let mut i: usize = 0;
    while i < params.len()
        invariant
            i <= params.len(),
            pv == params.deep_view(),
            pv.len() == params@.len(),
            out.deep_view() + params_key_from(pv, i as int) =~= base + params_key_from(pv, 0),
        decreases params.len() - i,
    {
        proof {
            assert(pv[i as int] == params@[i as int].deep_view());
        }
        match &params[i] {
            GenericParam::TypeParam { name, bounds } => {
                let ghost pre = out.deep_view();
                out.push(Tok::Ident(name.clone()));
                proof {
                    assert(out.deep_view() =~= pre.push(
                        TokV::Ident(pv[i as int]->TypeParam_name),
                    ));
                }
                if bounds.len() > 0 {
                    push_punct(out, ":");
                    append_toks(out, bounds);
                }
                push_punct(out, ",");
                proof {
                    assert(out.deep_view() =~= pre + param_key_toks(pv[i as int]));
                }
            },
            GenericParam::LifeParam { name, bounds } => {
                let ghost pre = out.deep_view();
                out.push(Tok::Life(name.clone()));
                proof {
                    assert(out.deep_view() =~= pre.push(
                        TokV::Life(pv[i as int]->LifeParam_name),
                    ));
                }
                ser_bounds(out, bounds);
                push_punct(out, ",");
                proof {
                    assert(out.deep_view() =~= pre + param_key_toks(pv[i as int]));
                }
            },
            GenericParam::ConstParam { toks } => {
                let ghost pre = out.deep_view();
                append_toks(out, toks);
                push_punct(out, ",");
                proof {
                    assert(out.deep_view() =~= pre + param_key_toks(pv[i as int]));
                }
            },
        }
        proof {
            assert(out.deep_view() + params_key_from(pv, i as int + 1) =~= base
                + params_key_from(pv, 0));
        }
        i += 1;
    }
    proof {
        assert(params_key_from(pv, params@.len() as int) =~= Seq::<TokV>::empty());
        assert(out.deep_view() =~= base + params_key_from(pv, 0));
    }
}

/// Appends the key tokens of an argument list.
fn ser_args(out: &mut Vec<Tok>, args: &Vec<FnArg>)
    ensures
        final(out).deep_view() == old(out).deep_view() + args_key_from(args.deep_view(), 0),
{
    let ghost base = out.deep_view();
    let ghost av = args.deep_view();
    proof {
        assert(av.skip(0) =~= av);
    }
    let mut i: usize = 0;
    while i < args.len()
        invariant
            i <= args.len(),
            av == args.deep_view(),
            av.len() == args@.len(),
            out.deep_view() + args_key_from(av, i as int) =~= base + args_key_from(av, 0),
        decreases args.len() - i,
    {
        proof {
            assert(av[i as int] == args@[i as int].deep_view());
        }
        let ghost pre = out.deep_view();
        match &args[i] {
            FnArg::Receiver(rc) => {
                if rc.reference {
                    push_punct(out, "&");
                }
                match &rc.lifetime {
                    Some(l) => {
                        let ghost p2 = out.deep_view();
                        out.push(Tok::Life(l.clone()));
                        proof {
                            assert(out.deep_view() =~= p2.push(TokV::Life(l@)));
                        }
                    },
                    None => {},
                }
                if rc.mutable {
                    push_ident(out, "mut");
                }
                push_ident(out, "self");
                push_punct(out, ",");
                proof {
                    assert(out.deep_view() =~= pre + arg_key_toks(av[i as int]));
                }
            },
            FnArg::Typed(pt) => {
                append_toks(out, &pt.pat);
                push_punct(out, ":");
                append_toks(out, &pt.ty);
                push_punct(out, ",");
                proof {
                    assert(out.deep_view() =~= pre + arg_key_toks(av[i as int]));
                }
            },
        }
        proof {
            assert(out.deep_view() + args_key_from(av, i as int + 1) =~= base + args_key_from(
                av,
                0,
            ));
        }
        i += 1;
    }
    proof {
        assert(args_key_from(av, args@.len() as int) =~= Seq::<TokV>::empty());
        assert(out.deep_view() =~= base + args_key_from(av, 0));
    }
}

/// Appends the key tokens of a where clause's predicates.
fn ser_preds(out: &mut Vec<Tok>, preds: &Vec<WherePredicate>)
    ensures
        final(out).deep_view() == old(out).deep_view() + preds_key_from(preds.deep_view(), 0),
{
    let ghost base = out.deep_view();
    let ghost pv = preds.deep_view();
    proof {
        assert(pv.skip(0) =~= pv);
    }
    let mut i: usize = 0;
    while i < preds.len()
        invariant
            i <= preds.len(),
            pv == preds.deep_view(),
            pv.len() == preds@.len(),
            out.deep_view() + preds_key_from(pv, i as int) =~= base + preds_key_from(pv, 0),
        decreases preds.len() - i,
    {
        proof {
            assert(pv[i as int] == preds@[i as int].deep_view());
        }
        let ghost pre = out.deep_view();
        match &preds[i] {
            WherePredicate::TypePred { lifetimes, bounded_ty, bounds } => {
                if lifetimes.len() > 0 {
                    push_ident(out, "for");
                    push_punct(out, "<");
                    let ghost lv = lifetimes.deep_view();
                    proof {
                        assert(lv.skip(0) =~= lv);
                    }
                    let mut j: usize = 0;
                    while j < lifetimes.len()
                        invariant
                            j <= lifetimes.len(),
                            lv == lifetimes.deep_view(),
                            lv.len() == lifetimes@.len(),
                            out.deep_view() + lds_key_from(lv, j as int) =~= pre + seq![
                                TokV::Ident("for"@),
                                TokV::Punct("<"@),
                            ] + lds_key_from(lv, 0),
                        decreases lifetimes.len() - j,
                    {
                        proof {
                            assert(lv[j as int] == lifetimes@[j as int].deep_view());
                        }
                        let ghost p2 = out.deep_view();
                        out.push(Tok::Life(lifetimes[j].name.clone()));
                        proof {
                            assert(out.deep_view() =~= p2.push(
                                TokV::Life(lv[j as int].name),
                            ));
                        }
                        push_punct(out, ":");
                        ser_bounds(out, &lifetimes[j].bounds);
                        push_punct(out, ",");
                        proof {
                            assert(out.deep_view() =~= p2 + ld_key_toks(lv[j as int]));
                            assert(out.deep_view() + lds_key_from(lv, j as int + 1) =~= pre
                                + seq![TokV::Ident("for"@), TokV::Punct("<"@)] + lds_key_from(
                                lv,
                                0,
                            ));
                        }
                        j += 1;
                    }
                    proof {
                        assert(lds_key_from(lv, lifetimes@.len() as int)
                            =~= Seq::<TokV>::empty());
                    }
                    push_punct(out, ">");
                }
                append_toks(out, bounded_ty);
                push_punct(out, ":");
                append_toks(out, bounds);
                push_punct(out, ",");
                proof {
                    assert(out.deep_view() =~= pre + pred_key_toks(pv[i as int]));
                }
            },
            WherePredicate::LifePred { name, bounds } => {
                let ghost p2 = out.deep_view();
                out.push(Tok::Life(name.clone()));
                proof {
                    assert(out.deep_view() =~= p2.push(TokV::Life(pv[i as int]->LifePred_name)));
                }
                push_punct(out, ":");
                ser_bounds(out, bounds);
                push_punct(out, ",");
                proof {
                    assert(out.deep_view() =~= pre + pred_key_toks(pv[i as int]));
                }
            },
            WherePredicate::EqPred { toks } => {
                append_toks(out, toks);
                push_punct(out, ",");
                proof {
                    assert(out.deep_view() =~= pre + pred_key_toks(pv[i as int]));
                }
            },
        }
        proof {
            assert(out.deep_view() + preds_key_from(pv, i as int + 1) =~= base + preds_key_from(
                pv,
                0,
            ));
        }
        i += 1;
    }
    proof {
        assert(preds_key_from(pv, preds@.len() as int) =~= Seq::<TokV>::empty());
        assert(out.deep_view() =~= base + preds_key_from(pv, 0));
    }
}

/// The canonical key tokens of a signature.
pub fn sig_key_tokens(sig: &Signature) -> (r: Vec<Tok>)
    ensures
        r.deep_view() == sig_key_toks(sig.deep_view()),
{
    let ghost sv = sig.deep_view();
    let (tbl, _cnt) = build_table(&sig.generics.params);
    let nparams = normalize_params(&tbl, &sig.generics.params);
    let ninputs = normalize_inputs(&tbl, &sig.inputs);
    let mut out: Vec<Tok> = Vec::new();
    let ghost e0 = out.deep_view();
    out.push(Tok::Ident(sig.ident.clone()));
    proof {
        assert(out.deep_view() =~= e0.push(TokV::Ident(sv.ident)));
    }
    push_punct(&mut out, "<");
    ser_params(&mut out, &nparams);
    push_punct(&mut out, ">");
    push_punct(&mut out, "(");
    ser_args(&mut out, &ninputs);
    push_punct(&mut out, ")");
    if sig.variadic {
        push_punct(&mut out, "...");
    }
    match &sig.generics.where_clause {
        Some(preds) => {
            push_ident(&mut out, "where");
            let npreds = normalize_where(&tbl, preds);
            ser_preds(&mut out, &npreds);
        },
        None => {},
    }
    proof {
        assert(out.deep_view() =~= sig_key_toks(sv));
    }
    out
}

/// The canonical key of a signature, as one string: two signatures are the
/// same overload exactly when their keys are equal.
pub fn sig_normalize(sig: &Signature) -> (r: String)
    ensures
        r@ == spec_sig_key(sig.deep_view()),
{
    let toks = sig_key_tokens(sig);
    render_toks(&toks)
}


/// A lookup that succeeds in a prefix succeeds identically in any
/// extension.
proof fn lemma_assoc_prefix<T>(a: Seq<(Seq<char>, T)>, b: Seq<(Seq<char>, T)>, k: Seq<char>)
    requires
        assoc_get(a, k) is Some,
    ensures
        assoc_get(a + b, k) == assoc_get(a, k),
    decreases a.len(),
{
    if a.len() > 0 {
        assert((a + b)[0] == a[0]);
        if a[0].0 == k {
        } else {
            assert((a + b).drop_first() =~= a.drop_first() + b);
            lemma_assoc_prefix(a.drop_first(), b, k);
        }
    }
}

/// A failed lookup means no entry carries the key.
proof fn lemma_assoc_none_keys<T>(s: Seq<(Seq<char>, T)>, k: Seq<char>)
    requires
        assoc_get(s, k) is None,
    ensures
        forall|i: int| 0 <= i < s.len() ==> (#[trigger] s[i]).0 != k,
    decreases s.len(),
{
    if s.len() > 0 {
        lemma_assoc_none_keys(s.drop_first(), k);
        assert forall|i: int| 0 <= i < s.len() implies (#[trigger] s[i]).0 != k by {
            if i > 0 {
                assert(s.drop_first()[i - 1] == s[i]);
            }
        }
    }
}

/// A successful lookup names the first entry that carries the key.
proof fn lemma_assoc_some_index<T>(s: Seq<(Seq<char>, T)>, k: Seq<char>, v: T)
    requires
        assoc_get(s, k) == Some(v),
    ensures
        exists|i: int| 0 <= i < s.len() && #[trigger] s[i] == (k, v),
    decreases s.len(),
{
    if s.len() > 0 {
        if s[0].0 == k {
            assert(s[0] == (k, v));
        } else {
            lemma_assoc_some_index(s.drop_first(), k, v);
            let i = choose|i: int|
                0 <= i < s.drop_first().len() && #[trigger] s.drop_first()[i] == (k, v);
            assert(s[i + 1] == (k, v));
        }
    }
}

/// Folding names into a table only appends entries.
proof fn lemma_add_names_extends(acc: (TblV, u32), names: Seq<Seq<char>>)
    ensures
        tbl_add_names(acc, names).0.len() >= acc.0.len(),
        tbl_add_names(acc, names).0.take(acc.0.len() as int) == acc.0,
    decreases names.len(),
{
    if names.len() > 0 {
        let acc2 = tbl_insert(acc, names[0]);
        lemma_add_names_extends(acc2, names.drop_first());
        assert(acc2.0.take(acc.0.len() as int) =~= acc.0);
        assert(tbl_add_names(acc, names).0.take(acc.0.len() as int) =~= acc.0);
    } else {
        assert(tbl_add_names(acc, names).0.take(acc.0.len() as int) =~= acc.0);
    }
}

/// A partial table mid-build: the counter equals the length, the values
/// are the positions, and the keys are pairwise distinct.
pub open spec fn tbl_wf(acc: (TblV, u32)) -> bool {
    &&& acc.1 == acc.0.len()
    &&& forall|i: int| 0 <= i < acc.0.len() ==> (#[trigger] acc.0[i]).1 == i + 1
    &&& forall|i: int, j: int| 0 <= i < j < acc.0.len() ==> acc.0[i].0 != acc.0[j].0
}

/// The image relation: the second table is the first with every key
/// replaced by the alias its value names.
pub open spec fn tbl_image(a: TblV, b: TblV) -> bool {
    &&& b.len() == a.len()
    &&& forall|i: int| 0 <= i < a.len() ==> #[trigger] b[i] == (alias_name(a[i].1), a[i].1)
}

/// Building over the alias image of a name run mirrors building over the
/// run itself, entry for entry.
proof fn lemma_alias_build(names: Seq<Seq<char>>, acc1: (TblV, u32), acc2: (TblV, u32))
    requires
        tbl_wf(acc1),
        acc2.1 == acc1.1,
        tbl_image(acc1.0, acc2.0),
        tbl_add_names(acc1, names).0.len() < u32::MAX,
    ensures
        tbl_wf(tbl_add_names(acc1, names)),
        tbl_add_names(acc2, names.map_values(
            |n: Seq<char>| alias_or(tbl_add_names(acc1, names).0, n),
        )).1 == tbl_add_names(acc1, names).1,
        tbl_image(
            tbl_add_names(acc1, names).0,
            tbl_add_names(acc2, names.map_values(
                |n: Seq<char>| alias_or(tbl_add_names(acc1, names).0, n),
            )).0,
        ),
    decreases names.len(),
{
    let full = tbl_add_names(acc1, names).0;
    if names.len() == 0 {
        assert(names.map_values(|n: Seq<char>| alias_or(full, n)) =~= Seq::<Seq<char>>::empty());
    } else {
        let n = names[0];
        let acc1b = tbl_insert(acc1, n);
        let acc2b = tbl_insert(acc2, alias_or(full, n));
        let rest = names.drop_first();
        lemma_add_names_extends(acc1b, rest);
        assert(full == tbl_add_names(acc1b, rest).0);
        match assoc_get(acc1.0, n) {
            Some(v) => {
                // The name is old: its alias is old in the image too.
                assert(acc1b == acc1);
                lemma_assoc_some_index(acc1.0, n, v);
                let i = choose|i: int| 0 <= i < acc1.0.len() && #[trigger] acc1.0[i] == (n, v);
                assert(v == i + 1);
                assert(full.take(acc1.0.len() as int) == acc1.0);
                assert(full =~= acc1.0 + full.skip(acc1.0.len() as int));
                lemma_assoc_prefix(acc1.0, full.skip(acc1.0.len() as int), n);
                assert(alias_or(full, n) == alias_name(v));
                assert(acc2.0[i] == (alias_name(v), v));
                // It is the first image entry with that key.
                assert forall|j: int| 0 <= j < i implies (#[trigger] acc2.0[j]).0 != alias_name(
                    v,
                ) by {
                    assert(acc2.0[j] == (alias_name(acc1.0[j].1), acc1.0[j].1));
                    if alias_name(acc1.0[j].1) == alias_name(v) {
                        lemma_alias_injective(acc1.0[j].1, v);
                        assert(acc1.0[j].1 == v);
                        assert(acc1.0[j].1 == j + 1);
                    }
                }
                crate::session::lemma_assoc_get_found(acc2.0, alias_name(v), i);
                assert(acc2b == acc2);
                lemma_alias_build(rest, acc1b, acc2b);
                assert(rest.map_values(|m: Seq<char>| alias_or(full, m)) =~= names.map_values(
                    |m: Seq<char>| alias_or(full, m),
                ).drop_first());
            },
            None => {
                // The name is fresh: both tables push in step.
                let lenn = acc1.0.len();
                lemma_add_names_extends(acc1b, rest);
                assert(full.len() >= acc1b.0.len());
                assert(acc1.1 < u32::MAX);
                assert(acc1b.0 =~= acc1.0.push((n, (acc1.1 + 1) as u32)));
                assert(acc1b.1 == acc1.1 + 1);
                assert(tbl_wf(acc1b)) by {
                    lemma_assoc_none_keys(acc1.0, n);
                    assert forall|i: int, j: int|
                        0 <= i < j < acc1b.0.len() implies acc1b.0[i].0 != acc1b.0[j].0 by {
                        if j == lenn as int {
                            assert(acc1b.0[i].0 == acc1.0[i].0);
                            assert(acc1b.0[j].0 == n);
                        }
                    }
                }
                // The full table holds the fresh entry at this position.
                assert(full.take(acc1b.0.len() as int) == acc1b.0);
                assert(full =~= acc1b.0 + full.skip(acc1b.0.len() as int));
                lemma_assoc_none_keys(acc1.0, n);
                assert forall|j: int| 0 <= j < lenn implies (#[trigger] acc1b.0[j]).0 != n by {
                    assert(acc1b.0[j] == acc1.0[j]);
                }
                crate::session::lemma_assoc_get_found(acc1b.0, n, lenn as int);
                lemma_assoc_prefix(acc1b.0, full.skip(acc1b.0.len() as int), n);
                assert(alias_or(full, n) == alias_name((acc1.1 + 1) as u32));
                // The alias is fresh in the image.
                assert forall|j: int| 0 <= j < lenn implies (#[trigger] acc2.0[j]).0
                    != alias_name((acc1.1 + 1) as u32) by {
                    assert(acc2.0[j] == (alias_name(acc1.0[j].1), acc1.0[j].1));
                    if alias_name(acc1.0[j].1) == alias_name((acc1.1 + 1) as u32) {
                        lemma_alias_injective(acc1.0[j].1, (acc1.1 + 1) as u32);
                        assert(acc1.0[j].1 == j + 1);
                    }
                }
                crate::session::lemma_assoc_get_none(acc2.0, alias_name((acc1.1 + 1) as u32));
                assert(acc2b.0 =~= acc2.0.push(
                    (alias_name((acc1.1 + 1) as u32), (acc2.1 + 1) as u32),
                ));
                assert(tbl_image(acc1b.0, acc2b.0)) by {
                    assert forall|i: int| 0 <= i < acc1b.0.len() implies #[trigger] acc2b.0[i]
                        == (alias_name(acc1b.0[i].1), acc1b.0[i].1) by {
                        if i < lenn as int {
                            assert(acc2b.0[i] == acc2.0[i]);
                            assert(acc1b.0[i] == acc1.0[i]);
                        }
                    }
                }
                lemma_alias_build(rest, acc1b, acc2b);
                assert(rest.map_values(|m: Seq<char>| alias_or(full, m)) =~= names.map_values(
                    |m: Seq<char>| alias_or(full, m),
                ).drop_first());
            },
        }
        // One unfolding of the image-side fold.
        let mapped = names.map_values(|m: Seq<char>| alias_or(full, m));
        assert(mapped[0] == alias_or(full, n));
        assert(tbl_add_names(acc2, mapped) == tbl_add_names(
            tbl_insert(acc2, alias_or(full, n)),
            mapped.drop_first(),
        ));
    }
}


/// The table of a run of normalized parameters is the alias image of the
/// table of the run itself.
proof fn lemma_flat_names_map(params: Seq<GenericParamV>, t: TblV, i: int)
    ensures
        flat_names_from(
            params.map_values(|p: GenericParamV| norm_param(t, p)),
            i,
        ) == flat_names_from(params, i).map_values(|n: Seq<char>| alias_or(t, n)),
    decreases params.len() - i,
{
    let mapped = params.map_values(|p: GenericParamV| norm_param(t, p));
    if i < 0 || i >= params.len() {
        assert(flat_names_from(params, i).map_values(|n: Seq<char>| alias_or(t, n))
            =~= Seq::<Seq<char>>::empty());
    } else {
        lemma_flat_names_map(params, t, i + 1);
        assert(param_names(mapped[i]) =~= param_names(params[i]).map_values(
            |n: Seq<char>| alias_or(t, n),
        ));
        assert(flat_names_from(mapped, i) =~= flat_names_from(params, i).map_values(
            |n: Seq<char>| alias_or(t, n),
        ));
    }
}

/// The shape a table of aliases has: entry `i` binds the alias of
/// position `i + 1` to that position.
pub open spec fn alias_table(tp: TblV) -> bool {
    forall|i: int| 0 <= i < tp.len() ==> #[trigger] tp[i] == (alias_name((i + 1) as u32), (i
        + 1) as u32)
}

/// Looking any name up in a table of aliases gives the name back.
proof fn lemma_alias_or_identity(tp: TblV, x: Seq<char>)
    requires
        alias_table(tp),
        tp.len() < u32::MAX,
    ensures
        alias_or(tp, x) == x,
{
    match assoc_get(tp, x) {
        None => {},
        Some(v) => {
            lemma_assoc_some_index(tp, x, v);
            let i = choose|i: int| 0 <= i < tp.len() && #[trigger] tp[i] == (x, v);
            assert(tp[i] == (alias_name((i + 1) as u32), (i + 1) as u32));
        },
    }
}

/// An alias of a held position is in the table of aliases.
proof fn lemma_alias_known(tp: TblV, v: u32)
    requires
        alias_table(tp),
        tp.len() < u32::MAX,
        1 <= v <= tp.len(),
    ensures
        known(tp, alias_name(v)),
{
    if assoc_get(tp, alias_name(v)) is None {
        lemma_assoc_none_keys(tp, alias_name(v));
        assert(tp[v - 1].0 == alias_name(v));
        assert(false);
    }
}

/// Rewriting through a table of aliases changes nothing.
proof fn lemma_rw_toks_identity(tp: TblV, toks: Seq<TokV>)
    requires
        alias_table(tp),
        tp.len() < u32::MAX,
    ensures
        rw_toks(tp, toks) == toks,
{
    assert forall|i: int| 0 <= i < toks.len() implies rw_toks(tp, toks)[i] == toks[i] by {
        match toks[i] {
            TokV::Ident(x) => {
                lemma_alias_or_identity(tp, x);
            },
            TokV::Life(x) => {
                lemma_alias_or_identity(tp, x);
            },
            TokV::Punct(x) => {},
            TokV::Lit(x) => {},
            TokV::Kw(k) => {},
        }
    }
    assert(rw_toks(tp, toks) =~= toks);
}

/// A name list rewritten through a table of aliases changes nothing.
proof fn lemma_names_map_identity(tp: TblV, names: Seq<Seq<char>>)
    requires
        alias_table(tp),
        tp.len() < u32::MAX,
    ensures
        names.map_values(|b: Seq<char>| alias_or(tp, b)) == names,
{
    assert forall|i: int| 0 <= i < names.len() implies names.map_values(
        |b: Seq<char>| alias_or(tp, b),
    )[i] == names[i] by {
        lemma_alias_or_identity(tp, names[i]);
    }
    assert(names.map_values(|b: Seq<char>| alias_or(tp, b)) =~= names);
}

/// Every value a well-formed table binds is a held position.
proof fn lemma_wf_value_range(t: TblV, x: Seq<char>, v: u32)
    requires
        forall|i: int| 0 <= i < t.len() ==> (#[trigger] t[i]).1 == i + 1,
        assoc_get(t, x) == Some(v),
    ensures
        1 <= v <= t.len(),
{
    lemma_assoc_some_index(t, x, v);
    let i = choose|i: int| 0 <= i < t.len() && #[trigger] t[i] == (x, v);
    assert(t[i].1 == i + 1);
}

/// A token rewritten from a well-formed table is known to the table of
/// aliases; one it left alone keeps its shape.
proof fn lemma_rw_toks_known(t: TblV, tp: TblV, toks: Seq<TokV>)
    requires
        forall|i: int| 0 <= i < t.len() ==> (#[trigger] t[i]).1 == i + 1,
        alias_table(tp),
        tp.len() == t.len(),
        tp.len() < u32::MAX,
        ty_toks_known(t, toks),
    ensures
        ty_toks_known(tp, rw_toks(t, toks)),
{
    assert forall|i: int| 0 <= i < rw_toks(t, toks).len() implies match #[trigger] rw_toks(
        t,
        toks,
    )[i] {
        TokV::Ident(x) => known(tp, x),
        TokV::Life(x) => known(tp, x),
        TokV::Punct(x) => true,
        TokV::Lit(x) => true,
        TokV::Kw(k) => true,
    } by {
        assert(rw_toks(t, toks)[i] == rw_tok(t, toks[i]));
        match toks[i] {
            TokV::Ident(x) => {
                let v = assoc_get(t, x)->Some_0;
                lemma_wf_value_range(t, x, v);
                lemma_alias_known(tp, v);
            },
            TokV::Life(x) => {
                let v = assoc_get(t, x)->Some_0;
                lemma_wf_value_range(t, x, v);
                lemma_alias_known(tp, v);
            },
            TokV::Punct(x) => {},
            TokV::Lit(x) => {},
            TokV::Kw(k) => {},
        }
    }
}

/// A rewritten name list is known to the table of aliases.
proof fn lemma_names_known_image(t: TblV, tp: TblV, names: Seq<Seq<char>>)
    requires
        forall|i: int| 0 <= i < t.len() ==> (#[trigger] t[i]).1 == i + 1,
        alias_table(tp),
        tp.len() == t.len(),
        tp.len() < u32::MAX,
        names_known(t, names),
    ensures
        names_known(tp, names.map_values(|b: Seq<char>| alias_or(t, b))),
{
    let mapped = names.map_values(|b: Seq<char>| alias_or(t, b));
    assert forall|i: int| 0 <= i < mapped.len() implies known(tp, #[trigger] mapped[i]) by {
        assert(mapped[i] == alias_or(t, names[i]));
        let v = assoc_get(t, names[i])->Some_0;
        lemma_wf_value_range(t, names[i], v);
        lemma_alias_known(tp, v);
    }
}

/// Normalizing an already-normalized where clause changes nothing.
proof fn lemma_norm_where_idem(t: TblV, tp: TblV, preds: Seq<WherePredicateV>)
    requires
        forall|i: int| 0 <= i < t.len() ==> (#[trigger] t[i]).1 == i + 1,
        alias_table(tp),
        tp.len() == t.len(),
        tp.len() < u32::MAX,
    ensures
        norm_where(tp, norm_where(t, preds)) == norm_where(t, preds),
    decreases preds.len(),
{
    if preds.len() > 0 {
        lemma_norm_where_idem(t, tp, preds.drop_first());
        let p = preds[0];
        let rest = norm_where(t, preds.drop_first());
        if pred_kept(t, p) {
            let np = norm_pred(t, p);
            // The rewritten predicate survives the second pass untouched.
            assert(pred_kept(tp, np)) by {
                match p {
                    WherePredicateV::TypePred { lifetimes, bounded_ty, bounds } => {
                        lemma_rw_toks_known(t, tp, bounded_ty);
                        let nls = np->TypePred_lifetimes;
                        assert forall|i: int| 0 <= i < nls.len() implies known(
                            tp,
                            (#[trigger] nls[i]).name,
                        ) && names_known(tp, nls[i].bounds) by {
                            let l = lifetimes[i];
                            let v = assoc_get(t, l.name)->Some_0;
                            lemma_wf_value_range(t, l.name, v);
                            lemma_alias_known(tp, v);
                            lemma_names_known_image(t, tp, l.bounds);
                        }
                    },
                    WherePredicateV::LifePred { name, bounds } => {
                        let v = assoc_get(t, name)->Some_0;
                        lemma_wf_value_range(t, name, v);
                        lemma_alias_known(tp, v);
                        lemma_names_known_image(t, tp, bounds);
                    },
                    WherePredicateV::EqPred { toks } => {},
                }
            }
            assert(norm_pred(tp, np) == np) by {
                match p {
                    WherePredicateV::TypePred { lifetimes, bounded_ty, bounds } => {
                        lemma_rw_toks_identity(tp, np->TypePred_bounded_ty);
                        lemma_rw_toks_identity(tp, np->TypePred_bounds);
                        let nls = np->TypePred_lifetimes;
                        assert forall|i: int| 0 <= i < nls.len() implies nls.map_values(
                            |l: LifetimeDefV|
                                LifetimeDefV {
                                    name: alias_or(tp, l.name),
                                    bounds: l.bounds.map_values(
                                        |b: Seq<char>| alias_or(tp, b),
                                    ),
                                },
                        )[i] == nls[i] by {
                            lemma_alias_or_identity(tp, nls[i].name);
                            lemma_names_map_identity(tp, nls[i].bounds);
                        }
                        assert(nls.map_values(
                            |l: LifetimeDefV|
                                LifetimeDefV {
                                    name: alias_or(tp, l.name),
                                    bounds: l.bounds.map_values(
                                        |b: Seq<char>| alias_or(tp, b),
                                    ),
                                },
                        ) =~= nls);
                    },
                    WherePredicateV::LifePred { name, bounds } => {
                        lemma_alias_or_identity(tp, np->LifePred_name);
                        lemma_names_map_identity(tp, np->LifePred_bounds);
                    },
                    WherePredicateV::EqPred { toks } => {},
                }
            }
            assert(norm_where(t, preds) == seq![np] + rest);
            assert((seq![np] + rest)[0] == np);
            assert((seq![np] + rest).drop_first() =~= rest);
            assert(norm_where(tp, seq![np] + rest) =~= seq![np] + rest);
        } else {
            assert(norm_where(t, preds) == rest);
        }
    }
}

/// Normalization is idempotent: normalizing a normalized signature is
/// the identity, so the canonical key of the normalized signature is the
/// signature's own key.  The one bound is the machine limit on the alias
/// counter.
pub proof fn lemma_normalize_idempotent(s: SignatureV)
    requires
        spec_build_table(s.generics.params).0.len() < u32::MAX,
    ensures
        norm_sig_struct(norm_sig_struct(s)) == norm_sig_struct(s),
        spec_sig_key(norm_sig_struct(s)) == spec_sig_key(s),
{
    let t = spec_build_table(s.generics.params);
    let names = flat_names_from(s.generics.params, 0);
    lemma_alias_build(names, (Seq::empty(), 0u32), (Seq::empty(), 0u32));
    assert(tbl_wf(t));
    let ns = norm_sig_struct(s);
    let nparams = s.generics.params.map_values(|p: GenericParamV| norm_param(t.0, p));
    assert(ns.generics.params == nparams);
    lemma_flat_names_map(s.generics.params, t.0, 0);
    let tp = spec_build_table(nparams);
    assert(tp.0 == tbl_add_names(
        (Seq::empty(), 0u32),
        names.map_values(|n: Seq<char>| alias_or(t.0, n)),
    ).0);
    assert(tbl_image(t.0, tp.0));
    assert(alias_table(tp.0)) by {
        assert forall|i: int| 0 <= i < tp.0.len() implies #[trigger] tp.0[i] == (
            alias_name((i + 1) as u32),
            (i + 1) as u32,
        ) by {
            assert(tp.0[i] == (alias_name(t.0[i].1), t.0[i].1));
            assert(t.0[i].1 == i + 1);
        }
    }
    // Renormalizing the parameters changes nothing.
    assert(nparams.map_values(|p: GenericParamV| norm_param(tp.0, p)) == nparams) by {
        assert forall|i: int| 0 <= i < nparams.len() implies nparams.map_values(
            |p: GenericParamV| norm_param(tp.0, p),
        )[i] == nparams[i] by {
            match nparams[i] {
                GenericParamV::TypeParam { name, bounds } => {
                    lemma_alias_or_identity(tp.0, name);
                    lemma_rw_toks_identity(tp.0, bounds);
                },
                GenericParamV::LifeParam { name, bounds } => {
                    lemma_alias_or_identity(tp.0, name);
                    lemma_names_map_identity(tp.0, bounds);
                },
                GenericParamV::ConstParam { toks } => {},
            }
        }
        assert(nparams.map_values(|p: GenericParamV| norm_param(tp.0, p)) =~= nparams);
    }
    // Renormalizing the where clause changes nothing.
    assert(ns.generics.where_clause == match s.generics.where_clause {
        Some(preds) => Some(norm_where(t.0, preds)),
        None => None::<Seq<WherePredicateV>>,
    });
    match s.generics.where_clause {
        Some(preds) => {
            lemma_norm_where_idem(t.0, tp.0, preds);
        },
        None => {},
    }
    // Renormalizing the arguments changes nothing.
    assert(norm_inputs(tp.0, ns.inputs) == ns.inputs) by {
        assert forall|i: int| 0 <= i < ns.inputs.len() implies norm_inputs(tp.0, ns.inputs)[i]
            == ns.inputs[i] by {
            assert(ns.inputs[i] == norm_arg(t.0, s.inputs[i]));
            match s.inputs[i] {
                FnArgV::Receiver(r) => {
                    match r.lifetime {
                        Some(l) => {
                            lemma_alias_or_identity(tp.0, alias_or(t.0, l));
                        },
                        None => {},
                    }
                },
                FnArgV::Typed(pt) => {
                    lemma_rw_toks_identity(tp.0, rw_toks(t.0, pt.ty));
                },
            }
        }
        assert(norm_inputs(tp.0, ns.inputs) =~= ns.inputs);
    }
    assert(norm_sig_struct(ns) == ns);
}


/// One token under a renaming of generic-parameter names.
pub open spec fn rn_tok(pi: spec_fn(Seq<char>) -> Seq<char>, t: TokV) -> TokV {
    match t {
        TokV::Ident(x) => TokV::Ident(pi(x)),
        TokV::Life(x) => TokV::Life(pi(x)),
        TokV::Punct(x) => t,
        TokV::Lit(x) => t,
        TokV::Kw(k) => t,
    }
}

/// A token run under a renaming.
pub open spec fn rn_toks(pi: spec_fn(Seq<char>) -> Seq<char>, toks: Seq<TokV>) -> Seq<TokV> {
    toks.map_values(|t: TokV| rn_tok(pi, t))
}

/// A name list under a renaming.
pub open spec fn rn_names(pi: spec_fn(Seq<char>) -> Seq<char>, names: Seq<Seq<char>>) -> Seq<
    Seq<char>,
> {
    names.map_values(|n: Seq<char>| pi(n))
}

/// One generic parameter under a renaming.
pub open spec fn rn_param(pi: spec_fn(Seq<char>) -> Seq<char>, p: GenericParamV) -> GenericParamV {
    match p {
        GenericParamV::TypeParam { name, bounds } => GenericParamV::TypeParam {
            name: pi(name),
            bounds: rn_toks(pi, bounds),
        },
        GenericParamV::LifeParam { name, bounds } => GenericParamV::LifeParam {
            name: pi(name),
            bounds: rn_names(pi, bounds),
        },
        GenericParamV::ConstParam { toks } => GenericParamV::ConstParam {
            toks: rn_toks(pi, toks),
        },
    }
}

/// One where-clause predicate under a renaming.
pub open spec fn rn_pred(pi: spec_fn(Seq<char>) -> Seq<char>, p: WherePredicateV) -> WherePredicateV {
    match p {
        WherePredicateV::TypePred { lifetimes, bounded_ty, bounds } => WherePredicateV::TypePred {
            lifetimes: lifetimes.map_values(
                |l: LifetimeDefV| LifetimeDefV { name: pi(l.name), bounds: rn_names(pi, l.bounds) },
            ),
            bounded_ty: rn_toks(pi, bounded_ty),
            bounds: rn_toks(pi, bounds),
        },
        WherePredicateV::LifePred { name, bounds } => WherePredicateV::LifePred {
            name: pi(name),
            bounds: rn_names(pi, bounds),
        },
        WherePredicateV::EqPred { toks } => WherePredicateV::EqPred { toks: rn_toks(pi, toks) },
    }
}

/// One argument under a renaming: names in the type and a receiver's
/// lifetime change; the binding pattern is free to change arbitrarily
/// and is renamed here too.
pub open spec fn rn_arg(pi: spec_fn(Seq<char>) -> Seq<char>, a: FnArgV) -> FnArgV {
    match a {
        FnArgV::Receiver(r) => FnArgV::Receiver(
            ReceiverV {
                reference: r.reference,
                lifetime: match r.lifetime {
                    Some(l) => Some(pi(l)),
                    None => None,
                },
                mutable: r.mutable,
            },
        ),
        FnArgV::Typed(pt) => FnArgV::Typed(
            PatTypeV {
                attrs: pt.attrs,
                pat: rn_toks(pi, pt.pat),
                ty: rn_toks(pi, pt.ty),
                assign: pt.assign,
            },
        ),
    }
}

/// A whole signature under a consistent renaming of its generic names.
pub open spec fn rename_sig(pi: spec_fn(Seq<char>) -> Seq<char>, s: SignatureV) -> SignatureV {
    SignatureV {
        constness: s.constness,
        asyncness: s.asyncness,
        unsafety: s.unsafety,
        abi: s.abi,
        ident: s.ident,
        generics: GenericsV {
            params: s.generics.params.map_values(|p: GenericParamV| rn_param(pi, p)),
            where_clause: match s.generics.where_clause {
                Some(preds) => Some(preds.map_values(|p: WherePredicateV| rn_pred(pi, p))),
                None => None,
            },
        },
        inputs: s.inputs.map_values(|a: FnArgV| rn_arg(pi, a)),
        variadic: s.variadic,
        output: s.output,
    }
}

/// What a renaming must respect at a name that occurs in the signature
/// but is no generic parameter: the renaming leaves it alone and maps no
/// generic parameter onto it — renaming captures nothing.
pub open spec fn free_name_ok(t: TblV, pi: spec_fn(Seq<char>) -> Seq<char>, x: Seq<char>) -> bool {
    !known(t, x) ==> (pi(x) == x && forall|a: Seq<char>| known(t, #[trigger] pi(a)) || pi(a) != x)
}

/// The capture condition over a token run.
pub open spec fn toks_rn_ok(t: TblV, pi: spec_fn(Seq<char>) -> Seq<char>, toks: Seq<TokV>) -> bool {
    forall|i: int|
        0 <= i < toks.len() ==> match #[trigger] toks[i] {
            TokV::Ident(x) => free_name_ok(t, pi, x),
            TokV::Life(x) => free_name_ok(t, pi, x),
            TokV::Punct(x) => true,
            TokV::Lit(x) => true,
            TokV::Kw(k) => true,
        }
}

/// The capture condition over a name list.
pub open spec fn names_rn_ok(t: TblV, pi: spec_fn(Seq<char>) -> Seq<char>, names: Seq<Seq<char>>) -> bool {
    forall|i: int| 0 <= i < names.len() ==> free_name_ok(t, pi, #[trigger] names[i])
}

/// The whole renaming admissibility condition: the renaming is injective
/// on the signature's generic names, and at every place normalization
/// reads a name — argument types, parameter bounds, const parameters,
/// receiver lifetimes, where-clause predicates — a non-generic name is a
/// fixed point that no generic name is mapped onto.
pub open spec fn rename_ok(s: SignatureV, pi: spec_fn(Seq<char>) -> Seq<char>) -> bool {
    let t = spec_build_table(s.generics.params).0;
    &&& (forall|a: Seq<char>, b: Seq<char>|
        known(t, a) && known(t, b) && #[trigger] pi(a) == #[trigger] pi(b) ==> a == b)
    &&& (forall|i: int|
        0 <= i < s.generics.params.len() ==> match #[trigger] s.generics.params[i] {
            GenericParamV::TypeParam { name, bounds } => toks_rn_ok(t, pi, bounds),
            GenericParamV::LifeParam { name, bounds } => true,
            GenericParamV::ConstParam { toks } => toks_rn_ok(t, pi, toks) && ty_toks_free(
                t,
                toks,
            ),
        })
    &&& (forall|i: int|
        0 <= i < s.inputs.len() ==> match #[trigger] s.inputs[i] {
            FnArgV::Receiver(r) => match r.lifetime {
                Some(l) => free_name_ok(t, pi, l),
                None => true,
            },
            FnArgV::Typed(pt) => toks_rn_ok(t, pi, pt.ty),
        })
    &&& (match s.generics.where_clause {
        Some(preds) => forall|i: int|
            0 <= i < preds.len() ==> match #[trigger] preds[i] {
                WherePredicateV::TypePred { lifetimes, bounded_ty, bounds } => toks_rn_ok(
                    t,
                    pi,
                    bounded_ty,
                ) && toks_rn_ok(t, pi, bounds) && (forall|j: int|
                    0 <= j < lifetimes.len() ==> free_name_ok(
                        t,
                        pi,
                        (#[trigger] lifetimes[j]).name,
                    ) && names_rn_ok(t, pi, lifetimes[j].bounds)),
                WherePredicateV::LifePred { name, bounds } => free_name_ok(t, pi, name)
                    && names_rn_ok(t, pi, bounds),
                WherePredicateV::EqPred { toks } => toks_rn_ok(t, pi, toks) && ty_toks_free(
                    t,
                    toks,
                ),
            },
        None => true,
    })
}

/// No identifier or lifetime in the run is a generic name: what must
/// hold of the pieces normalization carries through untouched.
pub open spec fn ty_toks_free(t: TblV, toks: Seq<TokV>) -> bool {
    forall|i: int|
        0 <= i < toks.len() ==> match #[trigger] toks[i] {
            TokV::Ident(x) => !known(t, x),
            TokV::Life(x) => !known(t, x),
            TokV::Punct(x) => true,
            TokV::Lit(x) => true,
            TokV::Kw(k) => true,
        }
}


/// Whether a table binds every name of a run and nothing else changes:
/// membership in a built table is occurrence among the folded names.
proof fn lemma_build_membership(acc: (TblV, u32), names: Seq<Seq<char>>, n: Seq<char>)
    ensures
        known(tbl_add_names(acc, names).0, n) <==> known(acc.0, n) || names.contains(n),
    decreases names.len(),
{
    if names.len() > 0 {
        let acc2 = tbl_insert(acc, names[0]);
        lemma_build_membership(acc2, names.drop_first(), n);
        assert(known(acc2.0, n) <==> known(acc.0, n) || names[0] == n) by {
            match assoc_get(acc.0, names[0]) {
                Some(v) => {},
                None => {
                    if n == names[0] {
                        lemma_assoc_none_keys(acc.0, names[0]);
                        crate::session::lemma_assoc_get_found(
                            acc2.0,
                            n,
                            acc.0.len() as int,
                        );
                    } else {
                        match assoc_get(acc.0, n) {
                            Some(v) => {
                                lemma_assoc_prefix(acc.0, seq![(names[0], acc2.1)], n);
                                assert(acc2.0 =~= acc.0 + seq![(names[0], acc2.1)]);
                            },
                            None => {
                                lemma_assoc_none_keys(acc.0, n);
                                assert forall|i: int| 0 <= i < acc2.0.len() implies (
                                #[trigger] acc2.0[i]).0 != n by {
                                    if i < acc.0.len() {
                                        assert(acc2.0[i] == acc.0[i]);
                                    }
                                }
                                crate::session::lemma_assoc_get_none(acc2.0, n);
                            },
                        }
                    }
                },
            }
        }
        if names.contains(n) {
            let i = choose|i: int| 0 <= i < names.len() && names[i] == n;
            if i > 0 {
                assert(names.drop_first()[i - 1] == n);
                assert(names.drop_first().contains(n));
            }
        }
        if names.drop_first().contains(n) {
            let i = choose|i: int| 0 <= i < names.drop_first().len() && names.drop_first()[i]
                == n;
            assert(names[i + 1] == n);
            assert(names.contains(n));
        }
    }
}

/// The second table is the first with its keys renamed.
pub open spec fn pi_image(a: TblV, b: TblV, pi: spec_fn(Seq<char>) -> Seq<char>) -> bool {
    &&& b.len() == a.len()
    &&& forall|i: int| 0 <= i < a.len() ==> #[trigger] b[i] == (pi(a[i].0), a[i].1)
}

/// Looking a renamed name up in the renamed table finds what the name
/// finds in the original, provided the renaming is injective on the set
/// `k` that holds the table's keys and the name.
proof fn lemma_assoc_pi(
    a: TblV,
    b: TblV,
    pi: spec_fn(Seq<char>) -> Seq<char>,
    k: Set<Seq<char>>,
    n: Seq<char>,
)
    requires
        pi_image(a, b, pi),
        forall|x: Seq<char>, y: Seq<char>|
            k.contains(x) && k.contains(y) && #[trigger] pi(x) == #[trigger] pi(y) ==> x == y,
        forall|i: int| 0 <= i < a.len() ==> k.contains((#[trigger] a[i]).0),
        k.contains(n),
    ensures
        assoc_get(b, pi(n)) == assoc_get(a, n),
    decreases a.len(),
{
    if a.len() > 0 {
        assert(b[0] == (pi(a[0].0), a[0].1));
        if a[0].0 == n {
        } else {
            assert(pi(a[0].0) != pi(n));
            assert(pi_image(a.drop_first(), b.drop_first(), pi)) by {
                assert forall|i: int| 0 <= i < a.drop_first().len() implies #[trigger] b
                    .drop_first()[i] == (pi(a.drop_first()[i].0), a.drop_first()[i].1) by {
                    assert(a.drop_first()[i] == a[i + 1]);
                    assert(b.drop_first()[i] == b[i + 1]);
                }
            }
            assert forall|i: int| 0 <= i < a.drop_first().len() implies k.contains(
                (#[trigger] a.drop_first()[i]).0,
            ) by {
                assert(a.drop_first()[i] == a[i + 1]);
            }
            lemma_assoc_pi(a.drop_first(), b.drop_first(), pi, k, n);
        }
    }
}

/// Building over a renamed name run mirrors building over the run, key
/// for key.
proof fn lemma_pi_build(
    names: Seq<Seq<char>>,
    acc1: (TblV, u32),
    acc2: (TblV, u32),
    pi: spec_fn(Seq<char>) -> Seq<char>,
    k: Set<Seq<char>>,
)
    requires
        acc2.1 == acc1.1,
        pi_image(acc1.0, acc2.0, pi),
        forall|x: Seq<char>, y: Seq<char>|
            k.contains(x) && k.contains(y) && #[trigger] pi(x) == #[trigger] pi(y) ==> x == y,
        forall|i: int| 0 <= i < acc1.0.len() ==> k.contains((#[trigger] acc1.0[i]).0),
        forall|i: int| 0 <= i < names.len() ==> k.contains(#[trigger] names[i]),
    ensures
        tbl_add_names(acc2, rn_names(pi, names)).1 == tbl_add_names(acc1, names).1,
        pi_image(tbl_add_names(acc1, names).0, tbl_add_names(acc2, rn_names(pi, names)).0, pi),
    decreases names.len(),
{
    if names.len() > 0 {
        let n = names[0];
        lemma_assoc_pi(acc1.0, acc2.0, pi, k, n);
        let acc1b = tbl_insert(acc1, n);
        let acc2b = tbl_insert(acc2, pi(n));
        assert(acc2b.1 == acc1b.1);
        assert(pi_image(acc1b.0, acc2b.0, pi)) by {
            match assoc_get(acc1.0, n) {
                Some(v) => {},
                None => {
                    assert forall|i: int| 0 <= i < acc1b.0.len() implies #[trigger] acc2b.0[i]
                        == (pi(acc1b.0[i].0), acc1b.0[i].1) by {
                        if i < acc1.0.len() {
                            assert(acc1b.0[i] == acc1.0[i]);
                            assert(acc2b.0[i] == acc2.0[i]);
                        }
                    }
                },
            }
        }
        assert forall|i: int| 0 <= i < acc1b.0.len() implies k.contains(
            (#[trigger] acc1b.0[i]).0,
        ) by {
            if i < acc1.0.len() {
                assert(acc1b.0[i] == acc1.0[i]);
            }
        }
        assert forall|i: int| 0 <= i < names.drop_first().len() implies k.contains(
            #[trigger] names.drop_first()[i],
        ) by {
            assert(names.drop_first()[i] == names[i + 1]);
        }
        lemma_pi_build(names.drop_first(), acc1b, acc2b, pi, k);
        assert(rn_names(pi, names)[0] == pi(n));
        assert(rn_names(pi, names).drop_first() =~= rn_names(pi, names.drop_first()));
        assert(tbl_add_names(acc2, rn_names(pi, names)) == tbl_add_names(
            acc2b,
            rn_names(pi, names.drop_first()),
        ));
    } else {
        assert(rn_names(pi, names) =~= Seq::<Seq<char>>::empty());
    }
}

/// The generic names a renamed parameter run contributes are the renamed
/// names of the run itself.
proof fn lemma_flat_names_pi(
    params: Seq<GenericParamV>,
    pi: spec_fn(Seq<char>) -> Seq<char>,
    i: int,
)
    ensures
        flat_names_from(params.map_values(|p: GenericParamV| rn_param(pi, p)), i) == rn_names(
            pi,
            flat_names_from(params, i),
        ),
    decreases params.len() - i,
{
    let mapped = params.map_values(|p: GenericParamV| rn_param(pi, p));
    if i < 0 || i >= params.len() {
        assert(rn_names(pi, flat_names_from(params, i)) =~= Seq::<Seq<char>>::empty());
    } else {
        lemma_flat_names_pi(params, pi, i + 1);
        assert(param_names(mapped[i]) =~= rn_names(pi, param_names(params[i])));
        assert(flat_names_from(mapped, i) =~= rn_names(pi, flat_names_from(params, i)));
    }
}


/// Every key of a table is known to it.
proof fn lemma_keys_known(t: TblV, i: int)
    requires
        0 <= i < t.len(),
    ensures
        known(t, t[i].0),
{
    if assoc_get(t, t[i].0) is None {
        lemma_assoc_none_keys(t, t[i].0);
    }
}

/// Under an admissible renaming, looking a renamed name up against the
/// renamed table aliases exactly as the name against the original, and
/// membership is preserved.
proof fn lemma_alias_or_pi(t: TblV, t2: TblV, pi: spec_fn(Seq<char>) -> Seq<char>, x: Seq<char>)
    requires
        pi_image(t, t2, pi),
        forall|a: Seq<char>, b: Seq<char>|
            known(t, a) && known(t, b) && #[trigger] pi(a) == #[trigger] pi(b) ==> a == b,
        known(t, x) || free_name_ok(t, pi, x),
    ensures
        alias_or(t2, pi(x)) == alias_or(t, x),
        known(t2, pi(x)) <==> known(t, x),
{
    let k = Set::new(|y: Seq<char>| known(t, y));
    assert forall|i: int| 0 <= i < t.len() implies k.contains((#[trigger] t[i]).0) by {
        lemma_keys_known(t, i);
    }
    if known(t, x) {
        lemma_assoc_pi(t, t2, pi, k, x);
    } else {
        assert(pi(x) == x);
        if assoc_get(t2, x) is Some {
            let v = assoc_get(t2, x)->Some_0;
            lemma_assoc_some_index(t2, x, v);
            let i = choose|i: int| 0 <= i < t2.len() && #[trigger] t2[i] == (x, v);
            assert(t2[i] == (pi(t[i].0), t[i].1));
            lemma_keys_known(t, i);
            assert(known(t, pi(t[i].0)) || pi(t[i].0) != x);
            assert(false);
        }
    }
}

/// Token-run rewriting commutes with an admissible renaming.
proof fn lemma_rw_toks_pi(t: TblV, t2: TblV, pi: spec_fn(Seq<char>) -> Seq<char>, toks: Seq<TokV>)
    requires
        pi_image(t, t2, pi),
        forall|a: Seq<char>, b: Seq<char>|
            known(t, a) && known(t, b) && #[trigger] pi(a) == #[trigger] pi(b) ==> a == b,
        toks_rn_ok(t, pi, toks),
    ensures
        rw_toks(t2, rn_toks(pi, toks)) == rw_toks(t, toks),
{
    assert forall|i: int| 0 <= i < toks.len() implies rw_toks(t2, rn_toks(pi, toks))[i]
        == rw_toks(t, toks)[i] by {
        assert(rn_toks(pi, toks)[i] == rn_tok(pi, toks[i]));
        match toks[i] {
            TokV::Ident(x) => {
                lemma_alias_or_pi(t, t2, pi, x);
            },
            TokV::Life(x) => {
                lemma_alias_or_pi(t, t2, pi, x);
            },
            TokV::Punct(x) => {},
            TokV::Lit(x) => {},
            TokV::Kw(kk) => {},
        }
    }
    assert(rw_toks(t2, rn_toks(pi, toks)) =~= rw_toks(t, toks));
}

/// Untouched token runs are fixed points of an admissible renaming.
proof fn lemma_rn_toks_fixed(t: TblV, pi: spec_fn(Seq<char>) -> Seq<char>, toks: Seq<TokV>)
    requires
        toks_rn_ok(t, pi, toks),
        ty_toks_free(t, toks),
    ensures
        rn_toks(pi, toks) == toks,
{
    assert forall|i: int| 0 <= i < toks.len() implies rn_toks(pi, toks)[i] == toks[i] by {
        assert(rn_toks(pi, toks)[i] == rn_tok(pi, toks[i]));
    }
    assert(rn_toks(pi, toks) =~= toks);
}

/// Name-list aliasing commutes with an admissible renaming, and so does
/// membership of the whole list.
proof fn lemma_names_map_pi(
    t: TblV,
    t2: TblV,
    pi: spec_fn(Seq<char>) -> Seq<char>,
    names: Seq<Seq<char>>,
)
    requires
        pi_image(t, t2, pi),
        forall|a: Seq<char>, b: Seq<char>|
            known(t, a) && known(t, b) && #[trigger] pi(a) == #[trigger] pi(b) ==> a == b,
        forall|i: int|
            0 <= i < names.len() ==> known(t, #[trigger] names[i]) || free_name_ok(
                t,
                pi,
                names[i],
            ),
    ensures
        rn_names(pi, names).map_values(|b: Seq<char>| alias_or(t2, b)) == names.map_values(
            |b: Seq<char>| alias_or(t, b),
        ),
        names_known(t2, rn_names(pi, names)) <==> names_known(t, names),
{
    assert forall|i: int| 0 <= i < names.len() implies rn_names(pi, names).map_values(
        |b: Seq<char>| alias_or(t2, b),
    )[i] == names.map_values(|b: Seq<char>| alias_or(t, b))[i] && (known(
        t2,
        rn_names(pi, names)[i],
    ) <==> known(t, names[i])) by {
        assert(rn_names(pi, names)[i] == pi(names[i]));
        lemma_alias_or_pi(t, t2, pi, names[i]);
    }
    assert(rn_names(pi, names).map_values(|b: Seq<char>| alias_or(t2, b)) =~= names.map_values(
        |b: Seq<char>| alias_or(t, b),
    ));
    if names_known(t, names) {
        assert forall|i: int| 0 <= i < rn_names(pi, names).len() implies known(
            t2,
            #[trigger] rn_names(pi, names)[i],
        ) by {
            assert(rn_names(pi, names)[i] == pi(names[i]));
            lemma_alias_or_pi(t, t2, pi, names[i]);
        }
    }
    if names_known(t2, rn_names(pi, names)) {
        assert forall|i: int| 0 <= i < names.len() implies known(t, #[trigger] names[i]) by {
            assert(rn_names(pi, names)[i] == pi(names[i]));
            assert(known(t2, rn_names(pi, names)[i]));
            lemma_alias_or_pi(t, t2, pi, names[i]);
        }
    }
}

/// A name a parameter contributes is among the run's generic names.
proof fn lemma_flat_contains(params: Seq<GenericParamV>, j: int, i: int, x: Seq<char>)
    requires
        0 <= j <= i < params.len(),
        param_names(params[i]).contains(x),
    ensures
        flat_names_from(params, j).contains(x),
    decreases i - j,
{
    if j == i {
        let w = choose|w: int|
            0 <= w < param_names(params[i]).len() && param_names(params[i])[w] == x;
        assert(flat_names_from(params, j)[w] == x);
    } else {
        lemma_flat_contains(params, j + 1, i, x);
        let w = choose|w: int|
            0 <= w < flat_names_from(params, j + 1).len() && #[trigger] flat_names_from(
                params,
                j + 1,
            )[w] == x;
        assert(flat_names_from(params, j)[param_names(params[j]).len() + w] == x);
    }
}

/// Normalization is insensitive to a consistent renaming of the generic
/// parameter names: a renaming that is injective on the signature's
/// generic names, rewrites every occurrence of them, and neither moves
/// nor captures any other name of the signature leaves the canonical
/// key unchanged.
pub proof fn lemma_key_insensitive_to_renaming(s: SignatureV, pi: spec_fn(Seq<char>) -> Seq<char>)
    requires
        rename_ok(s, pi),
    ensures
        spec_sig_key(rename_sig(pi, s)) == spec_sig_key(s),
{
    let t = spec_build_table(s.generics.params).0;
    let s2 = rename_sig(pi, s);
    let names = flat_names_from(s.generics.params, 0);
    lemma_flat_names_pi(s.generics.params, pi, 0);
    let k = Set::new(|y: Seq<char>| known(t, y));
    assert forall|i: int| 0 <= i < names.len() implies k.contains(#[trigger] names[i]) by {
        lemma_build_membership((Seq::empty(), 0u32), names, names[i]);
    }
    lemma_pi_build(names, (Seq::empty(), 0u32), (Seq::empty(), 0u32), pi, k);
    let t2 = spec_build_table(s2.generics.params).0;
    assert(t2 == tbl_add_names((Seq::empty(), 0u32), rn_names(pi, names)).0);
    assert(pi_image(t, t2, pi));

    // Every parameter's own names are generic names.
    assert forall|i: int, w: int|
        0 <= i < s.generics.params.len() && 0 <= w < param_names(
            #[trigger] s.generics.params[i],
        ).len() implies known(t, #[trigger] param_names(s.generics.params[i])[w]) by {
        lemma_flat_contains(s.generics.params, 0, i, param_names(s.generics.params[i])[w]);
        lemma_build_membership(
            (Seq::empty(), 0u32),
            names,
            param_names(s.generics.params[i])[w],
        );
    }

    // The normalized parameters agree.
    let nparams1 = s.generics.params.map_values(|p: GenericParamV| norm_param(t, p));
    let nparams2 = s2.generics.params.map_values(|p: GenericParamV| norm_param(t2, p));
    assert(nparams2 == nparams1) by {
        assert forall|i: int| 0 <= i < s.generics.params.len() implies nparams2[i]
            == nparams1[i] by {
            assert(s2.generics.params[i] == rn_param(pi, s.generics.params[i]));
            match s.generics.params[i] {
                GenericParamV::TypeParam { name, bounds } => {
                    assert(param_names(s.generics.params[i])[0] == name);
                    lemma_alias_or_pi(t, t2, pi, name);
                    lemma_rw_toks_pi(t, t2, pi, bounds);
                },
                GenericParamV::LifeParam { name, bounds } => {
                    assert(param_names(s.generics.params[i])[0] == name);
                    lemma_alias_or_pi(t, t2, pi, name);
                    assert forall|w: int| 0 <= w < bounds.len() implies known(
                        t,
                        #[trigger] bounds[w],
                    ) by {
                        assert(param_names(s.generics.params[i])[w + 1] == bounds[w]);
                    }
                    lemma_names_map_pi(t, t2, pi, bounds);
                },
                GenericParamV::ConstParam { toks } => {
                    lemma_rn_toks_fixed(t, pi, toks);
                },
            }
        }
        assert(nparams2 =~= nparams1);
    }

    // The normalized argument lists agree.
    assert(norm_inputs(t2, s2.inputs) == norm_inputs(t, s.inputs)) by {
        assert forall|i: int| 0 <= i < s.inputs.len() implies norm_inputs(t2, s2.inputs)[i]
            == norm_inputs(t, s.inputs)[i] by {
            assert(s2.inputs[i] == rn_arg(pi, s.inputs[i]));
            match s.inputs[i] {
                FnArgV::Receiver(r) => {
                    match r.lifetime {
                        Some(l) => {
                            lemma_alias_or_pi(t, t2, pi, l);
                        },
                        None => {},
                    }
                },
                FnArgV::Typed(pt) => {
                    lemma_rw_toks_pi(t, t2, pi, pt.ty);
                },
            }
        }
        assert(norm_inputs(t2, s2.inputs) =~= norm_inputs(t, s.inputs));
    }

    // The normalized where clauses agree.
    match s.generics.where_clause {
        Some(preds) => {
            lemma_norm_where_pi(t, t2, pi, preds);
        },
        None => {},
    }
    assert(norm_sig_struct(s2) == norm_sig_struct(s));
}

/// The surviving, rewritten predicates agree under an admissible
/// renaming.
proof fn lemma_norm_where_pi(
    t: TblV,
    t2: TblV,
    pi: spec_fn(Seq<char>) -> Seq<char>,
    preds: Seq<WherePredicateV>,
)
    requires
        pi_image(t, t2, pi),
        forall|a: Seq<char>, b: Seq<char>|
            known(t, a) && known(t, b) && #[trigger] pi(a) == #[trigger] pi(b) ==> a == b,
        forall|i: int|
            0 <= i < preds.len() ==> match #[trigger] preds[i] {
                WherePredicateV::TypePred { lifetimes, bounded_ty, bounds } => toks_rn_ok(
                    t,
                    pi,
                    bounded_ty,
                ) && toks_rn_ok(t, pi, bounds) && (forall|j: int|
                    0 <= j < lifetimes.len() ==> free_name_ok(
                        t,
                        pi,
                        (#[trigger] lifetimes[j]).name,
                    ) && names_rn_ok(t, pi, lifetimes[j].bounds)),
                WherePredicateV::LifePred { name, bounds } => free_name_ok(t, pi, name)
                    && names_rn_ok(t, pi, bounds),
                WherePredicateV::EqPred { toks } => toks_rn_ok(t, pi, toks) && ty_toks_free(
                    t,
                    toks,
                ),
            },
    ensures
        norm_where(t2, preds.map_values(|p: WherePredicateV| rn_pred(pi, p))) == norm_where(
            t,
            preds,
        ),
    decreases preds.len(),
{
    let mapped = preds.map_values(|p: WherePredicateV| rn_pred(pi, p));
    if preds.len() > 0 {
        let p = preds[0];
        assert(mapped[0] == rn_pred(pi, p));
        assert(mapped.drop_first() =~= preds.drop_first().map_values(
            |q: WherePredicateV| rn_pred(pi, q),
        ));
        assert forall|i: int| 0 <= i < preds.drop_first().len() implies match #[trigger] preds
            .drop_first()[i] {
            WherePredicateV::TypePred { lifetimes, bounded_ty, bounds } => toks_rn_ok(
                t,
                pi,
                bounded_ty,
            ) && toks_rn_ok(t, pi, bounds) && (forall|j: int|
                0 <= j < lifetimes.len() ==> free_name_ok(
                    t,
                    pi,
                    (#[trigger] lifetimes[j]).name,
                ) && names_rn_ok(t, pi, lifetimes[j].bounds)),
            WherePredicateV::LifePred { name, bounds } => free_name_ok(t, pi, name)
                && names_rn_ok(t, pi, bounds),
            WherePredicateV::EqPred { toks } => toks_rn_ok(t, pi, toks) && ty_toks_free(
                t,
                toks,
            ),
        } by {
            assert(preds.drop_first()[i] == preds[i + 1]);
        }
        lemma_norm_where_pi(t, t2, pi, preds.drop_first());
        // Kept-or-dropped agrees, and the rewritten forms agree.
        match p {
            WherePredicateV::TypePred { lifetimes, bounded_ty, bounds } => {
                assert(pred_kept(t2, rn_pred(pi, p)) == pred_kept(t, p)) by {
                    let nls = rn_pred(pi, p)->TypePred_lifetimes;
                    assert forall|j: int| 0 <= j < lifetimes.len() implies (known(
                        t2,
                        (#[trigger] nls[j]).name,
                    ) <==> known(t, lifetimes[j].name)) && (names_known(t2, nls[j].bounds)
                        <==> names_known(t, lifetimes[j].bounds)) by {
                        assert(nls[j].name == pi(lifetimes[j].name));
                        assert(nls[j].bounds == rn_names(pi, lifetimes[j].bounds));
                        lemma_alias_or_pi(t, t2, pi, lifetimes[j].name);
                        lemma_names_map_pi(t, t2, pi, lifetimes[j].bounds);
                    }
                    assert(ty_toks_known(t2, rn_toks(pi, bounded_ty)) == ty_toks_known(
                        t,
                        bounded_ty,
                    )) by {
                        if ty_toks_known(t, bounded_ty) {
                            assert forall|w: int| 0 <= w < rn_toks(pi, bounded_ty).len() implies
                                match #[trigger] rn_toks(pi, bounded_ty)[w] {
                                TokV::Ident(x) => known(t2, x),
                                TokV::Life(x) => known(t2, x),
                                TokV::Punct(x) => true,
                                TokV::Lit(x) => true,
                                TokV::Kw(kk) => true,
                            } by {
                                assert(rn_toks(pi, bounded_ty)[w] == rn_tok(pi, bounded_ty[w]));
                                match bounded_ty[w] {
                                    TokV::Ident(x) => {
                                        lemma_alias_or_pi(t, t2, pi, x);
                                    },
                                    TokV::Life(x) => {
                                        lemma_alias_or_pi(t, t2, pi, x);
                                    },
                                    TokV::Punct(x) => {},
                                    TokV::Lit(x) => {},
                                    TokV::Kw(kk) => {},
                                }
                            }
                        }
                        if ty_toks_known(t2, rn_toks(pi, bounded_ty)) {
                            assert forall|w: int| 0 <= w < bounded_ty.len() implies match
                                #[trigger] bounded_ty[w] {
                                TokV::Ident(x) => known(t, x),
                                TokV::Life(x) => known(t, x),
                                TokV::Punct(x) => true,
                                TokV::Lit(x) => true,
                                TokV::Kw(kk) => true,
                            } by {
                                assert(rn_toks(pi, bounded_ty)[w] == rn_tok(pi, bounded_ty[w]));
                                match bounded_ty[w] {
                                    TokV::Ident(x) => {
                                        lemma_alias_or_pi(t, t2, pi, x);
                                    },
                                    TokV::Life(x) => {
                                        lemma_alias_or_pi(t, t2, pi, x);
                                    },
                                    TokV::Punct(x) => {},
                                    TokV::Lit(x) => {},
                                    TokV::Kw(kk) => {},
                                }
                            }
                        }
                    }
                }
                if pred_kept(t, p) {
                    assert(norm_pred(t2, rn_pred(pi, p)) == norm_pred(t, p)) by {
                        lemma_rw_toks_pi(t, t2, pi, bounded_ty);
                        lemma_rw_toks_pi(t, t2, pi, bounds);
                        let nls = rn_pred(pi, p)->TypePred_lifetimes;
                        let m2 = nls.map_values(
                            |l: LifetimeDefV|
                                LifetimeDefV {
                                    name: alias_or(t2, l.name),
                                    bounds: l.bounds.map_values(
                                        |b: Seq<char>| alias_or(t2, b),
                                    ),
                                },
                        );
                        let m1 = lifetimes.map_values(
                            |l: LifetimeDefV|
                                LifetimeDefV {
                                    name: alias_or(t, l.name),
                                    bounds: l.bounds.map_values(|b: Seq<char>| alias_or(t, b)),
                                },
                        );
                        assert forall|j: int| 0 <= j < lifetimes.len() implies #[trigger] m2[j]
                            == m1[j] by {
                            assert(nls[j].name == pi(lifetimes[j].name));
                            assert(nls[j].bounds == rn_names(pi, lifetimes[j].bounds));
                            lemma_alias_or_pi(t, t2, pi, lifetimes[j].name);
                            lemma_names_map_pi(t, t2, pi, lifetimes[j].bounds);
                        }
                        assert(m2 =~= m1);
                    }
                }
            },
            WherePredicateV::LifePred { name, bounds } => {
                lemma_alias_or_pi(t, t2, pi, name);
                lemma_names_map_pi(t, t2, pi, bounds);
            },
            WherePredicateV::EqPred { toks } => {
                lemma_rn_toks_fixed(t, pi, toks);
            },
        }
        assert(norm_where(t2, mapped) =~= norm_where(t, preds));
    } else {
        assert(mapped =~= Seq::<WherePredicateV>::empty());
    }
}

} // verus!
