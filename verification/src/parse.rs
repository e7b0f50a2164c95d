//! The signature parser: a function declaration read out of a token
//! list, in the extended grammar that admits a default value after an
//! argument's type, a trailing variadic marker, and a bare type-only
//! argument.
//!
//! Soundness is stated as reconstruction: whatever parses, rendered
//! back, is exactly the input token run.  The segment splitters cut at
//! top-level separators, where top level means outside every bracket
//! pair; a default-value expression keeps comparison operators inside
//! brackets, as the host compiler's own syntax checking forces anyway.

use vstd::prelude::*;

use crate::model::Assign;
use crate::model::Attr;
use crate::model::AttrV;
use crate::model::FnArg;
use crate::model::FnArgV;
use crate::model::GenericParam;
use crate::model::GenericParamV;
use crate::model::Generics;
use crate::model::ItemFn;
use crate::model::ItemFnV;
use crate::model::Kw;
use crate::model::LifetimeDef;
use crate::model::LifetimeDefV;
use crate::model::PatType;
use crate::model::PatTypeV;
use crate::model::Receiver;
use crate::model::ReceiverV;
use crate::model::Signature;
use crate::model::SignatureV;
use crate::model::Tok;
use crate::model::TokV;
use crate::model::WherePredicate;
use crate::model::WherePredicateV;
use crate::model::dup_toks;

verus! {

/// Why a declaration failed to parse.
#[derive(Clone, Copy, PartialEq, Eq, Structural, Debug)]
pub enum ParseErrorKind {
    /// A required token (brace, bracket, colon, keyword) is absent or
    /// another stands in its place.
    Expected,
    /// A second receiver argument.
    SecondReceiver,
    /// A receiver argument after the first position.
    ReceiverNotFirst,
    /// A variadic marker that is not the last argument.
    VariadicNotLast,
    /// An empty piece where the grammar needs one token or more.
    Empty,
}

/// A parse failure, citing the offending token position.
#[derive(Debug)]
pub struct ParseError {
    pub pos: usize,
    pub kind: ParseErrorKind,
}

/// Segments joined by a comma token.
pub open spec fn joined(segs: Seq<Seq<TokV>>) -> Seq<TokV>
    decreases segs.len(),
{
    if segs.len() == 0 {
        Seq::empty()
    } else if segs.len() == 1 {
        segs[0]
    } else {
        segs[0] + seq![TokV::Punct(","@)] + joined(segs.drop_first())
    }
}

/// The rendering of one attribute.
pub open spec fn render_attr(a: AttrV) -> Seq<TokV> {
    seq![TokV::Punct("#"@)] + (if a.inner {
        seq![TokV::Punct("!"@)]
    } else {
        Seq::empty()
    }) + seq![TokV::Punct("["@)] + a.path + a.tail + seq![TokV::Punct("]"@)]
}

/// The rendering of a run of attributes.
pub open spec fn render_attrs(attrs: Seq<AttrV>) -> Seq<TokV>
    decreases attrs.len(),
{
    if attrs.len() == 0 {
        Seq::empty()
    } else {
        render_attr(attrs[0]) + render_attrs(attrs.drop_first())
    }
}

/// Lifetime bounds joined by plus tokens.
pub open spec fn render_life_bounds(bounds: Seq<Seq<char>>) -> Seq<TokV>
    decreases bounds.len(),
{
    if bounds.len() == 0 {
        Seq::empty()
    } else if bounds.len() == 1 {
        seq![TokV::Life(bounds[0])]
    } else {
        seq![TokV::Life(bounds[0]), TokV::Punct("+"@)] + render_life_bounds(bounds.drop_first())
    }
}

/// The rendering of one generic parameter.
pub open spec fn render_param(p: GenericParamV) -> Seq<TokV> {
    match p {
        GenericParamV::TypeParam { name, bounds } => seq![TokV::Ident(name)] + (if bounds.len()
            > 0 {
            seq![TokV::Punct(":"@)] + bounds
        } else {
            Seq::empty()
        }),
        GenericParamV::LifeParam { name, bounds } => seq![TokV::Life(name)] + (if bounds.len()
            > 0 {
            seq![TokV::Punct(":"@)] + render_life_bounds(bounds)
        } else {
            Seq::empty()
        }),
        GenericParamV::ConstParam { toks } => toks,
    }
}

/// The rendering of a parameter list, brackets included; a declaration
/// with no parameters renders no brackets.
pub open spec fn render_params(params: Seq<GenericParamV>) -> Seq<TokV> {
    if params.len() == 0 {
        Seq::empty()
    } else {
        seq![TokV::Punct("<"@)] + joined(params.map_values(|p: GenericParamV| render_param(p)))
            + seq![TokV::Punct(">"@)]
    }
}

/// The rendering of one bound-lifetime binder.
pub open spec fn render_ld(l: LifetimeDefV) -> Seq<TokV> {
    seq![TokV::Life(l.name)] + (if l.bounds.len() > 0 {
        seq![TokV::Punct(":"@)] + render_life_bounds(l.bounds)
    } else {
        Seq::empty()
    })
}

/// The rendering of one where-clause predicate.
pub open spec fn render_pred(p: WherePredicateV) -> Seq<TokV> {
    match p {
        WherePredicateV::TypePred { lifetimes, bounded_ty, bounds } => (if lifetimes.len() > 0 {
            seq![TokV::Ident("for"@), TokV::Punct("<"@)] + joined(
                lifetimes.map_values(|l: LifetimeDefV| render_ld(l)),
            ) + seq![TokV::Punct(">"@)]
        } else {
            Seq::empty()
        }) + bounded_ty + seq![TokV::Punct(":"@)] + bounds,
        WherePredicateV::LifePred { name, bounds } => seq![TokV::Life(name), TokV::Punct(":"@)]
            + render_life_bounds(bounds),
        WherePredicateV::EqPred { toks } => toks,
    }
}

/// The rendering of one argument: a receiver's shape, or attributes,
/// pattern and colon (absent for a type-only argument), type, and the
/// optional inline default.
pub open spec fn render_arg(a: FnArgV) -> Seq<TokV> {
    match a {
        FnArgV::Receiver(r) => (if r.reference {
            seq![TokV::Punct("&"@)]
        } else {
            Seq::empty()
        }) + (match r.lifetime {
            Some(l) => seq![TokV::Life(l)],
            None => Seq::empty(),
        }) + (if r.mutable {
            seq![TokV::Ident("mut"@)]
        } else {
            Seq::empty()
        }) + seq![TokV::Ident("self"@)],
        FnArgV::Typed(pt) => render_attrs(pt.attrs) + (if pt.pat.len() > 0 {
            pt.pat + seq![TokV::Punct(":"@)]
        } else {
            Seq::empty()
        }) + pt.ty + (match pt.assign {
            Some(asn) => seq![TokV::Punct("="@)] + asn.right,
            None => Seq::empty(),
        }),
    }
}

/// The rendering of the argument list with the variadic marker.
pub open spec fn render_args(args: Seq<FnArgV>, variadic: bool) -> Seq<TokV> {
    let base = joined(args.map_values(|a: FnArgV| render_arg(a)));
    if variadic {
        if args.len() > 0 {
            base + seq![TokV::Punct(","@), TokV::Punct("..."@)]
        } else {
            seq![TokV::Punct("..."@)]
        }
    } else {
        base
    }
}

/// The rendering of a callable's qualifiers.
pub open spec fn render_quals(
    constness: bool,
    asyncness: bool,
    unsafety: bool,
    abi: Option<Seq<TokV>>,
) -> Seq<TokV> {
    (if constness {
        seq![TokV::Kw(Kw::KwConst)]
    } else {
        Seq::empty()
    }) + (if asyncness {
        seq![TokV::Kw(Kw::KwAsync)]
    } else {
        Seq::empty()
    }) + (if unsafety {
        seq![TokV::Kw(Kw::KwUnsafe)]
    } else {
        Seq::empty()
    }) + (match abi {
        Some(a) => a,
        None => Seq::empty(),
    })
}

/// The rendering of a whole signature.
pub open spec fn render_signature(s: SignatureV) -> Seq<TokV> {
    render_quals(s.constness, s.asyncness, s.unsafety, s.abi) + seq![
        TokV::Ident("fn"@),
        TokV::Ident(s.ident),
    ] + render_params(s.generics.params)
        + seq![TokV::Punct("("@)] + render_args(s.inputs, s.variadic) + seq![TokV::Punct(")"@)]
        + (match s.output {
        Some(o) => seq![TokV::Punct("->"@)] + o,
        None => Seq::empty(),
    }) + (match s.generics.where_clause {
        Some(preds) => seq![TokV::Ident("where"@)] + joined(
            preds.map_values(|p: WherePredicateV| render_pred(p)),
        ),
        None => Seq::empty(),
    })
}

/// The attributes of one style.
pub open spec fn attrs_of(attrs: Seq<AttrV>, inner: bool) -> Seq<AttrV>
    decreases attrs.len(),
{
    if attrs.len() == 0 {
        Seq::empty()
    } else {
        (if attrs[0].inner == inner {
            seq![attrs[0]]
        } else {
            Seq::empty()
        }) + attrs_of(attrs.drop_first(), inner)
    }
}

/// The rendering of a whole declaration: outer attributes, visibility,
/// signature, and the braced body with its inner attributes first.
pub open spec fn render_item_fn(f: ItemFnV) -> Seq<TokV> {
    render_attrs(attrs_of(f.attrs, false)) + f.vis + render_signature(f.sig) + seq![
        TokV::Punct("{"@),
    ] + render_attrs(attrs_of(f.attrs, true)) + f.block + seq![TokV::Punct("}"@)]
}

/// The punctuation and keyword literals of the grammar are pairwise
/// distinct as character runs.
proof fn lemma_tok_lits()
    ensures
        "("@ != ")"@,
        "("@ != "["@,
        "("@ != "]"@,
        "("@ != "{"@,
        "("@ != "}"@,
        "("@ != "<"@,
        "("@ != ">"@,
        "("@ != ","@,
        "("@ != ":"@,
        "("@ != "="@,
        "("@ != "#"@,
        "("@ != "!"@,
        "("@ != "&"@,
        "("@ != "+"@,
        "("@ != "..."@,
        "("@ != "->"@,
        "("@ != "::"@,
        "("@ != "fn"@,
        "("@ != "pub"@,
        "("@ != "where"@,
        "("@ != "self"@,
        "("@ != "mut"@,
        ")"@ != "["@,
        ")"@ != "]"@,
        ")"@ != "{"@,
        ")"@ != "}"@,
        ")"@ != "<"@,
        ")"@ != ">"@,
        ")"@ != ","@,
        ")"@ != ":"@,
        ")"@ != "="@,
        ")"@ != "#"@,
        ")"@ != "!"@,
        ")"@ != "&"@,
        ")"@ != "+"@,
        ")"@ != "..."@,
        ")"@ != "->"@,
        ")"@ != "::"@,
        ")"@ != "fn"@,
        ")"@ != "pub"@,
        ")"@ != "where"@,
        ")"@ != "self"@,
        ")"@ != "mut"@,
        "["@ != "]"@,
        "["@ != "{"@,
        "["@ != "}"@,
        "["@ != "<"@,
        "["@ != ">"@,
        "["@ != ","@,
        "["@ != ":"@,
        "["@ != "="@,
        "["@ != "#"@,
        "["@ != "!"@,
        "["@ != "&"@,
        "["@ != "+"@,
        "["@ != "..."@,
        "["@ != "->"@,
        "["@ != "::"@,
        "["@ != "fn"@,
        "["@ != "pub"@,
        "["@ != "where"@,
        "["@ != "self"@,
        "["@ != "mut"@,
        "]"@ != "{"@,
        "]"@ != "}"@,
        "]"@ != "<"@,
        "]"@ != ">"@,
        "]"@ != ","@,
        "]"@ != ":"@,
        "]"@ != "="@,
        "]"@ != "#"@,
        "]"@ != "!"@,
        "]"@ != "&"@,
        "]"@ != "+"@,
        "]"@ != "..."@,
        "]"@ != "->"@,
        "]"@ != "::"@,
        "]"@ != "fn"@,
        "]"@ != "pub"@,
        "]"@ != "where"@,
        "]"@ != "self"@,
        "]"@ != "mut"@,
        "{"@ != "}"@,
        "{"@ != "<"@,
        "{"@ != ">"@,
        "{"@ != ","@,
        "{"@ != ":"@,
        "{"@ != "="@,
        "{"@ != "#"@,
        "{"@ != "!"@,
        "{"@ != "&"@,
        "{"@ != "+"@,
        "{"@ != "..."@,
        "{"@ != "->"@,
        "{"@ != "::"@,
        "{"@ != "fn"@,
        "{"@ != "pub"@,
        "{"@ != "where"@,
        "{"@ != "self"@,
        "{"@ != "mut"@,
        "}"@ != "<"@,
        "}"@ != ">"@,
        "}"@ != ","@,
        "}"@ != ":"@,
        "}"@ != "="@,
        "}"@ != "#"@,
        "}"@ != "!"@,
        "}"@ != "&"@,
        "}"@ != "+"@,
        "}"@ != "..."@,
        "}"@ != "->"@,
        "}"@ != "::"@,
        "}"@ != "fn"@,
        "}"@ != "pub"@,
        "}"@ != "where"@,
        "}"@ != "self"@,
        "}"@ != "mut"@,
        "<"@ != ">"@,
        "<"@ != ","@,
        "<"@ != ":"@,
        "<"@ != "="@,
        "<"@ != "#"@,
        "<"@ != "!"@,
        "<"@ != "&"@,
        "<"@ != "+"@,
        "<"@ != "..."@,
        "<"@ != "->"@,
        "<"@ != "::"@,
        "<"@ != "fn"@,
        "<"@ != "pub"@,
        "<"@ != "where"@,
        "<"@ != "self"@,
        "<"@ != "mut"@,
        ">"@ != ","@,
        ">"@ != ":"@,
        ">"@ != "="@,
        ">"@ != "#"@,
        ">"@ != "!"@,
        ">"@ != "&"@,
        ">"@ != "+"@,
        ">"@ != "..."@,
        ">"@ != "->"@,
        ">"@ != "::"@,
        ">"@ != "fn"@,
        ">"@ != "pub"@,
        ">"@ != "where"@,
        ">"@ != "self"@,
        ">"@ != "mut"@,
        ","@ != ":"@,
        ","@ != "="@,
        ","@ != "#"@,
        ","@ != "!"@,
        ","@ != "&"@,
        ","@ != "+"@,
        ","@ != "..."@,
        ","@ != "->"@,
        ","@ != "::"@,
        ","@ != "fn"@,
        ","@ != "pub"@,
        ","@ != "where"@,
        ","@ != "self"@,
        ","@ != "mut"@,
        ":"@ != "="@,
        ":"@ != "#"@,
        ":"@ != "!"@,
        ":"@ != "&"@,
        ":"@ != "+"@,
        ":"@ != "..."@,
        ":"@ != "->"@,
        ":"@ != "::"@,
        ":"@ != "fn"@,
        ":"@ != "pub"@,
        ":"@ != "where"@,
        ":"@ != "self"@,
        ":"@ != "mut"@,
        "="@ != "#"@,
        "="@ != "!"@,
        "="@ != "&"@,
        "="@ != "+"@,
        "="@ != "..."@,
        "="@ != "->"@,
        "="@ != "::"@,
        "="@ != "fn"@,
        "="@ != "pub"@,
        "="@ != "where"@,
        "="@ != "self"@,
        "="@ != "mut"@,
        "#"@ != "!"@,
        "#"@ != "&"@,
        "#"@ != "+"@,
        "#"@ != "..."@,
        "#"@ != "->"@,
        "#"@ != "::"@,
        "#"@ != "fn"@,
        "#"@ != "pub"@,
        "#"@ != "where"@,
        "#"@ != "self"@,
        "#"@ != "mut"@,
        "!"@ != "&"@,
        "!"@ != "+"@,
        "!"@ != "..."@,
        "!"@ != "->"@,
        "!"@ != "::"@,
        "!"@ != "fn"@,
        "!"@ != "pub"@,
        "!"@ != "where"@,
        "!"@ != "self"@,
        "!"@ != "mut"@,
        "&"@ != "+"@,
        "&"@ != "..."@,
        "&"@ != "->"@,
        "&"@ != "::"@,
        "&"@ != "fn"@,
        "&"@ != "pub"@,
        "&"@ != "where"@,
        "&"@ != "self"@,
        "&"@ != "mut"@,
        "+"@ != "..."@,
        "+"@ != "->"@,
        "+"@ != "::"@,
        "+"@ != "fn"@,
        "+"@ != "pub"@,
        "+"@ != "where"@,
        "+"@ != "self"@,
        "+"@ != "mut"@,
        "..."@ != "->"@,
        "..."@ != "::"@,
        "..."@ != "fn"@,
        "..."@ != "pub"@,
        "..."@ != "where"@,
        "..."@ != "self"@,
        "..."@ != "mut"@,
        "->"@ != "::"@,
        "->"@ != "fn"@,
        "->"@ != "pub"@,
        "->"@ != "where"@,
        "->"@ != "self"@,
        "->"@ != "mut"@,
        "::"@ != "fn"@,
        "::"@ != "pub"@,
        "::"@ != "where"@,
        "::"@ != "self"@,
        "::"@ != "mut"@,
        "fn"@ != "pub"@,
        "fn"@ != "where"@,
        "fn"@ != "self"@,
        "fn"@ != "mut"@,
        "pub"@ != "where"@,
        "pub"@ != "self"@,
        "pub"@ != "mut"@,
        "where"@ != "self"@,
        "where"@ != "mut"@,
        "self"@ != "mut"@,
{
    reveal_strlit("(");
    reveal_strlit(")");
    reveal_strlit("[");
    reveal_strlit("]");
    reveal_strlit("{");
    reveal_strlit("}");
    reveal_strlit("<");
    reveal_strlit(">");
    reveal_strlit(",");
    reveal_strlit(":");
    reveal_strlit("=");
    reveal_strlit("#");
    reveal_strlit("!");
    reveal_strlit("&");
    reveal_strlit("+");
    reveal_strlit("...");
    reveal_strlit("->");
    reveal_strlit("::");
    reveal_strlit("fn");
    reveal_strlit("pub");
    reveal_strlit("where");
    reveal_strlit("self");
    reveal_strlit("mut");
    assert("("@.len() == 1);
    assert("("@[0] == '(');
    assert(")"@.len() == 1);
    assert(")"@[0] == ')');
    assert("["@.len() == 1);
    assert("["@[0] == '[');
    assert("]"@.len() == 1);
    assert("]"@[0] == ']');
    assert("{"@.len() == 1);
    assert("{"@[0] == '{');
    assert("}"@.len() == 1);
    assert("}"@[0] == '}');
    assert("<"@.len() == 1);
    assert("<"@[0] == '<');
    assert(">"@.len() == 1);
    assert(">"@[0] == '>');
    assert(","@.len() == 1);
    assert(","@[0] == ',');
    assert(":"@.len() == 1);
    assert(":"@[0] == ':');
    assert("="@.len() == 1);
    assert("="@[0] == '=');
    assert("#"@.len() == 1);
    assert("#"@[0] == '#');
    assert("!"@.len() == 1);
    assert("!"@[0] == '!');
    assert("&"@.len() == 1);
    assert("&"@[0] == '&');
    assert("+"@.len() == 1);
    assert("+"@[0] == '+');
    assert("..."@.len() == 3);
    assert("..."@[0] == '.');
    assert("->"@.len() == 2);
    assert("->"@[0] == '-');
    assert("::"@.len() == 2);
    assert("::"@[0] == ':');
    assert("fn"@.len() == 2);
    assert("fn"@[0] == 'f');
    assert("pub"@.len() == 3);
    assert("pub"@[0] == 'p');
    assert("where"@.len() == 5);
    assert("where"@[0] == 'w');
    assert("self"@.len() == 4);
    assert("self"@[0] == 's');
    assert("mut"@.len() == 3);
    assert("mut"@[0] == 'm');
}

/// The handful of literal distinctions the attribute and argument
/// readers rest on.
proof fn lemma_tok_marks()
    ensures
        "["@ != "!"@,
        "["@ != "]"@,
        "#"@ != "!"@,
        "#"@ != "["@,
        "#"@ != "&"@,
        "#"@ != "..."@,
        "&"@ != "..."@,
        ":"@ != "<"@,
        ","@ != "..."@,
        "("@ != "<"@,
        "{"@ != "#"@,
        "}"@ != "#"@,
{
    reveal_strlit("[");
    reveal_strlit("!");
    reveal_strlit("]");
    reveal_strlit("#");
    reveal_strlit("&");
    reveal_strlit("...");
    reveal_strlit(":");
    reveal_strlit("<");
    reveal_strlit(",");
    reveal_strlit("(");
    reveal_strlit("{");
    reveal_strlit("}");
    assert("["@.len() == 1 && "["@[0] == '[');
    assert("!"@.len() == 1 && "!"@[0] == '!');
    assert("]"@.len() == 1 && "]"@[0] == ']');
    assert("#"@.len() == 1 && "#"@[0] == '#');
    assert("&"@.len() == 1 && "&"@[0] == '&');
    assert("..."@.len() == 3);
    assert(":"@.len() == 1 && ":"@[0] == ':');
    assert("<"@.len() == 1 && "<"@[0] == '<');
    assert(","@.len() == 1 && ","@[0] == ',');
    assert("("@.len() == 1 && "("@[0] == '(');
    assert("{"@.len() == 1 && "{"@[0] == '{');
    assert("}"@.len() == 1 && "}"@[0] == '}');
}

/// The nesting contribution of one token for one bracket kind.
pub open spec fn kdelta(t: TokV, ol: Seq<char>, cl: Seq<char>) -> int {
    if t == TokV::Punct(ol) {
        1
    } else if t == TokV::Punct(cl) {
        -1
    } else {
        0
    }
}

/// The net nesting depth of a run for one bracket kind.
pub open spec fn kdepth(s: Seq<TokV>, ol: Seq<char>, cl: Seq<char>) -> int
    decreases s.len(),
{
    if s.len() == 0 {
        0
    } else {
        kdepth(s.drop_last(), ol, cl) + kdelta(s.last(), ol, cl)
    }
}

/// The nesting contribution of one token, all four bracket kinds counted.
pub open spec fn cdelta(t: TokV) -> int {
    kdelta(t, "("@, ")"@) + kdelta(t, "["@, "]"@) + kdelta(t, "{"@, "}"@) + kdelta(
        t,
        "<"@,
        ">"@,
    )
}

/// The net nesting depth of a run, all four bracket kinds counted.
pub open spec fn cdepth(s: Seq<TokV>) -> int
    decreases s.len(),
{
    if s.len() == 0 {
        0
    } else {
        cdepth(s.drop_last()) + cdelta(s.last())
    }
}

/// The combined contribution of an opener, a closer, and any other
/// token.
proof fn lemma_cdelta(t: TokV)
    ensures
        (t == TokV::Punct("("@) || t == TokV::Punct("["@) || t == TokV::Punct("{"@) || t
            == TokV::Punct("<"@)) ==> cdelta(t) == 1,
        (t == TokV::Punct(")"@) || t == TokV::Punct("]"@) || t == TokV::Punct("}"@) || t
            == TokV::Punct(">"@)) ==> cdelta(t) == -1,
        !(t == TokV::Punct("("@) || t == TokV::Punct("["@) || t == TokV::Punct("{"@) || t
            == TokV::Punct("<"@) || t == TokV::Punct(")"@) || t == TokV::Punct("]"@) || t
            == TokV::Punct("}"@) || t == TokV::Punct(">"@)) ==> kdelta(t, "("@, ")"@) == 0
            && kdelta(t, "["@, "]"@) == 0 && kdelta(t, "{"@, "}"@) == 0 && kdelta(
            t,
            "<"@,
            ">"@,
        ) == 0,
{
    lemma_tok_lits();
}

/// Extending a run by one token extends its depth by that token's
/// contribution, for one kind and for all four.
proof fn lemma_depth_take(s: Seq<TokV>, i: int, ol: Seq<char>, cl: Seq<char>)
    requires
        0 <= i < s.len(),
    ensures
        kdepth(s.take(i + 1), ol, cl) == kdepth(s.take(i), ol, cl) + kdelta(s[i], ol, cl),
        cdepth(s.take(i + 1)) == cdepth(s.take(i)) + cdelta(s[i]),
{
    assert(s.take(i + 1).drop_last() =~= s.take(i));
    assert(s.take(i + 1).last() == s[i]);
}

/// A run is closed for one bracket kind: no prefix dips below the
/// surface and the whole run returns to it.
pub open spec fn kclosed(s: Seq<TokV>, ol: Seq<char>, cl: Seq<char>) -> bool {
    kdepth(s, ol, cl) == 0 && forall|i: int|
        0 <= i <= s.len() ==> kdepth(#[trigger] s.take(i), ol, cl) >= 0
}

/// A run closed in every bracket kind.
pub open spec fn balanced(s: Seq<TokV>) -> bool {
    kclosed(s, "("@, ")"@) && kclosed(s, "["@, "]"@) && kclosed(s, "{"@, "}"@) && kclosed(
        s,
        "<"@,
        ">"@,
    )
}

/// The combined depth is the sum of the four per-kind depths.
proof fn lemma_cdepth_sum(s: Seq<TokV>)
    ensures
        cdepth(s) == kdepth(s, "("@, ")"@) + kdepth(s, "["@, "]"@) + kdepth(s, "{"@, "}"@)
            + kdepth(s, "<"@, ">"@),
    decreases s.len(),
{
    if s.len() > 0 {
        lemma_cdepth_sum(s.drop_last());
    }
}

/// In a balanced run every prefix sits at or above the surface.
proof fn lemma_balanced_cdepth(s: Seq<TokV>)
    requires
        balanced(s),
    ensures
        cdepth(s) == 0,
        forall|i: int| 0 <= i <= s.len() ==> cdepth(#[trigger] s.take(i)) >= 0,
{
    lemma_cdepth_sum(s);
    assert forall|i: int| 0 <= i <= s.len() implies cdepth(#[trigger] s.take(i)) >= 0 by {
        lemma_cdepth_sum(s.take(i));
    }
}

/// Depth adds across concatenation, for one kind and for all four.
proof fn lemma_depth_add(a: Seq<TokV>, b: Seq<TokV>, ol: Seq<char>, cl: Seq<char>)
    ensures
        kdepth(a + b, ol, cl) == kdepth(a, ol, cl) + kdepth(b, ol, cl),
        cdepth(a + b) == cdepth(a) + cdepth(b),
    decreases b.len(),
{
    if b.len() == 0 {
        assert(a + b =~= a);
    } else {
        assert((a + b).drop_last() =~= a + b.drop_last());
        assert((a + b).last() == b.last());
        lemma_depth_add(a, b.drop_last(), ol, cl);
    }
}

/// Closed runs concatenate to a closed run, for one kind.
proof fn lemma_kclosed_add(a: Seq<TokV>, b: Seq<TokV>, ol: Seq<char>, cl: Seq<char>)
    requires
        kclosed(a, ol, cl),
        kclosed(b, ol, cl),
    ensures
        kclosed(a + b, ol, cl),
{
    lemma_depth_add(a, b, ol, cl);
    assert forall|i: int| 0 <= i <= (a + b).len() implies kdepth(
        #[trigger] (a + b).take(i),
        ol,
        cl,
    ) >= 0 by {
        if i <= a.len() {
            assert((a + b).take(i) =~= a.take(i));
        } else {
            assert((a + b).take(i) =~= a + b.take(i - a.len()));
            lemma_depth_add(a, b.take(i - a.len()), ol, cl);
        }
    }
}

/// Balanced runs concatenate to a balanced run.
proof fn lemma_balanced_add(a: Seq<TokV>, b: Seq<TokV>)
    requires
        balanced(a),
        balanced(b),
    ensures
        balanced(a + b),
{
    lemma_kclosed_add(a, b, "("@, ")"@);
    lemma_kclosed_add(a, b, "["@, "]"@);
    lemma_kclosed_add(a, b, "{"@, "}"@);
    lemma_kclosed_add(a, b, "<"@, ">"@);
}

/// A single token that is no bracket forms a balanced run.
proof fn lemma_balanced_atom(t: TokV)
    requires
        cdelta(t) == 0,
    ensures
        balanced(seq![t]),
{
    lemma_cdelta(t);
    reveal_with_fuel(kdepth, 3);
    let s = seq![t];
    assert(s.drop_last() =~= Seq::<TokV>::empty());
    assert(s.last() == t);
    assert(kdepth(s, "("@, ")"@) == kdelta(t, "("@, ")"@));
    assert(kdepth(s, "["@, "]"@) == kdelta(t, "["@, "]"@));
    assert(kdepth(s, "{"@, "}"@) == kdelta(t, "{"@, "}"@));
    assert(kdepth(s, "<"@, ">"@) == kdelta(t, "<"@, ">"@));
    assert forall|i: int| 0 <= i <= 1 implies kdepth(#[trigger] s.take(i), "("@, ")"@) >= 0
        && kdepth(s.take(i), "["@, "]"@) >= 0 && kdepth(s.take(i), "{"@, "}"@) >= 0 && kdepth(
        s.take(i),
        "<"@,
        ">"@,
    ) >= 0 by {
        if i == 0 {
            assert(s.take(i) =~= Seq::<TokV>::empty());
        } else {
            assert(s.take(i) =~= s);
        }
    }
}

/// A piece that the splitters pass through whole: balanced, with every
/// comma inside a bracket pair.
pub open spec fn piece(s: Seq<TokV>) -> bool {
    balanced(s) && forall|i: int|
        0 <= i < s.len() && s[i] == TokV::Punct(","@) ==> cdepth(#[trigger] s.take(i)) > 0
}

/// Pieces concatenate to a piece.
proof fn lemma_piece_add(a: Seq<TokV>, b: Seq<TokV>)
    requires
        piece(a),
        piece(b),
    ensures
        piece(a + b),
{
    lemma_balanced_add(a, b);
    lemma_balanced_cdepth(a);
    assert forall|i: int|
        0 <= i < (a + b).len() && (a + b)[i] == TokV::Punct(","@) implies cdepth(
        #[trigger] (a + b).take(i),
    ) > 0 by {
        if i < a.len() {
            assert((a + b).take(i) =~= a.take(i));
        } else {
            assert((a + b).take(i) =~= a + b.take(i - a.len()));
            lemma_depth_add(a, b.take(i - a.len()), "("@, ")"@);
            lemma_balanced_cdepth(b);
        }
    }
}

/// The comma splitter as a function of the tokens: segments are cut at
/// the commas met at depth zero, all four bracket kinds counted.
pub open spec fn sp_split(s: Seq<TokV>, depth: int, cur: Seq<TokV>) -> Seq<Seq<TokV>>
    decreases s.len(),
{
    if s.len() == 0 {
        seq![cur]
    } else if depth == 0 && s[0] == TokV::Punct(","@) {
        seq![cur] + sp_split(s.drop_first(), 0, Seq::empty())
    } else {
        sp_split(s.drop_first(), depth + cdelta(s[0]), cur.push(s[0]))
    }
}

/// Walking the splitter through one whole piece gathers it unsplit.
proof fn lemma_sp_split_skip(s: Seq<TokV>, rest: Seq<TokV>, cur: Seq<TokV>)
    requires
        piece(s),
    ensures
        sp_split(s + rest, 0, cur) == sp_split(rest, 0, cur + s),
{
    lemma_balanced_cdepth(s);
    lemma_sp_split_shift(s, rest, cur, 0);
}

/// Walking the splitter through the remainder of a piece at the depth
/// already accumulated gathers it unsplit.
proof fn lemma_sp_split_shift(s: Seq<TokV>, rest: Seq<TokV>, cur: Seq<TokV>, d: int)
    requires
        d + cdepth(s) == 0,
        forall|i: int| 0 <= i <= s.len() ==> d + cdepth(#[trigger] s.take(i)) >= 0,
        forall|i: int|
            0 <= i < s.len() && s[i] == TokV::Punct(","@) ==> d + cdepth(#[trigger] s.take(i))
                > 0,
    ensures
        sp_split(s + rest, d, cur) == sp_split(rest, 0, cur + s),
    decreases s.len(),
{
    if s.len() == 0 {
        assert(s + rest =~= rest);
        assert(cur + s =~= cur);
        assert(cdepth(s) == 0);
    } else {
        let t = s[0];
        assert((s + rest)[0] == t);
        assert(s.take(0) =~= Seq::<TokV>::empty());
        if d == 0 && t == TokV::Punct(","@) {
            assert(d + cdepth(s.take(0)) > 0);
            assert(false);
        }
        assert((s + rest).drop_first() =~= s.drop_first() + rest);
        let s2 = s.drop_first();
        let d2 = d + cdelta(t);
        assert forall|i: int| 0 <= i <= s2.len() implies d2 + cdepth(#[trigger] s2.take(i))
            >= 0 by {
            assert(s.take(i + 1) =~= seq![t] + s2.take(i));
            lemma_depth_add(seq![t], s2.take(i), "("@, ")"@);
            assert(cdepth(seq![t]) == cdelta(t)) by {
                assert(seq![t].drop_last() =~= Seq::<TokV>::empty());
            }
        }
        assert forall|i: int|
            0 <= i < s2.len() && s2[i] == TokV::Punct(","@) implies d2 + cdepth(
            #[trigger] s2.take(i),
        ) > 0 by {
            assert(s[i + 1] == s2[i]);
            assert(s.take(i + 1) =~= seq![t] + s2.take(i));
            lemma_depth_add(seq![t], s2.take(i), "("@, ")"@);
            assert(cdepth(seq![t]) == cdelta(t)) by {
                assert(seq![t].drop_last() =~= Seq::<TokV>::empty());
            }
        }
        assert(s.take(s2.len() as int + 1) =~= s);
        assert(s.take(s2.len() as int + 1) =~= seq![t] + s2);
        lemma_depth_add(seq![t], s2, "("@, ")"@);
        assert(cdepth(seq![t]) == cdelta(t)) by {
            assert(seq![t].drop_last() =~= Seq::<TokV>::empty());
        }
        lemma_sp_split_shift(s2, rest, cur.push(t), d2);
        assert(cur + s =~= cur.push(t) + s2);
    }
}

/// The splitter recovers the segments that a comma-joining of pieces
/// was made of.
proof fn lemma_sp_split_joined(segs: Seq<Seq<TokV>>)
    requires
        segs.len() > 0,
        forall|k: int| 0 <= k < segs.len() ==> piece(#[trigger] segs[k]),
    ensures
        sp_split(joined(segs), 0, Seq::empty()) == segs,
    decreases segs.len(),
{
    if segs.len() == 1 {
        let s = segs[0];
        assert(joined(segs) == s);
        assert(s + Seq::<TokV>::empty() =~= s);
        lemma_sp_split_skip(s, Seq::empty(), Seq::empty());
        assert(sp_split(Seq::empty(), 0, Seq::empty() + s) == seq![Seq::empty() + s]);
        assert(Seq::empty() + s =~= s);
        assert(sp_split(joined(segs), 0, Seq::empty()) =~= segs);
    } else {
        let s = segs[0];
        let rest = seq![TokV::Punct(","@)] + joined(segs.drop_first());
        assert(joined(segs) == s + rest);
        lemma_sp_split_skip(s, rest, Seq::empty());
        assert(rest[0] == TokV::Punct(","@));
        assert(rest.drop_first() =~= joined(segs.drop_first()));
        assert(sp_split(rest, 0, Seq::empty() + s) == seq![Seq::empty() + s] + sp_split(
            joined(segs.drop_first()),
            0,
            Seq::empty(),
        ));
        lemma_sp_split_joined(segs.drop_first());
        assert(Seq::empty() + s =~= s);
        assert(seq![s] + segs.drop_first() =~= segs);
    }
}

/// A piece of no tokens.
proof fn lemma_piece_empty()
    ensures
        piece(Seq::<TokV>::empty()),
{
    assert forall|i: int| 0 <= i <= 0 implies kdepth(
        #[trigger] Seq::<TokV>::empty().take(i),
        "("@,
        ")"@,
    ) >= 0 && kdepth(Seq::<TokV>::empty().take(i), "["@, "]"@) >= 0 && kdepth(
        Seq::<TokV>::empty().take(i),
        "{"@,
        "}"@,
    ) >= 0 && kdepth(Seq::<TokV>::empty().take(i), "<"@, ">"@) >= 0 by {
        assert(Seq::<TokV>::empty().take(i) =~= Seq::<TokV>::empty());
    }
}

/// A single token that is no bracket and no comma forms a piece.
proof fn lemma_piece_atom(t: TokV)
    requires
        cdelta(t) == 0,
        t != TokV::Punct(","@),
    ensures
        piece(seq![t]),
{
    lemma_balanced_atom(t);
}

/// No square bracket stands in a run.
pub open spec fn no_sq(s: Seq<TokV>) -> bool {
    forall|i: int|
        0 <= i < s.len() ==> (#[trigger] s[i]) != TokV::Punct("["@) && s[i] != TokV::Punct(
            "]"@,
        )
}

/// A run without square brackets sits level for the square kind.
proof fn lemma_no_sq_kdepth(s: Seq<TokV>)
    requires
        no_sq(s),
    ensures
        kdepth(s, "["@, "]"@) == 0,
    decreases s.len(),
{
    if s.len() > 0 {
        assert(s[s.len() - 1] != TokV::Punct("["@));
        lemma_no_sq_kdepth(s.drop_last());
    }
}

/// No equals sign stands at top level of a run.
pub open spec fn no_top_eq(s: Seq<TokV>) -> bool {
    forall|i: int|
        0 <= i < s.len() && (#[trigger] s[i]) == TokV::Punct("="@) ==> cdepth(s.take(i)) != 0
}

/// No top-level `where` keyword or opening brace stands in a run.
pub open spec fn no_top_stop(s: Seq<TokV>) -> bool {
    forall|i: int|
        0 <= i < s.len() ==> !(((#[trigger] s[i]) == TokV::Ident("where"@) || s[i]
            == TokV::Punct("{"@)) && cdepth(s.take(i)) == 0)
}

/// A recognized attribute: square brackets stand only as its own
/// delimiters, and what is inside is one piece.
pub open spec fn wf_attr(a: AttrV) -> bool {
    no_sq(a.path) && no_sq(a.tail) && piece(a.path + a.tail)
}

/// A recognized run of attributes, all of one style.
pub open spec fn wf_attr_run(av: Seq<AttrV>, inner: bool) -> bool {
    forall|k: int| 0 <= k < av.len() ==> (#[trigger] av[k]).inner == inner && wf_attr(av[k])
}

/// A recognized attribute renders to a piece.
proof fn lemma_wf_attr_piece(a: AttrV)
    requires
        wf_attr(a),
    ensures
        piece(render_attr(a)),
{
    lemma_tok_lits();
    lemma_cdelta(TokV::Punct("#"@));
    lemma_cdelta(TokV::Punct("!"@));
    lemma_cdelta(TokV::Punct("["@));
    lemma_cdelta(TokV::Punct("]"@));
    lemma_piece_atom(TokV::Punct("#"@));
    lemma_piece_atom(TokV::Punct("!"@));
    let u = a.path + a.tail;
    let m = seq![TokV::Punct("["@)] + u + seq![TokV::Punct("]"@)];
    // The bracketed middle is a piece.
    lemma_no_sq_kdepth(u);
    lemma_balanced_cdepth(u);
    assert(piece(m)) by {
        lemma_depth_add(seq![TokV::Punct("["@)] + u, seq![TokV::Punct("]"@)], "["@, "]"@);
        lemma_depth_add(seq![TokV::Punct("["@)], u, "["@, "]"@);
        lemma_depth_add(seq![TokV::Punct("["@)] + u, seq![TokV::Punct("]"@)], "("@, ")"@);
        lemma_depth_add(seq![TokV::Punct("["@)], u, "("@, ")"@);
        assert(kdepth(seq![TokV::Punct("["@)], "["@, "]"@) == 1) by {
            reveal_with_fuel(kdepth, 2);
            assert(seq![TokV::Punct("["@)].drop_last() =~= Seq::<TokV>::empty());
        }
        assert forall|q: Seq<char>, w: Seq<char>|
            kdelta(TokV::Punct("["@), q, w) == 0 && kdelta(TokV::Punct("]"@), q, w) == 0
                implies true by {}
        assert forall|i: int| 0 <= i <= m.len() implies kdepth(#[trigger] m.take(i), "["@, "]"@)
            >= 0 && kdepth(m.take(i), "("@, ")"@) >= 0 && kdepth(m.take(i), "{"@, "}"@) >= 0
            && kdepth(m.take(i), "<"@, ">"@) >= 0 by {
            if i == 0 {
                assert(m.take(i) =~= Seq::<TokV>::empty());
            } else if i <= u.len() + 1 {
                assert(m.take(i) =~= seq![TokV::Punct("["@)] + u.take(i - 1));
                lemma_depth_add(seq![TokV::Punct("["@)], u.take(i - 1), "["@, "]"@);
                lemma_depth_add(seq![TokV::Punct("["@)], u.take(i - 1), "("@, ")"@);
                lemma_depth_add(seq![TokV::Punct("["@)], u.take(i - 1), "{"@, "}"@);
                lemma_depth_add(seq![TokV::Punct("["@)], u.take(i - 1), "<"@, ">"@);
                assert(no_sq(u.take(i - 1)));
                lemma_no_sq_kdepth(u.take(i - 1));
                assert(kdepth(seq![TokV::Punct("["@)], "("@, ")"@) == 0) by {
                    reveal_with_fuel(kdepth, 2);
                    assert(seq![TokV::Punct("["@)].drop_last() =~= Seq::<TokV>::empty());
                }
                assert(kdepth(seq![TokV::Punct("["@)], "{"@, "}"@) == 0) by {
                    reveal_with_fuel(kdepth, 2);
                    assert(seq![TokV::Punct("["@)].drop_last() =~= Seq::<TokV>::empty());
                }
                assert(kdepth(seq![TokV::Punct("["@)], "<"@, ">"@) == 0) by {
                    reveal_with_fuel(kdepth, 2);
                    assert(seq![TokV::Punct("["@)].drop_last() =~= Seq::<TokV>::empty());
                }
                assert(kdepth(seq![TokV::Punct("["@)], "["@, "]"@) == 1) by {
                    reveal_with_fuel(kdepth, 2);
                    assert(seq![TokV::Punct("["@)].drop_last() =~= Seq::<TokV>::empty());
                }
            } else {
                assert(m.take(i) =~= m);
                lemma_depth_add(seq![TokV::Punct("["@)] + u, seq![TokV::Punct("]"@)], "{"@, "}"@);
                lemma_depth_add(seq![TokV::Punct("["@)], u, "{"@, "}"@);
                lemma_depth_add(seq![TokV::Punct("["@)] + u, seq![TokV::Punct("]"@)], "<"@, ">"@);
                lemma_depth_add(seq![TokV::Punct("["@)], u, "<"@, ">"@);
                reveal_with_fuel(kdepth, 2);
                assert(seq![TokV::Punct("["@)].drop_last() =~= Seq::<TokV>::empty());
                assert(seq![TokV::Punct("]"@)].drop_last() =~= Seq::<TokV>::empty());
            }
        }
        assert(kdepth(m, "["@, "]"@) == 0) by {
            lemma_depth_add(seq![TokV::Punct("["@)] + u, seq![TokV::Punct("]"@)], "["@, "]"@);
            lemma_depth_add(seq![TokV::Punct("["@)], u, "["@, "]"@);
            reveal_with_fuel(kdepth, 2);
            assert(seq![TokV::Punct("["@)].drop_last() =~= Seq::<TokV>::empty());
            assert(seq![TokV::Punct("]"@)].drop_last() =~= Seq::<TokV>::empty());
        }
        assert(kdepth(m, "("@, ")"@) == 0 && kdepth(m, "{"@, "}"@) == 0 && kdepth(
            m,
            "<"@,
            ">"@,
        ) == 0) by {
            lemma_depth_add(seq![TokV::Punct("["@)] + u, seq![TokV::Punct("]"@)], "("@, ")"@);
            lemma_depth_add(seq![TokV::Punct("["@)], u, "("@, ")"@);
            lemma_depth_add(seq![TokV::Punct("["@)] + u, seq![TokV::Punct("]"@)], "{"@, "}"@);
            lemma_depth_add(seq![TokV::Punct("["@)], u, "{"@, "}"@);
            lemma_depth_add(seq![TokV::Punct("["@)] + u, seq![TokV::Punct("]"@)], "<"@, ">"@);
            lemma_depth_add(seq![TokV::Punct("["@)], u, "<"@, ">"@);
            reveal_with_fuel(kdepth, 2);
            assert(seq![TokV::Punct("["@)].drop_last() =~= Seq::<TokV>::empty());
            assert(seq![TokV::Punct("]"@)].drop_last() =~= Seq::<TokV>::empty());
        }
        assert forall|i: int|
            0 <= i < m.len() && m[i] == TokV::Punct(","@) implies cdepth(#[trigger] m.take(i))
            > 0 by {
            assert(0 < i <= u.len());
            assert(m.take(i) =~= seq![TokV::Punct("["@)] + u.take(i - 1));
            lemma_depth_add(seq![TokV::Punct("["@)], u.take(i - 1), "("@, ")"@);
            lemma_cdepth_sum(seq![TokV::Punct("["@)] + u.take(i - 1));
            lemma_cdepth_sum(seq![TokV::Punct("["@)]);
            lemma_cdepth_sum(u.take(i - 1));
            lemma_depth_add(seq![TokV::Punct("["@)], u.take(i - 1), "["@, "]"@);
            lemma_depth_add(seq![TokV::Punct("["@)], u.take(i - 1), "{"@, "}"@);
            lemma_depth_add(seq![TokV::Punct("["@)], u.take(i - 1), "<"@, ">"@);
            assert(no_sq(u.take(i - 1)));
            lemma_no_sq_kdepth(u.take(i - 1));
            reveal_with_fuel(kdepth, 2);
            assert(seq![TokV::Punct("["@)].drop_last() =~= Seq::<TokV>::empty());
        }
    }
    if a.inner {
        lemma_piece_add(seq![TokV::Punct("#"@)], seq![TokV::Punct("!"@)]);
        lemma_piece_add(seq![TokV::Punct("#"@)] + seq![TokV::Punct("!"@)], m);
        assert(render_attr(a) =~= (seq![TokV::Punct("#"@)] + seq![TokV::Punct("!"@)]) + m);
    } else {
        lemma_piece_add(seq![TokV::Punct("#"@)], m);
        assert(render_attr(a) =~= seq![TokV::Punct("#"@)] + m);
    }
}

/// A recognized run of attributes renders to a piece.
proof fn lemma_wf_attrs_piece(av: Seq<AttrV>, inner: bool)
    requires
        wf_attr_run(av, inner),
    ensures
        piece(render_attrs(av)),
    decreases av.len(),
{
    if av.len() == 0 {
        lemma_piece_empty();
    } else {
        lemma_wf_attr_piece(av[0]);
        assert(wf_attr_run(av.drop_first(), inner)) by {
            assert forall|k: int| 0 <= k < av.drop_first().len() implies (
            #[trigger] av.drop_first()[k]).inner == inner && wf_attr(av.drop_first()[k]) by {
                assert(av.drop_first()[k] == av[k + 1]);
            }
        }
        lemma_wf_attrs_piece(av.drop_first(), inner);
        lemma_piece_add(render_attr(av[0]), render_attrs(av.drop_first()));
    }
}

/// A recognized typed argument: a one-identifier pattern with its
/// type, or the type-only shape opening with a generic type head; the
/// type and any default expression are pieces, and the type holds no
/// top-level equals sign.
pub open spec fn wf_typed(pt: PatTypeV) -> bool {
    &&& wf_attr_run(pt.attrs, false)
    &&& ((pt.pat.len() == 1 && pt.pat[0] is Ident) || (pt.pat.len() == 0 && pt.ty.len() >= 2
        && pt.ty[0] is Ident && pt.ty[1] == TokV::Punct("<"@)))
    &&& pt.ty.len() > 0
    &&& piece(pt.ty)
    &&& no_top_eq(pt.ty)
    &&& match pt.assign {
        Some(asn) => asn.right.len() > 0 && piece(asn.right),
        None => true,
    }
}

/// A recognized argument.  A receiver's lifetime stands only behind a
/// reference, as the grammar prints it.
pub open spec fn wf_arg(a: FnArgV) -> bool {
    match a {
        FnArgV::Receiver(rc) => rc.lifetime is Some ==> rc.reference,
        FnArgV::Typed(pt) => wf_typed(pt),
    }
}

/// A recognized argument list: every receiver stands first.
pub open spec fn wf_inputs(args: Seq<FnArgV>) -> bool {
    forall|k: int|
        0 <= k < args.len() ==> wf_arg(#[trigger] args[k]) && (args[k] is Receiver ==> k == 0)
}

/// A recognized argument renders to a piece.
proof fn lemma_wf_arg_piece(a: FnArgV)
    requires
        wf_arg(a),
    ensures
        piece(render_arg(a)),
{
    lemma_tok_lits();
    match a {
        FnArgV::Receiver(rc) => {
            lemma_cdelta(TokV::Punct("&"@));
            lemma_piece_atom(TokV::Punct("&"@));
            lemma_cdelta(TokV::Ident("mut"@));
            lemma_piece_atom(TokV::Ident("mut"@));
            lemma_cdelta(TokV::Ident("self"@));
            lemma_piece_atom(TokV::Ident("self"@));
            lemma_piece_empty();
            let p1: Seq<TokV> = if rc.reference {
                seq![TokV::Punct("&"@)]
            } else {
                Seq::empty()
            };
            let p2: Seq<TokV> = match rc.lifetime {
                Some(l) => seq![TokV::Life(l)],
                None => Seq::empty(),
            };
            let p3: Seq<TokV> = if rc.mutable {
                seq![TokV::Ident("mut"@)]
            } else {
                Seq::empty()
            };
            assert(piece(p2)) by {
                match rc.lifetime {
                    Some(l) => {
                        lemma_cdelta(TokV::Life(l));
                        lemma_piece_atom(TokV::Life(l));
                    },
                    None => {},
                }
            }
            lemma_piece_add(p1, p2);
            lemma_piece_add(p1 + p2, p3);
            lemma_piece_add(p1 + p2 + p3, seq![TokV::Ident("self"@)]);
        },
        FnArgV::Typed(pt) => {
            lemma_wf_attrs_piece(pt.attrs, false);
            lemma_cdelta(TokV::Punct(":"@));
            lemma_piece_atom(TokV::Punct(":"@));
            lemma_cdelta(TokV::Punct("="@));
            lemma_piece_atom(TokV::Punct("="@));
            lemma_piece_empty();
            let pp: Seq<TokV> = if pt.pat.len() > 0 {
                pt.pat + seq![TokV::Punct(":"@)]
            } else {
                Seq::empty()
            };
            assert(piece(pp)) by {
                if pt.pat.len() > 0 {
                    lemma_cdelta(pt.pat[0]);
                    lemma_piece_atom(pt.pat[0]);
                    assert(pt.pat =~= seq![pt.pat[0]]);
                    lemma_piece_add(pt.pat, seq![TokV::Punct(":"@)]);
                }
            }
            let asn: Seq<TokV> = match pt.assign {
                Some(x) => seq![TokV::Punct("="@)] + x.right,
                None => Seq::empty(),
            };
            assert(piece(asn)) by {
                match pt.assign {
                    Some(x) => {
                        lemma_piece_add(seq![TokV::Punct("="@)], x.right);
                    },
                    None => {},
                }
            }
            lemma_piece_add(render_attrs(pt.attrs), pp);
            lemma_piece_add(render_attrs(pt.attrs) + pp, pt.ty);
            lemma_piece_add(render_attrs(pt.attrs) + pp + pt.ty, asn);
        },
    }
}

/// Runs closed for one kind join by commas to a closed run.
proof fn lemma_joined_kclosed(segs: Seq<Seq<TokV>>, ol: Seq<char>, cl: Seq<char>)
    requires
        kdelta(TokV::Punct(","@), ol, cl) == 0,
        forall|k: int| 0 <= k < segs.len() ==> kclosed(#[trigger] segs[k], ol, cl),
    ensures
        kclosed(joined(segs), ol, cl),
    decreases segs.len(),
{
    if segs.len() == 0 {
        assert forall|i: int| 0 <= i <= 0 implies kdepth(
            #[trigger] joined(segs).take(i),
            ol,
            cl,
        ) >= 0 by {
            assert(joined(segs).take(i) =~= Seq::<TokV>::empty());
        }
    } else if segs.len() == 1 {
        assert(joined(segs) == segs[0]);
    } else {
        assert(kclosed(seq![TokV::Punct(","@)], ol, cl)) by {
            reveal_with_fuel(kdepth, 2);
            assert(seq![TokV::Punct(","@)].drop_last() =~= Seq::<TokV>::empty());
            assert forall|i: int| 0 <= i <= 1 implies kdepth(
                #[trigger] seq![TokV::Punct(","@)].take(i),
                ol,
                cl,
            ) >= 0 by {
                if i == 0 {
                    assert(seq![TokV::Punct(","@)].take(i) =~= Seq::<TokV>::empty());
                } else {
                    assert(seq![TokV::Punct(","@)].take(i) =~= seq![TokV::Punct(","@)]);
                }
            }
        }
        assert forall|k: int| 0 <= k < segs.drop_first().len() implies kclosed(
            #[trigger] segs.drop_first()[k],
            ol,
            cl,
        ) by {
            assert(segs.drop_first()[k] == segs[k + 1]);
        }
        lemma_joined_kclosed(segs.drop_first(), ol, cl);
        lemma_kclosed_add(segs[0], seq![TokV::Punct(","@)], ol, cl);
        lemma_kclosed_add(segs[0] + seq![TokV::Punct(","@)], joined(segs.drop_first()), ol, cl);
        assert(joined(segs) =~= (segs[0] + seq![TokV::Punct(","@)]) + joined(segs.drop_first()));
    }
}

/// A recognized argument list renders to a run whose parentheses pair
/// up above the surface.
proof fn lemma_wf_args_closed(args: Seq<FnArgV>, variadic: bool)
    requires
        wf_inputs(args),
    ensures
        kclosed(render_args(args, variadic), "("@, ")"@),
{
    lemma_tok_lits();
    let base = args.map_values(|a2: FnArgV| render_arg(a2));
    assert forall|k: int| 0 <= k < base.len() implies kclosed(#[trigger] base[k], "("@, ")"@) by {
        assert(base[k] == render_arg(args[k]));
        lemma_wf_arg_piece(args[k]);
    }
    lemma_joined_kclosed(base, "("@, ")"@);
    lemma_cdelta(TokV::Punct("..."@));
    lemma_piece_atom(TokV::Punct("..."@));
    lemma_cdelta(TokV::Punct(","@));
    assert(kclosed(seq![TokV::Punct(","@)], "("@, ")"@)) by {
        reveal_with_fuel(kdepth, 2);
        assert(seq![TokV::Punct(","@)].drop_last() =~= Seq::<TokV>::empty());
        assert forall|i: int| 0 <= i <= 1 implies kdepth(
            #[trigger] seq![TokV::Punct(","@)].take(i),
            "("@,
            ")"@,
        ) >= 0 by {
            if i == 0 {
                assert(seq![TokV::Punct(","@)].take(i) =~= Seq::<TokV>::empty());
            } else {
                assert(seq![TokV::Punct(","@)].take(i) =~= seq![TokV::Punct(","@)]);
            }
        }
    }
    if variadic {
        if args.len() > 0 {
            lemma_kclosed_add(joined(base), seq![TokV::Punct(","@)], "("@, ")"@);
            lemma_kclosed_add(
                joined(base) + seq![TokV::Punct(","@)],
                seq![TokV::Punct("..."@)],
                "("@,
                ")"@,
            );
            assert(render_args(args, variadic) =~= (joined(base) + seq![TokV::Punct(","@)])
                + seq![TokV::Punct("..."@)]);
        } else {
            assert(render_args(args, variadic) == seq![TokV::Punct("..."@)]);
        }
    }
}

/// A recognized signature: no ABI, no generics and no where clause,
/// a recognized argument list, and a return type that is one piece
/// with no top-level `where` or opening brace.
pub open spec fn wf_signature(sv: SignatureV) -> bool {
    &&& sv.abi is None
    &&& sv.generics.params.len() == 0
    &&& sv.generics.where_clause is None
    &&& wf_inputs(sv.inputs)
    &&& match sv.output {
        Some(o) => o.len() > 0 && piece(o) && no_top_stop(o),
        None => true,
    }
}

/// A recognized declaration: no attributes of its own, a bare or
/// plain-`pub` visibility, a recognized signature, and a body whose
/// braces pair up and which does not open with an attribute.
pub open spec fn wf_item_fn(f: ItemFnV) -> bool {
    &&& f.attrs.len() == 0
    &&& (f.vis.len() == 0 || f.vis == seq![TokV::Ident("pub"@)])
    &&& wf_signature(f.sig)
    &&& kclosed(f.block, "{"@, "}"@)
    &&& !(f.block.len() >= 1 && f.block[0] == TokV::Punct("#"@))
}

/// A copy of the tokens in a half-open range.
pub fn copy_range(toks: &Vec<Tok>, a: usize, b: usize) -> (r: Vec<Tok>)
    requires
        a <= b <= toks@.len(),
    ensures
        r.deep_view() == toks.deep_view().subrange(a as int, b as int),
{
    let ghost tv = toks.deep_view();
    let mut r: Vec<Tok> = Vec::new();
    let mut i: usize = a;
    while i < b
        invariant
            a <= i <= b <= toks@.len(),
            tv == toks.deep_view(),
            tv.len() == toks@.len(),
            r@.len() == i - a,
            r.deep_view() =~= tv.subrange(a as int, i as int),
        decreases b - i,
    {
        proof {
            assert(tv[i as int] == toks@[i as int]@);
        }
        r.push(toks[i].dup());
        proof {
            assert(r.deep_view() =~= tv.subrange(a as int, i as int + 1));
        }
        i += 1;
    }
    proof {
        assert(r.deep_view() =~= tv.subrange(a as int, b as int));
    }
    r
}

/// Whether a token opens a bracket pair.
fn opens(t: &Tok) -> (r: bool)
    ensures
        r == (t@ == TokV::Punct("("@) || t@ == TokV::Punct("["@) || t@ == TokV::Punct("{"@)
            || t@ == TokV::Punct("<"@)),
{
    t.is_punct("(") || t.is_punct("[") || t.is_punct("{") || t.is_punct("<")
}

/// Whether a token closes a bracket pair.
fn closes(t: &Tok) -> (r: bool)
    ensures
        r == (t@ == TokV::Punct(")"@) || t@ == TokV::Punct("]"@) || t@ == TokV::Punct("}"@)
            || t@ == TokV::Punct(">"@)),
{
    t.is_punct(")") || t.is_punct("]") || t.is_punct("}") || t.is_punct(">")
}

/// Splits a token run at its top-level commas.  An empty run yields no
/// segments; otherwise the segments joined by commas are exactly the
/// input, so one trailing comma yields one empty final segment.
pub fn split_commas(toks: &Vec<Tok>) -> (r: Vec<Vec<Tok>>)
    ensures
        toks@.len() == 0 ==> r.deep_view() == Seq::<Seq<TokV>>::empty(),
        toks@.len() > 0 ==> joined(r.deep_view()) == toks.deep_view() && r.deep_view().len() > 0,
        toks@.len() > 0 ==> r.deep_view() == sp_split(toks.deep_view(), 0, Seq::empty()),
{
    let ghost tv = toks.deep_view();
    if toks.len() == 0 {
        let r: Vec<Vec<Tok>> = Vec::new();
        proof {
            assert(r.deep_view() =~= Seq::<Seq<TokV>>::empty());
        }
        return r;
    }
    let mut segs: Vec<Vec<Tok>> = Vec::new();
    let mut cur: Vec<Tok> = Vec::new();
    let mut depth: i128 = 0;
    let mut i: usize = 0;
    proof {
        assert(tv.skip(0) =~= tv);
        assert(segs.deep_view() =~= Seq::<Seq<TokV>>::empty());
        assert(cur.deep_view() =~= Seq::<TokV>::empty());
        assert(Seq::<Seq<TokV>>::empty() + sp_split(tv, 0, Seq::empty()) =~= sp_split(
            tv,
            0,
            Seq::empty(),
        ));
    }
    while i < toks.len()
        invariant
            i <= toks.len(),
            tv == toks.deep_view(),
            tv.len() == toks@.len(),
            -(i as i128) <= depth <= i as i128,
            segs@.len() == 0 ==> cur.deep_view() =~= tv.take(i as int),
            segs@.len() > 0 ==> joined(segs.deep_view()) + seq![TokV::Punct(","@)]
                + cur.deep_view() =~= tv.take(i as int),
            sp_split(tv, 0, Seq::empty()) == segs.deep_view() + sp_split(
                tv.skip(i as int),
                depth as int,
                cur.deep_view(),
            ),
        decreases toks.len() - i,
    {
        proof {
            assert(tv[i as int] == toks@[i as int]@);
            assert(tv.skip(i as int)[0] == tv[i as int]);
            assert(tv.skip(i as int).drop_first() =~= tv.skip(i as int + 1));
            lemma_tok_lits();
            lemma_cdelta(tv[i as int]);
        }
        if depth == 0 && toks[i].is_punct(",") {
            let ghost ssnap = segs.deep_view();
            let ghost csnap = cur.deep_view();
            segs.push(cur);
            cur = Vec::new();
            proof {
                assert(segs.deep_view() =~= ssnap.push(csnap));
                assert(cur.deep_view() =~= Seq::<TokV>::empty());
                if ssnap.len() == 0 {
                    assert(joined(segs.deep_view()) == csnap);
                } else {
                    lemma_joined_push(ssnap, csnap);
                }
                assert(joined(segs.deep_view()) + seq![TokV::Punct(","@)] + cur.deep_view()
                    =~= tv.take(i as int + 1));
                assert(sp_split(tv.skip(i as int), 0, csnap) == seq![csnap] + sp_split(
                    tv.skip(i as int + 1),
                    0,
                    Seq::empty(),
                ));
                assert(ssnap + (seq![csnap] + sp_split(tv.skip(i as int + 1), 0, Seq::empty()))
                    =~= segs.deep_view() + sp_split(
                    tv.skip(i as int + 1),
                    0,
                    cur.deep_view(),
                ));
            }
        } else {
            let ghost dsnap = depth as int;
            if opens(&toks[i]) {
                depth += 1;
            } else if closes(&toks[i]) {
                depth -= 1;
            }
            let ghost csnap = cur.deep_view();
            cur.push(toks[i].dup());
            proof {
                assert(cur.deep_view() =~= csnap.push(tv[i as int]));
                if segs@.len() == 0 {
                    assert(cur.deep_view() =~= tv.take(i as int + 1));
                } else {
                    assert(joined(segs.deep_view()) + seq![TokV::Punct(","@)] + cur.deep_view()
                        =~= tv.take(i as int + 1));
                }
                assert(depth as int == dsnap + cdelta(tv[i as int]));
                assert(sp_split(tv.skip(i as int), dsnap, csnap) == sp_split(
                    tv.skip(i as int + 1),
                    dsnap + cdelta(tv[i as int]),
                    csnap.push(tv[i as int]),
                ));
            }
        }
        i += 1;
    }
    let ghost ssnap = segs.deep_view();
    let ghost csnap = cur.deep_view();
    segs.push(cur);
    proof {
        assert(segs.deep_view() =~= ssnap.push(csnap));
        assert(tv.take(tv.len() as int) =~= tv);
        if ssnap.len() == 0 {
            assert(joined(segs.deep_view()) == csnap);
            assert(joined(segs.deep_view()) =~= tv);
        } else {
            lemma_joined_push(ssnap, csnap);
            assert(joined(segs.deep_view()) =~= tv);
        }
        assert(tv.skip(tv.len() as int) =~= Seq::<TokV>::empty());
        assert(sp_split(Seq::<TokV>::empty(), depth as int, csnap) == seq![csnap]);
        assert(ssnap + seq![csnap] =~= segs.deep_view());
    }
    segs
}

/// Joining after appending one more segment.
proof fn lemma_joined_push(segs: Seq<Seq<TokV>>, last: Seq<TokV>)
    requires
        segs.len() > 0,
    ensures
        joined(segs.push(last)) == joined(segs) + seq![TokV::Punct(","@)] + last,
    decreases segs.len(),
{
    reveal_with_fuel(joined, 3);
    if segs.len() == 1 {
        assert(segs.push(last)[0] == segs[0]);
        assert(segs.push(last).drop_first() =~= seq![last]);
        assert(joined(segs.push(last)) =~= segs[0] + seq![TokV::Punct(","@)] + last);
        assert(joined(segs) == segs[0]);
    } else {
        assert(segs.push(last)[0] == segs[0]);
        assert(segs.push(last).drop_first() =~= segs.drop_first().push(last));
        lemma_joined_push(segs.drop_first(), last);
        assert(joined(segs.push(last)) =~= joined(segs) + seq![TokV::Punct(","@)] + last);
    }
}


/// Rendering after appending one attribute.
proof fn lemma_render_attrs_push(attrs: Seq<AttrV>, a: AttrV)
    ensures
        render_attrs(attrs.push(a)) == render_attrs(attrs) + render_attr(a),
    decreases attrs.len(),
{
    reveal_with_fuel(render_attrs, 3);
    if attrs.len() == 0 {
        assert(attrs.push(a)[0] == a);
        assert(attrs.push(a).drop_first() =~= Seq::<AttrV>::empty());
        assert(render_attrs(attrs.push(a)) =~= render_attr(a));
        assert(render_attrs(attrs) + render_attr(a) =~= render_attr(a));
    } else {
        assert(attrs.push(a)[0] == attrs[0]);
        assert(attrs.push(a).drop_first() =~= attrs.drop_first().push(a));
        lemma_render_attrs_push(attrs.drop_first(), a);
        assert(render_attrs(attrs.push(a)) =~= render_attrs(attrs) + render_attr(a));
    }
}

/// Rendering after appending one lifetime bound.
proof fn lemma_render_life_bounds_push(bs: Seq<Seq<char>>, b: Seq<char>)
    requires
        bs.len() > 0,
    ensures
        render_life_bounds(bs.push(b)) == render_life_bounds(bs) + seq![
            TokV::Punct("+"@),
            TokV::Life(b),
        ],
    decreases bs.len(),
{
    reveal_with_fuel(render_life_bounds, 3);
    if bs.len() == 1 {
        assert(bs.push(b)[0] == bs[0]);
        assert(bs.push(b).drop_first() =~= seq![b]);
        assert(render_life_bounds(bs.push(b)) =~= render_life_bounds(bs) + seq![
            TokV::Punct("+"@),
            TokV::Life(b),
        ]);
    } else {
        assert(bs.push(b)[0] == bs[0]);
        assert(bs.push(b).drop_first() =~= bs.drop_first().push(b));
        lemma_render_life_bounds_push(bs.drop_first(), b);
        assert(render_life_bounds(bs.push(b)) =~= render_life_bounds(bs) + seq![
            TokV::Punct("+"@),
            TokV::Life(b),
        ]);
    }
}

/// Finds the matching closing bracket for the opener at `open`, counting
/// only the opener's own bracket kind: the first closer met at the
/// opener's own depth.
fn find_matching(toks: &Vec<Tok>, open: usize, ol: &str, cl: &str) -> (r: Option<usize>)
    requires
        open < toks@.len(),
        ol@ != cl@,
    ensures
        match r {
            Some(c) => open < c < toks@.len() && toks.deep_view()[c as int] == TokV::Punct(
                cl@,
            ) && kdepth(toks.deep_view().subrange(open as int + 1, c as int), ol@, cl@) == 0
                && (forall|j: int|
                open < j < c ==> !(toks.deep_view()[j] == TokV::Punct(cl@) && kdepth(
                    toks.deep_view().subrange(open as int + 1, j),
                    ol@,
                    cl@,
                ) == 0)),
            None => forall|j: int|
                open < j < toks@.len() ==> !(toks.deep_view()[j] == TokV::Punct(cl@) && kdepth(
                    toks.deep_view().subrange(open as int + 1, j),
                    ol@,
                    cl@,
                ) == 0),
        },
{
    let ghost tv = toks.deep_view();
    let n = toks.len();
    let mut depth: i128 = 1;
    let mut i: usize = open + 1;
    proof {
        assert(tv.subrange(open as int + 1, open as int + 1) =~= Seq::<TokV>::empty());
    }
    while i < toks.len()
        invariant
            n == toks@.len(),
            open < i <= toks@.len(),
            ol@ != cl@,
            tv == toks.deep_view(),
            tv.len() == toks@.len(),
            1 - (i as i128) <= depth <= i as i128 + 1,
            depth == 1 + kdepth(tv.subrange(open as int + 1, i as int), ol@, cl@),
            forall|j: int|
                open < j < i ==> !(tv[j] == TokV::Punct(cl@) && kdepth(
                    tv.subrange(open as int + 1, j),
                    ol@,
                    cl@,
                ) == 0),
        decreases toks.len() - i,
    {
        proof {
            assert(tv[i as int] == toks@[i as int]@);
            assert(tv.subrange(open as int + 1, i as int + 1).drop_last() =~= tv.subrange(
                open as int + 1,
                i as int,
            ));
            assert(tv.subrange(open as int + 1, i as int + 1).last() == tv[i as int]);
        }
        if toks[i].is_punct(ol) {
            depth += 1;
        } else if toks[i].is_punct(cl) {
            depth -= 1;
            if depth == 0 {
                return Some(i);
            }
        }
        i += 1;
    }
    None
}

/// Whether a token of the run beginning at `from` stands at top level
/// and is the sought punctuation.
pub open spec fn top_at(tv: Seq<TokV>, from: int, c: int, w: Seq<char>) -> bool {
    tv[c] == TokV::Punct(w) && cdepth(tv.subrange(from, c)) == 0
}

/// Finds the first occurrence of a punctuation token at top level, all
/// four bracket kinds counted.
fn find_top(toks: &Vec<Tok>, from: usize, w: &str) -> (r: Option<usize>)
    requires
        from <= toks@.len(),
    ensures
        match r {
            Some(c) => from <= c < toks@.len() && toks.deep_view()[c as int] == TokV::Punct(w@)
                && top_at(toks.deep_view(), from as int, c as int, w@) && (forall|j: int|
                from <= j < c ==> !top_at(toks.deep_view(), from as int, j, w@)),
            None => forall|j: int|
                from <= j < toks@.len() ==> !top_at(toks.deep_view(), from as int, j, w@),
        },
{
    let ghost tv = toks.deep_view();
    let mut depth: i128 = 0;
    let mut i: usize = from;
    proof {
        assert(tv.subrange(from as int, from as int) =~= Seq::<TokV>::empty());
    }
    while i < toks.len()
        invariant
            from <= i <= toks@.len(),
            tv == toks.deep_view(),
            tv.len() == toks@.len(),
            -(i as i128) <= depth <= i as i128,
            depth == cdepth(tv.subrange(from as int, i as int)),
            forall|j: int| from <= j < i ==> !top_at(tv, from as int, j, w@),
        decreases toks.len() - i,
    {
        proof {
            assert(tv[i as int] == toks@[i as int]@);
            assert(tv.subrange(from as int, i as int + 1).drop_last() =~= tv.subrange(
                from as int,
                i as int,
            ));
            assert(tv.subrange(from as int, i as int + 1).last() == tv[i as int]);
            lemma_tok_lits();
            lemma_cdelta(tv[i as int]);
        }
        if depth == 0 && toks[i].is_punct(w) {
            proof {
                assert(top_at(tv, from as int, i as int, w@));
            }
            return Some(i);
        }
        if opens(&toks[i]) {
            depth += 1;
        } else if closes(&toks[i]) {
            depth -= 1;
        }
        i += 1;
    }
    None
}

/// Whether a token of the run beginning at `from` stands at top level
/// and ends a type: a `where` keyword or an opening brace.
pub open spec fn ty_stop_at(tv: Seq<TokV>, from: int, c: int) -> bool {
    (tv[c] == TokV::Ident("where"@) || tv[c] == TokV::Punct("{"@)) && cdepth(
        tv.subrange(from, c),
    ) == 0
}

/// Finds where a type run ends: the first top-level `where` keyword or
/// opening brace, or the end of the tokens.
fn find_ty_end(toks: &Vec<Tok>, from: usize) -> (r: usize)
    requires
        from <= toks@.len(),
    ensures
        from <= r <= toks@.len(),
        r < toks@.len() ==> ty_stop_at(toks.deep_view(), from as int, r as int),
        forall|j: int| from <= j < r ==> !ty_stop_at(toks.deep_view(), from as int, j),
{
    let ghost tv = toks.deep_view();
    let mut depth: i128 = 0;
    let mut i: usize = from;
    proof {
        assert(tv.subrange(from as int, from as int) =~= Seq::<TokV>::empty());
    }
    while i < toks.len()
        invariant
            from <= i <= toks@.len(),
            tv == toks.deep_view(),
            tv.len() == toks@.len(),
            -(i as i128) <= depth <= i as i128,
            depth == cdepth(tv.subrange(from as int, i as int)),
            forall|j: int| from <= j < i ==> !ty_stop_at(tv, from as int, j),
        decreases toks.len() - i,
    {
        proof {
            assert(tv[i as int] == toks@[i as int]@);
            assert(tv.subrange(from as int, i as int + 1).drop_last() =~= tv.subrange(
                from as int,
                i as int,
            ));
            assert(tv.subrange(from as int, i as int + 1).last() == tv[i as int]);
            lemma_tok_lits();
            lemma_cdelta(tv[i as int]);
        }
        if depth == 0 && (toks[i].is_ident("where") || toks[i].is_punct("{")) {
            proof {
                assert(ty_stop_at(tv, from as int, i as int));
            }
            return i;
        }
        if opens(&toks[i]) {
            depth += 1;
        } else if closes(&toks[i]) {
            depth -= 1;
        }
        i += 1;
    }
    toks.len()
}

/// A rendered run of attributes stands at `start`, and no further
/// attribute of the run's style follows it.
pub open spec fn attrs_hyp(tv: Seq<TokV>, start: int, av: Seq<AttrV>, inner: bool) -> bool {
    &&& wf_attr_run(av, inner)
    &&& start + render_attrs(av).len() <= tv.len()
    &&& tv.subrange(start, start + render_attrs(av).len()) == render_attrs(av)
    &&& (start + render_attrs(av).len() == tv.len() || tv[start + render_attrs(av).len()]
        != TokV::Punct("#"@))
}

/// Rendering a run of attributes splits at any cut.
proof fn lemma_render_attrs_split(av: Seq<AttrV>, m: int)
    requires
        0 <= m <= av.len(),
    ensures
        render_attrs(av) == render_attrs(av.take(m)) + render_attrs(av.skip(m)),
    decreases m,
{
    if m == 0 {
        assert(av.take(0) =~= Seq::<AttrV>::empty());
        assert(av.skip(0) =~= av);
        assert(render_attrs(Seq::<AttrV>::empty()) + render_attrs(av) =~= render_attrs(av));
    } else {
        lemma_render_attrs_split(av.drop_first(), m - 1);
        assert(av.take(m)[0] == av[0]);
        assert(av.take(m).drop_first() =~= av.drop_first().take(m - 1));
        assert(av.skip(m) =~= av.drop_first().skip(m - 1));
        assert(render_attrs(av.take(m)) == render_attr(av[0]) + render_attrs(
            av.drop_first().take(m - 1),
        ));
        assert(render_attrs(av) =~= render_attrs(av.take(m)) + render_attrs(av.skip(m)));
    }
}

/// Where a recognized run of attributes stands at `start` and the
/// first `m` are consumed, the next one's rendering stands at `p`.
#[verifier::rlimit(100)]
proof fn lemma_attrs_layout(av: Seq<AttrV>, m: int, tv: Seq<TokV>, start: int, p: int, inner:
    bool)
    requires
        attrs_hyp(tv, start, av, inner),
        0 <= m < av.len(),
        0 <= start,
        p == start + render_attrs(av.take(m)).len(),
    ensures
        ({
            let ra = render_attr(av[m]);
            &&& p + ra.len() <= start + render_attrs(av).len() <= tv.len()
            &&& (forall|idx: int| 0 <= idx < ra.len() ==> tv[p + idx] == ra[idx])
            &&& ra[0] == TokV::Punct("#"@)
            &&& av[m].inner == inner
            &&& wf_attr(av[m])
            &&& (if av[m].inner {
                ra[1] == TokV::Punct("!"@) && ra[2] == TokV::Punct("["@)
            } else {
                ra[1] == TokV::Punct("["@)
            })
            &&& ra.len() == (if av[m].inner {
                3int
            } else {
                2int
            }) + av[m].path.len() + av[m].tail.len() + 1
            &&& render_attrs(av.take(m + 1)) == render_attrs(av.take(m)) + ra
        }),
{
    let ra = render_attr(av[m]);
    lemma_render_attrs_split(av, m);
    lemma_render_attrs_split(av.skip(m), 1);
    assert(av.skip(m).take(1) =~= seq![av[m]]);
    assert(render_attrs(seq![av[m]]) =~= ra) by {
        assert(seq![av[m]].drop_first() =~= Seq::<AttrV>::empty());
        assert(ra + render_attrs(Seq::<AttrV>::empty()) =~= ra);
    }
    assert(av.skip(m).skip(1) =~= av.skip(m + 1));
    assert(render_attrs(av) == render_attrs(av.take(m)) + (ra + render_attrs(av.skip(m + 1))));
    assert forall|idx: int| 0 <= idx < ra.len() implies tv[p + idx] == ra[idx] by {
        assert(tv.subrange(start, start + render_attrs(av).len())[p - start + idx] == tv[p
            + idx]);
        assert(render_attrs(av)[p - start + idx] == ra[idx]);
    }
    assert(av.take(m + 1) =~= av.take(m).push(av[m]));
    lemma_render_attrs_push(av.take(m), av[m]);
}

/// A recognized attribute's own closing bracket is the first closer
/// above its opener.
#[verifier::rlimit(100)]
proof fn lemma_attr_bracket(a: AttrV, tv: Seq<TokV>, p: int, q: int)
    requires
        wf_attr(a),
        0 <= p <= q,
        q == p + (if a.inner {
            2int
        } else {
            1int
        }),
        q + 2 + (a.path + a.tail).len() <= tv.len(),
        forall|idx: int| 0 <= idx < render_attr(a).len() ==> tv[p + idx] == render_attr(a)[idx],
    ensures
        ({
            let u = a.path + a.tail;
            let cc = q + 1 + u.len();
            &&& tv[cc] == TokV::Punct("]"@)
            &&& tv.subrange(q + 1, cc) == u
            &&& kdepth(u, "["@, "]"@) == 0
            &&& (forall|j: int|
                q < j < cc ==> !(tv[j] == TokV::Punct("]"@) && kdepth(
                    tv.subrange(q + 1, j),
                    "["@,
                    "]"@,
                ) == 0))
        }),
{
    let ra = render_attr(a);
    let u = a.path + a.tail;
    let cc = q + 1 + u.len();
    assert(ra[cc - p] == TokV::Punct("]"@));
    assert(tv[cc] == TokV::Punct("]"@));
    assert forall|idx: int| 0 <= idx < u.len() implies tv[q + 1 + idx] == u[idx] by {
        assert(ra[q + 1 + idx - p] == u[idx]);
        assert(tv[q + 1 + idx] == ra[q + 1 + idx - p]);
    }
    assert(tv.subrange(q + 1, cc) =~= u);
    lemma_no_sq_kdepth(u);
    assert forall|j: int|
        q < j < cc implies !(tv[j] == TokV::Punct("]"@) && kdepth(
        tv.subrange(q + 1, j),
        "["@,
        "]"@,
    ) == 0) by {
        assert(tv[j] == u[j - q - 1]);
    }
}

/// Parses a run of attributes starting at `start`; inner attributes are
/// taken only where the grammar admits them.  Where a recognized
/// rendered run stands at `start` (the ghost witness), parsing takes
/// exactly that run.
#[verifier::rlimit(100)]
fn parse_attrs(toks: &Vec<Tok>, start: usize, allow_inner: bool, gw: Ghost<Seq<AttrV>>) -> (r:
    Result<(Vec<Attr>, usize), ParseError>)
    requires
        start <= toks@.len(),
    ensures
        match r {
            Ok(p) => {
                &&& start <= p.1 <= toks@.len()
                &&& render_attrs(p.0.deep_view()) == toks.deep_view().subrange(
                    start as int,
                    p.1 as int,
                )
                &&& !allow_inner ==> forall|i: int|
                    0 <= i < p.0.deep_view().len() ==> !(#[trigger] p.0.deep_view()[i]).inner
                &&& allow_inner ==> forall|i: int|
                    0 <= i < p.0.deep_view().len() ==> (#[trigger] p.0.deep_view()[i]).inner
            },
            Err(e) => e.kind == ParseErrorKind::Expected,
        },
        (start == toks@.len() || toks.deep_view()[start as int] != TokV::Punct("#"@)) ==> (
        match r {
            Ok(p) => p.1 == start && p.0@.len() == 0,
            Err(e) => false,
        }),
        attrs_hyp(toks.deep_view(), start as int, gw@, allow_inner) ==> (match r {
            Ok(p) => p.1 as int == start + render_attrs(gw@).len(),
            Err(e) => false,
        }),
{
    let ghost tv = toks.deep_view();
    let ghost av = gw@;
    let ghost hyp = attrs_hyp(tv, start as int, av, allow_inner);
    let mut attrs: Vec<Attr> = Vec::new();
    let mut p: usize = start;
    proof {
        assert(render_attrs(attrs.deep_view()) =~= tv.subrange(start as int, start as int));
        if hyp {
            assert(av.take(0) =~= Seq::<AttrV>::empty());
        }
    }
    loop
        invariant
            start <= p <= toks@.len(),
            tv == toks.deep_view(),
            tv.len() == toks@.len(),
            av == gw@,
            hyp == attrs_hyp(tv, start as int, av, allow_inner),
            render_attrs(attrs.deep_view()) == tv.subrange(start as int, p as int),
            !allow_inner ==> forall|i: int|
                0 <= i < attrs.deep_view().len() ==> !(#[trigger] attrs.deep_view()[i]).inner,
            allow_inner ==> forall|i: int|
                0 <= i < attrs.deep_view().len() ==> (#[trigger] attrs.deep_view()[i]).inner,
            hyp ==> attrs@.len() <= av.len() && p as int == start + render_attrs(
                av.take(attrs@.len() as int),
            ).len(),
            p != start ==> tv[start as int] == TokV::Punct("#"@),
            p == start ==> attrs@.len() == 0,
        ensures
            start <= p <= toks@.len(),
            render_attrs(attrs.deep_view()) == tv.subrange(start as int, p as int),
            !allow_inner ==> forall|i: int|
                0 <= i < attrs.deep_view().len() ==> !(#[trigger] attrs.deep_view()[i]).inner,
            allow_inner ==> forall|i: int|
                0 <= i < attrs.deep_view().len() ==> (#[trigger] attrs.deep_view()[i]).inner,
            hyp ==> p as int == start + render_attrs(av).len(),
            p != start ==> tv[start as int] == TokV::Punct("#"@),
            p == start ==> attrs@.len() == 0,
        decreases toks@.len() - p,
    {
        // Facts about the next recognized attribute of the witness run,
        // where one remains: its rendering stands at `p`.
        let ghost m = attrs@.len() as int;
        let ghost ra = if hyp && m < av.len() {
            render_attr(av[m])
        } else {
            Seq::<TokV>::empty()
        };
        proof {
            lemma_tok_marks();
            if hyp && m < av.len() {
                lemma_attrs_layout(av, m, tv, start as int, p as int, allow_inner);
            }
            if hyp && m == av.len() {
                assert(av.take(m) =~= av);
            }
        }
        if p >= toks.len() {
            break ;
        }
        proof {
            assert(tv[p as int] == toks@[p as int]@);
        }
        if !toks[p].is_punct("#") {
            break ;
        }
        let hash = p;
        let mut q = p + 1;
        let mut inner = false;
        if q < toks.len() {
            proof {
                assert(tv[q as int] == toks@[q as int]@);
            }
            if toks[q].is_punct("!") {
                inner = true;
                q += 1;
            }
        }
        proof {
            if hyp {
                assert(m < av.len());
                assert(inner == av[m].inner);
            }
        }
        if inner && !allow_inner {
            break ;
        }
        if !inner && allow_inner {
            break ;
        }
        if q >= toks.len() {
            return Err(ParseError { pos: q, kind: ParseErrorKind::Expected });
        }
        proof {
            assert(tv[q as int] == toks@[q as int]@);
        }
        if !toks[q].is_punct("[") {
            return Err(ParseError { pos: q, kind: ParseErrorKind::Expected });
        }
        let close = match find_matching(toks, q, "[", "]") {
            Some(c) => c,
            None => {
                proof {
                    if hyp {
                        lemma_attr_bracket(av[m], tv, p as int, q as int);
                        assert(false);
                    }
                }
                return Err(ParseError { pos: q, kind: ParseErrorKind::Expected });
            },
        };
        proof {
            if hyp {
                lemma_attr_bracket(av[m], tv, p as int, q as int);
                let u = av[m].path + av[m].tail;
                let cc = q as int + 1 + u.len();
                // The found closer is the rendered one: no square
                // bracket stands inside the witness attribute.
                if (close as int) < cc {
                    assert(false);
                } else if (close as int) > cc {
                    assert(!(tv[cc] == TokV::Punct("]"@) && kdepth(
                        tv.subrange(q as int + 1, cc),
                        "["@,
                        "]"@,
                    ) == 0));
                    assert(false);
                }
                assert(close as int == cc);
            }
        }
        // Split the inside into the leading path and the rest.
        let mut pe: usize = q + 1;
        if pe < close {
            proof {
                assert(tv[pe as int] == toks@[pe as int]@);
            }
            match &toks[pe] {
                Tok::Ident(s) => {
                    pe += 1;
                    let n2 = toks.len();
                    loop
                        invariant
                            n2 == toks@.len(),
                            q + 1 <= pe <= close < toks@.len(),
                            tv == toks.deep_view(),
                            tv.len() == toks@.len(),
                        decreases toks@.len() - pe,
                    {
                        if pe < close && pe + 1 < close {
                            proof {
                                assert(tv[pe as int] == toks@[pe as int]@);
                                assert(tv[pe as int + 1] == toks@[pe as int + 1]@);
                            }
                            let sep = toks[pe].is_punct("::");
                            let idn = match &toks[pe + 1] {
                                Tok::Ident(s2) => true,
                                _ => false,
                            };
                            if sep && idn {
                                pe += 2;
                            } else {
                                break ;
                            }
                        } else {
                            break ;
                        }
                    }
                },
                _ => {},
            }
        }
        let path = copy_range(toks, q + 1, pe);
        let tail = copy_range(toks, pe, close);
        let a = Attr { inner, path, tail };
        let ghost asnap = attrs.deep_view();
        attrs.push(a);
        p = close + 1;
        proof {
            lemma_render_attrs_push(asnap, attrs.deep_view().last());
            assert(attrs.deep_view() =~= asnap.push(
                AttrV {
                    inner,
                    path: tv.subrange(q as int + 1, pe as int),
                    tail: tv.subrange(pe as int, close as int),
                },
            ));
            assert(render_attrs(attrs.deep_view()) =~= tv.subrange(start as int, p as int));
            if hyp {
                assert(av.take(m + 1) =~= av.take(m).push(av[m]));
                lemma_render_attrs_push(av.take(m), av[m]);
                assert(p as int == start + render_attrs(av.take(m + 1)).len());
            }
        }
    }
    proof {
        if hyp {
            let m = attrs@.len() as int;
            if m < av.len() {
                // The loop cannot have stopped short of the witness run:
                // its next attribute opens with a hash of its own style.
                let ra = render_attr(av[m]);
                lemma_render_attrs_split(av, m);
                lemma_render_attrs_split(av.skip(m), 1);
                assert(av.skip(m).take(1) =~= seq![av[m]]);
                assert(render_attrs(seq![av[m]]) =~= ra) by {
                    assert(seq![av[m]].drop_first() =~= Seq::<AttrV>::empty());
                    assert(ra + render_attrs(Seq::<AttrV>::empty()) =~= ra);
                }
                assert(false);
            }
            assert(av.take(m) =~= av);
        }
    }
    Ok((attrs, p))
}

/// Parses lifetime bounds `'a + 'b + ..` covering the segment from
/// `from` to its end.
fn parse_life_bounds(seg: &Vec<Tok>, from: usize) -> (r: Result<Vec<String>, ParseError>)
    requires
        from <= seg@.len(),
    ensures
        match r {
            Ok(bs) => bs.deep_view().len() > 0 && render_life_bounds(bs.deep_view())
                == seg.deep_view().subrange(from as int, seg@.len() as int),
            Err(e) => true,
        },
{
    let ghost tv = seg.deep_view();
    let mut bs: Vec<String> = Vec::new();
    if from >= seg.len() {
        return Err(ParseError { pos: from, kind: ParseErrorKind::Empty });
    }
    proof {
        assert(tv[from as int] == seg@[from as int]@);
    }
    match &seg[from] {
        Tok::Life(l) => {
            bs.push(l.clone());
            proof {
                assert(bs.deep_view() =~= seq![tv[from as int]->Life_0]);
                assert(render_life_bounds(bs.deep_view()) =~= tv.subrange(
                    from as int,
                    from as int + 1,
                ));
            }
        },
        _ => {
            return Err(ParseError { pos: from, kind: ParseErrorKind::Expected });
        },
    }
    let mut p: usize = from + 1;
    while p < seg.len()
        invariant
            from < p <= seg@.len(),
            tv == seg.deep_view(),
            tv.len() == seg@.len(),
            bs.deep_view().len() > 0,
            render_life_bounds(bs.deep_view()) == tv.subrange(from as int, p as int),
        decreases seg@.len() - p,
    {
        proof {
            assert(tv[p as int] == seg@[p as int]@);
        }
        if !seg[p].is_punct("+") {
            return Err(ParseError { pos: p, kind: ParseErrorKind::Expected });
        }
        if p + 1 >= seg.len() {
            return Err(ParseError { pos: p + 1, kind: ParseErrorKind::Empty });
        }
        proof {
            assert(tv[p as int + 1] == seg@[p as int + 1]@);
        }
        match &seg[p + 1] {
            Tok::Life(l) => {
                let ghost bsnap = bs.deep_view();
                bs.push(l.clone());
                proof {
                    assert(bs.deep_view() =~= bsnap.push(tv[p as int + 1]->Life_0));
                    lemma_render_life_bounds_push(bsnap, tv[p as int + 1]->Life_0);
                    assert(render_life_bounds(bs.deep_view()) =~= tv.subrange(
                        from as int,
                        p as int + 2,
                    ));
                }
            },
            _ => {
                return Err(ParseError { pos: p + 1, kind: ParseErrorKind::Expected });
            },
        }
        p += 2;
    }
    proof {
        assert(render_life_bounds(bs.deep_view()) =~= tv.subrange(
            from as int,
            seg@.len() as int,
        ));
    }
    Ok(bs)
}

/// Parses one generic parameter out of its comma-free segment.
fn parse_param(seg: &Vec<Tok>) -> (r: Result<GenericParam, ParseError>)
    ensures
        match r {
            Ok(p) => render_param(p.deep_view()) == seg.deep_view(),
            Err(e) => true,
        },
{
    let ghost tv = seg.deep_view();
    if seg.len() == 0 {
        return Err(ParseError { pos: 0, kind: ParseErrorKind::Empty });
    }
    proof {
        assert(tv[0] == seg@[0]@);
    }
    match &seg[0] {
        Tok::Life(l) => {
            if seg.len() == 1 {
                let p = GenericParam::LifeParam { name: l.clone(), bounds: Vec::new() };
                proof {
                    assert(p.deep_view()->LifeParam_bounds =~= Seq::<Seq<char>>::empty());
                    assert(render_param(p.deep_view()) =~= tv);
                }
                return Ok(p);
            }
            proof {
                assert(tv[1] == seg@[1]@);
            }
            if !seg[1].is_punct(":") {
                return Err(ParseError { pos: 1, kind: ParseErrorKind::Expected });
            }
            let bs = match parse_life_bounds(seg, 2) {
                Ok(bs) => bs,
                Err(e) => {
                    return Err(e);
                },
            };
            let p = GenericParam::LifeParam { name: l.clone(), bounds: bs };
            proof {
                assert(render_param(p.deep_view()) =~= tv);
            }
            Ok(p)
        },
        Tok::Kw(k) => {
            if *k == Kw::KwConst {
                let p = GenericParam::ConstParam { toks: dup_toks(seg) };
                proof {
                    assert(render_param(p.deep_view()) =~= tv);
                }
                Ok(p)
            } else {
                Err(ParseError { pos: 0, kind: ParseErrorKind::Expected })
            }
        },
        Tok::Ident(n) => {
            if seg.len() == 1 {
                let p = GenericParam::TypeParam { name: n.clone(), bounds: Vec::new() };
                proof {
                    assert(p.deep_view()->TypeParam_bounds =~= Seq::<TokV>::empty());
                    assert(render_param(p.deep_view()) =~= tv);
                }
                return Ok(p);
            }
            proof {
                assert(tv[1] == seg@[1]@);
            }
            if !seg[1].is_punct(":") {
                return Err(ParseError { pos: 1, kind: ParseErrorKind::Expected });
            }
            if seg.len() <= 2 {
                return Err(ParseError { pos: 2, kind: ParseErrorKind::Empty });
            }
            let bounds = copy_range(seg, 2, seg.len());
            let p = GenericParam::TypeParam { name: n.clone(), bounds };
            proof {
                assert(render_param(p.deep_view()) =~= tv);
            }
            Ok(p)
        },
        _ => Err(ParseError { pos: 0, kind: ParseErrorKind::Expected }),
    }
}

/// Parses a bracketless parameter list; the list may not be empty.
fn parse_params_inside(inside: &Vec<Tok>) -> (r: Result<Vec<GenericParam>, ParseError>)
    ensures
        match r {
            Ok(ps) => ps.deep_view().len() > 0 && joined(
                ps.deep_view().map_values(|p: GenericParamV| render_param(p)),
            ) == inside.deep_view(),
            Err(e) => true,
        },
{
    let segs = split_commas(inside);
    if segs.len() == 0 {
        return Err(ParseError { pos: 0, kind: ParseErrorKind::Empty });
    }
    let ghost segsv = segs.deep_view();
    let mut ps: Vec<GenericParam> = Vec::new();
    let mut k: usize = 0;
    while k < segs.len()
        invariant
            k <= segs.len(),
            segsv == segs.deep_view(),
            segsv.len() == segs@.len(),
            ps@.len() == k as int,
            forall|k2: int|
                0 <= k2 < k ==> render_param(#[trigger] ps.deep_view()[k2]) == segsv[k2],
        decreases segs.len() - k,
    {
        proof {
            assert(segsv[k as int] == segs@[k as int].deep_view());
        }
        match parse_param(&segs[k]) {
            Ok(p) => {
                let ghost pd = p.deep_view();
                let ghost psnap = ps.deep_view();
                ps.push(p);
                proof {
                    assert(ps.deep_view() =~= psnap.push(pd));
                }
            },
            Err(e) => {
                return Err(e);
            },
        }
        k += 1;
    }
    proof {
        assert(ps.deep_view().map_values(|p: GenericParamV| render_param(p)) =~= segsv);
    }
    Ok(ps)
}


/// Parses one bound-lifetime binder out of its comma-free segment.
fn parse_ld(seg: &Vec<Tok>) -> (r: Result<LifetimeDef, ParseError>)
    ensures
        match r {
            Ok(l) => render_ld(l.deep_view()) == seg.deep_view(),
            Err(e) => true,
        },
{
    let ghost tv = seg.deep_view();
    if seg.len() == 0 {
        return Err(ParseError { pos: 0, kind: ParseErrorKind::Empty });
    }
    proof {
        assert(tv[0] == seg@[0]@);
    }
    match &seg[0] {
        Tok::Life(l) => {
            if seg.len() == 1 {
                let d = LifetimeDef { name: l.clone(), bounds: Vec::new() };
                proof {
                    assert(d.deep_view().bounds =~= Seq::<Seq<char>>::empty());
                    assert(render_ld(d.deep_view()) =~= tv);
                }
                return Ok(d);
            }
            proof {
                assert(tv[1] == seg@[1]@);
            }
            if !seg[1].is_punct(":") {
                return Err(ParseError { pos: 1, kind: ParseErrorKind::Expected });
            }
            let bs = match parse_life_bounds(seg, 2) {
                Ok(bs) => bs,
                Err(e) => {
                    return Err(e);
                },
            };
            let d = LifetimeDef { name: l.clone(), bounds: bs };
            proof {
                assert(render_ld(d.deep_view()) =~= tv);
            }
            Ok(d)
        },
        _ => Err(ParseError { pos: 0, kind: ParseErrorKind::Expected }),
    }
}

/// Parses a bracketless binder list; the list may not be empty.
fn parse_lds_inside(inside: &Vec<Tok>) -> (r: Result<Vec<LifetimeDef>, ParseError>)
    ensures
        match r {
            Ok(ls) => ls.deep_view().len() > 0 && joined(
                ls.deep_view().map_values(|l: LifetimeDefV| render_ld(l)),
            ) == inside.deep_view(),
            Err(e) => true,
        },
{
    let segs = split_commas(inside);
    if segs.len() == 0 {
        return Err(ParseError { pos: 0, kind: ParseErrorKind::Empty });
    }
    let ghost segsv = segs.deep_view();
    let mut ls: Vec<LifetimeDef> = Vec::new();
    let mut k: usize = 0;
    while k < segs.len()
        invariant
            k <= segs.len(),
            segsv == segs.deep_view(),
            segsv.len() == segs@.len(),
            ls@.len() == k as int,
            forall|k2: int| 0 <= k2 < k ==> render_ld(#[trigger] ls.deep_view()[k2]) == segsv[k2],
        decreases segs.len() - k,
    {
        proof {
            assert(segsv[k as int] == segs@[k as int].deep_view());
        }
        match parse_ld(&segs[k]) {
            Ok(l) => {
                let ghost ld = l.deep_view();
                let ghost lsnap = ls.deep_view();
                ls.push(l);
                proof {
                    assert(ls.deep_view() =~= lsnap.push(ld));
                }
            },
            Err(e) => {
                return Err(e);
            },
        }
        k += 1;
    }
    proof {
        assert(ls.deep_view().map_values(|l: LifetimeDefV| render_ld(l)) =~= segsv);
    }
    Ok(ls)
}

/// Parses one where-clause predicate out of its comma-free segment.
#[verifier::rlimit(100)]
fn parse_pred(seg: &Vec<Tok>) -> (r: Result<WherePredicate, ParseError>)
    ensures
        match r {
            Ok(p) => render_pred(p.deep_view()) == seg.deep_view(),
            Err(e) => true,
        },
{
    let ghost tv = seg.deep_view();
    let n = seg.len();
    if n == 0 {
        return Err(ParseError { pos: 0, kind: ParseErrorKind::Empty });
    }
    proof {
        assert(tv[0] == seg@[0]@);
    }
    match &seg[0] {
        Tok::Life(l) => {
            if n < 2 {
                return Err(ParseError { pos: 1, kind: ParseErrorKind::Expected });
            }
            proof {
                assert(tv[1] == seg@[1]@);
            }
            if !seg[1].is_punct(":") {
                return Err(ParseError { pos: 1, kind: ParseErrorKind::Expected });
            }
            let bs = match parse_life_bounds(seg, 2) {
                Ok(bs) => bs,
                Err(e) => {
                    return Err(e);
                },
            };
            let p = WherePredicate::LifePred { name: l.clone(), bounds: bs };
            proof {
                assert(render_pred(p.deep_view()) =~= tv);
            }
            return Ok(p);
        },
        _ => {},
    }
    let is_for = n > 1 && seg[0].is_ident("for") && seg[1].is_punct("<");
    if is_for {
        proof {
            lemma_tok_lits();
        }
        let close = match find_matching(seg, 1, "<", ">") {
            Some(c) => c,
            None => {
                return Err(ParseError { pos: 1, kind: ParseErrorKind::Expected });
            },
        };
        let inside = copy_range(seg, 2, close);
        let ls = match parse_lds_inside(&inside) {
            Ok(ls) => ls,
            Err(e) => {
                return Err(e);
            },
        };
        let colon = match find_top(seg, close + 1, ":") {
            Some(c) => c,
            None => {
                return Err(ParseError { pos: close + 1, kind: ParseErrorKind::Expected });
            },
        };
        if colon <= close + 1 {
            return Err(ParseError { pos: colon, kind: ParseErrorKind::Empty });
        }
        let ty = copy_range(seg, close + 1, colon);
        let bounds = copy_range(seg, colon + 1, n);
        let p = WherePredicate::TypePred { lifetimes: ls, bounded_ty: ty, bounds };
        proof {
            assert(render_pred(p.deep_view()) =~= tv);
        }
        return Ok(p);
    }
    match find_top(seg, 0, ":") {
        Some(c) => {
            if c == 0 {
                return Err(ParseError { pos: 0, kind: ParseErrorKind::Empty });
            }
            let ty = copy_range(seg, 0, c);
            let bounds = copy_range(seg, c + 1, n);
            let lifetimes: Vec<LifetimeDef> = Vec::new();
            let p = WherePredicate::TypePred { lifetimes, bounded_ty: ty, bounds };
            proof {
                assert(p.deep_view()->TypePred_lifetimes =~= Seq::<LifetimeDefV>::empty());
                assert(render_pred(p.deep_view()) =~= tv);
            }
            Ok(p)
        },
        None => {
            match find_top(seg, 0, "=") {
                Some(e) => {
                    let p = WherePredicate::EqPred { toks: dup_toks(seg) };
                    proof {
                        assert(render_pred(p.deep_view()) =~= tv);
                    }
                    Ok(p)
                },
                None => Err(ParseError { pos: 0, kind: ParseErrorKind::Expected }),
            }
        },
    }
}

/// What one argument segment parses to: an argument, or the trailing
/// variadic marker.
pub enum ArgParsed {
    Arg(FnArg),
    Dots,
}

/// A recognized receiver renders to one of six short shapes, each
/// closing with `self`.
#[verifier::rlimit(100)]
proof fn lemma_receiver_render(rc: ReceiverV, tv: Seq<TokV>)
    requires
        rc.lifetime is Some ==> rc.reference,
        render_arg(FnArgV::Receiver(rc)) == tv,
    ensures
        1 <= tv.len() <= 4,
        tv.last() == TokV::Ident("self"@),
        (!rc.reference && rc.lifetime is None && !rc.mutable) ==> tv == seq![
            TokV::Ident("self"@),
        ],
        (!rc.reference && rc.lifetime is None && rc.mutable) ==> tv == seq![
            TokV::Ident("mut"@),
            TokV::Ident("self"@),
        ],
        (rc.reference && rc.lifetime is None && !rc.mutable) ==> tv == seq![
            TokV::Punct("&"@),
            TokV::Ident("self"@),
        ],
        (rc.reference && rc.lifetime is None && rc.mutable) ==> tv == seq![
            TokV::Punct("&"@),
            TokV::Ident("mut"@),
            TokV::Ident("self"@),
        ],
        (rc.reference && rc.lifetime is Some && !rc.mutable) ==> tv == seq![
            TokV::Punct("&"@),
            TokV::Life(rc.lifetime.unwrap()),
            TokV::Ident("self"@),
        ],
        (rc.reference && rc.lifetime is Some && rc.mutable) ==> tv == seq![
            TokV::Punct("&"@),
            TokV::Life(rc.lifetime.unwrap()),
            TokV::Ident("mut"@),
            TokV::Ident("self"@),
        ],
{
    if !rc.reference && rc.lifetime is None && !rc.mutable {
        assert(tv =~= seq![TokV::Ident("self"@)]);
    } else if !rc.reference && rc.lifetime is None && rc.mutable {
        assert(tv =~= seq![TokV::Ident("mut"@), TokV::Ident("self"@)]);
    } else if rc.reference && rc.lifetime is None && !rc.mutable {
        assert(tv =~= seq![TokV::Punct("&"@), TokV::Ident("self"@)]);
    } else if rc.reference && rc.lifetime is None && rc.mutable {
        assert(tv =~= seq![TokV::Punct("&"@), TokV::Ident("mut"@), TokV::Ident("self"@)]);
    } else if rc.reference && rc.lifetime is Some && !rc.mutable {
        assert(tv =~= seq![
            TokV::Punct("&"@),
            TokV::Life(rc.lifetime.unwrap()),
            TokV::Ident("self"@),
        ]);
    } else {
        assert(tv =~= seq![
            TokV::Punct("&"@),
            TokV::Life(rc.lifetime.unwrap()),
            TokV::Ident("mut"@),
            TokV::Ident("self"@),
        ]);
    }
}

/// A recognized typed argument renders to at least three tokens, and
/// its first token is a hash or an identifier.
proof fn lemma_typed_shape(pt: PatTypeV, tv: Seq<TokV>)
    requires
        wf_typed(pt),
        render_arg(FnArgV::Typed(pt)) == tv,
    ensures
        tv.len() >= 3,
        tv[0] == TokV::Punct("#"@) || tv[0] is Ident,
{
    let ra = render_attrs(pt.attrs);
    let patp: Seq<TokV> = if pt.pat.len() > 0 {
        pt.pat + seq![TokV::Punct(":"@)]
    } else {
        Seq::<TokV>::empty()
    };
    let asn: Seq<TokV> = match pt.assign {
        Some(x) => seq![TokV::Punct("="@)] + x.right,
        None => Seq::<TokV>::empty(),
    };
    assert(tv == ra + patp + pt.ty + asn);
    if pt.pat.len() == 0 {
        // The type-only shape: a generic head needs its closer, so the
        // type has three tokens or more.
        if pt.ty.len() == 2 {
            lemma_balanced_cdepth(pt.ty);
            reveal_with_fuel(kdepth, 3);
            assert(pt.ty.drop_last().drop_last() =~= Seq::<TokV>::empty());
            assert(pt.ty.drop_last() =~= seq![pt.ty[0]]);
            assert(kdepth(pt.ty, "<"@, ">"@) == kdelta(pt.ty[0], "<"@, ">"@) + kdelta(
                pt.ty[1],
                "<"@,
                ">"@,
            ));
            lemma_tok_lits();
            assert(false);
        }
    }
    if pt.attrs.len() > 0 {
        assert(ra == render_attr(pt.attrs[0]) + render_attrs(pt.attrs.drop_first()));
        assert(render_attr(pt.attrs[0]).len() >= 3);
        assert(tv[0] == render_attr(pt.attrs[0])[0]);
        assert(tv[0] == TokV::Punct("#"@));
        assert(tv.len() >= ra.len() + pt.ty.len());
    } else {
        assert(ra =~= Seq::<TokV>::empty());
        if pt.pat.len() > 0 {
            assert(tv[0] == pt.pat[0]);
        } else {
            assert(tv[0] == pt.ty[0]);
        }
    }
}

/// Where a recognized type and its optional default stand at `b2` and
/// run to the end of the tokens, the top-level equals sign is exactly
/// the default's own, and the type holds none.
proof fn lemma_ty_eq_layout(pt: PatTypeV, tv: Seq<TokV>, b2: int)
    requires
        wf_typed(pt),
        0 <= b2,
        tv.len() == b2 + pt.ty.len() + (match pt.assign {
            Some(x) => 1 + x.right.len() as int,
            None => 0int,
        }),
        forall|idx: int|
            b2 <= idx < tv.len() ==> tv[idx] == (pt.ty + (match pt.assign {
                Some(x) => seq![TokV::Punct("="@)] + x.right,
                None => Seq::<TokV>::empty(),
            }))[idx - b2],
    ensures
        match pt.assign {
            Some(x) => top_at(tv, b2, b2 + pt.ty.len(), "="@) && (forall|j: int|
                b2 <= j < b2 + pt.ty.len() ==> !top_at(tv, b2, j, "="@)),
            None => forall|j: int| b2 <= j < tv.len() ==> !top_at(tv, b2, j, "="@),
        },
{
    lemma_balanced_cdepth(pt.ty);
    let asn: Seq<TokV> = match pt.assign {
        Some(x) => seq![TokV::Punct("="@)] + x.right,
        None => Seq::<TokV>::empty(),
    };
    assert forall|j: int| b2 <= j < b2 + pt.ty.len() implies !top_at(tv, b2, j, "="@) by {
        assert(tv[j] == (pt.ty + asn)[j - b2]);
        assert(tv[j] == pt.ty[j - b2]);
        if tv[j] == TokV::Punct("="@) {
            assert(cdepth(pt.ty.take(j - b2)) != 0);
            assert(tv.subrange(b2, j) =~= pt.ty.take(j - b2));
        }
    }
    match pt.assign {
        Some(x) => {
            let e0 = b2 + pt.ty.len();
            assert(tv[e0] == (pt.ty + asn)[pt.ty.len() as int]);
            assert(tv[e0] == TokV::Punct("="@));
            assert(tv.subrange(b2, e0) =~= pt.ty);
            assert(cdepth(tv.subrange(b2, e0)) == 0);
        },
        None => {},
    }
}

/// Parses one argument out of its comma-free segment.  Where the
/// segment is the rendering of a recognized argument (the ghost
/// witness), parsing takes it whole.
#[verifier::rlimit(100)]
fn parse_arg(seg: &Vec<Tok>, gw: Ghost<Option<FnArgV>>) -> (r: Result<ArgParsed, ParseError>)
    ensures
        match r {
            Ok(ap) => match ap {
                ArgParsed::Arg(a) => render_arg(a.deep_view()) == seg.deep_view(),
                ArgParsed::Dots => seg.deep_view() == seq![TokV::Punct("..."@)],
            },
            Err(e) => e.kind == ParseErrorKind::Expected || e.kind == ParseErrorKind::Empty,
        },
        seg.deep_view() == seq![TokV::Punct("..."@)] ==> (match r {
            Ok(ap) => ap is Dots,
            Err(e) => false,
        }),
        (match gw@ {
            Some(av2) => wf_arg(av2) && render_arg(av2) == seg.deep_view(),
            None => false,
        }) ==> (match r {
            Ok(ap) => match ap {
                ArgParsed::Arg(a) => (match gw@ {
                    Some(av2) => (a.deep_view() is Receiver) == (av2 is Receiver),
                    None => false,
                }),
                ArgParsed::Dots => false,
            },
            Err(e) => false,
        }),
{
    let ghost tv = seg.deep_view();
    let ghost hyp = match gw@ {
        Some(av2) => wf_arg(av2) && render_arg(av2) == tv,
        None => false,
    };
    let n = seg.len();
    proof {
        lemma_tok_marks();
        if hyp {
            match gw@ {
                Some(FnArgV::Typed(pt)) => {
                    lemma_typed_shape(pt, tv);
                },
                _ => {},
            }
        }
    }
    if n == 0 {
        proof {
            if hyp {
                match gw@ {
                    Some(FnArgV::Receiver(rc)) => {
                        lemma_receiver_render(rc, tv);
                        assert(false);
                    },
                    Some(FnArgV::Typed(pt)) => {
                        assert(false);
                    },
                    None => {},
                }
            }
        }
        return Err(ParseError { pos: 0, kind: ParseErrorKind::Empty });
    }
    proof {
        assert(tv[0] == seg@[0]@);
        if n > 1 {
            assert(tv[1] == seg@[1]@);
        }
        if n > 2 {
            assert(tv[2] == seg@[2]@);
        }
        if n > 3 {
            assert(tv[3] == seg@[3]@);
        }
    }
    // The variadic marker.
    if n == 1 && seg[0].is_punct("...") {
        proof {
            assert(tv =~= seq![TokV::Punct("..."@)]);
            if hyp {
                match gw@ {
                    Some(FnArgV::Receiver(rc)) => {
                        lemma_receiver_render(rc, tv);
                        assert(false);
                    },
                    Some(FnArgV::Typed(pt)) => {
                        assert(false);
                    },
                    None => {},
                }
            }
        }
        return Ok(ArgParsed::Dots);
    }
    // Receiver shapes.
    if n == 1 && seg[0].is_ident("self") {
        let a = FnArg::Receiver(Receiver { reference: false, lifetime: None, mutable: false });
        proof {
            assert(render_arg(a.deep_view()) =~= tv);
            if hyp {
                match gw@ {
                    Some(FnArgV::Typed(pt)) => {
                        assert(false);
                    },
                    _ => {},
                }
            }
        }
        return Ok(ArgParsed::Arg(a));
    }
    if n == 2 && seg[0].is_ident("mut") && seg[1].is_ident("self") {
        let a = FnArg::Receiver(Receiver { reference: false, lifetime: None, mutable: true });
        proof {
            assert(render_arg(a.deep_view()) =~= tv);
            if hyp {
                match gw@ {
                    Some(FnArgV::Typed(pt)) => {
                        assert(false);
                    },
                    _ => {},
                }
            }
        }
        return Ok(ArgParsed::Arg(a));
    }
    if n == 2 && seg[0].is_punct("&") && seg[1].is_ident("self") {
        let a = FnArg::Receiver(Receiver { reference: true, lifetime: None, mutable: false });
        proof {
            assert(render_arg(a.deep_view()) =~= tv);
            if hyp {
                match gw@ {
                    Some(FnArgV::Typed(pt)) => {
                        assert(false);
                    },
                    _ => {},
                }
            }
        }
        return Ok(ArgParsed::Arg(a));
    }
    if n == 3 && seg[0].is_punct("&") && seg[1].is_ident("mut") && seg[2].is_ident("self") {
        let a = FnArg::Receiver(Receiver { reference: true, lifetime: None, mutable: true });
        proof {
            assert(render_arg(a.deep_view()) =~= tv);
            if hyp {
                match gw@ {
                    Some(FnArgV::Typed(pt)) => {
                        assert(tv[0] == (render_attrs(pt.attrs) + (if pt.pat.len() > 0 {
                            pt.pat + seq![TokV::Punct(":"@)]
                        } else {
                            Seq::<TokV>::empty()
                        }) + pt.ty + (match pt.assign {
                            Some(asn) => seq![TokV::Punct("="@)] + asn.right,
                            None => Seq::<TokV>::empty(),
                        }))[0]);
                        assert(false);
                    },
                    _ => {},
                }
            }
        }
        return Ok(ArgParsed::Arg(a));
    }
    if n == 3 && seg[0].is_punct("&") && seg[2].is_ident("self") {
        match &seg[1] {
            Tok::Life(l) => {
                let a = FnArg::Receiver(
                    Receiver { reference: true, lifetime: Some(l.clone()), mutable: false },
                );
                proof {
                    assert(render_arg(a.deep_view()) =~= tv);
                    if hyp {
                        match gw@ {
                            Some(FnArgV::Typed(pt)) => {
                                assert(false);
                            },
                            _ => {},
                        }
                    }
                }
                return Ok(ArgParsed::Arg(a));
            },
            _ => {},
        }
    }
    if n == 4 && seg[0].is_punct("&") && seg[2].is_ident("mut") && seg[3].is_ident("self") {
        match &seg[1] {
            Tok::Life(l) => {
                let a = FnArg::Receiver(
                    Receiver { reference: true, lifetime: Some(l.clone()), mutable: true },
                );
                proof {
                    assert(render_arg(a.deep_view()) =~= tv);
                    if hyp {
                        match gw@ {
                            Some(FnArgV::Typed(pt)) => {
                                assert(false);
                            },
                            _ => {},
                        }
                    }
                }
                return Ok(ArgParsed::Arg(a));
            },
            _ => {},
        }
    }
    // Past the receiver shapes: a recognized witness can only be a
    // typed argument, whose rendering never matches those shapes.
    proof {
        if hyp {
            match gw@ {
                Some(FnArgV::Receiver(rc)) => {
                    lemma_receiver_render(rc, tv);
                    assert(false);
                },
                _ => {},
            }
        }
    }
    // A typed argument: attributes, then either the type-only legacy
    // shape or a pattern, colon, type, and optional inline default.
    let ghost wat: Seq<AttrV> = match gw@ {
        Some(FnArgV::Typed(pt)) => pt.attrs,
        _ => Seq::empty(),
    };
    proof {
        if hyp {
            match gw@ {
                Some(FnArgV::Typed(pt)) => {
                    let ra = render_attrs(pt.attrs);
                    let rest = (if pt.pat.len() > 0 {
                        pt.pat + seq![TokV::Punct(":"@)]
                    } else {
                        Seq::<TokV>::empty()
                    }) + pt.ty + (match pt.assign {
                        Some(asn) => seq![TokV::Punct("="@)] + asn.right,
                        None => Seq::<TokV>::empty(),
                    });
                    assert(tv == ra + rest);
                    assert(tv.subrange(0, ra.len() as int) =~= ra);
                    assert(rest[0] is Ident);
                    assert(tv[ra.len() as int] == rest[0]);
                    assert(attrs_hyp(tv, 0, pt.attrs, false));
                },
                _ => {},
            }
        }
    }
    let (attrs, aend) = match parse_attrs(seg, 0, false, Ghost(wat)) {
        Ok(p) => p,
        Err(e) => {
            return Err(e);
        },
    };
    if aend >= n {
        return Err(ParseError { pos: aend, kind: ParseErrorKind::Empty });
    }
    proof {
        assert(tv[aend as int] == seg@[aend as int]@);
        if aend + 1 < n {
            assert(tv[aend as int + 1] == seg@[aend as int + 1]@);
        }
    }
    let legacy = aend + 1 < n && (match &seg[aend] {
        Tok::Ident(s0) => true,
        _ => false,
    }) && seg[aend + 1].is_punct("<");
    // Under a typed witness the attribute run was consumed exactly, and
    // the remainder decomposes as the witness renders it.
    let ghost base = aend as int;
    proof {
        if hyp {
            lemma_tok_marks();
            match gw@ {
                Some(FnArgV::Typed(pt)) => {
                    let ra = render_attrs(pt.attrs);
                    assert(base == ra.len());
                    let patp: Seq<TokV> = if pt.pat.len() > 0 {
                        pt.pat + seq![TokV::Punct(":"@)]
                    } else {
                        Seq::<TokV>::empty()
                    };
                    let asn: Seq<TokV> = match pt.assign {
                        Some(x) => seq![TokV::Punct("="@)] + x.right,
                        None => Seq::<TokV>::empty(),
                    };
                    assert(tv == ra + (patp + pt.ty + asn));
                    assert forall|idx: int| base <= idx < tv.len() implies tv[idx] == (patp
                        + pt.ty + asn)[idx - base] by {}
                    if pt.pat.len() > 0 {
                        assert(tv[base] == pt.pat[0]);
                        assert(tv[base + 1] == TokV::Punct(":"@));
                        assert(!legacy);
                    } else {
                        assert(tv[base] == pt.ty[0]);
                        assert(tv[base + 1] == pt.ty[1]);
                        assert(n > base + 1);
                        assert(legacy);
                    }
                },
                _ => {},
            }
        }
    }
    if legacy {
        let (ty, assign) = match find_top(seg, aend, "=") {
            Some(e) => {
                proof {
                    if hyp {
                        match gw@ {
                            Some(FnArgV::Typed(pt)) => {
                                assert(pt.pat.len() == 0);
                                lemma_ty_eq_layout(pt, tv, base);
                                match pt.assign {
                                    Some(x) => {
                                        let e0 = base + pt.ty.len();
                                        if (e as int) < e0 {
                                            assert(!top_at(tv, base, e as int, "="@));
                                            assert(false);
                                        }
                                        if (e as int) > e0 {
                                            assert(top_at(tv, base, e0, "="@));
                                            assert(false);
                                        }
                                        assert(e as int == e0);
                                    },
                                    None => {
                                        assert(!top_at(tv, base, e as int, "="@));
                                        assert(false);
                                    },
                                }
                            },
                            _ => {},
                        }
                    }
                }
                if e <= aend || e + 1 >= n {
                    return Err(ParseError { pos: e, kind: ParseErrorKind::Empty });
                }
                (copy_range(seg, aend, e), Some(Assign { right: copy_range(seg, e + 1, n) }))
            },
            None => {
                proof {
                    if hyp {
                        match gw@ {
                            Some(FnArgV::Typed(pt)) => {
                                assert(pt.pat.len() == 0);
                                match pt.assign {
                                    Some(x) => {
                                        lemma_ty_eq_layout(pt, tv, base);
                                        assert(top_at(tv, base, base + pt.ty.len(), "="@));
                                        assert(false);
                                    },
                                    None => {},
                                }
                            },
                            _ => {},
                        }
                    }
                }
                (copy_range(seg, aend, n), None)
            },
        };
        let a = FnArg::Typed(PatType { attrs, pat: Vec::new(), ty, assign });
        proof {
            assert(a.deep_view()->Typed_0.pat =~= Seq::<TokV>::empty());
            assert(render_arg(a.deep_view()) =~= tv);
        }
        return Ok(ArgParsed::Arg(a));
    }
    let colon = match find_top(seg, aend, ":") {
        Some(c) => c,
        None => {
            proof {
                if hyp {
                    match gw@ {
                        Some(FnArgV::Typed(pt)) => {
                            assert(pt.pat.len() == 1);
                            assert(top_at(tv, base, base + 1, ":"@)) by {
                                assert(tv.subrange(base, base + 1) =~= seq![tv[base]]);
                                reveal_with_fuel(cdepth, 2);
                                assert(seq![tv[base]].drop_last() =~= Seq::<TokV>::empty());
                                lemma_cdelta(tv[base]);
                            }
                            assert(false);
                        },
                        _ => {},
                    }
                }
            }
            return Err(ParseError { pos: aend, kind: ParseErrorKind::Expected });
        },
    };
    proof {
        if hyp {
            match gw@ {
                Some(FnArgV::Typed(pt)) => {
                    assert(pt.pat.len() == 1);
                    assert(top_at(tv, base, base + 1, ":"@)) by {
                        assert(tv.subrange(base, base + 1) =~= seq![tv[base]]);
                        reveal_with_fuel(cdepth, 2);
                        assert(seq![tv[base]].drop_last() =~= Seq::<TokV>::empty());
                        lemma_cdelta(tv[base]);
                    }
                    if colon > base + 1 {
                        assert(!top_at(tv, base, base + 1, ":"@));
                        assert(false);
                    }
                    if colon == base {
                        assert(tv[base] is Ident);
                        assert(false);
                    }
                    assert(colon == base + 1);
                },
                _ => {},
            }
        }
    }
    if colon <= aend {
        return Err(ParseError { pos: colon, kind: ParseErrorKind::Empty });
    }
    let pat = copy_range(seg, aend, colon);
    let (ty, assign) = match find_top(seg, colon + 1, "=") {
        Some(e) => {
            proof {
                if hyp {
                    match gw@ {
                        Some(FnArgV::Typed(pt)) => {
                            assert(pt.pat.len() == 1);
                            lemma_ty_eq_layout(pt, tv, base + 2);
                            match pt.assign {
                                Some(x) => {
                                    let e0 = base + 2 + pt.ty.len();
                                    if (e as int) < e0 {
                                        assert(!top_at(tv, base + 2, e as int, "="@));
                                        assert(false);
                                    }
                                    if (e as int) > e0 {
                                        assert(top_at(tv, base + 2, e0, "="@));
                                        assert(false);
                                    }
                                    assert(e as int == e0);
                                },
                                None => {
                                    assert(!top_at(tv, base + 2, e as int, "="@));
                                    assert(false);
                                },
                            }
                        },
                        _ => {},
                    }
                }
            }
            if e <= colon + 1 || e + 1 >= n {
                return Err(ParseError { pos: e, kind: ParseErrorKind::Empty });
            }
            (copy_range(seg, colon + 1, e), Some(Assign { right: copy_range(seg, e + 1, n) }))
        },
        None => {
            proof {
                if hyp {
                    match gw@ {
                        Some(FnArgV::Typed(pt)) => {
                            assert(pt.pat.len() == 1);
                            match pt.assign {
                                Some(x) => {
                                    lemma_ty_eq_layout(pt, tv, base + 2);
                                    assert(top_at(tv, base + 2, base + 2 + pt.ty.len(), "="@));
                                    assert(false);
                                },
                                None => {},
                            }
                        },
                        _ => {},
                    }
                }
            }
            if colon + 1 >= n {
                return Err(ParseError { pos: colon, kind: ParseErrorKind::Empty });
            }
            (copy_range(seg, colon + 1, n), None)
        },
    };
    let a = FnArg::Typed(PatType { attrs, pat, ty, assign });
    proof {
        assert(render_arg(a.deep_view()) =~= tv);
    }
    Ok(ArgParsed::Arg(a))
}

/// A run of attributes of one style filters to itself for that style and
/// to nothing for the other.
proof fn lemma_attrs_of_uniform(a: Seq<AttrV>, inner: bool)
    requires
        forall|i: int| 0 <= i < a.len() ==> (#[trigger] a[i]).inner == inner,
    ensures
        attrs_of(a, inner) == a,
        attrs_of(a, !inner) == Seq::<AttrV>::empty(),
    decreases a.len(),
{
    if a.len() > 0 {
        assert forall|i: int| 0 <= i < a.drop_first().len() implies (
        #[trigger] a.drop_first()[i]).inner == inner by {
            assert(a.drop_first()[i] == a[i + 1]);
        }
        lemma_attrs_of_uniform(a.drop_first(), inner);
        assert(attrs_of(a, inner) =~= a);
        assert(attrs_of(a, !inner) =~= Seq::<AttrV>::empty());
    }
}

/// Filtering distributes over concatenation of attribute runs.
proof fn lemma_attrs_of_add(a: Seq<AttrV>, b: Seq<AttrV>, inner: bool)
    ensures
        attrs_of(a + b, inner) == attrs_of(a, inner) + attrs_of(b, inner),
    decreases a.len(),
{
    if a.len() == 0 {
        assert(a + b =~= b);
        assert(attrs_of(a, inner) + attrs_of(b, inner) =~= attrs_of(b, inner));
    } else {
        assert((a + b)[0] == a[0]);
        assert((a + b).drop_first() =~= a.drop_first() + b);
        lemma_attrs_of_add(a.drop_first(), b, inner);
        assert(attrs_of(a + b, inner) =~= attrs_of(a, inner) + attrs_of(b, inner));
    }
}


/// Parses a bracketless argument list: the arguments and whether the
/// trailing variadic marker stands at its end.  On success the list
/// holds at most one receiver, and only in the first position; a
/// receiver error is raised only over a segment that renders a
/// receiver.  Where the tokens are the rendering of a recognized
/// argument list (the ghost witness), parsing succeeds.
#[verifier::rlimit(100)]
fn parse_args_inside(inside: &Vec<Tok>, gw: Ghost<Option<(Seq<FnArgV>, bool)>>) -> (r: Result<
    (Vec<FnArg>, bool),
    ParseError,
>)
    ensures
        match r {
            Ok(p) => render_args(p.0.deep_view(), p.1) == inside.deep_view() && (forall|i: int|
                0 < i < p.0.deep_view().len() ==> !((#[trigger] p.0.deep_view()[i])
                    is Receiver)),
            Err(e) => (e.kind == ParseErrorKind::SecondReceiver || e.kind
                == ParseErrorKind::ReceiverNotFirst) ==> exists|rv: FnArgV|
                rv is Receiver && 0 < e.pos < sp_split(inside.deep_view(), 0, Seq::empty()).len()
                    && render_arg(rv) == sp_split(inside.deep_view(), 0, Seq::empty())[
                e.pos as int],
        },
        (match gw@ {
            Some(t) => wf_inputs(t.0) && render_args(t.0, t.1) == inside.deep_view(),
            None => false,
        }) ==> r is Ok,
{
    let ghost insidev = inside.deep_view();
    let ghost gargs: Seq<FnArgV> = match gw@ {
        Some(t) => t.0,
        None => Seq::empty(),
    };
    let ghost gvar: bool = match gw@ {
        Some(t) => t.1,
        None => false,
    };
    let ghost hyp = gw@ is Some && wf_inputs(gargs) && render_args(gargs, gvar) == insidev;
    // The segment list a recognized witness would be cut into.
    let ghost gl: Seq<Seq<TokV>> = gargs.map_values(|a2: FnArgV| render_arg(a2)) + (if gvar {
        seq![seq![TokV::Punct("..."@)]]
    } else {
        Seq::<Seq<TokV>>::empty()
    });
    let segs = split_commas(inside);
    let ghost segsv = segs.deep_view();
    proof {
        if hyp && insidev.len() > 0 {
            lemma_tok_lits();
            lemma_cdelta(TokV::Punct("..."@));
            lemma_piece_atom(TokV::Punct("..."@));
            assert forall|k2: int| 0 <= k2 < gl.len() implies piece(#[trigger] gl[k2]) by {
                if k2 < gargs.len() {
                    assert(gl[k2] == render_arg(gargs[k2]));
                    lemma_wf_arg_piece(gargs[k2]);
                } else {
                    assert(gl[k2] == seq![TokV::Punct("..."@)]);
                }
            }
            let base = gargs.map_values(|a2: FnArgV| render_arg(a2));
            if gvar {
                if gargs.len() > 0 {
                    assert(gl =~= base.push(seq![TokV::Punct("..."@)]));
                    lemma_joined_push(base, seq![TokV::Punct("..."@)]);
                    assert(joined(gl) == joined(base) + seq![TokV::Punct(","@)] + seq![
                        TokV::Punct("..."@),
                    ]);
                    assert(joined(gl) == insidev);
                } else {
                    assert(gl =~= seq![seq![TokV::Punct("..."@)]]);
                    assert(joined(gl) == seq![TokV::Punct("..."@)]);
                    assert(base =~= Seq::<Seq<TokV>>::empty());
                    assert(joined(gl) =~= insidev);
                }
            } else {
                assert(gl =~= base);
                assert(joined(gl) == insidev);
            }
            assert(gl.len() > 0) by {
                if gargs.len() == 0 && !gvar {
                    assert(gl =~= Seq::<Seq<TokV>>::empty());
                    assert(joined(gl) =~= Seq::<TokV>::empty());
                    assert(insidev.len() == 0);
                }
            }
            lemma_sp_split_joined(gl);
            assert(segsv == gl);
        }
        if hyp && insidev.len() == 0 {
            assert(segsv =~= Seq::<Seq<TokV>>::empty());
        }
    }
    let mut inputs: Vec<FnArg> = Vec::new();
    let mut variadic = false;
    let mut k: usize = 0;
    let mut has_receiver = false;
    while k < segs.len()
        invariant_except_break
            !variadic,
            inputs@.len() == k as int,
        invariant
            k <= segs.len(),
            segsv == segs.deep_view(),
            segsv.len() == segs@.len(),
            insidev == inside.deep_view(),
            hyp == (gw@ is Some && wf_inputs(gargs) && render_args(gargs, gvar) == insidev),
            gargs == (match gw@ {
                Some(t) => t.0,
                None => Seq::empty(),
            }),
            gvar == (match gw@ {
                Some(t) => t.1,
                None => false,
            }),
            gl == gargs.map_values(|a2: FnArgV| render_arg(a2)) + (if gvar {
                seq![seq![TokV::Punct("..."@)]]
            } else {
                Seq::<Seq<TokV>>::empty()
            }),
            hyp && insidev.len() > 0 ==> segsv == gl,
            hyp ==> k as int <= gargs.len(),
            inside@.len() == 0 ==> segsv.len() == 0,
            insidev.len() > 0 ==> segsv == sp_split(insidev, 0, Seq::empty()),
            inputs@.len() <= segsv.len(),
            has_receiver ==> k >= 1,
            forall|i: int|
                0 < i < inputs.deep_view().len() ==> !((#[trigger] inputs.deep_view()[i])
                    is Receiver),
            forall|k2: int|
                0 <= k2 < inputs@.len() ==> render_arg(#[trigger] inputs.deep_view()[k2])
                    == segsv[k2],
        ensures
            variadic ==> inputs@.len() == segsv.len() - 1 && segsv[segsv.len() - 1] == seq![
                TokV::Punct("..."@),
            ],
            !variadic ==> inputs@.len() == segsv.len(),
            forall|i: int|
                0 < i < inputs.deep_view().len() ==> !((#[trigger] inputs.deep_view()[i])
                    is Receiver),
        decreases segs.len() - k,
    {
        proof {
            assert(segsv[k as int] == segs@[k as int].deep_view());
            if hyp {
                assert(insidev.len() > 0);
                if (k as int) < gargs.len() {
                    assert(gl[k as int] == render_arg(gargs[k as int]));
                }
            }
        }
        let ghost wk: Option<FnArgV> = if hyp && (k as int) < gargs.len() {
            Some(gargs[k as int])
        } else {
            None
        };
        match parse_arg(&segs[k], Ghost(wk)) {
            Ok(ap) => match ap {
                ArgParsed::Arg(a) => {
                    let is_recv = match &a {
                        FnArg::Receiver(rc) => true,
                        FnArg::Typed(pt) => false,
                    };
                    proof {
                        if hyp {
                            if (k as int) < gargs.len() {
                                assert(is_recv == (gargs[k as int] is Receiver));
                                if is_recv {
                                    assert(k == 0);
                                }
                            } else {
                                // Only the variadic marker remains.
                                assert(gvar && k as int == gargs.len());
                                assert(segsv[k as int] == seq![TokV::Punct("..."@)]);
                                assert(false);
                            }
                        }
                    }
                    if is_recv {
                        if has_receiver {
                            return Err(
                                ParseError { pos: k, kind: ParseErrorKind::SecondReceiver },
                            );
                        }
                        if k > 0 {
                            proof {
                                let rv = a.deep_view();
                                assert(rv is Receiver && render_arg(rv) == segsv[k as int]);
                            }
                            return Err(
                                ParseError { pos: k, kind: ParseErrorKind::ReceiverNotFirst },
                            );
                        }
                        has_receiver = true;
                    }
                    let ghost ad = a.deep_view();
                    let ghost isnap = inputs.deep_view();
                    inputs.push(a);
                    proof {
                        assert(inputs.deep_view() =~= isnap.push(ad));
                    }
                },
                ArgParsed::Dots => {
                    proof {
                        if hyp {
                            if (k as int) < gargs.len() {
                                assert(false);
                            }
                            assert(gvar && k as int == gargs.len());
                            assert(k as int + 1 == gl.len());
                        }
                    }
                    if k + 1 != segs.len() {
                        return Err(
                            ParseError { pos: k, kind: ParseErrorKind::VariadicNotLast },
                        );
                    }
                    variadic = true;
                    proof {
                        assert(segsv[k as int] =~= seq![TokV::Punct("..."@)]);
                        assert(inputs@.len() == segsv.len() - 1);
                    }
                    break ;
                },
            },
            Err(e) => {
                proof {
                    if hyp {
                        if (k as int) < gargs.len() {
                            assert(false);
                        } else {
                            assert(gvar && k as int == gargs.len());
                            assert(segsv[k as int] == seq![TokV::Punct("..."@)]);
                            assert(false);
                        }
                    }
                }
                return Err(e);
            },
        }
        k += 1;
    }
    proof {
        let rendered = inputs.deep_view().map_values(|a: FnArgV| render_arg(a));
        if variadic {
            assert(rendered =~= segsv.take(segsv.len() - 1));
            if inputs.deep_view().len() > 0 {
                assert(segsv =~= segsv.take(segsv.len() - 1).push(seq![TokV::Punct("..."@)]));
                lemma_joined_push(segsv.take(segsv.len() - 1), seq![TokV::Punct("..."@)]);
                assert(render_args(inputs.deep_view(), variadic) =~= joined(segsv));
            } else {
                assert(segsv =~= seq![seq![TokV::Punct("..."@)]]);
                assert(joined(segsv) == seq![TokV::Punct("..."@)]);
                assert(render_args(inputs.deep_view(), variadic) =~= joined(segsv));
            }
        } else {
            assert(rendered =~= segsv);
            assert(render_args(inputs.deep_view(), variadic) == joined(segsv));
        }
        if inside@.len() == 0 {
            assert(segsv =~= Seq::<Seq<TokV>>::empty());
            assert(render_args(inputs.deep_view(), variadic) =~= inside.deep_view());
        } else {
            assert(render_args(inputs.deep_view(), variadic) == inside.deep_view());
        }
    }
    Ok((inputs, variadic))
}

/// Parses a braceless where-clause body into its predicates.
fn parse_preds_inside(winside: &Vec<Tok>) -> (r: Result<Vec<WherePredicate>, ParseError>)
    ensures
        match r {
            Ok(preds) => (if winside@.len() == 0 {
                preds.deep_view().len() == 0
            } else {
                joined(preds.deep_view().map_values(|pr: WherePredicateV| render_pred(pr)))
                    == winside.deep_view()
            }) && joined(
                preds.deep_view().map_values(|pr: WherePredicateV| render_pred(pr)),
            ) == winside.deep_view(),
            Err(e) => true,
        },
{
    let wsegs = split_commas(winside);
    let ghost wsegsv = wsegs.deep_view();
    let mut preds: Vec<WherePredicate> = Vec::new();
    let mut k2: usize = 0;
    while k2 < wsegs.len()
        invariant
            k2 <= wsegs.len(),
            wsegsv == wsegs.deep_view(),
            wsegsv.len() == wsegs@.len(),
            preds@.len() == k2 as int,
            forall|k3: int|
                0 <= k3 < k2 ==> render_pred(#[trigger] preds.deep_view()[k3]) == wsegsv[k3],
        decreases wsegs.len() - k2,
    {
        proof {
            assert(wsegsv[k2 as int] == wsegs@[k2 as int].deep_view());
        }
        match parse_pred(&wsegs[k2]) {
            Ok(pr) => {
                let ghost pd = pr.deep_view();
                let ghost psnap = preds.deep_view();
                preds.push(pr);
                proof {
                    assert(preds.deep_view() =~= psnap.push(pd));
                }
            },
            Err(e) => {
                return Err(e);
            },
        }
        k2 += 1;
    }
    proof {
        let rendered = preds.deep_view().map_values(|pr: WherePredicateV| render_pred(pr));
        assert(rendered =~= wsegsv);
        if winside@.len() == 0 {
            assert(wsegsv =~= Seq::<Seq<TokV>>::empty());
            assert(joined(rendered) =~= winside.deep_view());
        } else {
            assert(joined(rendered) == winside.deep_view());
        }
    }
    Ok(preds)
}


/// Parses the optional qualifier run: const, async, unsafe, and the ABI.
#[verifier::rlimit(100)]
fn parse_quals(toks: &Vec<Tok>, start: usize, gw: Ghost<(bool, bool, bool)>) -> (r: (
    bool,
    bool,
    bool,
    Option<Vec<Tok>>,
    usize,
))
    requires
        start <= toks@.len(),
    ensures
        start <= r.4 <= toks@.len(),
        render_quals(r.0, r.1, r.2, r.3.deep_view()) == toks.deep_view().subrange(
            start as int,
            r.4 as int,
        ),
        ({
            let ql = render_quals(gw@.0, gw@.1, gw@.2, None);
            &&& start + ql.len() < toks@.len()
            &&& toks.deep_view().subrange(start as int, start as int + ql.len() as int) == ql
            &&& toks.deep_view()[start as int + ql.len() as int] == TokV::Ident("fn"@)
        }) ==> r.0 == gw@.0 && r.1 == gw@.1 && r.2 == gw@.2 && r.3 is None && r.4 as int == start
            + render_quals(gw@.0, gw@.1, gw@.2, None).len(),
{
    let ghost tv = toks.deep_view();
    let n = toks.len();
    let mut p: usize = start;
    let constness = if p < n {
        proof {
            assert(tv[p as int] == toks@[p as int]@);
        }
        match &toks[p] {
            Tok::Kw(k) => *k == Kw::KwConst,
            _ => false,
        }
    } else {
        false
    };
    if constness {
        p += 1;
    }
    let asyncness = if p < n {
        proof {
            assert(tv[p as int] == toks@[p as int]@);
        }
        match &toks[p] {
            Tok::Kw(k) => *k == Kw::KwAsync,
            _ => false,
        }
    } else {
        false
    };
    if asyncness {
        p += 1;
    }
    let unsafety = if p < n {
        proof {
            assert(tv[p as int] == toks@[p as int]@);
        }
        match &toks[p] {
            Tok::Kw(k) => *k == Kw::KwUnsafe,
            _ => false,
        }
    } else {
        false
    };
    if unsafety {
        p += 1;
    }
    let has_abi = if p < n {
        proof {
            assert(tv[p as int] == toks@[p as int]@);
        }
        match &toks[p] {
            Tok::Kw(k) => *k == Kw::KwAbi,
            _ => false,
        }
    } else {
        false
    };
    let abi: Option<Vec<Tok>> = if has_abi {
        let astart = p;
        p += 1;
        if p < n {
            proof {
                assert(tv[p as int] == toks@[p as int]@);
            }
            match &toks[p] {
                Tok::Lit(s) => {
                    p += 1;
                },
                _ => {},
            }
        }
        Some(copy_range(toks, astart, p))
    } else {
        None
    };
    proof {
        assert(render_quals(constness, asyncness, unsafety, abi.deep_view()) =~= tv.subrange(
            start as int,
            p as int,
        ));
        let c = gw@.0;
        let a2 = gw@.1;
        let u = gw@.2;
        if ({
            let ql = render_quals(c, a2, u, None);
            &&& start + ql.len() < tv.len()
            &&& tv.subrange(start as int, start as int + ql.len() as int) == ql
            &&& tv[start as int + ql.len() as int] == TokV::Ident("fn"@)
        }) {
            let ql = render_quals(c, a2, u, None);
            let o1: int = if c {
                1
            } else {
                0
            };
            let o2: int = o1 + if a2 {
                1int
            } else {
                0int
            };
            let o3: int = o2 + if u {
                1int
            } else {
                0int
            };
            assert(ql.len() == o3);
            assert forall|idx: int| 0 <= idx < ql.len() implies tv[start + idx] == ql[idx] by {
                assert(tv.subrange(start as int, start as int + ql.len() as int)[idx]
                    == tv[start + idx]);
            }
            if c {
                assert(ql[0] == TokV::Kw(Kw::KwConst));
            }
            if a2 {
                assert(ql[o1] == TokV::Kw(Kw::KwAsync));
            }
            if u {
                assert(ql[o2] == TokV::Kw(Kw::KwUnsafe));
            }
        }
    }
    (constness, asyncness, unsafety, abi, p)
}


/// Parses the optional bracketed generic-parameter list at `p`.
fn parse_generics_part(toks: &Vec<Tok>, p: usize) -> (r: Result<
    (Vec<GenericParam>, usize),
    ParseError,
>)
    requires
        p <= toks@.len(),
    ensures
        match r {
            Ok(pp) => p <= pp.1 <= toks@.len() && render_params(pp.0.deep_view())
                == toks.deep_view().subrange(p as int, pp.1 as int),
            Err(e) => true,
        },
        (p == toks@.len() || toks.deep_view()[p as int] != TokV::Punct("<"@)) ==> (match r {
            Ok(pp) => pp.1 == p && pp.0@.len() == 0,
            Err(e) => false,
        }),
{
    let ghost tv = toks.deep_view();
    let n = toks.len();
    if p < n {
        proof {
            assert(tv[p as int] == toks@[p as int]@);
        }
        if toks[p].is_punct("<") {
            proof {
                lemma_tok_lits();
            }
            let close = match find_matching(toks, p, "<", ">") {
                Some(c) => c,
                None => {
                    return Err(ParseError { pos: p, kind: ParseErrorKind::Expected });
                },
            };
            let inside = copy_range(toks, p + 1, close);
            let params = match parse_params_inside(&inside) {
                Ok(ps) => ps,
                Err(e) => {
                    return Err(ParseError { pos: p, kind: e.kind });
                },
            };
            proof {
                assert(render_params(params.deep_view()) =~= tv.subrange(
                    p as int,
                    close as int + 1,
                ));
            }
            return Ok((params, close + 1));
        }
    }
    let params: Vec<GenericParam> = Vec::new();
    proof {
        assert(params.deep_view() =~= Seq::<GenericParamV>::empty());
        assert(render_params(params.deep_view()) =~= tv.subrange(p as int, p as int));
    }
    Ok((params, p))
}

/// Parses the optional return type at `p`.  Where a recognized return
/// type stands there followed only by the body or the end (the ghost
/// witness), parsing consumes exactly it.
#[verifier::rlimit(100)]
fn parse_output_part(toks: &Vec<Tok>, p: usize, gw: Ghost<Option<(Seq<TokV>, Seq<TokV>)>>) -> (r:
    Result<(Option<Vec<Tok>>, usize), ParseError>)
    requires
        p <= toks@.len(),
    ensures
        match r {
            Ok(pp) => p <= pp.1 <= toks@.len() && (match pp.0.deep_view() {
                Some(o) => seq![TokV::Punct("->"@)] + o,
                None => Seq::<TokV>::empty(),
            }) == toks.deep_view().subrange(p as int, pp.1 as int),
            Err(e) => true,
        },
        (p == toks@.len() || toks.deep_view()[p as int] != TokV::Punct("->"@)) ==> (match r {
            Ok(pp) => pp.1 == p && pp.0 is None,
            Err(e) => false,
        }),
        (match gw@ {
            Some(t) => {
                &&& t.0.len() > 0
                &&& piece(t.0)
                &&& no_top_stop(t.0)
                &&& toks.deep_view().subrange(p as int, toks@.len() as int) == seq![
                    TokV::Punct("->"@),
                ] + t.0 + t.1
                &&& (t.1.len() == 0 || t.1[0] == TokV::Punct("{"@))
            },
            None => false,
        }) ==> (match r {
            Ok(pp) => pp.1 as int == p + 1 + (match gw@ {
                Some(t) => t.0.len() as int,
                None => 0int,
            }),
            Err(e) => false,
        }),
{
    let ghost tv = toks.deep_view();
    let ghost hyp = match gw@ {
        Some(t) => t.0.len() > 0 && piece(t.0) && no_top_stop(t.0) && tv.subrange(
            p as int,
            tv.len() as int,
        ) == seq![TokV::Punct("->"@)] + t.0 + t.1 && (t.1.len() == 0 || t.1[0] == TokV::Punct(
            "{"@,
        )),
        None => false,
    };
    let n = toks.len();
    proof {
        lemma_tok_lits();
        assert(tv.len() == toks@.len());
        if hyp {
            match gw@ {
                Some(t) => {
                    assert(tv.subrange(p as int, tv.len() as int) == seq![TokV::Punct("->"@)]
                        + t.0 + t.1);
                    assert(tv.subrange(p as int, tv.len() as int).len() == tv.len() - p);
                    assert(tv.len() - p == 1 + t.0.len() + t.1.len());
                    assert forall|idx: int| p <= idx < tv.len() implies tv[idx] == (seq![
                        TokV::Punct("->"@),
                    ] + t.0 + t.1)[idx - p] by {
                        assert(tv.subrange(p as int, tv.len() as int)[idx - p] == tv[idx]);
                    }
                    assert(tv[p as int] == TokV::Punct("->"@));
                },
                None => {},
            }
        }
    }
    if p < n {
        proof {
            assert(tv[p as int] == toks@[p as int]@);
        }
        if toks[p].is_punct("->") {
            let oend = find_ty_end(toks, p + 1);
            proof {
                if hyp {
                    match gw@ {
                        Some(t) => {
                            let c0 = p + 1 + t.0.len();
                            lemma_balanced_cdepth(t.0);
                            assert(tv.subrange(p as int + 1, c0 as int) =~= t.0);
                            assert forall|j: int|
                                p + 1 <= j < c0 implies !(#[trigger] ty_stop_at(
                                tv,
                                p as int + 1,
                                j,
                            )) by {
                                assert(tv[j] == t.0[j - p - 1]);
                                assert(tv.subrange(p as int + 1, j) =~= t.0.take(j - p - 1));
                            }
                            if t.1.len() > 0 {
                                assert(tv[c0 as int] == TokV::Punct("{"@));
                                assert(ty_stop_at(tv, p as int + 1, c0 as int));
                                if (oend as int) < c0 {
                                    assert(ty_stop_at(tv, p as int + 1, oend as int));
                                    assert(false);
                                }
                                if (oend as int) > c0 {
                                    assert(!ty_stop_at(tv, p as int + 1, c0 as int));
                                    assert(false);
                                }
                            } else {
                                assert(c0 == tv.len());
                                if (oend as int) < c0 {
                                    assert(ty_stop_at(tv, p as int + 1, oend as int));
                                    assert(false);
                                }
                            }
                            assert(oend as int == c0);
                        },
                        None => {},
                    }
                }
            }
            if oend <= p + 1 {
                return Err(ParseError { pos: p, kind: ParseErrorKind::Empty });
            }
            let o = copy_range(toks, p + 1, oend);
            proof {
                assert(seq![TokV::Punct("->"@)] + o.deep_view() =~= tv.subrange(
                    p as int,
                    oend as int,
                ));
            }
            return Ok((Some(o), oend));
        }
    }
    proof {
        assert((None::<Vec<Tok>>).deep_view() is None);
    }
    Ok((None, p))
}

/// Parses the optional where clause at `p`, up to the body brace.
fn parse_where_part(toks: &Vec<Tok>, p: usize) -> (r: Result<
    (Option<Vec<WherePredicate>>, usize),
    ParseError,
>)
    requires
        p <= toks@.len(),
    ensures
        match r {
            Ok(pp) => p <= pp.1 <= toks@.len() && (match pp.0.deep_view() {
                Some(preds) => seq![TokV::Ident("where"@)] + joined(
                    preds.map_values(|pr: WherePredicateV| render_pred(pr)),
                ),
                None => Seq::<TokV>::empty(),
            }) == toks.deep_view().subrange(p as int, pp.1 as int),
            Err(e) => true,
        },
        (p == toks@.len() || toks.deep_view()[p as int] != TokV::Ident("where"@)) ==> (match r {
            Ok(pp) => pp.1 == p && pp.0 is None,
            Err(e) => false,
        }),
{
    let ghost tv = toks.deep_view();
    let n = toks.len();
    if p < n {
        proof {
            assert(tv[p as int] == toks@[p as int]@);
        }
        if toks[p].is_ident("where") {
            let wend = match find_top(toks, p + 1, "{") {
                Some(w) => w,
                None => n,
            };
            let winside = copy_range(toks, p + 1, wend);
            let preds = match parse_preds_inside(&winside) {
                Ok(pp) => pp,
                Err(e) => {
                    return Err(ParseError { pos: p, kind: e.kind });
                },
            };
            proof {
                assert(seq![TokV::Ident("where"@)] + joined(
                    preds.deep_view().map_values(|pr: WherePredicateV| render_pred(pr)),
                ) =~= tv.subrange(p as int, wend as int));
            }
            return Ok((Some(preds), wend));
        }
    }
    proof {
        assert((None::<Vec<WherePredicate>>).deep_view() is None);
    }
    Ok((None, p))
}


/// Assembles the signature rendering from its consumed pieces.
proof fn lemma_sig_assemble(
    tv: Seq<TokV>,
    sv2: SignatureV,
    c0: int,
    c4: int,
    c5: int,
    c6: int,
    cp: int,
    c8: int,
    c9: int,
)
    requires
        0 <= c0 <= c4 <= c5 <= c6,
        c6 + 1 <= cp,
        cp + 1 <= c8 <= c9 <= tv.len(),
        render_quals(sv2.constness, sv2.asyncness, sv2.unsafety, sv2.abi) == tv.subrange(
            c0,
            c4,
        ),
        seq![TokV::Ident("fn"@), TokV::Ident(sv2.ident)] == tv.subrange(c4, c5),
        render_params(sv2.generics.params) == tv.subrange(c5, c6),
        tv[c6] == TokV::Punct("("@),
        render_args(sv2.inputs, sv2.variadic) == tv.subrange(c6 + 1, cp),
        tv[cp] == TokV::Punct(")"@),
        (match sv2.output {
            Some(o) => seq![TokV::Punct("->"@)] + o,
            None => Seq::<TokV>::empty(),
        }) == tv.subrange(cp + 1, c8),
        (match sv2.generics.where_clause {
            Some(preds2) => seq![TokV::Ident("where"@)] + joined(
                preds2.map_values(|pr: WherePredicateV| render_pred(pr)),
            ),
            None => Seq::<TokV>::empty(),
        }) == tv.subrange(c8, c9),
    ensures
        render_signature(sv2) == tv.subrange(c0, c9),
{
    let r1 = render_quals(sv2.constness, sv2.asyncness, sv2.unsafety, sv2.abi);
    let r2 = r1 + seq![TokV::Ident("fn"@), TokV::Ident(sv2.ident)];
    let r3 = r2 + render_params(sv2.generics.params);
    let r4 = r3 + seq![TokV::Punct("("@)];
    let r5 = r4 + render_args(sv2.inputs, sv2.variadic);
    let r6 = r5 + seq![TokV::Punct(")"@)];
    let r7 = r6 + (match sv2.output {
        Some(o) => seq![TokV::Punct("->"@)] + o,
        None => Seq::<TokV>::empty(),
    });
    let r8 = r7 + (match sv2.generics.where_clause {
        Some(preds2) => seq![TokV::Ident("where"@)] + joined(
            preds2.map_values(|pr: WherePredicateV| render_pred(pr)),
        ),
        None => Seq::<TokV>::empty(),
    });
    assert(r2 =~= tv.subrange(c0, c5));
    assert(r3 =~= tv.subrange(c0, c6));
    assert(r4 =~= tv.subrange(c0, c6 + 1));
    assert(r5 =~= tv.subrange(c0, cp));
    assert(r6 =~= tv.subrange(c0, cp + 1));
    assert(r7 =~= tv.subrange(c0, c8));
    assert(r8 =~= tv.subrange(c0, c9));
    assert(render_signature(sv2) == r8);
}

/// Where a recognized signature's rendering stands at `start`, its
/// parts stand at fixed offsets.
#[verifier::rlimit(100)]
proof fn lemma_sig_layout(sv: SignatureV, rest: Seq<TokV>, tv: Seq<TokV>, start: int)
    requires
        wf_signature(sv),
        0 <= start <= tv.len(),
        tv.subrange(start, tv.len() as int) == render_signature(sv) + rest,
    ensures
        ({
            let ql = render_quals(sv.constness, sv.asyncness, sv.unsafety, None);
            let gra = render_args(sv.inputs, sv.variadic);
            let gro: Seq<TokV> = match sv.output {
                Some(o) => seq![TokV::Punct("->"@)] + o,
                None => Seq::<TokV>::empty(),
            };
            let c6 = start + ql.len() + 2;
            let cc = c6 + 1 + gra.len();
            &&& render_signature(sv).len() == ql.len() + 2 + 1 + gra.len() + 1 + gro.len()
            &&& tv.len() - start == render_signature(sv).len() + rest.len()
            &&& tv.subrange(start, start + ql.len() as int) == ql
            &&& tv[start + ql.len()] == TokV::Ident("fn"@)
            &&& tv[start + ql.len() + 1] == TokV::Ident(sv.ident)
            &&& tv[c6] == TokV::Punct("("@)
            &&& tv[cc] == TokV::Punct(")"@)
            &&& tv.subrange(c6 + 1, cc) == gra
            &&& tv.subrange(cc + 1, tv.len() as int) == gro + rest
        }),
{
    let ql = render_quals(sv.constness, sv.asyncness, sv.unsafety, None);
    let gra = render_args(sv.inputs, sv.variadic);
    let gro: Seq<TokV> = match sv.output {
        Some(o) => seq![TokV::Punct("->"@)] + o,
        None => Seq::<TokV>::empty(),
    };
    let rsig = render_signature(sv);
    assert(render_params(sv.generics.params) =~= Seq::<TokV>::empty());
    assert(render_quals(sv.constness, sv.asyncness, sv.unsafety, sv.abi) == ql);
    assert(rsig =~= ql + seq![TokV::Ident("fn"@), TokV::Ident(sv.ident)] + seq![
        TokV::Punct("("@),
    ] + gra + seq![TokV::Punct(")"@)] + gro);
    assert(tv.subrange(start, tv.len() as int).len() == tv.len() - start);
    assert forall|idx: int| start <= idx < tv.len() implies tv[idx] == (rsig + rest)[idx
        - start] by {
        assert(tv.subrange(start, tv.len() as int)[idx - start] == tv[idx]);
    }
    let c6 = start + ql.len() + 2;
    let cc = c6 + 1 + gra.len();
    assert(tv.subrange(start, start + ql.len() as int) =~= ql);
    assert(tv.subrange(c6 + 1, cc) =~= gra);
    assert(tv.subrange(cc + 1, tv.len() as int) =~= gro + rest);
}

/// Parses a whole signature starting at `start`; on success the
/// rendering of the result is exactly the consumed token range.  Where
/// a recognized signature's rendering stands at `start`, followed only
/// by the body or the end (the ghost witness), parsing consumes
/// exactly it.
#[verifier::rlimit(100)]
fn parse_signature_at(
    toks: &Vec<Tok>,
    start: usize,
    gw: Ghost<Option<(SignatureV, Seq<TokV>)>>,
) -> (r: Result<(Signature, usize), ParseError>)
    requires
        start <= toks@.len(),
    ensures
        match r {
            Ok(p) => start <= p.1 <= toks@.len() && render_signature(p.0.deep_view())
                == toks.deep_view().subrange(start as int, p.1 as int),
            Err(e) => true,
        },
        (match gw@ {
            Some(t) => wf_signature(t.0) && toks.deep_view().subrange(
                start as int,
                toks@.len() as int,
            ) == render_signature(t.0) + t.1 && (t.1.len() == 0 || t.1[0] == TokV::Punct("{"@)),
            None => false,
        }) ==> (match r {
            Ok(p) => p.1 as int == start + (match gw@ {
                Some(t) => render_signature(t.0).len() as int,
                None => 0int,
            }),
            Err(e) => false,
        }),
{
    let ghost tv = toks.deep_view();
    let ghost hyp = match gw@ {
        Some(t) => wf_signature(t.0) && tv.subrange(start as int, tv.len() as int)
            == render_signature(t.0) + t.1 && (t.1.len() == 0 || t.1[0] == TokV::Punct("{"@)),
        None => false,
    };
    let ghost gsv: SignatureV = match gw@ {
        Some(t) => t.0,
        None => arbitrary(),
    };
    let ghost grest: Seq<TokV> = match gw@ {
        Some(t) => t.1,
        None => arbitrary(),
    };
    let ghost ql = render_quals(gsv.constness, gsv.asyncness, gsv.unsafety, None);
    let ghost gra = render_args(gsv.inputs, gsv.variadic);
    let ghost gro: Seq<TokV> = match gsv.output {
        Some(o) => seq![TokV::Punct("->"@)] + o,
        None => Seq::<TokV>::empty(),
    };
    let ghost rsig = render_signature(gsv);
    let n = toks.len();
    proof {
        lemma_tok_lits();
        assert(tv.len() == toks@.len());
        if hyp {
            lemma_sig_layout(gsv, grest, tv, start as int);
        }
    }
    let ghost gq: (bool, bool, bool) = if hyp {
        (gsv.constness, gsv.asyncness, gsv.unsafety)
    } else {
        (false, false, false)
    };
    let (constness, asyncness, unsafety, abi, q0) = parse_quals(toks, start, Ghost(gq));
    let mut p: usize = q0;
    let ghost c0 = start as int;
    let ghost c4 = p as int;
    proof {
        if hyp {
            assert(q0 as int == start + ql.len());
        }
    }
    if !(p < n) {
        return Err(ParseError { pos: p, kind: ParseErrorKind::Expected });
    }
    proof {
        assert(tv[p as int] == toks@[p as int]@);
    }
    if !toks[p].is_ident("fn") {
        return Err(ParseError { pos: p, kind: ParseErrorKind::Expected });
    }
    p += 1;
    if !(p < n) {
        proof {
            if hyp {
                assert(tv[c4 + 1] == TokV::Ident(gsv.ident));
            }
        }
        return Err(ParseError { pos: p, kind: ParseErrorKind::Expected });
    }
    proof {
        assert(tv[p as int] == toks@[p as int]@);
        if hyp {
            assert(tv[c4 + 1] == TokV::Ident(gsv.ident));
        }
    }
    let ident = match &toks[p] {
        Tok::Ident(s) => s.clone(),
        _ => {
            return Err(ParseError { pos: p, kind: ParseErrorKind::Expected });
        },
    };
    p += 1;
    let ghost c5 = p as int;
    proof {
        if hyp {
            assert(tv[c5] == TokV::Punct("("@));
        }
    }
    let (params, g_end) = match parse_generics_part(toks, p) {
        Ok(pp) => pp,
        Err(e) => {
            return Err(e);
        },
    };
    p = g_end;
    let ghost c6 = p as int;
    if !(p < n) {
        return Err(ParseError { pos: p, kind: ParseErrorKind::Expected });
    }
    proof {
        assert(tv[p as int] == toks@[p as int]@);
    }
    if !toks[p].is_punct("(") {
        return Err(ParseError { pos: p, kind: ParseErrorKind::Expected });
    }
    let ghost cc = c6 + 1 + gra.len();
    proof {
        lemma_tok_lits();
        if hyp {
            assert(c6 == c5);
            assert(tv[cc] == TokV::Punct(")"@));
            assert(tv.subrange(c6 + 1, cc) == gra);
            lemma_wf_args_closed(gsv.inputs, gsv.variadic);
        }
    }
    let close_paren = match find_matching(toks, p, "(", ")") {
        Some(c) => c,
        None => {
            proof {
                if hyp {
                    assert(false);
                }
            }
            return Err(ParseError { pos: p, kind: ParseErrorKind::Expected });
        },
    };
    proof {
        if hyp {
            if (close_paren as int) < cc {
                let j = close_paren as int - c6 - 1;
                assert(tv[close_paren as int] == gra[j]);
                assert(tv.subrange(c6 + 1, close_paren as int) =~= gra.take(j));
                lemma_depth_take(gra, j, "("@, ")"@);
                assert(kdepth(gra.take(j + 1), "("@, ")"@) >= 0);
                assert(false);
            }
            if (close_paren as int) > cc {
                assert(!(tv[cc] == TokV::Punct(")"@) && kdepth(
                    tv.subrange(c6 + 1, cc),
                    "("@,
                    ")"@,
                ) == 0));
                assert(false);
            }
            assert(close_paren as int == cc);
        }
    }
    let inside = copy_range(toks, p + 1, close_paren);
    let ghost gwa: Option<(Seq<FnArgV>, bool)> = if hyp {
        Some((gsv.inputs, gsv.variadic))
    } else {
        None
    };
    let (inputs, variadic) = match parse_args_inside(&inside, Ghost(gwa)) {
        Ok(pp) => pp,
        Err(e) => {
            return Err(ParseError { pos: p, kind: e.kind });
        },
    };
    proof {
        assert(render_args(inputs.deep_view(), variadic) =~= tv.subrange(
            c6 + 1,
            close_paren as int,
        ));
    }
    p = close_paren + 1;
    let ghost c7 = p as int;
    let ghost gwo: Option<(Seq<TokV>, Seq<TokV>)> = if hyp {
        match gsv.output {
            Some(o) => Some((o, grest)),
            None => None,
        }
    } else {
        None
    };
    proof {
        if hyp {
            assert(tv.subrange(cc + 1, tv.len() as int) == gro + grest);
            match gsv.output {
                Some(o) => {
                    assert(tv.subrange(c7, tv.len() as int) =~= seq![TokV::Punct("->"@)] + o
                        + grest);
                },
                None => {
                    if c7 < tv.len() {
                        assert(gro =~= Seq::<TokV>::empty());
                        assert(tv.subrange(c7, tv.len() as int) =~= grest);
                        assert(tv[c7] == tv.subrange(c7, tv.len() as int)[0]);
                    }
                },
            }
        }
    }
    let (output, o_end) = match parse_output_part(toks, p, Ghost(gwo)) {
        Ok(pp) => pp,
        Err(e) => {
            return Err(e);
        },
    };
    p = o_end;
    let ghost c8 = p as int;
    proof {
        if hyp {
            assert(c8 == c7 + gro.len());
            if c8 < tv.len() {
                assert(tv[c8] == tv.subrange(cc + 1, tv.len() as int)[c8 - cc - 1]);
                assert(tv[c8] == grest[0]);
            }
        }
    }
    let (where_clause, w_end) = match parse_where_part(toks, p) {
        Ok(pp) => pp,
        Err(e) => {
            return Err(e);
        },
    };
    p = w_end;
    let ghost c9 = p as int;
    let sig = Signature {
        constness,
        asyncness,
        unsafety,
        abi,
        ident,
        generics: Generics { params, where_clause },
        inputs,
        variadic,
        output,
    };
    proof {
        let sv2 = sig.deep_view();
        assert(render_quals(sv2.constness, sv2.asyncness, sv2.unsafety, sv2.abi) =~= tv.subrange(
            c0,
            c4,
        ));
        assert(seq![TokV::Ident("fn"@), TokV::Ident(sv2.ident)] =~= tv.subrange(c4, c5));
        assert(render_params(sv2.generics.params) =~= tv.subrange(c5, c6));
        assert((match sv2.output {
            Some(o) => seq![TokV::Punct("->"@)] + o,
            None => Seq::<TokV>::empty(),
        }) =~= tv.subrange(c7, c8));
        assert((match sv2.generics.where_clause {
            Some(preds2) => seq![TokV::Ident("where"@)] + joined(
                preds2.map_values(|pr: WherePredicateV| render_pred(pr)),
            ),
            None => Seq::<TokV>::empty(),
        }) =~= tv.subrange(c8, c9));
        lemma_sig_assemble(tv, sv2, c0, c4, c5, c6, close_paren as int, c8, c9);
        if hyp {
            assert(c9 == start + rsig.len());
        }
    }
    Ok((sig, p))
}

/// Parses a whole signature starting at `start`; on success the
/// rendering of the result is exactly the consumed token range.  Where
/// a recognized signature's rendering stands at `start`, followed only
/// by the body or the end, parsing succeeds.
pub fn parse_signature(toks: &Vec<Tok>, start: usize) -> (r: Result<
    (Signature, usize),
    ParseError,
>)
    requires
        start <= toks@.len(),
    ensures
        match r {
            Ok(p) => start <= p.1 <= toks@.len() && render_signature(p.0.deep_view())
                == toks.deep_view().subrange(start as int, p.1 as int),
            Err(e) => true,
        },
        (exists|sv: SignatureV, rest: Seq<TokV>|
            wf_signature(sv) && toks.deep_view().subrange(start as int, toks@.len() as int)
                == render_signature(sv) + rest && (rest.len() == 0 || rest[0] == TokV::Punct(
                "{"@,
            ))) ==> r is Ok,
{
    let ghost w: Option<(SignatureV, Seq<TokV>)> = if exists|sv: SignatureV, rest: Seq<TokV>|
        wf_signature(sv) && toks.deep_view().subrange(start as int, toks@.len() as int)
            == render_signature(sv) + rest && (rest.len() == 0 || rest[0] == TokV::Punct(
            "{"@,
        )) {
        Some(
            choose|sv: SignatureV, rest: Seq<TokV>|
                wf_signature(sv) && toks.deep_view().subrange(start as int, toks@.len() as int)
                    == render_signature(sv) + rest && (rest.len() == 0 || rest[0]
                    == TokV::Punct("{"@)),
        )
    } else {
        None
    };
    parse_signature_at(toks, start, Ghost(w))
}

/// Where a recognized declaration's rendering is the whole input, its
/// parts stand at fixed offsets.
#[verifier::rlimit(100)]
proof fn lemma_item_layout(fv: ItemFnV, tv: Seq<TokV>)
    requires
        wf_item_fn(fv),
        render_item_fn(fv) == tv,
    ensures
        ({
            let rsig = render_signature(fv.sig);
            let vlen = fv.vis.len() as int;
            let cb = vlen + rsig.len();
            let ce = cb + 1 + fv.block.len();
            &&& tv.len() == vlen + rsig.len() + 2 + fv.block.len()
            &&& (vlen == 0 || (vlen == 1 && tv[0] == TokV::Ident("pub"@)))
            &&& tv[vlen] == (if fv.sig.constness {
                TokV::Kw(Kw::KwConst)
            } else if fv.sig.asyncness {
                TokV::Kw(Kw::KwAsync)
            } else if fv.sig.unsafety {
                TokV::Kw(Kw::KwUnsafe)
            } else {
                TokV::Ident("fn"@)
            })
            &&& tv[0] != TokV::Punct("#"@)
            &&& tv.subrange(vlen, tv.len() as int) == rsig + (seq![TokV::Punct("{"@)] + fv.block
                + seq![TokV::Punct("}"@)])
            &&& tv[cb] == TokV::Punct("{"@)
            &&& tv[ce] == TokV::Punct("}"@)
            &&& ce + 1 == tv.len()
            &&& tv.subrange(cb + 1, ce) == fv.block
            &&& tv[cb + 1] != TokV::Punct("#"@)
        }),
{
    lemma_tok_lits();
    let rsig = render_signature(fv.sig);
    let vlen = fv.vis.len() as int;
    let cb = vlen + rsig.len();
    let ce = cb + 1 + fv.block.len();
    assert(attrs_of(fv.attrs, false) =~= Seq::<AttrV>::empty());
    assert(attrs_of(fv.attrs, true) =~= Seq::<AttrV>::empty());
    assert(render_attrs(Seq::<AttrV>::empty()) =~= Seq::<TokV>::empty());
    assert(tv =~= fv.vis + rsig + seq![TokV::Punct("{"@)] + fv.block + seq![
        TokV::Punct("}"@),
    ]);
    let ql = render_quals(fv.sig.constness, fv.sig.asyncness, fv.sig.unsafety, fv.sig.abi);
    assert(rsig =~= ql + seq![TokV::Ident("fn"@), TokV::Ident(fv.sig.ident)] + render_params(
        fv.sig.generics.params,
    ) + seq![TokV::Punct("("@)] + render_args(fv.sig.inputs, fv.sig.variadic) + seq![
        TokV::Punct(")"@),
    ] + (match fv.sig.output {
        Some(o) => seq![TokV::Punct("->"@)] + o,
        None => Seq::<TokV>::empty(),
    }) + (match fv.sig.generics.where_clause {
        Some(preds) => seq![TokV::Ident("where"@)] + joined(
            preds.map_values(|pr: WherePredicateV| render_pred(pr)),
        ),
        None => Seq::<TokV>::empty(),
    }));
    assert(render_params(fv.sig.generics.params) =~= Seq::<TokV>::empty());
    assert(rsig[0] == (if fv.sig.constness {
        TokV::Kw(Kw::KwConst)
    } else if fv.sig.asyncness {
        TokV::Kw(Kw::KwAsync)
    } else if fv.sig.unsafety {
        TokV::Kw(Kw::KwUnsafe)
    } else {
        TokV::Ident("fn"@)
    }));
    assert(tv[vlen] == rsig[0]);
    if fv.vis.len() > 0 {
        assert(tv[0] == TokV::Ident("pub"@));
    }
    assert(tv.subrange(vlen, tv.len() as int) =~= rsig + (seq![TokV::Punct("{"@)] + fv.block
        + seq![TokV::Punct("}"@)]));
    assert(tv.subrange(cb + 1, ce) =~= fv.block);
    if fv.block.len() == 0 {
        assert(tv[cb + 1] == TokV::Punct("}"@));
    } else {
        assert(tv[cb + 1] == fv.block[0]);
    }
}

/// Parses a whole declaration: outer attributes, visibility, signature,
/// and the braced body with its inner attributes.  On success the
/// rendering of the result is exactly the input; the rendering of any
/// recognized declaration parses.
#[verifier::rlimit(100)]
pub fn parse_item_fn(toks: &Vec<Tok>) -> (r: Result<ItemFn, ParseError>)
    ensures
        match r {
            Ok(f) => render_item_fn(f.deep_view()) == toks.deep_view(),
            Err(e) => true,
        },
        (exists|fv: ItemFnV| wf_item_fn(fv) && render_item_fn(fv) == toks.deep_view()) ==> r
            is Ok,
{
    let ghost tv = toks.deep_view();
    let ghost hyp = exists|fv: ItemFnV| wf_item_fn(fv) && render_item_fn(fv) == tv;
    let ghost fv0: ItemFnV = if hyp {
        choose|fv: ItemFnV| wf_item_fn(fv) && render_item_fn(fv) == tv
    } else {
        arbitrary()
    };
    let ghost rsig = render_signature(fv0.sig);
    let ghost vlen = fv0.vis.len() as int;
    let n = toks.len();
    proof {
        lemma_tok_lits();
        assert(tv.len() == toks@.len());
        if hyp {
            lemma_item_layout(fv0, tv);
        }
    }
    let (outer, p1) = match parse_attrs(toks, 0, false, Ghost(Seq::<AttrV>::empty())) {
        Ok(p) => p,
        Err(e) => {
            return Err(e);
        },
    };
    let mut p: usize = p1;
    proof {
        if hyp {
            assert(p1 == 0);
        }
    }
    let vis: Vec<Tok> = if p < n {
        proof {
            assert(tv[p as int] == toks@[p as int]@);
        }
        if toks[p].is_ident("pub") {
            let vstart = p;
            p += 1;
            if p < n {
                proof {
                    assert(tv[p as int] == toks@[p as int]@);
                    if hyp {
                        assert(vlen == 1);
                    }
                }
                if toks[p].is_punct("(") {
                    let close = match find_matching(toks, p, "(", ")") {
                        Some(c) => c,
                        None => {
                            return Err(
                                ParseError { pos: p, kind: ParseErrorKind::Expected },
                            );
                        },
                    };
                    p = close + 1;
                }
            }
            copy_range(toks, vstart, p)
        } else {
            Vec::new()
        }
    } else {
        Vec::new()
    };
    let ghost c1 = p as int;
    proof {
        if hyp {
            assert(c1 == vlen);
        }
    }
    let ghost wsig: Option<(SignatureV, Seq<TokV>)> = if hyp {
        Some(
            (
                fv0.sig,
                seq![TokV::Punct("{"@)] + fv0.block + seq![TokV::Punct("}"@)],
            ),
        )
    } else {
        None
    };
    let (sig, p2) = match parse_signature_at(toks, p, Ghost(wsig)) {
        Ok(pp) => pp,
        Err(e) => {
            return Err(e);
        },
    };
    let mut q: usize = p2;
    let ghost cb = c1 + rsig.len();
    proof {
        if hyp {
            assert(q as int == cb);
            assert(tv[cb] == TokV::Punct("{"@));
            assert(tv[cb + 1 + fv0.block.len()] == TokV::Punct("}"@));
        }
    }
    if !(q < n) {
        return Err(ParseError { pos: q, kind: ParseErrorKind::Expected });
    }
    proof {
        assert(tv[q as int] == toks@[q as int]@);
    }
    if !toks[q].is_punct("{") {
        return Err(ParseError { pos: q, kind: ParseErrorKind::Expected });
    }
    proof {
        lemma_tok_lits();
        if hyp {
            assert(tv.subrange(cb + 1, cb + 1 + fv0.block.len()) == fv0.block);
        }
    }
    let close = match find_matching(toks, q, "{", "}") {
        Some(c) => c,
        None => {
            proof {
                if hyp {
                    assert(false);
                }
            }
            return Err(ParseError { pos: q, kind: ParseErrorKind::Expected });
        },
    };
    let ghost ce = cb + 1 + fv0.block.len();
    proof {
        if hyp {
            if (close as int) < ce {
                let j = close as int - cb - 1;
                assert(tv[close as int] == fv0.block[j]);
                assert(tv.subrange(cb + 1, close as int) =~= fv0.block.take(j));
                lemma_depth_take(fv0.block, j, "{"@, "}"@);
                assert(kdepth(fv0.block.take(j + 1), "{"@, "}"@) >= 0);
                assert(false);
            }
            if (close as int) > ce {
                assert(!(tv[ce] == TokV::Punct("}"@) && kdepth(
                    tv.subrange(cb + 1, ce),
                    "{"@,
                    "}"@,
                ) == 0));
                assert(false);
            }
            assert(close as int == ce);
            assert(close + 1 == n);
        }
    }
    if close + 1 != n {
        return Err(ParseError { pos: close + 1, kind: ParseErrorKind::Expected });
    }
    proof {
        if hyp {
            assert(tv[q as int + 1] != TokV::Punct("#"@));
        }
    }
    let (inner, p3) = match parse_attrs(toks, q + 1, true, Ghost(Seq::<AttrV>::empty())) {
        Ok(pp) => pp,
        Err(e) => {
            return Err(e);
        },
    };
    if p3 > close {
        proof {
            if hyp {
                assert(p3 == q + 1);
            }
        }
        return Err(ParseError { pos: p3, kind: ParseErrorKind::Expected });
    }
    let block = copy_range(toks, p3, close);
    let ghost ov = outer.deep_view();
    let ghost iv = inner.deep_view();
    let mut attrs = outer;
    let mut tail = inner;
    attrs.append(&mut tail);
    proof {
        assert(attrs.deep_view() =~= ov + iv);
    }
    let f = ItemFn { attrs, vis, sig, block };
    proof {
        lemma_attrs_of_uniform(ov, false);
        lemma_attrs_of_uniform(iv, true);
        lemma_attrs_of_add(ov, iv, false);
        lemma_attrs_of_add(ov, iv, true);
        assert(attrs_of(f.deep_view().attrs, false) == ov);
        assert(attrs_of(f.deep_view().attrs, true) == iv);
        assert(render_item_fn(f.deep_view()) =~= tv);
    }
    Ok(f)
}

} // verus!
