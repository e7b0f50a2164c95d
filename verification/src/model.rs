//! The data model: declarations as plain values.
//!
//! A declaration is a list of tokens; the structured types below hold what
//! the transformation reads from one — qualifiers, identifier, generics,
//! arguments, return type, body.  Each type has a mathematical view (the
//! `..V` types) over which every contract speaks.

use vstd::prelude::*;

verus! {

/// A keyword that qualifies a callable.  Kept apart from plain identifiers
/// so that the transformation can match on it structurally.
#[derive(Clone, Copy, PartialEq, Eq, Structural, Debug)]
pub enum Kw {
    KwConst,
    KwAsync,
    KwUnsafe,
    KwAbi,
}

/// One token of source text.
#[derive(Debug)]
pub enum Tok {
    /// An identifier or a non-qualifier keyword.
    Ident(String),
    /// A lifetime, stored without its leading apostrophe.
    Life(String),
    /// Punctuation; joined multi-character operators arrive as one token.
    Punct(String),
    /// A literal, stored as its source text.
    Lit(String),
    /// A qualifier keyword.
    Kw(Kw),
}

/// The view of a token: the same shape over character sequences.
pub enum TokV {
    Ident(Seq<char>),
    Life(Seq<char>),
    Punct(Seq<char>),
    Lit(Seq<char>),
    Kw(Kw),
}

impl View for Tok {
    type V = TokV;

    open spec fn view(&self) -> TokV {
        match self {
            Tok::Ident(s) => TokV::Ident(s@),
            Tok::Life(s) => TokV::Life(s@),
            Tok::Punct(s) => TokV::Punct(s@),
            Tok::Lit(s) => TokV::Lit(s@),
            Tok::Kw(k) => TokV::Kw(*k),
        }
    }
}

impl DeepView for Tok {
    type V = TokV;

    open spec fn deep_view(&self) -> TokV {
        self.view()
    }
}

impl Tok {
    /// An exact copy.
    pub fn dup(&self) -> (r: Tok)
        ensures
            r@ == self@,
    {
        match self {
            Tok::Ident(s) => Tok::Ident(s.clone()),
            Tok::Life(s) => Tok::Life(s.clone()),
            Tok::Punct(s) => Tok::Punct(s.clone()),
            Tok::Lit(s) => Tok::Lit(s.clone()),
            Tok::Kw(k) => Tok::Kw(*k),
        }
    }

    /// Whether this token is the identifier whose text is `w`.
    pub fn is_ident(&self, w: &str) -> (r: bool)
        ensures
            r == (self@ == TokV::Ident(w@)),
    {
        match self {
            Tok::Ident(s) => *s == w.to_owned(),
            _ => false,
        }
    }

    /// Whether this token is the punctuation whose text is `w`.
    pub fn is_punct(&self, w: &str) -> (r: bool)
        ensures
            r == (self@ == TokV::Punct(w@)),
    {
        match self {
            Tok::Punct(s) => *s == w.to_owned(),
            _ => false,
        }
    }

    /// Structural equality of two tokens.
    pub fn eq_tok(&self, other: &Tok) -> (r: bool)
        ensures
            r == (self@ == other@),
    {
        match (self, other) {
            (Tok::Ident(a), Tok::Ident(b)) => *a == *b,
            (Tok::Life(a), Tok::Life(b)) => *a == *b,
            (Tok::Punct(a), Tok::Punct(b)) => *a == *b,
            (Tok::Lit(a), Tok::Lit(b)) => *a == *b,
            (Tok::Kw(a), Tok::Kw(b)) => a == b,
            _ => false,
        }
    }
}

/// An exact copy of a token list.
pub fn dup_toks(v: &Vec<Tok>) -> (r: Vec<Tok>)
    ensures
        r.deep_view() == v.deep_view(),
{
    let mut r: Vec<Tok> = Vec::new();
    let mut i: usize = 0;
    while i < v.len()
        invariant
            i <= v.len(),
            r@.len() == i as int,
            v.deep_view().len() == v@.len(),
            r.deep_view() =~= v.deep_view().take(i as int),
        decreases v.len() - i,
    {
        r.push(v[i].dup());
        proof {
            assert(r.deep_view() =~= v.deep_view().take(i as int + 1));
        }
        i += 1;
    }
    proof {
        assert(r.deep_view() =~= v.deep_view());
    }
    r
}

/// Structural equality of two token lists.
pub fn eq_toks(a: &Vec<Tok>, b: &Vec<Tok>) -> (r: bool)
    ensures
        r == (a.deep_view() == b.deep_view()),
{
    if a.len() != b.len() {
        proof {
            assert(a.deep_view().len() == a@.len());
            assert(b.deep_view().len() == b@.len());
        }
        return false;
    }
    let mut i: usize = 0;
    while i < a.len()
        invariant
            i <= a.len(),
            a.len() == b.len(),
            a.deep_view().len() == a@.len(),
            b.deep_view().len() == b@.len(),
            forall|j: int| 0 <= j < i ==> a.deep_view()[j] == b.deep_view()[j],
        decreases a.len() - i,
    {
        if !a[i].eq_tok(&b[i]) {
            proof {
                assert(a.deep_view()[i as int] == a@[i as int].deep_view());
                assert(b.deep_view()[i as int] == b@[i as int].deep_view());
            }
            return false;
        }
        i += 1;
    }
    proof {
        assert(a.deep_view() =~= b.deep_view());
    }
    true
}

/// An exact copy of a list of names.
pub fn dup_strs(v: &Vec<String>) -> (r: Vec<String>)
    ensures
        r.deep_view() == v.deep_view(),
{
    let mut r: Vec<String> = Vec::new();
    let mut i: usize = 0;
    while i < v.len()
        invariant
            i <= v.len(),
            r@.len() == i as int,
            v.deep_view().len() == v@.len(),
            r.deep_view() =~= v.deep_view().take(i as int),
        decreases v.len() - i,
    {
        r.push(v[i].clone());
        proof {
            assert(r.deep_view() =~= v.deep_view().take(i as int + 1));
        }
        i += 1;
    }
    proof {
        assert(r.deep_view() =~= v.deep_view());
    }
    r
}

/// An attribute `#[path(tail)]` or `#![path(tail)]` on an item or argument.
#[derive(Debug)]
pub struct Attr {
    /// Whether the attribute is an inner one (`#![..]`).
    pub inner: bool,
    /// The attribute's path tokens.
    pub path: Vec<Tok>,
    /// Everything after the path, delimiters included.
    pub tail: Vec<Tok>,
}

pub struct AttrV {
    pub inner: bool,
    pub path: Seq<TokV>,
    pub tail: Seq<TokV>,
}

impl DeepView for Attr {
    type V = AttrV;

    open spec fn deep_view(&self) -> AttrV {
        AttrV { inner: self.inner, path: self.path.deep_view(), tail: self.tail.deep_view() }
    }
}

impl Attr {
    /// An exact copy.
    pub fn dup(&self) -> (r: Attr)
        ensures
            r.deep_view() == self.deep_view(),
    {
        Attr { inner: self.inner, path: dup_toks(&self.path), tail: dup_toks(&self.tail) }
    }
}

/// An exact copy of an attribute list.
pub fn dup_attrs(v: &Vec<Attr>) -> (r: Vec<Attr>)
    ensures
        r.deep_view() == v.deep_view(),
{
    let mut r: Vec<Attr> = Vec::new();
    let mut i: usize = 0;
    while i < v.len()
        invariant
            i <= v.len(),
            r@.len() == i as int,
            v.deep_view().len() == v@.len(),
            r.deep_view() =~= v.deep_view().take(i as int),
        decreases v.len() - i,
    {
        r.push(v[i].dup());
        proof {
            assert(r.deep_view() =~= v.deep_view().take(i as int + 1));
        }
        i += 1;
    }
    proof {
        assert(r.deep_view() =~= v.deep_view());
    }
    r
}

/// A default value for an argument: the expression after the equals sign.
#[derive(Debug)]
pub struct Assign {
    pub right: Vec<Tok>,
}

pub struct AssignV {
    pub right: Seq<TokV>,
}

impl DeepView for Assign {
    type V = AssignV;

    open spec fn deep_view(&self) -> AssignV {
        AssignV { right: self.right.deep_view() }
    }
}

impl Assign {
    /// An exact copy.
    pub fn dup(&self) -> (r: Assign)
        ensures
            r.deep_view() == self.deep_view(),
    {
        Assign { right: dup_toks(&self.right) }
    }
}

/// An exact copy of an optional default value.
pub fn dup_opt_assign(v: &Option<Assign>) -> (r: Option<Assign>)
    ensures
        r.deep_view() == v.deep_view(),
{
    match v {
        Some(a) => Some(a.dup()),
        None => None,
    }
}

/// A typed argument: pattern, type, and an optional default value.
#[derive(Debug)]
pub struct PatType {
    pub attrs: Vec<Attr>,
    pub pat: Vec<Tok>,
    pub ty: Vec<Tok>,
    pub assign: Option<Assign>,
}

pub struct PatTypeV {
    pub attrs: Seq<AttrV>,
    pub pat: Seq<TokV>,
    pub ty: Seq<TokV>,
    pub assign: Option<AssignV>,
}

impl DeepView for PatType {
    type V = PatTypeV;

    open spec fn deep_view(&self) -> PatTypeV {
        PatTypeV {
            attrs: self.attrs.deep_view(),
            pat: self.pat.deep_view(),
            ty: self.ty.deep_view(),
            assign: self.assign.deep_view(),
        }
    }
}

impl PatType {
    /// An exact copy.
    pub fn dup(&self) -> (r: PatType)
        ensures
            r.deep_view() == self.deep_view(),
    {
        PatType {
            attrs: dup_attrs(&self.attrs),
            pat: dup_toks(&self.pat),
            ty: dup_toks(&self.ty),
            assign: dup_opt_assign(&self.assign),
        }
    }
}

/// A receiver argument: `self`, `&self`, `&mut self`, with an optional
/// lifetime on the borrow.
#[derive(Debug)]
pub struct Receiver {
    pub reference: bool,
    pub lifetime: Option<String>,
    pub mutable: bool,
}

pub struct ReceiverV {
    pub reference: bool,
    pub lifetime: Option<Seq<char>>,
    pub mutable: bool,
}

impl DeepView for Receiver {
    type V = ReceiverV;

    open spec fn deep_view(&self) -> ReceiverV {
        ReceiverV {
            reference: self.reference,
            lifetime: self.lifetime.deep_view(),
            mutable: self.mutable,
        }
    }
}

impl Receiver {
    /// An exact copy.
    pub fn dup(&self) -> (r: Receiver)
        ensures
            r.deep_view() == self.deep_view(),
    {
        Receiver {
            reference: self.reference,
            lifetime: match &self.lifetime {
                Some(s) => Some(s.clone()),
                None => None,
            },
            mutable: self.mutable,
        }
    }
}

/// One argument of a callable.
#[derive(Debug)]
pub enum FnArg {
    Receiver(Receiver),
    Typed(PatType),
}

pub enum FnArgV {
    Receiver(ReceiverV),
    Typed(PatTypeV),
}

impl DeepView for FnArg {
    type V = FnArgV;

    open spec fn deep_view(&self) -> FnArgV {
        match self {
            FnArg::Receiver(r) => FnArgV::Receiver(r.deep_view()),
            FnArg::Typed(t) => FnArgV::Typed(t.deep_view()),
        }
    }
}

impl FnArg {
    /// An exact copy.
    pub fn dup(&self) -> (r: FnArg)
        ensures
            r.deep_view() == self.deep_view(),
    {
        match self {
            FnArg::Receiver(r) => FnArg::Receiver(r.dup()),
            FnArg::Typed(t) => FnArg::Typed(t.dup()),
        }
    }
}

/// An exact copy of an argument list.
pub fn dup_args(v: &Vec<FnArg>) -> (r: Vec<FnArg>)
    ensures
        r.deep_view() == v.deep_view(),
{
    let mut r: Vec<FnArg> = Vec::new();
    let mut i: usize = 0;
    while i < v.len()
        invariant
            i <= v.len(),
            r@.len() == i as int,
            v.deep_view().len() == v@.len(),
            r.deep_view() =~= v.deep_view().take(i as int),
        decreases v.len() - i,
    {
        r.push(v[i].dup());
        proof {
            assert(r.deep_view() =~= v.deep_view().take(i as int + 1));
        }
        i += 1;
    }
    proof {
        assert(r.deep_view() =~= v.deep_view());
    }
    r
}

/// One generic parameter.
#[derive(Debug)]
pub enum GenericParam {
    /// A type parameter with its bound tokens (empty when unbounded).
    TypeParam { name: String, bounds: Vec<Tok> },
    /// A lifetime parameter with the names of its lifetime bounds.
    LifeParam { name: String, bounds: Vec<String> },
    /// A const parameter, carried through untouched.
    ConstParam { toks: Vec<Tok> },
}

pub enum GenericParamV {
    TypeParam { name: Seq<char>, bounds: Seq<TokV> },
    LifeParam { name: Seq<char>, bounds: Seq<Seq<char>> },
    ConstParam { toks: Seq<TokV> },
}

impl DeepView for GenericParam {
    type V = GenericParamV;

    open spec fn deep_view(&self) -> GenericParamV {
        match self {
            GenericParam::TypeParam { name, bounds } => GenericParamV::TypeParam {
                name: name@,
                bounds: bounds.deep_view(),
            },
            GenericParam::LifeParam { name, bounds } => GenericParamV::LifeParam {
                name: name@,
                bounds: bounds.deep_view(),
            },
            GenericParam::ConstParam { toks } => GenericParamV::ConstParam {
                toks: toks.deep_view(),
            },
        }
    }
}

impl GenericParam {
    /// An exact copy.
    pub fn dup(&self) -> (r: GenericParam)
        ensures
            r.deep_view() == self.deep_view(),
    {
        match self {
            GenericParam::TypeParam { name, bounds } => GenericParam::TypeParam {
                name: name.clone(),
                bounds: dup_toks(bounds),
            },
            GenericParam::LifeParam { name, bounds } => GenericParam::LifeParam {
                name: name.clone(),
                bounds: dup_strs(bounds),
            },
            GenericParam::ConstParam { toks } => GenericParam::ConstParam { toks: dup_toks(toks) },
        }
    }
}

/// A `for<..>` lifetime binder inside a where-clause predicate.
#[derive(Debug)]
pub struct LifetimeDef {
    pub name: String,
    pub bounds: Vec<String>,
}

pub struct LifetimeDefV {
    pub name: Seq<char>,
    pub bounds: Seq<Seq<char>>,
}

impl DeepView for LifetimeDef {
    type V = LifetimeDefV;

    open spec fn deep_view(&self) -> LifetimeDefV {
        LifetimeDefV { name: self.name@, bounds: self.bounds.deep_view() }
    }
}

impl LifetimeDef {
    /// An exact copy.
    pub fn dup(&self) -> (r: LifetimeDef)
        ensures
            r.deep_view() == self.deep_view(),
    {
        LifetimeDef { name: self.name.clone(), bounds: dup_strs(&self.bounds) }
    }
}

/// An exact copy of a lifetime-binder list.
pub fn dup_lifetime_defs(v: &Vec<LifetimeDef>) -> (r: Vec<LifetimeDef>)
    ensures
        r.deep_view() == v.deep_view(),
{
    let mut r: Vec<LifetimeDef> = Vec::new();
    let mut i: usize = 0;
    while i < v.len()
        invariant
            i <= v.len(),
            r@.len() == i as int,
            v.deep_view().len() == v@.len(),
            r.deep_view() =~= v.deep_view().take(i as int),
        decreases v.len() - i,
    {
        r.push(v[i].dup());
        proof {
            assert(r.deep_view() =~= v.deep_view().take(i as int + 1));
        }
        i += 1;
    }
    proof {
        assert(r.deep_view() =~= v.deep_view());
    }
    r
}

/// One predicate of a where clause.
#[derive(Debug)]
pub enum WherePredicate {
    /// `for<'a, ..> Ty: Bounds`.
    TypePred { lifetimes: Vec<LifetimeDef>, bounded_ty: Vec<Tok>, bounds: Vec<Tok> },
    /// `'a: 'b + 'c`.
    LifePred { name: String, bounds: Vec<String> },
    /// An equality predicate, carried through untouched.
    EqPred { toks: Vec<Tok> },
}

pub enum WherePredicateV {
    TypePred { lifetimes: Seq<LifetimeDefV>, bounded_ty: Seq<TokV>, bounds: Seq<TokV> },
    LifePred { name: Seq<char>, bounds: Seq<Seq<char>> },
    EqPred { toks: Seq<TokV> },
}

impl DeepView for WherePredicate {
    type V = WherePredicateV;

    open spec fn deep_view(&self) -> WherePredicateV {
        match self {
            WherePredicate::TypePred { lifetimes, bounded_ty, bounds } =>
                WherePredicateV::TypePred {
                    lifetimes: lifetimes.deep_view(),
                    bounded_ty: bounded_ty.deep_view(),
                    bounds: bounds.deep_view(),
                },
            WherePredicate::LifePred { name, bounds } => WherePredicateV::LifePred {
                name: name@,
                bounds: bounds.deep_view(),
            },
            WherePredicate::EqPred { toks } => WherePredicateV::EqPred { toks: toks.deep_view() },
        }
    }
}

impl WherePredicate {
    /// An exact copy.
    pub fn dup(&self) -> (r: WherePredicate)
        ensures
            r.deep_view() == self.deep_view(),
    {
        match self {
            WherePredicate::TypePred { lifetimes, bounded_ty, bounds } =>
                WherePredicate::TypePred {
                    lifetimes: dup_lifetime_defs(lifetimes),
                    bounded_ty: dup_toks(bounded_ty),
                    bounds: dup_toks(bounds),
                },
            WherePredicate::LifePred { name, bounds } => WherePredicate::LifePred {
                name: name.clone(),
                bounds: dup_strs(bounds),
            },
            WherePredicate::EqPred { toks } => WherePredicate::EqPred { toks: dup_toks(toks) },
        }
    }
}

/// The generics of a declaration.
#[derive(Debug)]
pub struct Generics {
    pub params: Vec<GenericParam>,
    pub where_clause: Option<Vec<WherePredicate>>,
}

pub struct GenericsV {
    pub params: Seq<GenericParamV>,
    pub where_clause: Option<Seq<WherePredicateV>>,
}

impl DeepView for Generics {
    type V = GenericsV;

    open spec fn deep_view(&self) -> GenericsV {
        GenericsV { params: self.params.deep_view(), where_clause: self.where_clause.deep_view() }
    }
}

impl Generics {
    /// Generics with no parameters and no where clause.
    pub fn empty() -> (r: Generics)
        ensures
            r.deep_view().params.len() == 0,
            r.deep_view().where_clause is None,
    {
        Generics { params: Vec::new(), where_clause: None }
    }
}

/// A callable's signature.
#[derive(Debug)]
pub struct Signature {
    pub constness: bool,
    pub asyncness: bool,
    pub unsafety: bool,
    /// The ABI tokens, the keyword included, when one is named.
    pub abi: Option<Vec<Tok>>,
    pub ident: String,
    pub generics: Generics,
    pub inputs: Vec<FnArg>,
    pub variadic: bool,
    /// The return type tokens; nothing stands for the default unit type.
    pub output: Option<Vec<Tok>>,
}

pub struct SignatureV {
    pub constness: bool,
    pub asyncness: bool,
    pub unsafety: bool,
    pub abi: Option<Seq<TokV>>,
    pub ident: Seq<char>,
    pub generics: GenericsV,
    pub inputs: Seq<FnArgV>,
    pub variadic: bool,
    pub output: Option<Seq<TokV>>,
}

impl DeepView for Signature {
    type V = SignatureV;

    open spec fn deep_view(&self) -> SignatureV {
        SignatureV {
            constness: self.constness,
            asyncness: self.asyncness,
            unsafety: self.unsafety,
            abi: self.abi.deep_view(),
            ident: self.ident@,
            generics: self.generics.deep_view(),
            inputs: self.inputs.deep_view(),
            variadic: self.variadic,
            output: self.output.deep_view(),
        }
    }
}

/// A function declaration that supports default-valued arguments.
#[derive(Debug)]
pub struct ItemFn {
    pub attrs: Vec<Attr>,
    pub vis: Vec<Tok>,
    pub sig: Signature,
    /// The statements of the body, braces not included.
    pub block: Vec<Tok>,
}

pub struct ItemFnV {
    pub attrs: Seq<AttrV>,
    pub vis: Seq<TokV>,
    pub sig: SignatureV,
    pub block: Seq<TokV>,
}

impl DeepView for ItemFn {
    type V = ItemFnV;

    open spec fn deep_view(&self) -> ItemFnV {
        ItemFnV {
            attrs: self.attrs.deep_view(),
            vis: self.vis.deep_view(),
            sig: self.sig.deep_view(),
            block: self.block.deep_view(),
        }
    }
}

/// A method of a trait declaration, with its default body when one is given.
#[derive(Debug)]
pub struct TraitMethod {
    pub attrs: Vec<Attr>,
    pub sig: Signature,
    pub default: Option<Vec<Tok>>,
}

pub struct TraitMethodV {
    pub attrs: Seq<AttrV>,
    pub sig: SignatureV,
    pub default: Option<Seq<TokV>>,
}

impl DeepView for TraitMethod {
    type V = TraitMethodV;

    open spec fn deep_view(&self) -> TraitMethodV {
        TraitMethodV {
            attrs: self.attrs.deep_view(),
            sig: self.sig.deep_view(),
            default: self.default.deep_view(),
        }
    }
}

/// One item of a trait declaration.
#[derive(Debug)]
pub enum TraitItem {
    Method(TraitMethod),
    /// Any other trait item, carried through untouched.
    Other(Vec<Tok>),
}

pub enum TraitItemV {
    Method(TraitMethodV),
    Other(Seq<TokV>),
}

impl DeepView for TraitItem {
    type V = TraitItemV;

    open spec fn deep_view(&self) -> TraitItemV {
        match self {
            TraitItem::Method(m) => TraitItemV::Method(m.deep_view()),
            TraitItem::Other(t) => TraitItemV::Other(t.deep_view()),
        }
    }
}

/// A trait declaration.
#[derive(Debug)]
pub struct ItemTrait {
    pub attrs: Vec<Attr>,
    pub vis: Vec<Tok>,
    pub ident: String,
    /// Everything between the identifier and the opening brace: generics,
    /// supertraits, where clause.
    pub head_rest: Vec<Tok>,
    pub items: Vec<TraitItem>,
}

pub struct ItemTraitV {
    pub attrs: Seq<AttrV>,
    pub vis: Seq<TokV>,
    pub ident: Seq<char>,
    pub head_rest: Seq<TokV>,
    pub items: Seq<TraitItemV>,
}

impl DeepView for ItemTrait {
    type V = ItemTraitV;

    open spec fn deep_view(&self) -> ItemTraitV {
        ItemTraitV {
            attrs: self.attrs.deep_view(),
            vis: self.vis.deep_view(),
            ident: self.ident@,
            head_rest: self.head_rest.deep_view(),
            items: self.items.deep_view(),
        }
    }
}

/// A method inside an impl block.
#[derive(Debug)]
pub struct ImplMethod {
    pub attrs: Vec<Attr>,
    pub vis: Vec<Tok>,
    pub sig: Signature,
    pub block: Vec<Tok>,
}

pub struct ImplMethodV {
    pub attrs: Seq<AttrV>,
    pub vis: Seq<TokV>,
    pub sig: SignatureV,
    pub block: Seq<TokV>,
}

impl DeepView for ImplMethod {
    type V = ImplMethodV;

    open spec fn deep_view(&self) -> ImplMethodV {
        ImplMethodV {
            attrs: self.attrs.deep_view(),
            vis: self.vis.deep_view(),
            sig: self.sig.deep_view(),
            block: self.block.deep_view(),
        }
    }
}

/// One item of an impl block.
#[derive(Debug)]
pub enum ImplItem {
    Method(ImplMethod),
    /// Any other impl item, carried through untouched.
    Other(Vec<Tok>),
}

pub enum ImplItemV {
    Method(ImplMethodV),
    Other(Seq<TokV>),
}

impl DeepView for ImplItem {
    type V = ImplItemV;

    open spec fn deep_view(&self) -> ImplItemV {
        match self {
            ImplItem::Method(m) => ImplItemV::Method(m.deep_view()),
            ImplItem::Other(t) => ImplItemV::Other(t.deep_view()),
        }
    }
}

/// An impl block, plain or of a trait.
#[derive(Debug)]
pub struct ItemImpl {
    pub attrs: Vec<Attr>,
    /// The impl's own generics, as raw tokens with their angle brackets.
    pub generics_toks: Vec<Tok>,
    /// The trait path tokens for `impl Trait for Type`; nothing for a
    /// plain impl.
    pub trait_path: Option<Vec<Tok>>,
    pub self_ty: Vec<Tok>,
    /// The where-clause tokens, the keyword included, when one is given.
    pub where_toks: Vec<Tok>,
    pub items: Vec<ImplItem>,
}

pub struct ItemImplV {
    pub attrs: Seq<AttrV>,
    pub generics_toks: Seq<TokV>,
    pub trait_path: Option<Seq<TokV>>,
    pub self_ty: Seq<TokV>,
    pub where_toks: Seq<TokV>,
    pub items: Seq<ImplItemV>,
}

impl DeepView for ItemImpl {
    type V = ItemImplV;

    open spec fn deep_view(&self) -> ItemImplV {
        ItemImplV {
            attrs: self.attrs.deep_view(),
            generics_toks: self.generics_toks.deep_view(),
            trait_path: self.trait_path.deep_view(),
            self_ty: self.self_ty.deep_view(),
            where_toks: self.where_toks.deep_view(),
            items: self.items.deep_view(),
        }
    }
}

/// The three declaration shapes the transformation accepts, and the fallback
/// for token input that is none of them.
#[derive(Debug)]
pub enum Item {
    Trait(ItemTrait),
    Impl(ItemImpl),
    Fn(ItemFn),
    Other(Vec<Tok>),
}

pub enum ItemV {
    Trait(ItemTraitV),
    Impl(ItemImplV),
    Fn(ItemFnV),
    Other(Seq<TokV>),
}

impl DeepView for Item {
    type V = ItemV;

    open spec fn deep_view(&self) -> ItemV {
        match self {
            Item::Trait(t) => ItemV::Trait(t.deep_view()),
            Item::Impl(i) => ItemV::Impl(i.deep_view()),
            Item::Fn(f) => ItemV::Fn(f.deep_view()),
            Item::Other(t) => ItemV::Other(t.deep_view()),
        }
    }
}

/// How severe a diagnostic is.
#[derive(Clone, Copy, PartialEq, Eq, Structural, Debug)]
pub enum Level {
    Warning,
    Error,
}

/// What a diagnostic reports.
#[derive(Clone, Copy, PartialEq, Eq, Structural, Debug)]
pub enum DiagCode {
    /// A const qualifier was dropped.
    UnsupportedConst,
    /// An unsafe qualifier was approximated by a scoped block.
    UnsupportedUnsafe,
    /// The trait named by an impl was never processed.
    UnresolvedTrait,
    /// The trait named by an impl has no recorded method bodies.
    MissingTraitDefinition,
    /// The trait path of an impl has more than one segment.
    AmbiguousPath,
    /// A trait method was neither implemented nor given a default body.
    MissingDefaultBody,
    /// The annotated tokens parse as none of the supported shapes.
    NotApplicable,
    /// A default-value attribute does not hold `( = expression )`.
    MalformedDefault,
}

/// One diagnostic: severity, cause, and the name or rendering it concerns.
#[derive(Debug)]
pub struct Diag {
    pub level: Level,
    pub code: DiagCode,
    pub detail: String,
}

pub struct DiagV {
    pub level: Level,
    pub code: DiagCode,
    pub detail: Seq<char>,
}

impl DeepView for Diag {
    type V = DiagV;

    open spec fn deep_view(&self) -> DiagV {
        DiagV { level: self.level, code: self.code, detail: self.detail@ }
    }
}


/// An exact copy of a predicate list.
pub fn dup_preds(v: &Vec<WherePredicate>) -> (r: Vec<WherePredicate>)
    ensures
        r.deep_view() == v.deep_view(),
{
    let mut r: Vec<WherePredicate> = Vec::new();
    let mut i: usize = 0;
    while i < v.len()
        invariant
            i <= v.len(),
            r@.len() == i as int,
            v.deep_view().len() == v@.len(),
            r.deep_view() =~= v.deep_view().take(i as int),
        decreases v.len() - i,
    {
        r.push(v[i].dup());
        proof {
            assert(r.deep_view() =~= v.deep_view().take(i as int + 1));
        }
        i += 1;
    }
    proof {
        assert(r.deep_view() =~= v.deep_view());
    }
    r
}

impl Generics {
    /// An exact copy.
    pub fn dup(&self) -> (r: Generics)
        ensures
            r.deep_view() == self.deep_view(),
    {
        let mut params: Vec<GenericParam> = Vec::new();
        let mut i: usize = 0;
        while i < self.params.len()
            invariant
                i <= self.params.len(),
                params@.len() == i as int,
                self.params.deep_view().len() == self.params@.len(),
                params.deep_view() =~= self.params.deep_view().take(i as int),
            decreases self.params.len() - i,
        {
            params.push(self.params[i].dup());
            proof {
                assert(params.deep_view() =~= self.params.deep_view().take(i as int + 1));
            }
            i += 1;
        }
        proof {
            assert(params.deep_view() =~= self.params.deep_view());
        }
        let where_clause = match &self.where_clause {
            Some(preds) => Some(dup_preds(preds)),
            None => None,
        };
        Generics { params, where_clause }
    }
}

impl Signature {
    /// An exact copy.
    pub fn dup(&self) -> (r: Signature)
        ensures
            r.deep_view() == self.deep_view(),
    {
        Signature {
            constness: self.constness,
            asyncness: self.asyncness,
            unsafety: self.unsafety,
            abi: match &self.abi {
                Some(t) => Some(dup_toks(t)),
                None => None,
            },
            ident: self.ident.clone(),
            generics: self.generics.dup(),
            inputs: dup_args(&self.inputs),
            variadic: self.variadic,
            output: match &self.output {
                Some(t) => Some(dup_toks(t)),
                None => None,
            },
        }
    }
}

impl TraitMethod {
    /// An exact copy.
    pub fn dup(&self) -> (r: TraitMethod)
        ensures
            r.deep_view() == self.deep_view(),
    {
        TraitMethod {
            attrs: dup_attrs(&self.attrs),
            sig: self.sig.dup(),
            default: match &self.default {
                Some(t) => Some(dup_toks(t)),
                None => None,
            },
        }
    }
}

impl ImplMethod {
    /// An exact copy.
    pub fn dup(&self) -> (r: ImplMethod)
        ensures
            r.deep_view() == self.deep_view(),
    {
        ImplMethod {
            attrs: dup_attrs(&self.attrs),
            vis: dup_toks(&self.vis),
            sig: self.sig.dup(),
            block: dup_toks(&self.block),
        }
    }
}

} // verus!
