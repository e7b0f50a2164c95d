//! The output model: what the transformation emits for one declaration.
//!
//! The emitted items are structured values; a token renderer turns them
//! into source text.  A `FnTraitImpls` stands for the three call-contract
//! implementations (consuming, mutable, immutable) of one dispatch type
//! over one exact argument-tuple type, all sharing one body.

use vstd::prelude::*;

use crate::model::Attr;
use crate::model::AttrV;
use crate::model::Generics;
use crate::model::GenericsV;
use crate::model::ImplMethod;
use crate::model::ImplMethodV;
use crate::model::Tok;
use crate::model::TokV;
use crate::model::TraitMethod;
use crate::model::TraitMethodV;

verus! {

/// The declaration of one dispatch type: a zero-sized type with its
/// thread-safety markers, and, for a free-function set, the one static
/// binding call sites name.
pub struct Prepare {
    pub vis: Vec<Tok>,
    pub name: String,
    /// Whether the type carries a phantom parameter for the implementing
    /// type, as trait dispatch types do.
    pub phantom_generic: bool,
    /// The static binding's name, for a free-function dispatch type.
    pub static_ident: Option<String>,
}

pub struct PrepareV {
    pub vis: Seq<TokV>,
    pub name: Seq<char>,
    pub phantom_generic: bool,
    pub static_ident: Option<Seq<char>>,
}

impl DeepView for Prepare {
    type V = PrepareV;

    open spec fn deep_view(&self) -> PrepareV {
        PrepareV {
            vis: self.vis.deep_view(),
            name: self.name@,
            phantom_generic: self.phantom_generic,
            static_ident: self.static_ident.deep_view(),
        }
    }
}

/// The three call-contract implementations for one member (or one
/// default-expansion variant of it) of an overload set.
pub struct FnTraitImpls {
    /// Attributes copied onto each generated implementation.
    pub attrs: Vec<Attr>,
    /// The member's generics, carried over verbatim.
    pub generics: Generics,
    /// The dispatch type's name.
    pub shared_type: String,
    /// The implementing-type argument of the dispatch type, for trait and
    /// trait-impl synthesis.
    pub shared_generic: Option<Vec<Tok>>,
    /// The exact argument-tuple type, one slot per retained argument.
    pub input_tuple: Vec<Vec<Tok>>,
    /// The binding pattern of each tuple slot.
    pub pats: Vec<Vec<Tok>>,
    /// The synthesized statements materializing omitted defaults.
    pub defaults: Vec<Vec<Tok>>,
    /// The return type, already substituted and, for an async member,
    /// wrapped in the boxed, pinned future type.
    pub output: Vec<Tok>,
    /// Whether the body is wrapped in an async block.
    pub asyncness: bool,
    /// Whether the body is wrapped in a scoped block that restores the
    /// member's original safety context.
    pub unsafety: bool,
    /// The member's body statements, already substituted.
    pub body: Vec<Tok>,
}

pub struct FnTraitImplsV {
    pub attrs: Seq<AttrV>,
    pub generics: GenericsV,
    pub shared_type: Seq<char>,
    pub shared_generic: Option<Seq<TokV>>,
    pub input_tuple: Seq<Seq<TokV>>,
    pub pats: Seq<Seq<TokV>>,
    pub defaults: Seq<Seq<TokV>>,
    pub output: Seq<TokV>,
    pub asyncness: bool,
    pub unsafety: bool,
    pub body: Seq<TokV>,
}

impl DeepView for FnTraitImpls {
    type V = FnTraitImplsV;

    open spec fn deep_view(&self) -> FnTraitImplsV {
        FnTraitImplsV {
            attrs: self.attrs.deep_view(),
            generics: self.generics.deep_view(),
            shared_type: self.shared_type@,
            shared_generic: self.shared_generic.deep_view(),
            input_tuple: self.input_tuple.deep_view(),
            pats: self.pats.deep_view(),
            defaults: self.defaults.deep_view(),
            output: self.output.deep_view(),
            asyncness: self.asyncness,
            unsafety: self.unsafety,
            body: self.body.deep_view(),
        }
    }
}

/// An associated-constant binding of a dispatch type, placed among a
/// rewritten trait's or impl block's items.
pub struct ConstBinding {
    /// The constant's name: the overloaded method's name, so call sites
    /// read unchanged.
    pub name: String,
    pub shared_type: String,
    /// Whether the dispatch type is parameterized by the implementing
    /// type, as it is inside a trait.
    pub self_param: bool,
}

pub struct ConstBindingV {
    pub name: Seq<char>,
    pub shared_type: Seq<char>,
    pub self_param: bool,
}

impl DeepView for ConstBinding {
    type V = ConstBindingV;

    open spec fn deep_view(&self) -> ConstBindingV {
        ConstBindingV {
            name: self.name@,
            shared_type: self.shared_type@,
            self_param: self.self_param,
        }
    }
}

/// One item of a rewritten trait declaration.
pub enum TraitItemOut {
    Method(TraitMethod),
    Other(Vec<Tok>),
    Const(ConstBinding),
}

pub enum TraitItemOutV {
    Method(TraitMethodV),
    Other(Seq<TokV>),
    Const(ConstBindingV),
}

impl DeepView for TraitItemOut {
    type V = TraitItemOutV;

    open spec fn deep_view(&self) -> TraitItemOutV {
        match self {
            TraitItemOut::Method(m) => TraitItemOutV::Method(m.deep_view()),
            TraitItemOut::Other(t) => TraitItemOutV::Other(t.deep_view()),
            TraitItemOut::Const(c) => TraitItemOutV::Const(c.deep_view()),
        }
    }
}

/// The rewritten trait declaration.
pub struct TraitOut {
    pub attrs: Vec<Attr>,
    pub vis: Vec<Tok>,
    pub ident: String,
    pub head_rest: Vec<Tok>,
    pub items: Vec<TraitItemOut>,
}

pub struct TraitOutV {
    pub attrs: Seq<AttrV>,
    pub vis: Seq<TokV>,
    pub ident: Seq<char>,
    pub head_rest: Seq<TokV>,
    pub items: Seq<TraitItemOutV>,
}

impl DeepView for TraitOut {
    type V = TraitOutV;

    open spec fn deep_view(&self) -> TraitOutV {
        TraitOutV {
            attrs: self.attrs.deep_view(),
            vis: self.vis.deep_view(),
            ident: self.ident@,
            head_rest: self.head_rest.deep_view(),
            items: self.items.deep_view(),
        }
    }
}

/// One item of a rewritten impl block.
pub enum ImplItemOut {
    Method(ImplMethod),
    Other(Vec<Tok>),
    Const(ConstBinding),
}

pub enum ImplItemOutV {
    Method(ImplMethodV),
    Other(Seq<TokV>),
    Const(ConstBindingV),
}

impl DeepView for ImplItemOut {
    type V = ImplItemOutV;

    open spec fn deep_view(&self) -> ImplItemOutV {
        match self {
            ImplItemOut::Method(m) => ImplItemOutV::Method(m.deep_view()),
            ImplItemOut::Other(t) => ImplItemOutV::Other(t.deep_view()),
            ImplItemOut::Const(c) => ImplItemOutV::Const(c.deep_view()),
        }
    }
}

/// The rewritten impl block.
pub struct ImplOut {
    pub attrs: Vec<Attr>,
    pub generics_toks: Vec<Tok>,
    pub trait_path: Option<Vec<Tok>>,
    pub self_ty: Vec<Tok>,
    pub where_toks: Vec<Tok>,
    pub items: Vec<ImplItemOut>,
}

pub struct ImplOutV {
    pub attrs: Seq<AttrV>,
    pub generics_toks: Seq<TokV>,
    pub trait_path: Option<Seq<TokV>>,
    pub self_ty: Seq<TokV>,
    pub where_toks: Seq<TokV>,
    pub items: Seq<ImplItemOutV>,
}

impl DeepView for ImplOut {
    type V = ImplOutV;

    open spec fn deep_view(&self) -> ImplOutV {
        ImplOutV {
            attrs: self.attrs.deep_view(),
            generics_toks: self.generics_toks.deep_view(),
            trait_path: self.trait_path.deep_view(),
            self_ty: self.self_ty.deep_view(),
            where_toks: self.where_toks.deep_view(),
            items: self.items.deep_view(),
        }
    }
}

/// One emitted item.
pub enum GenItem {
    Prepare(Prepare),
    FnImpls(FnTraitImpls),
    RewrittenTrait(TraitOut),
    RewrittenImpl(ImplOut),
}

pub enum GenItemV {
    Prepare(PrepareV),
    FnImpls(FnTraitImplsV),
    RewrittenTrait(TraitOutV),
    RewrittenImpl(ImplOutV),
}

impl DeepView for GenItem {
    type V = GenItemV;

    open spec fn deep_view(&self) -> GenItemV {
        match self {
            GenItem::Prepare(p) => GenItemV::Prepare(p.deep_view()),
            GenItem::FnImpls(f) => GenItemV::FnImpls(f.deep_view()),
            GenItem::RewrittenTrait(t) => GenItemV::RewrittenTrait(t.deep_view()),
            GenItem::RewrittenImpl(i) => GenItemV::RewrittenImpl(i.deep_view()),
        }
    }
}

} // verus!
