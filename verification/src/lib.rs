//! Ad-hoc function and method overloading as a source-to-source transformation.
//!
//! A declaration (a free function, a trait, or an impl block) is modelled as
//! plain data: token lists, signatures, argument lists.  Declarations that
//! share one identifier form an overload set; for each member (and for each
//! default-parameter variant of it) the library synthesizes a dispatch type
//! whose call-contract implementations are keyed by the exact argument-tuple
//! type, so that the host language's static resolution picks the right body.
//!
//! The modules, pipeline order: [`model`] holds the data types and their
//! views; [`parse`] reads a function declaration out of a token list;
//! [`normalize`] computes the canonical signature key that decides which
//! declarations are the same overload; [`expand`] unfolds default-valued
//! argument lists into their arity variants; [`session`] carries the
//! registries of one compilation; [`synth`] builds the call-contract
//! implementations; [`process`] runs one declaration through the whole
//! transformation; [`out`] is the shape of what comes out; [`laws`] states
//! and proves the properties the transformation promises.

pub mod expand;
pub mod laws;
pub mod model;
pub mod normalize;
pub mod out;
pub mod parse;
pub mod process;
pub mod session;
pub mod synth;

pub use model::Kw;
pub use model::Tok;
pub use process::overload;
