//! Selecting the implementation of a function by a runtime environment.
//!
//! An enum of environments (`#[derive(Env)]`) marks one variant as production. A
//! function or impl block under `#[env(Envs::A, Envs::B)]` is the implementation for
//! those environments; calls go to the production implementation unless the current
//! context names another environment.
//!
//! This crate holds the decisions of the two macros, over plain models of the syntax
//! they read: which environments an attribute names and how nested attributes merge
//! ([`env_attr`]), the names of the generated items ([`naming`]), how a method becomes a
//! free function ([`rewrite`]), and what a function ([`function_attr`]), an impl block
//! ([`impl_attr`]) and an enum ([`derive_env`]) expand to.

use vstd::prelude::*;

pub mod derive_env;
pub mod env_attr;
pub mod fn_stream;
pub mod function_attr;
pub mod impl_attr;
pub mod naming;
pub mod rewrite;
pub mod syntax;
pub mod utils;

verus! {

/// Marker for the environment that serves as the source of truth for signatures.
pub trait Prod {}

} // verus!
