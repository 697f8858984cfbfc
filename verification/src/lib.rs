//! Sandboxed evaluation of Nix expressions against a checkout of nixpkgs:
//! the rules that decide what is evaluated, what may be read, and what the
//! caller is told.
//!
//! The library runs no evaluator and touches no disk. Its caller does, and
//! asks the library at every turn: [`splitter`] cuts the input into what is
//! to be evaluated, [`session`] says which evaluation is due next and takes
//! its answer, [`sandbox`] judges every path that the evaluator wants to
//! read, [`repo`] says who may hold the checkout, [`outcome`] and [`render`]
//! word the reply.

pub mod commands;
pub mod maintainer;
pub mod outcome;
pub mod render;
pub mod repo;
pub mod sandbox;
pub mod session;
pub mod splitter;
pub mod text;
pub mod value;
