//! Package indexes for a tree of Python modules.
//!
//! A walk over a directory tree collects from every module the names that it
//! exposes, and has every package with something to expose given an
//! `__init__.py` that imports its submodules and their names and lists them
//! in `__all__`.
//!
//! The library touches no file. A [`walker::Walk`] asks for what it needs,
//! one action at a time, and is told the answer; the program around it does
//! the reading and the writing. [`tree::walk`] says how the walk through a
//! given tree ends, and [`replay`] proves that a `Walk` that is answered
//! from that tree ends so; [`codegen::InitMaker::make_init`] is that walk.
//! What holds of every index and of every walk is proved in [`index_laws`],
//! [`walk_laws`] and [`order_laws`]. The Python parser is Ruff's; it is
//! called by [`parser::parse_module`], behind contracts that are taken on
//! trust.

pub mod codegen;
pub mod error;
pub mod exposer;
pub mod index_laws;
pub mod order_laws;
pub mod parser;
pub mod render;
pub mod replay;
mod ruff_tree;
pub mod statement;
pub mod syntax;
pub mod text;
pub mod tree;
pub mod walk_laws;
pub mod walker;
