use vstd::prelude::*;

pub mod text;
pub mod config;
pub mod update;
pub mod connections;
pub mod theme;
pub mod frame;
pub mod inline;
pub mod ssh;
pub mod picker;
pub mod emit;
pub mod style;
pub mod form;
pub mod keys;
pub mod manage;
pub mod app;
pub mod cli;
pub mod paint;
pub mod draw;

verus! {

} // verus!
