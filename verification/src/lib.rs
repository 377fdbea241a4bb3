//! Verified core of the PartiQL Beamline tools: the shape model of generated
//! data, its encoders (DDL, Kollider, Linac), path and predicate discovery for
//! query generation, value-to-JSON conversion and the command-line model.
use vstd::prelude::*;

pub mod ast;
pub mod catalog;
pub mod cli;
pub mod cliargs;
pub mod commands;
pub mod cmdline;
pub mod columns;
pub mod ddl;
pub mod exprgen;
pub mod generator;
pub mod numparse;
pub mod groups;
pub mod json;
pub mod kollider;
pub mod ion;
pub mod ionread;
pub mod linac;
pub mod path;
pub mod predicate;
pub mod querygen;
pub mod select;
pub mod shape;
pub mod shapeset;
pub mod strategy;
pub mod text;
pub mod value;

verus! {

} // verus!
