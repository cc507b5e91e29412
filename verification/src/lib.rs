use vstd::prelude::*;

pub mod ast;
pub mod display;
pub mod parser;
pub mod units;
pub mod css;
pub mod modules;
pub mod instruction;
pub mod breakpoints;
pub mod bundle;
pub mod builder;
pub mod html;
pub mod processor;
pub mod roundtrip;
pub mod error;
pub mod text;

verus! {

} // verus!
