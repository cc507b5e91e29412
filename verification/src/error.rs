use vstd::prelude::*;
use crate::text::{join_seq, join_strings};

verus! {

/// Everything that can go wrong while turning utility classes into CSS.
///
/// Grammar faults are `Syntax`; an element path that no dispatcher arm knows
/// is `UnknownInstruction`; a variant prefix that neither the pseudo table nor
/// the breakpoint registry knows is `UnknownVariant`; a suffix or arbitrary
/// value of the wrong shape is `Value`; contradictory variants on one class
/// (two breakpoints) are `Conflict`; a collaborator refusing its part of the
/// build (the external stylesheet printer) is `Runtime`, fatal to the run.
#[derive(Debug, Clone, PartialEq, Eq)]
pub enum TailwindError {
    Syntax { message: String },
    UnknownInstruction { path: Vec<String>, arbitrary: String },
    UnknownVariant { name: String },
    Value { message: String },
    Conflict { message: String },
    Runtime { message: String },
}

impl TailwindError {
    /// A grammar fault, with the offending text.
    pub fn syntax(message: String) -> (r: TailwindError)
        ensures
            r == (TailwindError::Syntax { message }),
    {
        TailwindError::Syntax { message }
    }

    /// An element path that matched no dispatcher arm, kept verbatim.
    pub fn unknown_instruction(path: Vec<String>, arbitrary: String) -> (r: TailwindError)
        ensures
            r == (TailwindError::UnknownInstruction { path, arbitrary }),
    {
        TailwindError::UnknownInstruction { path, arbitrary }
    }

    /// Whether this error reports an unknown element path.
    pub fn is_unknown_instruction(&self) -> (r: bool)
        ensures
            r == (self is UnknownInstruction),
    {
        match self {
            TailwindError::UnknownInstruction { .. } => true,
            _ => false,
        }
    }

    /// Whether this error reports a grammar fault.
    pub fn is_syntax(&self) -> (r: bool)
        ensures
            r == (self is Syntax),
    {
        match self {
            TailwindError::Syntax { .. } => true,
            _ => false,
        }
    }

    /// A diagnostic line for this error.
    pub fn message(&self) -> (r: String)
        ensures
            self matches TailwindError::Syntax { message } ==> r@ == "syntax error: "@
                + message@,
            self matches TailwindError::UnknownInstruction { path, arbitrary } ==> r@
                == "unknown instructions: "@ + join_seq(path.deep_view(), "-"@) + " + ["@
                + arbitrary@ + "]"@,
            self matches TailwindError::UnknownVariant { name } ==> r@ == "unknown variant: "@
                + name@,
            self matches TailwindError::Value { message } ==> r@ == "value error: "@ + message@,
            self matches TailwindError::Conflict { message } ==> r@ == "conflict: "@ + message@,
            self matches TailwindError::Runtime { message } ==> r@ == "runtime error: "@
                + message@,
    {
        match self {
            TailwindError::Syntax { message } => {
                let mut out = String::new();
                out.append("syntax error: ");
                out.append(message.as_str());
                out
            },
            TailwindError::UnknownInstruction { path, arbitrary } => {
                let mut out = String::new();
                out.append("unknown instructions: ");
                let joined = join_strings(path, "-");
                out.append(joined.as_str());
                out.append(" + [");
                out.append(arbitrary.as_str());
                out.append("]");
                out
            },
            TailwindError::UnknownVariant { name } => {
                let mut out = String::new();
                out.append("unknown variant: ");
                out.append(name.as_str());
                out
            },
            TailwindError::Value { message } => {
                let mut out = String::new();
                out.append("value error: ");
                out.append(message.as_str());
                out
            },
            TailwindError::Conflict { message } => {
                let mut out = String::new();
                out.append("conflict: ");
                out.append(message.as_str());
                out
            },
            TailwindError::Runtime { message } => {
                let mut out = String::new();
                out.append("runtime error: ");
                out.append(message.as_str());
                out
            },
        }
    }
}

} // verus!
