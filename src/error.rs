//! The ways in which resolving a backend or rendering a job fails.

use vstd::prelude::*;
use crate::reorder::{reorder_message, ReorderError};

verus! {

/// Why a backend could not be resolved or a job could not be rendered.
#[derive(Debug)]
pub enum TexError {
    /// The wait was cancelled.
    Interrupted,
    /// A configured backend kind is not one of the known kinds.
    UnknownDistro(String),
    /// No backend answered the probe.
    NoBackend,
    /// The explicitly configured backend, shown as `kind[:program]`, did not
    /// answer the probe.
    ProbeFailed(String),
    /// The compiler program could not be started.
    CompilerNotRun(String),
    /// The compiler failed: its exit code (if it exited) and its output.
    CompileFailed(Option<i32>, Vec<Vec<u8>>),
    /// The index file could not be reordered.
    Reorder(ReorderError),
    /// The compiled document could not be moved to this destination.
    ArtifactNotProduced(String),
}

/// The sentence that describes an error.
pub open spec fn tex_message(e: TexError) -> Seq<char> {
    match e {
        TexError::Interrupted => "Interrupted."@,
        TexError::UnknownDistro(m) => m@,
        TexError::NoBackend => "No TeX distribution found."@,
        TexError::ProbeFailed(c) => "Error using TeX distribution '"@ + c@ + "'."@,
        TexError::CompilerNotRun(p) => "Could not run program '"@ + p@ + "'."@,
        TexError::CompileFailed(..) => "The TeX compiler failed."@,
        TexError::Reorder(r) => reorder_message(r),
        TexError::ArtifactNotProduced(d) => "Could not move to output file '"@ + d@ + "'."@,
    }
}

impl TexError {
    /// A sentence that describes the error.
    pub fn message(&self) -> (r: String)
        ensures
            r@ == tex_message(*self),
    {
        match self {
            TexError::Interrupted => String::from_str("Interrupted."),
            TexError::UnknownDistro(m) => m.clone(),
            TexError::NoBackend => String::from_str("No TeX distribution found."),
            TexError::ProbeFailed(c) => quoted("Error using TeX distribution '", c.as_str()),
            TexError::CompilerNotRun(p) => quoted("Could not run program '", p.as_str()),
            TexError::CompileFailed(..) => String::from_str("The TeX compiler failed."),
            TexError::Reorder(r) => r.message(),
            TexError::ArtifactNotProduced(d) => quoted("Could not move to output file '", d.as_str()),
        }
    }
}

fn quoted(head: &str, item: &str) -> (r: String)
    ensures
        r@ == head@ + item@ + "'."@,
{
    let mut m = String::from_str(head);
    m.append(item);
    m.append("'.");
    m
}

} // verus!
