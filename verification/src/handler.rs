use vstd::prelude::*;
use crate::span::Span;

verus! {

/// The diagnostics this core can report.
///
/// `FieldNotFound` is recoverable: it is reported and compilation goes on
/// for sibling nodes. `DependencyCycle` is fatal for the compilation unit.
/// `InternalSynthesisFailure` means compiler-generated code failed its own
/// check, an engine bug rather than a user error. `TypeUnresolved` is the
/// per-node failure of the analysis and finalization passes.
#[derive(Clone, Debug)]
pub enum CompileError {
    FieldNotFound {
        /// The struct's field names in declaration order, one per line,
        /// used verbatim in the diagnostic.
        available_fields: String,
        field_name: String,
        struct_name: String,
        span: Span,
    },
    DependencyCycle {
        /// One module on the cycle.
        module: String,
    },
    InternalSynthesisFailure {
        span: Span,
    },
    TypeUnresolved {
        span: Span,
    },
}

/// A warning record. The core itself only accumulates these.
#[derive(Clone, Debug)]
pub struct CompileWarning {
    pub message: String,
    pub span: Span,
}

/// The marker that an error has already been emitted through the handler.
/// Callers up the chain propagate the marker and never re-emit.
#[derive(Clone, Copy, Debug, PartialEq, Eq, Structural)]
pub struct ErrorEmitted;

/// Accumulates diagnostics. Every public entry point of the core reports
/// through a handler; a compilation with any recorded error fails overall,
/// but only after every node was given its chance.
#[derive(Clone, Debug)]
pub struct Handler {
    pub errors: Vec<CompileError>,
    pub warnings: Vec<CompileWarning>,
}

impl Handler {
    pub fn new() -> (r: Handler)
        ensures
            r.errors@ =~= Seq::<CompileError>::empty(),
            r.warnings@ =~= Seq::<CompileWarning>::empty(),
    {
        Handler { errors: Vec::new(), warnings: Vec::new() }
    }

    /// Records the error and returns the "already emitted" marker.
    /// The diagnostic is emitted exactly once, at the point of detection.
    pub fn emit_err(&mut self, err: CompileError) -> (r: ErrorEmitted)
        ensures
            final(self).errors@ == old(self).errors@.push(err),
            final(self).warnings@ == old(self).warnings@,
    {
        self.errors.push(err);
        ErrorEmitted
    }

    pub fn emit_warn(&mut self, warning: CompileWarning)
        ensures
            final(self).warnings@ == old(self).warnings@.push(warning),
            final(self).errors@ == old(self).errors@,
    {
        self.warnings.push(warning);
    }

    pub fn has_errors(&self) -> (r: bool)
        ensures
            r == (self.errors@.len() > 0),
    {
        self.errors.len() > 0
    }

    pub fn has_warnings(&self) -> (r: bool)
        ensures
            r == (self.warnings@.len() > 0),
    {
        self.warnings.len() > 0
    }

    /// Merges the diagnostics of an inner, scoped handler into this one.
    /// The scoped helper isolates one unit of work's failure without
    /// aborting the caller's loop; the error sets are joined at the end.
    pub fn append(&mut self, other: Handler)
        ensures
            final(self).errors@ == old(self).errors@ + other.errors@,
            final(self).warnings@ == old(self).warnings@ + other.warnings@,
    {
        let Handler { mut errors, mut warnings } = other;
        self.errors.append(&mut errors);
        self.warnings.append(&mut warnings);
    }
}

} // verus!
