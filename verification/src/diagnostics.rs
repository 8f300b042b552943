//! The diagnostic data contract: locations, severities and messages
//! accumulated in the order validation visits declarations. Rendering for
//! display is left to the surrounding tooling; the library only records.

use vstd::prelude::*;
use crate::source_manager::Span;
use crate::token::SourceLoc;

verus! {

/// Which stage a compile diagnostic belongs to.
#[derive(Debug, Clone, Copy, PartialEq, Eq, Structural)]
pub enum ErrorCategory {
    Parse,
    Semantic,
    Codegen,
    Io,
}

/// How severe a recorded diagnostic is.
#[derive(Debug, Clone, Copy, PartialEq, Eq, Structural)]
pub enum Severity {
    Error,
    Warning,
}

/// One recorded diagnostic: severity, message text, and the source
/// location it refers to.
#[derive(Debug, PartialEq)]
pub struct Diagnostic {
    pub severity: Severity,
    pub message: String,
    pub loc: SourceLoc,
}

/// The mathematical content of a diagnostic: its severity, its message as
/// a character sequence, and the location it refers to.
pub struct DiagView {
    pub severity: Severity,
    pub message: Seq<char>,
    pub loc: SourceLoc,
}

impl View for Diagnostic {
    type V = DiagView;

    open spec fn view(&self) -> DiagView {
        DiagView { severity: self.severity, message: self.message@, loc: self.loc }
    }
}

impl Clone for Diagnostic {
    fn clone(&self) -> (r: Self)
        ensures
            r == *self,
    {
        Diagnostic { severity: self.severity, message: self.message.clone(), loc: self.loc }
    }
}

/// Collects diagnostics in the order they are reported.
#[derive(Debug)]
pub struct DiagnosticReporter {
    diags: Vec<Diagnostic>,
}

impl View for DiagnosticReporter {
    type V = Seq<DiagView>;

    closed spec fn view(&self) -> Seq<DiagView> {
        self.diags@.map(|i: int, d: Diagnostic| d@)
    }
}

impl DiagnosticReporter {
    pub fn new() -> (r: Self)
        ensures
            r@ == Seq::<DiagView>::empty(),
    {
        let r = DiagnosticReporter { diags: Vec::new() };
        proof {
            assert(r@ =~= Seq::<DiagView>::empty());
        }
        r
    }

    /// Records an error at the given location.
    pub fn report_error(&mut self, message: String, loc: SourceLoc)
        ensures
            final(self)@ == old(self)@.push(
                DiagView { severity: Severity::Error, message: message@, loc },
            ),
    {
        let ghost v = DiagView { severity: Severity::Error, message: message@, loc };
        self.diags.push(Diagnostic { severity: Severity::Error, message, loc });
        proof {
            assert(self@ =~= old(self)@.push(v));
        }
    }

    /// Records a non-fatal warning at the given location.
    pub fn report_warning(&mut self, message: String, loc: SourceLoc)
        ensures
            final(self)@ == old(self)@.push(
                DiagView { severity: Severity::Warning, message: message@, loc },
            ),
    {
        let ghost v = DiagView { severity: Severity::Warning, message: message@, loc };
        self.diags.push(Diagnostic { severity: Severity::Warning, message, loc });
        proof {
            assert(self@ =~= old(self)@.push(v));
        }
    }

    /// The diagnostics recorded so far, oldest first.
    pub fn diagnostics(&self) -> (r: &Vec<Diagnostic>)
        ensures
            r@.map(|i: int, d: Diagnostic| d@) == self@,
    {
        &self.diags
    }
}

/// A compile diagnostic as handed to a renderer: the file it belongs to,
/// the span it labels, and the message texts.
#[derive(Debug)]
pub struct CompileDiagnostic {
    pub file: String,
    pub span: Span,
    pub message: String,
    pub label_message: String,
    pub category: ErrorCategory,
    pub code: String,
}

impl CompileDiagnostic {
    pub fn new(
        file: String,
        span: Span,
        message: String,
        label_message: String,
        category: ErrorCategory,
        code: String,
    ) -> (r: Self)
        ensures
            r == (CompileDiagnostic { file, span, message, label_message, category, code }),
    {
        CompileDiagnostic { file, span, message, label_message, category, code }
    }
}

} // verus!
