//! Diagnostics: what the checks report, where, and how severe.

use vstd::prelude::*;

use crate::text::push_char;

verus! {

/// A place in a file: a 1-based line and a 0-based column.
pub struct Location {
    pub file: String,
    pub line: usize,
    pub column: usize,
}

impl Clone for Location {
    fn clone(&self) -> (r: Self)
        ensures
            r == *self,
    {
        Location { file: self.file.clone(), line: self.line, column: self.column }
    }
}

/// How serious a diagnostic is.
#[derive(Clone, Copy, Debug, PartialEq, Eq, Structural)]
pub enum Severity {
    Error,
    Warning,
    Info,
}

/// What a diagnostic is about; the first two kinds carry what a fix needs.
pub enum DiagnosticKind {
    MissingInlineGeneration {
        generate_end_byte: usize,
        generated_end_byte: Option<usize>,
        transformed_code: String,
        indentation: usize,
        source_line: usize,
    },
    OutDatedGeneratedCode {
        generate_end_byte: usize,
        generated_end_byte: Option<usize>,
        transformed_code: String,
        actual_code: String,
        indentation: usize,
        source_line: usize,
    },
    GeneratedCodeWithoutGenerator,
    OutOfSyncModuleTarget,
    Warning,
    TagUsedInMarkerNotFoundInConfig { tag_name: String },
}

/// The mathematical value of a diagnostic kind.
pub enum DiagnosticKindView {
    MissingInlineGeneration {
        generate_end_byte: usize,
        generated_end_byte: Option<usize>,
        transformed_code: Seq<char>,
        indentation: usize,
        source_line: usize,
    },
    OutDatedGeneratedCode {
        generate_end_byte: usize,
        generated_end_byte: Option<usize>,
        transformed_code: Seq<char>,
        actual_code: Seq<char>,
        indentation: usize,
        source_line: usize,
    },
    GeneratedCodeWithoutGenerator,
    OutOfSyncModuleTarget,
    Warning,
    TagUsedInMarkerNotFoundInConfig { tag_name: Seq<char> },
}

impl View for DiagnosticKind {
    type V = DiagnosticKindView;

    open spec fn view(&self) -> DiagnosticKindView {
        match self {
            DiagnosticKind::MissingInlineGeneration {
                generate_end_byte,
                generated_end_byte,
                transformed_code,
                indentation,
                source_line,
            } => DiagnosticKindView::MissingInlineGeneration {
                generate_end_byte: *generate_end_byte,
                generated_end_byte: *generated_end_byte,
                transformed_code: transformed_code@,
                indentation: *indentation,
                source_line: *source_line,
            },
            DiagnosticKind::OutDatedGeneratedCode {
                generate_end_byte,
                generated_end_byte,
                transformed_code,
                actual_code,
                indentation,
                source_line,
            } => DiagnosticKindView::OutDatedGeneratedCode {
                generate_end_byte: *generate_end_byte,
                generated_end_byte: *generated_end_byte,
                transformed_code: transformed_code@,
                actual_code: actual_code@,
                indentation: *indentation,
                source_line: *source_line,
            },
            DiagnosticKind::GeneratedCodeWithoutGenerator => DiagnosticKindView::GeneratedCodeWithoutGenerator,
            DiagnosticKind::OutOfSyncModuleTarget => DiagnosticKindView::OutOfSyncModuleTarget,
            DiagnosticKind::Warning => DiagnosticKindView::Warning,
            DiagnosticKind::TagUsedInMarkerNotFoundInConfig { tag_name } => {
                DiagnosticKindView::TagUsedInMarkerNotFoundInConfig { tag_name: tag_name@ }
            },
        }
    }
}

impl Clone for DiagnosticKind {
    fn clone(&self) -> (r: Self)
        ensures
            r == *self,
    {
        match self {
            DiagnosticKind::MissingInlineGeneration {
                generate_end_byte,
                generated_end_byte,
                transformed_code,
                indentation,
                source_line,
            } => DiagnosticKind::MissingInlineGeneration {
                generate_end_byte: *generate_end_byte,
                generated_end_byte: *generated_end_byte,
                transformed_code: transformed_code.clone(),
                indentation: *indentation,
                source_line: *source_line,
            },
            DiagnosticKind::OutDatedGeneratedCode {
                generate_end_byte,
                generated_end_byte,
                transformed_code,
                actual_code,
                indentation,
                source_line,
            } => DiagnosticKind::OutDatedGeneratedCode {
                generate_end_byte: *generate_end_byte,
                generated_end_byte: *generated_end_byte,
                transformed_code: transformed_code.clone(),
                actual_code: actual_code.clone(),
                indentation: *indentation,
                source_line: *source_line,
            },
            DiagnosticKind::GeneratedCodeWithoutGenerator => DiagnosticKind::GeneratedCodeWithoutGenerator,
            DiagnosticKind::OutOfSyncModuleTarget => DiagnosticKind::OutOfSyncModuleTarget,
            DiagnosticKind::Warning => DiagnosticKind::Warning,
            DiagnosticKind::TagUsedInMarkerNotFoundInConfig { tag_name } => {
                DiagnosticKind::TagUsedInMarkerNotFoundInConfig { tag_name: tag_name.clone() }
            },
        }
    }
}

/// A diagnostic: a message about a place in a file.
pub struct Diagnostic {
    pub message: String,
    pub location: Location,
    pub severity: Severity,
    pub kind: DiagnosticKind,
}

/// The mathematical value of a diagnostic.
pub struct DiagnosticView {
    pub message: Seq<char>,
    pub file: Seq<char>,
    pub line: usize,
    pub column: usize,
    pub severity: Severity,
    pub kind: DiagnosticKindView,
}

impl View for Diagnostic {
    type V = DiagnosticView;

    open spec fn view(&self) -> DiagnosticView {
        DiagnosticView {
            message: self.message@,
            file: self.location.file@,
            line: self.location.line,
            column: self.location.column,
            severity: self.severity,
            kind: self.kind@,
        }
    }
}

impl Clone for Diagnostic {
    fn clone(&self) -> (r: Self)
        ensures
            r == *self,
    {
        Diagnostic {
            message: self.message.clone(),
            location: self.location.clone(),
            severity: self.severity,
            kind: self.kind.clone(),
        }
    }
}

/// The views of a sequence of diagnostics.
pub open spec fn diagnostic_views(ds: Seq<Diagnostic>) -> Seq<DiagnosticView> {
    ds.map_values(|d: Diagnostic| d@)
}

/// The diagnostic with these fields.
pub open spec fn diagnostic_of(
    file: Seq<char>,
    line: usize,
    column: usize,
    message: Seq<char>,
    severity: Severity,
    kind: DiagnosticKindView,
) -> DiagnosticView {
    DiagnosticView { message, file, line, column, severity, kind }
}

/// A fix can be applied for this kind of diagnostic.
pub open spec fn kind_is_fixable(k: DiagnosticKindView) -> bool {
    k is MissingInlineGeneration || k is OutDatedGeneratedCode
}

/// The digit character for `d` (below ten).
pub open spec fn digit_char(d: nat) -> char {
    (d + 48) as char
}

/// The decimal representation of `n`.
pub open spec fn decimal(n: nat) -> Seq<char>
    decreases n,
{
    if n < 10 {
        seq![digit_char(n)]
    } else {
        decimal(n / 10).push(digit_char(n % 10))
    }
}

/// Appends the decimal representation of `n` to `s`.
pub fn push_decimal(s: &mut String, n: usize)
    ensures
        final(s)@ == old(s)@ + decimal(n as nat),
    decreases n,
{
    if n >= 10 {
        push_decimal(s, n / 10);
    }
    let d = (n % 10) as u8;
    let c = (d + 48) as char;
    push_char(s, c);
    proof {
        assert(c == digit_char((n % 10) as nat));
        if n >= 10 {
            assert(decimal(n as nat) == decimal((n / 10) as nat).push(digit_char((n % 10) as nat)));
        }
    }
}

/// The name of a severity, as diagnostics print it.
pub open spec fn severity_name(s: Severity) -> Seq<char> {
    match s {
        Severity::Error => "error"@,
        Severity::Warning => "warning"@,
        Severity::Info => "info"@,
    }
}

/// How a diagnostic prints: `file:line:column: severity: message`.
pub open spec fn diagnostic_text(d: DiagnosticView) -> Seq<char> {
    d.file + ":"@ + decimal(d.line as nat) + ":"@ + decimal(d.column as nat) + ": "@
        + severity_name(d.severity) + ": "@ + d.message
}

impl Diagnostic {
    /// An error diagnostic.
    pub fn error(file: &str, line: usize, column: usize, message: &str, kind: DiagnosticKind) -> (d: Self)
        ensures
            d@ == diagnostic_of(file@, line, column, message@, Severity::Error, kind@),
    {
        Diagnostic {
            message: message.to_string(),
            location: Location { file: file.to_string(), line, column },
            severity: Severity::Error,
            kind,
        }
    }

    /// A warning diagnostic.
    pub fn warning(file: &str, line: usize, column: usize, message: &str, kind: DiagnosticKind) -> (d: Self)
        ensures
            d@ == diagnostic_of(file@, line, column, message@, Severity::Warning, kind@),
    {
        Diagnostic {
            message: message.to_string(),
            location: Location { file: file.to_string(), line, column },
            severity: Severity::Warning,
            kind,
        }
    }

    /// Whether a fix can be applied: the generated code is missing or out of date.
    pub fn is_fixable(&self) -> (b: bool)
        ensures
            b == kind_is_fixable(self.kind@),
    {
        match self.kind {
            DiagnosticKind::MissingInlineGeneration { .. } => true,
            DiagnosticKind::OutDatedGeneratedCode { .. } => true,
            _ => false,
        }
    }

    /// The diagnostic as it prints: `file:line:column: severity: message`.
    pub fn to_display_string(&self) -> (s: String)
        ensures
            s@ == diagnostic_text(self@),
    {
        let mut s = self.location.file.clone();
        s.append(":");
        push_decimal(&mut s, self.location.line);
        s.append(":");
        push_decimal(&mut s, self.location.column);
        s.append(": ");
        match self.severity {
            Severity::Error => s.append("error"),
            Severity::Warning => s.append("warning"),
            Severity::Info => s.append("info"),
        }
        s.append(": ");
        s.append(self.message.as_str());
        s
    }
}

} // verus!
