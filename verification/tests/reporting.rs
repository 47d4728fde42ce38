use ry::diagnostics::{Diagnostic, DiagnosticKind, Severity};
use ry::generation::{Generation, GenerationKind};
use ry::report::{count_with_severity, glob_pattern_for, has_errors, render_diff, summary_line};

fn warning() -> Diagnostic {
    Diagnostic::warning("f.py", 3, 4, "careful", DiagnosticKind::Warning)
}

fn error() -> Diagnostic {
    Diagnostic::error("f.py", 10, 0, "broken", DiagnosticKind::GeneratedCodeWithoutGenerator)
}

#[test]
fn diagnostic_constructors() {
    let e = error();
    assert_eq!(e.message, "broken");
    assert_eq!(e.location.file, "f.py");
    assert_eq!(e.location.line, 10);
    assert_eq!(e.location.column, 0);
    assert!(matches!(e.severity, Severity::Error));
    let w = warning();
    assert!(matches!(w.severity, Severity::Warning));
}

#[test]
fn fixable_kinds() {
    let missing = DiagnosticKind::MissingInlineGeneration {
        generate_end_byte: 1,
        generated_end_byte: None,
        transformed_code: String::new(),
        indentation: 0,
        source_line: 1,
    };
    let outdated = DiagnosticKind::OutDatedGeneratedCode {
        generate_end_byte: 1,
        generated_end_byte: Some(2),
        transformed_code: String::new(),
        actual_code: String::new(),
        indentation: 0,
        source_line: 1,
    };
    assert!(Diagnostic::error("a", 1, 0, "m", missing).is_fixable());
    assert!(Diagnostic::error("a", 1, 0, "m", outdated).is_fixable());
    assert!(!error().is_fixable());
    assert!(!Diagnostic::error("a", 1, 0, "m", DiagnosticKind::OutOfSyncModuleTarget).is_fixable());
    let tag = DiagnosticKind::TagUsedInMarkerNotFoundInConfig { tag_name: "t".to_string() };
    assert!(!Diagnostic::warning("a", 1, 0, "m", tag).is_fixable());
}

#[test]
fn diagnostic_display() {
    assert_eq!(error().to_display_string(), "f.py:10:0: error: broken");
    assert_eq!(warning().to_display_string(), "f.py:3:4: warning: careful");
    let mut info = warning();
    info.severity = Severity::Info;
    info.location.line = 1234567;
    assert_eq!(info.to_display_string(), "f.py:1234567:4: info: careful");
}

#[test]
fn generation_display() {
    let f = Generation::file("a.py", "b.py");
    assert!(matches!(&f.kind, GenerationKind::File { output_file } if output_file == "b.py"));
    assert_eq!(f.to_display_string(), "a.py -> b.py");
    let i = Generation::inline("a.py", 42);
    assert_eq!(i.source_file, "a.py");
    assert_eq!(i.to_display_string(), "a.py:42: generated inline block");
}

#[test]
fn summary_lines() {
    let ds = vec![error(), warning(), error()];
    assert_eq!(count_with_severity(&ds, Severity::Error), 2);
    assert_eq!(count_with_severity(&ds, Severity::Warning), 1);
    assert_eq!(
        summary_line(5, &ds, 0),
        "Processed 5 file(s) with 2 error(s) and 1 warning(s)"
    );
    assert_eq!(
        summary_line(1, &ds, 3),
        "Processed 1 file(s) with 2 error(s), 1 warning(s), and fixed 3 diagnostic(s)"
    );
    assert!(has_errors(&ds));
    assert!(!has_errors(&[warning()]));
    assert_eq!(summary_line(0, &[], 0), "Processed 0 file(s) with 0 error(s) and 0 warning(s)");
}

#[test]
fn glob_patterns() {
    assert_eq!(glob_pattern_for("src"), "src/**/*.py");
    assert_eq!(glob_pattern_for("src///"), "src/**/*.py");
    assert_eq!(glob_pattern_for("."), "./**/*.py");
    assert_eq!(glob_pattern_for("/"), "/**/*.py");
}

#[test]
fn diffs_render_line_by_line() {
    assert_eq!(render_diff("a\nb\n", "a\nc\n", false), " a\n-b\n+c\n");
    assert_eq!(
        render_diff("x\n", "y", true),
        "\x1b[31m-x\n\x1b[0m\x1b[32m+y\n\x1b[0m"
    );
    assert_eq!(render_diff("same\n", "same\n", true), " same\n");
    assert_eq!(render_diff("", "", false), "");
}
