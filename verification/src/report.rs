//! What the command reports at the end of a run, and how it finds files.

use vstd::prelude::*;

use crate::diagnostics::{decimal, diagnostic_views, push_decimal, Diagnostic, DiagnosticView, Severity};
use crate::text::{chars_of, push_chars};

verus! {

/// How many of the diagnostics have severity `s`.
pub open spec fn count_severity(ds: Seq<DiagnosticView>, s: Severity) -> nat
    decreases ds.len(),
{
    if ds.len() == 0 {
        0
    } else {
        count_severity(ds.drop_last(), s) + if ds.last().severity == s {
            1nat
        } else {
            0nat
        }
    }
}

/// Counting never exceeds the number of diagnostics.
pub proof fn lemma_count_bounded(ds: Seq<DiagnosticView>, s: Severity)
    ensures
        count_severity(ds, s) <= ds.len(),
    decreases ds.len(),
{
    if ds.len() > 0 {
        lemma_count_bounded(ds.drop_last(), s);
    }
}

/// How many of the diagnostics have severity `severity`.
pub fn count_with_severity(diagnostics: &[Diagnostic], severity: Severity) -> (n: usize)
    ensures
        n == count_severity(diagnostic_views(diagnostics@), severity),
{
    let ghost ds = diagnostic_views(diagnostics@);
    let len = diagnostics.len();
    let mut n: usize = 0;
    for i in 0..len
        invariant
            len == diagnostics@.len(),
            ds == diagnostic_views(diagnostics@),
            n == count_severity(ds.take(i as int), severity),
    {
        proof {
            assert(ds.take(i + 1).drop_last() =~= ds.take(i as int));
            lemma_count_bounded(ds.take(i as int), severity);
        }
        if diagnostics[i].severity == severity {
            n = n + 1;
        }
    }
    proof {
        assert(ds.take(len as int) =~= ds);
    }
    n
}

/// Whether some diagnostic is an error (the run then fails).
pub fn has_errors(diagnostics: &[Diagnostic]) -> (b: bool)
    ensures
        b == (count_severity(diagnostic_views(diagnostics@), Severity::Error) > 0),
{
    count_with_severity(diagnostics, Severity::Error) > 0
}

/// The summary line of a run.
pub open spec fn summary_text(files: nat, errors: nat, warnings: nat, fixed: nat) -> Seq<char> {
    if fixed > 0 {
        "Processed "@ + decimal(files) + " file(s) with "@ + decimal(errors) + " error(s), "@
            + decimal(warnings) + " warning(s), and fixed "@ + decimal(fixed) + " diagnostic(s)"@
    } else {
        "Processed "@ + decimal(files) + " file(s) with "@ + decimal(errors) + " error(s) and "@
            + decimal(warnings) + " warning(s)"@
    }
}

/// The summary line of a run over `files` files.
pub fn summary_line(files: usize, diagnostics: &[Diagnostic], fixed_count: usize) -> (s: String)
    ensures
        s@ == summary_text(
            files as nat,
            count_severity(diagnostic_views(diagnostics@), Severity::Error),
            count_severity(diagnostic_views(diagnostics@), Severity::Warning),
            fixed_count as nat,
        ),
{
    let errors = count_with_severity(diagnostics, Severity::Error);
    let warnings = count_with_severity(diagnostics, Severity::Warning);
    let mut s = "Processed ".to_string();
    push_decimal(&mut s, files);
    s.append(" file(s) with ");
    push_decimal(&mut s, errors);
    if fixed_count > 0 {
        s.append(" error(s), ");
        push_decimal(&mut s, warnings);
        s.append(" warning(s), and fixed ");
        push_decimal(&mut s, fixed_count);
        s.append(" diagnostic(s)");
    } else {
        s.append(" error(s) and ");
        push_decimal(&mut s, warnings);
        s.append(" warning(s)");
    }
    s
}

/// `s` without the slashes at its end.
pub open spec fn trim_trailing_slashes(s: Seq<char>) -> Seq<char>
    decreases s.len(),
{
    if s.len() > 0 && s.last() == '/' {
        trim_trailing_slashes(s.drop_last())
    } else {
        s
    }
}

/// The glob pattern for the Python files under directory `dir`.
pub fn glob_pattern_for(dir: &str) -> (p: String)
    ensures
        p@ == trim_trailing_slashes(dir@) + "/**/*.py"@,
{
    let mut chars = chars_of(dir);
    while chars.len() > 0 && chars[chars.len() - 1] == '/'
        invariant
            trim_trailing_slashes(chars@) == trim_trailing_slashes(dir@),
        decreases chars.len(),
    {
        chars.pop();
    }
    let mut p = String::new();
    push_chars(&mut p, &chars);
    p.append("/**/*.py");
    proof {
        assert(p@ =~= chars@ + "/**/*.py"@);
    }
    p
}

/// How a line differs between two texts.
#[derive(Clone, Copy, Debug, PartialEq, Eq, Structural)]
pub enum LineChange {
    Delete,
    Insert,
    Equal,
}

/// What `similar::TextDiff::from_lines(old, new).iter_all_changes()` yields:
/// for each line, how it changed and its text as the change prints it.
pub uninterp spec fn line_diff(old: Seq<char>, new: Seq<char>) -> Seq<(LineChange, Seq<char>)>;

/// The views of the changes.
pub open spec fn change_views(v: Seq<(LineChange, String)>) -> Seq<(LineChange, Seq<char>)> {
    v.map_values(|p: (LineChange, String)| (p.0, p.1@))
}

/// The line-by-line changes from `old` to `new`, computed with
/// `similar::TextDiff::from_lines` and `TextDiff::iter_all_changes`, each
/// change's tag and its `Display` text. Claims that they are the named result.
#[verifier::external_body]
fn diff_lines(old: &str, new: &str) -> (r: Vec<(LineChange, String)>)
    ensures
        change_views(r@) == line_diff(old@, new@),
{
    let diff = similar::TextDiff::from_lines(old, new);
    let mut changes = Vec::new();
    for change in diff.iter_all_changes() {
        let kind = match change.tag() {
            similar::ChangeTag::Delete => LineChange::Delete,
            similar::ChangeTag::Insert => LineChange::Insert,
            similar::ChangeTag::Equal => LineChange::Equal,
        };
        changes.push((kind, format!("{}", change)));
    }
    changes
}

/// One changed line as the diff prints it: a sign (`-`, `+` or a space) and
/// the text, in red or green on a terminal.
pub open spec fn change_text(kind: LineChange, text: Seq<char>, colors: bool) -> Seq<char> {
    match kind {
        LineChange::Delete => if colors {
            "\x1b[31m-"@ + text + "\x1b[0m"@
        } else {
            "-"@ + text
        },
        LineChange::Insert => if colors {
            "\x1b[32m+"@ + text + "\x1b[0m"@
        } else {
            "+"@ + text
        },
        LineChange::Equal => " "@ + text,
    }
}

/// All the changes as the diff prints them.
pub open spec fn diff_text(changes: Seq<(LineChange, Seq<char>)>, colors: bool) -> Seq<char>
    decreases changes.len(),
{
    if changes.len() == 0 {
        seq![]
    } else {
        diff_text(changes.drop_last(), colors) + change_text(
            changes.last().0,
            changes.last().1,
            colors,
        )
    }
}

/// The line diff from `actual` to `expected`, as it prints.
pub fn render_diff(actual: &str, expected: &str, colors: bool) -> (s: String)
    ensures
        s@ == diff_text(line_diff(actual@, expected@), colors),
{
    let changes = diff_lines(actual, expected);
    let ghost cs = change_views(changes@);
    let mut s = String::new();
    let n = changes.len();
    proof {
        assert(s@ =~= diff_text(cs.take(0), colors));
    }
    for i in 0..n
        invariant
            n == changes@.len(),
            cs == change_views(changes@),
            s@ == diff_text(cs.take(i as int), colors),
    {
        proof {
            assert(cs.take(i + 1).drop_last() =~= cs.take(i as int));
            assert(cs.take(i + 1).last() == (changes@[i as int].0, changes@[i as int].1@));
        }
        let (kind, text) = &changes[i];
        match kind {
            LineChange::Delete => {
                if colors {
                    s.append("\x1b[31m-");
                    s.append(text.as_str());
                    s.append("\x1b[0m");
                } else {
                    s.append("-");
                    s.append(text.as_str());
                }
            },
            LineChange::Insert => {
                if colors {
                    s.append("\x1b[32m+");
                    s.append(text.as_str());
                    s.append("\x1b[0m");
                } else {
                    s.append("+");
                    s.append(text.as_str());
                }
            },
            LineChange::Equal => {
                s.append(" ");
                s.append(text.as_str());
            },
        }
    }
    proof {
        assert(cs.take(n as int) =~= cs);
    }
    s
}

} // verus!
