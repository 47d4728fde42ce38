//! File targets: a whole input file transformed into an output file.

use vstd::prelude::*;

use crate::{apply_rules, invalid_rule_warnings, rule_warnings};
use crate::config::{effective_rules, string_views, Config, Target, TargetVariant};
use crate::diagnostics::{diagnostic_of, Diagnostic, DiagnosticKind, DiagnosticKindView, DiagnosticView, Severity};
use crate::text::str_equal;
use crate::transform;

verus! {

/// What checking a file target gives: the transformed input; in check-only
/// mode the diagnostic to report when the output is out of sync; else, when
/// it is, the diagnostic to report as fixed and the order to write the
/// transformed input to the output; and the warnings of the target's rules.
pub struct FileTargetCheck {
    pub transformed: String,
    pub diagnostic: Option<Diagnostic>,
    pub fixed: Option<Diagnostic>,
    pub write_output: bool,
    pub warnings: Vec<String>,
}

/// The output must be rewritten: it could not be read, or it differs from
/// the transformed input.
pub open spec fn needs_update(existing_output: Option<Seq<char>>, transformed: Seq<char>) -> bool {
    match existing_output {
        Some(e) => e != transformed,
        None => true,
    }
}

/// The diagnostic for an output file that is out of sync with its input.
pub open spec fn out_of_sync_diagnostic(input: Seq<char>, output: Seq<char>) -> DiagnosticView {
    diagnostic_of(
        input,
        1,
        0,
        "Output file '"@ + output + "' is out of sync with input"@,
        Severity::Error,
        DiagnosticKindView::OutOfSyncModuleTarget,
    )
}

/// What one file target decides: the diagnostic to report, the diagnostic
/// to report as fixed, and whether the output is written. Nothing happens
/// when the output is in sync; in check-only mode an out-of-sync output is
/// reported; else it is rewritten and reported as fixed.
pub struct TargetDecision {
    pub report: Option<DiagnosticView>,
    pub fixed: Option<DiagnosticView>,
    pub write: bool,
}

/// The decision for a file target from `input` to `output`.
pub open spec fn target_decision(
    input: Seq<char>,
    output: Seq<char>,
    existing_output: Option<Seq<char>>,
    transformed: Seq<char>,
    check_only: bool,
) -> TargetDecision {
    if !needs_update(existing_output, transformed) {
        TargetDecision { report: None, fixed: None, write: false }
    } else if check_only {
        TargetDecision { report: Some(out_of_sync_diagnostic(input, output)), fixed: None, write: false }
    } else {
        TargetDecision { report: None, fixed: Some(out_of_sync_diagnostic(input, output)), write: true }
    }
}

/// The view of an optional diagnostic.
pub open spec fn opt_diagnostic(d: Option<Diagnostic>) -> Option<DiagnosticView> {
    match d {
        Some(x) => Some(x@),
        None => None,
    }
}

/// The view of an optional string slice.
pub open spec fn opt_text(t: Option<&str>) -> Option<Seq<char>> {
    match t {
        Some(x) => Some(x@),
        None => None,
    }
}

/// Checks a file target against the content of its input file and of its
/// output file (`None` when the output could not be read), and decides what
/// to report and whether to write the output. `None` for an inline target.
pub fn check_file_target(
    config: &Config,
    target: &Target,
    source_code: &str,
    existing_output: Option<&str>,
    check_only: bool,
) -> (r: Option<FileTargetCheck>)
    ensures
        match target.variant {
            TargetVariant::File { input, output } => r matches Some(c) && {
                let decision = target_decision(input@, output@, opt_text(existing_output), c.transformed@, check_only);
                &&& c.transformed@ == transform(source_code@, effective_rules(*config, *target))
                &&& string_views(c.warnings@) == rule_warnings(effective_rules(*config, *target))
                &&& opt_diagnostic(c.diagnostic) == decision.report
                &&& opt_diagnostic(c.fixed) == decision.fixed
                &&& c.write_output == decision.write
            },
            TargetVariant::Inline { .. } => r is None,
        },
{
    match &target.variant {
        TargetVariant::File { input, output } => {
            let rules = config.get_effective_rules(target);
            let transformed = apply_rules(source_code, rules.as_slice());
            let warnings = invalid_rule_warnings(rules.as_slice());
            let update = match existing_output {
                Some(existing) => !str_equal(existing, transformed.as_str()),
                None => true,
            };
            if !update {
                return Some(FileTargetCheck { transformed, diagnostic: None, fixed: None, write_output: false, warnings });
            }
            let mut msg = "Output file '".to_string();
            msg.append(output.as_str());
            msg.append("' is out of sync with input");
            let d = Diagnostic::error(input.as_str(), 1, 0, msg.as_str(), DiagnosticKind::OutOfSyncModuleTarget);
            if check_only {
                Some(FileTargetCheck { transformed, diagnostic: Some(d), fixed: None, write_output: false, warnings })
            } else {
                Some(FileTargetCheck { transformed, diagnostic: None, fixed: Some(d), write_output: true, warnings })
            }
        },
        TargetVariant::Inline { .. } => None,
    }
}

/// The target writes a file from another.
pub open spec fn is_file_target(t: Target) -> bool {
    t.variant is File
}

/// The input file of a file target.
pub open spec fn target_input(t: Target) -> Seq<char> {
    match t.variant {
        TargetVariant::File { input, .. } => input@,
        TargetVariant::Inline { .. } => seq![],
    }
}

/// The output file of a file target.
pub open spec fn target_output(t: Target) -> Seq<char> {
    match t.variant {
        TargetVariant::File { output, .. } => output@,
        TargetVariant::Inline { .. } => seq![],
    }
}

/// The diagnostic as a sequence of zero or one.
pub open spec fn opt_views(d: Option<DiagnosticView>) -> Seq<DiagnosticView> {
    match d {
        Some(x) => seq![x],
        None => seq![],
    }
}

/// Running the file targets in order on the files (by path; a missing path
/// cannot be read), as the command does: each target reads its input and
/// its output, and follows `target_decision`; writes always succeed. The
/// reported diagnostics, the fixed ones, and the files afterwards; `None`
/// when an input cannot be read.
pub open spec fn run_file_targets(
    config: Config,
    targets: Seq<Target>,
    files: Map<Seq<char>, Seq<char>>,
    check_only: bool,
) -> Option<(Seq<DiagnosticView>, Seq<DiagnosticView>, Map<Seq<char>, Seq<char>>)>
    decreases targets.len(),
{
    if targets.len() == 0 {
        Some((seq![], seq![], files))
    } else {
        match run_file_targets(config, targets.drop_last(), files, check_only) {
            None => None,
            Some((reported, fixed, fs)) => {
                let t = targets.last();
                if !is_file_target(t) {
                    Some((reported, fixed, fs))
                } else if !fs.contains_key(target_input(t)) {
                    None
                } else {
                    let transformed = transform(fs[target_input(t)], effective_rules(config, t));
                    let existing = if fs.contains_key(target_output(t)) {
                        Some(fs[target_output(t)])
                    } else {
                        None
                    };
                    let d = target_decision(target_input(t), target_output(t), existing, transformed, check_only);
                    Some((
                        reported + opt_views(d.report),
                        fixed + opt_views(d.fixed),
                        if d.write {
                            fs.insert(target_output(t), transformed)
                        } else {
                            fs
                        },
                    ))
                }
            },
        }
    }
}

/// No file target writes the input of a file target, and no two file
/// targets write the same output.
pub open spec fn outputs_separate(targets: Seq<Target>) -> bool {
    forall|i: int, j: int|
        0 <= i < targets.len() && 0 <= j < targets.len() && is_file_target(#[trigger] targets[i])
            && is_file_target(#[trigger] targets[j]) ==> target_output(targets[i]) != target_input(targets[j])
            && (i != j ==> target_output(targets[i]) != target_output(targets[j]))
}

/// Some file target of `targets` writes `path`.
pub open spec fn is_output(targets: Seq<Target>, path: Seq<char>) -> bool {
    exists|i: int| 0 <= i < targets.len() && is_file_target(#[trigger] targets[i]) && target_output(targets[i]) == path
}

/// A fix run leaves every file that no target writes as it was, and every
/// output holding its target's transformed input.
proof fn lemma_fix_run(
    config: Config,
    targets: Seq<Target>,
    files: Map<Seq<char>, Seq<char>>,
)
    requires
        outputs_separate(targets),
        run_file_targets(config, targets, files, false) is Some,
    ensures
        ({
            let fs = run_file_targets(config, targets, files, false).unwrap().2;
            &&& forall|k: Seq<char>| !is_output(targets, k) ==> (#[trigger] fs.contains_key(k) == files.contains_key(k)
                && (files.contains_key(k) ==> fs[k] == files[k]))
            &&& forall|i: int| 0 <= i < targets.len() && is_file_target(#[trigger] targets[i]) ==> {
                &&& files.contains_key(target_input(targets[i]))
                &&& fs.contains_key(target_output(targets[i]))
                &&& fs[target_output(targets[i])] == transform(
                    files[target_input(targets[i])],
                    effective_rules(config, targets[i]),
                )
            }
        }),
    decreases targets.len(),
{
    if targets.len() > 0 {
        let p = targets.drop_last();
        let t = targets.last();
        assert forall|i: int, j: int|
            0 <= i < p.len() && 0 <= j < p.len() && is_file_target(#[trigger] p[i]) && is_file_target(#[trigger] p[j])
                implies target_output(p[i]) != target_input(p[j]) && (i != j ==> target_output(p[i]) != target_output(p[j])) by {
            assert(p[i] == targets[i] && p[j] == targets[j]);
        }
        lemma_fix_run(config, p, files);
        let fs_p = run_file_targets(config, p, files, false).unwrap().2;
        let fs = run_file_targets(config, targets, files, false).unwrap().2;
        let last = targets.len() - 1;
        assert(targets[last] == t);
        assert forall|k: Seq<char>| !is_output(targets, k) implies (#[trigger] fs.contains_key(k) == files.contains_key(k)
            && (files.contains_key(k) ==> fs[k] == files[k])) by {
            if is_output(p, k) {
                let i = choose|i: int| 0 <= i < p.len() && is_file_target(#[trigger] p[i]) && target_output(p[i]) == k;
                assert(targets[i] == p[i]);
            }
            if is_file_target(t) {
                assert(target_output(t) != k);
            }
        }
        if is_file_target(t) {
            let inp = target_input(t);
            assert(!is_output(p, inp)) by {
                if is_output(p, inp) {
                    let i = choose|i: int| 0 <= i < p.len() && is_file_target(#[trigger] p[i]) && target_output(p[i]) == inp;
                    assert(targets[i] == p[i]);
                }
            }
            assert(target_output(t) != inp);
        }
        assert forall|i: int| 0 <= i < targets.len() && is_file_target(#[trigger] targets[i]) implies {
            &&& files.contains_key(target_input(targets[i]))
            &&& fs.contains_key(target_output(targets[i]))
            &&& fs[target_output(targets[i])] == transform(
                files[target_input(targets[i])],
                effective_rules(config, targets[i]),
            )
        } by {
            if i < last {
                assert(p[i] == targets[i]);
                if is_file_target(targets[last]) {
                    assert(target_output(targets[i]) != target_output(targets[last]));
                }
            }
        }
    }
}

/// When every output holds its target's transformed input, a run reports
/// nothing and changes nothing.
proof fn lemma_run_in_sync(
    config: Config,
    targets: Seq<Target>,
    fs: Map<Seq<char>, Seq<char>>,
    check_only: bool,
)
    requires
        forall|i: int| 0 <= i < targets.len() && is_file_target(#[trigger] targets[i]) ==> {
            &&& fs.contains_key(target_input(targets[i]))
            &&& fs.contains_key(target_output(targets[i]))
            &&& fs[target_output(targets[i])] == transform(
                fs[target_input(targets[i])],
                effective_rules(config, targets[i]),
            )
        },
    ensures
        run_file_targets(config, targets, fs, check_only) == Some((Seq::<DiagnosticView>::empty(), Seq::<DiagnosticView>::empty(), fs)),
    decreases targets.len(),
{
    if targets.len() > 0 {
        let p = targets.drop_last();
        assert forall|i: int| 0 <= i < p.len() && is_file_target(#[trigger] p[i]) implies {
            &&& fs.contains_key(target_input(p[i]))
            &&& fs.contains_key(target_output(p[i]))
            &&& fs[target_output(p[i])] == transform(fs[target_input(p[i])], effective_rules(config, p[i]))
        } by {
            assert(p[i] == targets[i]);
        }
        lemma_run_in_sync(config, p, fs, check_only);
        let last = targets.len() - 1;
        assert(targets[last] == targets.last());
        assert(Seq::<DiagnosticView>::empty() + opt_views(None) =~= Seq::<DiagnosticView>::empty());
    }
}

/// Law: fixing the file targets fixes them all. When no target writes the
/// input of a target and no two targets write the same output, after a
/// successful fix run a check run reports nothing, and a further fix run
/// reports nothing and writes nothing.
pub proof fn law_file_targets_fixed(config: Config, targets: Seq<Target>, files: Map<Seq<char>, Seq<char>>)
    requires
        outputs_separate(targets),
        run_file_targets(config, targets, files, false) is Some,
    ensures
        ({
            let fixed_files = run_file_targets(config, targets, files, false).unwrap().2;
            &&& run_file_targets(config, targets, fixed_files, true) == Some(
                (Seq::<DiagnosticView>::empty(), Seq::<DiagnosticView>::empty(), fixed_files),
            )
            &&& run_file_targets(config, targets, fixed_files, false) == Some(
                (Seq::<DiagnosticView>::empty(), Seq::<DiagnosticView>::empty(), fixed_files),
            )
        }),
{
    lemma_fix_run(config, targets, files);
    let fs = run_file_targets(config, targets, files, false).unwrap().2;
    assert forall|i: int| 0 <= i < targets.len() && is_file_target(#[trigger] targets[i]) implies {
        &&& fs.contains_key(target_input(targets[i]))
        &&& fs.contains_key(target_output(targets[i]))
        &&& fs[target_output(targets[i])] == transform(fs[target_input(targets[i])], effective_rules(config, targets[i]))
    } by {
        let inp = target_input(targets[i]);
        assert(!is_output(targets, inp)) by {
            if is_output(targets, inp) {
                let j = choose|j: int| 0 <= j < targets.len() && is_file_target(#[trigger] targets[j]) && target_output(targets[j]) == inp;
                assert(target_output(targets[j]) != target_input(targets[i]));
            }
        }
        assert(fs.contains_key(inp) == files.contains_key(inp));
    }
    lemma_run_in_sync(config, targets, fs, true);
    lemma_run_in_sync(config, targets, fs, false);
}

} // verus!
