use ry::config::{Config, Defaults, PackageRef, Rule, RuleKind, Target, TargetVariant};
use ry::diagnostics::{DiagnosticKind, Severity};
use ry::module::check_file_target;
use ry::packages::PackageMap;

fn config() -> Config {
    Config {
        version: 1,
        defaults: Defaults {
            package_refs: vec![PackageRef { package: "std".to_string(), exclude: vec![] }],
        },
        packages: PackageMap::new(),
        targets: vec![],
    }
}

fn file_target() -> Target {
    Target {
        variant: TargetVariant::File { input: "in.py".to_string(), output: "out.py".to_string() },
        inherit_defaults: true,
        package_refs: vec![],
        rules: vec![Rule {
            id: "rename".to_string(),
            kind: RuleKind::Regex,
            match_pattern: "AsyncClient".to_string(),
            replace: "Client".to_string(),
        }],
    }
}

#[test]
fn out_of_sync_output_is_reported() {
    let c = config();
    let t = file_target();
    let src = "async def f(c: AsyncClient):\n    await c.get()\n";
    let r = check_file_target(&c, &t, src, Some("stale\n"), true).unwrap();
    assert!(r.warnings.is_empty());
    assert_eq!(r.transformed, "def f(c: Client):\n    c.get()\n");
    assert!(!r.write_output);
    assert!(r.fixed.is_none());
    let d = r.diagnostic.unwrap();
    assert_eq!(d.message, "Output file 'out.py' is out of sync with input");
    assert_eq!(d.location.file, "in.py");
    assert_eq!(d.location.line, 1);
    assert_eq!(d.location.column, 0);
    assert!(matches!(d.severity, Severity::Error));
    assert!(matches!(d.kind, DiagnosticKind::OutOfSyncModuleTarget));
}

#[test]
fn missing_output_needs_update() {
    let r = check_file_target(&config(), &file_target(), "x = 1\n", None, true).unwrap();
    assert!(r.diagnostic.is_some());
    assert!(!r.write_output);
}

#[test]
fn synced_output_is_quiet() {
    for check_only in [true, false] {
        let r = check_file_target(&config(), &file_target(), "await x\n", Some("x\n"), check_only).unwrap();
        assert_eq!(r.transformed, "x\n");
        assert!(r.diagnostic.is_none());
        assert!(r.fixed.is_none());
        assert!(!r.write_output);
    }
}

#[test]
fn inline_target_is_not_a_file_target() {
    let t = Target {
        variant: TargetVariant::Inline { tag: "t".to_string() },
        inherit_defaults: true,
        package_refs: vec![],
        rules: vec![],
    };
    assert!(check_file_target(&config(), &t, "x", None, true).is_none());
    assert!(check_file_target(&config(), &t, "x", None, false).is_none());
}

#[test]
fn fixing_writes_and_reports_as_fixed() {
    let src = "await run()\n";
    let fix = check_file_target(&config(), &file_target(), src, Some("old\n"), false).unwrap();
    assert!(fix.write_output);
    assert!(fix.diagnostic.is_none());
    let d = fix.fixed.unwrap();
    assert_eq!(d.message, "Output file 'out.py' is out of sync with input");
    // Once the output holds the transformed input, nothing is left to report.
    let again = check_file_target(&config(), &file_target(), src, Some(fix.transformed.as_str()), true).unwrap();
    assert!(again.diagnostic.is_none());
    assert!(again.fixed.is_none());
    assert!(!again.write_output);
}
