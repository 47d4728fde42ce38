use ry::config::{Config, Defaults, Package, PackageRef, Rule, RuleKind, Target, TargetVariant};
use ry::diagnostics::{Diagnostic, DiagnosticKind, Severity};
use ry::inline::{
    extract_trailing_comment, find_target_by_tag, is_definition_node, plan_inline_fix, process_fixable_diagnostics,
    process_source_inline, validate_all_inline, Mark,
};
use ry::packages::PackageMap;
use ry::treesitter::{get_node_text, PythonParser, SyntaxNode};

fn std_config(targets: Vec<Target>) -> Config {
    Config {
        version: 1,
        defaults: Defaults {
            package_refs: vec![PackageRef { package: "std".to_string(), exclude: vec![] }],
        },
        packages: PackageMap::new(),
        targets,
    }
}

fn inline_target(tag: &str) -> Target {
    Target {
        variant: TargetVariant::Inline { tag: tag.to_string() },
        inherit_defaults: true,
        package_refs: vec![],
        rules: vec![],
    }
}

#[test]
fn markers_are_read_from_the_first_line() {
    match extract_trailing_comment("def f():  # unasync: generate\n    pass") {
        Some(Mark::Generate(None)) => {}
        _ => panic!("expected a generate marker"),
    }
    match extract_trailing_comment("def f():  #unasync:generate @my-tag\n") {
        Some(Mark::Generate(Some(t))) => assert_eq!(t, "my-tag"),
        _ => panic!("expected a tagged generate marker"),
    }
    match extract_trailing_comment("def f():  # unasync: generated @t1\n    pass") {
        Some(Mark::Generated(Some(t))) => assert_eq!(t, "t1"),
        _ => panic!("expected a generated marker"),
    }
    assert!(extract_trailing_comment("def f():\n    pass  # unasync: generate").is_none());
    assert!(extract_trailing_comment("def f():  # unasync: generate it").is_none());
    assert!(extract_trailing_comment("").is_none());
    match extract_trailing_comment("x  # unasync: generate\r\nmore") {
        Some(Mark::Generate(None)) => {}
        _ => panic!("expected a generate marker before CRLF"),
    }
}

#[test]
fn definition_kinds() {
    assert!(is_definition_node("function_definition"));
    assert!(is_definition_node("async_function_definition"));
    assert!(is_definition_node("class_definition"));
    assert!(!is_definition_node("decorated_definition"));
    assert!(!is_definition_node("comment"));
}

#[test]
fn targets_are_found_by_tag() {
    let file_target = Target {
        variant: TargetVariant::File { input: "a".to_string(), output: "b".to_string() },
        inherit_defaults: true,
        package_refs: vec![],
        rules: vec![],
    };
    let config = std_config(vec![file_target, inline_target("x"), inline_target("y")]);
    let t = find_target_by_tag(&config, "y").unwrap();
    assert!(matches!(&t.variant, TargetVariant::Inline { tag } if tag == "y"));
    assert!(find_target_by_tag(&config, "z").is_none());
    assert!(find_target_by_tag(&config, "a").is_none());
}

#[test]
fn parser_gives_node_text() {
    let mut parser = PythonParser::new().unwrap();
    let src = "x = 1\ndef f():\n    return 2\n";
    let root = parser.parse(src).unwrap();
    assert_eq!(root.kind, "module");
    let def = root.children.iter().find(|c| c.kind == "function_definition").unwrap();
    assert_eq!(def.start_row, 1);
    assert_eq!(def.start_column, 0);
    assert_eq!(get_node_text(def, src), "def f():\n    return 2");
}

const MISSING: &str = "async def fetch():  # unasync: generate\n    await sleep(1)\n";
const FIXED: &str = "async def fetch():  # unasync: generate\n    await sleep(1)\n\ndef fetch():  # unasync: generated\n    sleep(1)\n";

#[test]
fn missing_generation_is_reported_and_fixed() {
    let config = std_config(vec![]);
    let checked = process_source_inline(MISSING, &config, true, "m.py").unwrap();
    assert_eq!(checked.diagnostics.len(), 1);
    assert!(checked.fixed.is_empty());
    assert!(checked.new_content.is_none());
    let d = &checked.diagnostics[0];
    assert_eq!(d.message, "Generate marker must be followed by a generated node");
    assert_eq!(d.location.line, 1);
    assert!(matches!(d.severity, Severity::Error));
    match &d.kind {
        DiagnosticKind::MissingInlineGeneration { transformed_code, generated_end_byte, indentation, source_line, .. } => {
            assert_eq!(transformed_code, "def fetch():  # unasync: generated\n    sleep(1)");
            assert!(generated_end_byte.is_none());
            assert_eq!(*indentation, 0);
            assert_eq!(*source_line, 1);
        }
        _ => panic!("expected a missing generation"),
    }

    let fixed = process_source_inline(MISSING, &config, false, "m.py").unwrap();
    assert_eq!(fixed.new_content.as_deref(), Some(FIXED));
    assert_eq!(fixed.fixed.len(), 1);
    assert!(fixed.diagnostics.is_empty());
    assert!(fixed.warnings.is_empty());
    assert_eq!(fixed.generations.len(), 1);
    assert_eq!(fixed.generations[0].to_display_string(), "m.py:1: generated inline block");

    // Fixing again finds nothing left to fix and changes nothing.
    let again = process_source_inline(FIXED, &config, false, "m.py").unwrap();
    assert!(again.new_content.is_none());
    assert!(again.fixed.is_empty());
    assert!(again.diagnostics.iter().all(|d| !d.is_fixable()));
}

#[test]
fn up_to_date_file_has_no_diagnostics() {
    let config = std_config(vec![]);
    let out = process_source_inline(FIXED, &config, false, "m.py").unwrap();
    assert!(out.diagnostics.is_empty());
    assert!(out.fixed.is_empty());
    assert!(out.new_content.is_none());
}

#[test]
fn outdated_generation_is_replaced() {
    let src = "async def f():  # unasync: generate\n    await g()\n\ndef f():  # unasync: generated\n    old()\n\nx = 1\n";
    let config = std_config(vec![]);
    let checked = process_source_inline(src, &config, true, "o.py").unwrap();
    assert_eq!(checked.diagnostics.len(), 1);
    let d = &checked.diagnostics[0];
    assert_eq!(d.message, "Generated code is out of sync with generate marker");
    match &d.kind {
        DiagnosticKind::OutDatedGeneratedCode { actual_code, transformed_code, .. } => {
            assert_eq!(actual_code, "def f():  # unasync: generated\n    old()");
            assert_eq!(transformed_code, "def f():  # unasync: generated\n    g()");
        }
        _ => panic!("expected an outdated generation"),
    }
    let fixed = process_source_inline(src, &config, false, "o.py").unwrap();
    assert_eq!(
        fixed.new_content.as_deref(),
        Some("async def f():  # unasync: generate\n    await g()\n\ndef f():  # unasync: generated\n    g()\n\nx = 1\n")
    );
    assert!(fixed.diagnostics.is_empty());
}

#[test]
fn indented_method_is_generated_with_indentation() {
    let src = "class A:\n    async def m(self):  # unasync: generate\n        await x()\n";
    let config = std_config(vec![]);
    let fixed = process_source_inline(src, &config, false, "c.py").unwrap();
    assert_eq!(
        fixed.new_content.as_deref(),
        Some("class A:\n    async def m(self):  # unasync: generate\n        await x()\n\n    def m(self):  # unasync: generated\n        x()\n")
    );
}

#[test]
fn unknown_tag_is_a_warning() {
    let src = "async def f():  # unasync: generate @nope\n    await g()\n";
    let config = std_config(vec![inline_target("yes")]);
    let out = process_source_inline(src, &config, false, "t.py").unwrap();
    assert_eq!(out.diagnostics.len(), 1);
    let d = &out.diagnostics[0];
    assert!(matches!(d.severity, Severity::Warning));
    assert_eq!(d.message, "Tag '@nope' used in marker but not found in config targets");
    assert!(matches!(&d.kind, DiagnosticKind::TagUsedInMarkerNotFoundInConfig { tag_name } if tag_name == "nope"));
    assert!(out.new_content.is_none());
}

#[test]
fn tagged_generation_uses_the_target_rules() {
    let src = "async def f():  # unasync: generate @t\n    await g()\n";
    let config = std_config(vec![inline_target("t")]);
    let out = process_source_inline(src, &config, false, "t.py").unwrap();
    assert_eq!(
        out.new_content.as_deref(),
        Some("async def f():  # unasync: generate @t\n    await g()\n\ndef f():  # unasync: generated @t\n    g()\n")
    );
}

#[test]
fn mismatched_tags_and_orphans() {
    let src = "def a():  # unasync: generated\n    pass\n\nx = 1\n\ndef b():  # unasync: generated\n    pass\n";
    let config = std_config(vec![]);
    let out = process_source_inline(src, &config, true, "g.py").unwrap();
    assert_eq!(out.diagnostics.len(), 1);
    assert_eq!(out.diagnostics[0].message, "Orphaned generated marker without matching generate marker above");
    assert_eq!(out.diagnostics[0].location.line, 6);
    assert!(!out.diagnostics[0].is_fixable());

    let src2 = "async def a():  # unasync: generate @t\n    pass\n\ndef a():  # unasync: generated\n    pass\n";
    let config2 = std_config(vec![inline_target("t")]);
    let out2 = process_source_inline(src2, &config2, true, "g.py").unwrap();
    assert_eq!(out2.diagnostics.len(), 2);
    assert_eq!(out2.diagnostics[0].message, "Generate marker @t tag does not match generated marker tag");
    assert_eq!(out2.diagnostics[1].message, "Generated marker tag does not match generate marker tag @t");
}

#[test]
fn generate_followed_by_non_definition() {
    let src = "async def a():  # unasync: generate\n    pass\nx = 1\n";
    let config = std_config(vec![]);
    let out = process_source_inline(src, &config, true, "n.py").unwrap();
    assert_eq!(out.diagnostics.len(), 1);
    assert_eq!(
        out.diagnostics[0].message,
        "Generate marker must be followed by a definition node with a generated marker"
    );
    let src2 = "async def a():  # unasync: generate\n    pass\ndef b():\n    pass\n";
    let out2 = process_source_inline(src2, &config, true, "n.py").unwrap();
    assert_eq!(out2.diagnostics[0].message, "Generate marker must be followed by a generated marker");
}

fn node(kind: &str, start: usize, end: usize, row: usize, children: Vec<SyntaxNode>) -> SyntaxNode {
    SyntaxNode {
        kind: kind.to_string(),
        start_byte: start,
        end_byte: end,
        start_row: row,
        start_column: 0,
        children,
    }
}

#[test]
fn hand_built_tree_is_checked() {
    let src = "def f():  # unasync: generated\n    pass\n";
    let root = node("module", 0, src.len(), 0, vec![node("function_definition", 0, src.len() - 1, 0, vec![])]);
    let config = std_config(vec![]);
    // A generated node with no node before it reports nothing.
    assert!(validate_all_inline(&root, &config, src, "h.py").is_empty());
}

#[test]
fn splicing_without_fixes_keeps_content() {
    let content = "héllo wörld\n";
    let ds = vec![Diagnostic::error("f", 1, 0, "m", DiagnosticKind::Warning)];
    let (text, generations) = process_fixable_diagnostics(&ds, content);
    assert_eq!(text, content);
    assert!(generations.is_empty());
    assert_eq!(process_fixable_diagnostics(&[], content).0, content);
}

#[test]
fn splicing_with_multibyte_text() {
    let content = "ä = 1\nb = 2\n";
    let fix = DiagnosticKind::MissingInlineGeneration {
        generate_end_byte: 6,
        generated_end_byte: None,
        transformed_code: "ö".to_string(),
        indentation: 2,
        source_line: 1,
    };
    let ds = vec![Diagnostic::error("f", 1, 0, "m", fix)];
    let (text, generations) = process_fixable_diagnostics(&ds, content);
    assert_eq!(text, "ä = 1\n\n  ö\nb = 2\n");
    assert_eq!(generations.len(), 1);
    assert_eq!(generations[0].to_display_string(), "f:1: generated inline block");
}

#[test]
fn nested_generations_that_overlap_are_refused() {
    let src = "class A:  # unasync: generate\n    async def m(self):  # unasync: generate\n        await x()\n    y = 1\n";
    let config = std_config(vec![]);
    let checked = process_source_inline(src, &config, true, "n.py").unwrap();
    assert_eq!(checked.diagnostics.len(), 2);
    assert!(checked.diagnostics.iter().all(|d| d.is_fixable()));
    assert!(process_source_inline(src, &config, false, "n.py").is_err());
}

#[test]
fn planning_fixes_on_a_parsed_tree() {
    let config = std_config(vec![]);
    let mut parser = PythonParser::new().unwrap();
    let tree = parser.parse(MISSING).unwrap();
    let plan = plan_inline_fix(&tree, MISSING, &config, false, "p.py").unwrap();
    assert_eq!(plan.diagnostics.len(), 1);
    assert_eq!(plan.fixed.len(), 1);
    assert_eq!(plan.new_content.as_deref(), Some(FIXED));
    let checked = plan_inline_fix(&tree, MISSING, &config, true, "p.py").unwrap();
    assert!(checked.new_content.is_none());
    assert!(checked.fixed.is_empty());

    let nested = "class A:  # unasync: generate\n    async def m(self):  # unasync: generate\n        await x()\n    y = 1\n";
    let tree2 = parser.parse(nested).unwrap();
    let refused = plan_inline_fix(&tree2, nested, &config, false, "p.py");
    assert_eq!(refused.err().as_deref(), Some("Generated blocks overlap; the fixes cannot be applied"));
}

#[test]
fn invalid_rules_warn_during_the_check() {
    let mut config = std_config(vec![]);
    config.packages.insert(
        "bad".to_string(),
        Package {
            rules: vec![Rule {
                id: "broken".to_string(),
                kind: RuleKind::Regex,
                match_pattern: "(".to_string(),
                replace: "x".to_string(),
            }],
        },
    );
    config.defaults.package_refs.push(PackageRef { package: "bad".to_string(), exclude: vec![] });
    let checked = process_source_inline(MISSING, &config, true, "w.py").unwrap();
    assert_eq!(checked.warnings, vec!["Warning: Invalid regex pattern in rule 'broken': (".to_string()]);
    let fixed = process_source_inline(MISSING, &config, false, "w.py").unwrap();
    assert_eq!(fixed.warnings.len(), 2);
    assert!(PythonParser::new().is_ok());
}
