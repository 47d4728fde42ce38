use ry::{apply_rules, invalid_rule_warnings};
use ry::config::{Rule, RuleKind};
use ry::packages::get_builtin_packages;
use ry::strip_marked;

fn rule(id: &str, pattern: &str, replace: &str) -> Rule {
    Rule {
        id: id.to_string(),
        kind: RuleKind::Regex,
        match_pattern: pattern.to_string(),
        replace: replace.to_string(),
    }
}

fn std_rules() -> Vec<Rule> {
    get_builtin_packages().get("std").unwrap().rules.clone()
}

#[test]
fn strip_marker_lines_are_removed() {
    let src = "a = 1\nb = 2  # unasync: strip\nc = 3\n";
    assert_eq!(apply_rules(src, &[]), "a = 1\nc = 3\n");
}

#[test]
fn final_newline_only_when_present() {
    assert_eq!(strip_marked("x\ny"), "x\ny");
    assert_eq!(strip_marked("x\ny\n"), "x\ny\n");
    assert_eq!(strip_marked(""), "");
    assert_eq!(strip_marked("\n"), "\n");
    assert_eq!(strip_marked("a\n\n"), "a\n\n");
}

#[test]
fn crlf_lines_are_rejoined_with_lf() {
    assert_eq!(strip_marked("a\r\nb\r\n"), "a\nb\n");
    assert_eq!(strip_marked("a\r"), "a\r");
}

#[test]
fn all_lines_marked() {
    assert_eq!(strip_marked("# unasync: strip\n# unasync: strip\n"), "\n");
}

#[test]
fn std_rules_make_code_synchronous() {
    let src = "async def f():\n    async with lock:\n        await g()\n";
    let out = apply_rules(src, &std_rules());
    assert_eq!(out, "def f():\n    with lock:\n        g()\n");
}

#[test]
fn std_rules_rename_asyncio() {
    let src = "import asyncio\nfrom asyncio import Lock\nx = asyncio.Lock()\nraise StopAsyncIteration\n";
    let out = apply_rules(src, &std_rules());
    assert_eq!(
        out,
        "import threading\nfrom threading import Lock\nx = threading.Lock()\nraise StopIteration\n"
    );
}

#[test]
fn invalid_pattern_is_skipped() {
    let rules = vec![rule("bad", "(unclosed", "x"), rule("good", "a", "b")];
    assert_eq!(apply_rules("aaa", &rules), "bbb");
}

#[test]
fn rules_apply_in_order() {
    let rules = vec![rule("one", "a", "b"), rule("two", "b", "c")];
    assert_eq!(apply_rules("ab", &rules), "cc");
}

#[test]
fn replacement_uses_capture_groups() {
    let rules = vec![rule("swap", r"(\w+)=(\w+)", "$2=$1")];
    assert_eq!(apply_rules("x=y", &rules), "y=x");
}

#[test]
fn unmarked_text_is_unchanged() {
    let src = "def f():\n\n    return 1\n\n\n";
    assert_eq!(strip_marked(src), src);
    let src2 = "no newline at end";
    assert_eq!(apply_rules(src2, &[]), src2);
}

#[test]
fn invalid_pattern_warns_with_rule_and_pattern() {
    let rules = vec![rule("bad", "(", "x"), rule("ok", "a", "A")];
    assert_eq!(apply_rules("a(b", &rules), "A(b");
    assert_eq!(
        invalid_rule_warnings(&rules),
        vec!["Warning: Invalid regex pattern in rule 'bad': (".to_string()]
    );
    assert!(invalid_rule_warnings(&[rule("ok", "a", "A")]).is_empty());
}
