//! Compares the library with the same steps written directly on `str::lines`
//! and `regex`, over a range of inputs.

use regex::Regex;
use ry::apply_rules;
use ry::config::{Rule, RuleKind};
use ry::inline::{extract_trailing_comment, Mark};

fn reference_transform(source: &str, rules: &[Rule]) -> String {
    let stripped: String = source
        .lines()
        .filter(|line| !line.contains("# unasync: strip"))
        .collect::<Vec<_>>()
        .join("\n");
    let mut result = if source.ends_with('\n') { stripped + "\n" } else { stripped };
    for rule in rules {
        if let Ok(re) = Regex::new(&rule.match_pattern) {
            result = re.replace_all(&result, rule.replace.as_str()).to_string();
        }
    }
    result
}

fn reference_mark(source: &str) -> Option<(bool, Option<String>)> {
    let lines: Vec<&str> = source.lines().collect();
    if lines.is_empty() {
        return None;
    }
    let generate_re = Regex::new(r"#\s*unasync:\s*generate(?:\s+@([\w\-]+))?\s*$").unwrap();
    let generated_re = Regex::new(r"#\s*unasync:\s*generated(?:\s+@([\w\-]+))?\s*$").unwrap();
    if let Some(caps) = generate_re.captures(lines[0]) {
        return Some((true, caps.get(1).map(|m| m.as_str().to_string())));
    }
    if let Some(caps) = generated_re.captures(lines[0]) {
        return Some((false, caps.get(1).map(|m| m.as_str().to_string())));
    }
    None
}

fn rule(pattern: &str, replace: &str) -> Rule {
    Rule {
        id: pattern.to_string(),
        kind: RuleKind::Regex,
        match_pattern: pattern.to_string(),
        replace: replace.to_string(),
    }
}

const TEXTS: &[&str] = &[
    "",
    "\n",
    "\n\n",
    "\r",
    "\r\n",
    "a",
    "a\n",
    "a\r",
    "a\r\r\n",
    "a\rb\nc",
    "x # unasync: strip",
    "x # unasync: strip\n",
    "a\n# unasync: strip\nb",
    "a\r\n# unasync: strip\r\nb\r\n",
    "# unasync: strip\n# unasync: strip",
    "é\nü # unasync: strip\n ß\n\n",
    "async def f():\n    await g()\n\n",
];

#[test]
fn transform_agrees_with_lines_and_regex() {
    let rule_sets: Vec<Vec<Rule>> = vec![
        vec![],
        vec![rule(r"\ba\b", "A")],
        vec![rule("(", "x"), rule(r"\s+", " ")],
        vec![rule(r"\bawait\s+", ""), rule(r"\basync\s+def\b", "def")],
        vec![rule("^", ">"), rule("$", "<")],
    ];
    for text in TEXTS {
        for rules in &rule_sets {
            assert_eq!(apply_rules(text, rules), reference_transform(text, rules), "input {:?}", text);
        }
    }
}

#[test]
fn markers_agree_with_regex() {
    let inputs = [
        "",
        "\n",
        "def f():  # unasync: generate",
        "def f():  # unasync: generate\r\nx",
        "def f():  # unasync: generate\r",
        "def f():  # unasync: generated @a-b_c",
        "def f():  #   unasync:generate   @x   ",
        "def f():  # unasync: generate @",
        "def f():  # unasync: generated\n# unasync: generate",
        "x\n# unasync: generate",
        "def é():  # unasync: generate @tâg",
    ];
    for input in inputs {
        let ours = extract_trailing_comment(input).map(|m| match m {
            Mark::Generate(t) => (true, t),
            Mark::Generated(t) => (false, t),
        });
        assert_eq!(ours, reference_mark(input), "input {:?}", input);
    }
}
