use ry::config::{
    default_inherit_defaults, default_version, Config, Defaults, Package, PackageRef, Rule,
    RuleKind, Target, TargetVariant,
};
use ry::packages::{get_builtin_packages, get_package, PackageMap};

fn rule(id: &str, pattern: &str, replace: &str) -> Rule {
    Rule {
        id: id.to_string(),
        kind: RuleKind::Regex,
        match_pattern: pattern.to_string(),
        replace: replace.to_string(),
    }
}

fn pref(name: &str, exclude: &[&str]) -> PackageRef {
    PackageRef {
        package: name.to_string(),
        exclude: exclude.iter().map(|s| s.to_string()).collect(),
    }
}

fn ids(rules: &[Rule]) -> Vec<String> {
    rules.iter().map(|r| r.id.clone()).collect()
}

fn config_with(defaults: Vec<PackageRef>, packages: PackageMap, targets: Vec<Target>) -> Config {
    Config {
        version: default_version(),
        defaults: Defaults { package_refs: defaults },
        packages,
        targets,
    }
}

#[test]
fn defaults_of_config_fields() {
    assert_eq!(default_version(), 1);
    assert!(default_inherit_defaults());
    let d = Defaults::default();
    assert!(d.package_refs.is_empty());
}

#[test]
fn builtin_std_package_has_all_rules() {
    let builtins = get_builtin_packages();
    assert!(builtins.contains_key("std"));
    assert!(!builtins.contains_key("other"));
    let std = builtins.get("std").unwrap();
    assert_eq!(std.rules.len(), 23);
    assert_eq!(std.rules[0].id, "async-def");
    assert_eq!(std.rules[0].match_pattern, r"\basync\s+def\b");
    assert_eq!(std.rules[0].replace, "def");
    assert_eq!(std.rules[3].id, "strip-await");
    assert_eq!(std.rules[22].id, "stop-async-iteration");
    assert_eq!(std.rules[22].replace, "StopIteration");
    assert_eq!(builtins.names(), vec!["std".to_string()]);
}

#[test]
fn custom_package_shadows_builtin() {
    let mut custom = PackageMap::new();
    custom.insert("std".to_string(), Package { rules: vec![rule("mine", "a", "b")] });
    let pkg = get_package("std", &custom).unwrap();
    assert_eq!(ids(&pkg.rules), vec!["mine"]);
    let builtin = get_package("std", &PackageMap::new()).unwrap();
    assert_eq!(builtin.rules.len(), 23);
    assert!(get_package("missing", &custom).is_none());
}

#[test]
fn package_map_insert_replaces() {
    let mut m = PackageMap::new();
    m.insert("a".to_string(), Package { rules: vec![rule("x", "x", "y")] });
    m.insert("b".to_string(), Package { rules: vec![] });
    m.insert("a".to_string(), Package { rules: vec![rule("z", "z", "w"), rule("q", "q", "r")] });
    assert_eq!(ids(&m.get("a").unwrap().rules), vec!["z", "q"]);
    assert!(m.get("b").unwrap().rules.is_empty());
    assert!(m.get("c").is_none());
    let mut names = m.names();
    names.sort();
    assert_eq!(names, vec!["a".to_string(), "b".to_string()]);
    assert_eq!(m.names().len(), 2);
}

#[test]
fn defaults_with_exclusion() {
    let config = config_with(vec![pref("std", &["strip-await"])], PackageMap::new(), vec![]);
    let rules = config.get_effective_rules_from_defaults();
    assert_eq!(rules.len(), 22);
    assert!(!ids(&rules).contains(&"strip-await".to_string()));
    assert_eq!(rules[0].id, "async-def");
}

#[test]
fn missing_package_gives_no_rules() {
    let config = config_with(vec![pref("nope", &[])], PackageMap::new(), vec![]);
    assert!(config.get_effective_rules_from_defaults().is_empty());
}

#[test]
fn first_rule_with_an_id_wins() {
    let mut packages = PackageMap::new();
    packages.insert(
        "p".to_string(),
        Package { rules: vec![rule("async-def", "P", "p"), rule("extra", "e", "E")] },
    );
    let target = Target {
        variant: TargetVariant::Inline { tag: "t".to_string() },
        inherit_defaults: true,
        package_refs: vec![pref("p", &[])],
        rules: vec![rule("extra", "X", "x"), rule("own", "o", "O"), rule("own", "o2", "O2")],
    };
    let config = config_with(vec![pref("std", &[])], packages, vec![target]);
    let rules = config.get_effective_rules(&config.targets[0]);
    assert_eq!(rules.len(), 25);
    assert_eq!(rules[0].match_pattern, r"\basync\s+def\b");
    assert_eq!(rules[23].id, "extra");
    assert_eq!(rules[23].match_pattern, "e");
    assert_eq!(rules[24].id, "own");
    assert_eq!(rules[24].match_pattern, "o");
}

#[test]
fn target_without_defaults() {
    let target = Target {
        variant: TargetVariant::File { input: "a.py".to_string(), output: "b.py".to_string() },
        inherit_defaults: false,
        package_refs: vec![],
        rules: vec![rule("r1", "a", "b")],
    };
    let config = config_with(vec![pref("std", &[])], PackageMap::new(), vec![target]);
    let rules = config.get_effective_rules(&config.targets[0]);
    assert_eq!(ids(&rules), vec!["r1"]);
}

#[test]
fn bare_target_inheriting_defaults_equals_defaults() {
    let target = Target {
        variant: TargetVariant::Inline { tag: "t".to_string() },
        inherit_defaults: true,
        package_refs: vec![],
        rules: vec![],
    };
    let config = config_with(vec![pref("std", &["aiter"])], PackageMap::new(), vec![target]);
    let from_target = ids(&config.get_effective_rules(&config.targets[0]));
    let from_defaults = ids(&config.get_effective_rules_from_defaults());
    assert_eq!(from_target, from_defaults);
    let mut unique = from_target.clone();
    unique.sort();
    unique.dedup();
    assert_eq!(unique.len(), from_target.len());
}

#[test]
fn defaults_come_first_in_target_rules() {
    let target = Target {
        variant: TargetVariant::Inline { tag: "t".to_string() },
        inherit_defaults: true,
        package_refs: vec![],
        rules: vec![rule("zzz", "z", "y")],
    };
    let config = config_with(vec![pref("std", &["aiter", "async-for"])], PackageMap::new(), vec![target]);
    let defaults = ids(&config.get_effective_rules_from_defaults());
    let all = ids(&config.get_effective_rules(&config.targets[0]));
    assert_eq!(defaults.len(), 21);
    assert_eq!(&all[..21], &defaults[..]);
    assert_eq!(all[21], "zzz");
    assert_eq!(all.len(), 22);
}

#[test]
fn adding_package_rules_skips_known_and_excluded_ids() {
    let config = config_with(vec![], PackageMap::new(), vec![]);
    let mut rules = vec![rule("async-def", "mine", "x")];
    config.add_package_rules(&mut rules, &pref("std", &["aiter"]));
    assert_eq!(rules.len(), 22);
    assert_eq!(rules[0].match_pattern, "mine");
    assert_eq!(rules[1].id, "async-with");
    assert!(!ids(&rules).contains(&"aiter".to_string()));
}
