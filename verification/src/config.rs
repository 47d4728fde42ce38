//! Configuration model: rules, packages of rules, targets, and the
//! computation of the rules that apply to a target.

use vstd::prelude::*;

use crate::packages::{get_package, package_lookup, PackageMap};

verus! {

/// How a rule transforms text. Regular-expression replacement is the only kind.
#[derive(Clone, Copy, Debug, PartialEq, Eq, Structural)]
pub enum RuleKind {
    Regex,
}

/// One transformation rule.
pub struct Rule {
    pub id: String,
    pub kind: RuleKind,
    pub match_pattern: String,
    pub replace: String,
}

/// The mathematical value of a rule.
pub struct RuleView {
    pub id: Seq<char>,
    pub kind: RuleKind,
    pub match_pattern: Seq<char>,
    pub replace: Seq<char>,
}

impl View for Rule {
    type V = RuleView;

    open spec fn view(&self) -> RuleView {
        RuleView {
            id: self.id@,
            kind: self.kind,
            match_pattern: self.match_pattern@,
            replace: self.replace@,
        }
    }
}

impl Clone for Rule {
    fn clone(&self) -> (r: Self)
        ensures
            r == *self,
    {
        Rule {
            id: self.id.clone(),
            kind: self.kind,
            match_pattern: self.match_pattern.clone(),
            replace: self.replace.clone(),
        }
    }
}

/// The views of a sequence of rules.
pub open spec fn rule_views(rules: Seq<Rule>) -> Seq<RuleView> {
    rules.map_values(|r: Rule| r@)
}

/// The views of a sequence of strings.
pub open spec fn string_views(strings: Seq<String>) -> Seq<Seq<char>> {
    strings.map_values(|s: String| s@)
}

/// Copies a list of rules, element by element.
pub fn clone_rules(rules: &Vec<Rule>) -> (r: Vec<Rule>)
    ensures
        r@ == rules@,
{
    let mut out: Vec<Rule> = Vec::new();
    let n = rules.len();
    for i in 0..n
        invariant
            n == rules@.len(),
            out@ == rules@.take(i as int),
    {
        let r = rules[i].clone();
        out.push(r);
        proof {
            assert(rules@.take(i + 1) =~= rules@.take(i as int).push(rules@[i as int]));
        }
    }
    proof {
        assert(rules@.take(n as int) =~= rules@);
    }
    out
}

/// A named group of rules.
pub struct Package {
    pub rules: Vec<Rule>,
}

impl View for Package {
    type V = Seq<RuleView>;

    open spec fn view(&self) -> Seq<RuleView> {
        rule_views(self.rules@)
    }
}

impl Package {
    /// A copy of this package.
    pub fn duplicate(&self) -> (p: Package)
        ensures
            p.rules@ == self.rules@,
            p@ == self@,
    {
        Package { rules: clone_rules(&self.rules) }
    }
}

/// A reference to a package, with the ids of its rules that are left out.
pub struct PackageRef {
    pub package: String,
    pub exclude: Vec<String>,
}

/// The mathematical value of a package reference.
pub struct PackageRefView {
    pub package: Seq<char>,
    pub exclude: Seq<Seq<char>>,
}

impl View for PackageRef {
    type V = PackageRefView;

    open spec fn view(&self) -> PackageRefView {
        PackageRefView { package: self.package@, exclude: string_views(self.exclude@) }
    }
}

/// The views of a sequence of package references.
pub open spec fn ref_views(refs: Seq<PackageRef>) -> Seq<PackageRefView> {
    refs.map_values(|r: PackageRef| r@)
}

/// The packages that every target includes unless it opts out.
pub struct Defaults {
    pub package_refs: Vec<PackageRef>,
}

impl Default for Defaults {
    fn default() -> (d: Self)
        ensures
            d.package_refs@.len() == 0,
    {
        Defaults { package_refs: Vec::new() }
    }
}

/// Where a target's output goes: a separate file, or inline blocks marked with a tag.
pub enum TargetVariant {
    File { input: String, output: String },
    Inline { tag: String },
}

/// A transformation target.
pub struct Target {
    pub variant: TargetVariant,
    pub inherit_defaults: bool,
    pub package_refs: Vec<PackageRef>,
    pub rules: Vec<Rule>,
}

/// The whole configuration.
pub struct Config {
    pub version: u32,
    pub defaults: Defaults,
    pub packages: PackageMap,
    pub targets: Vec<Target>,
}

/// The configuration version used when none is given.
pub fn default_version() -> (v: u32)
    ensures
        v == 1,
{
    1
}

/// Whether a target inherits the default packages when it does not say.
pub fn default_inherit_defaults() -> (b: bool)
    ensures
        b,
{
    true
}

/// Some rule of `rules` has the id `id`.
pub open spec fn contains_id(rules: Seq<RuleView>, id: Seq<char>) -> bool {
    exists|i: int| 0 <= i < rules.len() && rules[i].id == id
}

/// Appends to `acc`, in order, each candidate whose id is neither excluded
/// nor already present (in `acc` or among the candidates added before it).
pub open spec fn add_rules(
    acc: Seq<RuleView>,
    candidates: Seq<RuleView>,
    exclude: Seq<Seq<char>>,
) -> Seq<RuleView>
    decreases candidates.len(),
{
    if candidates.len() == 0 {
        acc
    } else {
        let prev = add_rules(acc, candidates.drop_last(), exclude);
        let r = candidates.last();
        if !exclude.contains(r.id) && !contains_id(prev, r.id) {
            prev.push(r)
        } else {
            prev
        }
    }
}

/// Adds the rules of the package that `r` names, if it exists.
pub open spec fn add_package_ref(
    acc: Seq<RuleView>,
    packages: Map<Seq<char>, Seq<RuleView>>,
    r: PackageRefView,
) -> Seq<RuleView> {
    match package_lookup(packages, r.package) {
        Some(rules) => add_rules(acc, rules, r.exclude),
        None => acc,
    }
}

/// Adds the rules of each referenced package in turn.
pub open spec fn add_package_refs(
    acc: Seq<RuleView>,
    packages: Map<Seq<char>, Seq<RuleView>>,
    refs: Seq<PackageRefView>,
) -> Seq<RuleView>
    decreases refs.len(),
{
    if refs.len() == 0 {
        acc
    } else {
        add_package_ref(add_package_refs(acc, packages, refs.drop_last()), packages, refs.last())
    }
}

/// The rules that the default packages give.
pub open spec fn effective_rules_from_defaults(c: Config) -> Seq<RuleView> {
    add_package_refs(seq![], c.packages@, ref_views(c.defaults.package_refs@))
}

/// The rules that apply to target `t`: the defaults (if inherited), then the
/// target's packages, then its own rules; the first rule with a given id wins.
pub open spec fn effective_rules(c: Config, t: Target) -> Seq<RuleView> {
    let base = if t.inherit_defaults {
        effective_rules_from_defaults(c)
    } else {
        seq![]
    };
    add_rules(add_package_refs(base, c.packages@, ref_views(t.package_refs@)), rule_views(t.rules@), seq![])
}

/// No two rules share an id.
pub open spec fn unique_ids(rules: Seq<RuleView>) -> bool {
    forall|i: int, j: int| 0 <= i < rules.len() && 0 <= j < rules.len() && i != j ==> rules[i].id != rules[j].id
}

/// Whether `rules` holds a rule with the same id as `id`.
fn has_rule_id(rules: &Vec<Rule>, id: &String) -> (b: bool)
    ensures
        b == contains_id(rule_views(rules@), id@),
{
    let n = rules.len();
    for i in 0..n
        invariant
            n == rules@.len(),
            forall|j: int| 0 <= j < i ==> rules@[j].id@ != id@,
    {
        if rules[i].id == *id {
            assert(rule_views(rules@)[i as int].id == id@);
            return true;
        }
    }
    false
}

/// Whether `names` holds `id`.
fn contains_string(names: &Vec<String>, id: &String) -> (b: bool)
    ensures
        b == string_views(names@).contains(id@),
{
    let n = names.len();
    for i in 0..n
        invariant
            n == names@.len(),
            forall|j: int| 0 <= j < i ==> names@[j]@ != id@,
    {
        if names[i] == *id {
            assert(string_views(names@)[i as int] == id@);
            return true;
        }
    }
    false
}

/// Appends the rules of `candidates` as `add_rules` says.
fn push_new_rules(rules: &mut Vec<Rule>, candidates: &Vec<Rule>, exclude: &Vec<String>)
    ensures
        rule_views(final(rules)@) == add_rules(
            rule_views(old(rules)@),
            rule_views(candidates@),
            string_views(exclude@),
        ),
{
    let ghost acc = rule_views(rules@);
    let n = candidates.len();
    for i in 0..n
        invariant
            n == candidates@.len(),
            rule_views(rules@) == add_rules(
                acc,
                rule_views(candidates@.take(i as int)),
                string_views(exclude@),
            ),
    {
        let rule = &candidates[i];
        proof {
            let c = rule_views(candidates@.take(i + 1));
            assert(c.drop_last() =~= rule_views(candidates@.take(i as int)));
            assert(c.last() == rule@);
        }
        if !contains_string(exclude, &rule.id) && !has_rule_id(rules, &rule.id) {
            let ghost before = rules@;
            let copy = rule.clone();
            rules.push(copy);
            proof {
                assert(rule_views(rules@) =~= rule_views(before).push(rule@));
            }
        }
    }
    proof {
        assert(candidates@.take(n as int) =~= candidates@);
    }
}

impl Config {
    /// Appends the rules of the package that `package_ref` names.
    pub fn add_package_rules(&self, rules: &mut Vec<Rule>, package_ref: &PackageRef)
        ensures
            rule_views(final(rules)@) == add_package_ref(
                rule_views(old(rules)@),
                self.packages@,
                package_ref@,
            ),
            ({
                let before = rule_views(old(rules)@);
                let after = rule_views(final(rules)@);
                &&& after.len() >= before.len()
                &&& after.take(before.len() as int) == before
                &&& unique_ids(before) ==> unique_ids(after)
                &&& forall|i: int|
                    before.len() <= i < after.len() ==> {
                        &&& package_lookup(self.packages@, package_ref@.package) matches Some(rs)
                            && rs.contains(#[trigger] after[i])
                        &&& !package_ref@.exclude.contains(after[i].id)
                        &&& !contains_id(before, after[i].id)
                    }
                &&& forall|i: int, j: int|
                    before.len() <= i < j < after.len() ==> #[trigger] after[i].id != #[trigger] after[j].id
                &&& package_lookup(self.packages@, package_ref@.package) matches Some(rs) ==> forall|k: int|
                    0 <= k < rs.len() && !package_ref@.exclude.contains(#[trigger] rs[k].id) ==> contains_id(
                        after,
                        rs[k].id,
                    )
            }),
    {
        proof {
            match package_lookup(self.packages@, package_ref@.package) {
                Some(rs) => lemma_add_rules(rule_views(rules@), rs, package_ref@.exclude),
                None => {
                    assert(rule_views(rules@).take(rule_views(rules@).len() as int) =~= rule_views(rules@));
                },
            }
        }
        let package = get_package(package_ref.package.as_str(), &self.packages);
        match package {
            Some(pkg) => {
                push_new_rules(rules, &pkg.rules, &package_ref.exclude);
            },
            None => {},
        }
    }

    /// Appends the rules of each package in `refs` in turn.
    fn add_all_package_rules(&self, rules: &mut Vec<Rule>, refs: &Vec<PackageRef>)
        ensures
            rule_views(final(rules)@) == add_package_refs(
                rule_views(old(rules)@),
                self.packages@,
                ref_views(refs@),
            ),
    {
        let ghost acc = rule_views(rules@);
        let n = refs.len();
        for i in 0..n
            invariant
                n == refs@.len(),
                rule_views(rules@) == add_package_refs(
                    acc,
                    self.packages@,
                    ref_views(refs@.take(i as int)),
                ),
        {
            proof {
                let rs = ref_views(refs@.take(i + 1));
                assert(rs.drop_last() =~= ref_views(refs@.take(i as int)));
                assert(rs.last() == refs@[i as int]@);
            }
            self.add_package_rules(rules, &refs[i]);
        }
        proof {
            assert(refs@.take(n as int) =~= refs@);
        }
    }

    /// The rules that the default packages give, in order, without repeated ids.
    pub fn get_effective_rules_from_defaults(&self) -> (rules: Vec<Rule>)
        ensures
            rule_views(rules@) == effective_rules_from_defaults(*self),
    {
        let mut rules: Vec<Rule> = Vec::new();
        proof {
            assert(rule_views(rules@) =~= seq![]);
        }
        self.add_all_package_rules(&mut rules, &self.defaults.package_refs);
        rules
    }

    /// The rules that apply to `target`, in order, without repeated ids.
    pub fn get_effective_rules(&self, target: &Target) -> (rules: Vec<Rule>)
        ensures
            rule_views(rules@) == effective_rules(*self, *target),
    {
        let mut rules: Vec<Rule> = Vec::new();
        proof {
            assert(rule_views(rules@) =~= seq![]);
        }
        if target.inherit_defaults {
            self.add_all_package_rules(&mut rules, &self.defaults.package_refs);
        }
        self.add_all_package_rules(&mut rules, &target.package_refs);
        let no_exclusions: Vec<String> = Vec::new();
        proof {
            assert(string_views(no_exclusions@) =~= seq![]);
        }
        push_new_rules(&mut rules, &target.rules, &no_exclusions);
        rules
    }
}

/// Rule `x` comes from one of the package references `refs`: the package
/// exists, holds `x`, and the reference does not exclude `x`'s id.
pub open spec fn from_package_refs(
    x: RuleView,
    packages: Map<Seq<char>, Seq<RuleView>>,
    refs: Seq<PackageRefView>,
) -> bool {
    exists|j: int|
        0 <= j < refs.len() && match #[trigger] package_lookup(packages, refs[j].package) {
            Some(rules) => rules.contains(x) && !refs[j].exclude.contains(x.id),
            None => false,
        }
}

/// `add_rules` keeps `acc` as a prefix, keeps ids unique, adds only
/// candidates whose ids are not excluded, and leaves out no candidate id
/// that is not excluded.
pub proof fn lemma_add_rules(acc: Seq<RuleView>, candidates: Seq<RuleView>, exclude: Seq<Seq<char>>)
    ensures
        ({
            let r = add_rules(acc, candidates, exclude);
            &&& r.len() >= acc.len()
            &&& r.take(acc.len() as int) == acc
            &&& unique_ids(acc) ==> unique_ids(r)
            &&& forall|i: int|
                acc.len() <= i < r.len() ==> candidates.contains(#[trigger] r[i]) && !exclude.contains(
                    r[i].id,
                )
            &&& forall|k: int|
                0 <= k < candidates.len() && !exclude.contains(#[trigger] candidates[k].id)
                    ==> contains_id(r, candidates[k].id)
            &&& forall|id: Seq<char>| contains_id(acc, id) ==> #[trigger] contains_id(r, id)
            &&& forall|i: int| acc.len() <= i < r.len() ==> !contains_id(acc, #[trigger] r[i].id)
            &&& forall|i: int, j: int|
                acc.len() <= i < j < r.len() ==> #[trigger] r[i].id != #[trigger] r[j].id
        }),
    decreases candidates.len(),
{
    if candidates.len() > 0 {
        let prev_c = candidates.drop_last();
        lemma_add_rules(acc, prev_c, exclude);
        let prev = add_rules(acc, prev_c, exclude);
        let x = candidates.last();
        let r = add_rules(acc, candidates, exclude);
        if !exclude.contains(x.id) && !contains_id(prev, x.id) {
            assert(r == prev.push(x));
            assert(!contains_id(acc, x.id)) by {
                if contains_id(acc, x.id) {
                    let t = choose|t: int| 0 <= t < acc.len() && acc[t].id == x.id;
                    assert(prev.take(acc.len() as int)[t] == prev[t]);
                }
            }
            assert forall|i: int, j: int| acc.len() <= i < j < r.len() implies #[trigger] r[i].id != #[trigger] r[j].id by {
                if j == prev.len() {
                    assert(r[i] == prev[i]);
                    if r[i].id == x.id {
                        assert(contains_id(prev, x.id));
                    }
                } else {
                    assert(r[i] == prev[i] && r[j] == prev[j]);
                }
            }
            assert forall|i: int| acc.len() <= i < r.len() implies !contains_id(acc, #[trigger] r[i].id) by {
                if i < prev.len() {
                    assert(r[i] == prev[i]);
                }
            }
            assert(r.take(acc.len() as int) =~= prev.take(acc.len() as int));
            assert forall|i: int| acc.len() <= i < r.len() implies candidates.contains(#[trigger] r[i]) by {
                if i < prev.len() {
                    assert(prev_c.contains(prev[i]));
                    let t = choose|t: int| 0 <= t < prev_c.len() && prev_c[t] == prev[i];
                    assert(candidates[t] == prev_c[t]);
                } else {
                    assert(candidates[candidates.len() - 1] == x);
                }
            }
            assert forall|id: Seq<char>| contains_id(prev, id) implies #[trigger] contains_id(r, id) by {
                let t = choose|t: int| 0 <= t < prev.len() && prev[t].id == id;
                assert(r[t] == prev[t]);
            }
            assert(r[prev.len() as int] == x);
        } else {
            assert forall|i: int| acc.len() <= i < r.len() implies candidates.contains(#[trigger] r[i]) by {
                assert(prev_c.contains(prev[i]));
                let t = choose|t: int| 0 <= t < prev_c.len() && prev_c[t] == prev[i];
                assert(candidates[t] == prev_c[t]);
            }
        }
        assert forall|k: int|
            0 <= k < candidates.len() && !exclude.contains(#[trigger] candidates[k].id) implies contains_id(
                r,
                candidates[k].id,
            ) by {
            if k < prev_c.len() {
                assert(prev_c[k] == candidates[k]);
                assert(contains_id(prev, prev_c[k].id));
            }
        }
    }
}

/// `add_package_refs` keeps `acc` as a prefix, keeps ids unique, and adds
/// only rules that one of the references brings.
pub proof fn lemma_add_package_refs(
    acc: Seq<RuleView>,
    packages: Map<Seq<char>, Seq<RuleView>>,
    refs: Seq<PackageRefView>,
)
    ensures
        ({
            let r = add_package_refs(acc, packages, refs);
            &&& r.len() >= acc.len()
            &&& r.take(acc.len() as int) == acc
            &&& unique_ids(acc) ==> unique_ids(r)
            &&& forall|i: int|
                acc.len() <= i < r.len() ==> from_package_refs(#[trigger] r[i], packages, refs)
        }),
    decreases refs.len(),
{
    if refs.len() > 0 {
        let prev_refs = refs.drop_last();
        lemma_add_package_refs(acc, packages, prev_refs);
        let prev = add_package_refs(acc, packages, prev_refs);
        let last = refs.last();
        let r = add_package_refs(acc, packages, refs);
        assert forall|i: int| acc.len() <= i < prev.len() implies from_package_refs(#[trigger] prev[i], packages, refs) by {
            let j = choose|j: int|
                0 <= j < prev_refs.len() && match #[trigger] package_lookup(packages, prev_refs[j].package) {
                    Some(rules) => rules.contains(prev[i]) && !prev_refs[j].exclude.contains(prev[i].id),
                    None => false,
                };
            assert(refs[j] == prev_refs[j]);
        }
        match package_lookup(packages, last.package) {
            Some(rules) => {
                lemma_add_rules(prev, rules, last.exclude);
                assert(r.take(acc.len() as int) =~= prev.take(acc.len() as int)) by {
                    assert(r.take(prev.len() as int) == prev);
                }
                assert forall|i: int| acc.len() <= i < r.len() implies from_package_refs(#[trigger] r[i], packages, refs) by {
                    if i < prev.len() {
                        assert(r[i] == r.take(prev.len() as int)[i]);
                    } else {
                        assert(package_lookup(packages, refs[refs.len() - 1].package) == Some(rules));
                    }
                }
            },
            None => {},
        }
    }
}

/// Law: the effective rules of a target never hold two rules with the same id.
pub proof fn law_effective_rules_unique(c: Config, t: Target)
    ensures
        unique_ids(effective_rules_from_defaults(c)),
        unique_ids(effective_rules(c, t)),
{
    let empty = Seq::<RuleView>::empty();
    lemma_add_package_refs(empty, c.packages@, ref_views(c.defaults.package_refs@));
    let base = if t.inherit_defaults {
        effective_rules_from_defaults(c)
    } else {
        empty
    };
    lemma_add_package_refs(base, c.packages@, ref_views(t.package_refs@));
    lemma_add_rules(add_package_refs(base, c.packages@, ref_views(t.package_refs@)), rule_views(t.rules@), seq![]);
}

/// Law: a target that inherits the defaults gets the default rules first, in
/// their order, and after them only rules that its own package references
/// bring (not excluded there) or that it lists itself.
pub proof fn law_defaults_come_first(c: Config, t: Target)
    requires
        t.inherit_defaults,
    ensures
        ({
            let d = effective_rules_from_defaults(c);
            let r = effective_rules(c, t);
            &&& r.len() >= d.len()
            &&& r.take(d.len() as int) == d
            &&& forall|i: int|
                d.len() <= i < r.len() ==> from_package_refs(
                    #[trigger] r[i],
                    c.packages@,
                    ref_views(t.package_refs@),
                ) || rule_views(t.rules@).contains(r[i])
        }),
{
    let d = effective_rules_from_defaults(c);
    let mid = add_package_refs(d, c.packages@, ref_views(t.package_refs@));
    lemma_add_package_refs(d, c.packages@, ref_views(t.package_refs@));
    lemma_add_rules(mid, rule_views(t.rules@), seq![]);
    let r = effective_rules(c, t);
    assert(r.take(d.len() as int) =~= mid.take(d.len() as int)) by {
        assert(r.take(mid.len() as int) == mid);
    }
    assert forall|i: int| d.len() <= i < r.len() implies from_package_refs(
        #[trigger] r[i],
        c.packages@,
        ref_views(t.package_refs@),
    ) || rule_views(t.rules@).contains(r[i]) by {
        if i < mid.len() {
            assert(r[i] == r.take(mid.len() as int)[i]);
        }
    }
}

/// Law: every rule that a target lists itself is represented in its effective
/// rules: a rule with its id is there (its own, or an earlier one that wins).
pub proof fn law_target_rules_kept(c: Config, t: Target)
    ensures
        forall|k: int|
            0 <= k < t.rules@.len() ==> contains_id(effective_rules(c, t), #[trigger] t.rules@[k].id@),
{
    let base = if t.inherit_defaults {
        effective_rules_from_defaults(c)
    } else {
        seq![]
    };
    let mid = add_package_refs(base, c.packages@, ref_views(t.package_refs@));
    lemma_add_rules(mid, rule_views(t.rules@), seq![]);
    assert forall|k: int| 0 <= k < t.rules@.len() implies contains_id(effective_rules(c, t), #[trigger] t.rules@[k].id@) by {
        assert(rule_views(t.rules@)[k].id == t.rules@[k].id@);
        assert(!Seq::<Seq<char>>::empty().contains(rule_views(t.rules@)[k].id));
    }
}

/// Law: without inherited defaults, package references or rules of its own,
/// a target has no rules; with inherited defaults only, it has exactly the
/// default rules.
pub proof fn law_bare_target(c: Config, t: Target)
    requires
        t.package_refs@.len() == 0,
        t.rules@.len() == 0,
    ensures
        t.inherit_defaults ==> effective_rules(c, t) == effective_rules_from_defaults(c),
        !t.inherit_defaults ==> effective_rules(c, t) == Seq::<RuleView>::empty(),
{
    assert(ref_views(t.package_refs@) =~= seq![]);
    assert(rule_views(t.rules@) =~= seq![]);
}

} // verus!
