//! The packages of rules that come with the tool, and package lookup.

use vstd::prelude::*;

use crate::config::{Package, Rule, RuleKind, RuleView};

verus! {

/// Some entry of `entries` is named `name`.
pub open spec fn has_name(entries: Seq<(String, Package)>, name: Seq<char>) -> bool {
    exists|i: int| 0 <= i < entries.len() && entries[i].0@ == name
}

/// A map from package names to packages; each name occurs once.
pub struct PackageMap {
    entries: Vec<(String, Package)>,
}

impl PackageMap {
    #[verifier::type_invariant]
    spec fn names_distinct(self) -> bool {
        forall|i: int, j: int|
            0 <= i < self.entries@.len() && 0 <= j < self.entries@.len() && i != j
                ==> self.entries@[i].0@ != self.entries@[j].0@
    }

    /// The package that each name maps to, by its rules.
    pub closed spec fn as_map(self) -> Map<Seq<char>, Seq<RuleView>> {
        Map::new(
            |k: Seq<char>| has_name(self.entries@, k),
            |k: Seq<char>|
                self.entries@[choose|i: int|
                    0 <= i < self.entries@.len() && self.entries@[i].0@ == k].1@,
        )
    }

    /// An empty map.
    pub fn new() -> (m: Self)
        ensures
            m@ == Map::<Seq<char>, Seq<RuleView>>::empty(),
    {
        let m = PackageMap { entries: Vec::new() };
        proof {
            assert(m@ =~= Map::<Seq<char>, Seq<RuleView>>::empty());
        }
        m
    }

    /// The index of the entry named `name`, if there is one.
    fn find(&self, name: &str) -> (r: Option<usize>)
        ensures
            match r {
                Some(i) => i < self.entries@.len() && self.entries@[i as int].0@ == name@,
                None => !has_name(self.entries@, name@),
            },
    {
        let key = name.to_string();
        let n = self.entries.len();
        for i in 0..n
            invariant
                n == self.entries@.len(),
                key@ == name@,
                forall|j: int| 0 <= j < i ==> self.entries@[j].0@ != name@,
        {
            if self.entries[i].0 == key {
                return Some(i);
            }
        }
        None
    }

    /// The package named `name`, if there is one.
    pub fn get(&self, name: &str) -> (r: Option<&Package>)
        ensures
            match r {
                Some(p) => self@.contains_key(name@) && self@[name@] == p@,
                None => !self@.contains_key(name@),
            },
    {
        proof {
            use_type_invariant(self);
        }
        match self.find(name) {
            Some(i) => {
                proof {
                    let j = choose|j: int|
                        0 <= j < self.entries@.len() && self.entries@[j].0@ == name@;
                    assert(j == i);
                }
                Some(&self.entries[i].1)
            },
            None => None,
        }
    }

    /// Whether some package is named `name`.
    pub fn contains_key(&self, name: &str) -> (b: bool)
        ensures
            b == self@.contains_key(name@),
    {
        self.find(name).is_some()
    }

    /// The names of the packages, each once.
    pub fn names(&self) -> (r: Vec<String>)
        ensures
            forall|i: int| 0 <= i < r@.len() ==> self@.contains_key(#[trigger] r@[i]@),
            forall|k: Seq<char>| #[trigger] self@.contains_key(k) ==> exists|i: int| 0 <= i < r@.len() && r@[i]@ == k,
            forall|i: int, j: int| 0 <= i < r@.len() && 0 <= j < r@.len() && i != j ==> #[trigger] r@[i]@ != #[trigger] r@[j]@,
    {
        proof {
            use_type_invariant(self);
        }
        let mut r: Vec<String> = Vec::new();
        let n = self.entries.len();
        for i in 0..n
            invariant
                n == self.entries@.len(),
                r@.len() == i,
                forall|j: int| 0 <= j < i ==> #[trigger] r@[j]@ == self.entries@[j].0@,
        {
            r.push(self.entries[i].0.clone());
        }
        proof {
            assert forall|i: int| 0 <= i < r@.len() implies self@.contains_key(#[trigger] r@[i]@) by {
                assert(self.entries@[i].0@ == r@[i]@);
            }
            assert forall|k: Seq<char>| #[trigger] self@.contains_key(k) implies exists|i: int| 0 <= i < r@.len() && r@[i]@ == k by {
                let j = choose|j: int| 0 <= j < self.entries@.len() && self.entries@[j].0@ == k;
                assert(r@[j]@ == k);
            }
        }
        r
    }

    /// Maps `name` to `package`, in place of any package of that name.
    pub fn insert(&mut self, name: String, package: Package)
        ensures
            final(self)@ == old(self)@.insert(name@, package@),
    {
        proof {
            use_type_invariant(&*self);
        }
        let ghost old_entries = self.entries@;
        let ghost v = package@;
        let ghost k = name@;
        let found = self.find(name.as_str());
        let mut entries: Vec<(String, Package)> = Vec::new();
        std::mem::swap(&mut entries, &mut self.entries);
        match found {
            Some(i) => {
                entries.set(i, (name, package));
            },
            None => {
                entries.push((name, package));
            },
        }
        self.entries = entries;
        proof {
            use_type_invariant(&*self);
            let m = old(self)@.insert(k, v);
            // The slot that now holds `name`; every other slot is unchanged.
            let slot: int = match found {
                Some(i) => i as int,
                None => old_entries.len() as int,
            };
            assert(self.entries@[slot].0@ == k && self.entries@[slot].1@ == v);
            assert forall|j: int| 0 <= j < old_entries.len() && j != slot implies #[trigger] self.entries@[j]
                == old_entries[j] by {}
            assert forall|key: Seq<char>| #[trigger] m.contains_key(key) == self@.contains_key(key) by {
                if has_name(old_entries, key) {
                    let j = choose|j: int| 0 <= j < old_entries.len() && old_entries[j].0@ == key;
                    assert(self.entries@[j].0@ == key);
                }
                if has_name(self.entries@, key) && key != k {
                    let j = choose|j: int| 0 <= j < self.entries@.len() && self.entries@[j].0@ == key;
                    assert(old_entries[j].0@ == key);
                }
            }
            assert forall|key: Seq<char>| #[trigger] m.contains_key(key) implies m[key] == self@[key] by {
                let j = choose|j: int| 0 <= j < self.entries@.len() && self.entries@[j].0@ == key;
                if key != k {
                    let j0 = choose|j: int| 0 <= j < old_entries.len() && old_entries[j].0@ == key;
                    assert(self.entries@[j0] == old_entries[j0]);
                    assert(j == j0);
                } else {
                    assert(j == slot);
                }
            }
            assert(m =~= self@);
        }
    }
}

impl View for PackageMap {
    type V = Map<Seq<char>, Seq<RuleView>>;

    open spec fn view(&self) -> Map<Seq<char>, Seq<RuleView>> {
        self.as_map()
    }
}

/// The rules of the built-in `std` package, in order.
pub open spec fn std_rules() -> Seq<RuleView> {
    seq![
        RuleView { id: "async-def"@, kind: RuleKind::Regex, match_pattern: r"\basync\s+def\b"@, replace: "def"@ },
        RuleView { id: "async-with"@, kind: RuleKind::Regex, match_pattern: r"\basync\s+with\b"@, replace: "with"@ },
        RuleView { id: "async-for"@, kind: RuleKind::Regex, match_pattern: r"\basync\s+for\b"@, replace: "for"@ },
        RuleView { id: "strip-await"@, kind: RuleKind::Regex, match_pattern: r"\bawait\s+"@, replace: ""@ },
        RuleView { id: "dunder-anext"@, kind: RuleKind::Regex, match_pattern: r"\b__anext__\b"@, replace: "__next__"@ },
        RuleView { id: "dunder-aenter"@, kind: RuleKind::Regex, match_pattern: r"\b__aenter__\b"@, replace: "__enter__"@ },
        RuleView { id: "dunder-aexit"@, kind: RuleKind::Regex, match_pattern: r"\b__aexit__\b"@, replace: "__exit__"@ },
        RuleView { id: "dunder-aiter"@, kind: RuleKind::Regex, match_pattern: r"\b__aiter__\b"@, replace: "__iter__"@ },
        RuleView { id: "aiter"@, kind: RuleKind::Regex, match_pattern: r"\baiter\b"@, replace: "iter"@ },
        RuleView { id: "async-iterator"@, kind: RuleKind::Regex, match_pattern: r"\bAsyncIterator\b"@, replace: "Iterator"@ },
        RuleView { id: "asynccontextmanager"@, kind: RuleKind::Regex, match_pattern: r"\basynccontextmanager\b"@, replace: "contextmanager"@ },
        RuleView { id: "abstract-async-context-manager"@, kind: RuleKind::Regex, match_pattern: r"\bAbstractAsyncContextManager\b"@, replace: "AbstractContextManager"@ },
        RuleView { id: "from-asyncio-sleep"@, kind: RuleKind::Regex, match_pattern: "from asyncio import sleep"@, replace: "from time import sleep"@ },
        RuleView { id: "from-asyncio-condition"@, kind: RuleKind::Regex, match_pattern: "from asyncio import Condition"@, replace: "from threading import Condition"@ },
        RuleView { id: "from-asyncio-semaphore"@, kind: RuleKind::Regex, match_pattern: "from asyncio import Semaphore"@, replace: "from threading import Semaphore"@ },
        RuleView { id: "from-asyncio-lock"@, kind: RuleKind::Regex, match_pattern: "from asyncio import Lock"@, replace: "from threading import Lock"@ },
        RuleView { id: "import-asyncio-to-threading"@, kind: RuleKind::Regex, match_pattern: "import asyncio"@, replace: "import threading"@ },
        RuleView { id: "asyncio-condition"@, kind: RuleKind::Regex, match_pattern: r"asyncio\.Condition"@, replace: "threading.Condition"@ },
        RuleView { id: "asyncio-lock"@, kind: RuleKind::Regex, match_pattern: r"asyncio\.Lock"@, replace: "threading.Lock"@ },
        RuleView { id: "asyncio-semaphore"@, kind: RuleKind::Regex, match_pattern: r"asyncio\.Semaphore"@, replace: "threading.Semaphore"@ },
        RuleView { id: "asyncio-timeout-error"@, kind: RuleKind::Regex, match_pattern: r"asyncio\.TimeoutError"@, replace: "TimeoutError"@ },
        RuleView { id: "pytest-mark-asyncio"@, kind: RuleKind::Regex, match_pattern: r"@pytest\.mark\.asyncio"@, replace: ""@ },
        RuleView { id: "stop-async-iteration"@, kind: RuleKind::Regex, match_pattern: r"\bStopAsyncIteration\b"@, replace: "StopIteration"@ }
    ]
}

/// The packages that come with the tool, by name.
pub open spec fn builtin_packages() -> Map<Seq<char>, Seq<RuleView>> {
    Map::<Seq<char>, Seq<RuleView>>::empty().insert("std"@, std_rules())
}

/// The package that `name` refers to: a configured package of that name,
/// else a built-in package of that name.
pub open spec fn package_lookup(
    custom: Map<Seq<char>, Seq<RuleView>>,
    name: Seq<char>,
) -> Option<Seq<RuleView>> {
    if custom.contains_key(name) {
        Some(custom[name])
    } else if builtin_packages().contains_key(name) {
        Some(builtin_packages()[name])
    } else {
        None
    }
}

/// The packages that come with the tool.
pub fn get_builtin_packages() -> (packages: PackageMap)
    ensures
        packages@ == builtin_packages(),
{
    let mut packages = PackageMap::new();
    packages.insert("std".to_string(), create_std_package());
    packages
}

fn std_rule(id: &str, match_pattern: &str, replace: &str) -> (r: Rule)
    ensures
        r@ == (RuleView { id: id@, kind: RuleKind::Regex, match_pattern: match_pattern@, replace: replace@ }),
{
    Rule {
        id: id.to_string(),
        kind: RuleKind::Regex,
        match_pattern: match_pattern.to_string(),
        replace: replace.to_string(),
    }
}

/// The built-in `std` package, which turns asynchronous Python into synchronous Python.
fn create_std_package() -> (p: Package)
    ensures
        p@ == std_rules(),
{
    let mut rules: Vec<Rule> = Vec::new();
    rules.push(std_rule("async-def", r"\basync\s+def\b", "def"));
    rules.push(std_rule("async-with", r"\basync\s+with\b", "with"));
    rules.push(std_rule("async-for", r"\basync\s+for\b", "for"));
    rules.push(std_rule("strip-await", r"\bawait\s+", ""));
    rules.push(std_rule("dunder-anext", r"\b__anext__\b", "__next__"));
    rules.push(std_rule("dunder-aenter", r"\b__aenter__\b", "__enter__"));
    rules.push(std_rule("dunder-aexit", r"\b__aexit__\b", "__exit__"));
    rules.push(std_rule("dunder-aiter", r"\b__aiter__\b", "__iter__"));
    rules.push(std_rule("aiter", r"\baiter\b", "iter"));
    rules.push(std_rule("async-iterator", r"\bAsyncIterator\b", "Iterator"));
    rules.push(std_rule("asynccontextmanager", r"\basynccontextmanager\b", "contextmanager"));
    rules.push(std_rule("abstract-async-context-manager", r"\bAbstractAsyncContextManager\b", "AbstractContextManager"));
    rules.push(std_rule("from-asyncio-sleep", "from asyncio import sleep", "from time import sleep"));
    rules.push(std_rule("from-asyncio-condition", "from asyncio import Condition", "from threading import Condition"));
    rules.push(std_rule("from-asyncio-semaphore", "from asyncio import Semaphore", "from threading import Semaphore"));
    rules.push(std_rule("from-asyncio-lock", "from asyncio import Lock", "from threading import Lock"));
    rules.push(std_rule("import-asyncio-to-threading", "import asyncio", "import threading"));
    rules.push(std_rule("asyncio-condition", r"asyncio\.Condition", "threading.Condition"));
    rules.push(std_rule("asyncio-lock", r"asyncio\.Lock", "threading.Lock"));
    rules.push(std_rule("asyncio-semaphore", r"asyncio\.Semaphore", "threading.Semaphore"));
    rules.push(std_rule("asyncio-timeout-error", r"asyncio\.TimeoutError", "TimeoutError"));
    rules.push(std_rule("pytest-mark-asyncio", r"@pytest\.mark\.asyncio", ""));
    rules.push(std_rule("stop-async-iteration", r"\bStopAsyncIteration\b", "StopIteration"));
    let p = Package { rules };
    proof {
        assert(p@ =~= std_rules());
    }
    p
}

/// The package that `name` refers to: a configured package of that name
/// takes precedence over a built-in one.
pub fn get_package(name: &str, custom_packages: &PackageMap) -> (r: Option<Package>)
    ensures
        match r {
            Some(p) => package_lookup(custom_packages@, name@) == Some(p@),
            None => package_lookup(custom_packages@, name@) is None,
        },
{
    if let Some(pkg) = custom_packages.get(name) {
        return Some(pkg.duplicate());
    }
    let builtins = get_builtin_packages();
    match builtins.get(name) {
        Some(pkg) => Some(pkg.duplicate()),
        None => None,
    }
}

/// Some rule of `rules` has this id, this pattern and this replacement.
pub open spec fn has_rule(
    rules: Seq<RuleView>,
    id: Seq<char>,
    match_pattern: Seq<char>,
    replace: Seq<char>,
) -> bool {
    exists|k: int|
        0 <= k < rules.len() && rules[k] == (RuleView {
            id: id,
            kind: RuleKind::Regex,
            match_pattern: match_pattern,
            replace: replace,
        })
}

/// Law: where no configured package is named `std`, the name `std` finds the
/// built-in package, whose rules are these and no others; they turn each asynchronous
/// construct into its synchronous counterpart: `async def`, `async with` and
/// `async for` lose `async`, `await` goes, `__anext__`, `__aenter__`,
/// `__aexit__` and `__aiter__` become `__next__`, `__enter__`, `__exit__` and
/// `__iter__`, `aiter` becomes `iter`, the async iterator, context manager and
/// stop-iteration names become their plain ones, and the `asyncio` locks,
/// conditions, semaphores, sleep and timeout error become those of `threading`
/// and `time`.
pub proof fn law_std_package_maps_async_to_sync(custom: Map<Seq<char>, Seq<RuleView>>)
    requires
        !custom.contains_key("std"@),
    ensures
        package_lookup(custom, "std"@) is Some,
        ({
            let rules = package_lookup(custom, "std"@)->0;
            &&& rules.len() == 23
            &&& has_rule(rules, "async-def"@, r"\basync\s+def\b"@, "def"@)
            &&& has_rule(rules, "async-with"@, r"\basync\s+with\b"@, "with"@)
            &&& has_rule(rules, "async-for"@, r"\basync\s+for\b"@, "for"@)
            &&& has_rule(rules, "strip-await"@, r"\bawait\s+"@, ""@)
            &&& has_rule(rules, "dunder-anext"@, r"\b__anext__\b"@, "__next__"@)
            &&& has_rule(rules, "dunder-aenter"@, r"\b__aenter__\b"@, "__enter__"@)
            &&& has_rule(rules, "dunder-aexit"@, r"\b__aexit__\b"@, "__exit__"@)
            &&& has_rule(rules, "dunder-aiter"@, r"\b__aiter__\b"@, "__iter__"@)
            &&& has_rule(rules, "aiter"@, r"\baiter\b"@, "iter"@)
            &&& has_rule(rules, "async-iterator"@, r"\bAsyncIterator\b"@, "Iterator"@)
            &&& has_rule(rules, "asynccontextmanager"@, r"\basynccontextmanager\b"@, "contextmanager"@)
            &&& has_rule(rules, "abstract-async-context-manager"@, r"\bAbstractAsyncContextManager\b"@, "AbstractContextManager"@)
            &&& has_rule(rules, "from-asyncio-sleep"@, "from asyncio import sleep"@, "from time import sleep"@)
            &&& has_rule(rules, "from-asyncio-condition"@, "from asyncio import Condition"@, "from threading import Condition"@)
            &&& has_rule(rules, "from-asyncio-semaphore"@, "from asyncio import Semaphore"@, "from threading import Semaphore"@)
            &&& has_rule(rules, "from-asyncio-lock"@, "from asyncio import Lock"@, "from threading import Lock"@)
            &&& has_rule(rules, "import-asyncio-to-threading"@, "import asyncio"@, "import threading"@)
            &&& has_rule(rules, "asyncio-condition"@, r"asyncio\.Condition"@, "threading.Condition"@)
            &&& has_rule(rules, "asyncio-lock"@, r"asyncio\.Lock"@, "threading.Lock"@)
            &&& has_rule(rules, "asyncio-semaphore"@, r"asyncio\.Semaphore"@, "threading.Semaphore"@)
            &&& has_rule(rules, "asyncio-timeout-error"@, r"asyncio\.TimeoutError"@, "TimeoutError"@)
            &&& has_rule(rules, "pytest-mark-asyncio"@, r"@pytest\.mark\.asyncio"@, ""@)
            &&& has_rule(rules, "stop-async-iteration"@, r"\bStopAsyncIteration\b"@, "StopIteration"@)
        }),
{
    let std = std_rules();
    assert(builtin_packages()["std"@] == std);
    assert(std[0] == std[0]);
    assert(std[1] == std[1]);
    assert(std[2] == std[2]);
    assert(std[3] == std[3]);
    assert(std[4] == std[4]);
    assert(std[5] == std[5]);
    assert(std[6] == std[6]);
    assert(std[7] == std[7]);
    assert(std[8] == std[8]);
    assert(std[9] == std[9]);
    assert(std[10] == std[10]);
    assert(std[11] == std[11]);
    assert(std[12] == std[12]);
    assert(std[13] == std[13]);
    assert(std[14] == std[14]);
    assert(std[15] == std[15]);
    assert(std[16] == std[16]);
    assert(std[17] == std[17]);
    assert(std[18] == std[18]);
    assert(std[19] == std[19]);
    assert(std[20] == std[20]);
    assert(std[21] == std[21]);
    assert(std[22] == std[22]);
}

/// Law: a configured package takes precedence over a built-in one of the same
/// name: after configuring `rules` under `name`, `name` finds exactly those
/// rules; a name that is not configured finds what it finds with no
/// configured packages at all.
pub proof fn law_configured_package_shadows_builtin(
    custom: Map<Seq<char>, Seq<RuleView>>,
    name: Seq<char>,
    rules: Seq<RuleView>,
)
    ensures
        package_lookup(custom.insert(name, rules), name) == Some(rules),
        !custom.contains_key(name) ==> package_lookup(custom, name) == package_lookup(
            Map::<Seq<char>, Seq<RuleView>>::empty(),
            name,
        ),
{
}


} // verus!
