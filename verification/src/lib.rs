//! Regex-driven source transformations, applied to whole files or to inline
//! blocks marked in Python source.

pub mod config;
pub mod diagnostics;
pub mod generation;
pub mod inline;
pub mod module;
pub mod packages;
pub mod pattern;
pub mod report;
pub mod text;
pub mod treesitter;

use vstd::prelude::*;

use config::{rule_views, string_views, Rule, RuleKind, RuleView};
use pattern::{pattern_compiles, regex_compiles, regex_replace_all, replace_all_matches};
use text::{
    chars_of, contains_chars, contains_sub, join_lines, lines, push_char, push_chars, split_state,
    strip_cr,
};

verus! {

/// The marker that drops a line from transformed text.
pub open spec fn strip_marker() -> Seq<char> {
    "# unasync: strip"@
}

/// The lines that carry no strip marker.
pub open spec fn kept_lines(ls: Seq<Seq<char>>) -> Seq<Seq<char>>
    decreases ls.len(),
{
    if ls.len() == 0 {
        seq![]
    } else {
        let k = kept_lines(ls.drop_last());
        if contains_sub(ls.last(), strip_marker()) {
            k
        } else {
            k.push(ls.last())
        }
    }
}

/// `s` without its marked lines; lines are rejoined with `\n`, and a final
/// newline is kept when `s` ends with one.
pub open spec fn strip_marked_lines(s: Seq<char>) -> Seq<char> {
    join_lines(kept_lines(lines(s))) + if s.len() > 0 && s.last() == '\n' {
        seq!['\n']
    } else {
        seq![]
    }
}

/// Applies each rule in turn; a rule whose pattern does not compile changes nothing.
pub open spec fn apply_rule_views(text: Seq<char>, rules: Seq<RuleView>) -> Seq<char>
    decreases rules.len(),
{
    if rules.len() == 0 {
        text
    } else {
        let prev = apply_rule_views(text, rules.drop_last());
        let r = rules.last();
        match r.kind {
            RuleKind::Regex => if regex_compiles(r.match_pattern) {
                regex_replace_all(r.match_pattern, prev, r.replace)
            } else {
                prev
            },
        }
    }
}

/// The warning for a rule whose pattern does not compile.
pub open spec fn invalid_rule_warning(r: RuleView) -> Seq<char> {
    "Warning: Invalid regex pattern in rule '"@ + r.id + "': "@ + r.match_pattern
}

/// The warnings that applying `rules` gives: one for each rule whose pattern
/// does not compile, in order.
pub open spec fn rule_warnings(rules: Seq<RuleView>) -> Seq<Seq<char>>
    decreases rules.len(),
{
    if rules.len() == 0 {
        seq![]
    } else {
        let prev = rule_warnings(rules.drop_last());
        if regex_compiles(rules.last().match_pattern) {
            prev
        } else {
            prev.push(invalid_rule_warning(rules.last()))
        }
    }
}

/// The warnings that applying `rules` gives: one for each rule whose pattern
/// does not compile (such a rule is skipped), in order.
pub fn invalid_rule_warnings(rules: &[Rule]) -> (w: Vec<String>)
    ensures
        string_views(w@) == rule_warnings(rule_views(rules@)),
{
    let mut w: Vec<String> = Vec::new();
    let n = rules.len();
    proof {
        assert(string_views(w@) =~= rule_warnings(rule_views(rules@.take(0))));
    }
    for i in 0..n
        invariant
            n == rules@.len(),
            string_views(w@) == rule_warnings(rule_views(rules@.take(i as int))),
    {
        let rule = &rules[i];
        proof {
            let rs = rule_views(rules@.take(i + 1));
            assert(rs.drop_last() =~= rule_views(rules@.take(i as int)));
            assert(rs.last() == rule@);
        }
        if !pattern_compiles(rule.match_pattern.as_str()) {
            let ghost before = w@;
            let mut msg = "Warning: Invalid regex pattern in rule '".to_string();
            msg.append(rule.id.as_str());
            msg.append("': ");
            msg.append(rule.match_pattern.as_str());
            w.push(msg);
            proof {
                assert(string_views(w@) =~= string_views(before).push(msg@));
            }
        }
    }
    proof {
        assert(rules@.take(n as int) =~= rules@);
    }
    w
}

/// What `apply_rules` gives for `source` and `rules`.
pub open spec fn transform(source: Seq<char>, rules: Seq<RuleView>) -> Seq<char> {
    apply_rule_views(strip_marked_lines(source), rules)
}

/// Appends `line` to the kept text if it has no strip marker.
fn keep_line(out: &mut String, any: &mut bool, line: &Vec<char>, marker: &Vec<char>, Ghost(done): Ghost<Seq<Seq<char>>>)
    requires
        marker@ == strip_marker(),
        old(out)@ == join_lines(kept_lines(done)),
        *old(any) == (kept_lines(done).len() > 0),
    ensures
        final(out)@ == join_lines(kept_lines(done.push(line@))),
        *final(any) == (kept_lines(done.push(line@)).len() > 0),
{
    proof {
        assert(done.push(line@).drop_last() =~= done);
    }
    if !contains_chars(line, marker) {
        if *any {
            push_char(out, '\n');
        }
        push_chars(out, line);
        *any = true;
        proof {
            let k = kept_lines(done);
            assert(k.push(line@).drop_last() =~= k);
            if k.len() == 0 {
                assert(join_lines(k.push(line@)) == line@);
            }
        }
    }
}

/// Removes the lines that hold the strip marker, as `strip_marked_lines` says.
pub fn strip_marked(source: &str) -> (r: String)
    ensures
        r@ == strip_marked_lines(source@),
{
    let chars = chars_of(source);
    let marker = chars_of("# unasync: strip");
    let n = chars.len();
    let mut out = String::new();
    let mut any = false;
    let mut cur: Vec<char> = Vec::new();
    proof {
        assert(out@ =~= join_lines(kept_lines(seq![])));
        assert(source@.take(0) =~= Seq::<char>::empty());
    }
    for i in 0..n
        invariant
            n == chars@.len(),
            chars@ == source@,
            marker@ == strip_marker(),
            cur@ == split_state(source@.take(i as int)).1,
            out@ == join_lines(kept_lines(split_state(source@.take(i as int)).0)),
            any == (kept_lines(split_state(source@.take(i as int)).0).len() > 0),
    {
        let ghost pre = source@.take(i as int);
        proof {
            assert(source@.take(i + 1).drop_last() =~= pre);
        }
        let c = chars[i];
        if c == '\n' {
            let len = cur.len();
            if len > 0 && cur[len - 1] == '\r' {
                cur.pop();
            }
            proof {
                assert(cur@ =~= strip_cr(split_state(pre).1));
            }
            keep_line(&mut out, &mut any, &cur, &marker, Ghost(split_state(pre).0));
            cur = Vec::new();
        } else {
            cur.push(c);
        }
    }
    proof {
        assert(source@.take(n as int) =~= source@);
    }
    if cur.len() > 0 {
        keep_line(&mut out, &mut any, &cur, &marker, Ghost(split_state(source@).0));
    }
    if n > 0 && chars[n - 1] == '\n' {
        push_char(&mut out, '\n');
    }
    proof {
        assert(out@ =~= strip_marked_lines(source@));
    }
    out
}

/// Drops the marked lines of `source`, then applies each rule in turn; a rule
/// whose pattern does not compile is skipped.
pub fn apply_rules(source: &str, rules: &[Rule]) -> (result: String)
    ensures
        result@ == transform(source@, rule_views(rules@)),
{
    let mut result = strip_marked(source);
    let n = rules.len();
    for i in 0..n
        invariant
            n == rules@.len(),
            result@ == apply_rule_views(strip_marked_lines(source@), rule_views(rules@.take(i as int))),
    {
        let rule = &rules[i];
        proof {
            let rs = rule_views(rules@.take(i + 1));
            assert(rs.drop_last() =~= rule_views(rules@.take(i as int)));
            assert(rs.last() == rule@);
        }
        match rule.kind {
            RuleKind::Regex => {
                match replace_all_matches(rule.match_pattern.as_str(), result.as_str(), rule.replace.as_str()) {
                    Some(replaced) => {
                        result = replaced;
                    },
                    None => {},
                }
            },
        }
    }
    proof {
        assert(rules@.take(n as int) =~= rules@);
    }
    result
}

/// The text that the lines `done` (each followed by a newline) and the
/// unfinished line `cur` spell.
pub open spec fn rejoin(done: Seq<Seq<char>>, cur: Seq<char>) -> Seq<char> {
    if done.len() == 0 {
        cur
    } else {
        join_lines(done) + seq!['\n'] + cur
    }
}

/// Without carriage returns, splitting into lines loses nothing: the split
/// parts spell the text again, and the unfinished line is empty exactly when
/// the text is empty or ends with a newline.
proof fn lemma_split_rejoin(s: Seq<char>)
    requires
        !s.contains('\r'),
    ensures
        rejoin(split_state(s).0, split_state(s).1) == s,
        !split_state(s).1.contains('\r'),
        split_state(s).1.len() == 0 ==> (s.len() == 0 || s.last() == '\n'),
        split_state(s).1.len() == 0 && s.len() > 0 ==> split_state(s).0.len() > 0,
    decreases s.len(),
{
    if s.len() > 0 {
        let p = s.drop_last();
        assert forall|i: int| 0 <= i < p.len() implies p[i] != '\r' by {
            assert(s[i] == p[i]);
        }
        lemma_split_rejoin(p);
        let (done, cur) = split_state(p);
        let c = s.last();
        assert(s[s.len() - 1] == c);
        if c == '\n' {
            assert(strip_cr(cur) == cur) by {
                if cur.len() > 0 {
                    assert(cur[cur.len() - 1] == cur.last());
                }
            }
            let nd = done.push(cur);
            assert(nd.drop_last() =~= done);
            if done.len() == 0 {
                assert(join_lines(nd) == cur);
            }
            assert(rejoin(nd, seq![]) =~= s);
        } else {
            assert(rejoin(done, cur.push(c)) =~= p.push(c));
            assert(s =~= p.push(c));
            assert forall|i: int| 0 <= i < cur.push(c).len() implies cur.push(c)[i] != '\r' by {
                if i < cur.len() {
                    assert(cur.push(c)[i] == cur[i]);
                }
            }
        }
    }
}

/// When no line is marked, every line is kept.
proof fn lemma_kept_all(ls: Seq<Seq<char>>)
    requires
        forall|i: int| 0 <= i < ls.len() ==> !contains_sub(#[trigger] ls[i], strip_marker()),
    ensures
        kept_lines(ls) == ls,
    decreases ls.len(),
{
    if ls.len() > 0 {
        let p = ls.drop_last();
        assert forall|i: int| 0 <= i < p.len() implies !contains_sub(#[trigger] p[i], strip_marker()) by {
            assert(ls[i] == p[i]);
        }
        lemma_kept_all(p);
        assert(!contains_sub(ls[ls.len() - 1], strip_marker()));
        assert(p.push(ls.last()) =~= ls);
    }
}

/// Law: stripping removes only marked lines; text without carriage returns
/// and without marked lines comes out unchanged.
pub proof fn law_unmarked_text_unchanged(s: Seq<char>)
    requires
        !s.contains('\r'),
        forall|i: int| 0 <= i < lines(s).len() ==> !contains_sub(#[trigger] lines(s)[i], strip_marker()),
    ensures
        strip_marked_lines(s) == s,
{
    lemma_split_rejoin(s);
    lemma_kept_all(lines(s));
    let (done, cur) = split_state(s);
    if cur.len() > 0 {
        let ls = done.push(cur);
        assert(ls.drop_last() =~= done);
        if done.len() == 0 {
            assert(join_lines(ls) == cur);
        }
        assert(join_lines(ls) == rejoin(done, cur));
        assert(s.last() != '\n') by {
            if s.last() == '\n' {
                let p = s.drop_last();
                assert(split_state(s).1 == Seq::<char>::empty());
            }
        }
        assert(strip_marked_lines(s) =~= s);
    } else if s.len() == 0 {
        assert(strip_marked_lines(s) =~= s);
    } else {
        assert(rejoin(done, cur) =~= join_lines(done) + seq!['\n']);
        assert(strip_marked_lines(s) =~= s);
    }
}

/// Law: with no rules, `apply_rules` only strips the marked lines.
pub proof fn law_no_rules_only_strips(s: Seq<char>)
    ensures
        transform(s, seq![]) == strip_marked_lines(s),
{
}

} // verus!
