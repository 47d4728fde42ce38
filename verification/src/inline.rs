//! Inline generation: a definition marked `# unasync: generate` must be
//! followed by its transformed copy marked `# unasync: generated`. This module
//! checks a syntax tree for that, and splices fixes into the source.

use vstd::prelude::*;

use crate::{apply_rules, invalid_rule_warnings, rule_warnings};
use crate::generation::{generation_views, Generation, GenerationKindView, GenerationView};
use crate::config::{contains_id, effective_rules, effective_rules_from_defaults, Config, RuleView, Target, TargetVariant, rule_views, string_views};
use crate::diagnostics::{
    diagnostic_of, diagnostic_views, kind_is_fixable, Diagnostic, DiagnosticKind, DiagnosticKindView,
    DiagnosticView, Severity,
};
use crate::pattern::{
    first_group, regex_compiles, regex_first_group, regex_replace_first, replace_first_match,
    CaptureOutcome,
};
use crate::text::{byte_len, byte_slice, first_line, first_line_of, is_boundary, push_spaces, spaces, str_byte_slice, str_equal, valid_byte_range};
use vstd::utf8::encode_utf8;
use crate::transform;
use crate::treesitter::{
    check_spans, python_syntax, PythonParser, get_node_text, lemma_children_spans_valid, node_text, spans_valid,
    SyntaxNode,
};

verus! {

/// The marker comment found on the first line of a definition.
pub enum Mark {
    Generate(Option<String>),
    Generated(Option<String>),
}

/// The mathematical value of a marker.
pub enum MarkView {
    Generate(Option<Seq<char>>),
    Generated(Option<Seq<char>>),
}

/// The view of an optional string.
pub open spec fn opt_view(o: Option<String>) -> Option<Seq<char>> {
    match o {
        Some(s) => Some(s@),
        None => None,
    }
}

impl View for Mark {
    type V = MarkView;

    open spec fn view(&self) -> MarkView {
        match self {
            Mark::Generate(t) => MarkView::Generate(opt_view(*t)),
            Mark::Generated(t) => MarkView::Generated(opt_view(*t)),
        }
    }
}

/// The pattern of a generate marker, with its optional `@tag`.
pub open spec fn generate_marker_pattern() -> Seq<char> {
    "#\\s*unasync:\\s*generate(?:\\s+@([\\w\\-]+))?\\s*$"@
}

/// The pattern of a generated marker, with its optional `@tag`.
pub open spec fn generated_marker_pattern() -> Seq<char> {
    "#\\s*unasync:\\s*generated(?:\\s+@([\\w\\-]+))?\\s*$"@
}

/// The pattern of the word that turns a generate marker into a generated one.
pub open spec fn generate_word_pattern() -> Seq<char> {
    "#\\s*unasync:\\s*generate\\b"@
}

/// What replaces the generate marker in the generated copy.
pub open spec fn generated_marker_text() -> Seq<char> {
    "# unasync: generated"@
}

/// The marker on the first line of `text`: a generate marker is looked for
/// first, then a generated one. A pattern that does not compile finds nothing.
pub open spec fn mark_of(text: Seq<char>) -> Option<MarkView> {
    match first_line(text) {
        None => None,
        Some(line) => {
            if regex_compiles(generate_marker_pattern()) && regex_first_group(
                generate_marker_pattern(),
                line,
            ) is Some {
                Some(MarkView::Generate(regex_first_group(generate_marker_pattern(), line)->0))
            } else if regex_compiles(generated_marker_pattern()) && regex_first_group(
                generated_marker_pattern(),
                line,
            ) is Some {
                Some(MarkView::Generated(regex_first_group(generated_marker_pattern(), line)->0))
            } else {
                None
            }
        },
    }
}

/// Reads the marker on the first line of `source`, if there is one.
pub fn extract_trailing_comment(source: &str) -> (r: Option<Mark>)
    ensures
        match r {
            Some(m) => mark_of(source@) == Some(m@),
            None => mark_of(source@) is None,
        },
{
    let line = match first_line_of(source) {
        Some(l) => l,
        None => {
            return None;
        },
    };
    let generate = "#\\s*unasync:\\s*generate(?:\\s+@([\\w\\-]+))?\\s*$";
    match first_group(generate, line.as_str()) {
        CaptureOutcome::Matched(tag) => {
            return Some(Mark::Generate(tag));
        },
        _ => {},
    }
    let generated = "#\\s*unasync:\\s*generated(?:\\s+@([\\w\\-]+))?\\s*$";
    match first_group(generated, line.as_str()) {
        CaptureOutcome::Matched(tag) => {
            return Some(Mark::Generated(tag));
        },
        _ => {},
    }
    None
}

/// The kinds of node that can carry a marker: function, async function and class definitions.
pub open spec fn is_definition_kind(kind: Seq<char>) -> bool {
    kind == "function_definition"@ || kind == "async_function_definition"@ || kind
        == "class_definition"@
}

/// Whether `kind` is a definition kind.
pub fn is_definition_node(kind: &str) -> (b: bool)
    ensures
        b == is_definition_kind(kind@),
{
    str_equal(kind, "function_definition") || str_equal(kind, "async_function_definition")
        || str_equal(kind, "class_definition")
}

/// The first target of `targets`, from index `i` on, that is an inline target with tag `tag`.
pub open spec fn find_target_from(targets: Seq<Target>, tag: Seq<char>, i: int) -> Option<Target>
    decreases targets.len() - i,
{
    if i < 0 || i >= targets.len() {
        None
    } else if targets[i].variant matches TargetVariant::Inline { tag: t } && t@ == tag {
        Some(targets[i])
    } else {
        find_target_from(targets, tag, i + 1)
    }
}

/// The first inline target of the configuration with tag `tag`.
pub fn find_target_by_tag<'a>(config: &'a Config, tag: &str) -> (r: Option<&'a Target>)
    ensures
        match r {
            Some(t) => find_target_from(config.targets@, tag@, 0) == Some(*t),
            None => find_target_from(config.targets@, tag@, 0) is None,
        },
{
    let n = config.targets.len();
    let mut i: usize = 0;
    while i < n
        invariant
            n == config.targets@.len(),
            i <= n,
            find_target_from(config.targets@, tag@, 0) == find_target_from(
                config.targets@,
                tag@,
                i as int,
            ),
        decreases n - i,
    {
        let target = &config.targets[i];
        match &target.variant {
            TargetVariant::Inline { tag: t } => {
                if str_equal(t.as_str(), tag) {
                    return Some(target);
                }
            },
            _ => {},
        }
        i = i + 1;
    }
    None
}

/// The rules that a generate marker with this tag uses: the defaults without
/// a tag; else those of the inline target with that tag, if there is one.
pub open spec fn rules_for_tag(config: Config, tag: Option<Seq<char>>) -> Option<Seq<RuleView>> {
    match tag {
        None => Some(effective_rules_from_defaults(config)),
        Some(t) => match find_target_from(config.targets@, t, 0) {
            Some(target) => Some(effective_rules(config, target)),
            None => None,
        },
    }
}

/// ` @tag` for a tag, nothing without one.
pub open spec fn tag_suffix(tag: Option<Seq<char>>) -> Seq<char> {
    match tag {
        Some(t) => " @"@ + t,
        None => seq![],
    }
}

/// What a generate node's copy must read: the node's text transformed by the
/// rules, with its generate marker turned into a generated one.
pub open spec fn generated_copy(text: Seq<char>, rules: Seq<RuleView>) -> Seq<char> {
    let t = transform(text, rules);
    if regex_compiles(generate_word_pattern()) {
        regex_replace_first(generate_word_pattern(), t, generated_marker_text())
    } else {
        t
    }
}

/// The diagnostic kind for a missing generated copy.
pub open spec fn missing_kind(
    node: SyntaxNode,
    generated_end: Option<usize>,
    copy: Seq<char>,
) -> DiagnosticKindView {
    DiagnosticKindView::MissingInlineGeneration {
        generate_end_byte: node.end_byte,
        generated_end_byte: generated_end,
        transformed_code: copy,
        indentation: node.start_column,
        source_line: (node.start_row + 1) as usize,
    }
}

/// An error about `node` with this message and kind.
pub open spec fn node_error(
    node: SyntaxNode,
    file: Seq<char>,
    message: Seq<char>,
    kind: DiagnosticKindView,
) -> DiagnosticView {
    diagnostic_of(
        file,
        (node.start_row + 1) as usize,
        node.start_column,
        message,
        Severity::Error,
        kind,
    )
}

/// What the check of a generate node reports, given the node that follows it.
pub open spec fn generate_check(
    node: SyntaxNode,
    next: Option<SyntaxNode>,
    tag: Option<Seq<char>>,
    rules: Seq<RuleView>,
    source: Seq<char>,
    file: Seq<char>,
) -> Option<DiagnosticView> {
    let copy = generated_copy(node_text(node, source), rules);
    match next {
        None => Some(
            node_error(
                node,
                file,
                "Generate marker"@ + tag_suffix(tag) + " must be followed by a generated node"@,
                missing_kind(node, None, copy),
            ),
        ),
        Some(nx) => if !is_definition_kind(nx.kind@) {
            Some(
                node_error(
                    node,
                    file,
                    "Generate marker"@ + tag_suffix(tag)
                        + " must be followed by a definition node with a generated marker"@,
                    missing_kind(node, None, copy),
                ),
            )
        } else {
            match mark_of(node_text(nx, source)) {
                Some(MarkView::Generated(next_tag)) => if tag != next_tag {
                    Some(
                        node_error(
                            node,
                            file,
                            "Generate marker"@ + tag_suffix(tag)
                                + " tag does not match generated marker tag"@ + tag_suffix(
                                next_tag,
                            ),
                            missing_kind(node, Some(nx.end_byte), copy),
                        ),
                    )
                } else if node_text(nx, source) != copy {
                    Some(
                        node_error(
                            node,
                            file,
                            "Generated code"@ + tag_suffix(tag)
                                + " is out of sync with generate marker"@,
                            DiagnosticKindView::OutDatedGeneratedCode {
                                generate_end_byte: node.end_byte,
                                generated_end_byte: Some(nx.end_byte),
                                transformed_code: copy,
                                actual_code: node_text(nx, source),
                                indentation: node.start_column,
                                source_line: (node.start_row + 1) as usize,
                            },
                        ),
                    )
                } else {
                    None
                },
                _ => Some(
                    node_error(
                        node,
                        file,
                        "Generate marker"@ + tag_suffix(tag)
                            + " must be followed by a generated marker"@,
                        missing_kind(node, None, copy),
                    ),
                ),
            }
        },
    }
}

/// The message for a generated marker with no generate marker above it.
pub open spec fn orphan_message(tag: Option<Seq<char>>) -> Seq<char> {
    "Orphaned generated marker"@ + tag_suffix(tag) + " without matching generate marker above"@
}

/// What the check of a generated node reports, given the node before it.
pub open spec fn generated_check(
    node: SyntaxNode,
    prev: Option<SyntaxNode>,
    tag: Option<Seq<char>>,
    source: Seq<char>,
    file: Seq<char>,
) -> Option<DiagnosticView> {
    match prev {
        None => None,
        Some(p) => if !is_definition_kind(p.kind@) {
            Some(
                node_error(
                    node,
                    file,
                    orphan_message(tag),
                    DiagnosticKindView::GeneratedCodeWithoutGenerator,
                ),
            )
        } else {
            match mark_of(node_text(p, source)) {
                Some(MarkView::Generate(prev_tag)) => if prev_tag != tag {
                    Some(
                        node_error(
                            node,
                            file,
                            "Generated marker"@ + tag_suffix(tag)
                                + " tag does not match generate marker tag"@ + tag_suffix(
                                prev_tag,
                            ),
                            DiagnosticKindView::GeneratedCodeWithoutGenerator,
                        ),
                    )
                } else {
                    None
                },
                _ => Some(
                    node_error(
                        node,
                        file,
                        orphan_message(tag),
                        DiagnosticKindView::GeneratedCodeWithoutGenerator,
                    ),
                ),
            }
        },
    }
}

/// The sequence holding the diagnostic, if there is one.
pub open spec fn opt_seq(d: Option<DiagnosticView>) -> Seq<DiagnosticView> {
    match d {
        Some(x) => seq![x],
        None => seq![],
    }
}

/// What a node reports by itself, and whether its children are checked too
/// (they are not after a generate marker whose tag no target has).
pub open spec fn node_check(
    node: SyntaxNode,
    prev: Option<SyntaxNode>,
    next: Option<SyntaxNode>,
    config: Config,
    source: Seq<char>,
    file: Seq<char>,
) -> (Seq<DiagnosticView>, bool) {
    if !is_definition_kind(node.kind@) {
        (seq![], true)
    } else {
        match mark_of(node_text(node, source)) {
            Some(MarkView::Generate(tag)) => match rules_for_tag(config, tag) {
                None => (
                    seq![
                        diagnostic_of(
                            file,
                            (node.start_row + 1) as usize,
                            node.start_column,
                            "Tag '@"@ + tag->0 + "' used in marker but not found in config targets"@,
                            Severity::Warning,
                            DiagnosticKindView::TagUsedInMarkerNotFoundInConfig { tag_name: tag->0 },
                        ),
                    ],
                    false,
                ),
                Some(rules) => (opt_seq(generate_check(node, next, tag, rules, source, file)), true),
            },
            Some(MarkView::Generated(tag)) => (
                opt_seq(generated_check(node, prev, tag, source, file)),
                true,
            ),
            None => (seq![], true),
        }
    }
}

/// The child before child `i`, if there is one.
pub open spec fn prev_of(cs: Seq<SyntaxNode>, i: int) -> Option<SyntaxNode> {
    if 0 < i <= cs.len() {
        Some(cs[i - 1])
    } else {
        None
    }
}

/// The child after child `i`, if there is one.
pub open spec fn next_of(cs: Seq<SyntaxNode>, i: int) -> Option<SyntaxNode> {
    if 0 <= i && i + 1 < cs.len() {
        Some(cs[i + 1])
    } else {
        None
    }
}

/// What the check of a subtree reports, in document order: the node, then
/// its children (with their siblings), each subtree in turn.
pub open spec fn tree_check(
    node: SyntaxNode,
    prev: Option<SyntaxNode>,
    next: Option<SyntaxNode>,
    config: Config,
    source: Seq<char>,
    file: Seq<char>,
) -> Seq<DiagnosticView>
    decreases node, 0int,
{
    let (own, descend) = node_check(node, prev, next, config, source, file);
    if descend {
        own + children_check(node.children@, node.children@.len() as int, config, source, file)
    } else {
        own
    }
}

/// What the checks of the first `k` children report, in order.
pub open spec fn children_check(
    cs: Seq<SyntaxNode>,
    k: int,
    config: Config,
    source: Seq<char>,
    file: Seq<char>,
) -> Seq<DiagnosticView>
    decreases cs, k,
{
    if k <= 0 || k > cs.len() {
        seq![]
    } else {
        children_check(cs, k - 1, config, source, file) + tree_check(
            cs[k - 1],
            prev_of(cs, k - 1),
            next_of(cs, k - 1),
            config,
            source,
            file,
        )
    }
}

/// The warnings that a node gives by itself: those of the rules of its
/// generate marker, when its tag has rules.
pub open spec fn node_warnings(node: SyntaxNode, config: Config, source: Seq<char>) -> Seq<Seq<char>> {
    if !is_definition_kind(node.kind@) {
        seq![]
    } else {
        match mark_of(node_text(node, source)) {
            Some(MarkView::Generate(tag)) => match rules_for_tag(config, tag) {
                Some(rules) => rule_warnings(rules),
                None => seq![],
            },
            _ => seq![],
        }
    }
}

/// The warnings that the check of a subtree gives, in document order.
pub open spec fn tree_warnings(
    node: SyntaxNode,
    prev: Option<SyntaxNode>,
    next: Option<SyntaxNode>,
    config: Config,
    source: Seq<char>,
    file: Seq<char>,
) -> Seq<Seq<char>>
    decreases node, 0int,
{
    if node_check(node, prev, next, config, source, file).1 {
        node_warnings(node, config, source) + children_warnings(
            node.children@,
            node.children@.len() as int,
            config,
            source,
            file,
        )
    } else {
        node_warnings(node, config, source)
    }
}

/// The warnings that the checks of the first `k` children give, in order.
pub open spec fn children_warnings(
    cs: Seq<SyntaxNode>,
    k: int,
    config: Config,
    source: Seq<char>,
    file: Seq<char>,
) -> Seq<Seq<char>>
    decreases cs, k,
{
    if k <= 0 || k > cs.len() {
        seq![]
    } else {
        children_warnings(cs, k - 1, config, source, file) + tree_warnings(
            cs[k - 1],
            prev_of(cs, k - 1),
            next_of(cs, k - 1),
            config,
            source,
            file,
        )
    }
}

/// The node that an optional reference points to.
pub open spec fn opt_node(n: Option<&SyntaxNode>) -> Option<SyntaxNode> {
    match n {
        Some(x) => Some(*x),
        None => None,
    }
}

/// ` @tag` for a tag, nothing without one.
fn tag_suffix_string(tag: &Option<String>) -> (s: String)
    ensures
        s@ == tag_suffix(opt_view(*tag)),
{
    match tag {
        Some(t) => {
            let mut s = " @".to_string();
            s.append(t.as_str());
            s
        },
        None => {
            let s = String::new();
            proof {
                assert(s@ =~= seq![]);
            }
            s
        },
    }
}

/// Whether two optional strings are equal.
fn same_tag(a: &Option<String>, b: &Option<String>) -> (r: bool)
    ensures
        r == (opt_view(*a) == opt_view(*b)),
{
    match (a, b) {
        (Some(x), Some(y)) => *x == *y,
        (None, None) => true,
        _ => false,
    }
}

/// `first` + `middle` + `last`, as a string.
fn message3(first: &str, middle: &str, last: &str) -> (s: String)
    ensures
        s@ == first@ + middle@ + last@,
{
    let mut s = first.to_string();
    s.append(middle);
    s.append(last);
    s
}

/// The rules for a generate marker with this tag, if its target exists.
fn rules_for_marker(config: &Config, tag: &Option<String>) -> (r: Option<Vec<crate::config::Rule>>)
    ensures
        match r {
            Some(rs) => rules_for_tag(*config, opt_view(*tag)) == Some(rule_views(rs@)),
            None => rules_for_tag(*config, opt_view(*tag)) is None,
        },
{
    match tag {
        Some(t) => match find_target_by_tag(config, t.as_str()) {
            Some(target) => Some(config.get_effective_rules(target)),
            None => None,
        },
        None => Some(config.get_effective_rules_from_defaults()),
    }
}

/// The text a generate node's copy must read.
fn generated_copy_of(text: &str, rules: &[crate::config::Rule]) -> (r: String)
    ensures
        r@ == generated_copy(text@, rule_views(rules@)),
{
    let transformed = apply_rules(text, rules);
    match replace_first_match("#\\s*unasync:\\s*generate\\b", transformed.as_str(), "# unasync: generated") {
        Some(replaced) => replaced,
        None => transformed,
    }
}

/// Checks a node marked `# unasync: generate` against the node that follows it.
pub fn validate_generate_node(
    node: &SyntaxNode,
    next: Option<&SyntaxNode>,
    tag: &Option<String>,
    rules: &[crate::config::Rule],
    source: &str,
    file: &str,
) -> (r: Option<Diagnostic>)
    requires
        spans_valid(*node, source@),
        next matches Some(nx) ==> spans_valid(*nx, source@),
    ensures
        match r {
            Some(d) => generate_check(*node, opt_node(next), opt_view(*tag), rule_views(rules@), source@, file@) == Some(d@),
            None => generate_check(*node, opt_node(next), opt_view(*tag), rule_views(rules@), source@, file@) is None,
        },
{
    let start_line = node.start_row + 1;
    let col = node.start_column;
    let suffix = tag_suffix_string(tag);
    let node_src = get_node_text(node, source);
    let transformed = generated_copy_of(node_src, rules);
    let indentation = node.start_column;
    let generate_end_byte = node.end_byte;
    match next {
        None => {
            let msg = message3("Generate marker", suffix.as_str(), " must be followed by a generated node");
            Some(Diagnostic::error(file, start_line, col, msg.as_str(),
                DiagnosticKind::MissingInlineGeneration {
                    generate_end_byte,
                    generated_end_byte: None,
                    transformed_code: transformed,
                    indentation,
                    source_line: start_line,
                }))
        },
        Some(nx) => {
            if !is_definition_node(nx.kind.as_str()) {
                let msg = message3("Generate marker", suffix.as_str(),
                    " must be followed by a definition node with a generated marker");
                return Some(Diagnostic::error(file, start_line, col, msg.as_str(),
                    DiagnosticKind::MissingInlineGeneration {
                        generate_end_byte,
                        generated_end_byte: None,
                        transformed_code: transformed,
                        indentation,
                        source_line: start_line,
                    }));
            }
            let next_text = get_node_text(nx, source);
            match extract_trailing_comment(next_text) {
                Some(Mark::Generated(next_tag)) => {
                    if !same_tag(tag, &next_tag) {
                        let mut msg = message3("Generate marker", suffix.as_str(),
                            " tag does not match generated marker tag");
                        let next_suffix = tag_suffix_string(&next_tag);
                        msg.append(next_suffix.as_str());
                        return Some(Diagnostic::error(file, start_line, col, msg.as_str(),
                            DiagnosticKind::MissingInlineGeneration {
                                generate_end_byte,
                                generated_end_byte: Some(nx.end_byte),
                                transformed_code: transformed,
                                indentation,
                                source_line: start_line,
                            }));
                    }
                    if !str_equal(next_text, transformed.as_str()) {
                        let msg = message3("Generated code", suffix.as_str(),
                            " is out of sync with generate marker");
                        return Some(Diagnostic::error(file, start_line, col, msg.as_str(),
                            DiagnosticKind::OutDatedGeneratedCode {
                                generate_end_byte,
                                generated_end_byte: Some(nx.end_byte),
                                transformed_code: transformed,
                                actual_code: next_text.to_string(),
                                indentation,
                                source_line: start_line,
                            }));
                    }
                    None
                },
                _ => {
                    let msg = message3("Generate marker", suffix.as_str(),
                        " must be followed by a generated marker");
                    Some(Diagnostic::error(file, start_line, col, msg.as_str(),
                        DiagnosticKind::MissingInlineGeneration {
                            generate_end_byte,
                            generated_end_byte: None,
                            transformed_code: transformed,
                            indentation,
                            source_line: start_line,
                        }))
                },
            }
        },
    }
}

/// Checks a node marked `# unasync: generated` against the node before it.
pub fn validate_generated_node(
    node: &SyntaxNode,
    prev: Option<&SyntaxNode>,
    tag: &Option<String>,
    source: &str,
    file: &str,
) -> (r: Option<Diagnostic>)
    requires
        spans_valid(*node, source@),
        prev matches Some(p) ==> spans_valid(*p, source@),
    ensures
        match r {
            Some(d) => generated_check(*node, opt_node(prev), opt_view(*tag), source@, file@) == Some(d@),
            None => generated_check(*node, opt_node(prev), opt_view(*tag), source@, file@) is None,
        },
{
    let start_line = node.start_row + 1;
    let col = node.start_column;
    let suffix = tag_suffix_string(tag);
    let prev_sibling = match prev {
        Some(p) => p,
        None => {
            return None;
        },
    };
    if !is_definition_node(prev_sibling.kind.as_str()) {
        let msg = message3("Orphaned generated marker", suffix.as_str(),
            " without matching generate marker above");
        return Some(Diagnostic::error(file, start_line, col, msg.as_str(),
            DiagnosticKind::GeneratedCodeWithoutGenerator));
    }
    let prev_text = get_node_text(prev_sibling, source);
    match extract_trailing_comment(prev_text) {
        Some(Mark::Generate(prev_tag)) => {
            if !same_tag(&prev_tag, tag) {
                let mut msg = message3("Generated marker", suffix.as_str(),
                    " tag does not match generate marker tag");
                let prev_suffix = tag_suffix_string(&prev_tag);
                msg.append(prev_suffix.as_str());
                return Some(Diagnostic::error(file, start_line, col, msg.as_str(),
                    DiagnosticKind::GeneratedCodeWithoutGenerator));
            }
            None
        },
        _ => {
            let msg = message3("Orphaned generated marker", suffix.as_str(),
                " without matching generate marker above");
            Some(Diagnostic::error(file, start_line, col, msg.as_str(),
                DiagnosticKind::GeneratedCodeWithoutGenerator))
        },
    }
}

/// Pushing a diagnostic pushes its view.
proof fn lemma_views_push(ds: Seq<Diagnostic>, d: Diagnostic)
    ensures
        diagnostic_views(ds.push(d)) == diagnostic_views(ds).push(d@),
{
    assert(diagnostic_views(ds.push(d)) =~= diagnostic_views(ds).push(d@));
}

/// Appends what the check of one node reports, and whether to check its children.
fn check_node(
    node: &SyntaxNode,
    prev: Option<&SyntaxNode>,
    next: Option<&SyntaxNode>,
    config: &Config,
    source: &str,
    file: &str,
    diagnostics: &mut Vec<Diagnostic>,
    warnings: &mut Vec<String>,
) -> (descend: bool)
    requires
        spans_valid(*node, source@),
        prev matches Some(p) ==> spans_valid(*p, source@),
        next matches Some(x) ==> spans_valid(*x, source@),
    ensures
        diagnostic_views(final(diagnostics)@) == diagnostic_views(old(diagnostics)@) + node_check(
            *node,
            opt_node(prev),
            opt_node(next),
            *config,
            source@,
            file@,
        ).0,
        descend == node_check(*node, opt_node(prev), opt_node(next), *config, source@, file@).1,
        string_views(final(warnings)@) == string_views(old(warnings)@) + node_warnings(*node, *config, source@),
{
    let ghost before = diagnostics@;
    proof {
        assert(string_views(warnings@) + seq![] =~= string_views(warnings@));
    }
    if !is_definition_node(node.kind.as_str()) {
        proof {
            assert(diagnostic_views(before) + seq![] =~= diagnostic_views(before));
        }
        return true;
    }
    let node_src = get_node_text(node, source);
    match extract_trailing_comment(node_src) {
        Some(Mark::Generate(tag)) => {
            match rules_for_marker(config, &tag) {
                None => {
                    let tag_name = match &tag {
                        Some(t) => t.clone(),
                        None => String::new(),
                    };
                    let msg = message3("Tag '@", tag_name.as_str(),
                        "' used in marker but not found in config targets");
                    let d = Diagnostic::warning(file, node.start_row + 1, node.start_column, msg.as_str(),
                        DiagnosticKind::TagUsedInMarkerNotFoundInConfig { tag_name });
                    diagnostics.push(d);
                    proof {
                        lemma_views_push(before, d);
                        assert(tag is Some);
                    }
                    false
                },
                Some(rules) => {
                    let rule_warns = invalid_rule_warnings(rules.as_slice());
                    append_strings(warnings, rule_warns);
                    match validate_generate_node(node, next, &tag, rules.as_slice(), source, file) {
                        Some(d) => {
                            diagnostics.push(d);
                            proof {
                                lemma_views_push(before, d);
                            }
                        },
                        None => {
                            proof {
                                assert(diagnostic_views(before) + seq![] =~= diagnostic_views(before));
                            }
                        },
                    }
                    true
                },
            }
        },
        Some(Mark::Generated(tag)) => {
            match validate_generated_node(node, prev, &tag, source, file) {
                Some(d) => {
                    diagnostics.push(d);
                    proof {
                        lemma_views_push(before, d);
                    }
                },
                None => {
                    proof {
                        assert(diagnostic_views(before) + seq![] =~= diagnostic_views(before));
                    }
                },
            }
            true
        },
        None => {
            proof {
                assert(diagnostic_views(before) + seq![] =~= diagnostic_views(before));
            }
            true
        },
    }
}

/// Appends what the check of the subtree of `node` reports.
fn validate_all_inline_recursive(
    node: &SyntaxNode,
    prev: Option<&SyntaxNode>,
    next: Option<&SyntaxNode>,
    config: &Config,
    source: &str,
    file: &str,
    diagnostics: &mut Vec<Diagnostic>,
    warnings: &mut Vec<String>,
)
    requires
        spans_valid(*node, source@),
        prev matches Some(p) ==> spans_valid(*p, source@),
        next matches Some(x) ==> spans_valid(*x, source@),
    ensures
        diagnostic_views(final(diagnostics)@) == diagnostic_views(old(diagnostics)@) + tree_check(
            *node,
            opt_node(prev),
            opt_node(next),
            *config,
            source@,
            file@,
        ),
        string_views(final(warnings)@) == string_views(old(warnings)@) + tree_warnings(
            *node,
            opt_node(prev),
            opt_node(next),
            *config,
            source@,
            file@,
        ),
    decreases node,
{
    let descend = check_node(node, prev, next, config, source, file, diagnostics, warnings);
    if !descend {
        proof {
            assert(string_views(warnings@) == string_views(old(warnings)@) + tree_warnings(
                *node, opt_node(prev), opt_node(next), *config, source@, file@)) by {
                assert(node_warnings(*node, *config, source@) + seq![] =~= node_warnings(*node, *config, source@));
                assert(string_views(old(warnings)@) + node_warnings(*node, *config, source@) + seq![] =~= string_views(old(warnings)@) + node_warnings(*node, *config, source@));
            }
        }
        return;
    }
    let ghost base = diagnostics@;
    let ghost wbase = string_views(warnings@);
    let n = node.children.len();
    proof {
        lemma_children_spans_valid(node.children@, n as int, source@);
        assert(diagnostic_views(base) + seq![] =~= diagnostic_views(base));
        assert(wbase + seq![] =~= wbase);
    }
    for i in 0..n
        invariant
            n == node.children@.len(),
            forall|j: int| 0 <= j < n ==> spans_valid(#[trigger] node.children@[j], source@),
            diagnostic_views(diagnostics@) == diagnostic_views(base) + children_check(
                node.children@,
                i as int,
                *config,
                source@,
                file@,
            ),
            string_views(warnings@) == wbase + children_warnings(
                node.children@,
                i as int,
                *config,
                source@,
                file@,
            ),
    {
        let prev_child = if i > 0 {
            Some(&node.children[i - 1])
        } else {
            None
        };
        let next_child = if i + 1 < n {
            Some(&node.children[i + 1])
        } else {
            None
        };
        assert(decreases_to!(node => node.children@[i as int]));
        validate_all_inline_recursive(&node.children[i], prev_child, next_child, config, source, file, diagnostics, warnings);
        proof {
            assert(opt_node(prev_child) == prev_of(node.children@, i as int));
            assert(opt_node(next_child) == next_of(node.children@, i as int));
        }
    }
    proof {
        let own = node_warnings(*node, *config, source@);
        let rest = children_warnings(node.children@, n as int, *config, source@, file@);
        assert(wbase == string_views(old(warnings)@) + own);
        assert(wbase + rest =~= string_views(old(warnings)@) + (own + rest));
    }
}

/// Appends the strings of `src` to `dst`.
fn append_strings(dst: &mut Vec<String>, src: Vec<String>)
    ensures
        string_views(final(dst)@) == string_views(old(dst)@) + string_views(src@),
{
    let mut src = src;
    let ghost s0 = src@;
    dst.append(&mut src);
    proof {
        assert(string_views(dst@) =~= string_views(old(dst)@) + string_views(s0));
    }
}

/// What the check of the tree rooted at `root` reports, and the warnings
/// about rules whose patterns do not compile, in document order.
pub fn check_tree(root: &SyntaxNode, config: &Config, source: &str, file: &str) -> (r: (Vec<Diagnostic>, Vec<String>))
    requires
        spans_valid(*root, source@),
    ensures
        diagnostic_views(r.0@) == tree_check(*root, None, None, *config, source@, file@),
        string_views(r.1@) == tree_warnings(*root, None, None, *config, source@, file@),
{
    let mut diagnostics: Vec<Diagnostic> = Vec::new();
    let mut warnings: Vec<String> = Vec::new();
    validate_all_inline_recursive(root, None, None, config, source, file, &mut diagnostics, &mut warnings);
    proof {
        assert(diagnostic_views(Seq::<Diagnostic>::empty()) =~= seq![]);
        assert(string_views(Seq::<String>::empty()) =~= seq![]);
        assert(seq![] + tree_check(*root, None, None, *config, source@, file@) =~= tree_check(*root, None, None, *config, source@, file@));
        assert(seq![] + tree_warnings(*root, None, None, *config, source@, file@) =~= tree_warnings(*root, None, None, *config, source@, file@));
    }
    (diagnostics, warnings)
}

/// Everything the check of the tree rooted at `root` reports, in document order.
pub fn validate_all_inline(root: &SyntaxNode, config: &Config, source: &str, file: &str) -> (r: Vec<Diagnostic>)
    requires
        spans_valid(*root, source@),
    ensures
        diagnostic_views(r@) == tree_check(*root, None, None, *config, source@, file@),
{
    let (diagnostics, _) = check_tree(root, config, source, file);
    diagnostics
}

/// What a fixable diagnostic asks to splice: the end of the generate node, the
/// end of the stale generated node (if any), the new code and its indentation.
pub open spec fn fix_of(k: DiagnosticKindView) -> Option<(usize, Option<usize>, Seq<char>, usize)> {
    match k {
        DiagnosticKindView::MissingInlineGeneration {
            generate_end_byte,
            generated_end_byte,
            transformed_code,
            indentation,
            ..
        } => Some((generate_end_byte, generated_end_byte, transformed_code, indentation)),
        DiagnosticKindView::OutDatedGeneratedCode {
            generate_end_byte,
            generated_end_byte,
            transformed_code,
            indentation,
            ..
        } => Some((generate_end_byte, generated_end_byte, transformed_code, indentation)),
        _ => None,
    }
}

/// After the fixes of `ds`: the text built so far, and the byte of `source`
/// where copying resumes. Each fix copies the source up to the end of its
/// generate node, then a blank line, the indentation and the new code, and
/// resumes after the stale generated node (or at the end of the generate node).
pub open spec fn splice_state(ds: Seq<DiagnosticView>, source: Seq<char>) -> (Seq<char>, int)
    decreases ds.len(),
{
    if ds.len() == 0 {
        (seq![], 0)
    } else {
        let (out, last) = splice_state(ds.drop_last(), source);
        match fix_of(ds.last().kind) {
            Some((generate_end, generated_end, code, indentation)) => (
                out + byte_slice(source, last, generate_end as int) + "\n\n"@ + spaces(
                    indentation as nat,
                ) + code,
                match generated_end {
                    Some(g) => g as int,
                    None => generate_end as int,
                },
            ),
            None => (out, last),
        }
    }
}

/// Each fix of `ds` copies a range of whole characters of `source`.
pub open spec fn splice_steps_valid(ds: Seq<DiagnosticView>, source: Seq<char>) -> bool
    decreases ds.len(),
{
    if ds.len() == 0 {
        true
    } else {
        &&& splice_steps_valid(ds.drop_last(), source)
        &&& match fix_of(ds.last().kind) {
            Some((generate_end, _, _, _)) => valid_byte_range(
                source,
                splice_state(ds.drop_last(), source).1,
                generate_end as int,
            ),
            None => true,
        }
    }
}

/// The fixes of `ds` can be spliced into `source`: every range they copy,
/// the rest of the source included, is a range of whole characters.
pub open spec fn fix_plan_valid(ds: Seq<DiagnosticView>, source: Seq<char>) -> bool {
    &&& splice_steps_valid(ds, source)
    &&& valid_byte_range(source, splice_state(ds, source).1, encode_utf8(source).len() as int)
}

/// The source with the fixes of `ds` spliced in.
pub open spec fn spliced(ds: Seq<DiagnosticView>, source: Seq<char>) -> Seq<char> {
    let (out, last) = splice_state(ds, source);
    out + byte_slice(source, last, encode_utf8(source).len() as int)
}

/// Whether the fixes of `diagnostics` can be spliced into `content`.
pub fn fix_plan_is_valid(diagnostics: &[Diagnostic], content: &str) -> (b: bool)
    ensures
        b == fix_plan_valid(diagnostic_views(diagnostics@), content@),
{
    let n = diagnostics.len();
    let mut last: usize = 0;
    let ghost ds = diagnostic_views(diagnostics@);
    for i in 0..n
        invariant
            n == diagnostics@.len(),
            ds == diagnostic_views(diagnostics@),
            splice_steps_valid(ds.take(i as int), content@),
            last as int == splice_state(ds.take(i as int), content@).1,
    {
        proof {
            assert(ds.take(i + 1).drop_last() =~= ds.take(i as int));
            assert(ds.take(i + 1).last() == diagnostics@[i as int]@);
        }
        match &diagnostics[i].kind {
            DiagnosticKind::MissingInlineGeneration { generate_end_byte, generated_end_byte, .. }
            | DiagnosticKind::OutDatedGeneratedCode { generate_end_byte, generated_end_byte, .. } => {
                let ge = *generate_end_byte;
                if !(last <= ge && is_boundary(content, last) && is_boundary(content, ge)) {
                    proof {
                        if splice_steps_valid(ds, content@) {
                            assert(ds.take(n as int) =~= ds);
                            lemma_steps_valid_prefix(ds, content@, i as int + 1, n as int);
                        }
                    }
                    return false;
                }
                last = match generated_end_byte {
                    Some(g) => *g,
                    None => ge,
                };
            },
            _ => {},
        }
    }
    proof {
        assert(ds.take(n as int) =~= ds);
    }
    let len = byte_len(content);
    last <= len && is_boundary(content, last) && is_boundary(content, len)
}

/// The line of the generate node that a fix is for.
pub open spec fn fix_line(k: DiagnosticKindView) -> usize {
    match k {
        DiagnosticKindView::MissingInlineGeneration { source_line, .. } => source_line,
        DiagnosticKindView::OutDatedGeneratedCode { source_line, .. } => source_line,
        _ => 0,
    }
}

/// One inline generation for each fix of `ds`, in order: in the diagnostic's
/// file, at the line of its generate node.
pub open spec fn fix_generations(ds: Seq<DiagnosticView>) -> Seq<GenerationView>
    decreases ds.len(),
{
    if ds.len() == 0 {
        seq![]
    } else {
        let prev = fix_generations(ds.drop_last());
        if fix_of(ds.last().kind) is Some {
            prev.push(
                GenerationView {
                    source_file: ds.last().file,
                    kind: GenerationKindView::Inline { line: fix_line(ds.last().kind) },
                },
            )
        } else {
            prev
        }
    }
}

/// Valid fix steps for a sequence are valid for each of its prefixes.
proof fn lemma_steps_valid_prefix(ds: Seq<DiagnosticView>, source: Seq<char>, k: int, n: int)
    requires
        0 <= k <= n <= ds.len(),
        splice_steps_valid(ds.take(n), source),
    ensures
        splice_steps_valid(ds.take(k), source),
    decreases n - k,
{
    if k < n {
        assert(ds.take(n).drop_last() =~= ds.take(n - 1));
        lemma_steps_valid_prefix(ds, source, k, n - 1);
    }
}

/// Splices the fixes of the fixable diagnostics into `original_content`, in order.
pub fn process_fixable_diagnostics(diagnostics: &[Diagnostic], original_content: &str) -> (r: (String, Vec<Generation>))
    requires
        fix_plan_valid(diagnostic_views(diagnostics@), original_content@),
    ensures
        r.0@ == spliced(diagnostic_views(diagnostics@), original_content@),
        generation_views(r.1@) == fix_generations(diagnostic_views(diagnostics@)),
{
    let ghost ds = diagnostic_views(diagnostics@);
    let n = diagnostics.len();
    let mut result = String::new();
    let mut last_pos: usize = 0;
    let mut generations: Vec<Generation> = Vec::new();
    proof {
        assert(result@ =~= splice_state(ds.take(0), original_content@).0);
        assert(generation_views(generations@) =~= fix_generations(ds.take(0)));
    }
    for i in 0..n
        invariant
            n == diagnostics@.len(),
            ds == diagnostic_views(diagnostics@),
            fix_plan_valid(ds, original_content@),
            result@ == splice_state(ds.take(i as int), original_content@).0,
            last_pos as int == splice_state(ds.take(i as int), original_content@).1,
            generation_views(generations@) == fix_generations(ds.take(i as int)),
    {
        proof {
            assert(ds.take(i + 1).drop_last() =~= ds.take(i as int));
            assert(ds.take(i + 1).last() == diagnostics@[i as int]@);
            assert(ds.take(n as int) =~= ds);
            lemma_steps_valid_prefix(ds, original_content@, i as int + 1, n as int);
        }
        match &diagnostics[i].kind {
            DiagnosticKind::MissingInlineGeneration {
                generate_end_byte,
                generated_end_byte,
                transformed_code,
                indentation,
                source_line,
            }
            | DiagnosticKind::OutDatedGeneratedCode {
                generate_end_byte,
                generated_end_byte,
                transformed_code,
                indentation,
                source_line,
                ..
            } => {
                let ghost before = generations@;
                let g = Generation::inline(diagnostics[i].location.file.as_str(), *source_line);
                generations.push(g);
                proof {
                    assert(generation_views(generations@) =~= generation_views(before).push(g@));
                }
                let piece = str_byte_slice(original_content, last_pos, *generate_end_byte);
                result.append(piece);
                result.append("\n\n");
                push_spaces(&mut result, *indentation);
                result.append(transformed_code.as_str());
                last_pos = match generated_end_byte {
                    Some(g) => *g,
                    None => *generate_end_byte,
                };
            },
            _ => {},
        }
    }
    proof {
        assert(ds.take(n as int) =~= ds);
    }
    let rest = str_byte_slice(original_content, last_pos, byte_len(original_content));
    result.append(rest);
    (result, generations)
}

/// The fixable diagnostics of `ds`, in order.
pub open spec fn fixable_views(ds: Seq<DiagnosticView>) -> Seq<DiagnosticView>
    decreases ds.len(),
{
    if ds.len() == 0 {
        seq![]
    } else {
        let k = fixable_views(ds.drop_last());
        if kind_is_fixable(ds.last().kind) {
            k.push(ds.last())
        } else {
            k
        }
    }
}

/// Copies of the fixable diagnostics, in order.
pub fn fixable_only(diagnostics: &Vec<Diagnostic>) -> (r: Vec<Diagnostic>)
    ensures
        diagnostic_views(r@) == fixable_views(diagnostic_views(diagnostics@)),
{
    let ghost ds = diagnostic_views(diagnostics@);
    let mut r: Vec<Diagnostic> = Vec::new();
    let n = diagnostics.len();
    proof {
        assert(diagnostic_views(r@) =~= fixable_views(ds.take(0)));
    }
    for i in 0..n
        invariant
            n == diagnostics@.len(),
            ds == diagnostic_views(diagnostics@),
            diagnostic_views(r@) == fixable_views(ds.take(i as int)),
    {
        proof {
            assert(ds.take(i + 1).drop_last() =~= ds.take(i as int));
            assert(ds.take(i + 1).last() == diagnostics@[i as int]@);
        }
        if diagnostics[i].is_fixable() {
            let ghost before = r@;
            let d = diagnostics[i].clone();
            r.push(d);
            proof {
                lemma_views_push(before, d);
            }
        }
    }
    proof {
        assert(ds.take(n as int) =~= ds);
    }
    r
}

/// With no fixable diagnostic, splicing copies the source unchanged.
pub proof fn lemma_splice_without_fixes(ds: Seq<DiagnosticView>, source: Seq<char>)
    requires
        fixable_views(ds).len() == 0,
    ensures
        splice_steps_valid(ds, source),
        splice_state(ds, source) == (Seq::<char>::empty(), 0int),
    decreases ds.len(),
{
    if ds.len() > 0 {
        if kind_is_fixable(ds.last().kind) {
            assert(fixable_views(ds).len() > 0);
        }
        lemma_splice_without_fixes(ds.drop_last(), source);
    }
}

/// Law: when no diagnostic can be fixed, the fixes can be applied and leave
/// the source exactly as it was.
pub proof fn law_no_fixable_keeps_source(ds: Seq<DiagnosticView>, source: Seq<char>)
    requires
        fixable_views(ds).len() == 0,
    ensures
        fix_plan_valid(ds, source),
        spliced(ds, source) == source,
{
    lemma_splice_without_fixes(ds, source);
    crate::text::lemma_full_byte_slice(source);
    assert(Seq::<char>::empty() + source =~= source);
}

/// Law: a missing generation is fixed by pure insertion: the source is kept
/// whole, split at the end of the generate node, and a blank line, the
/// indentation and the generated code go in between.
pub proof fn law_single_fix_inserts(d: DiagnosticView, source: Seq<char>)
    requires
        fix_of(d.kind) matches Some((generate_end, None, _, _)) && valid_byte_range(
            source,
            0,
            generate_end as int,
        ) && valid_byte_range(source, generate_end as int, encode_utf8(source).len() as int),
    ensures
        ({
            let (ge, _, code, indentation) = fix_of(d.kind)->0;
            let len = encode_utf8(source).len() as int;
            &&& fix_plan_valid(seq![d], source)
            &&& spliced(seq![d], source) == byte_slice(source, 0, ge as int) + "\n\n"@ + spaces(
                indentation as nat,
            ) + code + byte_slice(source, ge as int, len)
            &&& byte_slice(source, 0, ge as int) + byte_slice(source, ge as int, len) == source
        }),
{
    let (ge, _, code, indentation) = fix_of(d.kind)->0;
    let ds = seq![d];
    assert(ds.drop_last() =~= Seq::<DiagnosticView>::empty());
    assert(ds.last() == d);
    let bytes = encode_utf8(source);
    vstd::utf8::encode_utf8_valid_utf8(source);
    vstd::utf8::encode_utf8_decode_utf8(source);
    vstd::utf8::decode_utf8_split(bytes, ge as int);
    assert(bytes.subrange(0, bytes.len() as int) =~= bytes);
    assert(Seq::<char>::empty() + byte_slice(source, 0, ge as int) =~= byte_slice(source, 0, ge as int));
    assert(splice_steps_valid(ds.drop_last(), source));
    assert(splice_state(ds.drop_last(), source) == (Seq::<char>::empty(), 0int));
    assert(fix_of(ds.last().kind) == fix_of(d.kind));
    assert(splice_steps_valid(ds, source));
    assert(splice_state(ds, source).1 == ge as int);
    assert(fix_plan_valid(ds, source));
    assert(bytes.subrange(0, ge as int) == bytes.subrange(0, bytes.len() as int).subrange(0, ge as int));
    assert(byte_slice(source, 0, ge as int) + byte_slice(source, ge as int, bytes.len() as int) == source);
}

/// Law: a generate node followed by a definition that carries a generated
/// marker with the same tag and reads exactly as the generated copy is
/// accepted, and so is that generated node.
pub proof fn law_exact_copy_accepted(
    node: SyntaxNode,
    copy: SyntaxNode,
    tag: Option<Seq<char>>,
    rules: Seq<RuleView>,
    source: Seq<char>,
    file: Seq<char>,
)
    requires
        is_definition_kind(node.kind@),
        is_definition_kind(copy.kind@),
        mark_of(node_text(node, source)) == Some(MarkView::Generate(tag)),
        mark_of(node_text(copy, source)) == Some(MarkView::Generated(tag)),
        node_text(copy, source) == generated_copy(node_text(node, source), rules),
    ensures
        generate_check(node, Some(copy), tag, rules, source, file) is None,
        generated_check(copy, Some(node), tag, source, file) is None,
{
}

/// What processing a file inline yields: the diagnostics to report, the
/// diagnostics that were fixed, the new file content (if it changed), the
/// warnings about rules whose patterns do not compile, and the generations
/// that the fixes made.
pub struct InlineOutcome {
    pub diagnostics: Vec<Diagnostic>,
    pub fixed: Vec<Diagnostic>,
    pub new_content: Option<String>,
    pub warnings: Vec<String>,
    pub generations: Vec<Generation>,
}

/// The message when the fixes of a check overlap and cannot be spliced in.
pub open spec fn overlap_message() -> Seq<char> {
    "Generated blocks overlap; the fixes cannot be applied"@
}

/// The fixes are to be applied (not check-only, something to fix) but they
/// cannot be spliced into the content.
pub open spec fn fix_refused(first: Seq<DiagnosticView>, content: Seq<char>, check_only: bool) -> bool {
    !check_only && fixable_views(first).len() > 0 && !fix_plan_valid(first, content)
}

/// Checks the tree of `content` and, unless `check_only`, splices the fixes
/// into the content. The outcome reports the check of this tree; when the
/// fixes change the content, the new content and the fixed diagnostics come
/// with it. Fails exactly when the fixes cannot be spliced in.
pub fn plan_inline_fix(
    tree: &SyntaxNode,
    content: &str,
    config: &Config,
    check_only: bool,
    file: &str,
) -> (r: Result<InlineOutcome, String>)
    requires
        spans_valid(*tree, content@),
    ensures
        ({
            let first = tree_check(*tree, None, None, *config, content@, file@);
            let changes = !check_only && fixable_views(first).len() > 0;
            match r {
                Err(msg) => fix_refused(first, content@, check_only) && msg@ == overlap_message(),
                Ok(out) => {
                    &&& !fix_refused(first, content@, check_only)
                    &&& diagnostic_views(out.diagnostics@) == first
                    &&& string_views(out.warnings@) == tree_warnings(*tree, None, None, *config, content@, file@)
                    &&& if changes && spliced(first, content@) != content@ {
                        &&& out.new_content matches Some(m) && m@ == spliced(first, content@)
                        &&& diagnostic_views(out.fixed@) == fixable_views(first)
                        &&& generation_views(out.generations@) == fix_generations(first)
                    } else {
                        &&& out.new_content is None
                        &&& out.fixed@.len() == 0
                        &&& out.generations@.len() == 0
                    }
                },
            }
        }),
{
    let (diagnostics, warnings) = check_tree(tree, config, content, file);
    if check_only {
        return Ok(InlineOutcome { diagnostics, fixed: Vec::new(), new_content: None, warnings, generations: Vec::new() });
    }
    let fixable = fixable_only(&diagnostics);
    if fixable.len() == 0 {
        proof {
            assert(diagnostic_views(fixable@).len() == 0);
        }
        return Ok(InlineOutcome { diagnostics, fixed: Vec::new(), new_content: None, warnings, generations: Vec::new() });
    }
    proof {
        assert(diagnostic_views(fixable@).len() > 0);
    }
    if !fix_plan_is_valid(diagnostics.as_slice(), content) {
        return Err("Generated blocks overlap; the fixes cannot be applied".to_string());
    }
    let (modified, generations) = process_fixable_diagnostics(diagnostics.as_slice(), content);
    if str_equal(modified.as_str(), content) {
        return Ok(InlineOutcome { diagnostics, fixed: Vec::new(), new_content: None, warnings, generations: Vec::new() });
    }
    Ok(InlineOutcome { diagnostics, fixed: fixable, new_content: Some(modified), warnings, generations })
}

/// The message when a tree does not cover its source text.
pub open spec fn cover_message() -> Seq<char> {
    "Syntax tree does not cover the source text"@
}

/// The fixes of a check are applied and change the content.
pub open spec fn inline_changes(first: Seq<DiagnosticView>, content: Seq<char>, check_only: bool) -> bool {
    !check_only && fixable_views(first).len() > 0 && spliced(first, content) != content
}

/// What the check of the parse of `content` reports.
pub open spec fn first_check(content: Seq<char>, config: Config, file: Seq<char>) -> Seq<DiagnosticView> {
    tree_check(python_syntax(content)->0, None, None, config, content, file)
}

/// Why processing `content` inline fails, if it does: its parse fails or
/// does not cover it, the fixes cannot be spliced in, or the parse of the
/// fixed content fails or does not cover it.
pub open spec fn inline_failure(content: Seq<char>, config: Config, check_only: bool, file: Seq<char>) -> Option<Seq<char>> {
    match python_syntax(content) {
        None => Some("Failed to parse Python code"@),
        Some(t) => if !spans_valid(t, content) {
            Some(cover_message())
        } else {
            let first = tree_check(t, None, None, config, content, file);
            if fix_refused(first, content, check_only) {
                Some(overlap_message())
            } else if inline_changes(first, content, check_only) {
                let m = spliced(first, content);
                match python_syntax(m) {
                    None => Some("Failed to parse file"@),
                    Some(t2) => if !spans_valid(t2, m) {
                        Some(cover_message())
                    } else {
                        None
                    },
                }
            } else {
                None
            }
        },
    }
}

/// The outcome of processing `content` inline: when the fixes change the
/// content, the new content, the fixed diagnostics and the check of the
/// parse of the new content; else the check of the parse of `content`, with
/// nothing fixed and no new content.
pub open spec fn inline_outcome(
    out: InlineOutcome,
    content: Seq<char>,
    config: Config,
    check_only: bool,
    file: Seq<char>,
) -> bool {
    let first = first_check(content, config, file);
    let first_warnings = tree_warnings(python_syntax(content)->0, None, None, config, content, file);
    if inline_changes(first, content, check_only) {
        let m = spliced(first, content);
        &&& out.new_content matches Some(x) && x@ == m
        &&& diagnostic_views(out.fixed@) == fixable_views(first)
        &&& diagnostic_views(out.diagnostics@) == tree_check(python_syntax(m)->0, None, None, config, m, file)
        &&& string_views(out.warnings@) == first_warnings + tree_warnings(python_syntax(m)->0, None, None, config, m, file)
        &&& generation_views(out.generations@) == fix_generations(first)
    } else {
        &&& diagnostic_views(out.diagnostics@) == first
        &&& out.fixed@.len() == 0
        &&& out.new_content is None
        &&& string_views(out.warnings@) == first_warnings
        &&& out.generations@.len() == 0
    }
}

/// Checks the inline generations of a Python source and, unless
/// `check_only`, splices the fixes in and checks the fixed content again.
pub fn process_source_inline(content: &str, config: &Config, check_only: bool, file: &str) -> (r:
    Result<InlineOutcome, String>)
    ensures
        match r {
            Ok(out) => inline_failure(content@, *config, check_only, file@) is None
                && inline_outcome(out, content@, *config, check_only, file@),
            Err(msg) => inline_failure(content@, *config, check_only, file@) == Some(msg@),
        },
{
    let mut parser = PythonParser::new()?;
    let tree = match parser.parse(content) {
        Some(t) => t,
        None => {
            return Err("Failed to parse Python code".to_string());
        },
    };
    if !check_spans(&tree, content) {
        return Err("Syntax tree does not cover the source text".to_string());
    }
    let planned = plan_inline_fix(&tree, content, config, check_only, file)?;
    let modified = match planned.new_content {
        Some(m) => m,
        None => {
            return Ok(planned);
        },
    };
    let tree2 = match parser.parse(modified.as_str()) {
        Some(t) => t,
        None => {
            return Err("Failed to parse file".to_string());
        },
    };
    if !check_spans(&tree2, modified.as_str()) {
        return Err("Syntax tree does not cover the source text".to_string());
    }
    let (new_diagnostics, new_warnings) = check_tree(&tree2, config, modified.as_str(), file);
    let mut warnings = planned.warnings;
    append_strings(&mut warnings, new_warnings);
    Ok(InlineOutcome {
        diagnostics: new_diagnostics,
        fixed: planned.fixed,
        new_content: Some(modified),
        warnings,
        generations: planned.generations,
    })
}

/// A generate node (whose tag has rules) is followed by a definition that
/// carries the generated marker with the same tag and reads exactly as the
/// generated copy.
pub open spec fn generation_in_place(
    node: SyntaxNode,
    next: Option<SyntaxNode>,
    config: Config,
    source: Seq<char>,
) -> bool {
    is_definition_kind(node.kind@) ==> match mark_of(node_text(node, source)) {
        Some(MarkView::Generate(tag)) => match rules_for_tag(config, tag) {
            Some(rules) => match next {
                Some(nx) => {
                    &&& is_definition_kind(nx.kind@)
                    &&& mark_of(node_text(nx, source)) == Some(MarkView::Generated(tag))
                    &&& node_text(nx, source) == generated_copy(node_text(node, source), rules)
                },
                None => false,
            },
            None => true,
        },
        _ => true,
    }
}

/// Every generate node of the subtree is followed by its generated copy.
pub open spec fn generations_in_place(
    node: SyntaxNode,
    next: Option<SyntaxNode>,
    config: Config,
    source: Seq<char>,
) -> bool
    decreases node, 0int,
{
    generation_in_place(node, next, config, source) && children_in_place(
        node.children@,
        node.children@.len() as int,
        config,
        source,
    )
}

/// Every generate node in the first `k` children's subtrees is followed by its copy.
pub open spec fn children_in_place(cs: Seq<SyntaxNode>, k: int, config: Config, source: Seq<char>) -> bool
    decreases cs, k,
{
    if k <= 0 || k > cs.len() {
        true
    } else {
        children_in_place(cs, k - 1, config, source) && generations_in_place(
            cs[k - 1],
            next_of(cs, k - 1),
            config,
            source,
        )
    }
}

/// The fixable diagnostics of a concatenation are those of each part.
pub proof fn lemma_fixable_concat(a: Seq<DiagnosticView>, b: Seq<DiagnosticView>)
    ensures
        fixable_views(a + b) == fixable_views(a) + fixable_views(b),
    decreases b.len(),
{
    if b.len() == 0 {
        assert(a + b =~= a);
        assert(fixable_views(a) + fixable_views(b) =~= fixable_views(a));
    } else {
        lemma_fixable_concat(a, b.drop_last());
        assert((a + b).drop_last() =~= a + b.drop_last());
        assert((a + b).last() == b.last());
        if kind_is_fixable(b.last().kind) {
            assert(fixable_views(a) + fixable_views(b) =~= (fixable_views(a) + fixable_views(b.drop_last())).push(b.last()));
        } else {
            assert(fixable_views(a) + fixable_views(b) =~= fixable_views(a) + fixable_views(b.drop_last()));
        }
    }
}

/// A node whose generation is in place reports nothing fixable by itself.
proof fn lemma_node_nothing_fixable(
    node: SyntaxNode,
    prev: Option<SyntaxNode>,
    next: Option<SyntaxNode>,
    config: Config,
    source: Seq<char>,
    file: Seq<char>,
)
    requires
        generation_in_place(node, next, config, source),
    ensures
        fixable_views(node_check(node, prev, next, config, source, file).0).len() == 0,
{
    let own = node_check(node, prev, next, config, source, file).0;
    assert(fixable_views(seq![]).len() == 0);
    if own.len() == 1 {
        assert(own.drop_last() =~= seq![]);
        assert(!kind_is_fixable(own.last().kind));
    }
}

/// A subtree whose generations are all in place reports nothing fixable.
pub proof fn lemma_tree_nothing_fixable(
    node: SyntaxNode,
    prev: Option<SyntaxNode>,
    next: Option<SyntaxNode>,
    config: Config,
    source: Seq<char>,
    file: Seq<char>,
)
    requires
        generations_in_place(node, next, config, source),
    ensures
        fixable_views(tree_check(node, prev, next, config, source, file)).len() == 0,
    decreases node, 0int,
{
    lemma_node_nothing_fixable(node, prev, next, config, source, file);
    let (own, descend) = node_check(node, prev, next, config, source, file);
    if descend {
        let k = node.children@.len() as int;
        lemma_children_nothing_fixable(node.children@, k, config, source, file);
        lemma_fixable_concat(own, children_check(node.children@, k, config, source, file));
    }
}

/// The first `k` children, with their generations in place, report nothing fixable.
pub proof fn lemma_children_nothing_fixable(
    cs: Seq<SyntaxNode>,
    k: int,
    config: Config,
    source: Seq<char>,
    file: Seq<char>,
)
    requires
        children_in_place(cs, k, config, source),
    ensures
        fixable_views(children_check(cs, k, config, source, file)).len() == 0,
    decreases cs, k,
{
    if k <= 0 || k > cs.len() {
        assert(fixable_views(seq![]).len() == 0);
    } else {
        lemma_children_nothing_fixable(cs, k - 1, config, source, file);
        lemma_tree_nothing_fixable(cs[k - 1], prev_of(cs, k - 1), next_of(cs, k - 1), config, source, file);
        lemma_fixable_concat(
            children_check(cs, k - 1, config, source, file),
            tree_check(cs[k - 1], prev_of(cs, k - 1), next_of(cs, k - 1), config, source, file),
        );
    }
}

/// Law: fixing fixes everything. When a fix run succeeds and changes the
/// content, and in the parse of the new content every generated block sits
/// right after its generate node (as the splice puts it), the re-check it
/// reports finds nothing to fix, and a further fix run succeeds and changes
/// nothing.
pub proof fn law_fix_leaves_nothing_to_fix(content: Seq<char>, config: Config, file: Seq<char>)
    requires
        inline_failure(content, config, false, file) is None,
        inline_changes(first_check(content, config, file), content, false),
        generations_in_place(
            python_syntax(spliced(first_check(content, config, file), content))->0,
            None,
            config,
            spliced(first_check(content, config, file), content),
        ),
    ensures
        ({
            let m = spliced(first_check(content, config, file), content);
            let second = first_check(m, config, file);
            &&& fixable_views(second).len() == 0
            &&& !inline_changes(second, m, false)
            &&& inline_failure(m, config, false, file) is None
            &&& inline_failure(m, config, true, file) is None
        }),
{
    let m = spliced(first_check(content, config, file), content);
    lemma_tree_nothing_fixable(python_syntax(m)->0, None, None, config, m, file);
}

/// Law: a definition marked generated whose previous sibling is a definition
/// without a generate marker (no marker at all, or a generated one) is an
/// orphan: it gets one error, at its own line and column, of kind
/// "generated code without generator", saying that no generate marker is above.
pub proof fn law_orphaned_generated_reported(
    node: SyntaxNode,
    prev: SyntaxNode,
    tag: Option<Seq<char>>,
    source: Seq<char>,
    file: Seq<char>,
)
    requires
        is_definition_kind(prev.kind@),
        !(mark_of(node_text(prev, source)) matches Some(MarkView::Generate(_))),
    ensures
        (generated_check(node, Some(prev), tag, source, file) == Some(
            DiagnosticView {
                message: "Orphaned generated marker"@ + tag_suffix(tag)
                    + " without matching generate marker above"@,
                file: file,
                line: (node.start_row + 1) as usize,
                column: node.start_column,
                severity: Severity::Error,
                kind: DiagnosticKindView::GeneratedCodeWithoutGenerator,
            },
        )),
{
}

/// Law: a generated marker passes its check exactly when nothing comes before
/// it, or the definition before it carries a generate marker with the same
/// tag. Every other case is an error of kind "generated code without
/// generator" at the generated node's line and column.
pub proof fn law_generated_needs_matching_generate(
    node: SyntaxNode,
    prev: Option<SyntaxNode>,
    tag: Option<Seq<char>>,
    source: Seq<char>,
    file: Seq<char>,
)
    ensures
        generated_check(node, prev, tag, source, file) is None <==> (prev is None || (
        is_definition_kind(prev->0.kind@) && mark_of(node_text(prev->0, source)) == Some(
            MarkView::Generate(tag),
        ))),
        generated_check(node, prev, tag, source, file) matches Some(d) ==> (d.severity
            == Severity::Error && d.kind == DiagnosticKindView::GeneratedCodeWithoutGenerator
            && d.file == file && d.line == (node.start_row + 1) as usize && d.column
            == node.start_column),
{
}

/// Law: the fix for a generate node always puts its generated copy right after
/// the node, at the node's indentation. When the definition that follows
/// already carries a generated marker (whatever its tag) and is not exactly
/// the copy with the same tag, the fix replaces that definition: copying
/// resumes at its end, so one generated copy follows the node, not two.
/// Otherwise nothing is replaced. The node passes exactly when the exact copy
/// with the same tag follows it.
pub proof fn law_generate_fix_replaces_stale_copy(
    node: SyntaxNode,
    next: Option<SyntaxNode>,
    tag: Option<Seq<char>>,
    rules: Seq<RuleView>,
    source: Seq<char>,
    file: Seq<char>,
)
    ensures
        ({
            let copy = generated_copy(node_text(node, source), rules);
            let stale = next is Some && is_definition_kind(next->0.kind@) && (mark_of(
                node_text(next->0, source),
            ) matches Some(MarkView::Generated(_)));
            let r = generate_check(node, next, tag, rules, source, file);
            let replaced = if stale {
                Some(next->0.end_byte)
            } else {
                None
            };
            &&& r is None <==> (stale && mark_of(node_text(next->0, source)) == Some(
                MarkView::Generated(tag),
            ) && node_text(next->0, source) == copy)
            &&& r matches Some(d) ==> (kind_is_fixable(d.kind) && d.severity == Severity::Error
                && fix_of(d.kind) == Some((node.end_byte, replaced, copy, node.start_column)))
        }),
{
}

/// Law: splicing is compositional. Splicing the fixes of `ds` and then one
/// more fix `d` gives what splicing `ds` gives, with the rest of the source
/// from `d`'s generate end on replaced by a blank line, `d`'s indentation, its
/// code, and the source from where `d` resumes (after the stale copy it
/// replaces, or at its generate end). So every fix of a list is spliced in,
/// not only the first.
pub proof fn law_splice_appends_fix(ds: Seq<DiagnosticView>, d: DiagnosticView, source: Seq<char>)
    requires
        fix_plan_valid(ds.push(d), source),
        fix_of(d.kind) is Some,
    ensures
        ({
            let (ge, gd, code, indentation) = fix_of(d.kind)->0;
            let len = encode_utf8(source).len() as int;
            let resume = match gd {
                Some(g) => g as int,
                None => ge as int,
            };
            let before = spliced(ds, source);
            let tail = byte_slice(source, ge as int, len);
            let kept = before.take(before.len() - tail.len());
            &&& fix_plan_valid(ds, source)
            &&& before == kept + tail
            &&& spliced(ds.push(d), source) == kept + "\n\n"@ + spaces(indentation as nat) + code
                + byte_slice(source, resume, len)
        }),
{
    let e = ds.push(d);
    assert(e.drop_last() =~= ds);
    assert(e.last() == d);
    let (ge, gd, code, indentation) = fix_of(d.kind)->0;
    let bytes = encode_utf8(source);
    let len = bytes.len() as int;
    let (out, last) = splice_state(ds, source);
    assert(splice_steps_valid(ds, source));
    assert(valid_byte_range(source, last, ge as int));
    vstd::utf8::encode_utf8_valid_utf8(source);
    vstd::utf8::is_char_boundary_start_end_of_seq(bytes);
    crate::text::lemma_boundary_in_range(bytes, ge as int);
    assert(valid_byte_range(source, ge as int, len));
    crate::text::lemma_byte_slice_split(source, last, ge as int, len);
    let tail = byte_slice(source, ge as int, len);
    let before = spliced(ds, source);
    let kept = out + byte_slice(source, last, ge as int);
    assert(before =~= kept + tail);
    assert(before.take(before.len() - tail.len()) =~= kept);
    assert(fix_plan_valid(ds, source));
}

/// The first inline target with tag `tag`, searched from `j` on, is the one at
/// `i` when no inline target between them has that tag.
proof fn lemma_find_target_at(targets: Seq<Target>, tag: Seq<char>, i: int, j: int)
    requires
        0 <= j <= i < targets.len(),
        targets[i].variant matches TargetVariant::Inline { tag: t } && t@ == tag,
        forall|k: int|
            j <= k < i ==> !(#[trigger] targets[k].variant matches TargetVariant::Inline { tag: u }
                && u@ == tag),
    ensures
        find_target_from(targets, tag, j) == Some(targets[i]),
    decreases i - j,
{
    if j < i {
        lemma_find_target_at(targets, tag, i, j + 1);
    }
}

/// Law: a marker tagged `tag` uses exactly the effective rules of the first
/// inline target with that tag (not the default rules): every rule that the
/// target lists itself is among them, and when the target inherits the
/// defaults, the default rules come first.
pub proof fn law_tagged_marker_uses_target_rules(config: Config, tag: Seq<char>, i: int)
    requires
        0 <= i < config.targets@.len(),
        config.targets@[i].variant matches TargetVariant::Inline { tag: t } && t@ == tag,
        forall|k: int|
            0 <= k < i ==> !(#[trigger] config.targets@[k].variant matches TargetVariant::Inline {
                tag: u,
            } && u@ == tag),
    ensures
        rules_for_tag(config, Some(tag)) == Some(effective_rules(config, config.targets@[i])),
        forall|k: int|
            0 <= k < config.targets@[i].rules@.len() ==> contains_id(
                rules_for_tag(config, Some(tag))->0,
                #[trigger] config.targets@[i].rules@[k].id@,
            ),
        config.targets@[i].inherit_defaults ==> rules_for_tag(config, Some(tag))->0.take(
            effective_rules_from_defaults(config).len() as int,
        ) == effective_rules_from_defaults(config),
{
    lemma_find_target_at(config.targets@, tag, i, 0);
    crate::config::law_target_rules_kept(config, config.targets@[i]);
    if config.targets@[i].inherit_defaults {
        crate::config::law_defaults_come_first(config, config.targets@[i]);
    }
}


/// The check of the first `m` children begins with the check of the first `k`.
proof fn lemma_children_check_prefix(
    cs: Seq<SyntaxNode>,
    k: int,
    m: int,
    config: Config,
    source: Seq<char>,
    file: Seq<char>,
)
    requires
        0 <= k <= m <= cs.len(),
    ensures
        ({
            let a = children_check(cs, k, config, source, file);
            let b = children_check(cs, m, config, source, file);
            a.len() <= b.len() && b.take(a.len() as int) == a
        }),
    decreases m - k,
{
    if k < m {
        lemma_children_check_prefix(cs, k, m - 1, config, source, file);
        let a = children_check(cs, k, config, source, file);
        let c = children_check(cs, m - 1, config, source, file);
        let b = children_check(cs, m, config, source, file);
        assert(b.take(c.len() as int) =~= c);
        assert(b.take(a.len() as int) =~= c.take(a.len() as int));
    }
}

/// What a child reports by itself is reported by the check of a subtree
/// whose root is not a definition.
proof fn lemma_child_report_in_tree(
    parent: SyntaxNode,
    pp: Option<SyntaxNode>,
    pn: Option<SyntaxNode>,
    i: int,
    d: DiagnosticView,
    config: Config,
    source: Seq<char>,
    file: Seq<char>,
)
    requires
        !is_definition_kind(parent.kind@),
        0 <= i < parent.children@.len(),
        node_check(
            parent.children@[i],
            prev_of(parent.children@, i),
            next_of(parent.children@, i),
            config,
            source,
            file,
        ).0.contains(d),
    ensures
        tree_check(parent, pp, pn, config, source, file).contains(d),
{
    let cs = parent.children@;
    let own = node_check(cs[i], prev_of(cs, i), next_of(cs, i), config, source, file).0;
    let j = choose|j: int| 0 <= j < own.len() && own[j] == d;
    let a = children_check(cs, i, config, source, file);
    let b = children_check(cs, i + 1, config, source, file);
    let t = tree_check(cs[i], prev_of(cs, i), next_of(cs, i), config, source, file);
    assert(t[j] == d);
    assert(b == a + t);
    assert(b[a.len() + j] == d);
    lemma_children_check_prefix(cs, i + 1, cs.len() as int, config, source, file);
    let full = children_check(cs, cs.len() as int, config, source, file);
    assert(full.take(b.len() as int)[a.len() + j] == d);
    assert(full[a.len() + j] == d);
    assert(tree_check(parent, pp, pn, config, source, file) == full);
}

/// Law: in a block of statements (the children of a node that is not a
/// definition, such as a module), a definition marked generated right after a
/// definition without a generate marker is reported: the check of the block
/// holds the orphan error for it.
pub proof fn law_orphan_reported_in_block(
    parent: SyntaxNode,
    pp: Option<SyntaxNode>,
    pn: Option<SyntaxNode>,
    i: int,
    tag: Option<Seq<char>>,
    config: Config,
    source: Seq<char>,
    file: Seq<char>,
)
    requires
        !is_definition_kind(parent.kind@),
        0 < i < parent.children@.len(),
        is_definition_kind(parent.children@[i].kind@),
        mark_of(node_text(parent.children@[i], source)) == Some(MarkView::Generated(tag)),
        is_definition_kind(parent.children@[i - 1].kind@),
        !(mark_of(node_text(parent.children@[i - 1], source)) matches Some(MarkView::Generate(_))),
    ensures
        tree_check(parent, pp, pn, config, source, file).contains(
            DiagnosticView {
                message: "Orphaned generated marker"@ + tag_suffix(tag)
                    + " without matching generate marker above"@,
                file: file,
                line: (parent.children@[i].start_row + 1) as usize,
                column: parent.children@[i].start_column,
                severity: Severity::Error,
                kind: DiagnosticKindView::GeneratedCodeWithoutGenerator,
            },
        ),
{
    let cs = parent.children@;
    law_orphaned_generated_reported(cs[i], cs[i - 1], tag, source, file);
    let d = generated_check(cs[i], Some(cs[i - 1]), tag, source, file)->0;
    let own = node_check(cs[i], prev_of(cs, i), next_of(cs, i), config, source, file).0;
    assert(own[0] == d);
    lemma_child_report_in_tree(parent, pp, pn, i, d, config, source, file);
}

/// Law: in a block of statements (the children of a node that is not a
/// definition), a generate node whose tag has rules and whose next sibling is
/// a definition with a generated marker (whatever its tag) that is not exactly
/// its copy with the same tag gets a fix in the check of the block, and that
/// fix replaces the sibling with the copy: it ends at the sibling's end.
pub proof fn law_stale_copy_fixed_in_block(
    parent: SyntaxNode,
    pp: Option<SyntaxNode>,
    pn: Option<SyntaxNode>,
    i: int,
    tag: Option<Seq<char>>,
    next_tag: Option<Seq<char>>,
    rules: Seq<RuleView>,
    config: Config,
    source: Seq<char>,
    file: Seq<char>,
)
    requires
        !is_definition_kind(parent.kind@),
        0 <= i && i + 1 < parent.children@.len(),
        is_definition_kind(parent.children@[i].kind@),
        mark_of(node_text(parent.children@[i], source)) == Some(MarkView::Generate(tag)),
        rules_for_tag(config, tag) == Some(rules),
        is_definition_kind(parent.children@[i + 1].kind@),
        mark_of(node_text(parent.children@[i + 1], source)) == Some(MarkView::Generated(next_tag)),
        !(next_tag == tag && node_text(parent.children@[i + 1], source) == generated_copy(
            node_text(parent.children@[i], source),
            rules,
        )),
    ensures
        exists|d: DiagnosticView|
            #[trigger] tree_check(parent, pp, pn, config, source, file).contains(d) && fix_of(d.kind)
                == Some(
                (
                    parent.children@[i].end_byte,
                    Some(parent.children@[i + 1].end_byte),
                    generated_copy(node_text(parent.children@[i], source), rules),
                    parent.children@[i].start_column,
                ),
            ),
{
    let cs = parent.children@;
    law_generate_fix_replaces_stale_copy(cs[i], Some(cs[i + 1]), tag, rules, source, file);
    let d = generate_check(cs[i], Some(cs[i + 1]), tag, rules, source, file)->0;
    let own = node_check(cs[i], prev_of(cs, i), next_of(cs, i), config, source, file).0;
    assert(own[0] == d);
    lemma_child_report_in_tree(parent, pp, pn, i, d, config, source, file);
}

/// Law: a marker without a tag uses the default rules; a marker whose tag no
/// inline target has gets no rules (it is reported instead).
pub proof fn law_marker_rules_without_target(config: Config, tag: Seq<char>)
    ensures
        rules_for_tag(config, None) == Some(effective_rules_from_defaults(config)),
        (forall|k: int|
            0 <= k < config.targets@.len() ==> !(#[trigger] config.targets@[k].variant matches TargetVariant::Inline {
                tag: u,
            } && u@ == tag)) ==> rules_for_tag(config, Some(tag)) is None,
{
    if forall|k: int|
        0 <= k < config.targets@.len() ==> !(#[trigger] config.targets@[k].variant matches TargetVariant::Inline {
            tag: u,
        } && u@ == tag) {
        lemma_no_target_found(config.targets@, tag, 0);
    }
}

/// No inline target with tag `tag` is found when none has it.
proof fn lemma_no_target_found(targets: Seq<Target>, tag: Seq<char>, j: int)
    requires
        0 <= j,
        forall|k: int|
            0 <= k < targets.len() ==> !(#[trigger] targets[k].variant matches TargetVariant::Inline {
                tag: u,
            } && u@ == tag),
    ensures
        find_target_from(targets, tag, j) is None,
    decreases targets.len() - j,
{
    if j < targets.len() {
        lemma_no_target_found(targets, tag, j + 1);
    }
}


} // verus!
