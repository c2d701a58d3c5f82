//! The all-or-nothing failure contract and the inertness of imports.

use lexical_hierarchy::symbols::IdentContext;
use lexical_hierarchy::symbols::LexicalInfo;
use lexical_hierarchy::symbols::LexicalKind;
use lexical_hierarchy::symbols::LexicalScopeKind;
use lexical_hierarchy::symbols::Span;
use lexical_hierarchy::symbols::TreeError;
use lexical_hierarchy::syntax::SyntaxKind;
use lexical_hierarchy::syntax::SyntaxNode;
use lexical_hierarchy::worker::get_lexical_hierarchy;
use lexical_hierarchy::worker::LexicalHierarchyWorker;

fn leaf(kind: SyntaxKind, start: usize, end: usize, text: &str) -> SyntaxNode {
    SyntaxNode { kind, start, end, text: text.to_string(), children: Vec::new() }
}

fn inner(kind: SyntaxKind, start: usize, end: usize, children: Vec<SyntaxNode>) -> SyntaxNode {
    SyntaxNode { kind, start, end, text: String::new(), children }
}

fn heading(level: usize, start: usize, title: &str) -> SyntaxNode {
    let marker: String = std::iter::repeat('=').take(level).collect();
    let tstart = start + level + 1;
    let tend = tstart + title.len();
    inner(
        SyntaxKind::Heading,
        start,
        tend,
        vec![
            leaf(SyntaxKind::HeadingMarker, start, start + level, &marker),
            inner(
                SyntaxKind::Markup,
                tstart,
                tend,
                vec![leaf(SyntaxKind::Other, tstart, tend, title)],
            ),
        ],
    )
}

#[test]
fn malformed_identifier_aborts_the_whole_call() {
    // An identifier kind tag on an inner node is a tree/shape mismatch; the
    // whole call yields no result, not a partial forest, even though a
    // heading was already collected before the bad node.
    let bad = inner(
        SyntaxKind::Ident,
        20,
        25,
        vec![leaf(SyntaxKind::Other, 20, 25, "deep")],
    );
    let root = inner(SyntaxKind::Markup, 0, 30, vec![heading(1, 0, "ok"), bad]);
    assert!(get_lexical_hierarchy(&root, LexicalScopeKind::Symbol).is_none());
}

#[test]
fn malformed_label_aborts_the_whole_call() {
    let bad = inner(SyntaxKind::Label, 0, 5, vec![leaf(SyntaxKind::Other, 0, 5, "<a>")]);
    let root = inner(SyntaxKind::Markup, 0, 10, vec![bad]);
    assert!(get_lexical_hierarchy(&root, LexicalScopeKind::Symbol).is_none());
}

#[test]
fn malformed_identifier_is_harmless_where_identifiers_do_not_participate() {
    // Under the coarse configuration the identifier is never cast, so the
    // same tree yields a (here empty) result.
    let bad = inner(
        SyntaxKind::Ident,
        0,
        5,
        vec![leaf(SyntaxKind::Other, 0, 5, "deep")],
    );
    let root = inner(SyntaxKind::Markup, 0, 10, vec![bad]);
    assert!(get_lexical_hierarchy(&root, LexicalScopeKind::Braced).is_some());
}

#[test]
fn the_walker_reports_the_shape_mismatch() {
    let mut worker = LexicalHierarchyWorker {
        sk: LexicalScopeKind::Symbol,
        stack: vec![(
            LexicalInfo {
                name: String::new(),
                kind: LexicalKind::Heading(-1),
                range: Span { start: 0, end: 0 },
            },
            Vec::new(),
        )],
        ident_context: IdentContext::Ref,
    };
    let bad = inner(SyntaxKind::Ident, 0, 5, vec![leaf(SyntaxKind::Other, 0, 5, "deep")]);
    let err = worker.check_node(&bad, None, 0).unwrap_err();
    assert_eq!(err, TreeError::ShapeMismatch);
    assert_eq!(err.message(), "cast to ast node failed");
}

#[test]
fn imports_contribute_nothing_under_symbol() {
    // The identifiers an import introduces are a closed reference boundary,
    // not locally declared symbols.
    let import = inner(
        SyntaxKind::ModuleImport,
        0,
        20,
        vec![
            leaf(SyntaxKind::OtherKeyword, 0, 6, "import"),
            leaf(SyntaxKind::OtherExpr, 7, 14, "\"a.typ\""),
            leaf(SyntaxKind::Colon, 14, 15, ":"),
            leaf(SyntaxKind::Ident, 16, 17, "a"),
            leaf(SyntaxKind::Comma, 17, 18, ","),
            leaf(SyntaxKind::Ident, 19, 20, "b"),
        ],
    );
    let root = inner(SyntaxKind::Markup, 0, 20, vec![import]);
    let forest = get_lexical_hierarchy(&root, LexicalScopeKind::Symbol).unwrap();
    assert!(forest.is_empty());
}

#[test]
fn imports_contribute_nothing_under_braced() {
    // Even children that would otherwise classify as groups add nothing.
    let import = inner(
        SyntaxKind::ModuleImport,
        0,
        20,
        vec![
            leaf(SyntaxKind::OtherKeyword, 0, 6, "import"),
            inner(SyntaxKind::Args, 7, 18, Vec::new()),
        ],
    );
    let root = inner(SyntaxKind::Markup, 0, 20, vec![import]);
    let forest = get_lexical_hierarchy(&root, LexicalScopeKind::Braced).unwrap();
    assert!(forest.is_empty());
}
