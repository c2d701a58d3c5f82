//! Heading nesting, idempotence, and the overall shape of results.

use lexical_hierarchy::symbols::LexicalHierarchy;
use lexical_hierarchy::symbols::LexicalKind;
use lexical_hierarchy::symbols::LexicalVarKind;
use lexical_hierarchy::symbols::LexicalScopeKind;
use lexical_hierarchy::syntax::SyntaxKind;
use lexical_hierarchy::syntax::SyntaxNode;
use lexical_hierarchy::worker::get_lexical_hierarchy;

fn leaf(kind: SyntaxKind, start: usize, end: usize, text: &str) -> SyntaxNode {
    SyntaxNode { kind, start, end, text: text.to_string(), children: Vec::new() }
}

fn inner(kind: SyntaxKind, start: usize, end: usize, children: Vec<SyntaxNode>) -> SyntaxNode {
    SyntaxNode { kind, start, end, text: String::new(), children }
}

fn heading(level: usize, start: usize, title: &str) -> SyntaxNode {
    let marker: String = std::iter::repeat('=').take(level).collect();
    let tstart = start + level + 1;
    let tend = tstart + title.len();
    inner(
        SyntaxKind::Heading,
        start,
        tend,
        vec![
            leaf(SyntaxKind::HeadingMarker, start, start + level, &marker),
            inner(
                SyntaxKind::Markup,
                tstart,
                tend,
                vec![leaf(SyntaxKind::Other, tstart, tend, title)],
            ),
        ],
    )
}

fn same_hier(a: &LexicalHierarchy, b: &LexicalHierarchy) -> bool {
    a.info.name == b.info.name && a.info.kind == b.info.kind && a.info.range == b.info.range
        && match (&a.children, &b.children) {
            (None, None) => true,
            (Some(x), Some(y)) => {
                x.len() == y.len() && x.iter().zip(y.iter()).all(|(p, q)| same_hier(p, q))
            }
            _ => false,
        }
}

#[test]
fn heading_levels_nest_by_depth() {
    let root = inner(
        SyntaxKind::Markup,
        0,
        100,
        vec![
            heading(1, 0, "one"),
            heading(2, 10, "two-a"),
            heading(2, 25, "two-b"),
            heading(1, 40, "one-b"),
            heading(3, 55, "three"),
        ],
    );
    let forest = get_lexical_hierarchy(&root, LexicalScopeKind::Symbol).unwrap();
    assert_eq!(forest.len(), 2);
    assert_eq!(forest[0].info.name, "one");
    assert_eq!(forest[0].info.kind, LexicalKind::Heading(1));
    let under_one = forest[0].children.as_ref().unwrap();
    assert_eq!(under_one.len(), 2);
    assert_eq!(under_one[0].info.name, "two-a");
    assert_eq!(under_one[0].info.kind, LexicalKind::Heading(2));
    assert!(under_one[0].children.is_none());
    assert_eq!(under_one[1].info.name, "two-b");
    assert!(under_one[1].children.is_none());
    assert_eq!(forest[1].info.name, "one-b");
    let under_one_b = forest[1].children.as_ref().unwrap();
    assert_eq!(under_one_b.len(), 1);
    assert_eq!(under_one_b[0].info.name, "three");
    assert_eq!(under_one_b[0].info.kind, LexicalKind::Heading(3));
}

#[test]
fn block_stops_heading_propagation() {
    // Under the coarse configuration a code block is an anonymous group; a
    // heading inside it must attach under the group, not under the heading
    // that precedes the block.
    let root = inner(
        SyntaxKind::Markup,
        0,
        60,
        vec![
            heading(1, 0, "top"),
            inner(SyntaxKind::CodeBlock, 10, 40, vec![heading(1, 12, "inner")]),
        ],
    );
    let forest = get_lexical_hierarchy(&root, LexicalScopeKind::Braced).unwrap();
    assert_eq!(forest.len(), 1);
    assert_eq!(forest[0].info.name, "top");
    let under_top = forest[0].children.as_ref().unwrap();
    assert_eq!(under_top.len(), 1);
    assert_eq!(under_top[0].info.kind, LexicalKind::Block);
    let in_block = under_top[0].children.as_ref().unwrap();
    assert_eq!(in_block.len(), 1);
    assert_eq!(in_block[0].info.name, "inner");
    assert_eq!(in_block[0].info.kind, LexicalKind::Heading(1));
}

#[test]
fn heading_depth_from_marker_length() {
    let root = inner(SyntaxKind::Markup, 0, 20, vec![heading(2, 0, "title")]);
    let forest = get_lexical_hierarchy(&root, LexicalScopeKind::Symbol).unwrap();
    assert_eq!(forest.len(), 1);
    assert_eq!(forest[0].info.kind, LexicalKind::Heading(2));
    // The range covers the whole heading construct, marker included.
    assert_eq!(forest[0].info.range.start, 0);
    assert_eq!(forest[0].info.range.end, 8);
}

#[test]
fn traversal_is_idempotent() {
    let root = inner(
        SyntaxKind::Markup,
        0,
        60,
        vec![
            heading(1, 0, "one"),
            leaf(SyntaxKind::Label, 10, 17, "<intro>"),
            heading(2, 20, "two"),
            inner(SyntaxKind::CodeBlock, 30, 40, Vec::new()),
        ],
    );
    let first = get_lexical_hierarchy(&root, LexicalScopeKind::Symbol).unwrap();
    let second = get_lexical_hierarchy(&root, LexicalScopeKind::Symbol).unwrap();
    assert_eq!(first.len(), second.len());
    assert!(first.iter().zip(second.iter()).all(|(a, b)| same_hier(a, b)));
    let braced_a = get_lexical_hierarchy(&root, LexicalScopeKind::Braced).unwrap();
    let braced_b = get_lexical_hierarchy(&root, LexicalScopeKind::Braced).unwrap();
    assert_eq!(braced_a.len(), braced_b.len());
    assert!(braced_a.iter().zip(braced_b.iter()).all(|(a, b)| same_hier(a, b)));
}

#[test]
fn empty_document_yields_empty_forest() {
    let root = inner(SyntaxKind::Markup, 0, 0, Vec::new());
    let forest = get_lexical_hierarchy(&root, LexicalScopeKind::Symbol).unwrap();
    assert!(forest.is_empty());
}

#[test]
fn whitespace_markers_never_surface() {
    // Whitespace marker frames are internal to the traversal: when one is
    // closed it vanishes, handing any pending children on, and no entry of
    // the marker kind ever reaches the result.
    let root = inner(SyntaxKind::Markup, 0, 1, vec![leaf(SyntaxKind::Space, 0, 1, " ")]);
    let forest = get_lexical_hierarchy(&root, LexicalScopeKind::Symbol).unwrap();
    assert!(forest.is_empty());
}

#[test]
fn top_level_entries_are_in_document_order() {
    let root = inner(
        SyntaxKind::Markup,
        0,
        30,
        vec![
            leaf(SyntaxKind::Space, 0, 1, " "),
            leaf(SyntaxKind::Label, 1, 6, "<l>"),
            leaf(SyntaxKind::Space, 6, 7, " "),
            heading(1, 7, "a"),
        ],
    );
    let forest = get_lexical_hierarchy(&root, LexicalScopeKind::Symbol).unwrap();
    assert_eq!(forest.len(), 2);
    assert_eq!(forest[0].info.kind, LexicalKind::Var(LexicalVarKind::Label));
    assert_eq!(forest[0].info.range.start, 1);
    assert_eq!(forest[1].info.kind, LexicalKind::Heading(1));
    assert_eq!(forest[1].info.range.start, 7);
    assert!(forest[0].info.range.start <= forest[1].info.range.start);
}

#[test]
fn reserved_roles_are_never_emitted() {
    let root = inner(
        SyntaxKind::Markup,
        0,
        60,
        vec![
            heading(1, 0, "one"),
            leaf(SyntaxKind::Label, 10, 17, "<intro>"),
            leaf(SyntaxKind::RefMarker, 18, 22, "@foo"),
            inner(SyntaxKind::CodeBlock, 30, 40, Vec::new()),
        ],
    );
    for sk in [LexicalScopeKind::Symbol, LexicalScopeKind::Braced] {
        let forest = get_lexical_hierarchy(&root, sk).unwrap();
        assert!(forest.iter().all(|h| no_reserved(h)));
    }
}

fn no_reserved(h: &LexicalHierarchy) -> bool {
    // Neither the reserved roles nor the internal whitespace marker may
    // ever appear in a result.
    let own = !matches!(
        h.info.kind,
        LexicalKind::Var(LexicalVarKind::ValRef)
            | LexicalKind::Var(LexicalVarKind::LabelRef)
            | LexicalKind::Var(LexicalVarKind::BibKey)
            | LexicalKind::Space
    );
    own && h.children.iter().flatten().all(|c| no_reserved(c))
}
