//! The leaf classifier: labels, identifiers, and anonymous groups under the
//! two configurations.

use lexical_hierarchy::symbols::LexicalKind;
use lexical_hierarchy::symbols::LexicalScopeKind;
use lexical_hierarchy::symbols::LexicalVarKind;
use lexical_hierarchy::syntax::SyntaxKind;
use lexical_hierarchy::syntax::SyntaxNode;
use lexical_hierarchy::worker::get_lexical_hierarchy;

fn leaf(kind: SyntaxKind, start: usize, end: usize, text: &str) -> SyntaxNode {
    SyntaxNode { kind, start, end, text: text.to_string(), children: Vec::new() }
}

fn inner(kind: SyntaxKind, start: usize, end: usize, children: Vec<SyntaxNode>) -> SyntaxNode {
    SyntaxNode { kind, start, end, text: String::new(), children }
}

#[test]
fn label_declares_an_anchor() {
    let root = inner(
        SyntaxKind::Markup,
        0,
        7,
        vec![leaf(SyntaxKind::Label, 0, 7, "<intro>")],
    );
    let forest = get_lexical_hierarchy(&root, LexicalScopeKind::Symbol).unwrap();
    assert_eq!(forest.len(), 1);
    // The angle brackets are stripped from the name.
    assert_eq!(forest[0].info.name, "intro");
    assert_eq!(forest[0].info.kind, LexicalKind::Var(LexicalVarKind::Label));
    assert_eq!(forest[0].info.range.start, 0);
    assert_eq!(forest[0].info.range.end, 7);
}

#[test]
fn label_after_opening_bracket_is_a_value() {
    // Inside `(<a>`, the label text is being used as a value, not declared
    // as an anchor: the preceding sibling filters it out.
    let root = inner(
        SyntaxKind::Markup,
        0,
        5,
        vec![
            leaf(SyntaxKind::LeftParen, 0, 1, "("),
            leaf(SyntaxKind::Label, 1, 4, "<a>"),
        ],
    );
    let forest = get_lexical_hierarchy(&root, LexicalScopeKind::Symbol).unwrap();
    assert!(forest.is_empty());
}

#[test]
fn label_filter_skips_trivia_between_siblings() {
    // The filter looks at the nearest non-trivia sibling: a space between
    // the comma and the label does not hide the comma.
    let root = inner(
        SyntaxKind::Markup,
        0,
        6,
        vec![
            leaf(SyntaxKind::Comma, 0, 1, ","),
            leaf(SyntaxKind::Space, 1, 2, " "),
            leaf(SyntaxKind::Label, 2, 5, "<a>"),
        ],
    );
    let forest = get_lexical_hierarchy(&root, LexicalScopeKind::Symbol).unwrap();
    assert!(forest.is_empty());
}

#[test]
fn label_after_keyword_is_a_value() {
    let root = inner(
        SyntaxKind::Markup,
        0,
        6,
        vec![
            leaf(SyntaxKind::In, 0, 2, "in"),
            leaf(SyntaxKind::Label, 3, 6, "<a>"),
        ],
    );
    let forest = get_lexical_hierarchy(&root, LexicalScopeKind::Symbol).unwrap();
    assert!(forest.is_empty());
}

#[test]
fn labels_are_suppressed_under_braced() {
    let root = inner(
        SyntaxKind::Markup,
        0,
        7,
        vec![leaf(SyntaxKind::Label, 0, 7, "<intro>")],
    );
    let forest = get_lexical_hierarchy(&root, LexicalScopeKind::Braced).unwrap();
    assert!(forest.is_empty());
}

#[test]
fn plain_reference_is_not_a_symbol() {
    // An identifier in the default reference context is not surfaced.
    let root = inner(
        SyntaxKind::Markup,
        0,
        3,
        vec![leaf(SyntaxKind::Ident, 0, 3, "abc")],
    );
    let forest = get_lexical_hierarchy(&root, LexicalScopeKind::Symbol).unwrap();
    assert!(forest.is_empty());
}

#[test]
fn equation_raw_and_block_comment_group_under_braced() {
    let root = inner(
        SyntaxKind::Markup,
        0,
        30,
        vec![
            inner(SyntaxKind::Equation, 0, 5, Vec::new()),
            inner(SyntaxKind::Raw, 6, 12, Vec::new()),
            leaf(SyntaxKind::BlockComment, 13, 20, "/* c */"),
        ],
    );
    let braced = get_lexical_hierarchy(&root, LexicalScopeKind::Braced).unwrap();
    assert_eq!(braced.len(), 3);
    assert!(braced.iter().all(|h| h.info.kind == LexicalKind::Block));
    assert!(braced.iter().all(|h| h.info.name.is_empty()));
    // Under the fine-grained configuration none of these participates.
    let symbol = get_lexical_hierarchy(&root, LexicalScopeKind::Symbol).unwrap();
    assert!(symbol.is_empty());
}

#[test]
fn bracketed_groups_under_braced() {
    let root = inner(
        SyntaxKind::Markup,
        0,
        30,
        vec![
            inner(SyntaxKind::Parenthesized, 0, 4, Vec::new()),
            inner(SyntaxKind::Array, 5, 9, Vec::new()),
            inner(SyntaxKind::Dict, 10, 14, Vec::new()),
            inner(SyntaxKind::Args, 15, 19, Vec::new()),
            inner(SyntaxKind::Destructuring, 20, 24, Vec::new()),
            inner(SyntaxKind::Params, 25, 29, Vec::new()),
        ],
    );
    let braced = get_lexical_hierarchy(&root, LexicalScopeKind::Braced).unwrap();
    assert_eq!(braced.len(), 6);
    assert!(braced.iter().all(|h| h.info.kind == LexicalKind::Block));
    let symbol = get_lexical_hierarchy(&root, LexicalScopeKind::Symbol).unwrap();
    assert!(symbol.is_empty());
}

#[test]
fn heading_depth_is_clamped_to_the_representable_range() {
    let marker: String = std::iter::repeat('=').take(40000).collect();
    let root = inner(
        SyntaxKind::Markup,
        0,
        40010,
        vec![inner(
            SyntaxKind::Heading,
            0,
            40008,
            vec![
                leaf(SyntaxKind::HeadingMarker, 0, 40000, &marker),
                inner(
                    SyntaxKind::Markup,
                    40001,
                    40008,
                    vec![leaf(SyntaxKind::Other, 40001, 40008, "deepest")],
                ),
            ],
        )],
    );
    let forest = get_lexical_hierarchy(&root, LexicalScopeKind::Symbol).unwrap();
    assert_eq!(forest.len(), 1);
    assert_eq!(forest[0].info.kind, LexicalKind::Heading(32767));
}

#[test]
fn empty_heading_title_is_not_a_symbol() {
    // A heading whose markup has no text yields nothing.
    let root = inner(
        SyntaxKind::Markup,
        0,
        2,
        vec![inner(
            SyntaxKind::Heading,
            0,
            1,
            vec![
                leaf(SyntaxKind::HeadingMarker, 0, 1, "="),
                inner(SyntaxKind::Markup, 1, 1, Vec::new()),
            ],
        )],
    );
    let forest = get_lexical_hierarchy(&root, LexicalScopeKind::Symbol).unwrap();
    assert!(forest.is_empty());
}

#[test]
fn heading_name_concatenates_subtree_text() {
    let root = inner(
        SyntaxKind::Markup,
        0,
        10,
        vec![inner(
            SyntaxKind::Heading,
            0,
            10,
            vec![
                leaf(SyntaxKind::HeadingMarker, 0, 1, "="),
                inner(
                    SyntaxKind::Markup,
                    2,
                    10,
                    vec![
                        leaf(SyntaxKind::Other, 2, 4, "My"),
                        leaf(SyntaxKind::Space, 4, 5, " "),
                        leaf(SyntaxKind::Other, 5, 10, "Title"),
                    ],
                ),
            ],
        )],
    );
    let forest = get_lexical_hierarchy(&root, LexicalScopeKind::Symbol).unwrap();
    assert_eq!(forest.len(), 1);
    assert_eq!(forest[0].info.name, "My Title");
    assert_eq!(forest[0].info.kind, LexicalKind::Heading(1));
}
