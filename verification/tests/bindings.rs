//! Let bindings, closures, for loops, and parameter naming.

use lexical_hierarchy::symbols::LexicalKind;
use lexical_hierarchy::symbols::LexicalScopeKind;
use lexical_hierarchy::symbols::LexicalVarKind;
use lexical_hierarchy::syntax::SyntaxKind;
use lexical_hierarchy::syntax::SyntaxNode;
use lexical_hierarchy::worker::get_lexical_hierarchy;

fn leaf(kind: SyntaxKind, start: usize, end: usize, text: &str) -> SyntaxNode {
    SyntaxNode { kind, start, end, text: text.to_string(), children: Vec::new() }
}

fn inner(kind: SyntaxKind, start: usize, end: usize, children: Vec<SyntaxNode>) -> SyntaxNode {
    SyntaxNode { kind, start, end, text: String::new(), children }
}

/// The tree of `let f(x) = { x }`: the parser wraps `f(x) = { x }` into one
/// closure node whose children are the name, the parameter list, and the
/// body.
fn function_binding() -> SyntaxNode {
    inner(
        SyntaxKind::Markup,
        0,
        17,
        vec![inner(
            SyntaxKind::LetBinding,
            0,
            17,
            vec![
                leaf(SyntaxKind::OtherKeyword, 0, 3, "let"),
                inner(
                    SyntaxKind::Closure,
                    4,
                    17,
                    vec![
                        leaf(SyntaxKind::Ident, 4, 5, "f"),
                        inner(
                            SyntaxKind::Params,
                            5,
                            8,
                            vec![
                                leaf(SyntaxKind::LeftParen, 5, 6, "("),
                                leaf(SyntaxKind::Ident, 6, 7, "x"),
                                leaf(SyntaxKind::Other, 7, 8, ")"),
                            ],
                        ),
                        leaf(SyntaxKind::Other, 9, 10, "="),
                        inner(
                            SyntaxKind::CodeBlock,
                            11,
                            17,
                            vec![
                                leaf(SyntaxKind::LeftBrace, 11, 12, "{"),
                                leaf(SyntaxKind::Ident, 13, 14, "x"),
                                leaf(SyntaxKind::Other, 15, 16, "}"),
                            ],
                        ),
                    ],
                ),
            ],
        )],
    )
}

#[test]
fn function_binding_yields_one_function_entry() {
    let forest = get_lexical_hierarchy(&function_binding(), LexicalScopeKind::Symbol).unwrap();
    assert_eq!(forest.len(), 1);
    assert_eq!(forest[0].info.name, "f");
    assert_eq!(forest[0].info.kind, LexicalKind::Var(LexicalVarKind::Function));
    // The range covers the whole closure, not just the name token.
    assert_eq!(forest[0].info.range.start, 4);
    assert_eq!(forest[0].info.range.end, 17);
    // The parameter `x` is not surfaced: parameter lists are skipped by the
    // closure rule.
    assert!(forest[0].children.is_none());
}

#[test]
fn function_binding_under_braced_yields_groups_only() {
    let forest = get_lexical_hierarchy(&function_binding(), LexicalScopeKind::Braced).unwrap();
    // Names do not participate at all: the parameter list and the body
    // block each become an anonymous group, and no function or variable
    // entry appears anywhere.
    assert_eq!(forest.len(), 2);
    assert_eq!(forest[0].info.kind, LexicalKind::Block);
    assert_eq!(forest[0].info.range.start, 5);
    assert_eq!(forest[0].info.range.end, 8);
    assert_eq!(forest[1].info.kind, LexicalKind::Block);
    assert_eq!(forest[1].info.range.start, 11);
    assert_eq!(forest[1].info.range.end, 17);
    assert!(forest.iter().all(|h| !matches!(h.info.kind, LexicalKind::Var(_))));
    assert!(forest.iter().all(|h| h.info.name.is_empty()));
}

#[test]
fn plain_binding_yields_variable() {
    // let y = 1
    let root = inner(
        SyntaxKind::Markup,
        0,
        9,
        vec![inner(
            SyntaxKind::LetBinding,
            0,
            9,
            vec![
                leaf(SyntaxKind::OtherKeyword, 0, 3, "let"),
                leaf(SyntaxKind::Ident, 4, 5, "y"),
                leaf(SyntaxKind::Other, 6, 7, "="),
                leaf(SyntaxKind::OtherExpr, 8, 9, "1"),
            ],
        )],
    );
    let forest = get_lexical_hierarchy(&root, LexicalScopeKind::Symbol).unwrap();
    assert_eq!(forest.len(), 1);
    assert_eq!(forest[0].info.name, "y");
    assert_eq!(forest[0].info.kind, LexicalKind::Var(LexicalVarKind::Variable));
    assert_eq!(forest[0].info.range.start, 4);
    assert_eq!(forest[0].info.range.end, 5);
}

#[test]
fn anonymous_closure_is_named_so() {
    // (x) => x, with no leading identifier.
    let root = inner(
        SyntaxKind::Markup,
        0,
        8,
        vec![inner(
            SyntaxKind::Closure,
            0,
            8,
            vec![
                inner(
                    SyntaxKind::Params,
                    0,
                    3,
                    vec![
                        leaf(SyntaxKind::LeftParen, 0, 1, "("),
                        leaf(SyntaxKind::Ident, 1, 2, "x"),
                        leaf(SyntaxKind::Other, 2, 3, ")"),
                    ],
                ),
                leaf(SyntaxKind::Other, 4, 6, "=>"),
                leaf(SyntaxKind::Ident, 7, 8, "x"),
            ],
        )],
    );
    let forest = get_lexical_hierarchy(&root, LexicalScopeKind::Symbol).unwrap();
    assert_eq!(forest.len(), 1);
    assert_eq!(forest[0].info.name, "anonymous");
    assert_eq!(forest[0].info.kind, LexicalKind::Var(LexicalVarKind::Function));
    assert_eq!(forest[0].info.range.start, 0);
    assert_eq!(forest[0].info.range.end, 8);
}

#[test]
fn for_loop_declares_its_pattern() {
    // for i in xs { i }
    let root = inner(
        SyntaxKind::Markup,
        0,
        17,
        vec![inner(
            SyntaxKind::ForLoop,
            0,
            17,
            vec![
                leaf(SyntaxKind::OtherKeyword, 0, 3, "for"),
                leaf(SyntaxKind::Ident, 4, 5, "i"),
                leaf(SyntaxKind::In, 6, 8, "in"),
                leaf(SyntaxKind::Ident, 9, 11, "xs"),
                leaf(SyntaxKind::Ident, 13, 14, "i"),
            ],
        )],
    );
    let forest = get_lexical_hierarchy(&root, LexicalScopeKind::Symbol).unwrap();
    // The iterable and the body are walked as plain references; only the
    // loop pattern declares a name.
    assert_eq!(forest.len(), 1);
    assert_eq!(forest[0].info.name, "i");
    assert_eq!(forest[0].info.kind, LexicalKind::Var(LexicalVarKind::Variable));
    assert_eq!(forest[0].info.range.start, 4);
}

#[test]
fn named_pair_in_params_declares_default_parameter() {
    // (x: 1) as a parameter list: the key of the named pair declares the
    // parameter, the value stays a reference.
    let root = inner(
        SyntaxKind::Markup,
        0,
        6,
        vec![inner(
            SyntaxKind::Params,
            0,
            6,
            vec![
                leaf(SyntaxKind::LeftParen, 0, 1, "("),
                inner(
                    SyntaxKind::Named,
                    1,
                    5,
                    vec![
                        leaf(SyntaxKind::Ident, 1, 2, "x"),
                        leaf(SyntaxKind::Colon, 2, 3, ":"),
                        leaf(SyntaxKind::OtherExpr, 4, 5, "1"),
                    ],
                ),
                leaf(SyntaxKind::Other, 5, 6, ")"),
            ],
        )],
    );
    let forest = get_lexical_hierarchy(&root, LexicalScopeKind::Symbol).unwrap();
    assert_eq!(forest.len(), 1);
    assert_eq!(forest[0].info.name, "x");
    assert_eq!(forest[0].info.kind, LexicalKind::Var(LexicalVarKind::Variable));
}

#[test]
fn named_pair_value_takes_ambient_context() {
    // (x: y) as a parameter list: the value is walked under the ambient
    // parameter context, so an identifier value declares a name just as the
    // key does.
    let root = inner(
        SyntaxKind::Markup,
        0,
        6,
        vec![inner(
            SyntaxKind::Params,
            0,
            6,
            vec![
                leaf(SyntaxKind::LeftParen, 0, 1, "("),
                inner(
                    SyntaxKind::Named,
                    1,
                    5,
                    vec![
                        leaf(SyntaxKind::Ident, 1, 2, "x"),
                        leaf(SyntaxKind::Colon, 2, 3, ":"),
                        leaf(SyntaxKind::Ident, 4, 5, "y"),
                    ],
                ),
                leaf(SyntaxKind::Other, 5, 6, ")"),
            ],
        )],
    );
    let forest = get_lexical_hierarchy(&root, LexicalScopeKind::Symbol).unwrap();
    assert_eq!(forest.len(), 2);
    assert_eq!(forest[0].info.name, "y");
    assert_eq!(forest[0].info.kind, LexicalKind::Var(LexicalVarKind::Variable));
    assert_eq!(forest[1].info.name, "x");
    assert_eq!(forest[1].info.kind, LexicalKind::Var(LexicalVarKind::Variable));
}

#[test]
fn field_access_base_takes_ambient_context() {
    // A field-access pattern in a for loop: the accessed base is walked
    // under the ambient binding context, so the base identifier declares a
    // name; the field name itself never does.
    let root = inner(
        SyntaxKind::Markup,
        0,
        20,
        vec![inner(
            SyntaxKind::ForLoop,
            0,
            20,
            vec![
                leaf(SyntaxKind::OtherKeyword, 0, 3, "for"),
                inner(
                    SyntaxKind::FieldAccess,
                    4,
                    7,
                    vec![
                        leaf(SyntaxKind::Ident, 4, 5, "a"),
                        leaf(SyntaxKind::Other, 5, 6, "."),
                        leaf(SyntaxKind::Ident, 6, 7, "b"),
                    ],
                ),
                leaf(SyntaxKind::In, 8, 10, "in"),
                leaf(SyntaxKind::Ident, 11, 13, "xs"),
            ],
        )],
    );
    let forest = get_lexical_hierarchy(&root, LexicalScopeKind::Symbol).unwrap();
    assert_eq!(forest.len(), 1);
    assert_eq!(forest[0].info.name, "a");
    assert_eq!(forest[0].info.kind, LexicalKind::Var(LexicalVarKind::Variable));
}

#[test]
fn named_pair_outside_params_declares_nothing() {
    let root = inner(
        SyntaxKind::Markup,
        0,
        6,
        vec![inner(
            SyntaxKind::Named,
            1,
            5,
            vec![
                leaf(SyntaxKind::Ident, 1, 2, "x"),
                leaf(SyntaxKind::Colon, 2, 3, ":"),
                leaf(SyntaxKind::OtherExpr, 4, 5, "1"),
            ],
        )],
    );
    let forest = get_lexical_hierarchy(&root, LexicalScopeKind::Symbol).unwrap();
    assert!(forest.is_empty());
}
