//! The syntax tree that the outline analysis walks.
//!
//! The tree is produced by an external parser and is immutable here. A node
//! carries a kind tag, a byte range, the literal text of its token when it is
//! a leaf, and its child nodes in document order. Token kinds (labels,
//! identifiers) are expected to be leaves: their typed view is their literal
//! text, and the view exists only for a leaf. An inner node that carries a
//! token kind tag is the tree/shape inconsistency that aborts the analysis.

use vstd::prelude::*;

verus! {

use vstd::string::StrSliceExecFns;
use vstd::string::StringExecFns;

/// A kind tag of a syntax tree node, as far as the outline analysis
/// distinguishes them. Kinds that the analysis treats alike are folded into
/// the residual variants: `OtherExpr` for any further expression kind,
/// `OtherKeyword` for any further keyword token, `OtherTrivia` for any
/// further trivia token, and `Other` for everything else.
#[derive(Clone, Copy, PartialEq, Eq, Structural, Debug)]
pub enum SyntaxKind {
    /// A markup run; the body of a document, a heading, or a content block.
    Markup,
    /// Whitespace without a blank line.
    Space,
    /// A blank line separating paragraphs.
    Parbreak,
    /// A line comment token.
    LineComment,
    /// A block comment token.
    BlockComment,
    /// Any further trivia token.
    OtherTrivia,
    /// A label token, `<name>`.
    Label,
    /// An identifier token.
    Ident,
    /// A heading construct.
    Heading,
    /// The marker token opening a heading; its length is the heading depth.
    HeadingMarker,
    /// A mathematical equation.
    Equation,
    /// A raw text block.
    Raw,
    /// A code block, `{ .. }`.
    CodeBlock,
    /// A content block, `[ .. ]`.
    ContentBlock,
    /// A parenthesized expression.
    Parenthesized,
    /// A destructuring pattern.
    Destructuring,
    /// An argument list.
    Args,
    /// An array literal.
    Array,
    /// A dictionary literal.
    Dict,
    /// A let binding.
    LetBinding,
    /// A for loop.
    ForLoop,
    /// A closure or function definition.
    Closure,
    /// A parameter list of a closure.
    Params,
    /// A field access, `base.field`.
    FieldAccess,
    /// A named pair, `key: value`.
    Named,
    /// A module import statement.
    ModuleImport,
    /// A reference marker token, `@name`.
    RefMarker,
    /// The `in` keyword of a for loop.
    In,
    /// A literal keyword: a keyword token that is also an expression.
    KeywordLiteral,
    /// Any further keyword token.
    OtherKeyword,
    /// An opening bracket token.
    LeftBracket,
    /// An opening brace token.
    LeftBrace,
    /// An opening parenthesis token.
    LeftParen,
    /// A comma token.
    Comma,
    /// A colon token.
    Colon,
    /// An underscore pattern token.
    Underscore,
    /// An error-recovery node.
    Error,
    /// Any further expression kind.
    OtherExpr,
    /// Anything else.
    Other,
}

impl SyntaxKind {
    /// Whether this kind is trivia: whitespace and comments.
    pub open spec fn is_trivia_spec(self) -> bool {
        matches!(
            self,
            SyntaxKind::Space
                | SyntaxKind::Parbreak
                | SyntaxKind::LineComment
                | SyntaxKind::BlockComment
                | SyntaxKind::OtherTrivia
        )
    }

    /// Whether this kind is trivia: whitespace and comments.
    pub fn is_trivia(self) -> (r: bool)
        ensures
            r == self.is_trivia_spec(),
    {
        matches!(
            self,
            SyntaxKind::Space
                | SyntaxKind::Parbreak
                | SyntaxKind::LineComment
                | SyntaxKind::BlockComment
                | SyntaxKind::OtherTrivia
        )
    }

    /// Whether this kind is a keyword token.
    pub open spec fn is_keyword_spec(self) -> bool {
        matches!(self, SyntaxKind::In | SyntaxKind::KeywordLiteral | SyntaxKind::OtherKeyword)
    }

    /// Whether this kind is a keyword token.
    pub fn is_keyword(self) -> (r: bool)
        ensures
            r == self.is_keyword_spec(),
    {
        matches!(self, SyntaxKind::In | SyntaxKind::KeywordLiteral | SyntaxKind::OtherKeyword)
    }

    /// Whether this kind is an error-recovery node.
    pub open spec fn is_error_spec(self) -> bool {
        matches!(self, SyntaxKind::Error)
    }

    /// Whether this kind is an error-recovery node.
    pub fn is_error(self) -> (r: bool)
        ensures
            r == self.is_error_spec(),
    {
        matches!(self, SyntaxKind::Error)
    }

    /// Whether a node of this kind has an expression view: the kinds a
    /// typed cast to an expression shape accepts.
    pub open spec fn is_expr_spec(self) -> bool {
        matches!(
            self,
            SyntaxKind::Parbreak
                | SyntaxKind::Label
                | SyntaxKind::Ident
                | SyntaxKind::Heading
                | SyntaxKind::Equation
                | SyntaxKind::Raw
                | SyntaxKind::CodeBlock
                | SyntaxKind::ContentBlock
                | SyntaxKind::Parenthesized
                | SyntaxKind::Array
                | SyntaxKind::Dict
                | SyntaxKind::FieldAccess
                | SyntaxKind::Closure
                | SyntaxKind::LetBinding
                | SyntaxKind::ForLoop
                | SyntaxKind::ModuleImport
                | SyntaxKind::KeywordLiteral
                | SyntaxKind::OtherExpr
        )
    }

    /// Whether a node of this kind has an expression view.
    pub fn is_expr(self) -> (r: bool)
        ensures
            r == self.is_expr_spec(),
    {
        matches!(
            self,
            SyntaxKind::Parbreak
                | SyntaxKind::Label
                | SyntaxKind::Ident
                | SyntaxKind::Heading
                | SyntaxKind::Equation
                | SyntaxKind::Raw
                | SyntaxKind::CodeBlock
                | SyntaxKind::ContentBlock
                | SyntaxKind::Parenthesized
                | SyntaxKind::Array
                | SyntaxKind::Dict
                | SyntaxKind::FieldAccess
                | SyntaxKind::Closure
                | SyntaxKind::LetBinding
                | SyntaxKind::ForLoop
                | SyntaxKind::ModuleImport
                | SyntaxKind::KeywordLiteral
                | SyntaxKind::OtherExpr
        )
    }

    /// Whether a node of this kind has a pattern view: a placeholder, a
    /// parenthesized or destructuring pattern, or any expression.
    pub open spec fn is_pattern_spec(self) -> bool {
        matches!(
            self,
            SyntaxKind::Underscore | SyntaxKind::Parenthesized | SyntaxKind::Destructuring
        ) || self.is_expr_spec()
    }

    /// Whether a node of this kind has a pattern view.
    pub fn is_pattern(self) -> (r: bool)
        ensures
            r == self.is_pattern_spec(),
    {
        matches!(
            self,
            SyntaxKind::Underscore | SyntaxKind::Parenthesized | SyntaxKind::Destructuring
        ) || self.is_expr()
    }
}

/// An immutable syntax tree node.
pub struct SyntaxNode {
    /// The kind tag.
    pub kind: SyntaxKind,
    /// The byte offset where the node starts.
    pub start: usize,
    /// The byte offset where the node ends.
    pub end: usize,
    /// The literal text of a leaf token; empty for inner nodes.
    pub text: String,
    /// The child nodes in document order; empty for leaf tokens.
    pub children: Vec<SyntaxNode>,
}

impl SyntaxNode {
    /// A leaf node is a token: it has no children, and its typed views (a
    /// label's or an identifier's text) exist.
    pub open spec fn is_leaf(self) -> bool {
        self.children@.len() == 0
    }
}

/// The text of a subtree: a leaf's own text, or the concatenation of the
/// children's texts for an inner node.
pub open spec fn spec_subtree_text(n: SyntaxNode) -> Seq<char>
    decreases n,
{
    if n.children@.len() == 0 {
        n.text@
    } else {
        spec_children_text(n.children@, n.children@.len() as int)
    }
}

/// The concatenated text of the first `upto` subtrees of `s`.
pub open spec fn spec_children_text(s: Seq<SyntaxNode>, upto: int) -> Seq<char>
    decreases s, upto,
{
    if upto <= 0 || upto > s.len() {
        Seq::empty()
    } else {
        spec_children_text(s, upto - 1) + spec_subtree_text(s[upto - 1])
    }
}

/// Builds the text of a subtree.
pub fn subtree_text(n: &SyntaxNode) -> (r: String)
    ensures
        r@ == spec_subtree_text(*n),
    decreases *n,
{
    if n.children.len() == 0 {
        return n.text.clone();
    }
    let mut out = String::new();
    let mut i: usize = 0;
    while i < n.children.len()
        invariant
            i <= n.children@.len(),
            out@ == spec_children_text(n.children@, i as int),
        decreases n.children@.len() - i,
    {
        let part = subtree_text(&n.children[i]);
        out.append(part.as_str());
        i = i + 1;
    }
    out
}

/// The index of the first node at or after `from` whose kind is `k`.
pub open spec fn spec_first_kind_idx(s: Seq<SyntaxNode>, k: SyntaxKind, from: int) -> Option<int>
    decreases s.len() - from,
{
    if from < 0 || from >= s.len() {
        None
    } else if s[from].kind == k {
        Some(from)
    } else {
        spec_first_kind_idx(s, k, from + 1)
    }
}

/// Finds the first child at or after `from` whose kind is `k`.
pub fn find_first_kind(children: &Vec<SyntaxNode>, k: SyntaxKind, from: usize) -> (r: Option<
    usize,
>)
    ensures
        match r {
            Some(i) => i < children@.len() && spec_first_kind_idx(children@, k, from as int)
                == Some(i as int),
            None => spec_first_kind_idx(children@, k, from as int) is None,
        },
{
    let mut i: usize = from;
    while i < children.len()
        invariant
            from <= i,
            spec_first_kind_idx(children@, k, from as int) == spec_first_kind_idx(
                children@,
                k,
                i as int,
            ),
        decreases children@.len() - i,
    {
        if children[i].kind == k {
            return Some(i);
        }
        i = i + 1;
    }
    None
}

/// The index of the first node at or after `from` that has an expression
/// view.
pub open spec fn spec_first_expr_idx(s: Seq<SyntaxNode>, from: int) -> Option<int>
    decreases s.len() - from,
{
    if from < 0 || from >= s.len() {
        None
    } else if s[from].kind.is_expr_spec() {
        Some(from)
    } else {
        spec_first_expr_idx(s, from + 1)
    }
}

/// Finds the first child at or after `from` that has an expression view.
pub fn find_first_expr(children: &Vec<SyntaxNode>, from: usize) -> (r: Option<usize>)
    ensures
        match r {
            Some(i) => i < children@.len() && spec_first_expr_idx(children@, from as int) == Some(
                i as int,
            ),
            None => spec_first_expr_idx(children@, from as int) is None,
        },
{
    let mut i: usize = from;
    while i < children.len()
        invariant
            from <= i,
            spec_first_expr_idx(children@, from as int) == spec_first_expr_idx(
                children@,
                i as int,
            ),
        decreases children@.len() - i,
    {
        if children[i].kind.is_expr() {
            return Some(i);
        }
        i = i + 1;
    }
    None
}

/// The index of the last node before `upto` that has an expression view.
pub open spec fn spec_last_expr_idx(s: Seq<SyntaxNode>, upto: int) -> Option<int>
    decreases upto,
{
    if upto <= 0 || upto > s.len() {
        None
    } else if s[upto - 1].kind.is_expr_spec() {
        Some(upto - 1)
    } else {
        spec_last_expr_idx(s, upto - 1)
    }
}

/// Finds the last child that has an expression view.
pub fn find_last_expr(children: &Vec<SyntaxNode>) -> (r: Option<usize>)
    ensures
        match r {
            Some(i) => i < children@.len() && spec_last_expr_idx(
                children@,
                children@.len() as int,
            ) == Some(i as int),
            None => spec_last_expr_idx(children@, children@.len() as int) is None,
        },
{
    let mut i: usize = children.len();
    while i > 0
        invariant
            i <= children@.len(),
            spec_last_expr_idx(children@, children@.len() as int) == spec_last_expr_idx(
                children@,
                i as int,
            ),
        decreases i,
    {
        if children[i - 1].kind.is_expr() {
            return Some(i - 1);
        }
        i = i - 1;
    }
    None
}

/// The index of the first node at or after `from` that has a pattern view.
pub open spec fn spec_first_pattern_idx(s: Seq<SyntaxNode>, from: int) -> Option<int>
    decreases s.len() - from,
{
    if from < 0 || from >= s.len() {
        None
    } else if s[from].kind.is_pattern_spec() {
        Some(from)
    } else {
        spec_first_pattern_idx(s, from + 1)
    }
}

/// Finds the first child at or after `from` that has a pattern view.
pub fn find_first_pattern(children: &Vec<SyntaxNode>, from: usize) -> (r: Option<usize>)
    ensures
        match r {
            Some(i) => i < children@.len() && spec_first_pattern_idx(children@, from as int)
                == Some(i as int),
            None => spec_first_pattern_idx(children@, from as int) is None,
        },
{
    let mut i: usize = from;
    while i < children.len()
        invariant
            from <= i,
            spec_first_pattern_idx(children@, from as int) == spec_first_pattern_idx(
                children@,
                i as int,
            ),
        decreases children@.len() - i,
    {
        if children[i].kind.is_pattern() {
            return Some(i);
        }
        i = i + 1;
    }
    None
}

/// The kind of the nearest non-trivia sibling before index `idx`, if any.
pub open spec fn spec_prev_nontrivia_kind(s: Seq<SyntaxNode>, idx: int) -> Option<SyntaxKind>
    decreases idx,
{
    if idx <= 0 || idx > s.len() {
        None
    } else if !s[idx - 1].kind.is_trivia_spec() {
        Some(s[idx - 1].kind)
    } else {
        spec_prev_nontrivia_kind(s, idx - 1)
    }
}

/// Finds the kind of the nearest non-trivia sibling before index `idx`.
pub fn prev_nontrivia_kind(children: &Vec<SyntaxNode>, idx: usize) -> (r: Option<SyntaxKind>)
    ensures
        r == spec_prev_nontrivia_kind(children@, idx as int),
{
    if idx > children.len() {
        return None;
    }
    let mut j: usize = idx;
    while j > 0
        invariant
            j <= children@.len(),
            spec_prev_nontrivia_kind(children@, idx as int) == spec_prev_nontrivia_kind(
                children@,
                j as int,
            ),
        decreases j,
    {
        if !children[j - 1].kind.is_trivia() {
            return Some(children[j - 1].kind);
        }
        j = j - 1;
    }
    None
}

/// The depth a heading construct declares: the length of the text of its
/// first marker child, clamped to the representable range, or 1 when no
/// marker child is present.
pub open spec fn spec_heading_depth(h: SyntaxNode) -> i16 {
    match spec_first_kind_idx(h.children@, SyntaxKind::HeadingMarker, 0) {
        None => 1i16,
        Some(i) => {
            let l = h.children@[i].text@.len();
            if l == 0 {
                1i16
            } else if l > 32767 {
                32767i16
            } else {
                l as i16
            }
        },
    }
}

/// Computes the depth a heading construct declares.
pub fn heading_depth(h: &SyntaxNode) -> (r: i16)
    ensures
        r == spec_heading_depth(*h),
{
    match find_first_kind(&h.children, SyntaxKind::HeadingMarker, 0) {
        None => 1,
        Some(i) => {
            let l = h.children[i].text.as_str().unicode_len();
            if l == 0 {
                1
            } else if l > 32767 {
                32767
            } else {
                l as i16
            }
        },
    }
}

/// The text of a label token with the enclosing angle brackets removed:
/// every leading `<` and every trailing `>` is dropped.
pub open spec fn spec_trim_leading_lt(s: Seq<char>) -> Seq<char>
    decreases s.len(),
{
    if s.len() > 0 && s[0] == '<' {
        spec_trim_leading_lt(s.drop_first())
    } else {
        s
    }
}

/// Drops every trailing `>` of a character sequence.
pub open spec fn spec_trim_trailing_gt(s: Seq<char>) -> Seq<char>
    decreases s.len(),
{
    if s.len() > 0 && s.last() == '>' {
        spec_trim_trailing_gt(s.drop_last())
    } else {
        s
    }
}

/// The name a label token declares: its text without the angle brackets.
pub open spec fn spec_label_name(s: Seq<char>) -> Seq<char> {
    spec_trim_trailing_gt(spec_trim_leading_lt(s))
}

/// Computes the name a label token declares.
pub fn label_name(text: &str) -> (r: String)
    ensures
        r@ == spec_label_name(text@),
{
    let n = text.unicode_len();
    proof {
        assert(text@.skip(0) =~= text@);
    }
    let mut i: usize = 0;
    while i < n && text.get_char(i) == '<'
        invariant
            i <= n,
            n == text@.len(),
            spec_trim_leading_lt(text@) == spec_trim_leading_lt(text@.skip(i as int)),
        decreases n - i,
    {
        proof {
            assert(text@.skip(i as int).drop_first() =~= text@.skip(i as int + 1));
        }
        i = i + 1;
    }
    proof {
        assert(spec_trim_leading_lt(text@.skip(i as int)) == text@.skip(i as int));
    }
    proof {
        assert(text@.subrange(i as int, n as int) =~= text@.skip(i as int));
    }
    let mut j: usize = n;
    while j > i && text.get_char(j - 1) == '>'
        invariant
            i <= j,
            j <= n,
            n == text@.len(),
            spec_trim_leading_lt(text@) == text@.skip(i as int),
            spec_trim_trailing_gt(text@.skip(i as int)) == spec_trim_trailing_gt(
                text@.subrange(i as int, j as int),
            ),
        decreases j,
    {
        proof {
            assert(text@.subrange(i as int, j as int).drop_last() =~= text@.subrange(
                i as int,
                j as int - 1,
            ));
            assert(text@.subrange(i as int, j as int).last() == text@[j as int - 1]);
        }
        j = j - 1;
    }
    proof {
        assert(spec_trim_trailing_gt(text@.subrange(i as int, j as int)) == text@.subrange(
            i as int,
            j as int,
        ));
    }
    String::from_str(text.substring_char(i, j))
}

} // verus!
