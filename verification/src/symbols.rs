//! The symbol entries the analysis produces, and their mathematical views.

use vstd::prelude::*;

verus! {

/// The role of a name in the document.
#[derive(Debug, Clone, Copy, Hash, PartialEq, Eq, Structural)]
pub enum LexicalVarKind {
    /// `#foo`
    ///   ^^^
    ValRef,
    /// `@foo`
    ///   ^^^
    LabelRef,
    /// `<foo>`
    ///   ^^^
    Label,
    /// `x:`
    ///  ^^
    BibKey,
    /// `let foo`
    ///      ^^^
    Variable,
    /// `let foo()`
    ///      ^^^
    Function,
}

/// The kind of a symbol entry.
#[derive(Debug, Clone, Copy, Hash, PartialEq, Eq, Structural)]
pub enum LexicalKind {
    /// A heading, with its declared depth.
    Heading(i16),
    /// A named symbol with its role.
    Var(LexicalVarKind),
    /// An anonymous structural block, used for nesting only.
    Block,
    /// A merged run of line comments.
    LineComment,
    /// A whitespace marker between tokens; internal to the traversal — a
    /// marker frame vanishes when closed and never appears in a returned
    /// forest.
    Space,
}

impl LexicalKind {
    /// The kind of a label declaration.
    pub fn label() -> (r: LexicalKind)
        ensures
            r == LexicalKind::Var(LexicalVarKind::Label),
    {
        LexicalKind::Var(LexicalVarKind::Label)
    }

    /// The kind of a name bound to a callable.
    pub fn function() -> (r: LexicalKind)
        ensures
            r == LexicalKind::Var(LexicalVarKind::Function),
    {
        LexicalKind::Var(LexicalVarKind::Function)
    }

    /// The kind of a name bound to a value.
    pub fn variable() -> (r: LexicalKind)
        ensures
            r == LexicalKind::Var(LexicalVarKind::Variable),
    {
        LexicalKind::Var(LexicalVarKind::Variable)
    }
}

/// Which syntactic constructs count as symbols, chosen by the caller and
/// fixed for one traversal.
#[derive(Debug, Clone, Copy, Hash, Default, PartialEq, Eq, Structural)]
pub enum LexicalScopeKind {
    /// Fine-grained: identifiers, labels and headings are symbols.
    #[default]
    Symbol,
    /// Coarse-grained: headings count, and every block or bracketed group
    /// becomes an anonymous entry; identifiers and labels are suppressed.
    Braced,
}

impl LexicalScopeKind {
    /// Whether identifiers and labels participate.
    pub fn affect_symbol(&self) -> (r: bool)
        ensures
            r == (*self == LexicalScopeKind::Symbol),
    {
        matches!(self, LexicalScopeKind::Symbol)
    }

    /// Whether equations, raw blocks and block comments participate.
    pub fn affect_markup(&self) -> (r: bool)
        ensures
            r == (*self == LexicalScopeKind::Braced),
    {
        matches!(self, LexicalScopeKind::Braced)
    }

    /// Whether code and content blocks participate.
    pub fn affect_block(&self) -> (r: bool)
        ensures
            r == (*self == LexicalScopeKind::Braced),
    {
        matches!(self, LexicalScopeKind::Braced)
    }

    /// Whether bracketed expression groups, parameter lists included,
    /// participate.
    pub fn affect_expr(&self) -> (r: bool)
        ensures
            r == (*self == LexicalScopeKind::Braced),
    {
        matches!(self, LexicalScopeKind::Braced)
    }

    /// Whether headings participate; they do in every configuration.
    pub fn affect_heading(&self) -> (r: bool)
        ensures
            r,
    {
        matches!(self, LexicalScopeKind::Symbol | LexicalScopeKind::Braced)
    }
}

/// How an upcoming identifier is to be classified; a transient signal of the
/// traversal, not part of the output.
#[derive(Debug, Clone, Copy, Hash, Default, PartialEq, Eq, Structural)]
pub enum IdentContext {
    /// A plain use of a name.
    #[default]
    Ref,
    /// The name of a function being defined.
    Func,
    /// A name being bound to a value.
    Var,
    /// A name inside a parameter list.
    Params,
}

/// A byte span in the source.
#[derive(Debug, Clone, Copy, PartialEq, Eq, Structural)]
pub struct Span {
    /// The offset where the span starts.
    pub start: usize,
    /// The offset where the span ends.
    pub end: usize,
}

/// One symbol entry: a name (empty for anonymous entries), a kind, and the
/// source span it covers.
#[derive(Debug)]
pub struct LexicalInfo {
    /// The symbol's name.
    pub name: String,
    /// The symbol's kind.
    pub kind: LexicalKind,
    /// The span the symbol covers.
    pub range: Span,
}

/// A finished symbol entry together with its nested entries. `children` is
/// `None` exactly when the entry has no nested entries; an empty-but-present
/// list is never produced.
#[derive(Debug)]
pub struct LexicalHierarchy {
    /// The entry itself.
    pub info: LexicalInfo,
    /// The nested entries, present only when there is at least one.
    pub children: Option<Vec<LexicalHierarchy>>,
}

/// The failure that aborts a traversal: a node's kind tag claims a token
/// shape, but the typed view cannot be extracted from the node.
#[derive(Debug, Clone, Copy, PartialEq, Eq, Structural)]
pub enum TreeError {
    /// A label or identifier kind tag on a node that is not a leaf token.
    ShapeMismatch,
}

impl TreeError {
    /// A diagnostic message suitable for logging by the caller.
    pub fn message(&self) -> (r: &'static str) {
        "cast to ast node failed"
    }
}

/// The mathematical view of one symbol entry.
pub ghost struct InfoV {
    /// The name as a character sequence.
    pub name: Seq<char>,
    /// The kind.
    pub kind: LexicalKind,
    /// The start offset.
    pub start: int,
    /// The end offset.
    pub end: int,
}

/// The mathematical view of a finished entry with its nested entries.
pub ghost struct HierV {
    /// The entry.
    pub info: InfoV,
    /// The nested entries; `None` exactly when there are none.
    pub children: Option<Seq<HierV>>,
}

/// The view of one entry.
pub open spec fn info_view(i: LexicalInfo) -> InfoV {
    InfoV { name: i.name@, kind: i.kind, start: i.range.start as int, end: i.range.end as int }
}

/// The view of a finished hierarchy node.
pub open spec fn hier_view(h: LexicalHierarchy) -> HierV
    decreases h, 0int,
{
    HierV {
        info: info_view(h.info),
        children: match h.children {
            Option::None => Option::None,
            Option::Some(v) => Option::Some(hiers_view_upto(v@, v@.len() as int)),
        },
    }
}

/// The views of the first `upto` elements of a sequence of hierarchy nodes.
pub open spec fn hiers_view_upto(s: Seq<LexicalHierarchy>, upto: int) -> Seq<HierV>
    decreases s, upto,
{
    if upto <= 0 || upto > s.len() {
        Seq::empty()
    } else {
        hiers_view_upto(s, upto - 1).push(hier_view(s[upto - 1]))
    }
}

/// The views of a sequence of hierarchy nodes.
pub open spec fn hiers_view(s: Seq<LexicalHierarchy>) -> Seq<HierV> {
    hiers_view_upto(s, s.len() as int)
}

/// The element-wise description of `hiers_view_upto`.
pub proof fn lemma_hiers_view_upto_index(s: Seq<LexicalHierarchy>, upto: int)
    requires
        0 <= upto <= s.len(),
    ensures
        hiers_view_upto(s, upto).len() == upto,
        forall|k: int| 0 <= k < upto ==> hiers_view_upto(s, upto)[k] == hier_view(s[k]),
    decreases upto,
{
    if upto > 0 {
        lemma_hiers_view_upto_index(s, upto - 1);
    }
}

/// Sequences that agree on their first `upto` elements have the same views
/// of those elements.
pub proof fn lemma_hiers_view_upto_prefix(
    s1: Seq<LexicalHierarchy>,
    s2: Seq<LexicalHierarchy>,
    upto: int,
)
    requires
        upto <= s1.len(),
        upto <= s2.len(),
        forall|k: int| 0 <= k < upto ==> s1[k] == s2[k],
    ensures
        hiers_view_upto(s1, upto) == hiers_view_upto(s2, upto),
    decreases upto,
{
    if upto > 0 {
        lemma_hiers_view_upto_prefix(s1, s2, upto - 1);
    }
}

/// The view of a concatenation is the concatenation of the views.
pub proof fn lemma_hiers_view_concat(a: Seq<LexicalHierarchy>, b: Seq<LexicalHierarchy>)
    ensures
        hiers_view(a + b) == hiers_view(a) + hiers_view(b),
    decreases b.len(),
{
    if b.len() == 0 {
        assert(a + b =~= a);
        lemma_hiers_view_upto_index(a, a.len() as int);
        assert(hiers_view(a) + hiers_view(b) =~= hiers_view(a));
    } else {
        lemma_hiers_view_concat(a, b.drop_last());
        lemma_hiers_view_drop_last(a + b);
        lemma_hiers_view_drop_last(b);
        assert((a + b).drop_last() =~= a + b.drop_last());
        assert((a + b).last() == b.last());
        assert(hiers_view(a) + hiers_view(b.drop_last()).push(hier_view(b.last()))
            =~= (hiers_view(a) + hiers_view(b.drop_last())).push(hier_view(b.last())));
    }
}

/// Appending an element appends its view.
pub proof fn lemma_hiers_view_push(s: Seq<LexicalHierarchy>, x: LexicalHierarchy)
    ensures
        hiers_view(s.push(x)) == hiers_view(s).push(hier_view(x)),
{
    lemma_hiers_view_upto_prefix(s.push(x), s, s.len() as int);
    assert(s.push(x)[s.len() as int] == x);
}

/// Dropping the last element drops its view.
pub proof fn lemma_hiers_view_drop_last(s: Seq<LexicalHierarchy>)
    requires
        s.len() > 0,
    ensures
        hiers_view(s.drop_last()) == hiers_view_upto(s, s.len() - 1),
        hiers_view(s) == hiers_view(s.drop_last()).push(hier_view(s.last())),
        hiers_view(s).drop_last() == hiers_view(s.drop_last()),
        hiers_view(s).len() == s.len(),
        hiers_view(s).last() == hier_view(s.last()),
{
    lemma_hiers_view_upto_prefix(s.drop_last(), s, s.len() - 1);
    lemma_hiers_view_upto_index(s, s.len() as int);
    assert(hiers_view(s.drop_last()).push(hier_view(s.last())).drop_last() =~= hiers_view(
        s.drop_last(),
    ));
}

} // verus!
