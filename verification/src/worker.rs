//! The executable traversal: an explicit stack of open frames, driven by one
//! recursive walk over the tree. Every function is verified to compute the
//! definition in [`crate::semantics`].

use vstd::prelude::*;

verus! {

use vstd::string::StringExecFns;
use vstd::string::StrSliceExecFns;

use crate::semantics::FrameV;
use crate::semantics::classify;
use crate::semantics::close_above;
use crate::semantics::close_for_heading;
use crate::semantics::entered;
use crate::semantics::finish_frame;
use crate::semantics::sentinel_frame;
use crate::semantics::spec_lexical_hierarchy;
use crate::semantics::step_after_classify;
use crate::semantics::step_children;
use crate::semantics::step_closure;
use crate::semantics::step_first_sub_expr;
use crate::semantics::step_for_loop;
use crate::semantics::step_let_binding;
use crate::semantics::step_line_comment;
use crate::semantics::step_named;
use crate::semantics::step_node;
use crate::symbols::HierV;
use crate::symbols::IdentContext;
use crate::symbols::InfoV;
use crate::symbols::LexicalHierarchy;
use crate::symbols::LexicalInfo;
use crate::symbols::LexicalKind;
use crate::symbols::LexicalScopeKind;
use crate::symbols::Span;
use crate::symbols::TreeError;
use crate::symbols::hier_view;
use crate::symbols::hiers_view;
use crate::symbols::info_view;
use crate::symbols::lemma_hiers_view_concat;
use crate::symbols::lemma_hiers_view_drop_last;
use crate::symbols::lemma_hiers_view_push;
use crate::symbols::lemma_hiers_view_upto_index;
use crate::syntax::SyntaxKind;
use crate::syntax::SyntaxNode;
use crate::syntax::find_first_expr;
use crate::syntax::find_first_kind;
use crate::syntax::find_first_pattern;
use crate::syntax::find_last_expr;
use crate::syntax::heading_depth;
use crate::syntax::label_name;
use crate::syntax::prev_nontrivia_kind;
use crate::syntax::subtree_text;

/// An open frame as the executable walk holds it.
pub type Frame = (LexicalInfo, Vec<LexicalHierarchy>);

/// The view of one frame.
pub open spec fn frame_view(f: Frame) -> FrameV {
    FrameV { info: info_view(f.0), pending: hiers_view(f.1@) }
}

/// The view of the whole stack.
pub open spec fn frames_view(s: Seq<Frame>) -> Seq<FrameV> {
    s.map_values(|f: Frame| frame_view(f))
}

/// The view of an optional borrowed parent node.
pub open spec fn parent_view(p: Option<&SyntaxNode>) -> Option<SyntaxNode> {
    match p {
        Option::Some(n) => Option::Some(*n),
        Option::None => Option::None,
    }
}

/// The view of an optional entry.
pub open spec fn opt_info_view(o: Option<LexicalInfo>) -> Option<InfoV> {
    match o {
        Option::Some(i) => Option::Some(info_view(i)),
        Option::None => Option::None,
    }
}

/// The view of an optional offset.
pub open spec fn opt_offset_view(o: Option<usize>) -> Option<int> {
    match o {
        Option::Some(i) => Option::Some(i as int),
        Option::None => Option::None,
    }
}

/// Appending a frame appends its view.
proof fn lemma_frames_view_push(s: Seq<Frame>, x: Frame)
    ensures
        frames_view(s.push(x)) == frames_view(s).push(frame_view(x)),
{
    assert(frames_view(s.push(x)) =~= frames_view(s).push(frame_view(x)));
}

/// Dropping the last frame drops its view.
proof fn lemma_frames_view_drop_last(s: Seq<Frame>)
    requires
        s.len() > 0,
    ensures
        frames_view(s.drop_last()) == frames_view(s).drop_last(),
{
    assert(frames_view(s.drop_last()) =~= frames_view(s).drop_last());
}

/// A stack grown by one frame has the view of the old stack, grown by the
/// frame's view.
proof fn lemma_push_view(pre: Seq<Frame>, post: Seq<Frame>, x: Frame)
    requires
        post == pre.push(x),
    ensures
        frames_view(post) == frames_view(pre).push(frame_view(x)),
        frames_view(post).last() == frame_view(x),
        frames_view(post).drop_last() == frames_view(pre),
{
    assert(frames_view(post) =~= frames_view(pre).push(frame_view(x)));
    assert(frames_view(pre).push(frame_view(x)).drop_last() =~= frames_view(pre));
}

/// A stack shrunk by one frame has the view of the old stack, shrunk by the
/// last view.
proof fn lemma_pop_view(pre: Seq<Frame>, post: Seq<Frame>)
    requires
        pre.len() > 0,
        post == pre.drop_last(),
    ensures
        frames_view(post) == frames_view(pre).drop_last(),
        frames_view(pre).last() == frame_view(pre.last()),
{
    assert(frames_view(post) =~= frames_view(pre).drop_last());
}

/// Wraps a finished entry and the children accumulated for it into one
/// hierarchy node; `children` is `None` exactly when nothing accumulated.
pub fn finish_hierarchy(sym: LexicalInfo, curr: Vec<LexicalHierarchy>) -> (r: LexicalHierarchy)
    ensures
        hier_view(r) == (HierV {
            info: info_view(sym),
            children: if curr@.len() == 0 {
                Option::None
            } else {
                Option::Some(hiers_view(curr@))
            },
        }),
{
    if curr.len() == 0 {
        LexicalHierarchy { info: sym, children: Option::None }
    } else {
        LexicalHierarchy { info: sym, children: Option::Some(curr) }
    }
}

/// The traversal worker: the scope configuration, the stack of open frames,
/// and the naming context in force.
pub struct LexicalHierarchyWorker {
    /// Which constructs count as symbols; fixed for the traversal.
    pub sk: LexicalScopeKind,
    /// The stack of open frames; the sentinel frame sits at the bottom.
    pub stack: Vec<Frame>,
    /// The naming context in force.
    pub ident_context: IdentContext,
}

impl LexicalHierarchyWorker {
    /// The stack's mathematical view.
    pub open spec fn stack_v(&self) -> Seq<FrameV> {
        frames_view(self.stack@)
    }

    /// At least the sentinel frame is always open.
    pub open spec fn wf(&self) -> bool {
        self.stack@.len() >= 1
    }

    /// Finish the current top of the stack: it becomes a child of the frame
    /// beneath it, or — for a whitespace marker frame — vanishes, handing
    /// its pending children on.
    pub fn finish_hierarchy(&mut self)
        requires
            old(self).stack@.len() >= 2,
        ensures
            final(self).sk == old(self).sk,
            final(self).ident_context == old(self).ident_context,
            final(self).stack@.len() == old(self).stack@.len() - 1,
            final(self).stack_v() == finish_frame(old(self).stack_v()),
    {
        let ghost s0 = self.stack@;
        let top = self.stack.pop().unwrap();
        let parent = self.stack.pop().unwrap();
        let (pinfo, mut pchildren) = parent;
        let ghost pchildren0 = pchildren@;
        if matches!(top.0.kind, LexicalKind::Space) {
            let (_, mut tchildren) = top;
            let ghost tchildren0 = tchildren@;
            pchildren.append(&mut tchildren);
            proof {
                lemma_hiers_view_concat(pchildren0, tchildren0);
            }
        } else {
            let node = finish_hierarchy(top.0, top.1);
            pchildren.push(node);
            proof {
                lemma_hiers_view_upto_index(s0.last().1@, s0.last().1@.len() as int);
                lemma_hiers_view_push(pchildren0, node);
            }
        }
        self.stack.push((pinfo, pchildren));
        proof {
            let v0 = frames_view(s0);
            lemma_frames_view_drop_last(s0);
            lemma_frames_view_drop_last(s0.drop_last());
            lemma_frames_view_push(
                s0.drop_last().drop_last(),
                (pinfo, pchildren),
            );
            assert(self.stack@ =~= s0.drop_last().drop_last().push((pinfo, pchildren)));
            assert(frames_view(s0)[s0.len() - 2] == frame_view(s0[s0.len() - 2]));
            assert(frames_view(s0)[s0.len() - 1] == frame_view(s0[s0.len() - 1]));
            assert(self.stack_v() =~= finish_frame(v0));
        }
    }

    /// Enter a node: the naming context its children see is set up, and the
    /// previous context is handed back for the later restore.
    pub fn enter_node(&mut self, node: &SyntaxNode) -> (checkpoint: IdentContext)
        ensures
            final(self).sk == old(self).sk,
            final(self).stack == old(self).stack,
            final(self).ident_context == entered(old(self).ident_context, node.kind),
            checkpoint == old(self).ident_context,
    {
        let checkpoint = self.ident_context;
        match node.kind {
            SyntaxKind::RefMarker => self.ident_context = IdentContext::Ref,
            SyntaxKind::LetBinding => self.ident_context = IdentContext::Ref,
            SyntaxKind::Closure => self.ident_context = IdentContext::Func,
            SyntaxKind::Params => self.ident_context = IdentContext::Params,
            _ => {},
        }
        checkpoint
    }

    /// Exit a node: the context saved on entry is restored.
    pub fn exit_node(&mut self, checkpoint: IdentContext)
        ensures
            final(self).sk == old(self).sk,
            final(self).stack == old(self).stack,
            final(self).ident_context == checkpoint,
    {
        self.ident_context = checkpoint;
    }

    /// Whether the heading rule still has a frame to close: the top is
    /// neither a heading of smaller level nor a block, and more than the
    /// sentinel is open.
    fn should_close_for_heading(&self, level: i16) -> (r: bool)
        requires
            self.wf(),
        ensures
            r == (self.stack_v().len() >= 2 && {
                let k = self.stack_v().last().info.kind;
                !(k matches LexicalKind::Heading(l) && l < level) && k != LexicalKind::Block
            }),
    {
        if self.stack.len() < 2 {
            return false;
        }
        let k = self.stack[self.stack.len() - 1].0.kind;
        proof {
            assert(self.stack_v().last() == frame_view(self.stack@.last()));
        }
        match k {
            LexicalKind::Heading(l) => !(l < level),
            LexicalKind::Block => false,
            _ => true,
        }
    }

    /// The closing a new heading performs before it opens.
    fn close_headings(&mut self, level: i16)
        requires
            old(self).wf(),
        ensures
            final(self).sk == old(self).sk,
            final(self).ident_context == old(self).ident_context,
            final(self).wf(),
            final(self).stack_v() == close_for_heading(old(self).stack_v(), level),
    {
        while self.should_close_for_heading(level)
            invariant
                self.wf(),
                self.sk == old(self).sk,
                self.ident_context == old(self).ident_context,
                close_for_heading(old(self).stack_v(), level) == close_for_heading(
                    self.stack_v(),
                    level,
                ),
            decreases self.stack@.len(),
        {
            self.finish_hierarchy();
        }
    }

    /// Closes frames while at least `bound` (`bound + 1` when `strict`) of
    /// them are open; the sentinel is never closed here.
    fn close_frames(&mut self, bound: usize, strict: bool)
        requires
            old(self).wf(),
        ensures
            final(self).sk == old(self).sk,
            final(self).ident_context == old(self).ident_context,
            final(self).wf(),
            final(self).stack_v() == close_above(
                old(self).stack_v(),
                if strict {
                    bound as int + 1
                } else {
                    bound as int
                },
            ),
            final(self).stack@.len() < 2 || final(self).stack@.len() < (if strict {
                bound as int + 1
            } else {
                bound as int
            }),
    {
        let ghost bnd: int = if strict {
            bound as int + 1
        } else {
            bound as int
        };
        while (strict && self.stack.len() > bound || !strict && self.stack.len() >= bound)
            && self.stack.len() >= 2
            invariant
                self.wf(),
                self.sk == old(self).sk,
                self.ident_context == old(self).ident_context,
                bnd == (if strict {
                    bound as int + 1
                } else {
                    bound as int
                }),
                close_above(old(self).stack_v(), bnd) == close_above(self.stack_v(), bnd),
            decreases self.stack@.len(),
        {
            self.finish_hierarchy();
        }
    }

    /// Get the symbol for a leaf node of a valid type, or `None` if the node
    /// is no symbol by itself; the tree/shape inconsistency is the error.
    pub fn get_ident(&self, node: &SyntaxNode, parent: Option<&SyntaxNode>, idx: usize) -> (r:
        Result<Option<LexicalInfo>, TreeError>)
        ensures
            ({
                let c = classify(
                    self.sk,
                    self.ident_context,
                    *node,
                    parent_view(parent),
                    idx as int,
                );
                match r {
                    Result::Ok(o) => c == Result::<Option<InfoV>, ()>::Ok(opt_info_view(o)),
                    Result::Err(_) => c is Err,
                }
            }),
    {
        match node.kind {
            SyntaxKind::Label => {
                if !self.sk.affect_symbol() {
                    return Result::Ok(Option::None);
                }
                let prev = match parent {
                    Option::Some(p) => prev_nontrivia_kind(&p.children, idx),
                    Option::None => Option::None,
                };
                let filtered = match prev {
                    Option::Some(pk) => matches!(
                        pk,
                        SyntaxKind::LeftBracket
                            | SyntaxKind::LeftBrace
                            | SyntaxKind::LeftParen
                            | SyntaxKind::Comma
                            | SyntaxKind::Colon
                    ) || pk.is_keyword(),
                    Option::None => false,
                };
                if filtered {
                    return Result::Ok(Option::None);
                }
                if node.children.len() != 0 {
                    return Result::Err(TreeError::ShapeMismatch);
                }
                let name = label_name(node.text.as_str());
                Result::Ok(
                    Option::Some(
                        LexicalInfo {
                            name,
                            kind: LexicalKind::label(),
                            range: Span { start: node.start, end: node.end },
                        },
                    ),
                )
            },
            SyntaxKind::Ident => {
                if !self.sk.affect_symbol() {
                    return Result::Ok(Option::None);
                }
                if node.children.len() != 0 {
                    return Result::Err(TreeError::ShapeMismatch);
                }
                let kind = match self.ident_context {
                    IdentContext::Func => LexicalKind::function(),
                    IdentContext::Var | IdentContext::Params => LexicalKind::variable(),
                    _ => {
                        return Result::Ok(Option::None);
                    },
                };
                Result::Ok(
                    Option::Some(
                        LexicalInfo {
                            name: node.text.clone(),
                            kind,
                            range: Span { start: node.start, end: node.end },
                        },
                    ),
                )
            },
            SyntaxKind::Equation | SyntaxKind::Raw | SyntaxKind::BlockComment => {
                if self.sk.affect_markup() {
                    Result::Ok(
                        Option::Some(
                            LexicalInfo {
                                name: String::new(),
                                kind: LexicalKind::Block,
                                range: Span { start: node.start, end: node.end },
                            },
                        ),
                    )
                } else {
                    Result::Ok(Option::None)
                }
            },
            SyntaxKind::CodeBlock | SyntaxKind::ContentBlock => {
                if self.sk.affect_block() {
                    Result::Ok(
                        Option::Some(
                            LexicalInfo {
                                name: String::new(),
                                kind: LexicalKind::Block,
                                range: Span { start: node.start, end: node.end },
                            },
                        ),
                    )
                } else {
                    Result::Ok(Option::None)
                }
            },
            SyntaxKind::Parenthesized
            | SyntaxKind::Destructuring
            | SyntaxKind::Args
            | SyntaxKind::Array
            | SyntaxKind::Dict
            | SyntaxKind::Params => {
                if self.sk.affect_expr() {
                    Result::Ok(
                        Option::Some(
                            LexicalInfo {
                                name: String::new(),
                                kind: LexicalKind::Block,
                                range: Span { start: node.start, end: node.end },
                            },
                        ),
                    )
                } else {
                    Result::Ok(Option::None)
                }
            },
            SyntaxKind::Markup => {
                let name = subtree_text(node);
                if name.as_str().unicode_len() == 0 {
                    return Result::Ok(Option::None);
                }
                match parent {
                    Option::None => Result::Ok(Option::None),
                    Option::Some(p) => {
                        if p.kind == SyntaxKind::Heading && self.sk.affect_heading() {
                            Result::Ok(
                                Option::Some(
                                    LexicalInfo {
                                        name,
                                        kind: LexicalKind::Heading(heading_depth(p)),
                                        range: Span { start: p.start, end: p.end },
                                    },
                                ),
                            )
                        } else {
                            Result::Ok(Option::None)
                        }
                    },
                }
            },
            _ => Result::Ok(Option::None),
        }
    }

    /// Check the lexical hierarchy of a node, recursively.
    pub fn check_node(&mut self, node: &SyntaxNode, parent: Option<&SyntaxNode>, idx: usize) -> (r:
        Result<(), TreeError>)
        requires
            old(self).wf(),
        ensures
            final(self).sk == old(self).sk,
            final(self).ident_context == old(self).ident_context,
            final(self).wf(),
            ({
                let s = step_node(
                    old(self).sk,
                    old(self).stack_v(),
                    old(self).ident_context,
                    *node,
                    parent_view(parent),
                    idx as int,
                );
                match r {
                    Result::Ok(_) => s matches Result::Ok(st) && final(self).stack_v() == st,
                    Result::Err(_) => s is Err,
                }
            }),
        decreases *node, 6int, 0int,
    {
        let own_symbol = match self.get_ident(node, parent, idx) {
            Result::Ok(o) => o,
            Result::Err(e) => {
                return Result::Err(e);
            },
        };
        let checkpoint = self.enter_node(node);
        let res = self.check_node_core(node, own_symbol);
        self.exit_node(checkpoint);
        res
    }

    /// The traversal of one node after its classification, under the naming
    /// context already in force for its children.
    fn check_node_core(&mut self, node: &SyntaxNode, own_symbol: Option<LexicalInfo>) -> (r: Result<
        (),
        TreeError,
    >)
        requires
            old(self).wf(),
        ensures
            final(self).sk == old(self).sk,
            final(self).ident_context == old(self).ident_context,
            final(self).wf(),
            ({
                let s = step_after_classify(
                    old(self).sk,
                    old(self).stack_v(),
                    old(self).ident_context,
                    *node,
                    opt_info_view(own_symbol),
                );
                match r {
                    Result::Ok(_) => s matches Result::Ok(st) && final(self).stack_v() == st,
                    Result::Err(_) => s is Err,
                }
            }),
        decreases *node, 5int, 2int,
    {
        match own_symbol {
            Option::Some(symbol) => {
                if let LexicalKind::Heading(level) = symbol.kind {
                    self.close_headings(level);
                }
                let is_heading = matches!(symbol.kind, LexicalKind::Heading(..));
                let frame = (symbol, Vec::<LexicalHierarchy>::new());
                let ghost pre = self.stack@;
                self.stack.push(frame);
                proof {
                    lemma_push_view(pre, self.stack@, frame);
                    assert(hiers_view(frame.1@) =~= Seq::<HierV>::empty());
                }
                let stack_height = self.stack.len();
                let walk: Result<(), TreeError> = if node.kind != SyntaxKind::ModuleImport {
                    self.check_children(node)
                } else {
                    Result::Ok(())
                };
                match walk {
                    Result::Err(e) => Result::Err(e),
                    Result::Ok(_) => {
                        if is_heading {
                            self.close_frames(stack_height, true);
                        } else {
                            self.close_frames(stack_height, false);
                        }
                        Result::Ok(())
                    },
                }
            },
            Option::None => {
                match node.kind {
                    SyntaxKind::LineComment => {
                        self.check_line_comment(node);
                        Result::Ok(())
                    },
                    SyntaxKind::Space => {
                        let frame = (
                            LexicalInfo {
                                name: String::new(),
                                kind: LexicalKind::Space,
                                range: Span { start: node.start, end: node.end },
                            },
                            Vec::<LexicalHierarchy>::new(),
                        );
                        let ghost pre = self.stack@;
                        self.stack.push(frame);
                        proof {
                            lemma_push_view(pre, self.stack@, frame);
                            assert(hiers_view(frame.1@) =~= Seq::<HierV>::empty());
                        }
                        Result::Ok(())
                    },
                    SyntaxKind::LetBinding => self.check_let_binding(node),
                    SyntaxKind::ForLoop => self.check_for_loop(node),
                    SyntaxKind::Closure => self.check_closure(node),
                    SyntaxKind::FieldAccess => {
                        let ambient = self.ident_context;
                        self.check_first_sub_expr(node, ambient, false, Option::None)
                    },
                    SyntaxKind::Named => self.check_named(node),
                    SyntaxKind::ModuleImport => Result::Ok(()),
                    _ => {
                        if node.kind.is_trivia() || node.kind.is_keyword() || node.kind.is_error() {
                            Result::Ok(())
                        } else {
                            self.check_children(node)
                        }
                    },
                }
            },
        }
    }

    /// A line comment: merge with an immediately preceding open comment run
    /// when exactly one whitespace marker frame stands between them and
    /// fills the gap exactly — other content between the runs prevents the
    /// merge — else open a fresh comment frame.
    fn check_line_comment(&mut self, node: &SyntaxNode)
        requires
            old(self).wf(),
        ensures
            final(self).sk == old(self).sk,
            final(self).ident_context == old(self).ident_context,
            final(self).wf(),
            final(self).stack_v() == step_line_comment(old(self).stack_v(), *node),
    {
        let mut start = node.start;
        let top_is_space = matches!(self.stack[self.stack.len() - 1].0.kind, LexicalKind::Space);
        proof {
            assert(self.stack_v().last() == frame_view(self.stack@.last()));
        }
        if top_is_space {
            let ghost s0 = self.stack@;
            let marker = self.stack.pop().unwrap();
            proof {
                lemma_frames_view_drop_last(s0);
                assert(self.stack@ =~= s0.drop_last());
            }
            if self.stack.len() > 0 {
                let run_range = self.stack[self.stack.len() - 1].0.range;
                let merge = matches!(
                    self.stack[self.stack.len() - 1].0.kind,
                    LexicalKind::LineComment
                ) && run_range.end == marker.0.range.start && marker.0.range.end == node.start;
                proof {
                    assert(self.stack_v().last() == frame_view(self.stack@.last()));
                }
                if merge {
                    let ghost s1 = self.stack@;
                    let run = self.stack.pop().unwrap();
                    start = run.0.range.start;
                    proof {
                        lemma_frames_view_drop_last(s1);
                        assert(self.stack@ =~= s1.drop_last());
                    }
                }
            }
        }
        self.stack.push(
            (
                LexicalInfo {
                    name: String::new(),
                    kind: LexicalKind::LineComment,
                    range: Span { start, end: node.end },
                },
                Vec::new(),
            ),
        );
        proof {
            lemma_frames_view_push(self.stack@.drop_last(), self.stack@.last());
            assert(self.stack@.drop_last().push(self.stack@.last()) =~= self.stack@);
            assert(hiers_view(Seq::<LexicalHierarchy>::empty()) =~= Seq::<HierV>::empty());
        }
    }

    /// A let binding; see [`step_let_binding`].
    fn check_let_binding(&mut self, node: &SyntaxNode) -> (r: Result<(), TreeError>)
        requires
            old(self).wf(),
        ensures
            final(self).sk == old(self).sk,
            final(self).ident_context == old(self).ident_context,
            final(self).wf(),
            ({
                let s = step_let_binding(old(self).sk, old(self).stack_v(), *node);
                match r {
                    Result::Ok(_) => s matches Result::Ok(st) && final(self).stack_v() == st,
                    Result::Err(_) => s is Err,
                }
            }),
        decreases *node, 5int, 1int,
    {
        match find_first_pattern(&node.children, 0) {
            Option::Some(pi) => {
                if node.children[pi].kind == SyntaxKind::Closure {
                    self.check_node_with(&node.children[pi], Option::Some(node), pi, IdentContext::Ref)
                } else {
                    let name_offset = node.children[pi].start;
                    match self.check_node_with(
                        &node.children[pi],
                        Option::Some(node),
                        pi,
                        IdentContext::Var,
                    ) {
                        Result::Err(e) => Result::Err(e),
                        Result::Ok(_) => self.check_first_sub_expr(
                            node,
                            IdentContext::Ref,
                            true,
                            Option::Some(name_offset),
                        ),
                    }
                }
            },
            Option::None => self.check_first_sub_expr(
                node,
                IdentContext::Ref,
                true,
                Option::None,
            ),
        }
    }

    /// A for loop; see [`step_for_loop`].
    fn check_for_loop(&mut self, node: &SyntaxNode) -> (r: Result<(), TreeError>)
        requires
            old(self).wf(),
        ensures
            final(self).sk == old(self).sk,
            final(self).ident_context == old(self).ident_context,
            final(self).wf(),
            ({
                let s = step_for_loop(old(self).sk, old(self).stack_v(), *node);
                match r {
                    Result::Ok(_) => s matches Result::Ok(st) && final(self).stack_v() == st,
                    Result::Err(_) => s is Err,
                }
            }),
        decreases *node, 5int, 1int,
    {
        let iterable = match find_first_kind(&node.children, SyntaxKind::In, 0) {
            Option::Some(k) => find_first_expr(&node.children, k),
            Option::None => Option::None,
        };
        let iterable_offset = match iterable {
            Option::Some(j) => Option::Some(node.children[j].start),
            Option::None => Option::None,
        };
        let walked_iter = match iterable {
            Option::Some(j) => self.check_node_with(
                &node.children[j],
                Option::Some(node),
                j,
                IdentContext::Ref,
            ),
            Option::None => Result::Ok(()),
        };
        match walked_iter {
            Result::Err(e) => Result::Err(e),
            Result::Ok(_) => {
                let walked_pat = match find_first_pattern(&node.children, 0) {
                    Option::Some(pi) => self.check_node_with(
                        &node.children[pi],
                        Option::Some(node),
                        pi,
                        IdentContext::Var,
                    ),
                    Option::None => Result::Ok(()),
                };
                match walked_pat {
                    Result::Err(e) => Result::Err(e),
                    Result::Ok(_) => self.check_first_sub_expr(
                        node,
                        IdentContext::Ref,
                        true,
                        iterable_offset,
                    ),
                }
            },
        }
    }

    /// A closure; see [`step_closure`].
    fn check_closure(&mut self, node: &SyntaxNode) -> (r: Result<(), TreeError>)
        requires
            old(self).wf(),
        ensures
            final(self).sk == old(self).sk,
            final(self).ident_context == old(self).ident_context,
            final(self).wf(),
            ({
                let s = step_closure(
                    old(self).sk,
                    old(self).stack_v(),
                    old(self).ident_context,
                    *node,
                );
                match r {
                    Result::Ok(_) => s matches Result::Ok(st) && final(self).stack_v() == st,
                    Result::Err(_) => s is Err,
                }
            }),
        decreases *node, 5int, 1int,
    {
        if !self.sk.affect_symbol() {
            return self.check_children(node);
        }
        let current = self.stack[self.stack.len() - 1].1.len();
        proof {
            assert(self.stack_v().last() == frame_view(self.stack@.last()));
            lemma_hiers_view_upto_index(
                self.stack@.last().1@,
                self.stack@.last().1@.len() as int,
            );
        }
        if node.children.len() > 0 && node.children[0].kind == SyntaxKind::Ident {
            match self.check_node_with(&node.children[0], Option::Some(node), 0, IdentContext::Func)
            {
                Result::Err(e) => {
                    return Result::Err(e);
                },
                Result::Ok(_) => {},
            }
        }
        match find_last_expr(&node.children) {
            Option::None => Result::Ok(()),
            Option::Some(bj) => {
                let pend_len = self.stack[self.stack.len() - 1].1.len();
                proof {
                    assert(self.stack_v().last() == frame_view(self.stack@.last()));
                    lemma_hiers_view_upto_index(
                        self.stack@.last().1@,
                        self.stack@.last().1@.len() as int,
                    );
                }
                let symbol: LexicalInfo = if pend_len == current || pend_len == 0 {
                    LexicalInfo {
                        name: String::from_str("anonymous"),
                        kind: LexicalKind::function(),
                        range: Span { start: node.start, end: node.end },
                    }
                } else {
                    let ghost s0 = self.stack@;
                    let top = self.stack.pop().unwrap();
                    let (pinfo, mut pvec) = top;
                    let ghost pvec0 = pvec@;
                    let taken = pvec.pop().unwrap();
                    let ghost shrunk = self.stack@;
                    let reduced = (pinfo, pvec);
                    self.stack.push(reduced);
                    proof {
                        lemma_pop_view(s0, shrunk);
                        lemma_push_view(shrunk, self.stack@, reduced);
                        lemma_hiers_view_drop_last(pvec0);
                        assert(reduced.1@ == pvec0.drop_last());
                    }
                    LexicalInfo {
                        name: taken.info.name,
                        kind: taken.info.kind,
                        range: Span { start: node.start, end: node.end },
                    }
                };
                let frame = (symbol, Vec::<LexicalHierarchy>::new());
                let ghost mid = self.stack@;
                self.stack.push(frame);
                proof {
                    lemma_push_view(mid, self.stack@, frame);
                    assert(hiers_view(frame.1@) =~= Seq::<HierV>::empty());
                }
                let stack_height = self.stack.len();
                match self.check_node_with(
                    &node.children[bj],
                    Option::Some(node),
                    bj,
                    IdentContext::Ref,
                ) {
                    Result::Err(e) => Result::Err(e),
                    Result::Ok(_) => {
                        self.close_frames(stack_height, false);
                        Result::Ok(())
                    },
                }
            },
        }
    }

    /// A named pair; see [`step_named`].
    fn check_named(&mut self, node: &SyntaxNode) -> (r: Result<(), TreeError>)
        requires
            old(self).wf(),
        ensures
            final(self).sk == old(self).sk,
            final(self).ident_context == old(self).ident_context,
            final(self).wf(),
            ({
                let s = step_named(
                    old(self).sk,
                    old(self).stack_v(),
                    old(self).ident_context,
                    *node,
                );
                match r {
                    Result::Ok(_) => s matches Result::Ok(st) && final(self).stack_v() == st,
                    Result::Err(_) => s is Err,
                }
            }),
        decreases *node, 5int, 1int,
    {
        let ambient = self.ident_context;
        match self.check_first_sub_expr(node, ambient, true, Option::None) {
            Result::Err(e) => Result::Err(e),
            Result::Ok(_) => {
                if self.ident_context == IdentContext::Params {
                    let ident = find_first_kind(&node.children, SyntaxKind::Ident, 0);
                    self.check_opt_node_with(node, ident, IdentContext::Var)
                } else {
                    Result::Ok(())
                }
            },
        }
    }

    /// Check a possible child of `node` with a specific naming context.
    fn check_opt_node_with(
        &mut self,
        node: &SyntaxNode,
        idx: Option<usize>,
        context: IdentContext,
    ) -> (r: Result<(), TreeError>)
        requires
            old(self).wf(),
            idx matches Option::Some(i) ==> i < node.children@.len(),
        ensures
            final(self).sk == old(self).sk,
            final(self).ident_context == old(self).ident_context,
            final(self).wf(),
            ({
                let s = match idx {
                    Option::Some(i) => step_node(
                        old(self).sk,
                        old(self).stack_v(),
                        context,
                        node.children@[i as int],
                        Option::Some(*node),
                        i as int,
                    ),
                    Option::None => Result::Ok(old(self).stack_v()),
                };
                match r {
                    Result::Ok(_) => s matches Result::Ok(st) && final(self).stack_v() == st,
                    Result::Err(_) => s is Err,
                }
            }),
        decreases *node, 3int, 0int,
    {
        match idx {
            Option::Some(i) => self.check_node_with(
                &node.children[i],
                Option::Some(node),
                i,
                context,
            ),
            Option::None => Result::Ok(()),
        }
    }

    /// Check the first expression child of `node` (the last one when `rev`)
    /// under the given naming context. With an offset given, the expression
    /// is only checked when it starts after the offset.
    fn check_first_sub_expr(
        &mut self,
        node: &SyntaxNode,
        context: IdentContext,
        rev: bool,
        after_offset: Option<usize>,
    ) -> (r: Result<(), TreeError>)
        requires
            old(self).wf(),
        ensures
            final(self).sk == old(self).sk,
            final(self).ident_context == old(self).ident_context,
            final(self).wf(),
            ({
                let s = step_first_sub_expr(
                    old(self).sk,
                    old(self).stack_v(),
                    context,
                    *node,
                    rev,
                    opt_offset_view(after_offset),
                );
                match r {
                    Result::Ok(_) => s matches Result::Ok(st) && final(self).stack_v() == st,
                    Result::Err(_) => s is Err,
                }
            }),
        decreases *node, 3int, 0int,
    {
        let found = if rev {
            find_last_expr(&node.children)
        } else {
            find_first_expr(&node.children, 0)
        };
        match found {
            Option::None => Result::Ok(()),
            Option::Some(j) => {
                if let Option::Some(off) = after_offset {
                    if off >= node.children[j].start {
                        return Result::Ok(());
                    }
                }
                self.check_node_with(&node.children[j], Option::Some(node), j, context)
            },
        }
    }

    /// Check a node with a specific naming context; the previous context is
    /// restored afterwards.
    fn check_node_with(
        &mut self,
        node: &SyntaxNode,
        parent: Option<&SyntaxNode>,
        idx: usize,
        context: IdentContext,
    ) -> (r: Result<(), TreeError>)
        requires
            old(self).wf(),
        ensures
            final(self).sk == old(self).sk,
            final(self).ident_context == old(self).ident_context,
            final(self).wf(),
            ({
                let s = step_node(
                    old(self).sk,
                    old(self).stack_v(),
                    context,
                    *node,
                    parent_view(parent),
                    idx as int,
                );
                match r {
                    Result::Ok(_) => s matches Result::Ok(st) && final(self).stack_v() == st,
                    Result::Err(_) => s is Err,
                }
            }),
        decreases *node, 7int, 0int,
    {
        let parent_context = self.ident_context;
        self.ident_context = context;
        let res = self.check_node(node, parent, idx);
        self.ident_context = parent_context;
        res
    }

    /// Check every child of `node` in document order.
    fn check_children(&mut self, node: &SyntaxNode) -> (r: Result<(), TreeError>)
        requires
            old(self).wf(),
        ensures
            final(self).sk == old(self).sk,
            final(self).ident_context == old(self).ident_context,
            final(self).wf(),
            ({
                let s = step_children(
                    old(self).sk,
                    old(self).stack_v(),
                    old(self).ident_context,
                    *node,
                    0,
                );
                match r {
                    Result::Ok(_) => s matches Result::Ok(st) && final(self).stack_v() == st,
                    Result::Err(_) => s is Err,
                }
            }),
        decreases *node, 5int, 0int,
    {
        let mut i: usize = 0;
        while i < node.children.len()
            invariant
                i <= node.children@.len(),
                self.wf(),
                self.sk == old(self).sk,
                self.ident_context == old(self).ident_context,
                step_children(
                    old(self).sk,
                    old(self).stack_v(),
                    old(self).ident_context,
                    *node,
                    0,
                ) == step_children(
                    old(self).sk,
                    self.stack_v(),
                    old(self).ident_context,
                    *node,
                    i as int,
                ),
            decreases node.children@.len() - i,
        {
            match self.check_node(&node.children[i], Option::Some(node), i) {
                Result::Ok(_) => {
                    i = i + 1;
                },
                Result::Err(e) => {
                    return Result::Err(e);
                },
            }
        }
        Result::Ok(())
    }
}

/// What a traversal of `root` under `sk` must return: nothing exactly when
/// the definition yields nothing, and otherwise a forest whose view is the
/// defined one. The relation depends on the tree and the configuration
/// alone, so any two calls on the same inputs agree (see
/// [`crate::laws::lemma_traversal_idempotent`]).
pub open spec fn returns_hierarchy(
    root: SyntaxNode,
    sk: LexicalScopeKind,
    r: Option<Vec<LexicalHierarchy>>,
) -> bool {
    match spec_lexical_hierarchy(root, sk) {
        Option::None => r is None,
        Option::Some(f) => r matches Option::Some(v) && hiers_view(v@) == f,
    }
}

/// Extracts the hierarchy of symbol entries of a parsed document under the
/// given scope configuration. The result is the ordered forest of top-level
/// entries, and is a function of the tree and the configuration alone; the
/// tree/shape inconsistency yields no result at all, never a partial forest.
pub fn get_lexical_hierarchy(root: &SyntaxNode, scope_kind: LexicalScopeKind) -> (r: Option<
    Vec<LexicalHierarchy>,
>)
    ensures
        returns_hierarchy(*root, scope_kind, r),
{
    let mut worker = LexicalHierarchyWorker {
        sk: scope_kind,
        stack: Vec::new(),
        ident_context: IdentContext::Ref,
    };
    worker.stack.push(
        (
            LexicalInfo {
                name: String::new(),
                kind: LexicalKind::Heading(-1),
                range: Span { start: 0, end: 0 },
            },
            Vec::new(),
        ),
    );
    proof {
        assert(hiers_view(Seq::<LexicalHierarchy>::empty()) =~= Seq::<HierV>::empty());
        assert(worker.stack_v() =~= seq![sentinel_frame()]);
    }
    let res = worker.check_node(root, Option::None, 0);
    worker.close_frames(1, true);
    match res {
        Result::Ok(_) => {
            proof {
                assert(worker.stack_v()[0] == frame_view(worker.stack@[0]));
            }
            let bottom = worker.stack.pop().unwrap();
            Option::Some(bottom.1)
        },
        Result::Err(_) => Option::None,
    }
}

} // verus!
