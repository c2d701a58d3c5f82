//! The meaning of the traversal, stated once as a recursive definition.
//!
//! The state is a stack of open frames; the sentinel frame at the bottom
//! collects the top-level entries and is popped only at the very end. Each
//! node first goes through the leaf classifier ([`classify`]); a classified
//! entry opens a frame, which is closed again after the node's children were
//! walked — with the heading rule reorganizing open frames by numeric level
//! first. An unclassified node is dispatched structurally by its kind. The
//! executable walk in [`crate::worker`] is verified to compute exactly this
//! definition.

use vstd::prelude::*;

verus! {

use crate::symbols::HierV;
use crate::symbols::IdentContext;
use crate::symbols::InfoV;
use crate::symbols::LexicalKind;
use crate::symbols::LexicalScopeKind;
use crate::symbols::LexicalVarKind;
use crate::syntax::SyntaxKind;
use crate::syntax::SyntaxNode;
use crate::syntax::spec_first_expr_idx;
use crate::syntax::spec_first_kind_idx;
use crate::syntax::spec_first_pattern_idx;
use crate::syntax::spec_heading_depth;
use crate::syntax::spec_label_name;
use crate::syntax::spec_last_expr_idx;
use crate::syntax::spec_prev_nontrivia_kind;
use crate::syntax::spec_subtree_text;

/// One frame of the traversal stack: a not-yet-finalized entry and the
/// children accumulated for it so far.
pub ghost struct FrameV {
    /// The entry the frame will finalize to.
    pub info: InfoV,
    /// The finished children accumulated so far.
    pub pending: Seq<HierV>,
}

/// The frame every traversal starts from. Its heading level sits below any
/// real level, so heading closing never removes it.
pub open spec fn sentinel_frame() -> FrameV {
    FrameV {
        info: InfoV { name: Seq::empty(), kind: LexicalKind::Heading(-1i16), start: 0, end: 0 },
        pending: Seq::empty(),
    }
}

/// Closes the top frame: it becomes a finished node appended to the pending
/// children of the frame beneath it; `children` of the finished node is
/// `None` exactly when nothing accumulated. A whitespace marker frame never
/// becomes an entry: closing it hands its pending children to the frame
/// beneath it and the marker itself vanishes. On a stack of fewer than two
/// frames this is the identity: the sentinel is never closed here.
pub open spec fn finish_frame(stack: Seq<FrameV>) -> Seq<FrameV> {
    if stack.len() < 2 {
        stack
    } else {
        let top = stack.last();
        let rest = stack.drop_last();
        let parent = rest.last();
        if top.info.kind == LexicalKind::Space {
            rest.drop_last().push(
                FrameV { info: parent.info, pending: parent.pending + top.pending },
            )
        } else {
            let node = HierV {
                info: top.info,
                children: if top.pending.len() == 0 {
                    Option::None
                } else {
                    Option::Some(top.pending)
                },
            };
            rest.drop_last().push(
                FrameV { info: parent.info, pending: parent.pending.push(node) },
            )
        }
    }
}

/// Closes frames while at least `bound` of them remain, never touching the
/// sentinel.
pub open spec fn close_above(stack: Seq<FrameV>, bound: int) -> Seq<FrameV>
    decreases stack.len(),
{
    if stack.len() >= bound && stack.len() >= 2 {
        close_above(finish_frame(stack), bound)
    } else {
        stack
    }
}

/// The closing a new heading of level `level` performs before it opens:
/// frames close until the top is a heading of strictly smaller level (the
/// new heading will nest under it), an anonymous block (blocks stop heading
/// propagation), or the sentinel alone remains.
pub open spec fn close_for_heading(stack: Seq<FrameV>, level: i16) -> Seq<FrameV>
    decreases stack.len(),
{
    if stack.len() == 0 {
        stack
    } else {
        let k = stack.last().info.kind;
        if (k matches LexicalKind::Heading(l) && l < level) || k == LexicalKind::Block
            || stack.len() <= 1 {
            stack
        } else {
            close_for_heading(finish_frame(stack), level)
        }
    }
}

/// Closes every frame above the sentinel.
pub open spec fn drain(stack: Seq<FrameV>) -> Seq<FrameV> {
    close_above(stack, 2)
}

/// The naming context in force for the children of a node.
pub open spec fn entered(ctx: IdentContext, kind: SyntaxKind) -> IdentContext {
    match kind {
        SyntaxKind::RefMarker | SyntaxKind::LetBinding => IdentContext::Ref,
        SyntaxKind::Closure => IdentContext::Func,
        SyntaxKind::Params => IdentContext::Params,
        _ => ctx,
    }
}

/// What the leaf classifier decides for one node: `Err` on the tree/shape
/// inconsistency (a label or identifier tag on a node that is not a leaf
/// token), `Ok(None)` when the node is no symbol by itself, and
/// `Ok(Some(entry))` otherwise. `parent` and `idx` locate the node among its
/// siblings; the classifier reads of them only the parent's kind and depth
/// and the nearest non-trivia sibling before the node.
pub open spec fn classify(
    sk: LexicalScopeKind,
    ctx: IdentContext,
    node: SyntaxNode,
    parent: Option<SyntaxNode>,
    idx: int,
) -> Result<Option<InfoV>, ()> {
    let start = node.start as int;
    let end = node.end as int;
    match node.kind {
        SyntaxKind::Label => if sk == LexicalScopeKind::Symbol {
            let prev = match parent {
                Option::Some(p) => spec_prev_nontrivia_kind(p.children@, idx),
                Option::None => Option::None,
            };
            if prev matches Option::Some(pk) && (matches!(
                pk,
                SyntaxKind::LeftBracket
                    | SyntaxKind::LeftBrace
                    | SyntaxKind::LeftParen
                    | SyntaxKind::Comma
                    | SyntaxKind::Colon
            ) || pk.is_keyword_spec()) {
                Result::Ok(Option::None)
            } else if !node.is_leaf() {
                Result::Err(())
            } else {
                Result::Ok(
                    Option::Some(
                        InfoV {
                            name: spec_label_name(node.text@),
                            kind: LexicalKind::Var(LexicalVarKind::Label),
                            start,
                            end,
                        },
                    ),
                )
            }
        } else {
            Result::Ok(Option::None)
        },
        SyntaxKind::Ident => if sk == LexicalScopeKind::Symbol {
            if !node.is_leaf() {
                Result::Err(())
            } else {
                match ctx {
                    IdentContext::Func => Result::Ok(
                        Option::Some(
                            InfoV {
                                name: node.text@,
                                kind: LexicalKind::Var(LexicalVarKind::Function),
                                start,
                                end,
                            },
                        ),
                    ),
                    IdentContext::Var | IdentContext::Params => Result::Ok(
                        Option::Some(
                            InfoV {
                                name: node.text@,
                                kind: LexicalKind::Var(LexicalVarKind::Variable),
                                start,
                                end,
                            },
                        ),
                    ),
                    _ => Result::Ok(Option::None),
                }
            }
        } else {
            Result::Ok(Option::None)
        },
        SyntaxKind::Equation | SyntaxKind::Raw | SyntaxKind::BlockComment => if sk
            == LexicalScopeKind::Braced {
            Result::Ok(
                Option::Some(
                    InfoV { name: Seq::empty(), kind: LexicalKind::Block, start, end },
                ),
            )
        } else {
            Result::Ok(Option::None)
        },
        SyntaxKind::CodeBlock | SyntaxKind::ContentBlock => if sk == LexicalScopeKind::Braced {
            Result::Ok(
                Option::Some(
                    InfoV { name: Seq::empty(), kind: LexicalKind::Block, start, end },
                ),
            )
        } else {
            Result::Ok(Option::None)
        },
        SyntaxKind::Parenthesized
        | SyntaxKind::Destructuring
        | SyntaxKind::Args
        | SyntaxKind::Array
        | SyntaxKind::Dict
        | SyntaxKind::Params => if sk == LexicalScopeKind::Braced {
            Result::Ok(
                Option::Some(
                    InfoV { name: Seq::empty(), kind: LexicalKind::Block, start, end },
                ),
            )
        } else {
            Result::Ok(Option::None)
        },
        SyntaxKind::Markup => {
            let name = spec_subtree_text(node);
            if name.len() == 0 {
                Result::Ok(Option::None)
            } else {
                match parent {
                    Option::None => Result::Ok(Option::None),
                    Option::Some(p) => if p.kind == SyntaxKind::Heading {
                        // The entry stands for the whole heading construct,
                        // so its range is the heading's, marker included.
                        Result::Ok(
                            Option::Some(
                                InfoV {
                                    name,
                                    kind: LexicalKind::Heading(spec_heading_depth(p)),
                                    start: p.start as int,
                                    end: p.end as int,
                                },
                            ),
                        )
                    } else {
                        Result::Ok(Option::None)
                    },
                }
            }
        },
        _ => Result::Ok(Option::None),
    }
}

/// One step of the traversal on one node: classification, then either the
/// frame discipline for a classified entry or the structural dispatch.
pub open spec fn step_node(
    sk: LexicalScopeKind,
    stack: Seq<FrameV>,
    ctx: IdentContext,
    node: SyntaxNode,
    parent: Option<SyntaxNode>,
    idx: int,
) -> Result<Seq<FrameV>, ()>
    decreases node, 3int, 0int,
{
    match classify(sk, ctx, node, parent, idx) {
        Result::Err(e) => Result::Err(()),
        Result::Ok(oi) => step_after_classify(sk, stack, entered(ctx, node.kind), node, oi),
    }
}

/// The traversal of one node after its classification, under the naming
/// context already in force for its children.
pub open spec fn step_after_classify(
    sk: LexicalScopeKind,
    stack: Seq<FrameV>,
    ctx2: IdentContext,
    node: SyntaxNode,
    oi: Option<InfoV>,
) -> Result<Seq<FrameV>, ()>
    decreases node, 2int, 1int,
{
    match oi {
        Option::Some(info) => {
            let stack1 = match info.kind {
                LexicalKind::Heading(lvl) => close_for_heading(stack, lvl),
                _ => stack,
            };
            let stack2 = stack1.push(FrameV { info, pending: Seq::empty() });
            let h = stack2.len() as int;
            let walked = if node.kind == SyntaxKind::ModuleImport {
                Result::Ok(stack2)
            } else {
                step_children(sk, stack2, ctx2, node, 0)
            };
            match walked {
                Result::Err(e) => Result::Err(()),
                Result::Ok(st) => Result::Ok(
                    match info.kind {
                        LexicalKind::Heading(_) => close_above(st, h + 1),
                        _ => close_above(st, h),
                    },
                ),
            }
        },
        Option::None => match node.kind {
            SyntaxKind::LineComment => Result::Ok(step_line_comment(stack, node)),
            SyntaxKind::Space => Result::Ok(
                stack.push(
                    FrameV {
                        info: InfoV {
                            name: Seq::empty(),
                            kind: LexicalKind::Space,
                            start: node.start as int,
                            end: node.end as int,
                        },
                        pending: Seq::empty(),
                    },
                ),
            ),
            SyntaxKind::LetBinding => step_let_binding(sk, stack, node),
            SyntaxKind::ForLoop => step_for_loop(sk, stack, node),
            SyntaxKind::Closure => step_closure(sk, stack, ctx2, node),
            SyntaxKind::FieldAccess => step_first_sub_expr(
                sk,
                stack,
                ctx2,
                node,
                false,
                Option::None,
            ),
            SyntaxKind::Named => step_named(sk, stack, ctx2, node),
            // A module-level import is a closed reference boundary: its
            // subtree is not walked at all, so nothing inside one — not
            // even a node that would otherwise classify — contributes an
            // entry or aborts the traversal.
            SyntaxKind::ModuleImport => Result::Ok(stack),
            _ => if node.kind.is_trivia_spec() || node.kind.is_keyword_spec()
                || node.kind.is_error_spec() {
                Result::Ok(stack)
            } else {
                step_children(sk, stack, ctx2, node, 0)
            },
        },
    }
}

/// A line comment merges with an immediately preceding open comment run
/// when exactly one whitespace marker frame stands between them and the
/// marker exactly fills the gap between the two — any other content between
/// the runs widens the gap and prevents the merge. On a merge the marker is
/// dropped, the run's start is kept, and a fresh comment frame covering
/// both opens; otherwise a fresh comment frame opens. A blank line in
/// markup is a paragraph break, which leaves no marker frame, so comments
/// separated by one never merge.
pub open spec fn step_line_comment(stack: Seq<FrameV>, node: SyntaxNode) -> Seq<FrameV> {
    let end = node.end as int;
    if stack.len() >= 1 && stack.last().info.kind == LexicalKind::Space {
        let marker = stack.last().info;
        let stack1 = stack.drop_last();
        if stack1.len() >= 1 && stack1.last().info.kind == LexicalKind::LineComment
            && stack1.last().info.end == marker.start && marker.end == node.start as int {
            stack1.drop_last().push(
                FrameV {
                    info: InfoV {
                        name: Seq::empty(),
                        kind: LexicalKind::LineComment,
                        start: stack1.last().info.start,
                        end,
                    },
                    pending: Seq::empty(),
                },
            )
        } else {
            stack1.push(
                FrameV {
                    info: InfoV {
                        name: Seq::empty(),
                        kind: LexicalKind::LineComment,
                        start: node.start as int,
                        end,
                    },
                    pending: Seq::empty(),
                },
            )
        }
    } else {
        stack.push(
            FrameV {
                info: InfoV {
                    name: Seq::empty(),
                    kind: LexicalKind::LineComment,
                    start: node.start as int,
                    end,
                },
                pending: Seq::empty(),
            },
        )
    }
}

/// A let binding: a bound pattern that is a closure is delegated entirely to
/// the closure rule, which recovers the binding name itself. Otherwise the
/// pattern declares names, and the bound expression — the last expression
/// child, provided it starts after the pattern — is walked as references.
pub open spec fn step_let_binding(
    sk: LexicalScopeKind,
    stack: Seq<FrameV>,
    node: SyntaxNode,
) -> Result<Seq<FrameV>, ()>
    decreases node, 1int, 1int,
{
    let cs = node.children@;
    match spec_first_pattern_idx(cs, 0) {
        Option::Some(pi) => if !(0 <= pi < cs.len()) {
            Result::Ok(stack)
        } else if cs[pi].kind == SyntaxKind::Closure {
            step_node(sk, stack, IdentContext::Ref, cs[pi], Option::Some(node), pi)
        } else {
            match step_node(sk, stack, IdentContext::Var, cs[pi], Option::Some(node), pi) {
                Result::Err(e) => Result::Err(()),
                Result::Ok(st) => step_first_sub_expr(
                    sk,
                    st,
                    IdentContext::Ref,
                    node,
                    true,
                    Option::Some(cs[pi].start as int),
                ),
            }
        },
        Option::None => step_first_sub_expr(sk, stack, IdentContext::Ref, node, true, Option::None),
    }
}

/// A for loop: the iterable (the first expression from the `in` keyword on)
/// is walked as references, the loop pattern declares names, and the body —
/// the last expression, provided it starts after the iterable — is walked
/// as references.
pub open spec fn step_for_loop(
    sk: LexicalScopeKind,
    stack: Seq<FrameV>,
    node: SyntaxNode,
) -> Result<Seq<FrameV>, ()>
    decreases node, 1int, 1int,
{
    let cs = node.children@;
    let iter = match spec_first_kind_idx(cs, SyntaxKind::In, 0) {
        Option::None => Option::None,
        Option::Some(k) => match spec_first_expr_idx(cs, k) {
            Option::Some(j) => if 0 <= j < cs.len() {
                Option::Some(j)
            } else {
                Option::None
            },
            Option::None => Option::None,
        },
    };
    let iter_offset = match iter {
        Option::Some(j) => Option::Some(cs[j].start as int),
        Option::None => Option::None,
    };
    let walked_iter = match iter {
        Option::Some(j) => step_node(sk, stack, IdentContext::Ref, cs[j], Option::Some(node), j),
        Option::None => Result::Ok(stack),
    };
    match walked_iter {
        Result::Err(e) => Result::Err(()),
        Result::Ok(st1) => {
            let walked_pat = match spec_first_pattern_idx(cs, 0) {
                Option::Some(pi) => if 0 <= pi < cs.len() {
                    step_node(sk, st1, IdentContext::Var, cs[pi], Option::Some(node), pi)
                } else {
                    Result::Ok(st1)
                },
                Option::None => Result::Ok(st1),
            };
            match walked_pat {
                Result::Err(e) => Result::Err(()),
                Result::Ok(st2) => step_first_sub_expr(
                    sk,
                    st2,
                    IdentContext::Ref,
                    node,
                    true,
                    iter_offset,
                ),
            }
        },
    }
}

/// A closure. Where identifiers participate, a leading identifier is walked
/// as a function name, which may deposit a named entry; the entry is taken
/// over (or an anonymous one is made up) with its range widened to the
/// whole closure, a frame opens for it, the body — the last expression
/// child — is walked as references, and everything down to the closure's
/// own frame is closed. Under the coarse configuration names do not
/// participate at all: the closure's children are walked as plain
/// structure, letting its parameter list and body group.
pub open spec fn step_closure(
    sk: LexicalScopeKind,
    stack: Seq<FrameV>,
    ctx2: IdentContext,
    node: SyntaxNode,
) -> Result<Seq<FrameV>, ()>
    decreases node, 2int, 0int,
{
    if sk != LexicalScopeKind::Symbol {
        step_children(sk, stack, ctx2, node, 0)
    } else {
        step_closure_named(sk, stack, node)
    }
}

/// The fine-grained closure rule: name recovery, the widened frame, and the
/// body walk.
pub open spec fn step_closure_named(
    sk: LexicalScopeKind,
    stack: Seq<FrameV>,
    node: SyntaxNode,
) -> Result<Seq<FrameV>, ()>
    decreases node, 1int, 1int,
{
    let cs = node.children@;
    let cur = if stack.len() >= 1 {
        stack.last().pending.len() as int
    } else {
        0
    };
    let walked_name = if cs.len() > 0 && cs[0].kind == SyntaxKind::Ident {
        step_node(sk, stack, IdentContext::Func, cs[0], Option::Some(node), 0)
    } else {
        Result::Ok(stack)
    };
    match walked_name {
        Result::Err(e) => Result::Err(()),
        Result::Ok(st1) => match spec_last_expr_idx(cs, cs.len() as int) {
            Option::None => Result::Ok(st1),
            Option::Some(bj) => if !(0 <= bj < cs.len()) {
                Result::Ok(st1)
            } else {
                let pend = if st1.len() >= 1 {
                    st1.last().pending
                } else {
                    Seq::empty()
                };
                let anonymous = pend.len() == cur || pend.len() == 0;
                let info = if anonymous {
                    InfoV {
                        name: ("anonymous")@,
                        kind: LexicalKind::Var(LexicalVarKind::Function),
                        start: node.start as int,
                        end: node.end as int,
                    }
                } else {
                    InfoV {
                        name: pend.last().info.name,
                        kind: pend.last().info.kind,
                        start: node.start as int,
                        end: node.end as int,
                    }
                };
                let st1b = if anonymous {
                    st1
                } else {
                    st1.drop_last().push(
                        FrameV { info: st1.last().info, pending: pend.drop_last() },
                    )
                };
                let st2 = st1b.push(FrameV { info, pending: Seq::empty() });
                let h = st2.len() as int;
                match step_node(sk, st2, IdentContext::Ref, cs[bj], Option::Some(node), bj) {
                    Result::Err(e) => Result::Err(()),
                    Result::Ok(st3) => Result::Ok(close_above(st3, h)),
                }
            },
        },
    }
}

/// A named pair: the value (the last expression child) is walked under the
/// ambient context; inside a parameter list, an identifier child
/// additionally declares a name (a default-valued parameter).
pub open spec fn step_named(
    sk: LexicalScopeKind,
    stack: Seq<FrameV>,
    ctx2: IdentContext,
    node: SyntaxNode,
) -> Result<Seq<FrameV>, ()>
    decreases node, 1int, 1int,
{
    match step_first_sub_expr(sk, stack, ctx2, node, true, Option::None) {
        Result::Err(e) => Result::Err(()),
        Result::Ok(st1) => if ctx2 == IdentContext::Params {
            match spec_first_kind_idx(node.children@, SyntaxKind::Ident, 0) {
                Option::Some(ii) => if 0 <= ii < node.children@.len() {
                    step_node(sk, st1, IdentContext::Var, node.children@[ii], Option::Some(node), ii)
                } else {
                    Result::Ok(st1)
                },
                Option::None => Result::Ok(st1),
            }
        } else {
            Result::Ok(st1)
        },
    }
}

/// Walks the first expression child (the last one when `rev`) under the
/// given naming context; with `after` given, only when the expression
/// starts after that offset.
pub open spec fn step_first_sub_expr(
    sk: LexicalScopeKind,
    stack: Seq<FrameV>,
    ctx: IdentContext,
    node: SyntaxNode,
    rev: bool,
    after: Option<int>,
) -> Result<Seq<FrameV>, ()>
    decreases node, 0int, 0int,
{
    let cs = node.children@;
    let found = if rev {
        spec_last_expr_idx(cs, cs.len() as int)
    } else {
        spec_first_expr_idx(cs, 0)
    };
    match found {
        Option::None => Result::Ok(stack),
        Option::Some(j) => if !(0 <= j < cs.len()) {
            Result::Ok(stack)
        } else if after matches Option::Some(off) && off >= cs[j].start as int {
            Result::Ok(stack)
        } else {
            step_node(sk, stack, ctx, cs[j], Option::Some(node), j)
        },
    }
}

/// Walks the children of `node` from index `from` on, in document order.
pub open spec fn step_children(
    sk: LexicalScopeKind,
    stack: Seq<FrameV>,
    ctx: IdentContext,
    node: SyntaxNode,
    from: int,
) -> Result<Seq<FrameV>, ()>
    decreases node, 1int, node.children@.len() - from,
{
    if from < 0 || from >= node.children@.len() {
        Result::Ok(stack)
    } else {
        match step_node(sk, stack, ctx, node.children@[from], Option::Some(node), from) {
            Result::Err(e) => Result::Err(()),
            Result::Ok(st) => step_children(sk, st, ctx, node, from + 1),
        }
    }
}

/// The full traversal: the sentinel frame is pushed, the root is walked in
/// the default reference context, every remaining open frame is drained,
/// and the sentinel's accumulated children are the result. The tree/shape
/// inconsistency yields no result at all.
pub open spec fn spec_lexical_hierarchy(root: SyntaxNode, sk: LexicalScopeKind) -> Option<
    Seq<HierV>,
> {
    let init = seq![sentinel_frame()];
    match step_node(sk, init, IdentContext::Ref, root, Option::None, 0) {
        Result::Err(e) => Option::None,
        Result::Ok(st) => Option::Some(drain(st)[0].pending),
    }
}

} // verus!
