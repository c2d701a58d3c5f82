//! Properties proved of every traversal result.
//!
//! The main one: every forest the traversal returns is well formed — a
//! node's `children` is `None` exactly when it has no nested entries (an
//! empty-but-present list is never produced), and every entry is a heading,
//! a named symbol, an anonymous block or a comment run: neither the reserved
//! roles that no rule constructs nor the internal whitespace marker ever
//! appear. Module-level imports are proved inert: walking one leaves the
//! traversal state unchanged, so they contribute no entries under any
//! configuration. A tree whose kind tags disagree with its shape is proved
//! to yield no result at all.

use vstd::prelude::*;

verus! {

use crate::semantics::FrameV;
use crate::semantics::classify;
use crate::semantics::close_above;
use crate::semantics::close_for_heading;
use crate::semantics::drain;
use crate::semantics::finish_frame;
use crate::semantics::sentinel_frame;
use crate::semantics::spec_lexical_hierarchy;
use crate::semantics::step_after_classify;
use crate::semantics::step_children;
use crate::semantics::step_closure;
use crate::semantics::step_first_sub_expr;
use crate::semantics::step_for_loop;
use crate::semantics::step_let_binding;
use crate::semantics::step_line_comment;
use crate::semantics::step_named;
use crate::semantics::step_node;
use crate::symbols::HierV;
use crate::symbols::IdentContext;
use crate::symbols::InfoV;
use crate::symbols::LexicalKind;
use crate::symbols::LexicalScopeKind;
use crate::symbols::LexicalVarKind;
use crate::syntax::SyntaxKind;
use crate::syntax::SyntaxNode;

/// The kinds the traversal ever writes into an entry: the reserved roles
/// (`ValRef`, `LabelRef`, `BibKey`) are never among them, and neither is the
/// internal whitespace marker — every entry is a heading, a named symbol, an
/// anonymous block, or a comment run.
pub open spec fn kind_emitted(k: LexicalKind) -> bool {
    !matches!(
        k,
        LexicalKind::Var(
            LexicalVarKind::ValRef | LexicalVarKind::LabelRef | LexicalVarKind::BibKey,
        ) | LexicalKind::Space
    )
}

/// The kinds an open frame may carry: besides the emitted kinds, a frame
/// may be a whitespace marker, which vanishes when closed.
pub open spec fn frame_kind_ok(k: LexicalKind) -> bool {
    kind_emitted(k) || k == LexicalKind::Space
}

/// A finished node is well formed: its kind is one the traversal emits, its
/// `children` is `None` exactly when it has no nested entries, and the same
/// holds of every nested entry.
pub open spec fn hier_ok(h: HierV) -> bool
    decreases h, 0int,
{
    kind_emitted(h.info.kind) && match h.children {
        Option::None => true,
        Option::Some(cs) => cs.len() > 0 && hiers_ok(cs, cs.len() as int),
    }
}

/// The first `upto` nodes of a sequence are well formed.
pub open spec fn hiers_ok(s: Seq<HierV>, upto: int) -> bool
    decreases s, upto,
{
    if upto <= 0 || upto > s.len() {
        true
    } else {
        hiers_ok(s, upto - 1) && hier_ok(s[upto - 1])
    }
}

/// An open frame is well formed: an allowed frame kind, and well-formed
/// pending children.
pub open spec fn frame_ok(f: FrameV) -> bool {
    frame_kind_ok(f.info.kind) && hiers_ok(f.pending, f.pending.len() as int)
}

/// A well-formed traversal state: the sentinel is still there, and every
/// frame is well formed.
pub open spec fn frames_ok(stack: Seq<FrameV>) -> bool {
    stack.len() >= 1 && forall|i: int| 0 <= i < stack.len() ==> frame_ok(#[trigger] stack[i])
}

/// Sequences agreeing on a prefix agree on its well-formedness.
proof fn lemma_hiers_ok_prefix(s1: Seq<HierV>, s2: Seq<HierV>, upto: int)
    requires
        upto <= s1.len(),
        upto <= s2.len(),
        forall|k: int| 0 <= k < upto ==> s1[k] == s2[k],
    ensures
        hiers_ok(s1, upto) == hiers_ok(s2, upto),
    decreases upto,
{
    if upto > 0 {
        lemma_hiers_ok_prefix(s1, s2, upto - 1);
    }
}

/// Appending a well-formed node keeps a sequence well formed.
proof fn lemma_hiers_ok_push(s: Seq<HierV>, x: HierV)
    requires
        hiers_ok(s, s.len() as int),
        hier_ok(x),
    ensures
        hiers_ok(s.push(x), s.len() as int + 1),
{
    lemma_hiers_ok_prefix(s.push(x), s, s.len() as int);
    assert(s.push(x)[s.len() as int] == x);
}

/// Dropping the last node keeps a sequence well formed.
proof fn lemma_hiers_ok_drop_last(s: Seq<HierV>)
    requires
        s.len() > 0,
        hiers_ok(s, s.len() as int),
    ensures
        hiers_ok(s.drop_last(), s.len() - 1),
        hier_ok(s.last()),
{
    lemma_hiers_ok_prefix(s.drop_last(), s, s.len() - 1);
}

/// Concatenating well-formed sequences keeps them well formed.
proof fn lemma_hiers_ok_concat(a: Seq<HierV>, b: Seq<HierV>)
    requires
        hiers_ok(a, a.len() as int),
        hiers_ok(b, b.len() as int),
    ensures
        hiers_ok(a + b, (a + b).len() as int),
    decreases b.len(),
{
    if b.len() == 0 {
        assert(a + b =~= a);
    } else {
        lemma_hiers_ok_drop_last(b);
        lemma_hiers_ok_concat(a, b.drop_last());
        lemma_hiers_ok_push(a + b.drop_last(), b.last());
        assert((a + b.drop_last()).push(b.last()) =~= a + b);
    }
}

/// Closing the top frame preserves well-formedness.
proof fn lemma_finish_frame_ok(stack: Seq<FrameV>)
    requires
        frames_ok(stack),
    ensures
        frames_ok(finish_frame(stack)),
        finish_frame(stack).len() >= 1,
{
    if stack.len() >= 2 {
        let top = stack.last();
        let parent = stack.drop_last().last();
        assert(frame_ok(stack[stack.len() - 1]));
        assert(frame_ok(stack[stack.len() - 2]));
        if top.info.kind == LexicalKind::Space {
            lemma_hiers_ok_concat(parent.pending, top.pending);
        } else {
            let node = HierV {
                info: top.info,
                children: if top.pending.len() == 0 {
                    Option::None
                } else {
                    Option::Some(top.pending)
                },
            };
            assert(hier_ok(node));
            lemma_hiers_ok_push(parent.pending, node);
        }
        let res = finish_frame(stack);
        assert forall|i: int| 0 <= i < res.len() implies frame_ok(#[trigger] res[i]) by {
            if i < res.len() - 1 {
                assert(res[i] == stack[i]);
                assert(frame_ok(stack[i]));
            }
        }
    }
}

/// Closing down to a bound preserves well-formedness.
proof fn lemma_close_above_ok(stack: Seq<FrameV>, bound: int)
    requires
        frames_ok(stack),
    ensures
        frames_ok(close_above(stack, bound)),
    decreases stack.len(),
{
    if stack.len() >= bound && stack.len() >= 2 {
        lemma_finish_frame_ok(stack);
        lemma_close_above_ok(finish_frame(stack), bound);
    }
}

/// The heading rule's closing preserves well-formedness.
proof fn lemma_close_for_heading_ok(stack: Seq<FrameV>, level: i16)
    requires
        frames_ok(stack),
    ensures
        frames_ok(close_for_heading(stack, level)),
    decreases stack.len(),
{
    let k = stack.last().info.kind;
    if !((k matches LexicalKind::Heading(l) && l < level) || k == LexicalKind::Block
        || stack.len() <= 1) {
        lemma_finish_frame_ok(stack);
        lemma_close_for_heading_ok(finish_frame(stack), level);
    }
}

/// Pushing a well-formed frame preserves well-formedness.
proof fn lemma_frames_ok_push(stack: Seq<FrameV>, f: FrameV)
    requires
        forall|i: int| 0 <= i < stack.len() ==> frame_ok(#[trigger] stack[i]),
        frame_ok(f),
    ensures
        frames_ok(stack.push(f)),
{
    assert forall|i: int| 0 <= i < stack.push(f).len() implies frame_ok(
        #[trigger] stack.push(f)[i],
    ) by {
        if i < stack.len() {
            assert(stack.push(f)[i] == stack[i]);
        } else {
            assert(stack.push(f)[i] == f);
        }
    }
}

/// An empty pending list is well formed.
proof fn lemma_hiers_ok_empty()
    ensures
        hiers_ok(Seq::<HierV>::empty(), 0),
{
}

/// Whatever the classifier produces has an emitted kind.
proof fn lemma_classify_emitted(
    sk: LexicalScopeKind,
    ctx: IdentContext,
    node: SyntaxNode,
    parent: Option<SyntaxNode>,
    idx: int,
)
    ensures
        classify(sk, ctx, node, parent, idx) matches Result::Ok(Option::Some(i))
            ==> kind_emitted(i.kind),
{
}

/// Opening a comment frame (with or without a merge) preserves
/// well-formedness.
proof fn lemma_step_line_comment_ok(stack: Seq<FrameV>, node: SyntaxNode)
    requires
        frames_ok(stack),
    ensures
        frames_ok(step_line_comment(stack, node)),
{
    lemma_hiers_ok_empty();
    let res = step_line_comment(stack, node);
    assert forall|i: int| 0 <= i < res.len() implies frame_ok(#[trigger] res[i]) by {
        if i < res.len() - 1 {
            assert(res[i] == stack[i]);
        }
    }
}

/// One step of the traversal preserves well-formedness of the state.
proof fn lemma_step_node_ok(
    sk: LexicalScopeKind,
    stack: Seq<FrameV>,
    ctx: IdentContext,
    node: SyntaxNode,
    parent: Option<SyntaxNode>,
    idx: int,
)
    requires
        frames_ok(stack),
    ensures
        step_node(sk, stack, ctx, node, parent, idx) matches Result::Ok(st) ==> frames_ok(st),
    decreases node, 3int, 0int,
{
    lemma_classify_emitted(sk, ctx, node, parent, idx);
    match classify(sk, ctx, node, parent, idx) {
        Result::Err(e) => {},
        Result::Ok(oi) => {
            lemma_step_after_classify_ok(
                sk,
                stack,
                crate::semantics::entered(ctx, node.kind),
                node,
                oi,
            );
        },
    }
}

/// The traversal after classification preserves well-formedness.
proof fn lemma_step_after_classify_ok(
    sk: LexicalScopeKind,
    stack: Seq<FrameV>,
    ctx2: IdentContext,
    node: SyntaxNode,
    oi: Option<InfoV>,
)
    requires
        frames_ok(stack),
        oi matches Option::Some(i) ==> kind_emitted(i.kind),
    ensures
        step_after_classify(sk, stack, ctx2, node, oi) matches Result::Ok(st) ==> frames_ok(st),
    decreases node, 2int, 1int,
{
    match oi {
        Option::Some(info) => {
            let stack1 = match info.kind {
                LexicalKind::Heading(lvl) => close_for_heading(stack, lvl),
                _ => stack,
            };
            match info.kind {
                LexicalKind::Heading(lvl) => lemma_close_for_heading_ok(stack, lvl),
                _ => {},
            }
            lemma_hiers_ok_empty();
            let fresh = FrameV { info, pending: Seq::empty() };
            lemma_frames_ok_push(stack1, fresh);
            let stack2 = stack1.push(fresh);
            let h = stack2.len() as int;
            if node.kind != SyntaxKind::ModuleImport {
                lemma_step_children_ok(sk, stack2, ctx2, node, 0);
            }
            let walked = if node.kind == SyntaxKind::ModuleImport {
                Result::<Seq<FrameV>, ()>::Ok(stack2)
            } else {
                step_children(sk, stack2, ctx2, node, 0)
            };
            match walked {
                Result::Ok(st) => match info.kind {
                    LexicalKind::Heading(_) => lemma_close_above_ok(st, h + 1),
                    _ => lemma_close_above_ok(st, h),
                },
                Result::Err(_) => {},
            }
        },
        Option::None => {
            match node.kind {
                SyntaxKind::LineComment => lemma_step_line_comment_ok(stack, node),
                SyntaxKind::Space => {
                    lemma_hiers_ok_empty();
                    lemma_frames_ok_push(
                        stack,
                        FrameV {
                            info: InfoV {
                                name: Seq::empty(),
                                kind: LexicalKind::Space,
                                start: node.start as int,
                                end: node.end as int,
                            },
                            pending: Seq::empty(),
                        },
                    );
                },
                SyntaxKind::LetBinding => lemma_step_let_binding_ok(sk, stack, node),
                SyntaxKind::ForLoop => lemma_step_for_loop_ok(sk, stack, node),
                SyntaxKind::Closure => lemma_step_closure_ok(sk, stack, ctx2, node),
                SyntaxKind::FieldAccess => lemma_step_first_sub_expr_ok(
                    sk,
                    stack,
                    ctx2,
                    node,
                    false,
                    Option::None,
                ),
                SyntaxKind::Named => lemma_step_named_ok(sk, stack, ctx2, node),
                SyntaxKind::ModuleImport => {},
                _ => {
                    if !(node.kind.is_trivia_spec() || node.kind.is_keyword_spec()
                        || node.kind.is_error_spec()) {
                        lemma_step_children_ok(sk, stack, ctx2, node, 0);
                    }
                },
            }
        },
    }
}

/// The let-binding rule preserves well-formedness.
proof fn lemma_step_let_binding_ok(sk: LexicalScopeKind, stack: Seq<FrameV>, node: SyntaxNode)
    requires
        frames_ok(stack),
    ensures
        step_let_binding(sk, stack, node) matches Result::Ok(st) ==> frames_ok(st),
    decreases node, 1int, 1int,
{
    let cs = node.children@;
    match crate::syntax::spec_first_pattern_idx(cs, 0) {
        Option::Some(pi) => {
            if 0 <= pi < cs.len() {
                if cs[pi].kind == SyntaxKind::Closure {
                    lemma_step_node_ok(sk, stack, IdentContext::Ref, cs[pi], Option::Some(node), pi);
                } else {
                    lemma_step_node_ok(sk, stack, IdentContext::Var, cs[pi], Option::Some(node), pi);
                    match step_node(sk, stack, IdentContext::Var, cs[pi], Option::Some(node), pi) {
                        Result::Ok(st) => lemma_step_first_sub_expr_ok(
                            sk,
                            st,
                            IdentContext::Ref,
                            node,
                            true,
                            Option::Some(cs[pi].start as int),
                        ),
                        Result::Err(_) => {},
                    }
                }
            }
        },
        Option::None => {
            lemma_step_first_sub_expr_ok(sk, stack, IdentContext::Ref, node, true, Option::None);
        },
    }
}

/// The for-loop rule preserves well-formedness.
proof fn lemma_step_for_loop_ok(sk: LexicalScopeKind, stack: Seq<FrameV>, node: SyntaxNode)
    requires
        frames_ok(stack),
    ensures
        step_for_loop(sk, stack, node) matches Result::Ok(st) ==> frames_ok(st),
    decreases node, 1int, 1int,
{
    let cs = node.children@;
    let iter = match crate::syntax::spec_first_kind_idx(cs, SyntaxKind::In, 0) {
        Option::None => Option::None,
        Option::Some(k) => match crate::syntax::spec_first_expr_idx(cs, k) {
            Option::Some(j) => if 0 <= j < cs.len() {
                Option::Some(j)
            } else {
                Option::None
            },
            Option::None => Option::None,
        },
    };
    let iter_offset = match iter {
        Option::Some(j) => Option::Some(cs[j].start as int),
        Option::None => Option::None,
    };
    match iter {
        Option::Some(j) => lemma_step_node_ok(
            sk,
            stack,
            IdentContext::Ref,
            cs[j],
            Option::Some(node),
            j,
        ),
        Option::None => {},
    }
    let walked_iter = match iter {
        Option::Some(j) => step_node(sk, stack, IdentContext::Ref, cs[j], Option::Some(node), j),
        Option::None => Result::<Seq<FrameV>, ()>::Ok(stack),
    };
    match walked_iter {
        Result::Err(_) => {},
        Result::Ok(st1) => match crate::syntax::spec_first_pattern_idx(cs, 0) {
            Option::Some(pi) => {
                if 0 <= pi < cs.len() {
                    lemma_step_node_ok(sk, st1, IdentContext::Var, cs[pi], Option::Some(node), pi);
                    match step_node(sk, st1, IdentContext::Var, cs[pi], Option::Some(node), pi) {
                        Result::Ok(st2) => lemma_step_first_sub_expr_ok(
                            sk,
                            st2,
                            IdentContext::Ref,
                            node,
                            true,
                            iter_offset,
                        ),
                        Result::Err(_) => {},
                    }
                } else {
                    lemma_step_first_sub_expr_ok(sk, st1, IdentContext::Ref, node, true, iter_offset);
                }
            },
            Option::None => {
                lemma_step_first_sub_expr_ok(sk, st1, IdentContext::Ref, node, true, iter_offset);
            },
        },
    }
}

/// The closure rule preserves well-formedness.
proof fn lemma_step_closure_ok(
    sk: LexicalScopeKind,
    stack: Seq<FrameV>,
    ctx2: IdentContext,
    node: SyntaxNode,
)
    requires
        frames_ok(stack),
    ensures
        step_closure(sk, stack, ctx2, node) matches Result::Ok(st) ==> frames_ok(st),
    decreases node, 2int, 0int,
{
    if sk != LexicalScopeKind::Symbol {
        lemma_step_children_ok(sk, stack, ctx2, node, 0);
    } else {
        lemma_step_closure_named_ok(sk, stack, node);
    }
}

/// The fine-grained closure rule preserves well-formedness.
proof fn lemma_step_closure_named_ok(sk: LexicalScopeKind, stack: Seq<FrameV>, node: SyntaxNode)
    requires
        frames_ok(stack),
    ensures
        crate::semantics::step_closure_named(sk, stack, node) matches Result::Ok(st)
            ==> frames_ok(st),
    decreases node, 1int, 1int,
{
    let cs = node.children@;
    let cur = if stack.len() >= 1 {
        stack.last().pending.len() as int
    } else {
        0
    };
    if cs.len() > 0 && cs[0].kind == SyntaxKind::Ident {
        lemma_step_node_ok(sk, stack, IdentContext::Func, cs[0], Option::Some(node), 0);
    }
    let walked_name = if cs.len() > 0 && cs[0].kind == SyntaxKind::Ident {
        step_node(sk, stack, IdentContext::Func, cs[0], Option::Some(node), 0)
    } else {
        Result::<Seq<FrameV>, ()>::Ok(stack)
    };
    match walked_name {
        Result::Err(_) => {},
        Result::Ok(st1) => match crate::syntax::spec_last_expr_idx(cs, cs.len() as int) {
            Option::None => {},
            Option::Some(bj) => {
                if 0 <= bj < cs.len() {
                    let pend = if st1.len() >= 1 {
                        st1.last().pending
                    } else {
                        Seq::empty()
                    };
                    let anonymous = pend.len() == cur || pend.len() == 0;
                    assert(frame_ok(st1[st1.len() - 1]));
                    if !anonymous {
                        lemma_hiers_ok_drop_last(pend);
                    }
                    let info = if anonymous {
                        InfoV {
                            name: ("anonymous")@,
                            kind: LexicalKind::Var(LexicalVarKind::Function),
                            start: node.start as int,
                            end: node.end as int,
                        }
                    } else {
                        InfoV {
                            name: pend.last().info.name,
                            kind: pend.last().info.kind,
                            start: node.start as int,
                            end: node.end as int,
                        }
                    };
                    let st1b = if anonymous {
                        st1
                    } else {
                        st1.drop_last().push(
                            FrameV { info: st1.last().info, pending: pend.drop_last() },
                        )
                    };
                    if !anonymous {
                        assert forall|i: int| 0 <= i < st1.drop_last().len() implies frame_ok(
                            #[trigger] st1.drop_last()[i],
                        ) by {
                            assert(st1.drop_last()[i] == st1[i]);
                        }
                        lemma_frames_ok_push(
                            st1.drop_last(),
                            FrameV { info: st1.last().info, pending: pend.drop_last() },
                        );
                    }
                    assert(frames_ok(st1b));
                    assert(kind_emitted(info.kind));
                    lemma_hiers_ok_empty();
                    lemma_frames_ok_push(st1b, FrameV { info, pending: Seq::empty() });
                    let st2 = st1b.push(FrameV { info, pending: Seq::empty() });
                    let h = st2.len() as int;
                    lemma_step_node_ok(sk, st2, IdentContext::Ref, cs[bj], Option::Some(node), bj);
                    match step_node(sk, st2, IdentContext::Ref, cs[bj], Option::Some(node), bj) {
                        Result::Ok(st3) => lemma_close_above_ok(st3, h),
                        Result::Err(_) => {},
                    }
                }
            },
        },
    }
}

/// The named-pair rule preserves well-formedness.
proof fn lemma_step_named_ok(
    sk: LexicalScopeKind,
    stack: Seq<FrameV>,
    ctx2: IdentContext,
    node: SyntaxNode,
)
    requires
        frames_ok(stack),
    ensures
        step_named(sk, stack, ctx2, node) matches Result::Ok(st) ==> frames_ok(st),
    decreases node, 1int, 1int,
{
    lemma_step_first_sub_expr_ok(sk, stack, ctx2, node, true, Option::None);
    match step_first_sub_expr(sk, stack, ctx2, node, true, Option::None) {
        Result::Err(_) => {},
        Result::Ok(st1) => {
            if ctx2 == IdentContext::Params {
                match crate::syntax::spec_first_kind_idx(node.children@, SyntaxKind::Ident, 0) {
                    Option::Some(ii) => {
                        if 0 <= ii < node.children@.len() {
                            lemma_step_node_ok(
                                sk,
                                st1,
                                IdentContext::Var,
                                node.children@[ii],
                                Option::Some(node),
                                ii,
                            );
                        }
                    },
                    Option::None => {},
                }
            }
        },
    }
}

/// The sub-expression rule preserves well-formedness.
proof fn lemma_step_first_sub_expr_ok(
    sk: LexicalScopeKind,
    stack: Seq<FrameV>,
    ctx: IdentContext,
    node: SyntaxNode,
    rev: bool,
    after: Option<int>,
)
    requires
        frames_ok(stack),
    ensures
        step_first_sub_expr(sk, stack, ctx, node, rev, after) matches Result::Ok(st)
            ==> frames_ok(st),
    decreases node, 0int, 0int,
{
    let cs = node.children@;
    let found = if rev {
        crate::syntax::spec_last_expr_idx(cs, cs.len() as int)
    } else {
        crate::syntax::spec_first_expr_idx(cs, 0)
    };
    match found {
        Option::None => {},
        Option::Some(j) => {
            if 0 <= j < cs.len() {
                if !(after matches Option::Some(off) && off >= cs[j].start as int) {
                    lemma_step_node_ok(sk, stack, ctx, cs[j], Option::Some(node), j);
                }
            }
        },
    }
}

/// Walking a child list preserves well-formedness.
proof fn lemma_step_children_ok(
    sk: LexicalScopeKind,
    stack: Seq<FrameV>,
    ctx: IdentContext,
    node: SyntaxNode,
    from: int,
)
    requires
        frames_ok(stack),
    ensures
        step_children(sk, stack, ctx, node, from) matches Result::Ok(st) ==> frames_ok(st),
    decreases node, 1int, node.children@.len() - from,
{
    if 0 <= from < node.children@.len() {
        lemma_step_node_ok(sk, stack, ctx, node.children@[from], Option::Some(node), from);
        match step_node(sk, stack, ctx, node.children@[from], Option::Some(node), from) {
            Result::Ok(st) => lemma_step_children_ok(sk, st, ctx, node, from + 1),
            Result::Err(_) => {},
        }
    }
}

/// `t` leaves `base` untouched below height `h`: at least `h` frames are
/// open, the frames strictly beneath `h - 1` are exactly as they were, and
/// the frame at `h - 1` still carries its entry (only its pending children
/// may differ).
pub open spec fn preserves_below(base: Seq<FrameV>, t: Seq<FrameV>, h: int) -> bool {
    &&& t.len() >= h
    &&& forall|i: int| 0 <= i < h - 1 ==> t[i] == base[i]
    &&& h >= 1 ==> t[h - 1].info == base[h - 1].info
}

/// Preservation is transitive.
proof fn lemma_pres_trans(a: Seq<FrameV>, b: Seq<FrameV>, c: Seq<FrameV>, h: int)
    requires
        preserves_below(a, b, h),
        preserves_below(b, c, h),
    ensures
        preserves_below(a, c, h),
{
}

/// Pushing a frame preserves everything beneath it.
proof fn lemma_push_pres(t: Seq<FrameV>, f: FrameV, p: int)
    requires
        t.len() >= p + 1,
        p >= 0,
    ensures
        preserves_below(t, t.push(f), p + 1),
{
}

/// Dropping the top frame preserves everything strictly beneath it.
proof fn lemma_drop_pres(t: Seq<FrameV>, p: int)
    requires
        t.len() >= p + 2,
        p >= 0,
    ensures
        preserves_below(t, t.drop_last(), p + 1),
{
}

/// Replacing the top frame while keeping its entry preserves everything
/// beneath it.
proof fn lemma_modify_top_pres(t: Seq<FrameV>, f: FrameV, p: int)
    requires
        t.len() >= p + 1,
        p >= 0,
        f.info == t.last().info,
    ensures
        preserves_below(t, t.drop_last().push(f), p + 1),
{
}

/// Closing the top frame preserves everything at least two below it.
proof fn lemma_finish_pres(stack: Seq<FrameV>, p: int)
    requires
        stack.len() >= p + 2,
        p >= 0,
    ensures
        preserves_below(stack, finish_frame(stack), p + 1),
{
}

/// The heading rule never closes a block frame or anything beneath it.
proof fn lemma_close_for_heading_pres(t: Seq<FrameV>, level: i16, p: int)
    requires
        0 <= p < t.len(),
        t[p].info.kind == LexicalKind::Block,
    ensures
        preserves_below(t, close_for_heading(t, level), p + 1),
    decreases t.len(),
{
    let k = t.last().info.kind;
    if !((k matches LexicalKind::Heading(l) && l < level) || k == LexicalKind::Block
        || t.len() <= 1) {
        assert(t.len() - 1 != p);
        lemma_finish_pres(t, p);
        lemma_close_for_heading_pres(finish_frame(t), level, p);
        lemma_pres_trans(t, finish_frame(t), close_for_heading(finish_frame(t), level), p + 1);
    }
}

/// Height-bounded closing above a block frame never reaches it.
proof fn lemma_close_above_pres(t: Seq<FrameV>, bound: int, p: int)
    requires
        t.len() >= p + 1,
        p >= 0,
        bound >= p + 2,
    ensures
        preserves_below(t, close_above(t, bound), p + 1),
    decreases t.len(),
{
    if t.len() >= bound && t.len() >= 2 {
        lemma_finish_pres(t, p);
        lemma_close_above_pres(finish_frame(t), bound, p);
        lemma_pres_trans(t, finish_frame(t), close_above(finish_frame(t), bound), p + 1);
    }
}

/// The comment rule never pops a block frame or anything beneath it.
proof fn lemma_line_comment_pres(stack: Seq<FrameV>, node: SyntaxNode, p: int)
    requires
        0 <= p < stack.len(),
        stack[p].info.kind == LexicalKind::Block,
    ensures
        preserves_below(stack, step_line_comment(stack, node), p + 1),
{
    if stack.last().info.kind == LexicalKind::Space {
        assert(stack.len() - 1 != p);
        let stack1 = stack.drop_last();
        lemma_drop_pres(stack, p);
        let marker = stack.last().info;
        if stack1.len() >= 1 && stack1.last().info.kind == LexicalKind::LineComment
            && stack1.last().info.end == marker.start && marker.end == node.start as int {
            assert(stack1.len() - 1 != p);
            lemma_drop_pres(stack1, p);
            lemma_push_pres(stack1.drop_last(), step_line_comment(stack, node).last(), p);
            lemma_pres_trans(stack, stack1, step_line_comment(stack, node), p + 1);
        } else {
            lemma_push_pres(stack1, step_line_comment(stack, node).last(), p);
            lemma_pres_trans(stack, stack1, step_line_comment(stack, node), p + 1);
        }
    } else {
        lemma_push_pres(stack, step_line_comment(stack, node).last(), p);
    }
}

/// One traversal step never closes an open block frame, nor touches any
/// frame beneath it: whatever happens inside the subtree — headings of any
/// level included — the block's entry and everything outside it survive
/// unchanged. This is the scoping half of heading nesting: a heading inside
/// a group-classified block can never attach under, or close, a heading
/// open outside the block.
pub proof fn lemma_block_scopes_step(
    sk: LexicalScopeKind,
    stack: Seq<FrameV>,
    ctx: IdentContext,
    node: SyntaxNode,
    parent: Option<SyntaxNode>,
    idx: int,
    p: int,
)
    requires
        0 <= p < stack.len(),
        stack[p].info.kind == LexicalKind::Block,
    ensures
        step_node(sk, stack, ctx, node, parent, idx) matches Result::Ok(r) ==> preserves_below(
            stack,
            r,
            p + 1,
        ),
    decreases node, 3int, 0int,
{
    match classify(sk, ctx, node, parent, idx) {
        Result::Err(e) => {},
        Result::Ok(oi) => {
            lemma_after_classify_pres(
                sk,
                stack,
                crate::semantics::entered(ctx, node.kind),
                node,
                oi,
                p,
            );
        },
    }
}

/// The post-classification step preserves everything under a block frame.
proof fn lemma_after_classify_pres(
    sk: LexicalScopeKind,
    stack: Seq<FrameV>,
    ctx2: IdentContext,
    node: SyntaxNode,
    oi: Option<InfoV>,
    p: int,
)
    requires
        0 <= p < stack.len(),
        stack[p].info.kind == LexicalKind::Block,
    ensures
        step_after_classify(sk, stack, ctx2, node, oi) matches Result::Ok(r) ==> preserves_below(
            stack,
            r,
            p + 1,
        ),
    decreases node, 2int, 1int,
{
    match oi {
        Option::Some(info) => {
            let stack1 = match info.kind {
                LexicalKind::Heading(lvl) => close_for_heading(stack, lvl),
                _ => stack,
            };
            match info.kind {
                LexicalKind::Heading(lvl) => lemma_close_for_heading_pres(stack, lvl, p),
                _ => {},
            }
            assert(preserves_below(stack, stack1, p + 1));
            let fresh = FrameV { info, pending: Seq::empty() };
            let stack2 = stack1.push(fresh);
            lemma_push_pres(stack1, fresh, p);
            lemma_pres_trans(stack, stack1, stack2, p + 1);
            let h = stack2.len() as int;
            if node.kind != SyntaxKind::ModuleImport {
                lemma_children_pres(sk, stack2, ctx2, node, 0, p);
            }
            let walked = if node.kind == SyntaxKind::ModuleImport {
                Result::<Seq<FrameV>, ()>::Ok(stack2)
            } else {
                step_children(sk, stack2, ctx2, node, 0)
            };
            match walked {
                Result::Err(_) => {},
                Result::Ok(st) => {
                    lemma_pres_trans(stack, stack2, st, p + 1);
                    match info.kind {
                        LexicalKind::Heading(_) => lemma_close_above_pres(st, h + 1, p),
                        _ => lemma_close_above_pres(st, h, p),
                    }
                    match info.kind {
                        LexicalKind::Heading(_) => lemma_pres_trans(
                            stack,
                            st,
                            close_above(st, h + 1),
                            p + 1,
                        ),
                        _ => lemma_pres_trans(stack, st, close_above(st, h), p + 1),
                    }
                },
            }
        },
        Option::None => {
            match node.kind {
                SyntaxKind::LineComment => lemma_line_comment_pres(stack, node, p),
                SyntaxKind::Space => {
                    lemma_push_pres(
                        stack,
                        FrameV {
                            info: InfoV {
                                name: Seq::empty(),
                                kind: LexicalKind::Space,
                                start: node.start as int,
                                end: node.end as int,
                            },
                            pending: Seq::empty(),
                        },
                        p,
                    );
                },
                SyntaxKind::LetBinding => lemma_let_binding_pres(sk, stack, node, p),
                SyntaxKind::ForLoop => lemma_for_loop_pres(sk, stack, node, p),
                SyntaxKind::Closure => lemma_closure_pres(sk, stack, ctx2, node, p),
                SyntaxKind::FieldAccess => lemma_first_sub_expr_pres(
                    sk,
                    stack,
                    ctx2,
                    node,
                    false,
                    Option::None,
                    p,
                ),
                SyntaxKind::Named => lemma_named_pres(sk, stack, ctx2, node, p),
                SyntaxKind::ModuleImport => {},
                _ => {
                    if !(node.kind.is_trivia_spec() || node.kind.is_keyword_spec()
                        || node.kind.is_error_spec()) {
                        lemma_children_pres(sk, stack, ctx2, node, 0, p);
                    }
                },
            }
        },
    }
}

/// The let-binding rule preserves everything under a block frame.
proof fn lemma_let_binding_pres(sk: LexicalScopeKind, stack: Seq<FrameV>, node: SyntaxNode, p: int)
    requires
        0 <= p < stack.len(),
        stack[p].info.kind == LexicalKind::Block,
    ensures
        step_let_binding(sk, stack, node) matches Result::Ok(r) ==> preserves_below(
            stack,
            r,
            p + 1,
        ),
    decreases node, 1int, 1int,
{
    let cs = node.children@;
    match crate::syntax::spec_first_pattern_idx(cs, 0) {
        Option::Some(pi) => {
            if 0 <= pi < cs.len() {
                if cs[pi].kind == SyntaxKind::Closure {
                    lemma_block_scopes_step(
                        sk,
                        stack,
                        IdentContext::Ref,
                        cs[pi],
                        Option::Some(node),
                        pi,
                        p,
                    );
                } else {
                    lemma_block_scopes_step(
                        sk,
                        stack,
                        IdentContext::Var,
                        cs[pi],
                        Option::Some(node),
                        pi,
                        p,
                    );
                    match step_node(sk, stack, IdentContext::Var, cs[pi], Option::Some(node), pi) {
                        Result::Ok(st) => {
                            lemma_first_sub_expr_pres(
                                sk,
                                st,
                                IdentContext::Ref,
                                node,
                                true,
                                Option::Some(cs[pi].start as int),
                                p,
                            );
                            match step_first_sub_expr(
                                sk,
                                st,
                                IdentContext::Ref,
                                node,
                                true,
                                Option::Some(cs[pi].start as int),
                            ) {
                                Result::Ok(st2) => lemma_pres_trans(stack, st, st2, p + 1),
                                Result::Err(_) => {},
                            }
                        },
                        Result::Err(_) => {},
                    }
                }
            }
        },
        Option::None => {
            lemma_first_sub_expr_pres(
                sk,
                stack,
                IdentContext::Ref,
                node,
                true,
                Option::None,
                p,
            );
        },
    }
}

/// The for-loop rule preserves everything under a block frame.
proof fn lemma_for_loop_pres(sk: LexicalScopeKind, stack: Seq<FrameV>, node: SyntaxNode, p: int)
    requires
        0 <= p < stack.len(),
        stack[p].info.kind == LexicalKind::Block,
    ensures
        step_for_loop(sk, stack, node) matches Result::Ok(r) ==> preserves_below(stack, r, p + 1),
    decreases node, 1int, 1int,
{
    let cs = node.children@;
    let iter = match crate::syntax::spec_first_kind_idx(cs, SyntaxKind::In, 0) {
        Option::None => Option::None,
        Option::Some(k) => match crate::syntax::spec_first_expr_idx(cs, k) {
            Option::Some(j) => if 0 <= j < cs.len() {
                Option::Some(j)
            } else {
                Option::None
            },
            Option::None => Option::None,
        },
    };
    let iter_offset = match iter {
        Option::Some(j) => Option::Some(cs[j].start as int),
        Option::None => Option::None,
    };
    match iter {
        Option::Some(j) => lemma_block_scopes_step(
            sk,
            stack,
            IdentContext::Ref,
            cs[j],
            Option::Some(node),
            j,
            p,
        ),
        Option::None => {},
    }
    let walked_iter = match iter {
        Option::Some(j) => step_node(sk, stack, IdentContext::Ref, cs[j], Option::Some(node), j),
        Option::None => Result::<Seq<FrameV>, ()>::Ok(stack),
    };
    match walked_iter {
        Result::Err(_) => {},
        Result::Ok(st1) => {
            let walked_pat = match crate::syntax::spec_first_pattern_idx(cs, 0) {
                Option::Some(pi) => if 0 <= pi < cs.len() {
                    step_node(sk, st1, IdentContext::Var, cs[pi], Option::Some(node), pi)
                } else {
                    Result::<Seq<FrameV>, ()>::Ok(st1)
                },
                Option::None => Result::<Seq<FrameV>, ()>::Ok(st1),
            };
            match crate::syntax::spec_first_pattern_idx(cs, 0) {
                Option::Some(pi) => {
                    if 0 <= pi < cs.len() {
                        lemma_block_scopes_step(
                            sk,
                            st1,
                            IdentContext::Var,
                            cs[pi],
                            Option::Some(node),
                            pi,
                            p,
                        );
                    }
                },
                Option::None => {},
            }
            match walked_pat {
                Result::Err(_) => {},
                Result::Ok(st2) => {
                    lemma_pres_trans(stack, st1, st2, p + 1);
                    lemma_first_sub_expr_pres(
                        sk,
                        st2,
                        IdentContext::Ref,
                        node,
                        true,
                        iter_offset,
                        p,
                    );
                    match step_first_sub_expr(
                        sk,
                        st2,
                        IdentContext::Ref,
                        node,
                        true,
                        iter_offset,
                    ) {
                        Result::Ok(st3) => lemma_pres_trans(stack, st2, st3, p + 1),
                        Result::Err(_) => {},
                    }
                },
            }
        },
    }
}

/// The closure rule preserves everything under a block frame.
proof fn lemma_closure_pres(
    sk: LexicalScopeKind,
    stack: Seq<FrameV>,
    ctx2: IdentContext,
    node: SyntaxNode,
    p: int,
)
    requires
        0 <= p < stack.len(),
        stack[p].info.kind == LexicalKind::Block,
    ensures
        step_closure(sk, stack, ctx2, node) matches Result::Ok(r) ==> preserves_below(
            stack,
            r,
            p + 1,
        ),
    decreases node, 2int, 0int,
{
    if sk != LexicalScopeKind::Symbol {
        lemma_children_pres(sk, stack, ctx2, node, 0, p);
    } else {
        lemma_closure_named_pres(sk, stack, node, p);
    }
}

/// The fine-grained closure rule preserves everything under a block frame.
proof fn lemma_closure_named_pres(
    sk: LexicalScopeKind,
    stack: Seq<FrameV>,
    node: SyntaxNode,
    p: int,
)
    requires
        0 <= p < stack.len(),
        stack[p].info.kind == LexicalKind::Block,
    ensures
        crate::semantics::step_closure_named(sk, stack, node) matches Result::Ok(r)
            ==> preserves_below(stack, r, p + 1),
    decreases node, 1int, 1int,
{
    let cs = node.children@;
    if cs.len() > 0 && cs[0].kind == SyntaxKind::Ident {
        lemma_block_scopes_step(sk, stack, IdentContext::Func, cs[0], Option::Some(node), 0, p);
    }
    let walked_name = if cs.len() > 0 && cs[0].kind == SyntaxKind::Ident {
        step_node(sk, stack, IdentContext::Func, cs[0], Option::Some(node), 0)
    } else {
        Result::<Seq<FrameV>, ()>::Ok(stack)
    };
    match walked_name {
        Result::Err(_) => {},
        Result::Ok(st1) => {
            match crate::syntax::spec_last_expr_idx(cs, cs.len() as int) {
                Option::None => {},
                Option::Some(bj) => {
                    if 0 <= bj < cs.len() {
                        let cur = if stack.len() >= 1 {
                            stack.last().pending.len() as int
                        } else {
                            0
                        };
                        let pend = if st1.len() >= 1 {
                            st1.last().pending
                        } else {
                            Seq::empty()
                        };
                        let anonymous = pend.len() == cur || pend.len() == 0;
                        let st1b = if anonymous {
                            st1
                        } else {
                            st1.drop_last().push(
                                FrameV { info: st1.last().info, pending: pend.drop_last() },
                            )
                        };
                        if !anonymous {
                            lemma_modify_top_pres(
                                st1,
                                FrameV { info: st1.last().info, pending: pend.drop_last() },
                                p,
                            );
                        }
                        assert(preserves_below(st1, st1b, p + 1));
                        lemma_pres_trans(stack, st1, st1b, p + 1);
                        let info = if anonymous {
                            InfoV {
                                name: ("anonymous")@,
                                kind: LexicalKind::Var(LexicalVarKind::Function),
                                start: node.start as int,
                                end: node.end as int,
                            }
                        } else {
                            InfoV {
                                name: pend.last().info.name,
                                kind: pend.last().info.kind,
                                start: node.start as int,
                                end: node.end as int,
                            }
                        };
                        let st2 = st1b.push(FrameV { info, pending: Seq::empty() });
                        lemma_push_pres(st1b, FrameV { info, pending: Seq::empty() }, p);
                        lemma_pres_trans(stack, st1b, st2, p + 1);
                        let h = st2.len() as int;
                        lemma_block_scopes_step(
                            sk,
                            st2,
                            IdentContext::Ref,
                            cs[bj],
                            Option::Some(node),
                            bj,
                            p,
                        );
                        match step_node(
                            sk,
                            st2,
                            IdentContext::Ref,
                            cs[bj],
                            Option::Some(node),
                            bj,
                        ) {
                            Result::Err(_) => {},
                            Result::Ok(st3) => {
                                lemma_pres_trans(stack, st2, st3, p + 1);
                                lemma_close_above_pres(st3, h, p);
                                lemma_pres_trans(stack, st3, close_above(st3, h), p + 1);
                            },
                        }
                    }
                },
            }
        },
    }
}

/// The named-pair rule preserves everything under a block frame.
proof fn lemma_named_pres(
    sk: LexicalScopeKind,
    stack: Seq<FrameV>,
    ctx2: IdentContext,
    node: SyntaxNode,
    p: int,
)
    requires
        0 <= p < stack.len(),
        stack[p].info.kind == LexicalKind::Block,
    ensures
        step_named(sk, stack, ctx2, node) matches Result::Ok(r) ==> preserves_below(
            stack,
            r,
            p + 1,
        ),
    decreases node, 1int, 1int,
{
    lemma_first_sub_expr_pres(sk, stack, ctx2, node, true, Option::None, p);
    match step_first_sub_expr(sk, stack, ctx2, node, true, Option::None) {
        Result::Err(_) => {},
        Result::Ok(st1) => {
            if ctx2 == IdentContext::Params {
                match crate::syntax::spec_first_kind_idx(node.children@, SyntaxKind::Ident, 0) {
                    Option::Some(ii) => {
                        if 0 <= ii < node.children@.len() {
                            lemma_block_scopes_step(
                                sk,
                                st1,
                                IdentContext::Var,
                                node.children@[ii],
                                Option::Some(node),
                                ii,
                                p,
                            );
                            match step_node(
                                sk,
                                st1,
                                IdentContext::Var,
                                node.children@[ii],
                                Option::Some(node),
                                ii,
                            ) {
                                Result::Ok(st2) => lemma_pres_trans(stack, st1, st2, p + 1),
                                Result::Err(_) => {},
                            }
                        }
                    },
                    Option::None => {},
                }
            }
        },
    }
}

/// The sub-expression rule preserves everything under a block frame.
proof fn lemma_first_sub_expr_pres(
    sk: LexicalScopeKind,
    stack: Seq<FrameV>,
    ctx: IdentContext,
    node: SyntaxNode,
    rev: bool,
    after: Option<int>,
    p: int,
)
    requires
        0 <= p < stack.len(),
        stack[p].info.kind == LexicalKind::Block,
    ensures
        step_first_sub_expr(sk, stack, ctx, node, rev, after) matches Result::Ok(r)
            ==> preserves_below(stack, r, p + 1),
    decreases node, 0int, 0int,
{
    let cs = node.children@;
    let found = if rev {
        crate::syntax::spec_last_expr_idx(cs, cs.len() as int)
    } else {
        crate::syntax::spec_first_expr_idx(cs, 0)
    };
    match found {
        Option::None => {},
        Option::Some(j) => {
            if 0 <= j < cs.len() {
                if !(after matches Option::Some(off) && off >= cs[j].start as int) {
                    lemma_block_scopes_step(sk, stack, ctx, cs[j], Option::Some(node), j, p);
                }
            }
        },
    }
}

/// Walking a child list preserves everything under a block frame.
proof fn lemma_children_pres(
    sk: LexicalScopeKind,
    stack: Seq<FrameV>,
    ctx: IdentContext,
    node: SyntaxNode,
    from: int,
    p: int,
)
    requires
        0 <= p < stack.len(),
        stack[p].info.kind == LexicalKind::Block,
    ensures
        step_children(sk, stack, ctx, node, from) matches Result::Ok(r) ==> preserves_below(
            stack,
            r,
            p + 1,
        ),
    decreases node, 1int, node.children@.len() - from,
{
    if 0 <= from < node.children@.len() {
        lemma_block_scopes_step(sk, stack, ctx, node.children@[from], Option::Some(node), from, p);
        match step_node(sk, stack, ctx, node.children@[from], Option::Some(node), from) {
            Result::Ok(st) => {
                lemma_children_pres(sk, st, ctx, node, from + 1, p);
                match step_children(sk, st, ctx, node, from + 1) {
                    Result::Ok(r) => lemma_pres_trans(stack, st, r, p + 1),
                    Result::Err(_) => {},
                }
            },
            Result::Err(_) => {},
        }
    }
}

/// Every forest the traversal returns is well formed: `children` of every
/// node, at every depth, is `None` exactly when the node has no nested
/// entries — an empty-but-present list never occurs — and no entry carries
/// one of the reserved roles (`ValRef`, `LabelRef`, `BibKey`) that no rule
/// constructs.
pub proof fn lemma_hierarchy_well_formed(root: SyntaxNode, sk: LexicalScopeKind)
    ensures
        spec_lexical_hierarchy(root, sk) matches Option::Some(f) ==> hiers_ok(f, f.len() as int),
{
    let init = seq![sentinel_frame()];
    assert(frames_ok(init)) by {
        lemma_hiers_ok_empty();
        assert(frame_ok(init[0]));
    }
    lemma_step_node_ok(sk, init, IdentContext::Ref, root, Option::None, 0);
    match step_node(sk, init, IdentContext::Ref, root, Option::None, 0) {
        Result::Err(e) => {},
        Result::Ok(st) => {
            lemma_close_above_ok(st, 2);
            let d = drain(st);
            assert(frame_ok(d[0]));
        },
    }
}

/// A module-level import is inert: walking it leaves the traversal state
/// unchanged, so it contributes no entries — nested or otherwise — under
/// any configuration and in any context, even if its children would
/// otherwise classify as symbols. The rule is deliberately total: the
/// import's subtree is not walked at all, so nothing inside one can even
/// abort the traversal.
pub proof fn lemma_module_import_inert(
    sk: LexicalScopeKind,
    stack: Seq<FrameV>,
    ctx: IdentContext,
    node: SyntaxNode,
    parent: Option<SyntaxNode>,
    idx: int,
)
    requires
        node.kind == SyntaxKind::ModuleImport,
    ensures
        step_node(sk, stack, ctx, node, parent, idx) == Result::<Seq<FrameV>, ()>::Ok(stack),
{
}

/// What the heading rule keeps: the remaining frames are the bottom part of
/// the stack with their entries unchanged (only the pending children of the
/// frames may have grown), and closing stops exactly at a heading of
/// strictly smaller level, at an anonymous block, or at the sentinel. This
/// is the general shape behind heading nesting: a new heading attaches
/// under the nearest open heading of smaller level, and a block between two
/// headings stops the later one from reorganizing frames beneath the block.
pub proof fn lemma_close_for_heading_scoped(stack: Seq<FrameV>, level: i16)
    requires
        stack.len() >= 1,
    ensures
        ({
            let res = close_for_heading(stack, level);
            &&& 1 <= res.len() <= stack.len()
            &&& forall|i: int| 0 <= i < res.len() ==> #[trigger] res[i].info == stack[i].info
            &&& res.len() >= 2 ==> ((res.last().info.kind matches LexicalKind::Heading(l) && l
                < level) || res.last().info.kind == LexicalKind::Block)
        }),
    decreases stack.len(),
{
    let k = stack.last().info.kind;
    if !((k matches LexicalKind::Heading(l) && l < level) || k == LexicalKind::Block
        || stack.len() <= 1) {
        let fs = finish_frame(stack);
        assert forall|i: int| 0 <= i < fs.len() implies #[trigger] fs[i].info == stack[i].info by {
            if i < fs.len() - 1 {
                assert(fs[i] == stack[i]);
            }
        }
        lemma_close_for_heading_scoped(fs, level);
    }
}

/// Running the traversal twice on the same immutable tree and configuration
/// yields structurally identical forests: the contract of
/// [`crate::worker::get_lexical_hierarchy`] ties every result to the tree
/// and the configuration alone, so no traversal-order or stack state leaks
/// between calls — any two results agree in presence and, view for view, in
/// names, kinds, ranges and nesting.
pub proof fn lemma_traversal_idempotent(
    root: SyntaxNode,
    sk: LexicalScopeKind,
    r1: Option<Vec<crate::symbols::LexicalHierarchy>>,
    r2: Option<Vec<crate::symbols::LexicalHierarchy>>,
)
    requires
        crate::worker::returns_hierarchy(root, sk, r1),
        crate::worker::returns_hierarchy(root, sk, r2),
    ensures
        r1 is Some <==> r2 is Some,
        r1 matches Option::Some(v1) ==> (r2 matches Option::Some(v2)
            && crate::symbols::hiers_view(v1@) == crate::symbols::hiers_view(v2@)),
{
}

/// A tree whose kind tag disagrees with its shape yields no result at all:
/// an identifier tag on a node that is not a leaf token aborts the whole
/// traversal rather than producing a partial forest.
pub proof fn lemma_shape_mismatch_yields_nothing(root: SyntaxNode, sk: LexicalScopeKind)
    requires
        sk == LexicalScopeKind::Symbol,
        root.kind == SyntaxKind::Ident,
        root.children@.len() > 0,
    ensures
        spec_lexical_hierarchy(root, sk) is None,
{
}

} // verus!
