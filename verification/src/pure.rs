//! The pure optimizer's state, and the parts of its visitor that decide on
//! statements once their children have been visited.
use crate::ast::{SourceSpan, Statement, StmtLike};
use crate::ctx::{Ctx, ExprSettings, Options};
use crate::seq_facts::{lemma_reversed_pop, reversed};
use crate::dead_code::{
    drop_return_void, has_dead_branch, has_unreachable_code, has_useless_block,
    branch_verdicts_of, inline_useless_blocks, is_return_void, prune_dead_branches,
    remove_unreachable,
};
use vstd::prelude::*;

verus! {

/// The optimizer's state: its options, how it evaluates expressions, where
/// the traversal stands, and whether the current run changed the tree.
#[derive(Debug)]
pub struct Pure {
    pub options: Options,
    pub expr_ctx: ExprSettings,
    pub ctx: Ctx,
    pub changed: bool,
}

/// The list after dead `if` branches are pruned, when `unused` is on.
pub open spec fn after_dead_branches<T: StmtLike>(
    items: Seq<T>,
    options: Options,
    settings: ExprSettings,
) -> Seq<T> {
    if options.unused {
        prune_dead_branches(items, branch_verdicts_of(items, settings))
    } else {
        items
    }
}

/// The list after unreachable statements are removed, when `side_effects`
/// is on.
pub open spec fn after_unreachable<T: StmtLike>(items: Seq<T>, options: Options) -> Seq<T> {
    if options.side_effects {
        remove_unreachable(items)
    } else {
        items
    }
}

/// The three list passes, one after the other.
pub open spec fn optimize_list<T: StmtLike>(
    items: Seq<T>,
    options: Options,
    settings: ExprSettings,
) -> Seq<T> {
    inline_useless_blocks(after_unreachable(after_dead_branches(items, options, settings), options))
}

/// Whether one of the three list passes finds something to do.
pub open spec fn list_changes<T: StmtLike>(
    items: Seq<T>,
    options: Options,
    settings: ExprSettings,
) -> bool {
    let pruned = after_dead_branches(items, options, settings);
    ||| options.unused && has_dead_branch(items, branch_verdicts_of(items, settings))
    ||| options.side_effects && has_unreachable_code(pruned)
    ||| has_useless_block(after_unreachable(pruned, options))
}

/// Not an empty statement.
pub open spec fn is_not_empty(s: Statement) -> bool {
    !(s is Empty)
}

/// The list without its empty statements.
pub open spec fn without_empty(stmts: Seq<Statement>) -> Seq<Statement> {
    stmts.filter(|s: Statement| is_not_empty(s))
}

/// What a statement becomes when `debugger` statements are dropped.
pub open spec fn drop_debugger_stmt(s: Statement, options: Options) -> Statement {
    if options.drop_debugger && s is Debugger {
        Statement::Empty(SourceSpan::spec_dummy())
    } else {
        s
    }
}

/// What the statements of a function body become: the last one loses a
/// `return void`.
pub open spec fn optimize_body_end(stmts: Seq<Statement>) -> Seq<Statement> {
    if stmts.len() == 0 {
        stmts
    } else {
        stmts.drop_last().push(drop_return_void(stmts.last()))
    }
}

/// Drops the empty statements of a list.
fn drop_empty_stmts(items: &mut Vec<Statement>)
    ensures
        final(items)@ == without_empty(old(items)@),
{
    let ghost orig = items@;
    let ghost p = |s: Statement| is_not_empty(s);
    let mut taken: Vec<Statement> = Vec::new();
    std::mem::swap(&mut taken, items);
    let n = taken.len();
    let mut rest = reversed(taken);
    let mut i: usize = 0;
    while i < n
        invariant
            n == orig.len(),
            0 <= i <= n,
            rest@ == orig.skip(i as int).reverse(),
            items@ == orig.take(i as int).filter(p),
            p == (|s: Statement| is_not_empty(s)),
        decreases n - i,
    {
        proof {
            lemma_reversed_pop(orig, i as int);
            assert(orig.take(i + 1) =~= orig.take(i as int).push(orig[i as int]));
            orig.take(i as int).lemma_filter_push(orig[i as int], p);
        }
        let s = rest.pop().unwrap();
        match s {
            Statement::Empty(_) => {},
            other => {
                items.push(other);
            },
        }
        i = i + 1;
    }
    assert(orig.take(n as int) =~= orig);
}

/// A fresh optimizer: at the root of the tree, with nothing changed yet.
pub fn pure_optimizer(options: Options, expr_ctx: ExprSettings) -> (r: Pure)
    ensures
        r == (Pure { options, expr_ctx, ctx: Ctx::spec_initial(), changed: false }),
{
    Pure { options, expr_ctx, ctx: Ctx::initial(), changed: false }
}

impl Pure {
    /// Whether the last run changed the tree.
    pub fn changed(&self) -> (r: bool)
        ensures
            r == self.changed,
    {
        self.changed
    }

    /// Runs the list passes on a statement list: pruning dead branches,
    /// removing unreachable statements, and inlining useless blocks.
    ///
    /// The collapsing of `var` declarations without initializers, which
    /// follows these passes in the optimizer, is not part of this library:
    /// the list comes out as the three passes leave it.
    pub fn handle_stmt_likes<T: StmtLike>(&mut self, stmts: &mut Vec<T>)
        ensures
            final(stmts)@ == optimize_list(old(stmts)@, old(self).options, old(self).expr_ctx),
            *final(self) == (Pure {
                changed: old(self).changed || list_changes(
                    old(stmts)@,
                    old(self).options,
                    old(self).expr_ctx,
                ),
                ..*old(self)
            }),
            !final(self).changed ==> final(stmts)@ == old(stmts)@,
    {
        self.remove_dead_branch(stmts);
        self.remove_unreachable_stmts(stmts);
        self.drop_useless_blocks(stmts);
    }

    /// What follows the visit of a statement list's children: the list
    /// passes, then the removal of empty statements.
    ///
    /// As with `handle_stmt_likes`, collapsing `var` declarations without
    /// initializers is not part of this library.
    pub fn optimize_stmts(&mut self, stmts: &mut Vec<Statement>)
        ensures
            final(stmts)@ == without_empty(
                optimize_list(old(stmts)@, old(self).options, old(self).expr_ctx),
            ),
            *final(self) == (Pure {
                changed: old(self).changed || list_changes(
                    old(stmts)@,
                    old(self).options,
                    old(self).expr_ctx,
                ),
                ..*old(self)
            }),
    {
        self.handle_stmt_likes(stmts);
        drop_empty_stmts(stmts);
    }

    /// What follows the visit of a statement's children: a `debugger`
    /// statement becomes an empty one when `drop_debugger` is on.
    pub fn drop_debugger(&mut self, s: &mut Statement)
        ensures
            *final(s) == drop_debugger_stmt(*old(s), old(self).options),
            *final(self) == (Pure {
                changed: old(self).changed || (old(self).options.drop_debugger && *old(s) is Debugger),
                ..*old(self)
            }),
            final(self).changed == (old(self).changed || *final(s) != *old(s)),
    {
        if self.options.drop_debugger {
            match s {
                Statement::Debugger(_) => {
                    self.changed = true;
                    *s = Statement::Empty(SourceSpan::dummy());
                },
                _ => {},
            }
        }
    }

    /// What follows the visit of a function's children: the last statement
    /// of its body loses a `return void`.
    ///
    /// The removal of a trailing bare `return;`, which comes first in the
    /// optimizer, is not part of this library.
    pub fn optimize_function_body(&mut self, stmts: &mut Vec<Statement>)
        ensures
            final(stmts)@ == optimize_body_end(old(stmts)@),
            *final(self) == (Pure {
                changed: old(self).changed || (old(stmts)@.len() > 0 && is_return_void(
                    old(stmts)@.last(),
                )),
                ..*old(self)
            }),
            final(self).changed == (old(self).changed || final(stmts)@ != old(stmts)@),
    {
        let ghost orig = stmts@;
        match stmts.pop() {
            Some(last) => {
                let ghost before = last;
                let mut last = last;
                self.drop_unused_stmt_at_end_of_fn(&mut last);
                stmts.push(last);
                assert(stmts@ == orig ==> stmts@.last() == orig.last());
                assert(last == before ==> stmts@ =~= orig);
            },
            None => {},
        }
    }

    /// A visitor for a child visited in the same thread: same options and
    /// context, nothing changed yet.
    pub fn sequential_child(&self) -> (r: Pure)
        ensures
            r == (Pure { changed: false, ..*self }),
    {
        Pure { options: self.options, expr_ctx: self.expr_ctx, ctx: self.ctx, changed: false }
    }

    /// A visitor for a child visited in parallel: one level deeper, nothing
    /// changed yet.
    pub fn parallel_child(&self) -> (r: Pure)
        requires
            !self.ctx.spec_visits_sequentially(),
        ensures
            r == (Pure {
                ctx: Ctx { par_depth: (self.ctx.par_depth + 1) as u8, ..self.ctx },
                changed: false,
                ..*self
            }),
    {
        Pure {
            options: self.options,
            expr_ctx: self.expr_ctx,
            ctx: self.ctx.for_parallel_child(),
            changed: false,
        }
    }

    /// Takes in whether a child's visit changed the tree.
    pub fn absorb_child(&mut self, child_changed: bool)
        ensures
            *final(self) == (Pure { changed: old(self).changed || child_changed, ..*old(self) }),
    {
        self.changed = self.changed || child_changed;
    }

    /// Prepares for another run over the tree.
    pub fn reset(&mut self)
        ensures
            *final(self) == (Pure { ctx: Ctx::spec_initial(), changed: false, ..*old(self) }),
    {
        self.ctx = Ctx::initial();
        self.changed = false;
    }
}

} // verus!
