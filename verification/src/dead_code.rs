//! Passes of the `dead_code` family over statement lists: pruning `if`
//! branches that can never run, dropping statements after one that always
//! leaves, inlining blocks that scope nothing, and rewriting a trailing
//! `return void x`.
use crate::ast::{BlockStmt, DeclKind, ExprStmt, Expression, IfStmt, ReturnStmt, SourceSpan, Statement, StmtLike, VarKind};
use crate::eval::{cast_to_bool, evaluable, is_evaluable, truth_value};
use crate::laws::{
    law_inline_changes_iff_useless_block, law_prune_changes_iff_dead_branch,
    law_unreachable_changes_iff,
};
use crate::ctx::ExprSettings;
use crate::pure::Pure;
use crate::seq_facts::{
    lemma_filter_keeps_all, lemma_flatten_singletons, lemma_flatten_step, lemma_reversed_pop, reversed,
};
use vstd::prelude::*;

verus! {

// ----------------------------------------------------------------------------
// What the passes compute
// ----------------------------------------------------------------------------

/// Control never flows past `s`: it returns, throws, breaks or continues on
/// every path (a block does so when one of its statements does).
pub open spec fn always_terminates(s: Statement) -> bool
    decreases s,
{
    match s {
        Statement::Return(_) => true,
        Statement::Exit(_, _) => true,
        Statement::If(i) => match i.alt {
            Some(alt) => always_terminates(*i.cons) && always_terminates(*alt),
            None => false,
        },
        Statement::Block(b) => {
            proof {
                assert(decreases_to!(s => s->Block_0));
                assert(decreases_to!(b => b.stmts));
                assert(decreases_to!(b.stmts => b.stmts@));
            }
            some_always_terminates(b.stmts@)
        },
        _ => false,
    }
}

/// Some statement of the list always terminates.
pub open spec fn some_always_terminates(stmts: Seq<Statement>) -> bool
    decreases stmts,
{
    if stmts.len() == 0 {
        false
    } else {
        proof {
            assert(decreases_to!(stmts => stmts[stmts.len() - 1]));
            assert(decreases_to!(stmts => stmts.subrange(0, stmts.len() - 1)));
        }
        some_always_terminates(stmts.subrange(0, stmts.len() - 1)) || always_terminates(
            stmts[stmts.len() - 1],
        )
    }
}

/// A list has a statement that always terminates exactly when one of its
/// elements does.
pub proof fn lemma_some_always_terminates(stmts: Seq<Statement>)
    ensures
        some_always_terminates(stmts) <==> exists|k: int|
            0 <= k < stmts.len() && #[trigger] always_terminates(stmts[k]),
    decreases stmts.len(),
{
    if stmts.len() > 0 {
        let init = stmts.subrange(0, stmts.len() - 1);
        lemma_some_always_terminates(init);
        let last = stmts.len() - 1;
        if some_always_terminates(init) {
            let k = choose|k: int| 0 <= k < init.len() && #[trigger] always_terminates(init[k]);
            assert(stmts[k] == init[k]);
            assert(always_terminates(stmts[k]));
        }
        // Mentions the last element, so that it can witness the `exists`.
        let _ = always_terminates(stmts[last]);
        if exists|k: int| 0 <= k < stmts.len() && #[trigger] always_terminates(stmts[k]) {
            let k = choose|k: int| 0 <= k < stmts.len() && #[trigger] always_terminates(stmts[k]);
            if k < last {
                assert(init[k] == stmts[k]);
                assert(always_terminates(init[k]));
            }
        }
    }
}

/// A statement that may stand directly in the enclosing list in place of
/// the block holding it: anything but a declaration, a `var` declaration,
/// or a function declaration not named `undefined`.
pub open spec fn hoistable(s: Statement) -> bool {
    match s {
        Statement::Declaration(d) => match d.kind {
            DeclKind::Fn { name } => name@ != "undefined"@,
            DeclKind::Var { kind } => kind == VarKind::Var,
            DeclKind::Other => false,
        },
        _ => true,
    }
}

/// A block whose statements may all be hoisted into the enclosing list.
pub open spec fn is_inlinable(b: BlockStmt) -> bool {
    forall|k: int| 0 <= k < b.stmts@.len() ==> #[trigger] hoistable(b.stmts@[k])
}

/// The item is a block that can be inlined.
pub open spec fn is_useless_block<T: StmtLike>(item: T) -> bool {
    item.spec_as_stmt() matches Some(Statement::Block(b)) && is_inlinable(b)
}

/// What an item becomes when useless blocks are inlined.
pub open spec fn inline_block<T: StmtLike>(item: T) -> Seq<T> {
    match item.spec_as_stmt() {
        Some(Statement::Block(b)) => if is_inlinable(b) {
            b.stmts@.map_values(|s: Statement| T::spec_from_stmt(s))
        } else {
            seq![item]
        },
        _ => seq![item],
    }
}

/// The list with each useless block replaced by its statements.
pub open spec fn inline_useless_blocks<T: StmtLike>(items: Seq<T>) -> Seq<T> {
    items.map_values(|item: T| inline_block(item)).flatten()
}

/// Some item of the list is a useless block.
pub open spec fn has_useless_block<T: StmtLike>(items: Seq<T>) -> bool {
    exists|i: int| 0 <= i < items.len() && #[trigger] is_useless_block(items[i])
}

/// What an item becomes when `if` statements with a known test lose the
/// branch that can never run: the test is kept as an expression statement
/// for its effects, followed by the branch that runs, if any.
pub open spec fn prune_branch<T: StmtLike>(item: T, verdict: Option<bool>) -> Seq<T> {
    match item.spec_as_stmt() {
        Some(Statement::If(s)) => match verdict {
            Some(v) => seq![
                T::spec_from_stmt(
                    Statement::Expression(ExprStmt { span: SourceSpan::spec_dummy(), expr: s.test }),
                ),
            ] + if v {
                seq![T::spec_from_stmt(*s.cons)]
            } else {
                match s.alt {
                    Some(alt) => seq![T::spec_from_stmt(*alt)],
                    None => Seq::empty(),
                }
            },
            None => seq![item],
        },
        _ => seq![item],
    }
}

/// The list with dead `if` branches removed, where `verdicts[i]` is the
/// known truth value, if any, of the test of `items[i]`.
pub open spec fn prune_dead_branches<T: StmtLike>(items: Seq<T>, verdicts: Seq<Option<bool>>) -> Seq<
    T,
> {
    Seq::new(items.len(), |i: int| prune_branch(items[i], verdicts[i])).flatten()
}

/// The item is an `if` statement.
pub open spec fn is_if<T: StmtLike>(item: T) -> bool {
    item.spec_as_stmt() matches Some(Statement::If(_))
}

/// Some `if` statement of the list has a test with a known truth value.
pub open spec fn has_dead_branch<T: StmtLike>(items: Seq<T>, verdicts: Seq<Option<bool>>) -> bool {
    exists|i: int| 0 <= i < items.len() && #[trigger] is_if(items[i]) && verdicts[i] is Some
}

/// The known truth value, if any, of an `if` test: what the evaluator gives,
/// and none for an expression it cannot take.
pub open spec fn test_verdict(test: Expression, settings: ExprSettings) -> Option<bool> {
    if evaluable(test) {
        truth_value(test, settings)
    } else {
        None
    }
}

/// The verdict on an item: that of its test for an `if` statement, none for
/// any other item.
pub open spec fn item_verdict<T: StmtLike>(item: T, settings: ExprSettings) -> Option<bool> {
    match item.spec_as_stmt() {
        Some(Statement::If(s)) => test_verdict(s.test, settings),
        _ => None,
    }
}

/// The verdicts on the items of a list.
pub open spec fn branch_verdicts_of<T: StmtLike>(items: Seq<T>, settings: ExprSettings) -> Seq<
    Option<bool>,
> {
    Seq::new(items.len(), |i: int| item_verdict(items[i], settings))
}

/// The item is a statement that always terminates.
pub open spec fn terminates_at<T: StmtLike>(items: Seq<T>, i: int) -> bool {
    items[i].spec_as_stmt() matches Some(s) && always_terminates(s)
}

/// `items[i]` does not always terminate but follows an item that does.
pub open spec fn is_unreachable_start<T: StmtLike>(items: Seq<T>, i: int) -> bool {
    &&& 0 <= i < items.len()
    &&& !terminates_at(items, i)
    &&& exists|j: int| 0 <= j < i && #[trigger] terminates_at(items, j)
}

/// `items[i]` is the first item that does not always terminate after one
/// that does: control never reaches it nor any item after it.
pub open spec fn is_first_unreachable<T: StmtLike>(items: Seq<T>, i: int) -> bool {
    &&& is_unreachable_start(items, i)
    &&& forall|k: int| 0 <= k < i ==> !#[trigger] is_unreachable_start(items, k)
}

/// An unreachable item that must stay: a declaration, whose hoisted name
/// the rest of the code may use, or a module declaration.
pub open spec fn survives_unreachable<T: StmtLike>(item: T) -> bool {
    item.spec_as_stmt() matches Some(s) ==> s is Declaration
}

/// The list with the statements that can never run removed.
pub open spec fn remove_unreachable<T: StmtLike>(items: Seq<T>) -> Seq<T> {
    if exists|i: int| is_first_unreachable(items, i) {
        let i = choose|i: int| is_first_unreachable(items, i);
        items.take(i) + items.skip(i).filter(|item: T| survives_unreachable(item))
    } else {
        items
    }
}

/// Some statement that can never run can be removed.
pub open spec fn has_unreachable_code<T: StmtLike>(items: Seq<T>) -> bool {
    exists|i: int, k: int|
        #[trigger] is_first_unreachable(items, i) && i <= k < items.len()
            && !#[trigger] survives_unreachable(items[k])
}

/// What the last statement of a function body becomes: `return void x;`
/// turns into `x;`, as the function returns `undefined` either way.
pub open spec fn drop_return_void(s: Statement) -> Statement {
    match s {
        Statement::Return(r) => match r.arg {
            Some(Expression::Void { span, arg }) => Statement::Expression(
                ExprStmt { span, expr: *arg },
            ),
            _ => s,
        },
        _ => s,
    }
}

/// `s` is `return void x;`.
pub open spec fn is_return_void(s: Statement) -> bool {
    s matches Statement::Return(r) && r.arg matches Some(Expression::Void { .. })
}

// ----------------------------------------------------------------------------
// Executable passes
// ----------------------------------------------------------------------------

/// Whether control never flows past `s`.
pub fn always_terminates_stmt(s: &Statement) -> (r: bool)
    ensures
        r == always_terminates(*s),
    decreases s,
{
    match s {
        Statement::Return(_) => true,
        Statement::Exit(_, _) => true,
        Statement::If(i) => match &i.alt {
            Some(alt) => always_terminates_stmt(&i.cons) && always_terminates_stmt(alt),
            None => false,
        },
        Statement::Block(b) => {
            let mut k: usize = 0;
            while k < b.stmts.len()
                invariant
                    0 <= k <= b.stmts@.len(),
                    *s == Statement::Block(*b),
                    forall|j: int| 0 <= j < k ==> !#[trigger] always_terminates(b.stmts@[j]),
                decreases b.stmts@.len() - k,
            {
                proof {
                    let ghost bb = (*s)->Block_0;
                    assert(decreases_to!(*s => (*s)->Block_0));
                    assert(decreases_to!(bb => bb.stmts));
                    assert(decreases_to!(bb.stmts => bb.stmts@));
                    assert(decreases_to!(bb.stmts@ => bb.stmts@[k as int]));
                }
                if always_terminates_stmt(&b.stmts[k]) {
                    proof {
                        lemma_some_always_terminates(b.stmts@);
                    }
                    return true;
                }
                k = k + 1;
            }
            proof {
                lemma_some_always_terminates(b.stmts@);
            }
            false
        },
        _ => false,
    }
}

/// Whether `s` may be hoisted out of a block.
fn is_hoistable(s: &Statement) -> (r: bool)
    ensures
        r == hoistable(*s),
{
    match s {
        Statement::Declaration(d) => match &d.kind {
            DeclKind::Fn { name } => {
                let undefined = "undefined".to_owned();
                proof {
                    reveal_strlit("undefined");
                }
                !(*name == undefined)
            },
            DeclKind::Var { kind } => *kind == VarKind::Var,
            DeclKind::Other => false,
        },
        _ => true,
    }
}

/// Whether every statement of the block may be hoisted out of it.
fn is_inliable(b: &BlockStmt) -> (r: bool)
    ensures
        r == is_inlinable(*b),
{
    let mut k: usize = 0;
    while k < b.stmts.len()
        invariant
            0 <= k <= b.stmts@.len(),
            forall|j: int| 0 <= j < k ==> #[trigger] hoistable(b.stmts@[j]),
        decreases b.stmts@.len() - k,
    {
        if !is_hoistable(&b.stmts[k]) {
            return false;
        }
        k = k + 1;
    }
    true
}

/// Whether the item is a block that can be inlined.
fn is_useless_block_item<T: StmtLike>(item: &T) -> (r: bool)
    ensures
        r == is_useless_block(*item),
{
    match item.as_stmt() {
        Some(Statement::Block(b)) => is_inliable(b),
        _ => false,
    }
}

impl Pure {
    /// Replaces each block whose statements can all stand in the enclosing
    /// list by those statements.
    pub fn drop_useless_blocks<T: StmtLike>(&mut self, stmts: &mut Vec<T>)
        ensures
            final(stmts)@ == inline_useless_blocks(old(stmts)@),
            *final(self) == (Pure {
                changed: old(self).changed || has_useless_block(old(stmts)@),
                ..*old(self)
            }),
            final(self).changed == (old(self).changed || final(stmts)@ != old(stmts)@),
    {
        proof {
            law_inline_changes_iff_useless_block(stmts@);
        }
        let ghost items = stmts@;
        let n = stmts.len();
        let mut found = false;
        let mut i: usize = 0;
        while i < n && !found
            invariant
                n == items.len(),
                stmts@ == items,
                0 <= i <= n,
                found ==> i < n && is_useless_block(items[i as int]),
                forall|j: int| 0 <= j < i ==> !#[trigger] is_useless_block(items[j]),
            decreases n - i + (if found { 0int } else { 1int }),
        {
            if is_useless_block_item(&stmts[i]) {
                found = true;
            } else {
                i = i + 1;
            }
        }
        if !found {
            proof {
                let f = |item: T| inline_block(item);
                assert forall|j: int| 0 <= j < n implies #[trigger] items.map_values(f)[j] == seq![
                    items[j],
                ] by {
                    assert(!is_useless_block(items[j]));
                    T::lemma_as_stmt_from_stmt(items[j]);
                }
                lemma_flatten_singletons(items, items.map_values(f));
            }
            return;
        }
        self.changed = true;

        let mut taken: Vec<T> = Vec::new();
        std::mem::swap(&mut taken, stmts);
        let mut rest = reversed(taken);
        let mut new: Vec<T> = Vec::new();
        let ghost f = |item: T| inline_block(item);
        let mut i: usize = 0;
        while i < n
            invariant
                n == items.len(),
                0 <= i <= n,
                rest@ == items.skip(i as int).reverse(),
                new@ == items.take(i as int).map_values(f).flatten(),
                f == (|item: T| inline_block(item)),
            decreases n - i,
        {
            proof {
                lemma_reversed_pop(items, i as int);
                lemma_flatten_step(items, f, i as int);
            }
            let item = rest.pop().unwrap();
            proof {
                T::lemma_as_stmt_from_stmt(item);
            }
            match item.try_into_stmt() {
                Ok(s) => match s {
                    Statement::Block(b) => {
                        if is_inliable(&b) {
                            let ghost before = new@;
                            let ghost body = b.stmts@;
                            let mut inner = reversed(b.stmts);
                            let mut k: usize = 0;
                            let m = inner.len();
                            while k < m
                                invariant
                                    m == body.len(),
                                    0 <= k <= m,
                                    inner@ == body.skip(k as int).reverse(),
                                    new@ == before + body.take(k as int).map_values(
                                        |s: Statement| T::spec_from_stmt(s),
                                    ),
                                decreases m - k,
                            {
                                proof {
                                    lemma_reversed_pop(body, k as int);
                                }
                                let s = inner.pop().unwrap();
                                new.push(T::from_stmt(s));
                                assert(body.take(k + 1).map_values(
                                    |s: Statement| T::spec_from_stmt(s),
                                ) =~= body.take(k as int).map_values(
                                    |s: Statement| T::spec_from_stmt(s),
                                ).push(T::spec_from_stmt(body[k as int])));
                                k = k + 1;
                            }
                            assert(body.take(m as int) =~= body);
                        } else {
                            new.push(T::from_stmt(Statement::Block(b)));
                        }
                    },
                    other => {
                        new.push(T::from_stmt(other));
                    },
                },
                Err(item) => {
                    new.push(item);
                },
            }
            i = i + 1;
        }
        assert(items.take(n as int) =~= items);
        *stmts = new;
    }
}

impl Pure {
    /// Evaluates the test of each `if` statement of the list.
    fn branch_verdicts<T: StmtLike>(&self, stmts: &Vec<T>) -> (r: Vec<Option<bool>>)
        ensures
            r@ == branch_verdicts_of(stmts@, self.expr_ctx),
    {
        let n = stmts.len();
        let mut verdicts: Vec<Option<bool>> = Vec::new();
        let mut i: usize = 0;
        while i < n
            invariant
                n == stmts@.len(),
                0 <= i <= n,
                verdicts@.len() == i,
                forall|j: int|
                    0 <= j < i ==> verdicts@[j] == #[trigger] item_verdict(
                        stmts@[j],
                        self.expr_ctx,
                    ),
            decreases n - i,
        {
            let v = match stmts[i].as_stmt() {
                Some(Statement::If(s)) => if is_evaluable(&s.test) {
                    cast_to_bool(&s.test, self.expr_ctx)
                } else {
                    None
                },
                _ => None,
            };
            verdicts.push(v);
            assert(verdicts@[i as int] == item_verdict(stmts@[i as int], self.expr_ctx));
            i = i + 1;
        }
        assert(verdicts@ =~= branch_verdicts_of(stmts@, self.expr_ctx));
        verdicts
    }

    /// Removes the branches of `if` statements that can never run, where
    /// `verdicts[i]` is the known truth value, if any, of the test of
    /// `stmts[i]`.
    pub fn prune_dead_branches<T: StmtLike>(&mut self, stmts: &mut Vec<T>, verdicts: &Vec<Option<bool>>)
        requires
            verdicts@.len() == old(stmts)@.len(),
        ensures
            final(stmts)@ == prune_dead_branches(old(stmts)@, verdicts@),
            *final(self) == (Pure {
                changed: old(self).changed || has_dead_branch(old(stmts)@, verdicts@),
                ..*old(self)
            }),
            final(self).changed == (old(self).changed || final(stmts)@ != old(stmts)@),
    {
        proof {
            law_prune_changes_iff_dead_branch(stmts@, verdicts@);
        }
        let ghost items = stmts@;
        let ghost g = |i: int| prune_branch(items[i], verdicts@[i]);
        assert(prune_dead_branches(items, verdicts@) == Seq::new(items.len(), g).flatten());
        let n = stmts.len();
        let mut found = false;
        let mut i: usize = 0;
        while i < n && !found
            invariant
                n == items.len(),
                stmts@ == items,
                verdicts@.len() == n,
                0 <= i <= n,
                found ==> i < n && is_if(items[i as int]) && verdicts@[i as int] is Some,
                forall|j: int| 0 <= j < i ==> !(#[trigger] is_if(items[j]) && verdicts@[j] is Some),
            decreases n - i + (if found { 0int } else { 1int }),
        {
            let dead = match stmts[i].as_stmt() {
                Some(Statement::If(_)) => verdicts[i].is_some(),
                _ => false,
            };
            if dead {
                found = true;
            } else {
                i = i + 1;
            }
        }
        if !found {
            proof {
                assert forall|j: int| 0 <= j < n implies #[trigger] Seq::new(items.len(), g)[j]
                    == seq![items[j]] by {
                    assert(!(is_if(items[j]) && verdicts@[j] is Some));
                    T::lemma_as_stmt_from_stmt(items[j]);
                }
                lemma_flatten_singletons(items, Seq::new(items.len(), g));
            }
            return;
        }
        self.changed = true;

        let mut taken: Vec<T> = Vec::new();
        std::mem::swap(&mut taken, stmts);
        let mut rest = reversed(taken);
        let mut new: Vec<T> = Vec::new();
        let mut i: usize = 0;
        while i < n
            invariant
                n == items.len(),
                verdicts@.len() == n,
                0 <= i <= n,
                rest@ == items.skip(i as int).reverse(),
                new@ == Seq::new(i as nat, g).flatten(),
                g == (|i: int| prune_branch(items[i], verdicts@[i])),
            decreases n - i,
        {
            proof {
                lemma_reversed_pop(items, i as int);
                assert(Seq::new((i + 1) as nat, g) =~= Seq::new(i as nat, g).push(g(i as int)));
                Seq::new(i as nat, g).lemma_flatten_push(g(i as int));
            }
            let item = rest.pop().unwrap();
            proof {
                T::lemma_as_stmt_from_stmt(item);
            }
            let verdict = verdicts[i];
            match item.try_into_stmt() {
                Ok(Statement::If(s)) => {
                    match verdict {
                        Some(v) => {
                            let IfStmt { span, test, cons, alt } = s;
                            new.push(
                                T::from_stmt(
                                    Statement::Expression(ExprStmt { span: SourceSpan::dummy(), expr: test }),
                                ),
                            );
                            if v {
                                new.push(T::from_stmt(*cons));
                            } else {
                                match alt {
                                    Some(alt) => {
                                        new.push(T::from_stmt(*alt));
                                    },
                                    None => {},
                                }
                            }
                        },
                        None => {
                            new.push(T::from_stmt(Statement::If(s)));
                        },
                    }
                },
                Ok(other) => {
                    new.push(T::from_stmt(other));
                },
                Err(item) => {
                    new.push(item);
                },
            }
            i = i + 1;
        }
        assert(Seq::new(n as nat, g) =~= Seq::new(items.len(), g));
        *stmts = new;
    }

    /// Rewrites `return void x;`, the last statement of a function body, to
    /// `x;`.
    pub fn drop_unused_stmt_at_end_of_fn(&mut self, s: &mut Statement)
        ensures
            *final(s) == drop_return_void(*old(s)),
            *final(self) == (Pure { changed: old(self).changed || is_return_void(*old(s)), ..*old(self) }),
            final(self).changed == (old(self).changed || *final(s) != *old(s)),
    {
        let is_void = match s {
            Statement::Return(r) => match &r.arg {
                Some(Expression::Void { .. }) => true,
                _ => false,
            },
            _ => false,
        };
        if !is_void {
            return;
        }
        let mut taken = Statement::Empty(SourceSpan::dummy());
        std::mem::swap(&mut taken, s);
        match taken {
            Statement::Return(ReturnStmt { span: _, arg: Some(Expression::Void { span, arg }) }) => {
                self.changed = true;
                *s = Statement::Expression(ExprStmt { span, expr: *arg });
            },
            other => {
                *s = other;
            },
        }
    }

    /// Removes the branches of `if` statements whose test has a truth value
    /// known before running, when the `unused` option is on.
    pub fn remove_dead_branch<T: StmtLike>(&mut self, stmts: &mut Vec<T>)
        ensures
            !old(self).options.unused ==> final(stmts)@ == old(stmts)@ && *final(self) == *old(
                self,
            ),
            old(self).options.unused ==> final(stmts)@ == prune_dead_branches(
                old(stmts)@,
                branch_verdicts_of(old(stmts)@, old(self).expr_ctx),
            ),
            old(self).options.unused ==> *final(self) == (Pure {
                changed: old(self).changed || has_dead_branch(
                    old(stmts)@,
                    branch_verdicts_of(old(stmts)@, old(self).expr_ctx),
                ),
                ..*old(self)
            }),
            final(self).changed == (old(self).changed || final(stmts)@ != old(stmts)@),
    {
        if !self.options.unused {
            return;
        }
        let verdicts = self.branch_verdicts(stmts);
        self.prune_dead_branches(stmts, &verdicts);
    }

    /// Drops the statements after one that always terminates, keeping
    /// declarations, when the `side_effects` option is on.
    pub fn remove_unreachable_stmts<T: StmtLike>(&mut self, stmts: &mut Vec<T>)
        ensures
            !old(self).options.side_effects ==> final(stmts)@ == old(stmts)@ && *final(self)
                == *old(self),
            old(self).options.side_effects ==> final(stmts)@ == remove_unreachable(old(stmts)@),
            old(self).options.side_effects ==> *final(self) == (Pure {
                changed: old(self).changed || has_unreachable_code(old(stmts)@),
                ..*old(self)
            }),
            final(self).changed == (old(self).changed || final(stmts)@ != old(stmts)@),
    {
        proof {
            law_unreachable_changes_iff(stmts@);
        }
        if !self.options.side_effects {
            return;
        }
        let ghost items = stmts@;
        let n = stmts.len();
        let mut last: Option<usize> = None;
        let mut terminated = false;
        let mut idx: usize = 0;
        while idx < n && last.is_none()
            invariant
                n == items.len(),
                stmts@ == items,
                0 <= idx <= n,
                last is None ==> terminated == exists|j: int|
                    0 <= j < idx && #[trigger] terminates_at(items, j),
                last is None ==> forall|k: int| 0 <= k < idx ==> !#[trigger] is_unreachable_start(
                    items,
                    k,
                ),
                last matches Some(l) ==> l == idx && is_first_unreachable(items, l as int),
            decreases n - idx + (if last is None { 1int } else { 0int }),
        {
            let ends = match stmts[idx].as_stmt() {
                Some(s) => always_terminates_stmt(s),
                None => false,
            };
            assert(ends == terminates_at(items, idx as int));
            if ends {
                terminated = true;
                idx = idx + 1;
            } else if terminated {
                last = Some(idx);
            } else {
                idx = idx + 1;
            }
        }
        match last {
            None => {
                assert(!exists|i: int| is_first_unreachable(items, i));
            },
            Some(l) => {
                proof {
                    lemma_first_unreachable_unique(items, l as int);
                }
                let mut all_survive = true;
                let mut k: usize = l;
                while k < n && all_survive
                    invariant
                        n == items.len(),
                        stmts@ == items,
                        l <= k <= n,
                        all_survive ==> forall|j: int| l <= j < k ==> #[trigger] survives_unreachable(items[j]),
                        !all_survive ==> k < n && !survives_unreachable(items[k as int]),
                    decreases n - k + (if all_survive { 1int } else { 0int }),
                {
                    let keep = match stmts[k].as_stmt() {
                        Some(Statement::Declaration(_)) => true,
                        Some(_) => false,
                        None => true,
                    };
                    if keep {
                        k = k + 1;
                    } else {
                        all_survive = false;
                    }
                }
                if all_survive {
                    proof {
                        let p = |item: T| survives_unreachable(item);
                        lemma_filter_keeps_all(items.skip(l as int), p);
                        assert(items.take(l as int) + items.skip(l as int) =~= items);
                        assert(!has_unreachable_code(items));
                    }
                    return;
                }
                self.changed = true;
                let extras = stmts.split_off(l);
                let ghost tail = extras@;
                assert(tail =~= items.skip(l as int));
                let m = extras.len();
                let mut rest = reversed(extras);
                let ghost p = |item: T| survives_unreachable(item);
                let mut j: usize = 0;
                while j < m
                    invariant
                        m == tail.len(),
                        0 <= j <= m,
                        rest@ == tail.skip(j as int).reverse(),
                        stmts@ == items.take(l as int) + tail.take(j as int).filter(p),
                        p == (|item: T| survives_unreachable(item)),
                    decreases m - j,
                {
                    proof {
                        lemma_reversed_pop(tail, j as int);
                        assert(tail.take(j + 1) =~= tail.take(j as int).push(tail[j as int]));
                        tail.take(j as int).lemma_filter_push(tail[j as int], p);
                    }
                    let extra = rest.pop().unwrap();
                    let keep = match extra.as_stmt() {
                        Some(Statement::Declaration(_)) => true,
                        Some(_) => false,
                        None => true,
                    };
                    if keep {
                        stmts.push(extra);
                    }
                    j = j + 1;
                }
                assert(tail.take(m as int) =~= tail);
            },
        }
    }
}

/// There is only one first unreachable item.
pub(crate) proof fn lemma_first_unreachable_unique<T: StmtLike>(items: Seq<T>, i: int)
    requires
        is_first_unreachable(items, i),
    ensures
        forall|k: int| #[trigger] is_first_unreachable(items, k) ==> k == i,
        (choose|k: int| is_first_unreachable(items, k)) == i,
{
    assert forall|k: int| #[trigger] is_first_unreachable(items, k) implies k == i by {
        if k < i {
            assert(!is_unreachable_start(items, k));
        } else if i < k {
            assert(!is_unreachable_start(items, i));
        }
    }
}

} // verus!
