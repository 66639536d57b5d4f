//! Properties of the statement passes that hold for every input.
use crate::ast::{
    BlockStmt, DeclKind, ExprStmt, Expression, IfStmt, SourceSpan, Statement, StmtLike, VarKind,
};
use crate::ctx::ExprSettings;
use crate::eval::{evaluable, truth_value};
use crate::dead_code::{
    always_terminates, branch_verdicts_of, drop_return_void, item_verdict, has_dead_branch, has_unreachable_code, has_useless_block, inline_block,
    inline_useless_blocks, is_first_unreachable, is_if, is_useless_block,
    is_unreachable_start, prune_branch, prune_dead_branches, remove_unreachable,
    survives_unreachable, terminates_at,
};
use crate::ctx::Options;
use crate::dead_code::lemma_first_unreachable_unique;
use crate::pure::{drop_debugger_stmt, is_not_empty, without_empty};
use crate::seq_facts::{lemma_filter_keeps_all, lemma_filter_shorter, lemma_flatten_singletons};
use vstd::prelude::*;

verus! {

// ----------------------------------------------------------------------------
// Dead branches
// ----------------------------------------------------------------------------

/// Pruning dead branches changes the list exactly when some `if` statement
/// has a test with a known truth value: the optimizer reports a change
/// exactly when it made one.
pub proof fn law_prune_changes_iff_dead_branch<T: StmtLike>(
    items: Seq<T>,
    verdicts: Seq<Option<bool>>,
)
    requires
        verdicts.len() == items.len(),
    ensures
        prune_dead_branches(items, verdicts) != items <==> has_dead_branch(items, verdicts),
{
    let n = items.len();
    let g = |i: int| prune_branch(items[i], verdicts[i]);
    let parts = Seq::new(n, g);
    assert(prune_dead_branches(items, verdicts) == parts.flatten());
    if !has_dead_branch(items, verdicts) {
        assert forall|j: int| 0 <= j < n implies #[trigger] parts[j] == seq![items[j]] by {
            assert(!(is_if(items[j]) && verdicts[j] is Some));
            T::lemma_as_stmt_from_stmt(items[j]);
        }
        lemma_flatten_singletons(items, parts);
    } else {
        let i0 = choose|i: int| 0 <= i < n && #[trigger] is_if(items[i]) && verdicts[i] is Some;
        lemma_first_dead_branch(items, verdicts, i0);
    }
}

/// The result differs from the list at the first dead `if`, which becomes an
/// expression statement.
proof fn lemma_first_dead_branch<T: StmtLike>(items: Seq<T>, verdicts: Seq<Option<bool>>, i0: int)
    requires
        verdicts.len() == items.len(),
        0 <= i0 < items.len(),
        is_if(items[i0]),
        verdicts[i0] is Some,
    ensures
        prune_dead_branches(items, verdicts) != items,
    decreases i0,
{
    let n = items.len();
    if exists|i: int| 0 <= i < i0 && #[trigger] is_if(items[i]) && verdicts[i] is Some {
        let i1 = choose|i: int| 0 <= i < i0 && #[trigger] is_if(items[i]) && verdicts[i] is Some;
        lemma_first_dead_branch(items, verdicts, i1);
    } else {
        let g = |i: int| prune_branch(items[i], verdicts[i]);
        let parts = Seq::new(n, g);
        let front = parts.take(i0);
        let back = parts.skip(i0);
        assert(parts =~= front + back);
        vstd::seq_lib::lemma_flatten_concat(front, back);
        assert forall|j: int| 0 <= j < i0 implies #[trigger] front[j] == seq![items[j]] by {
            assert(!(is_if(items[j]) && verdicts[j] is Some));
            T::lemma_as_stmt_from_stmt(items[j]);
        }
        lemma_flatten_singletons(items.take(i0), front);
        let test = items[i0].spec_as_stmt()->0->If_0.test;
        let head = T::spec_from_stmt(
            Statement::Expression(ExprStmt { span: SourceSpan::spec_dummy(), expr: test }),
        );
        assert(back[0] == g(i0));
        assert(g(i0)[0] == head);
        assert(back.flatten() == back[0] + back.drop_first().flatten());
        let result = parts.flatten();
        assert(result[i0] == head);
        T::lemma_from_stmt_as_stmt(
            Statement::Expression(ExprStmt { span: SourceSpan::spec_dummy(), expr: test }),
        );
        assert(result.len() > i0);
        assert(result[i0] != items[i0]);
    }
}

// ----------------------------------------------------------------------------
// Useless blocks
// ----------------------------------------------------------------------------

/// The number of statements in `s`, counting the statements nested in
/// blocks and the blocks themselves.
pub open spec fn stmt_size(s: Statement) -> nat
    decreases s,
{
    match s {
        Statement::Block(b) => {
            proof {
                assert(decreases_to!(s => s->Block_0));
                assert(decreases_to!(b => b.stmts));
                assert(decreases_to!(b.stmts => b.stmts@));
            }
            1 + stmts_size(b.stmts@)
        },
        _ => 1,
    }
}

/// The number of statements in a list, counting nested ones.
pub open spec fn stmts_size(stmts: Seq<Statement>) -> nat
    decreases stmts,
{
    if stmts.len() == 0 {
        0
    } else {
        proof {
            assert(decreases_to!(stmts => stmts[stmts.len() - 1]));
            assert(decreases_to!(stmts => stmts.subrange(0, stmts.len() - 1)));
        }
        stmts_size(stmts.subrange(0, stmts.len() - 1)) + stmt_size(stmts[stmts.len() - 1])
    }
}

/// The size of an item: that of its statement, or one.
pub open spec fn item_size<T: StmtLike>(item: T) -> nat {
    match item.spec_as_stmt() {
        Some(s) => stmt_size(s),
        None => 1,
    }
}

/// The total size of the items of a list.
pub open spec fn items_size<T: StmtLike>(items: Seq<T>) -> nat
    decreases items.len(),
{
    if items.len() == 0 {
        0
    } else {
        items_size(items.drop_last()) + item_size(items.last())
    }
}

/// The total size of the items of lists.
pub open spec fn parts_size<T: StmtLike>(parts: Seq<Seq<T>>) -> nat
    decreases parts.len(),
{
    if parts.len() == 0 {
        0
    } else {
        parts_size(parts.drop_last()) + items_size(parts.last())
    }
}

proof fn lemma_items_size_concat<T: StmtLike>(a: Seq<T>, b: Seq<T>)
    ensures
        items_size(a + b) == items_size(a) + items_size(b),
    decreases b.len(),
{
    if b.len() > 0 {
        assert((a + b).drop_last() =~= a + b.drop_last());
        assert((a + b).last() == b.last());
        lemma_items_size_concat(a, b.drop_last());
    } else {
        assert(a + b =~= a);
    }
}

proof fn lemma_items_size_lift<T: StmtLike>(stmts: Seq<Statement>)
    ensures
        items_size(stmts.map_values(|s: Statement| T::spec_from_stmt(s))) == stmts_size(stmts),
    decreases stmts.len(),
{
    let f = |s: Statement| T::spec_from_stmt(s);
    if stmts.len() > 0 {
        let init = stmts.subrange(0, stmts.len() - 1);
        assert(stmts.map_values(f).drop_last() =~= init.map_values(f));
        lemma_items_size_lift::<T>(init);
        T::lemma_from_stmt_as_stmt(stmts[stmts.len() - 1]);
    }
}

proof fn lemma_items_size_flatten<T: StmtLike>(parts: Seq<Seq<T>>)
    ensures
        items_size(parts.flatten()) == parts_size(parts),
    decreases parts.len(),
{
    if parts.len() > 0 {
        let init = parts.drop_last();
        assert(parts =~= init.push(parts.last()));
        init.lemma_flatten_push(parts.last());
        lemma_items_size_flatten(init);
        lemma_items_size_concat(init.flatten(), parts.last());
    }
}

proof fn lemma_inline_size<T: StmtLike>(items: Seq<T>)
    ensures
        parts_size(items.map_values(|item: T| inline_block(item))) <= items_size(items),
        has_useless_block(items) ==> parts_size(items.map_values(|item: T| inline_block(item)))
            < items_size(items),
    decreases items.len(),
{
    let f = |item: T| inline_block(item);
    if items.len() > 0 {
        let init = items.drop_last();
        let last = items.last();
        assert(items.map_values(f).drop_last() =~= init.map_values(f));
        assert(items.map_values(f).last() == inline_block(last));
        lemma_inline_size(init);
        assert(parts_size(items.map_values(f)) == parts_size(init.map_values(f)) + items_size(
            inline_block(last),
        ));
        assert(items_size(items) == items_size(init) + item_size(last));
        if is_useless_block(last) {
            let b = last.spec_as_stmt()->0->Block_0;
            lemma_items_size_lift::<T>(b.stmts@);
            assert(inline_block(last) == b.stmts@.map_values(|s: Statement| T::spec_from_stmt(s)));
            assert(item_size(last) == 1 + stmts_size(b.stmts@));
            assert(items_size(inline_block(last)) < item_size(last));
        } else {
            T::lemma_as_stmt_from_stmt(last);
            assert(inline_block(last) == seq![last]);
            assert(seq![last].drop_last() =~= Seq::<T>::empty());
            assert(items_size(Seq::<T>::empty()) == 0);
            assert(seq![last].last() == last);
            assert(items_size(seq![last]) == item_size(last));
        }
        if has_useless_block(items) && !is_useless_block(last) {
            let i = choose|i: int| 0 <= i < items.len() && #[trigger] is_useless_block(items[i]);
            assert(i < items.len() - 1);
            assert(init[i] == items[i]);
            assert(has_useless_block(init));
        }
    }
}

/// Inlining useless blocks changes the list exactly when it has a useless
/// block: the optimizer reports a change exactly when it made one.
pub proof fn law_inline_changes_iff_useless_block<T: StmtLike>(items: Seq<T>)
    ensures
        inline_useless_blocks(items) != items <==> has_useless_block(items),
{
    let f = |item: T| inline_block(item);
    let parts = items.map_values(f);
    if has_useless_block(items) {
        lemma_inline_size(items);
        lemma_items_size_flatten(parts);
    } else {
        assert forall|j: int| 0 <= j < items.len() implies #[trigger] parts[j] == seq![items[j]] by {
            assert(!is_useless_block(items[j]));
            T::lemma_as_stmt_from_stmt(items[j]);
        }
        lemma_flatten_singletons(items, parts);
    }
}

// ----------------------------------------------------------------------------
// Unreachable statements
// ----------------------------------------------------------------------------

/// Removing unreachable statements changes the list exactly when some
/// statement after the first unreachable point is not a declaration.
pub proof fn law_unreachable_changes_iff<T: StmtLike>(items: Seq<T>)
    ensures
        remove_unreachable(items) != items <==> has_unreachable_code(items),
{
    let p = |item: T| survives_unreachable(item);
    if exists|i: int| is_first_unreachable(items, i) {
        let i = choose|i: int| is_first_unreachable(items, i);
        let rest = items.skip(i);
        if has_unreachable_code(items) {
            let (i1, k) = choose|i1: int, k: int|
                #[trigger] is_first_unreachable(items, i1) && i1 <= k < items.len()
                    && !#[trigger] survives_unreachable(items[k]);
            lemma_first_unreachable_unique(items, i);
            assert(i1 == i);
            assert(rest[k - i] == items[k]);
            lemma_filter_shorter(rest, p, k - i);
            assert(remove_unreachable(items).len() < items.len());
        } else {
            assert forall|j: int| 0 <= j < rest.len() implies #[trigger] p(rest[j]) by {
                assert(rest[j] == items[i + j]);
                if !survives_unreachable(items[i + j]) {
                    assert(has_unreachable_code(items));
                }
            }
            lemma_filter_keeps_all(rest, p);
            assert(items.take(i) + rest =~= items);
        }
    }
}

/// Removing unreachable statements twice removes nothing more: afterwards
/// only declarations follow the first unreachable point.
pub proof fn law_unreachable_idempotent<T: StmtLike>(items: Seq<T>)
    ensures
        remove_unreachable(remove_unreachable(items)) == remove_unreachable(items),
        !has_unreachable_code(remove_unreachable(items)),
{
    let p = |item: T| survives_unreachable(item);
    let r = remove_unreachable(items);
    if exists|i: int| is_first_unreachable(items, i) {
        let i = choose|i: int| is_first_unreachable(items, i);
        let kept = items.skip(i).filter(p);
        assert(r == items.take(i) + kept);
        assert forall|j: int| 0 <= j < kept.len() implies #[trigger] p(kept[j]) by {
            items.skip(i).lemma_filter_pred(p, j);
        }
        assert forall|k: int| 0 <= k < i && k < r.len() implies r[k] == items[k] by {}
        assert forall|k: int| 0 <= k < i implies #[trigger] terminates_at(r, k) == terminates_at(
            items,
            k,
        ) by {
            assert(r[k] == items[k]);
        }
        assert forall|k: int| 0 <= k < i implies !#[trigger] is_unreachable_start(r, k) by {
            assert(!is_unreachable_start(items, k));
            if is_unreachable_start(r, k) {
                let j = choose|j: int| 0 <= j < k && #[trigger] terminates_at(r, j);
                assert(terminates_at(items, j));
            }
        }
        if kept.len() == 0 {
            assert(r =~= items.take(i));
            assert forall|k: int| !#[trigger] is_first_unreachable(r, k) by {
                if is_first_unreachable(r, k) {
                    assert(k < i);
                }
            }
        } else {
            assert(r[i] == kept[0]);
            assert(p(kept[0]));
            assert(!terminates_at(r, i)) by {
                if let Some(s) = r[i].spec_as_stmt() {
                    assert(s is Declaration);
                    assert(!always_terminates(s));
                }
            }
            let j0 = choose|j: int| 0 <= j < i && #[trigger] terminates_at(items, j);
            assert(terminates_at(r, j0));
            assert(is_unreachable_start(r, i));
            assert(is_first_unreachable(r, i));
            lemma_first_unreachable_unique(r, i);
            assert(r.take(i) =~= items.take(i));
            assert(r.skip(i) =~= kept);
            lemma_filter_keeps_all(kept, p);
            assert forall|i1: int, k: int|
                #[trigger] is_first_unreachable(r, i1) && i1 <= k < r.len() implies #[trigger]
                survives_unreachable(r[k]) by {
                assert(r[k] == kept[k - i]);
                assert(p(kept[k - i]));
            }
            assert(r.take(i) + r.skip(i) =~= r);
        }
    }
}

/// Removing unreachable statements keeps every declaration and module
/// declaration, in order: those that must stay all stay.
pub proof fn law_unreachable_keeps_declarations<T: StmtLike>(items: Seq<T>)
    ensures
        remove_unreachable(items).filter(|item: T| survives_unreachable(item)) == items.filter(
            |item: T| survives_unreachable(item),
        ),
{
    let p = |item: T| survives_unreachable(item);
    if exists|i: int| is_first_unreachable(items, i) {
        let i = choose|i: int| is_first_unreachable(items, i);
        let kept = items.skip(i).filter(p);
        assert forall|j: int| 0 <= j < kept.len() implies #[trigger] p(kept[j]) by {
            items.skip(i).lemma_filter_pred(p, j);
        }
        lemma_filter_keeps_all(kept, p);
        Seq::filter_distributes_over_add(items.take(i), kept, p);
        Seq::filter_distributes_over_add(items.take(i), items.skip(i), p);
        assert(items.take(i) + items.skip(i) =~= items);
    }
}

// ----------------------------------------------------------------------------
// Empty and debugger statements
// ----------------------------------------------------------------------------

/// After empty statements are dropped, none is left, and the others keep
/// their order.
pub proof fn law_no_empty_statement_left(stmts: Seq<Statement>)
    ensures
        forall|k: int| 0 <= k < without_empty(stmts).len() ==> !(#[trigger] without_empty(stmts)[k] is Empty),
        without_empty(stmts).len() <= stmts.len(),
{
    let p = |s: Statement| is_not_empty(s);
    assert forall|k: int| 0 <= k < without_empty(stmts).len() implies !(#[trigger] without_empty(
        stmts,
    )[k] is Empty) by {
        stmts.lemma_filter_pred(p, k);
    }
    stmts.lemma_filter_len(p);
}

/// With `drop_debugger` on, no `debugger` statement is left; with it off,
/// statements stay as they are.
pub proof fn law_no_debugger_left(s: Statement, options: Options)
    ensures
        options.drop_debugger ==> !(drop_debugger_stmt(s, options) is Debugger),
        !options.drop_debugger ==> drop_debugger_stmt(s, options) == s,
{
}

// ----------------------------------------------------------------------------
// What each pass decides on
// ----------------------------------------------------------------------------

/// An `if` statement always terminates only when it has an `else` and both
/// of its branches always terminate: one branch that completes lets control
/// flow past it.
pub proof fn law_if_terminates_only_if_both_branches_do(i: IfStmt)
    ensures
        always_terminates(Statement::If(i)) ==> (i.alt matches Some(alt) && always_terminates(
            *i.cons,
        ) && always_terminates(*alt)),
        !always_terminates(*i.cons) ==> !always_terminates(Statement::If(i)),
{
}

/// `return`, `throw`, `break` and `continue` always terminate; an
/// expression, empty, `debugger` or declaration statement never does, nor
/// does an `if` without `else`; a block does exactly when one of its
/// statements does.
pub proof fn law_which_statements_terminate(s: Statement)
    ensures
        s is Return || s is Exit ==> always_terminates(s),
        s is Expression || s is Empty || s is Debugger || s is Declaration || s is Other
            ==> !always_terminates(s),
        s matches Statement::If(i) && i.alt is None ==> !always_terminates(s),
        s matches Statement::Block(b) ==> (always_terminates(s) <==> exists|k: int|
            0 <= k < b.stmts@.len() && #[trigger] always_terminates(b.stmts@[k])),
{
    if let Statement::Block(b) = s {
        crate::dead_code::lemma_some_always_terminates(b.stmts@);
    }
}

/// A list in which no statement always terminates loses nothing when
/// unreachable statements are removed.
pub proof fn law_nothing_unreachable_without_terminator<T: StmtLike>(items: Seq<T>)
    requires
        forall|k: int| 0 <= k < items.len() ==> !(#[trigger] items[k].spec_as_stmt() matches Some(
            s,
        ) && always_terminates(s)),
    ensures
        remove_unreachable(items) == items,
{
    assert forall|i: int| !is_first_unreachable(items, i) by {
        if is_unreachable_start(items, i) {
            let j = choose|j: int| 0 <= j < i && #[trigger] terminates_at(items, j);
            assert(!(items[j].spec_as_stmt() matches Some(s) && always_terminates(s)));
        }
    }
}

/// The verdict on an `if` statement is the truth value of its whole test,
/// when the test may be evaluated, and none otherwise.
pub proof fn law_verdict_is_that_of_whole_test<T: StmtLike>(s: IfStmt, settings: ExprSettings)
    ensures
        evaluable(s.test) ==> item_verdict(T::spec_from_stmt(Statement::If(s)), settings)
            == truth_value(s.test, settings),
        !evaluable(s.test) ==> item_verdict(T::spec_from_stmt(Statement::If(s)), settings) is None,
{
    T::lemma_from_stmt_as_stmt(Statement::If(s));
}

/// A lone `if` statement whose test has a known truth value becomes its
/// test, kept for its effects, followed by the branch that this truth value
/// selects; with no known truth value it stays.
pub proof fn law_dead_branch_follows_test(s: IfStmt, settings: ExprSettings)
    ensures
        ({
            let items = seq![Statement::If(s)];
            let out = prune_dead_branches(items, branch_verdicts_of(items, settings));
            let test = Statement::Expression(ExprStmt { span: SourceSpan::spec_dummy(), expr: s.test });
            &&& (evaluable(s.test) && truth_value(s.test, settings) == Some(true)) ==> out == seq![
                test,
                *s.cons,
            ]
            &&& (evaluable(s.test) && truth_value(s.test, settings) == Some(false)) ==> out == (
            match s.alt {
                Some(alt) => seq![test, *alt],
                None => seq![test],
            })
            &&& (!evaluable(s.test) || truth_value(s.test, settings) is None) ==> out == items
        }),
{
    let items = seq![Statement::If(s)];
    let verdicts = branch_verdicts_of(items, settings);
    law_verdict_is_that_of_whole_test::<Statement>(s, settings);
    assert(verdicts[0] == item_verdict(items[0], settings));
    let parts = Seq::new(items.len(), |i: int| prune_branch(items[i], verdicts[i]));
    parts.lemma_flatten_one_element();
    assert(parts.first() == prune_branch(Statement::If(s), verdicts[0]));
    let test = Statement::Expression(ExprStmt { span: SourceSpan::spec_dummy(), expr: s.test });
    assert(seq![test] + seq![*s.cons] =~= seq![test, *s.cons]);
    match s.alt {
        Some(alt) => {
            assert(seq![test] + seq![*alt] =~= seq![test, *alt]);
        },
        None => {
            assert(seq![test] + Seq::<Statement>::empty() =~= seq![test]);
        },
    }
}

/// A declaration scoped by a block: `let`, `const`, a class or another
/// declaration other than `var`, or a function named `undefined`.
pub open spec fn is_block_scoped(s: Statement) -> bool {
    s matches Statement::Declaration(d) && match d.kind {
        DeclKind::Var { kind } => kind != VarKind::Var,
        DeclKind::Fn { name } => name@ == "undefined"@,
        DeclKind::Other => true,
    }
}

/// A block holding a block-scoped declaration, at any position, is never
/// inlined: it stays as it is.
pub proof fn law_scoping_block_stays<T: StmtLike>(item: T, b: BlockStmt, k: int)
    requires
        item.spec_as_stmt() == Some(Statement::Block(b)),
        0 <= k < b.stmts@.len(),
        is_block_scoped(b.stmts@[k]),
    ensures
        !is_useless_block(item),
        inline_block(item) == seq![item],
{
    assert(!crate::dead_code::hoistable(b.stmts@[k]));
}

/// A block whose statements are all other than declarations, `var`
/// declarations, or function declarations not named `undefined` is
/// replaced by its statements, in order.
pub proof fn law_plain_block_is_inlined<T: StmtLike>(item: T, b: BlockStmt)
    requires
        item.spec_as_stmt() == Some(Statement::Block(b)),
        forall|k: int|
            0 <= k < b.stmts@.len() ==> !(#[trigger] b.stmts@[k] matches Statement::Declaration(d)
                && match d.kind {
                DeclKind::Var { kind } => kind != VarKind::Var,
                DeclKind::Fn { name } => name@ == "undefined"@,
                DeclKind::Other => true,
            }),
    ensures
        is_useless_block(item),
        inline_block(item) == b.stmts@.map_values(|s: Statement| T::spec_from_stmt(s)),
{
}

/// Only `return void e;` is rewritten at the end of a function body: any
/// other statement, a `return` of any other value included, stays.
pub proof fn law_only_return_void_is_rewritten(s: Statement)
    ensures
        !(s matches Statement::Return(r) && r.arg matches Some(Expression::Void { .. }))
            ==> drop_return_void(s) == s,
        drop_return_void(s) is Return ==> drop_return_void(s) == s,
{
}

/// Dropping empty statements drops exactly the empty ones: every other
/// statement of the list, `debugger` included, is still there, nothing else
/// is, and the result is shorter by the number of empty statements.
pub proof fn law_dropping_empty_keeps_the_rest(stmts: Seq<Statement>)
    ensures
        forall|k: int|
            0 <= k < stmts.len() && !(stmts[k] is Empty) ==> #[trigger] without_empty(
                stmts,
            ).contains(stmts[k]),
        forall|k: int|
            0 <= k < without_empty(stmts).len() ==> stmts.contains(#[trigger] without_empty(stmts)[k])
                && !(without_empty(stmts)[k] is Empty),
        without_empty(stmts).len() + stmts.filter(|s: Statement| s is Empty).len() == stmts.len(),
    decreases stmts.len(),
{
    let p = |s: Statement| is_not_empty(s);
    let e = |s: Statement| s is Empty;
    assert(without_empty(stmts) == stmts.filter(p));
    assert forall|k: int| 0 <= k < stmts.len() && !(stmts[k] is Empty) implies #[trigger] without_empty(
        stmts,
    ).contains(stmts[k]) by {
        stmts.lemma_filter_contains(p, k);
    }
    assert forall|k: int| 0 <= k < without_empty(stmts).len() implies stmts.contains(
        #[trigger] without_empty(stmts)[k],
    ) && !(without_empty(stmts)[k] is Empty) by {
        stmts.lemma_filter_pred(p, k);
        stmts.lemma_filter_contains_rev(p, stmts.filter(p)[k]);
    }
    if stmts.len() > 0 {
        let init = stmts.drop_last();
        law_dropping_empty_keeps_the_rest(init);
        assert(without_empty(init) == init.filter(p));
        reveal(Seq::filter);
        assert(stmts.filter(p) == if p(stmts.last()) {
            init.filter(p).push(stmts.last())
        } else {
            init.filter(p)
        });
        assert(stmts.filter(e) == if e(stmts.last()) {
            init.filter(e).push(stmts.last())
        } else {
            init.filter(e)
        });
    }
}

} // verus!
