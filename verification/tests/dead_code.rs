use minifier_pure::ast::{
    BlockStmt, DeclKind, Declaration, ExitKind, ExprStmt, Expression, IfStmt, ModuleItem,
    ReturnStmt, SourceSpan, Statement, VarKind,
};
use minifier_pure::ctx::{ExprSettings, Options};
use minifier_pure::dead_code::always_terminates_stmt;
use minifier_pure::pure::{pure_optimizer, Pure};
use swc_common::DUMMY_SP;
use swc_ecma_ast as js;

fn sp(n: u32) -> SourceSpan {
    SourceSpan { lo: n, hi: n }
}

fn js_sp(n: u32) -> swc_common::Span {
    swc_common::Span { lo: swc_common::BytePos(n), hi: swc_common::BytePos(n) }
}

fn settings() -> ExprSettings {
    ExprSettings { unresolved_ctxt: 0, is_unresolved_ref_safe: false, in_strict: false, remaining_depth: 4 }
}

fn optimizer(unused: bool, side_effects: bool) -> Pure {
    pure_optimizer(Options { unused, side_effects, drop_debugger: true }, settings())
}

fn bool_expr(value: bool) -> Expression {
    Expression::Bool { span: sp(0), value }
}

fn num_expr(value: f64) -> Expression {
    Expression::Num(Box::new(js::Number { span: DUMMY_SP, value, raw: None }))
}

fn ident(name: &str) -> Box<js::Expr> {
    Box::new(js::Expr::Ident(js::Ident::new_no_ctxt(name.into(), DUMMY_SP)))
}

fn ident_expr(name: &str) -> Expression {
    Expression::Ident(Box::new(js::Ident::new_no_ctxt(name.into(), DUMMY_SP)))
}

/// `tag;` — an expression statement recognised by its span.
fn marker(tag: u32) -> Statement {
    Statement::Expression(ExprStmt { span: sp(tag), expr: ident_expr("x") })
}

fn tag(s: &Statement) -> Option<u32> {
    match s {
        Statement::Expression(e) => Some(e.span.lo),
        Statement::Empty(span) | Statement::Debugger(span) => Some(span.lo),
        Statement::Block(b) => Some(b.span.lo),
        Statement::If(i) => Some(i.span.lo),
        Statement::Return(r) => Some(r.span.lo),
        Statement::Exit(_, node) | Statement::Other(node) => match &**node {
            js::Stmt::Throw(t) => Some(t.span.lo.0),
            js::Stmt::Break(b) => Some(b.span.lo.0),
            _ => None,
        },
        Statement::Declaration(_) => None,
    }
}

fn tags(items: &[Statement]) -> Vec<Option<u32>> {
    items.iter().map(tag).collect()
}

fn block(tag: u32, stmts: Vec<Statement>) -> Statement {
    Statement::Block(BlockStmt { span: sp(tag), ctxt: 0, stmts })
}

fn var_decl(kind: VarKind) -> Statement {
    let js_kind = match kind {
        VarKind::Var => js::VarDeclKind::Var,
        VarKind::Let => js::VarDeclKind::Let,
        VarKind::Const => js::VarDeclKind::Const,
    };
    Statement::Declaration(Declaration {
        kind: DeclKind::Var { kind },
        node: Box::new(js::Decl::Var(Box::new(js::VarDecl {
            span: DUMMY_SP,
            ctxt: Default::default(),
            kind: js_kind,
            declare: false,
            decls: vec![],
        }))),
    })
}

fn fn_decl(name: &str) -> Statement {
    Statement::Declaration(Declaration {
        kind: DeclKind::Fn { name: name.to_string() },
        node: Box::new(js::Decl::Fn(js::FnDecl {
            ident: js::Ident::new_no_ctxt(name.into(), DUMMY_SP),
            declare: false,
            function: Box::new(js::Function::default()),
        })),
    })
}

fn class_decl() -> Statement {
    Statement::Declaration(Declaration {
        kind: DeclKind::Other,
        node: Box::new(js::Decl::Class(js::ClassDecl {
            ident: js::Ident::new_no_ctxt("C".into(), DUMMY_SP),
            declare: false,
            class: Box::new(js::Class::default()),
        })),
    })
}

fn ret(tag: u32) -> Statement {
    Statement::Return(ReturnStmt { span: sp(tag), arg: None })
}

fn throw(tag: u32) -> Statement {
    Statement::Exit(
        ExitKind::Throw,
        Box::new(js::Stmt::Throw(js::ThrowStmt { span: js_sp(tag), arg: ident("e") })),
    )
}

fn brk(tag: u32) -> Statement {
    Statement::Exit(
        ExitKind::Break,
        Box::new(js::Stmt::Break(js::BreakStmt { span: js_sp(tag), label: None })),
    )
}

fn if_stmt(tag: u32, test: Expression, cons: Statement, alt: Option<Statement>) -> Statement {
    Statement::If(IfStmt { span: sp(tag), test, cons: Box::new(cons), alt: alt.map(Box::new) })
}

fn is_expr_of_test(s: &Statement) -> bool {
    matches!(s, Statement::Expression(e) if e.span == SourceSpan { lo: 0, hi: 0 })
}

// ---------------------------------------------------------------------------
// always_terminates
// ---------------------------------------------------------------------------

#[test]
fn return_throw_break_always_terminate() {
    assert!(always_terminates_stmt(&ret(1)));
    assert!(always_terminates_stmt(&throw(1)));
    assert!(always_terminates_stmt(&brk(1)));
    assert!(!always_terminates_stmt(&marker(1)));
    assert!(!always_terminates_stmt(&var_decl(VarKind::Var)));
}

#[test]
fn if_terminates_only_when_both_branches_do() {
    assert!(always_terminates_stmt(&if_stmt(1, ident_expr("a"), ret(2), Some(throw(3)))));
    assert!(!always_terminates_stmt(&if_stmt(1, ident_expr("a"), ret(2), None)));
    assert!(!always_terminates_stmt(&if_stmt(1, ident_expr("a"), ret(2), Some(marker(3)))));
}

#[test]
fn block_terminates_when_one_statement_does() {
    assert!(always_terminates_stmt(&block(1, vec![marker(2), ret(3), marker(4)])));
    assert!(!always_terminates_stmt(&block(1, vec![marker(2), marker(3)])));
    assert!(!always_terminates_stmt(&block(1, vec![])));
}

// ---------------------------------------------------------------------------
// drop_useless_blocks
// ---------------------------------------------------------------------------

#[test]
fn block_of_plain_statements_is_inlined() {
    let mut p = optimizer(true, true);
    let mut stmts = vec![marker(1), block(2, vec![marker(3), var_decl(VarKind::Var), fn_decl("f")]), marker(4)];
    p.drop_useless_blocks(&mut stmts);
    assert!(p.changed());
    assert_eq!(stmts.len(), 5);
    assert_eq!(tag(&stmts[0]), Some(1));
    assert_eq!(tag(&stmts[1]), Some(3));
    assert!(matches!(&stmts[2], Statement::Declaration(d) if matches!(d.kind, DeclKind::Var { kind: VarKind::Var })));
    assert!(matches!(&stmts[3], Statement::Declaration(d) if matches!(&d.kind, DeclKind::Fn { name } if name == "f")));
    assert_eq!(tag(&stmts[4]), Some(4));
}

#[test]
fn empty_block_is_dropped() {
    let mut p = optimizer(true, true);
    let mut stmts = vec![marker(1), block(2, vec![]), marker(3)];
    p.drop_useless_blocks(&mut stmts);
    assert!(p.changed());
    assert_eq!(tags(&stmts), vec![Some(1), Some(3)]);
}

#[test]
fn block_with_let_stays() {
    let mut p = optimizer(true, true);
    let mut stmts = vec![block(2, vec![marker(3), var_decl(VarKind::Let)])];
    p.drop_useless_blocks(&mut stmts);
    assert!(!p.changed());
    assert_eq!(tags(&stmts), vec![Some(2)]);
}

#[test]
fn block_with_const_or_class_stays() {
    let mut p = optimizer(true, true);
    let mut stmts = vec![block(2, vec![var_decl(VarKind::Const)]), block(3, vec![class_decl()])];
    p.drop_useless_blocks(&mut stmts);
    assert!(!p.changed());
    assert_eq!(tags(&stmts), vec![Some(2), Some(3)]);
}

#[test]
fn block_declaring_function_undefined_stays() {
    let mut p = optimizer(true, true);
    let mut stmts = vec![block(2, vec![fn_decl("undefined")])];
    p.drop_useless_blocks(&mut stmts);
    assert!(!p.changed());
    assert_eq!(tags(&stmts), vec![Some(2)]);
}

#[test]
fn nested_blocks_lose_one_level() {
    let mut p = optimizer(true, true);
    let mut stmts = vec![block(1, vec![block(2, vec![marker(3)])])];
    p.drop_useless_blocks(&mut stmts);
    assert!(p.changed());
    assert_eq!(tags(&stmts), vec![Some(2)]);
}

#[test]
fn module_declarations_pass_through_block_inlining() {
    let mut p = optimizer(true, true);
    let mut items = vec![
        ModuleItem::ModuleDecl(Box::new(export_all())),
        ModuleItem::Statement(block(2, vec![marker(3)])),
    ];
    p.drop_useless_blocks(&mut items);
    assert!(p.changed());
    assert_eq!(items.len(), 2);
    assert!(matches!(items[0], ModuleItem::ModuleDecl(_)));
    assert!(matches!(&items[1], ModuleItem::Statement(s) if tag(s) == Some(3)));
}

fn export_all() -> js::ModuleDecl {
    js::ModuleDecl::ExportAll(js::ExportAll {
        span: DUMMY_SP,
        src: Box::new(js::Str::from(swc_atoms::Atom::from("m"))),
        type_only: false,
        with: None,
    })
}

// ---------------------------------------------------------------------------
// remove_dead_branch
// ---------------------------------------------------------------------------

#[test]
fn if_true_keeps_test_and_consequent() {
    let mut p = optimizer(true, true);
    let mut stmts = vec![if_stmt(1, bool_expr(true), marker(2), Some(marker(3)))];
    p.remove_dead_branch(&mut stmts);
    assert!(p.changed());
    assert_eq!(stmts.len(), 2);
    assert!(is_expr_of_test(&stmts[0]));
    assert_eq!(tag(&stmts[1]), Some(2));
}

#[test]
fn if_false_keeps_test_and_alternate() {
    let mut p = optimizer(true, true);
    let mut stmts = vec![marker(9), if_stmt(1, num_expr(0.0), marker(2), Some(marker(3)))];
    p.remove_dead_branch(&mut stmts);
    assert!(p.changed());
    assert_eq!(stmts.len(), 3);
    assert_eq!(tag(&stmts[0]), Some(9));
    assert!(is_expr_of_test(&stmts[1]));
    assert_eq!(tag(&stmts[2]), Some(3));
}

#[test]
fn if_false_without_alternate_keeps_only_test() {
    let mut p = optimizer(true, true);
    let mut stmts = vec![if_stmt(1, ident_expr("undefined"), marker(2), None)];
    p.remove_dead_branch(&mut stmts);
    assert!(p.changed());
    assert_eq!(stmts.len(), 1);
    assert!(is_expr_of_test(&stmts[0]));
}

#[test]
fn if_void_test_takes_alternate() {
    let mut p = optimizer(true, true);
    let test = Expression::Void { span: sp(5), arg: Box::new(ident_expr("f")) };
    let mut stmts = vec![if_stmt(1, test, marker(2), Some(marker(3)))];
    p.remove_dead_branch(&mut stmts);
    assert!(p.changed());
    assert_eq!(stmts.len(), 2);
    assert!(matches!(&stmts[0], Statement::Expression(e) if matches!(e.expr, Expression::Void { .. })));
    assert_eq!(tag(&stmts[1]), Some(3));
}

#[test]
fn if_with_unknown_test_stays() {
    let mut p = optimizer(true, true);
    let mut stmts = vec![if_stmt(1, ident_expr("a"), marker(2), Some(marker(3)))];
    p.remove_dead_branch(&mut stmts);
    assert!(!p.changed());
    assert_eq!(tags(&stmts), vec![Some(1)]);
}

#[test]
fn if_with_unevaluable_test_stays() {
    let mut p = optimizer(true, true);
    let empty_seq = Expression::Sequence { span: sp(0), exprs: vec![] };
    let jsx_text = js::Expr::Lit(js::Lit::JSXText(js::JSXText {
        span: DUMMY_SP,
        value: "t".into(),
        raw: "t".into(),
    }));
    let mut stmts = vec![
        if_stmt(1, empty_seq, marker(2), Some(marker(3))),
        if_stmt(4, Expression::Node(Box::new(jsx_text)), marker(5), None),
        if_stmt(6, Expression::Node(Box::new(js::Expr::Lit(js::Lit::Bool(js::Bool { span: DUMMY_SP, value: true })))), marker(7), None),
    ];
    p.remove_dead_branch(&mut stmts);
    assert!(!p.changed());
    assert_eq!(tags(&stmts), vec![Some(1), Some(4), Some(6)]);
}

#[test]
fn if_with_composed_test_is_evaluated() {
    // `if ((1, !0)) a else b` keeps `(1, !0);` and `a`.
    let mut p = optimizer(true, true);
    let not_zero = Expression::Unary { span: sp(0), op: js::UnaryOp::Bang, arg: Box::new(num_expr(0.0)) };
    let test = Expression::Paren {
        span: sp(0),
        expr: Box::new(Expression::Sequence { span: sp(0), exprs: vec![num_expr(1.0), not_zero] }),
    };
    let mut stmts = vec![if_stmt(1, test, marker(2), Some(marker(3)))];
    p.remove_dead_branch(&mut stmts);
    assert!(p.changed());
    assert_eq!(stmts.len(), 2);
    assert!(is_expr_of_test(&stmts[0]));
    assert_eq!(tag(&stmts[1]), Some(2));
}

#[test]
fn if_with_binary_test_is_evaluated() {
    // `if ("" && a) b else c` keeps the test and `c`: a falsy left side decides.
    let mut p = optimizer(true, true);
    let empty = Expression::Str(Box::new(js::Str::from(swc_atoms::Atom::from(""))));
    let test = Expression::Bin {
        span: sp(0),
        op: js::BinaryOp::LogicalAnd,
        left: Box::new(empty),
        right: Box::new(ident_expr("a")),
    };
    let mut stmts = vec![if_stmt(1, test, marker(2), Some(marker(3)))];
    p.remove_dead_branch(&mut stmts);
    assert!(p.changed());
    assert_eq!(stmts.len(), 2);
    assert_eq!(tag(&stmts[1]), Some(3));
}

#[test]
fn dead_branches_stay_when_unused_is_off() {
    let mut p = optimizer(false, true);
    let mut stmts = vec![if_stmt(1, bool_expr(true), marker(2), None)];
    p.remove_dead_branch(&mut stmts);
    assert!(!p.changed());
    assert_eq!(tags(&stmts), vec![Some(1)]);
}

#[test]
fn prune_dead_branches_follows_given_verdicts() {
    let mut p = optimizer(true, true);
    let mut stmts = vec![
        if_stmt(1, ident_expr("a"), marker(2), Some(marker(3))),
        marker(4),
        if_stmt(5, ident_expr("b"), marker(6), Some(marker(7))),
    ];
    p.prune_dead_branches(&mut stmts, &vec![Some(true), None, None]);
    assert!(p.changed());
    assert_eq!(stmts.len(), 4);
    assert!(is_expr_of_test(&stmts[0]));
    assert_eq!(tags(&stmts[1..]), vec![Some(2), Some(4), Some(5)]);
}

// ---------------------------------------------------------------------------
// remove_unreachable_stmts
// ---------------------------------------------------------------------------

#[test]
fn statements_after_return_go_but_declarations_stay() {
    let mut p = optimizer(true, true);
    let mut stmts = vec![marker(1), ret(2), marker(3), var_decl(VarKind::Var), marker(4), fn_decl("g")];
    p.remove_unreachable_stmts(&mut stmts);
    assert!(p.changed());
    assert_eq!(stmts.len(), 4);
    assert_eq!(tags(&stmts[..2]), vec![Some(1), Some(2)]);
    assert!(matches!(stmts[2], Statement::Declaration(_)));
    assert!(matches!(stmts[3], Statement::Declaration(_)));
}

#[test]
fn only_declarations_after_return_is_no_change() {
    let mut p = optimizer(true, true);
    let mut stmts = vec![ret(2), var_decl(VarKind::Var)];
    p.remove_unreachable_stmts(&mut stmts);
    assert!(!p.changed());
    assert_eq!(stmts.len(), 2);
}

#[test]
fn consecutive_exits_are_all_kept_until_the_first_other_statement() {
    let mut p = optimizer(true, true);
    let mut stmts = vec![ret(1), throw(2), marker(3), ret(4)];
    p.remove_unreachable_stmts(&mut stmts);
    assert!(p.changed());
    assert_eq!(tags(&stmts), vec![Some(1), Some(2)]);
}

#[test]
fn if_with_both_branches_returning_ends_the_list() {
    let mut p = optimizer(true, true);
    let mut stmts = vec![if_stmt(1, ident_expr("a"), ret(2), Some(brk(3))), marker(4)];
    p.remove_unreachable_stmts(&mut stmts);
    assert!(p.changed());
    assert_eq!(tags(&stmts), vec![Some(1)]);
}

#[test]
fn nothing_is_unreachable_without_an_exit() {
    let mut p = optimizer(true, true);
    let mut stmts = vec![marker(1), if_stmt(2, ident_expr("a"), ret(3), None), marker(4)];
    p.remove_unreachable_stmts(&mut stmts);
    assert!(!p.changed());
    assert_eq!(tags(&stmts), vec![Some(1), Some(2), Some(4)]);
}

#[test]
fn unreachable_statements_stay_when_side_effects_is_off() {
    let mut p = optimizer(true, false);
    let mut stmts = vec![ret(1), marker(2)];
    p.remove_unreachable_stmts(&mut stmts);
    assert!(!p.changed());
    assert_eq!(tags(&stmts), vec![Some(1), Some(2)]);
}

#[test]
fn module_declarations_after_return_stay() {
    let mut p = optimizer(true, true);
    let mut items = vec![
        ModuleItem::Statement(ret(1)),
        ModuleItem::Statement(marker(2)),
        ModuleItem::ModuleDecl(Box::new(export_all())),
    ];
    p.remove_unreachable_stmts(&mut items);
    assert!(p.changed());
    assert_eq!(items.len(), 2);
    assert!(matches!(items[1], ModuleItem::ModuleDecl(_)));
}

// ---------------------------------------------------------------------------
// drop_unused_stmt_at_end_of_fn
// ---------------------------------------------------------------------------

#[test]
fn return_void_becomes_expression_statement() {
    let mut p = optimizer(true, true);
    let mut s = Statement::Return(ReturnStmt {
        span: sp(1),
        arg: Some(Expression::Void { span: sp(7), arg: Box::new(ident_expr("f")) }),
    });
    p.drop_unused_stmt_at_end_of_fn(&mut s);
    assert!(p.changed());
    match s {
        Statement::Expression(e) => {
            assert_eq!(e.span, sp(7));
            assert!(matches!(e.expr, Expression::Ident(ref i) if &*i.sym == "f"));
        },
        other => panic!("unexpected {:?}", other),
    }
}

#[test]
fn return_of_other_value_stays() {
    let mut p = optimizer(true, true);
    let mut s = Statement::Return(ReturnStmt { span: sp(1), arg: Some(ident_expr("v")) });
    p.drop_unused_stmt_at_end_of_fn(&mut s);
    assert!(!p.changed());
    assert!(matches!(s, Statement::Return(ref r) if r.arg.is_some()));
    let mut bare = ret(2);
    p.drop_unused_stmt_at_end_of_fn(&mut bare);
    assert!(!p.changed());
    assert_eq!(tag(&bare), Some(2));
}

// ---------------------------------------------------------------------------
// Laws on concrete lists
// ---------------------------------------------------------------------------

#[test]
fn removing_unreachable_statements_twice_changes_nothing_more() {
    let mut p = optimizer(true, true);
    let mut stmts = vec![marker(1), throw(2), marker(3), var_decl(VarKind::Var), marker(4)];
    p.remove_unreachable_stmts(&mut stmts);
    assert!(p.changed());
    let after_once = tags(&stmts);
    let mut q = optimizer(true, true);
    q.remove_unreachable_stmts(&mut stmts);
    assert!(!q.changed());
    assert_eq!(tags(&stmts), after_once);
    assert_eq!(stmts.len(), 3);
}

#[test]
fn each_pass_reports_a_change_exactly_when_the_list_changes() {
    // No pass applies: lengths and tags stay, and no change is reported.
    let mut p = optimizer(true, true);
    let mut stmts = vec![marker(1), block(2, vec![var_decl(VarKind::Let)]), marker(3)];
    p.remove_dead_branch(&mut stmts);
    p.remove_unreachable_stmts(&mut stmts);
    p.drop_useless_blocks(&mut stmts);
    assert!(!p.changed());
    assert_eq!(tags(&stmts), vec![Some(1), Some(2), Some(3)]);
    // A block holding only one plain statement is still replaced, and the
    // change is reported although the length stays.
    let mut q = optimizer(true, true);
    let mut single = vec![block(2, vec![marker(5)])];
    q.drop_useless_blocks(&mut single);
    assert!(q.changed());
    assert_eq!(tags(&single), vec![Some(5)]);
}

#[test]
fn if_with_truthy_or_test_is_evaluated() {
    // `if (a || "x") b else c` keeps the test and `b`: a truthy right side decides.
    let mut p = optimizer(true, true);
    let x = Expression::Str(Box::new(js::Str::from(swc_atoms::Atom::from("x"))));
    let test = Expression::Bin {
        span: sp(0),
        op: js::BinaryOp::LogicalOr,
        left: Box::new(ident_expr("a")),
        right: Box::new(x),
    };
    let mut stmts = vec![if_stmt(1, test, marker(2), Some(marker(3)))];
    p.remove_dead_branch(&mut stmts);
    assert!(p.changed());
    assert_eq!(stmts.len(), 2);
    assert!(is_expr_of_test(&stmts[0]));
    assert_eq!(tag(&stmts[1]), Some(2));
}

#[test]
fn if_with_void_of_any_operand_is_falsy() {
    // `void` is falsy whatever its operand, an empty sequence or JSX text included.
    let mut p = optimizer(true, true);
    let jsx_text = js::Expr::Lit(js::Lit::JSXText(js::JSXText {
        span: DUMMY_SP,
        value: "t".into(),
        raw: "t".into(),
    }));
    let void_text = Expression::Void { span: sp(0), arg: Box::new(Expression::Node(Box::new(jsx_text))) };
    let void_empty = Expression::Void {
        span: sp(0),
        arg: Box::new(Expression::Sequence { span: sp(0), exprs: vec![] }),
    };
    let mut stmts = vec![
        if_stmt(1, void_text, marker(2), Some(marker(3))),
        if_stmt(4, void_empty, marker(5), None),
    ];
    p.remove_dead_branch(&mut stmts);
    assert!(p.changed());
    assert_eq!(stmts.len(), 3);
    assert_eq!(tag(&stmts[1]), Some(3));
    assert!(is_expr_of_test(&stmts[2]));
}

#[test]
fn if_with_object_or_function_test_keeps_consequent() {
    // `if ({}) a else b` and `if (function () {}) c else d` keep the consequent.
    let mut p = optimizer(true, true);
    let object = Expression::Object(Box::new(js::ObjectLit { span: DUMMY_SP, props: vec![] }));
    let function = Expression::Fn(Box::new(js::FnExpr { ident: None, function: Box::new(js::Function::default()) }));
    let mut stmts = vec![
        if_stmt(1, object, marker(2), Some(marker(3))),
        if_stmt(4, function, marker(5), Some(marker(6))),
    ];
    p.remove_dead_branch(&mut stmts);
    assert!(p.changed());
    assert_eq!(stmts.len(), 4);
    assert_eq!(tag(&stmts[1]), Some(2));
    assert_eq!(tag(&stmts[3]), Some(5));
}

#[test]
fn if_with_call_then_zero_keeps_alternative() {
    // `if ((f(), 0)) a else b` keeps `(f(), 0);` and `b`.
    let mut p = optimizer(true, true);
    let call = Expression::Call(Box::new(js::CallExpr {
        callee: js::Callee::Expr(ident("f")),
        ..Default::default()
    }));
    let test = Expression::Paren {
        span: sp(0),
        expr: Box::new(Expression::Sequence { span: sp(0), exprs: vec![call, num_expr(0.0)] }),
    };
    let mut stmts = vec![if_stmt(1, test, marker(2), Some(marker(3)))];
    p.remove_dead_branch(&mut stmts);
    assert!(p.changed());
    assert_eq!(stmts.len(), 2);
    assert!(is_expr_of_test(&stmts[0]));
    assert_eq!(tag(&stmts[1]), Some(3));
}
