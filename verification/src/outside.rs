use vstd::prelude::*;

verus! {

/// The parser's expression node, carried through the passes without being inspected.
#[verifier::external_type_specification]
#[verifier::external_body]
pub struct ExNodeExpr(swc_ecma_ast::Expr);

/// The parser's statement node, carried through the passes without being inspected.
#[verifier::external_type_specification]
#[verifier::external_body]
pub struct ExNodeStmt(swc_ecma_ast::Stmt);

/// The parser's declaration node, carried through the passes without being inspected.
#[verifier::external_type_specification]
#[verifier::external_body]
pub struct ExNodeDecl(swc_ecma_ast::Decl);

/// The parser's module declaration node (`import`, `export`, ...).
#[verifier::external_type_specification]
#[verifier::external_body]
pub struct ExNodeModuleDecl(swc_ecma_ast::ModuleDecl);

/// The parser's identifier node: its name and syntax context.
#[verifier::external_type_specification]
#[verifier::external_body]
pub struct ExNodeIdent(swc_ecma_ast::Ident);

/// The parser's string literal node.
#[verifier::external_type_specification]
#[verifier::external_body]
pub struct ExNodeStr(swc_ecma_ast::Str);

/// The parser's number literal node.
#[verifier::external_type_specification]
#[verifier::external_body]
pub struct ExNodeNumber(swc_ecma_ast::Number);

/// The parser's big integer literal node.
#[verifier::external_type_specification]
#[verifier::external_body]
pub struct ExNodeBigInt(swc_ecma_ast::BigInt);

/// The parser's regular expression literal node.
#[verifier::external_type_specification]
#[verifier::external_body]
pub struct ExNodeRegex(swc_ecma_ast::Regex);

/// The parser's object literal node.
#[verifier::external_type_specification]
#[verifier::external_body]
pub struct ExNodeObjectLit(swc_ecma_ast::ObjectLit);

/// The parser's function expression node.
#[verifier::external_type_specification]
#[verifier::external_body]
pub struct ExNodeFnExpr(swc_ecma_ast::FnExpr);

/// The parser's arrow function node.
#[verifier::external_type_specification]
#[verifier::external_body]
pub struct ExNodeArrowExpr(swc_ecma_ast::ArrowExpr);

/// The parser's class expression node.
#[verifier::external_type_specification]
#[verifier::external_body]
pub struct ExNodeClassExpr(swc_ecma_ast::ClassExpr);

/// The parser's `new` expression node.
#[verifier::external_type_specification]
#[verifier::external_body]
pub struct ExNodeNewExpr(swc_ecma_ast::NewExpr);

/// The parser's call expression node.
#[verifier::external_type_specification]
#[verifier::external_body]
pub struct ExNodeCallExpr(swc_ecma_ast::CallExpr);

/// The parser's member access expression node.
#[verifier::external_type_specification]
#[verifier::external_body]
pub struct ExNodeMemberExpr(swc_ecma_ast::MemberExpr);

/// The parser's template literal node.
#[verifier::external_type_specification]
#[verifier::external_body]
pub struct ExNodeTpl(swc_ecma_ast::Tpl);

/// A unary operator of the parser.
#[verifier::external_type_specification]
#[verifier::external_body]
pub struct ExUnaryOp(swc_ecma_ast::UnaryOp);

/// A binary operator of the parser.
#[verifier::external_type_specification]
#[verifier::external_body]
pub struct ExBinaryOp(swc_ecma_ast::BinaryOp);

/// The parser's source range.
#[verifier::external_type_specification]
#[verifier::external_body]
pub struct ExNodeSpan(swc_common::Span);

} // verus!
