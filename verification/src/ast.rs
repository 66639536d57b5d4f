//! The statement tree the passes work on.
//!
//! Each statement holds, as plain values, what the passes decide on; the
//! parts that the passes only move around stay the parser's own nodes.
use vstd::prelude::*;

verus! {

/// A source range, as byte offsets.
#[derive(Clone, Copy, PartialEq, Eq, Structural, Debug)]
pub struct SourceSpan {
    pub lo: u32,
    pub hi: u32,
}

impl SourceSpan {
    /// The span of synthesized code.
    pub open spec fn spec_dummy() -> SourceSpan {
        SourceSpan { lo: 0, hi: 0 }
    }

    /// The span of synthesized code.
    pub fn dummy() -> (r: SourceSpan)
        ensures
            r == SourceSpan::spec_dummy(),
    {
        SourceSpan { lo: 0, hi: 0 }
    }
}

/// An expression. The shapes whose truth value can be computed before
/// running are held part by part: unary, binary, parenthesized and sequence
/// expressions over such shapes, `this`, identifiers, literals other than
/// arrays and JSX text, and the object, function, class, `new`, call,
/// member and template expressions, whose own parts the evaluation only
/// looks at for side effects. `void` is kept apart because the passes
/// rewrite it. Any other expression is the parser's node, carried unopened.
#[derive(Debug)]
pub enum Expression {
    /// `void arg`
    Void { span: SourceSpan, arg: Box<Expression> },
    /// A unary operator other than `void` applied to `arg`.
    Unary { span: SourceSpan, op: swc_ecma_ast::UnaryOp, arg: Box<Expression> },
    /// `left op right`
    Bin {
        span: SourceSpan,
        op: swc_ecma_ast::BinaryOp,
        left: Box<Expression>,
        right: Box<Expression>,
    },
    /// `(expr)`
    Paren { span: SourceSpan, expr: Box<Expression> },
    /// `a, b, c`
    Sequence { span: SourceSpan, exprs: Vec<Expression> },
    This(SourceSpan),
    Ident(Box<swc_ecma_ast::Ident>),
    Bool { span: SourceSpan, value: bool },
    Null(SourceSpan),
    Str(Box<swc_ecma_ast::Str>),
    Num(Box<swc_ecma_ast::Number>),
    BigInt(Box<swc_ecma_ast::BigInt>),
    Regex(Box<swc_ecma_ast::Regex>),
    /// `{ ... }`
    Object(Box<swc_ecma_ast::ObjectLit>),
    /// `function () {}`
    Fn(Box<swc_ecma_ast::FnExpr>),
    /// `() => {}`
    Arrow(Box<swc_ecma_ast::ArrowExpr>),
    /// `class {}`
    Class(Box<swc_ecma_ast::ClassExpr>),
    /// `new callee(args)`
    New(Box<swc_ecma_ast::NewExpr>),
    /// `callee(args)`
    Call(Box<swc_ecma_ast::CallExpr>),
    /// `obj.prop` or `obj[prop]`
    Member(Box<swc_ecma_ast::MemberExpr>),
    /// `` `text ${expr}` ``
    Tpl(Box<swc_ecma_ast::Tpl>),
    /// Any other expression: its truth value is never computed.
    Node(Box<swc_ecma_ast::Expr>),
}

/// The keyword of a variable declaration.
#[derive(Clone, Copy, PartialEq, Eq, Structural, Debug)]
pub enum VarKind {
    Var,
    Let,
    Const,
}

/// What the passes read of a declaration.
#[derive(Debug)]
pub enum DeclKind {
    /// `function name() {}`
    Fn { name: String },
    /// `var`, `let` or `const`
    Var { kind: VarKind },
    /// A class, `using`, or a TypeScript declaration.
    Other,
}

/// A declaration statement: `kind` is what was read of `node` when the
/// statement was built, and the passes decide on `kind` alone.
#[derive(Debug)]
pub struct Declaration {
    pub kind: DeclKind,
    pub node: Box<swc_ecma_ast::Decl>,
}

/// Statements that leave the enclosing statement list (`return` aside).
#[derive(Clone, Copy, PartialEq, Eq, Structural, Debug)]
pub enum ExitKind {
    Throw,
    Break,
    Continue,
}

/// `{ stmts }`
#[derive(Debug)]
pub struct BlockStmt {
    pub span: SourceSpan,
    pub ctxt: u32,
    pub stmts: Vec<Statement>,
}

/// `if (test) cons else alt`
#[derive(Debug)]
pub struct IfStmt {
    pub span: SourceSpan,
    pub test: Expression,
    pub cons: Box<Statement>,
    pub alt: Option<Box<Statement>>,
}

/// `return arg;`
#[derive(Debug)]
pub struct ReturnStmt {
    pub span: SourceSpan,
    pub arg: Option<Expression>,
}

/// `expr;`
#[derive(Debug)]
pub struct ExprStmt {
    pub span: SourceSpan,
    pub expr: Expression,
}

/// A statement.
#[derive(Debug)]
pub enum Statement {
    Block(BlockStmt),
    Empty(SourceSpan),
    Debugger(SourceSpan),
    Expression(ExprStmt),
    If(IfStmt),
    Return(ReturnStmt),
    /// `throw`, `break` or `continue`, with the parser's node.
    Exit(ExitKind, Box<swc_ecma_ast::Stmt>),
    Declaration(Declaration),
    /// A loop, `switch`, `try`, `with` or labeled statement.
    Other(Box<swc_ecma_ast::Stmt>),
}

/// An item of a module body.
#[derive(Debug)]
pub enum ModuleItem {
    ModuleDecl(Box<swc_ecma_ast::ModuleDecl>),
    Statement(Statement),
}

/// Items of a statement list: plain statements, or module items that may be
/// statements.
pub trait StmtLike: Sized {
    /// The statement this item is, if it is one.
    spec fn spec_as_stmt(&self) -> Option<Statement>;

    /// The item that is the statement `s`.
    spec fn spec_from_stmt(s: Statement) -> Self;

    proof fn lemma_from_stmt_as_stmt(s: Statement)
        ensures
            Self::spec_from_stmt(s).spec_as_stmt() == Some(s),
    ;

    proof fn lemma_as_stmt_from_stmt(item: Self)
        ensures
            item.spec_as_stmt() matches Some(s) ==> Self::spec_from_stmt(s) == item,
    ;

    fn as_stmt(&self) -> (r: Option<&Statement>)
        ensures
            match r {
                Some(s) => self.spec_as_stmt() == Some(*s),
                None => self.spec_as_stmt() is None,
            },
    ;

    fn try_into_stmt(self) -> (r: Result<Statement, Self>)
        ensures
            match r {
                Ok(s) => self.spec_as_stmt() == Some(s),
                Err(item) => item == self && self.spec_as_stmt() is None,
            },
    ;

    fn from_stmt(s: Statement) -> (r: Self)
        ensures
            r == Self::spec_from_stmt(s),
    ;
}

impl StmtLike for Statement {
    open spec fn spec_as_stmt(&self) -> Option<Statement> {
        Some(*self)
    }

    open spec fn spec_from_stmt(s: Statement) -> Self {
        s
    }

    proof fn lemma_from_stmt_as_stmt(s: Statement) {
    }

    proof fn lemma_as_stmt_from_stmt(item: Self) {
    }

    fn as_stmt(&self) -> (r: Option<&Statement>) {
        Some(self)
    }

    fn try_into_stmt(self) -> (r: Result<Statement, Self>) {
        Ok(self)
    }

    fn from_stmt(s: Statement) -> (r: Self) {
        s
    }
}

impl StmtLike for ModuleItem {
    open spec fn spec_as_stmt(&self) -> Option<Statement> {
        match self {
            ModuleItem::Statement(s) => Some(*s),
            ModuleItem::ModuleDecl(_) => None,
        }
    }

    open spec fn spec_from_stmt(s: Statement) -> Self {
        ModuleItem::Statement(s)
    }

    proof fn lemma_from_stmt_as_stmt(s: Statement) {
    }

    proof fn lemma_as_stmt_from_stmt(item: Self) {
    }

    fn as_stmt(&self) -> (r: Option<&Statement>) {
        match self {
            ModuleItem::Statement(s) => Some(s),
            ModuleItem::ModuleDecl(_) => None,
        }
    }

    fn try_into_stmt(self) -> (r: Result<Statement, Self>) {
        match self {
            ModuleItem::Statement(s) => Ok(s),
            ModuleItem::ModuleDecl(d) => Err(ModuleItem::ModuleDecl(d)),
        }
    }

    fn from_stmt(s: Statement) -> (r: Self) {
        ModuleItem::Statement(s)
    }
}

} // verus!
