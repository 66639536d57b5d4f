//! The optimizer's options and the traversal context it carries down the tree.
use vstd::prelude::*;

verus! {

/// Nesting depth of parallel traversal; past twice this depth children are
/// visited one after another.
pub const MAX_PAR_DEPTH: u8 = 3;

/// The compress options that the statement passes read.
#[derive(Clone, Copy, PartialEq, Eq, Structural, Debug)]
pub struct Options {
    /// Remove `if` branches whose test has a known truth value.
    pub unused: bool,
    /// Remove statements that can never run.
    pub side_effects: bool,
    /// Remove `debugger` statements.
    pub drop_debugger: bool,
}

/// How expressions are evaluated: which identifiers are unresolved globals,
/// whether reading one is safe, strict mode, and how deep evaluation may go.
#[derive(Clone, Copy, PartialEq, Eq, Structural, Debug)]
pub struct ExprSettings {
    /// The syntax context of unresolved references.
    pub unresolved_ctxt: u32,
    pub is_unresolved_ref_safe: bool,
    pub in_strict: bool,
    pub remaining_depth: u8,
}

/// Where in the tree the traversal stands.
#[derive(Clone, Copy, PartialEq, Eq, Structural, Debug)]
pub struct Ctx {
    /// Inside the left-hand side of an assignment.
    pub is_lhs_of_assign: bool,
    /// Inside the callee of a call or `new`.
    pub is_callee: bool,
    /// Inside the first expression of a statement.
    pub in_first_expr: bool,
    /// Inside the block of a `try` statement.
    pub in_try_block: bool,
    /// Inside the argument of `++` or `--`.
    pub is_update_arg: bool,
    /// Inside the argument of `delete`.
    pub in_delete: bool,
    /// How many parallel traversals enclose this one.
    pub par_depth: u8,
}

impl Ctx {
    pub open spec fn spec_initial() -> Ctx {
        Ctx {
            is_lhs_of_assign: false,
            is_callee: false,
            in_first_expr: false,
            in_try_block: false,
            is_update_arg: false,
            in_delete: false,
            par_depth: 0,
        }
    }

    /// The context at the root of a traversal.
    pub fn initial() -> (r: Ctx)
        ensures
            r == Ctx::spec_initial(),
    {
        Ctx {
            is_lhs_of_assign: false,
            is_callee: false,
            in_first_expr: false,
            in_try_block: false,
            is_update_arg: false,
            in_delete: false,
            par_depth: 0,
        }
    }

    /// The context for the target of an assignment.
    pub fn for_assign_lhs(self) -> (r: Ctx)
        ensures
            r == (Ctx { is_lhs_of_assign: true, ..self }),
    {
        Ctx { is_lhs_of_assign: true, ..self }
    }

    /// The context for the callee of a call or `new` expression.
    pub fn for_callee(self) -> (r: Ctx)
        ensures
            r == (Ctx { is_callee: true, ..self }),
    {
        Ctx { is_callee: true, ..self }
    }

    /// The context for the parts of an expression.
    pub fn for_expr_children(self) -> (r: Ctx)
        ensures
            r == (Ctx { in_first_expr: false, ..self }),
    {
        Ctx { in_first_expr: false, ..self }
    }

    /// The context for the parts of a function: a function body is never
    /// inside an enclosing `try` block.
    pub fn for_function(self) -> (r: Ctx)
        ensures
            r == (Ctx { in_try_block: false, ..self }),
    {
        Ctx { in_try_block: false, ..self }
    }

    /// The context for the parts of a statement.
    pub fn for_stmt_children(self) -> (r: Ctx)
        ensures
            r == (Ctx {
                is_update_arg: false,
                is_callee: false,
                in_delete: false,
                in_first_expr: true,
                ..self
            }),
    {
        Ctx { is_update_arg: false, is_callee: false, in_delete: false, in_first_expr: true, ..self }
    }

    /// The context for the block of a `try` statement.
    pub fn for_try_block(self) -> (r: Ctx)
        ensures
            r == (Ctx { in_try_block: true, ..self }),
    {
        Ctx { in_try_block: true, ..self }
    }

    /// The context for the argument of a unary operator; `is_delete` tells
    /// whether the operator is `delete`.
    pub fn for_unary_arg(self, is_delete: bool) -> (r: Ctx)
        ensures
            r == (Ctx { in_delete: is_delete, ..self }),
    {
        Ctx { in_delete: is_delete, ..self }
    }

    /// The context for the argument of `++` or `--`.
    pub fn for_update_arg(self) -> (r: Ctx)
        ensures
            r == (Ctx { is_update_arg: true, ..self }),
    {
        Ctx { is_update_arg: true, ..self }
    }

    /// Whether the children of a node are visited one after another rather
    /// than in parallel.
    pub open spec fn spec_visits_sequentially(self) -> bool {
        self.par_depth >= 2 * MAX_PAR_DEPTH
    }

    /// Whether the children of a node are visited one after another rather
    /// than in parallel.
    pub fn visits_sequentially(self) -> (r: bool)
        ensures
            r == self.spec_visits_sequentially(),
    {
        self.par_depth >= 2 * MAX_PAR_DEPTH
    }

    /// The context of a child visited in parallel: one level deeper.
    pub fn for_parallel_child(self) -> (r: Ctx)
        requires
            !self.spec_visits_sequentially(),
        ensures
            r == (Ctx { par_depth: (self.par_depth + 1) as u8, ..self }),
    {
        Ctx { par_depth: self.par_depth + 1, ..self }
    }
}

} // verus!
