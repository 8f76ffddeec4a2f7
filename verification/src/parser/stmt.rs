//! Statements. The grammar has no rule for them yet; the type and its
//! visitor mark the place where they will stand.
use vstd::prelude::*;
use crate::parser::expr::Expr;

verus! {

/// A statement. The one kind there is holds an expression that stands alone.
#[derive(Debug)]
pub enum Stmt {
    Expression(Expr),
}

/// A consumer of statements. It may change as it visits.
pub trait StmtVisitor<T> {
    /// What has to hold of the visitor before it is used. Nothing, unless a
    /// visitor says otherwise.
    open spec fn ready(&self) -> bool {
        true
    }

    /// Whether `out` is what the visitor, as it stands, makes of `stmt`.
    /// A visitor that says nothing of its results admits any.
    open spec fn yields(&self, stmt: Stmt, out: T) -> bool {
        true
    }

    fn visit_stmt(&mut self, stmt: &Stmt) -> (out: T)
        requires
            old(self).ready(),
        ensures
            old(self).yields(*stmt, out),
    ;
}

impl Stmt {
    /// Hands the statement to the visitor and returns what the visitor
    /// makes of it.
    pub fn accept<T, V: StmtVisitor<T>>(&self, visitor: &mut V) -> (out: T)
        requires
            old(visitor).ready(),
        ensures
            old(visitor).yields(*self, out),
    {
        visitor.visit_stmt(self)
    }
}

} // verus!
