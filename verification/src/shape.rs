//! The static shape of a circuit: its columns and its gates.
//!
//! A `ConstraintSystem` is built once, during configuration, and is then
//! shared read-only by every synthesis and verification run.

use vstd::prelude::*;
use crate::field::Fp;
use crate::error::Error;

verus! {

/// The three kinds of column a circuit grid can have.
#[derive(Clone, Copy, Debug, PartialEq, Eq, Structural, Hash)]
pub enum ColumnKind {
    /// Private witness values.
    Advice,
    /// Public values supplied alongside the witness.
    Instance,
    /// Boolean flags gating where a constraint is enforced.
    Selector,
}

/// A typed handle for a column; identity is `(kind, index)`.
#[derive(Clone, Copy, Debug, PartialEq, Eq, Structural, Hash)]
pub struct Column {
    pub kind: ColumnKind,
    pub index: usize,
}

/// The identity of one grid cell: a column and an absolute row.
#[derive(Clone, Copy, Debug, PartialEq, Eq, Structural, Hash)]
pub struct CellId {
    pub column: Column,
    pub row: usize,
}

/// A polynomial over column queries, built from constants, queries
/// `(column, rotation)` and the arithmetic operators.
#[derive(Debug, PartialEq)]
pub enum Expr {
    /// A constant field element.
    Constant(Fp),
    /// The value of `column` at the row `rotation` away from the row the
    /// expression is evaluated at.
    Query { column: Column, rotation: i64 },
    /// The sum of the two operands.
    Sum(Box<Expr>, Box<Expr>),
    /// The first operand minus the second.
    Diff(Box<Expr>, Box<Expr>),
    /// The product of the two operands.
    Prod(Box<Expr>, Box<Expr>),
}

/// Every query of the expression names a declared advice or instance column.
/// Selector columns are read only through a gate's own selector, never
/// through a query.
pub open spec fn expr_wf(e: Expr, n_advice: nat, n_instance: nat) -> bool
    decreases e,
{
    match e {
        Expr::Constant(_) => true,
        Expr::Query { column, rotation } => match column.kind {
            ColumnKind::Advice => column.index < n_advice,
            ColumnKind::Instance => column.index < n_instance,
            ColumnKind::Selector => false,
        },
        Expr::Sum(a, b) => expr_wf(*a, n_advice, n_instance) && expr_wf(*b, n_advice, n_instance),
        Expr::Diff(a, b) => expr_wf(*a, n_advice, n_instance) && expr_wf(*b, n_advice, n_instance),
        Expr::Prod(a, b) => expr_wf(*a, n_advice, n_instance) && expr_wf(*b, n_advice, n_instance),
    }
}

/// An expression stays well formed when further columns are declared.
pub proof fn lemma_expr_wf_mono(e: Expr, n1: nat, m1: nat, n2: nat, m2: nat)
    requires
        expr_wf(e, n1, m1),
        n1 <= n2,
        m1 <= m2,
    ensures
        expr_wf(e, n2, m2),
    decreases e,
{
    match e {
        Expr::Constant(_) => {},
        Expr::Query { .. } => {},
        Expr::Sum(a, b) => {
            lemma_expr_wf_mono(*a, n1, m1, n2, m2);
            lemma_expr_wf_mono(*b, n1, m1, n2, m2);
        },
        Expr::Diff(a, b) => {
            lemma_expr_wf_mono(*a, n1, m1, n2, m2);
            lemma_expr_wf_mono(*b, n1, m1, n2, m2);
        },
        Expr::Prod(a, b) => {
            lemma_expr_wf_mono(*a, n1, m1, n2, m2);
            lemma_expr_wf_mono(*b, n1, m1, n2, m2);
        },
    }
}

/// Decides `expr_wf` for a concrete expression.
pub fn check_expr(e: &Expr, n_advice: usize, n_instance: usize) -> (r: bool)
    ensures
        r == expr_wf(*e, n_advice as nat, n_instance as nat),
    decreases *e,
{
    match e {
        Expr::Constant(_) => true,
        Expr::Query { column, rotation: _ } => match column.kind {
            ColumnKind::Advice => column.index < n_advice,
            ColumnKind::Instance => column.index < n_instance,
            ColumnKind::Selector => false,
        },
        Expr::Sum(a, b) => check_expr(a, n_advice, n_instance) && check_expr(b, n_advice, n_instance),
        Expr::Diff(a, b) => check_expr(a, n_advice, n_instance) && check_expr(b, n_advice, n_instance),
        Expr::Prod(a, b) => check_expr(a, n_advice, n_instance) && check_expr(b, n_advice, n_instance),
    }
}

impl Expr {
    /// A constant expression.
    pub fn constant(v: Fp) -> (r: Expr)
        ensures
            r == Expr::Constant(v),
    {
        Expr::Constant(v)
    }

    /// A query of `column` at the given rotation.
    pub fn query(column: Column, rotation: i64) -> (r: Expr)
        ensures
            r == (Expr::Query { column, rotation }),
    {
        Expr::Query { column, rotation }
    }

    /// The sum of `self` and `o`.
    pub fn add(self, o: Expr) -> (r: Expr)
        ensures
            r matches Expr::Sum(a, b) && *a == self && *b == o,
    {
        Expr::Sum(Box::new(self), Box::new(o))
    }

    /// `self` minus `o`.
    pub fn sub(self, o: Expr) -> (r: Expr)
        ensures
            r matches Expr::Diff(a, b) && *a == self && *b == o,
    {
        Expr::Diff(Box::new(self), Box::new(o))
    }

    /// The product of `self` and `o`.
    pub fn mul(self, o: Expr) -> (r: Expr)
        ensures
            r matches Expr::Prod(a, b) && *a == self && *b == o,
    {
        Expr::Prod(Box::new(self), Box::new(o))
    }
}

/// A named polynomial constraint, enforced at every row where its selector
/// column is active.
#[derive(Debug, PartialEq)]
pub struct Gate {
    /// A diagnostic label; names need not be unique.
    pub name: String,
    /// The selector column gating the constraint.
    pub selector: Column,
    /// The polynomial that must vanish wherever the selector is active.
    pub expr: Expr,
}

/// The static shape of a circuit: how many columns of each kind exist, which
/// advice and instance columns may take part in copy constraints, and the
/// registered gates.
#[derive(Debug, PartialEq)]
pub struct ConstraintSystem {
    /// Number of advice columns declared so far.
    pub n_advice: usize,
    /// Number of instance columns declared so far.
    pub n_instance: usize,
    /// Number of selector columns declared so far.
    pub n_selector: usize,
    /// Equality flag of each advice column, by index.
    pub eq_advice: Vec<bool>,
    /// Equality flag of each instance column, by index.
    pub eq_instance: Vec<bool>,
    /// The registered gates, in registration order.
    pub gates: Vec<Gate>,
}

impl ConstraintSystem {
    /// The shape's bookkeeping is consistent: one equality flag per column
    /// and every gate speaks only of declared columns.
    pub open spec fn wf(self) -> bool {
        &&& self.eq_advice@.len() == self.n_advice
        &&& self.eq_instance@.len() == self.n_instance
        &&& forall|g: int| 0 <= g < self.gates@.len() ==> {
            &&& (#[trigger] self.gates@[g]).selector.kind == ColumnKind::Selector
            &&& self.gates@[g].selector.index < self.n_selector
            &&& expr_wf(self.gates@[g].expr, self.n_advice as nat, self.n_instance as nat)
        }
    }

    /// The given column is a declared advice column.
    pub open spec fn is_advice(self, c: Column) -> bool {
        c.kind == ColumnKind::Advice && c.index < self.n_advice
    }

    /// The given column is a declared instance column.
    pub open spec fn is_instance(self, c: Column) -> bool {
        c.kind == ColumnKind::Instance && c.index < self.n_instance
    }

    /// The given column may take part in copy constraints.
    pub open spec fn equality_enabled(self, c: Column) -> bool {
        ||| self.is_advice(c) && self.eq_advice@[c.index as int]
        ||| self.is_instance(c) && self.eq_instance@[c.index as int]
    }

    /// An empty shape with no columns and no gates.
    pub fn new() -> (cs: ConstraintSystem)
        ensures
            cs.wf(),
            cs.n_advice == 0,
            cs.n_instance == 0,
            cs.n_selector == 0,
            cs.gates@ == Seq::<Gate>::empty(),
    {
        ConstraintSystem {
            n_advice: 0,
            n_instance: 0,
            n_selector: 0,
            eq_advice: Vec::new(),
            eq_instance: Vec::new(),
            gates: Vec::new(),
        }
    }

    /// Allocates a fresh advice column with the next free index.
    pub fn advice_column(&mut self) -> (c: Column)
        requires
            old(self).wf(),
            old(self).n_advice < usize::MAX,
        ensures
            final(self).wf(),
            c == (Column { kind: ColumnKind::Advice, index: old(self).n_advice }),
            final(self).n_advice == old(self).n_advice + 1,
            final(self).eq_advice@ == old(self).eq_advice@.push(false),
            final(self).n_instance == old(self).n_instance,
            final(self).n_selector == old(self).n_selector,
            final(self).eq_instance == old(self).eq_instance,
            final(self).gates == old(self).gates,
    {
        let c = Column { kind: ColumnKind::Advice, index: self.n_advice };
        self.n_advice = self.n_advice + 1;
        self.eq_advice.push(false);
        proof {
            assert forall|g: int| 0 <= g < self.gates@.len() implies expr_wf(
                (#[trigger] self.gates@[g]).expr,
                self.n_advice as nat,
                self.n_instance as nat,
            ) by {
                lemma_expr_wf_mono(
                    self.gates@[g].expr,
                    old(self).n_advice as nat,
                    old(self).n_instance as nat,
                    self.n_advice as nat,
                    self.n_instance as nat,
                );
            }
        }
        c
    }

    /// Allocates a fresh instance column with the next free index.
    pub fn instance_column(&mut self) -> (c: Column)
        requires
            old(self).wf(),
            old(self).n_instance < usize::MAX,
        ensures
            final(self).wf(),
            c == (Column { kind: ColumnKind::Instance, index: old(self).n_instance }),
            final(self).n_instance == old(self).n_instance + 1,
            final(self).eq_instance@ == old(self).eq_instance@.push(false),
            final(self).n_advice == old(self).n_advice,
            final(self).n_selector == old(self).n_selector,
            final(self).eq_advice == old(self).eq_advice,
            final(self).gates == old(self).gates,
    {
        let c = Column { kind: ColumnKind::Instance, index: self.n_instance };
        self.n_instance = self.n_instance + 1;
        self.eq_instance.push(false);
        proof {
            assert forall|g: int| 0 <= g < self.gates@.len() implies expr_wf(
                (#[trigger] self.gates@[g]).expr,
                self.n_advice as nat,
                self.n_instance as nat,
            ) by {
                lemma_expr_wf_mono(
                    self.gates@[g].expr,
                    old(self).n_advice as nat,
                    old(self).n_instance as nat,
                    self.n_advice as nat,
                    self.n_instance as nat,
                );
            }
        }
        c
    }

    /// Allocates a fresh selector column with the next free index.
    pub fn selector(&mut self) -> (c: Column)
        requires
            old(self).wf(),
            old(self).n_selector < usize::MAX,
        ensures
            final(self).wf(),
            c == (Column { kind: ColumnKind::Selector, index: old(self).n_selector }),
            final(self).n_selector == old(self).n_selector + 1,
            final(self).n_advice == old(self).n_advice,
            final(self).n_instance == old(self).n_instance,
            final(self).eq_advice == old(self).eq_advice,
            final(self).eq_instance == old(self).eq_instance,
            final(self).gates == old(self).gates,
    {
        let c = Column { kind: ColumnKind::Selector, index: self.n_selector };
        self.n_selector = self.n_selector + 1;
        c
    }

    /// Marks an advice or instance column as eligible for copy constraints.
    /// Fails on a selector column and on a column that was never declared.
    pub fn enable_equality(&mut self, c: Column) -> (r: Result<(), Error>)
        requires
            old(self).wf(),
        ensures
            final(self).wf(),
            r is Ok <==> (old(self).is_advice(c) || old(self).is_instance(c)),
            r is Ok ==> {
                &&& final(self).equality_enabled(c)
                &&& forall|d: Column| d != c ==> final(self).equality_enabled(d) == old(self).equality_enabled(d)
                &&& final(self).n_advice == old(self).n_advice
                &&& final(self).n_instance == old(self).n_instance
                &&& final(self).n_selector == old(self).n_selector
                &&& final(self).gates == old(self).gates
            },
            r matches Err(e) ==> *final(self) == *old(self) && e == (Error::InvalidColumn { column: c }),
    {
        match c.kind {
            ColumnKind::Advice => {
                if c.index < self.n_advice {
                    self.eq_advice[c.index] = true;
                    Ok(())
                } else {
                    Err(Error::InvalidColumn { column: c })
                }
            },
            ColumnKind::Instance => {
                if c.index < self.n_instance {
                    self.eq_instance[c.index] = true;
                    Ok(())
                } else {
                    Err(Error::InvalidColumn { column: c })
                }
            },
            ColumnKind::Selector => Err(Error::InvalidColumn { column: c }),
        }
    }

    /// Registers a gate.  The selector must be a declared selector column and
    /// the expression may query only declared advice and instance columns.
    pub fn create_gate(&mut self, name: String, selector: Column, expr: Expr) -> (r: Result<
        (),
        Error,
    >)
        requires
            old(self).wf(),
        ensures
            final(self).wf(),
            r is Ok <==> {
                &&& selector.kind == ColumnKind::Selector
                &&& selector.index < old(self).n_selector
                &&& expr_wf(expr, old(self).n_advice as nat, old(self).n_instance as nat)
            },
            r is Ok ==> {
                &&& final(self).gates@ == old(self).gates@.push(Gate { name: name, selector: selector, expr: expr })
                &&& final(self).n_advice == old(self).n_advice
                &&& final(self).n_instance == old(self).n_instance
                &&& final(self).n_selector == old(self).n_selector
                &&& final(self).eq_advice == old(self).eq_advice
                &&& final(self).eq_instance == old(self).eq_instance
            },
            r matches Err(e) ==> *final(self) == *old(self) && e matches Error::InvalidColumn { .. },
    {
        if !(matches!(selector.kind, ColumnKind::Selector) && selector.index < self.n_selector) {
            return Err(Error::InvalidColumn { column: selector });
        }
        if !check_expr(&expr, self.n_advice, self.n_instance) {
            return Err(Error::InvalidColumn { column: selector });
        }
        self.gates.push(Gate { name, selector, expr });
        Ok(())
    }
}

} // verus!
