//! The region-scoped assignment layer that populates a witness grid.
//!
//! A `Layouter` owns the grid of one synthesis run.  A circuit author opens
//! a region, assigns cells and enables selectors at region-relative rows,
//! and closes the region; each region occupies the next unused rows of the
//! grid.  Copy constraints are recorded as they are created, in order.

use vstd::prelude::*;
use crate::field::Fp;
use crate::shape::{CellId, Column, ColumnKind, ConstraintSystem};
use crate::error::Error;

verus! {

/// A cell value: concrete, or unknown during shape-only synthesis.
#[derive(Clone, Copy, Debug, PartialEq, Eq, Structural)]
pub enum Value {
    /// No concrete witness is available.
    Unknown,
    /// A concrete field element.
    Known(Fp),
}

/// Addition lifted over unknown values.
pub open spec fn spec_value_add(a: Value, b: Value) -> Value {
    match (a, b) {
        (Value::Known(x), Value::Known(y)) => Value::Known(crate::field::spec_add(x, y)),
        _ => Value::Unknown,
    }
}

/// Subtraction lifted over unknown values.
pub open spec fn spec_value_sub(a: Value, b: Value) -> Value {
    match (a, b) {
        (Value::Known(x), Value::Known(y)) => Value::Known(crate::field::spec_sub(x, y)),
        _ => Value::Unknown,
    }
}

/// Multiplication lifted over unknown values.
pub open spec fn spec_value_mul(a: Value, b: Value) -> Value {
    match (a, b) {
        (Value::Known(x), Value::Known(y)) => Value::Known(crate::field::spec_mul(x, y)),
        _ => Value::Unknown,
    }
}

impl Value {
    /// Lifted addition: unknown if either operand is unknown.
    pub fn add(self, o: Value) -> (r: Value)
        ensures
            r == spec_value_add(self, o),
    {
        match (self, o) {
            (Value::Known(x), Value::Known(y)) => Value::Known(x.add(y)),
            _ => Value::Unknown,
        }
    }

    /// Lifted subtraction: unknown if either operand is unknown.
    pub fn sub(self, o: Value) -> (r: Value)
        ensures
            r == spec_value_sub(self, o),
    {
        match (self, o) {
            (Value::Known(x), Value::Known(y)) => Value::Known(x.sub(y)),
            _ => Value::Unknown,
        }
    }

    /// Lifted multiplication: unknown if either operand is unknown.
    pub fn mul(self, o: Value) -> (r: Value)
        ensures
            r == spec_value_mul(self, o),
    {
        match (self, o) {
            (Value::Known(x), Value::Known(y)) => Value::Known(x.mul(y)),
            _ => Value::Unknown,
        }
    }
}

/// A cell that has been assigned during synthesis: its identity and the
/// value it received.
#[derive(Clone, Copy, Debug, PartialEq, Eq, Structural)]
pub struct AssignedCell {
    pub column: Column,
    /// The absolute grid row.
    pub row: usize,
    pub value: Value,
}

impl AssignedCell {
    /// The identity of the assigned cell.
    pub fn cell(&self) -> (r: CellId)
        ensures
            r == (CellId { column: self.column, row: self.row }),
    {
        CellId { column: self.column, row: self.row }
    }

    /// The value the cell received.
    pub fn value(&self) -> (r: Value)
        ensures
            r == self.value,
    {
        self.value
    }
}

/// An equality assertion between two cells, possibly in different regions
/// or columns.  The pair is unordered: the verifier treats `{left, right}`
/// and `{right, left}` alike.
#[derive(Clone, Copy, Debug, PartialEq, Eq, Structural)]
pub struct CopyConstraint {
    pub left: CellId,
    pub right: CellId,
}

/// One region of a finished synthesis run: its diagnostic name and the
/// absolute rows it occupies.
#[derive(Debug, PartialEq)]
pub struct RegionInfo {
    pub name: String,
    /// First absolute row of the region.
    pub start: usize,
    /// Number of rows the region occupies.
    pub rows: usize,
}

/// The witness grid of one synthesis run, immutable once produced: the
/// assigned advice cells, the selector activations, the copy constraints in
/// creation order, and the regions for diagnostics.
///
/// The advice and selector tables are stored flat, column-major: column `c`
/// and row `r` live at index `c * n_rows + r`.
#[derive(Debug, PartialEq)]
pub struct Assignment {
    pub n_advice: usize,
    pub n_selector: usize,
    pub n_rows: usize,
    pub advice: Vec<Option<Value>>,
    pub selectors: Vec<bool>,
    pub copies: Vec<CopyConstraint>,
    pub regions: Vec<RegionInfo>,
}

impl Assignment {
    /// The tables have the advertised dimensions.
    pub open spec fn wf(self) -> bool {
        &&& self.advice@.len() == self.n_advice * self.n_rows
        &&& self.selectors@.len() == self.n_selector * self.n_rows
    }

    /// The advice cell of column `c` at row `r`.
    pub open spec fn adv(self, c: int, r: int) -> Option<Value> {
        self.advice@[c * self.n_rows + r]
    }

    /// The selector flag of column `s` at row `r`.
    pub open spec fn sel(self, s: int, r: int) -> bool {
        self.selectors@[s * self.n_rows + r]
    }
}

/// A cell's flat index lies inside its table.
pub proof fn lemma_grid_index(c: int, r: int, n_cols: int, n_rows: int)
    requires
        0 <= c < n_cols,
        0 <= r < n_rows,
    ensures
        0 <= c * n_rows + r,
        c * n_rows + r < n_cols * n_rows,
{
    assert(c * n_rows + r < n_cols * n_rows) by (nonlinear_arith)
        requires
            0 <= c < n_cols,
            0 <= r < n_rows,
    ;
    assert(0 <= c * n_rows + r) by (nonlinear_arith)
        requires
            0 <= c,
            0 <= r,
            0 < n_rows,
    ;
}

/// Distinct cells have distinct flat indices.
pub proof fn lemma_grid_index_inj(c1: int, r1: int, c2: int, r2: int, n_rows: int)
    requires
        0 <= c1,
        0 <= c2,
        0 <= r1 < n_rows,
        0 <= r2 < n_rows,
        !(c1 == c2 && r1 == r2),
    ensures
        c1 * n_rows + r1 != c2 * n_rows + r2,
{
    assert(c1 * n_rows + r1 != c2 * n_rows + r2) by (nonlinear_arith)
        requires
            0 <= c1,
            0 <= c2,
            0 <= r1 < n_rows,
            0 <= r2 < n_rows,
            !(c1 == c2 && r1 == r2),
    ;
}

/// `post` is `pre` with the advice cell `(c, r)` set to `Some(v)` and every
/// other advice cell, and all selectors, unchanged.
pub open spec fn adv_updated(pre: Assignment, post: Assignment, c: int, r: int, v: Value) -> bool {
    &&& post.n_advice == pre.n_advice
    &&& post.n_selector == pre.n_selector
    &&& post.n_rows == pre.n_rows
    &&& post.advice@.len() == pre.advice@.len()
    &&& forall|i: int, j: int|
        0 <= i < pre.n_advice && 0 <= j < pre.n_rows ==> #[trigger] post.adv(i, j) == (if i == c
            && j == r {
            Some(v)
        } else {
            pre.adv(i, j)
        })
    &&& post.selectors == pre.selectors
}

/// `post` is `pre` with the selector flag `(s, r)` set and every other
/// selector flag, and all advice cells, unchanged.
pub open spec fn sel_updated(pre: Assignment, post: Assignment, s: int, r: int) -> bool {
    &&& post.n_advice == pre.n_advice
    &&& post.n_selector == pre.n_selector
    &&& post.n_rows == pre.n_rows
    &&& post.selectors@.len() == pre.selectors@.len()
    &&& forall|i: int, j: int|
        0 <= i < pre.n_selector && 0 <= j < pre.n_rows ==> #[trigger] post.sel(i, j) == (if i == s
            && j == r {
            true
        } else {
            pre.sel(i, j)
        })
    &&& post.advice == pre.advice
}

/// The explicit row cursor that threads a synthesis run: it owns the grid
/// under construction, the public inputs, and the equality flags copied
/// from the shape.
pub struct Layouter {
    /// The grid under construction.
    pub asg: Assignment,
    /// Equality flag of each advice column, copied from the shape.
    pub eq_advice: Vec<bool>,
    /// Equality flag of each instance column, copied from the shape.
    pub eq_instance: Vec<bool>,
    /// The public inputs, one vector per instance column.
    pub instance: Vec<Vec<Fp>>,
    /// The first row not yet claimed by a closed region.
    pub next_row: usize,
    /// Whether a region is open.
    pub in_region: bool,
    /// The open region's name.
    pub cur_name: String,
    /// Rows used so far by the open region.
    pub region_rows: usize,
}

impl Layouter {
    /// The layouter's bookkeeping is consistent.
    pub open spec fn wf(self) -> bool {
        &&& self.asg.wf()
        &&& self.eq_advice@.len() == self.asg.n_advice
        &&& self.eq_instance@.len() == self.instance@.len()
        &&& self.next_row + self.region_rows <= self.asg.n_rows
    }

    /// The public inputs and equality flags, which synthesis never changes.
    pub open spec fn env_unchanged(pre: Layouter, post: Layouter) -> bool {
        &&& post.eq_advice == pre.eq_advice
        &&& post.eq_instance == pre.eq_instance
        &&& post.instance == pre.instance
    }

    /// The given column is an advice column of the grid with its equality
    /// flag set.
    pub open spec fn advice_eq_enabled(self, c: Column) -> bool {
        &&& c.kind == ColumnKind::Advice
        &&& c.index < self.asg.n_advice
        &&& self.eq_advice@[c.index as int]
    }

    /// The given column is an instance column with its equality flag set.
    pub open spec fn instance_eq_enabled(self, c: Column) -> bool {
        &&& c.kind == ColumnKind::Instance
        &&& c.index < self.instance@.len()
        &&& self.eq_instance@[c.index as int]
    }

    /// A fresh layouter for one synthesis run over a grid of `n_rows` rows,
    /// with the given public inputs.  The equality flags are copied from
    /// the shape; the grid starts fully unassigned, all selectors off.
    pub fn new(cs: &ConstraintSystem, n_rows: usize, instance: Vec<Vec<Fp>>) -> (ly: Layouter)
        requires
            cs.wf(),
            instance@.len() == cs.n_instance,
            cs.n_advice * n_rows <= usize::MAX,
            cs.n_selector * n_rows <= usize::MAX,
        ensures
            ly.wf(),
            ly.asg.n_advice == cs.n_advice,
            ly.asg.n_selector == cs.n_selector,
            ly.asg.n_rows == n_rows,
            ly.eq_advice@ == cs.eq_advice@,
            ly.eq_instance@ == cs.eq_instance@,
            ly.instance == instance,
            ly.next_row == 0,
            !ly.in_region,
            ly.asg.copies@ == Seq::<CopyConstraint>::empty(),
            ly.asg.regions@ == Seq::<RegionInfo>::empty(),
            forall|c: int, r: int|
                0 <= c < cs.n_advice && 0 <= r < n_rows ==> #[trigger] ly.asg.adv(c, r) is None,
            forall|s: int, r: int|
                0 <= s < cs.n_selector && 0 <= r < n_rows ==> !(#[trigger] ly.asg.sel(s, r)),
    {
        let n_adv_cells: usize = cs.n_advice * n_rows;
        let n_sel_cells: usize = cs.n_selector * n_rows;
        let mut advice: Vec<Option<Value>> = Vec::new();
        let mut i: usize = 0;
        while i < n_adv_cells
            invariant
                i <= n_adv_cells,
                advice@.len() == i,
                forall|k: int| 0 <= k < i ==> advice@[k] is None,
            decreases n_adv_cells - i,
        {
            advice.push(None);
            i = i + 1;
        }
        let mut selectors: Vec<bool> = Vec::new();
        let mut j: usize = 0;
        while j < n_sel_cells
            invariant
                j <= n_sel_cells,
                selectors@.len() == j,
                forall|k: int| 0 <= k < j ==> !selectors@[k],
            decreases n_sel_cells - j,
        {
            selectors.push(false);
            j = j + 1;
        }
        let mut eq_advice: Vec<bool> = Vec::new();
        let mut a: usize = 0;
        while a < cs.eq_advice.len()
            invariant
                a <= cs.eq_advice@.len(),
                eq_advice@ == cs.eq_advice@.take(a as int),
            decreases cs.eq_advice@.len() - a,
        {
            let f = cs.eq_advice[a];
            eq_advice.push(f);
            proof {
                assert(eq_advice@ == cs.eq_advice@.take(a + 1));
            }
            a = a + 1;
        }
        let mut eq_instance: Vec<bool> = Vec::new();
        let mut b: usize = 0;
        while b < cs.eq_instance.len()
            invariant
                b <= cs.eq_instance@.len(),
                eq_instance@ == cs.eq_instance@.take(b as int),
            decreases cs.eq_instance@.len() - b,
        {
            let f = cs.eq_instance[b];
            eq_instance.push(f);
            proof {
                assert(eq_instance@ == cs.eq_instance@.take(b + 1));
            }
            b = b + 1;
        }
        proof {
            assert(cs.eq_advice@.take(cs.eq_advice@.len() as int) == cs.eq_advice@);
            assert(cs.eq_instance@.take(cs.eq_instance@.len() as int) == cs.eq_instance@);
        }
        let ly = Layouter {
            asg: Assignment {
                n_advice: cs.n_advice,
                n_selector: cs.n_selector,
                n_rows,
                advice,
                selectors,
                copies: Vec::new(),
                regions: Vec::new(),
            },
            eq_advice,
            eq_instance,
            instance,
            next_row: 0,
            in_region: false,
            cur_name: String::new(),
            region_rows: 0,
        };
        proof {
            assert forall|c: int, r: int|
                0 <= c < cs.n_advice && 0 <= r < n_rows implies #[trigger] ly.asg.adv(c, r)
                is None by {
                lemma_grid_index(c, r, cs.n_advice as int, n_rows as int);
            }
            assert forall|s: int, r: int|
                0 <= s < cs.n_selector && 0 <= r < n_rows implies !(#[trigger] ly.asg.sel(
                s,
                r,
            )) by {
                lemma_grid_index(s, r, cs.n_selector as int, n_rows as int);
            }
        }
        ly
    }

    /// Opens a region at the next unused rows of the grid.
    pub fn begin_region(&mut self, name: String)
        requires
            old(self).wf(),
            !old(self).in_region,
        ensures
            final(self).wf(),
            final(self).in_region,
            final(self).cur_name@ == name@,
            final(self).region_rows == 0,
            final(self).next_row == old(self).next_row,
            final(self).asg == old(self).asg,
            Layouter::env_unchanged(*old(self), *final(self)),
    {
        self.in_region = true;
        self.cur_name = name;
        self.region_rows = 0;
    }

    /// Closes the open region, recording it and advancing the row cursor
    /// past the rows the region used.
    pub fn end_region(&mut self)
        requires
            old(self).wf(),
            old(self).in_region,
        ensures
            final(self).wf(),
            !final(self).in_region,
            final(self).next_row == old(self).next_row + old(self).region_rows,
            final(self).asg.regions@ == old(self).asg.regions@.push(
                RegionInfo {
                    name: old(self).cur_name,
                    start: old(self).next_row,
                    rows: old(self).region_rows,
                },
            ),
            final(self).asg.n_advice == old(self).asg.n_advice,
            final(self).asg.n_selector == old(self).asg.n_selector,
            final(self).asg.n_rows == old(self).asg.n_rows,
            final(self).asg.advice == old(self).asg.advice,
            final(self).asg.selectors == old(self).asg.selectors,
            final(self).asg.copies == old(self).asg.copies,
            Layouter::env_unchanged(*old(self), *final(self)),
    {
        let name = self.cur_name.clone();
        self.asg.regions.push(
            RegionInfo { name, start: self.next_row, rows: self.region_rows },
        );
        self.next_row = self.next_row + self.region_rows;
        self.region_rows = 0;
        self.in_region = false;
    }

    /// Turns a selector on at the given region-relative row.
    pub fn enable_selector(&mut self, sel: Column, offset: usize) -> (r: Result<(), Error>)
        requires
            old(self).wf(),
            old(self).in_region,
        ensures
            final(self).wf(),
            final(self).in_region,
            final(self).next_row == old(self).next_row,
            final(self).cur_name == old(self).cur_name,
            Layouter::env_unchanged(*old(self), *final(self)),
            r is Ok <==> {
                &&& sel.kind == ColumnKind::Selector
                &&& sel.index < old(self).asg.n_selector
                &&& old(self).next_row + offset < old(self).asg.n_rows
            },
            r is Ok ==> {
                &&& sel_updated(
                    old(self).asg,
                    final(self).asg,
                    sel.index as int,
                    old(self).next_row + offset,
                )
                &&& final(self).asg.copies == old(self).asg.copies
                &&& final(self).asg.regions == old(self).asg.regions
                &&& final(self).region_rows == (if offset + 1 > old(self).region_rows {
                    offset + 1
                } else {
                    old(self).region_rows as int
                })
            },
            r matches Err(e) ==> *final(self) == *old(self) && e == (if !(sel.kind
                == ColumnKind::Selector && sel.index < old(self).asg.n_selector) {
                Error::InvalidColumn { column: sel }
            } else {
                Error::NotEnoughRows { offset }
            }),
    {
        if !(matches!(sel.kind, ColumnKind::Selector) && sel.index < self.asg.n_selector) {
            return Err(Error::InvalidColumn { column: sel });
        }
        if offset >= self.asg.n_rows - self.next_row {
            return Err(Error::NotEnoughRows { offset });
        }
        let row = self.next_row + offset;
        let slen = self.asg.selectors.len();
        proof {
            lemma_grid_index(sel.index as int, row as int, self.asg.n_selector as int, self.asg.n_rows as int);
        }
        let idx = sel.index * self.asg.n_rows + row;
        self.asg.selectors[idx] = true;
        if offset + 1 > self.region_rows {
            self.region_rows = offset + 1;
        }
        proof {
            assert forall|i: int, j: int|
                0 <= i < old(self).asg.n_selector && 0 <= j < old(self).asg.n_rows
                implies #[trigger] self.asg.sel(i, j) == (if i == sel.index && j == row {
                true
            } else {
                old(self).asg.sel(i, j)
            }) by {
                lemma_grid_index(i, j, self.asg.n_selector as int, self.asg.n_rows as int);
                if !(i == sel.index && j == row) {
                    lemma_grid_index_inj(
                        i,
                        j,
                        sel.index as int,
                        row as int,
                        self.asg.n_rows as int,
                    );
                }
            }
        }
        Ok(())
    }

    /// Assigns a value to an advice cell at the given region-relative row.
    /// Assigning a cell that already holds a value fails with the
    /// overlapping-assignment error, whatever the two values are.
    pub fn assign_advice(&mut self, col: Column, offset: usize, v: Value) -> (r: Result<
        AssignedCell,
        Error,
    >)
        requires
            old(self).wf(),
            old(self).in_region,
        ensures
            final(self).wf(),
            final(self).in_region,
            final(self).next_row == old(self).next_row,
            final(self).cur_name == old(self).cur_name,
            Layouter::env_unchanged(*old(self), *final(self)),
            r is Ok <==> {
                &&& col.kind == ColumnKind::Advice
                &&& col.index < old(self).asg.n_advice
                &&& old(self).next_row + offset < old(self).asg.n_rows
                &&& old(self).asg.adv(col.index as int, old(self).next_row + offset) is None
            },
            match r {
                Ok(cell) => {
                    &&& cell == (AssignedCell {
                        column: col,
                        row: (old(self).next_row + offset) as usize,
                        value: v,
                    })
                    &&& adv_updated(
                        old(self).asg,
                        final(self).asg,
                        col.index as int,
                        old(self).next_row + offset,
                        v,
                    )
                    &&& final(self).asg.copies == old(self).asg.copies
                    &&& final(self).asg.regions == old(self).asg.regions
                    &&& final(self).region_rows == (if offset + 1 > old(self).region_rows {
                        offset + 1
                    } else {
                        old(self).region_rows as int
                    })
                },
                Err(e) => {
                    &&& *final(self) == *old(self)
                    &&& e == (if !(col.kind == ColumnKind::Advice && col.index < old(
                        self,
                    ).asg.n_advice) {
                        Error::InvalidColumn { column: col }
                    } else if !(old(self).next_row + offset < old(self).asg.n_rows) {
                        Error::NotEnoughRows { offset }
                    } else {
                        Error::OverlappingAssignment {
                            column: col,
                            row: (old(self).next_row + offset) as usize,
                        }
                    })
                },
            },
    {
        if !(matches!(col.kind, ColumnKind::Advice) && col.index < self.asg.n_advice) {
            return Err(Error::InvalidColumn { column: col });
        }
        if offset >= self.asg.n_rows - self.next_row {
            return Err(Error::NotEnoughRows { offset });
        }
        let row = self.next_row + offset;
        let glen = self.asg.advice.len();
        proof {
            lemma_grid_index(col.index as int, row as int, self.asg.n_advice as int, self.asg.n_rows as int);
        }
        let idx = col.index * self.asg.n_rows + row;
        if self.asg.advice[idx].is_some() {
            return Err(Error::OverlappingAssignment { column: col, row });
        }
        self.asg.advice[idx] = Some(v);
        if offset + 1 > self.region_rows {
            self.region_rows = offset + 1;
        }
        proof {
            assert forall|i: int, j: int|
                0 <= i < old(self).asg.n_advice && 0 <= j < old(self).asg.n_rows
                implies #[trigger] self.asg.adv(i, j) == (if i == col.index && j == row {
                Some(v)
            } else {
                old(self).asg.adv(i, j)
            }) by {
                lemma_grid_index(i, j, self.asg.n_advice as int, self.asg.n_rows as int);
                if !(i == col.index && j == row) {
                    lemma_grid_index_inj(
                        i,
                        j,
                        col.index as int,
                        row as int,
                        self.asg.n_rows as int,
                    );
                }
            }
        }
        Ok(AssignedCell { column: col, row, value: v })
    }

    /// Copies a public input into an advice cell and records the implicit
    /// copy constraint between the instance cell and the new advice cell.
    /// Both columns must be equality-enabled.
    pub fn assign_advice_from_instance(
        &mut self,
        icol: Column,
        irow: usize,
        col: Column,
        offset: usize,
    ) -> (r: Result<AssignedCell, Error>)
        requires
            old(self).wf(),
            old(self).in_region,
        ensures
            final(self).wf(),
            final(self).in_region,
            final(self).next_row == old(self).next_row,
            final(self).cur_name == old(self).cur_name,
            Layouter::env_unchanged(*old(self), *final(self)),
            r is Ok <==> {
                &&& old(self).instance_eq_enabled(icol)
                &&& irow < old(self).instance@[icol.index as int]@.len()
                &&& old(self).advice_eq_enabled(col)
                &&& old(self).next_row + offset < old(self).asg.n_rows
                &&& old(self).asg.adv(col.index as int, old(self).next_row + offset) is None
            },
            match r {
                Ok(cell) => {
                    &&& cell == (AssignedCell {
                        column: col,
                        row: (old(self).next_row + offset) as usize,
                        value: Value::Known(
                            old(self).instance@[icol.index as int]@[irow as int],
                        ),
                    })
                    &&& adv_updated(
                        old(self).asg,
                        final(self).asg,
                        col.index as int,
                        old(self).next_row + offset,
                        Value::Known(old(self).instance@[icol.index as int]@[irow as int]),
                    )
                    &&& final(self).asg.copies@ == old(self).asg.copies@.push(
                        CopyConstraint {
                            left: CellId { column: icol, row: irow },
                            right: CellId {
                                column: col,
                                row: (old(self).next_row + offset) as usize,
                            },
                        },
                    )
                    &&& final(self).asg.regions == old(self).asg.regions
                    &&& final(self).region_rows == (if offset + 1 > old(self).region_rows {
                        offset + 1
                    } else {
                        old(self).region_rows as int
                    })
                },
                Err(_) => *final(self) == *old(self),
            },
    {
        if !(matches!(icol.kind, ColumnKind::Instance) && icol.index < self.instance.len()) {
            return Err(Error::InvalidColumn { column: icol });
        }
        if !self.eq_instance[icol.index] {
            return Err(Error::EqualityNotEnabled { column: icol });
        }
        if irow >= self.instance[icol.index].len() {
            return Err(Error::InstanceOutOfRange { column: icol, row: irow });
        }
        if !(matches!(col.kind, ColumnKind::Advice) && col.index < self.asg.n_advice) {
            return Err(Error::InvalidColumn { column: col });
        }
        if !self.eq_advice[col.index] {
            return Err(Error::EqualityNotEnabled { column: col });
        }
        let value = self.instance[icol.index][irow];
        let cell = match self.assign_advice(col, offset, Value::Known(value)) {
            Ok(cell) => cell,
            Err(e) => { return Err(e); },
        };
        let ghost mid = self.asg;
        self.asg.copies.push(
            CopyConstraint { left: CellId { column: icol, row: irow }, right: cell.cell() },
        );
        proof {
            assert forall|i: int, j: int|
                0 <= i < old(self).asg.n_advice && 0 <= j < old(self).asg.n_rows
                implies #[trigger] self.asg.adv(i, j) == (if i == col.index && j == old(
                self,
            ).next_row + offset {
                Some(cell.value)
            } else {
                old(self).asg.adv(i, j)
            }) by {
                assert(mid.adv(i, j) == (if i == col.index && j == old(self).next_row + offset {
                    Some(cell.value)
                } else {
                    old(self).asg.adv(i, j)
                }));
                assert(self.asg.adv(i, j) == mid.adv(i, j));
            }
        }
        Ok(cell)
    }

    /// Assigns the value of a previously assigned cell to a new advice cell
    /// and records the explicit copy constraint between the two.  Both
    /// columns must be equality-enabled.
    pub fn copy_advice(&mut self, src: &AssignedCell, col: Column, offset: usize) -> (r: Result<
        AssignedCell,
        Error,
    >)
        requires
            old(self).wf(),
            old(self).in_region,
        ensures
            final(self).wf(),
            final(self).in_region,
            final(self).next_row == old(self).next_row,
            final(self).cur_name == old(self).cur_name,
            Layouter::env_unchanged(*old(self), *final(self)),
            r is Ok <==> {
                &&& old(self).advice_eq_enabled(src.column)
                &&& old(self).advice_eq_enabled(col)
                &&& old(self).next_row + offset < old(self).asg.n_rows
                &&& old(self).asg.adv(col.index as int, old(self).next_row + offset) is None
            },
            match r {
                Ok(cell) => {
                    &&& cell == (AssignedCell {
                        column: col,
                        row: (old(self).next_row + offset) as usize,
                        value: src.value,
                    })
                    &&& adv_updated(
                        old(self).asg,
                        final(self).asg,
                        col.index as int,
                        old(self).next_row + offset,
                        src.value,
                    )
                    &&& final(self).asg.copies@ == old(self).asg.copies@.push(
                        CopyConstraint {
                            left: CellId { column: src.column, row: src.row },
                            right: CellId {
                                column: col,
                                row: (old(self).next_row + offset) as usize,
                            },
                        },
                    )
                    &&& final(self).asg.regions == old(self).asg.regions
                    &&& final(self).region_rows == (if offset + 1 > old(self).region_rows {
                        offset + 1
                    } else {
                        old(self).region_rows as int
                    })
                },
                Err(_) => *final(self) == *old(self),
            },
    {
        if !(matches!(src.column.kind, ColumnKind::Advice) && src.column.index
            < self.asg.n_advice) {
            return Err(Error::InvalidColumn { column: src.column });
        }
        if !self.eq_advice[src.column.index] {
            return Err(Error::EqualityNotEnabled { column: src.column });
        }
        if !(matches!(col.kind, ColumnKind::Advice) && col.index < self.asg.n_advice) {
            return Err(Error::InvalidColumn { column: col });
        }
        if !self.eq_advice[col.index] {
            return Err(Error::EqualityNotEnabled { column: col });
        }
        let cell = match self.assign_advice(col, offset, src.value) {
            Ok(cell) => cell,
            Err(e) => { return Err(e); },
        };
        let ghost mid = self.asg;
        self.asg.copies.push(
            CopyConstraint { left: src.cell(), right: cell.cell() },
        );
        proof {
            assert forall|i: int, j: int|
                0 <= i < old(self).asg.n_advice && 0 <= j < old(self).asg.n_rows
                implies #[trigger] self.asg.adv(i, j) == (if i == col.index && j == old(
                self,
            ).next_row + offset {
                Some(cell.value)
            } else {
                old(self).asg.adv(i, j)
            }) by {
                assert(mid.adv(i, j) == (if i == col.index && j == old(self).next_row + offset {
                    Some(cell.value)
                } else {
                    old(self).asg.adv(i, j)
                }));
                assert(self.asg.adv(i, j) == mid.adv(i, j));
            }
        }
        Ok(cell)
    }

    /// Records a copy constraint between an assigned advice cell and a
    /// public input cell, binding the cell's value to the public input.
    /// Both columns must be equality-enabled.
    pub fn constrain_instance(&mut self, cell: &AssignedCell, icol: Column, irow: usize) -> (r:
        Result<(), Error>)
        requires
            old(self).wf(),
        ensures
            final(self).wf(),
            final(self).in_region == old(self).in_region,
            final(self).next_row == old(self).next_row,
            final(self).cur_name == old(self).cur_name,
            final(self).region_rows == old(self).region_rows,
            Layouter::env_unchanged(*old(self), *final(self)),
            final(self).asg.n_advice == old(self).asg.n_advice,
            final(self).asg.n_selector == old(self).asg.n_selector,
            final(self).asg.n_rows == old(self).asg.n_rows,
            final(self).asg.advice == old(self).asg.advice,
            final(self).asg.selectors == old(self).asg.selectors,
            final(self).asg.regions == old(self).asg.regions,
            r is Ok <==> {
                &&& old(self).advice_eq_enabled(cell.column)
                &&& old(self).instance_eq_enabled(icol)
                &&& irow < old(self).instance@[icol.index as int]@.len()
            },
            r is Ok ==> final(self).asg.copies@ == old(self).asg.copies@.push(
                CopyConstraint {
                    left: CellId { column: cell.column, row: cell.row },
                    right: CellId { column: icol, row: irow },
                },
            ),
            r is Err ==> *final(self) == *old(self),
    {
        if !(matches!(cell.column.kind, ColumnKind::Advice) && cell.column.index
            < self.asg.n_advice) {
            return Err(Error::InvalidColumn { column: cell.column });
        }
        if !self.eq_advice[cell.column.index] {
            return Err(Error::EqualityNotEnabled { column: cell.column });
        }
        if !(matches!(icol.kind, ColumnKind::Instance) && icol.index < self.instance.len()) {
            return Err(Error::InvalidColumn { column: icol });
        }
        if !self.eq_instance[icol.index] {
            return Err(Error::EqualityNotEnabled { column: icol });
        }
        if irow >= self.instance[icol.index].len() {
            return Err(Error::InstanceOutOfRange { column: icol, row: irow });
        }
        self.asg.copies.push(
            CopyConstraint {
                left: cell.cell(),
                right: CellId { column: icol, row: irow },
            },
        );
        Ok(())
    }

    /// Whether the given advice cell already holds a value.
    pub fn advice_assigned(&self, col: Column, row: usize) -> (r: bool)
        requires
            self.wf(),
            col.index < self.asg.n_advice,
            row < self.asg.n_rows,
        ensures
            r == (self.asg.adv(col.index as int, row as int) is Some),
    {
        let glen = self.asg.advice.len();
        proof {
            lemma_grid_index(col.index as int, row as int, self.asg.n_advice as int, self.asg.n_rows as int);
        }
        self.asg.advice[col.index * self.asg.n_rows + row].is_some()
    }

    /// Ends the synthesis run, handing the finished witness grid over for
    /// verification.
    pub fn finish(self) -> (asg: Assignment)
        requires
            self.wf(),
            !self.in_region,
        ensures
            asg == self.asg,
            asg.wf(),
    {
        self.asg
    }

    /// Ends the synthesis run, handing back both the finished witness grid
    /// and the public inputs it was run with, ready for verification.
    pub fn finish_with_instance(self) -> (r: (Assignment, Vec<Vec<Fp>>))
        requires
            self.wf(),
            !self.in_region,
        ensures
            r.0 == self.asg,
            r.0.wf(),
            r.1 == self.instance,
    {
        (self.asg, self.instance)
    }
}

} // verus!
