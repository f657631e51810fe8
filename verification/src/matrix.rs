//! The behavior matrix: for every ordered pair of color classes, how strongly
//! the first is drawn to (positive) or driven from (negative) the second.

use crate::fixed::ONE;
use crate::random::{random_in_range, random_index};
use vstd::prelude::*;

verus! {

/// An affinity lies in `[-1, 1]`.
pub open spec fn is_affinity(cell: i64) -> bool {
    -ONE <= cell <= ONE
}

/// Row `i` of `rows` is as long as `rows` itself.
pub open spec fn row_fits(rows: Seq<Seq<i64>>, i: int) -> bool {
    rows[i].len() == rows.len()
}

/// Every cell of row `i` before column `end` is an affinity.
pub open spec fn row_prefix_in_range(rows: Seq<Seq<i64>>, i: int, end: int) -> bool {
    forall|j: int| 0 <= j < end ==> is_affinity(#[trigger] rows[i][j])
}

/// Row `i` has the right length and holds affinities only.
pub open spec fn row_ok(rows: Seq<Seq<i64>>, i: int) -> bool {
    row_fits(rows, i) && row_prefix_in_range(rows, i, rows[i].len() as int)
}

/// `rows` is a behavior matrix: square, dense, with at least one class, and
/// every cell an affinity. No symmetry is asked for.
pub open spec fn is_behavior_matrix(rows: Seq<Seq<i64>>) -> bool {
    &&& rows.len() >= 1
    &&& forall|i: int| 0 <= i < rows.len() ==> #[trigger] row_ok(rows, i)
}

/// Why a table of numbers is not a behavior matrix.
#[derive(Clone, Copy, Debug, PartialEq, Eq, Structural)]
pub enum MatrixError {
    /// The table has no rows.
    Empty,
    /// This row's length differs from the number of rows.
    RaggedRow { row: usize },
    /// This cell lies outside `[-1, 1]`.
    CellOutOfRange { row: usize, column: usize },
}

/// `fault` names the first fault of `rows`, going through the rows in order
/// and through each row's cells in order, a row's length before its cells.
pub open spec fn is_first_fault(rows: Seq<Seq<i64>>, fault: MatrixError) -> bool {
    match fault {
        MatrixError::Empty => rows.len() == 0,
        MatrixError::RaggedRow { row } => {
            &&& row < rows.len()
            &&& forall|i: int| 0 <= i < row ==> #[trigger] row_ok(rows, i)
            &&& !row_fits(rows, row as int)
        },
        MatrixError::CellOutOfRange { row, column } => {
            &&& row < rows.len()
            &&& forall|i: int| 0 <= i < row ==> #[trigger] row_ok(rows, i)
            &&& row_fits(rows, row as int)
            &&& column < rows.len()
            &&& row_prefix_in_range(rows, row as int, column as int)
            &&& !is_affinity(rows[row as int][column as int])
        },
    }
}

/// A table with a fault is no behavior matrix.
pub proof fn lemma_fault_excludes_matrix(rows: Seq<Seq<i64>>, fault: MatrixError)
    requires
        is_first_fault(rows, fault),
    ensures
        !is_behavior_matrix(rows),
{
    match fault {
        MatrixError::Empty => {},
        MatrixError::RaggedRow { row } => {
            assert(!row_ok(rows, row as int));
        },
        MatrixError::CellOutOfRange { row, column } => {
            assert(!row_ok(rows, row as int));
        },
    }
}

/// A table has at most one first fault.
pub proof fn lemma_first_fault_unique(rows: Seq<Seq<i64>>, f1: MatrixError, f2: MatrixError)
    requires
        is_first_fault(rows, f1),
        is_first_fault(rows, f2),
    ensures
        f1 == f2,
{
    let r1: int = match f1 {
        MatrixError::Empty => -1,
        MatrixError::RaggedRow { row } => row as int,
        MatrixError::CellOutOfRange { row, .. } => row as int,
    };
    let r2: int = match f2 {
        MatrixError::Empty => -1,
        MatrixError::RaggedRow { row } => row as int,
        MatrixError::CellOutOfRange { row, .. } => row as int,
    };
    if r1 >= 0 && r2 >= 0 {
        if r1 < r2 {
            assert(row_ok(rows, r1));
        } else if r2 < r1 {
            assert(row_ok(rows, r2));
        }
    }
}

/// The affinities between the color classes `0 .. size`. Every value of this
/// type is a behavior matrix in the sense of `is_behavior_matrix`.
#[derive(Debug)]
pub struct BehaviorMatrix {
    rows: Vec<Vec<i64>>,
}

impl View for BehaviorMatrix {
    type V = Seq<Seq<i64>>;

    closed spec fn view(&self) -> Seq<Seq<i64>> {
        rows_of(self.rows)
    }
}

/// The rows of a nested vector as nested sequences.
pub open spec fn rows_of(rows: Vec<Vec<i64>>) -> Seq<Seq<i64>> {
    Seq::new(rows@.len(), |i: int| rows@[i]@)
}

/// Checks one row: its length, then its cells in order.
fn check_row(rows: &Vec<Vec<i64>>, i: usize) -> (r: Result<(), MatrixError>)
    requires
        i < rows.len(),
        forall|k: int| 0 <= k < i ==> #[trigger] row_ok(rows_of(*rows), k),
    ensures
        match r {
            Ok(()) => row_ok(rows_of(*rows), i as int),
            Err(fault) => is_first_fault(rows_of(*rows), fault),
        },
{
    let n: usize = rows.len();
    if rows[i].len() != n {
        return Err(MatrixError::RaggedRow { row: i });
    }
    let mut j: usize = 0;
    while j < n
        invariant
            i < rows.len(),
            n == rows.len(),
            j <= n,
            row_fits(rows_of(*rows), i as int),
            row_prefix_in_range(rows_of(*rows), i as int, j as int),
            forall|k: int| 0 <= k < i ==> #[trigger] row_ok(rows_of(*rows), k),
        decreases n - j,
    {
        let cell: i64 = rows[i][j];
        assert(cell == rows_of(*rows)[i as int][j as int]);
        if cell < -ONE || cell > ONE {
            return Err(MatrixError::CellOutOfRange { row: i, column: j });
        }
        j += 1;
    }
    Ok(())
}

/// A row of `n` affinities, each drawn at random from `[-1, 1]`.
fn random_row(n: usize) -> (row: Vec<i64>)
    ensures
        row@.len() == n,
        forall|j: int| 0 <= j < n ==> is_affinity(#[trigger] row@[j]),
{
    let mut row: Vec<i64> = Vec::new();
    while row.len() < n
        invariant
            row@.len() <= n,
            forall|j: int| 0 <= j < row@.len() ==> is_affinity(#[trigger] row@[j]),
        decreases n - row@.len(),
    {
        let cell: i64 = random_in_range(-ONE, ONE);
        row.push(cell);
    }
    row
}

impl BehaviorMatrix {
    #[verifier::type_invariant]
    pub open spec fn well_formed(self) -> bool {
        is_behavior_matrix(self@)
    }

    /// The number of color classes.
    pub open spec fn classes(self) -> nat {
        self@.len()
    }

    /// The affinity of class `from` for class `to`.
    pub open spec fn affinity(self, from: int, to: int) -> int {
        self@[from][to] as int
    }

    /// Takes a table of affinities as the behavior matrix, if it is one:
    /// at least one row, as many columns in every row as there are rows, and
    /// every cell in `[-1, 1]`. Otherwise reports the table's first fault.
    pub fn from_rows(rows: Vec<Vec<i64>>) -> (r: Result<Self, MatrixError>)
        ensures
            r is Ok <==> is_behavior_matrix(rows_of(rows)),
            match r {
                Ok(m) => m@ == rows_of(rows),
                Err(fault) => is_first_fault(rows_of(rows), fault),
            },
    {
        let n: usize = rows.len();
        if n == 0 {
            return Err(MatrixError::Empty);
        }
        let mut i: usize = 0;
        while i < n
            invariant
                n == rows.len(),
                i <= n,
                forall|k: int| 0 <= k < i ==> #[trigger] row_ok(rows_of(rows), k),
            decreases n - i,
        {
            match check_row(&rows, i) {
                Ok(()) => {},
                Err(fault) => {
                    proof {
                        lemma_fault_excludes_matrix(rows_of(rows), fault);
                    }
                    return Err(fault);
                },
            }
            i += 1;
        }
        Ok(BehaviorMatrix { rows })
    }

    /// A matrix for `n` classes with every cell drawn at random from
    /// `[-1, 1]`, independently of the others.
    pub fn random(n: usize) -> (m: Self)
        requires
            n >= 1,
        ensures
            is_behavior_matrix(m@),
            m.classes() == n,
    {
        let mut rows: Vec<Vec<i64>> = Vec::new();
        while rows.len() < n
            invariant
                rows@.len() <= n,
                forall|i: int| 0 <= i < rows@.len() ==> (#[trigger] rows@[i])@.len() == n,
                forall|i: int, j: int|
                    0 <= i < rows@.len() && 0 <= j < n ==> is_affinity(#[trigger] rows@[i]@[j]),
            decreases n - rows@.len(),
        {
            let row: Vec<i64> = random_row(n);
            rows.push(row);
        }
        assert forall|i: int| 0 <= i < rows_of(rows).len() implies #[trigger] row_ok(
            rows_of(rows),
            i,
        ) by {
            assert(rows_of(rows)[i] == rows@[i]@);
            assert forall|j: int| 0 <= j < n implies is_affinity(#[trigger] rows_of(rows)[i][j]) by {
                assert(is_affinity(rows@[i]@[j]));
            }
        }
        BehaviorMatrix { rows }
    }

    /// Draws the number of classes uniformly from
    /// `min_classes ..= max_classes`, then a random matrix of that size.
    pub fn generate(min_classes: usize, max_classes: usize) -> (m: Self)
        requires
            1 <= min_classes <= max_classes,
        ensures
            is_behavior_matrix(m@),
            min_classes <= m.classes() <= max_classes,
    {
        let n: usize = random_index(min_classes, max_classes);
        BehaviorMatrix::random(n)
    }

    /// Replaces every cell by a fresh random draw; the number of classes
    /// stays.
    pub fn regenerate(&mut self)
        ensures
            is_behavior_matrix(final(self)@),
            final(self).classes() == old(self).classes(),
    {
        proof {
            use_type_invariant(&*self);
        }
        let n: usize = self.rows.len();
        *self = BehaviorMatrix::random(n);
    }

    /// The number of color classes, `N`.
    pub fn size(&self) -> (n: usize)
        ensures
            n == self.classes(),
            n >= 1,
    {
        proof {
            use_type_invariant(self);
        }
        self.rows.len()
    }

    /// The affinity of class `from` for class `to`. Both must be classes of
    /// this matrix.
    pub fn lookup(&self, from: usize, to: usize) -> (behavior: i64)
        requires
            from < self.classes(),
            to < self.classes(),
        ensures
            behavior == self.affinity(from as int, to as int),
            is_affinity(behavior),
    {
        proof {
            use_type_invariant(self);
            assert(row_ok(self@, from as int));
        }
        self.rows[from][to]
    }
}

} // verus!
