//! The focus grid: a fixed 2-row by 4-column arrangement of the eight input
//! slots of the settings screen.  Exactly one cell has focus; directional
//! moves shift it by one cell and clamp at the edges (no wrap-around).

use vstd::prelude::*;

verus! {

/// The eight input slots of the settings grid.  All but `RecalculateArea`
/// carry a text buffer; `RecalculateArea` is a bare trigger.
#[derive(Clone, Copy, PartialEq, Eq, Structural, Debug)]
pub enum Field {
    Function,
    LowerBound,
    UpperBound,
    RecalculateArea,
    MinX,
    MaxX,
    MinY,
    MaxY,
}

/// A directional move of the focus.
#[derive(Clone, Copy, PartialEq, Eq, Structural, Debug)]
pub enum Step {
    Left,
    Right,
    Up,
    Down,
}

/// The field the fixed layout holds at a cell: the top row edits the
/// function and the integration bounds and triggers recalculation, the
/// bottom row edits the window.
pub open spec fn field_at_spec(row: int, col: int) -> Field {
    if row == 0 {
        if col == 0 {
            Field::Function
        } else if col == 1 {
            Field::LowerBound
        } else if col == 2 {
            Field::UpperBound
        } else {
            Field::RecalculateArea
        }
    } else {
        if col == 0 {
            Field::MinX
        } else if col == 1 {
            Field::MaxX
        } else if col == 2 {
            Field::MinY
        } else {
            Field::MaxY
        }
    }
}

/// Look a cell up in the fixed layout.
pub fn field_at(row: usize, col: usize) -> (f: Field)
    requires
        row < 2,
        col < 4,
    ensures
        f == field_at_spec(row as int, col as int),
{
    if row == 0 {
        if col == 0 {
            Field::Function
        } else if col == 1 {
            Field::LowerBound
        } else if col == 2 {
            Field::UpperBound
        } else {
            Field::RecalculateArea
        }
    } else {
        if col == 0 {
            Field::MinX
        } else if col == 1 {
            Field::MaxX
        } else if col == 2 {
            Field::MinY
        } else {
            Field::MaxY
        }
    }
}

/// The focus position: a cell of the 2-by-4 grid.
#[derive(Clone, Copy, PartialEq, Eq, Structural, Debug)]
pub struct FocusGrid {
    pub row: usize,
    pub col: usize,
}

impl FocusGrid {
    /// The focus always stays on the grid.
    pub open spec fn wf(self) -> bool {
        self.row < 2 && self.col < 4
    }

    /// Where a single directional move sends the focus: one cell over,
    /// clamped at the grid's edge.
    pub open spec fn step_spec(self, m: Step) -> FocusGrid {
        match m {
            Step::Left => if self.col > 0 {
                FocusGrid { row: self.row, col: (self.col - 1) as usize }
            } else {
                self
            },
            Step::Right => if self.col < 3 {
                FocusGrid { row: self.row, col: (self.col + 1) as usize }
            } else {
                self
            },
            Step::Up => if self.row > 0 {
                FocusGrid { row: (self.row - 1) as usize, col: self.col }
            } else {
                self
            },
            Step::Down => if self.row < 1 {
                FocusGrid { row: (self.row + 1) as usize, col: self.col }
            } else {
                self
            },
        }
    }

    /// The focus a sequence of moves leads to.
    pub open spec fn run_spec(self, ms: Seq<Step>) -> FocusGrid
        decreases ms.len(),
    {
        if ms.len() == 0 {
            self
        } else {
            self.step_spec(ms[0]).run_spec(ms.drop_first())
        }
    }

    /// The initial focus: the function field, top left.
    pub fn start() -> (g: FocusGrid)
        ensures
            g == (FocusGrid { row: 0, col: 0 }),
    {
        FocusGrid { row: 0, col: 0 }
    }

    /// Apply one directional move, clamping at the grid's edges.
    pub fn shift(&mut self, m: Step)
        requires
            old(self).wf(),
        ensures
            *final(self) == old(self).step_spec(m),
            final(self).wf(),
    {
        match m {
            Step::Left => if self.col > 0 {
                self.col = self.col - 1;
            },
            Step::Right => if self.col < 3 {
                self.col = self.col + 1;
            },
            Step::Up => if self.row > 0 {
                self.row = self.row - 1;
            },
            Step::Down => if self.row < 1 {
                self.row = self.row + 1;
            },
        }
    }

    /// The field the focus rests on.
    pub fn focused(&self) -> (f: Field)
        requires
            self.wf(),
        ensures
            f == field_at_spec(self.row as int, self.col as int),
    {
        field_at(self.row, self.col)
    }
}

/// For every starting cell on the grid and every sequence of directional
/// moves, the focus stays on the grid: the row is 0 or 1 and the column is
/// between 0 and 3.
pub proof fn lemma_focus_stays_on_grid(g: FocusGrid, ms: Seq<Step>)
    requires
        g.wf(),
    ensures
        g.run_spec(ms).wf(),
    decreases ms.len(),
{
    if ms.len() > 0 {
        lemma_focus_stays_on_grid(g.step_spec(ms[0]), ms.drop_first());
    }
}

/// Moving left from the first column, up from the first row, right from the
/// last column, or down from the last row leaves the focus where it was.
pub proof fn lemma_edge_moves_are_noops(g: FocusGrid)
    requires
        g.wf(),
    ensures
        g.col == 0 ==> g.step_spec(Step::Left) == g,
        g.row == 0 ==> g.step_spec(Step::Up) == g,
        g.col == 3 ==> g.step_spec(Step::Right) == g,
        g.row == 1 ==> g.step_spec(Step::Down) == g,
{
}

} // verus!
