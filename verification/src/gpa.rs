//! Generalized Procrustes analysis: what is checked of the shapes before
//! the alignment starts, the order in which the alignment proceeds, and the
//! result it hands back.
//!
//! The alignment is a fixed-point iteration. Each round visits every shape
//! once, in order, rotates it onto the current mean shape and adds it to a
//! running sum; the round ends by averaging the sum into a new mean shape.
//! Rounds go on for as long as the criterion keeps dropping by more than
//! the tolerance. The numeric work of a step is the caller's; which step
//! comes next is decided here.

use vstd::prelude::*;
use crate::matrix::DoubleMatrix;

verus! {

/// Why a set of shapes cannot be aligned.
#[derive(Debug, Clone, Copy, PartialEq, Eq, Structural)]
pub enum GpaError {
    /// Fewer than two shapes were given.
    TooFew { found: usize },
    /// The shape at `index` differs in rows or columns from the first.
    ShapeMismatch {
        index: usize,
        rows: usize,
        cols: usize,
        expected_rows: usize,
        expected_cols: usize,
    },
}

/// Every matrix before position `n` has the shape of the first.
pub open spec fn agree_before<T>(shapes: Seq<DoubleMatrix<T>>, n: int) -> bool {
    forall|i: int| 0 <= i < n ==> (#[trigger] shapes[i]).same_shape(&shapes[0])
}

/// What the validation of a set of shapes comes to: at least two are needed,
/// and the first that differs from the first of all is reported.
pub open spec fn validation_outcome<T>(
    shapes: Seq<DoubleMatrix<T>>,
    r: Result<(usize, usize), GpaError>,
) -> bool {
    match r {
        Ok((rows, cols)) => {
            &&& shapes.len() >= 2
            &&& agree_before(shapes, shapes.len() as int)
            &&& rows == shapes[0].nrows()
            &&& cols == shapes[0].ncols()
        },
        Err(GpaError::TooFew { found }) => found == shapes.len() && shapes.len() < 2,
        Err(GpaError::ShapeMismatch { index, rows, cols, expected_rows, expected_cols }) => {
            &&& shapes.len() >= 2
            &&& index < shapes.len()
            &&& agree_before(shapes, index as int)
            &&& !shapes[index as int].same_shape(&shapes[0])
            &&& rows == shapes[index as int].nrows()
            &&& cols == shapes[index as int].ncols()
            &&& expected_rows == shapes[0].nrows()
            &&& expected_cols == shapes[0].ncols()
        },
    }
}

/// Checks that there are at least two shapes and that all have the rows
/// and columns of the first, which are returned.
pub fn validate_shapes<T: Copy>(shapes: &[DoubleMatrix<T>]) -> (r: Result<
    (usize, usize),
    GpaError,
>)
    ensures
        validation_outcome(shapes@, r),
        r is Ok <==> shapes@.len() >= 2 && agree_before(shapes@, shapes@.len() as int),
{
    let count: usize = shapes.len();
    if count < 2 {
        return Err(GpaError::TooFew { found: count });
    }
    let rows: usize = shapes[0].rows();
    let cols: usize = shapes[0].cols();
    let mut i: usize = 0;
    while i < count
        invariant
            i <= count,
            count == shapes@.len(),
            count >= 2,
            rows == shapes@[0].nrows(),
            cols == shapes@[0].ncols(),
            agree_before(shapes@, i as int),
        decreases count - i,
    {
        let r: usize = shapes[i].rows();
        let c: usize = shapes[i].cols();
        if r != rows || c != cols {
            return Err(
                GpaError::ShapeMismatch {
                    index: i,
                    rows: r,
                    cols: c,
                    expected_rows: rows,
                    expected_cols: cols,
                },
            );
        }
        i += 1;
    }
    Ok((rows, cols))
}

/// The result of an alignment: the mean shape, the aligned shapes, and
/// the discrepancy that is left between them.
#[derive(Debug)]
pub struct GPA<T> {
    mean_shape: DoubleMatrix<T>,
    normal_shapes: Vec<DoubleMatrix<T>>,
    ssd: T,
}

impl<T> GPA<T> {
    /// The mean shape.
    pub closed spec fn mean(&self) -> DoubleMatrix<T> {
        self.mean_shape
    }

    /// The aligned shapes, in the order of the inputs.
    pub closed spec fn aligned(&self) -> Seq<DoubleMatrix<T>> {
        self.normal_shapes@
    }

    /// The sum of squared deviations of the aligned shapes from the mean.
    pub closed spec fn discrepancy(&self) -> T {
        self.ssd
    }
}

impl<T: Copy> GPA<T> {
    /// Puts a result together.
    pub fn new(mean_shape: DoubleMatrix<T>, normal_shapes: Vec<DoubleMatrix<T>>, ssd: T) -> (r:
        Self)
        ensures
            r.mean() == mean_shape,
            r.aligned() == normal_shapes@,
            r.discrepancy() == ssd,
    {
        GPA { mean_shape, normal_shapes, ssd }
    }

    /// The sum of squared deviations of the aligned shapes from the mean.
    pub fn get_ssd(&self) -> (r: T)
        ensures
            r == self.discrepancy(),
    {
        self.ssd
    }

    /// The mean shape.
    pub fn get_mean_shape(&self) -> (r: &DoubleMatrix<T>)
        ensures
            *r == self.mean(),
    {
        &self.mean_shape
    }

    /// The aligned shapes, in the order of the inputs.
    pub fn get_normal_shapes(&self) -> (r: &[DoubleMatrix<T>])
        ensures
            r@ == self.aligned(),
    {
        self.normal_shapes.as_slice()
    }
}

/// Where an alignment stands.
#[derive(Debug, Clone, Copy, PartialEq, Eq, Structural)]
pub enum GpaPhase {
    /// A round is about to begin.
    RoundStart,
    /// The shapes before `cursor` have been visited in this round.
    Visiting { cursor: usize },
    /// The round has been averaged; whether the criterion dropped decides
    /// what follows.
    Averaged,
    /// The alignment is over.
    Finished,
}

/// What the caller is to do next.
#[derive(Debug, Clone, Copy, PartialEq, Eq, Structural)]
pub enum GpaAction {
    /// Set the running sum to zero.
    Reset,
    /// Add the shape to the running sum as it is.
    Accumulate { shape: usize },
    /// Rotate the shape onto the mean shape, after rescaling it if
    /// `scaled` is set, and add it to the running sum.
    Align { shape: usize, scaled: bool },
    /// Divide the running sum by the number of shapes, bring the result
    /// to unit norm as the new mean shape, and compute the criterion.
    Average,
    /// Hand back the mean shape, the shapes and the criterion.
    Finish,
}

/// The course of an alignment of `count` shapes.
#[derive(Debug, Clone, Copy, PartialEq, Eq, Structural)]
pub struct GpaSchedule {
    /// Number of shapes.
    pub count: usize,
    /// Whether shapes are rescaled before they are rotated.
    pub is_scaled: bool,
    /// Index of the shape that serves as the first mean shape.
    pub initial_order: usize,
    /// Whether the round under way is the first.
    pub first_round: bool,
    /// Where the alignment stands.
    pub phase: GpaPhase,
}

impl GpaSchedule {
    /// There are at least two shapes, the seed is one of them, and the
    /// cursor does not run past the last shape.
    pub open spec fn wf(&self) -> bool {
        &&& self.count >= 2
        &&& self.initial_order < self.count
        &&& self.phase matches GpaPhase::Visiting { cursor } ==> cursor <= self.count
    }

    /// What is done to shape `shape` in the round under way: in the first
    /// round the seed is the mean shape itself and is added as it is;
    /// every other shape, and the seed in later rounds, is aligned.
    pub open spec fn visit(&self, shape: usize) -> GpaAction {
        if self.first_round && shape == self.initial_order {
            GpaAction::Accumulate { shape }
        } else {
            GpaAction::Align { shape, scaled: self.is_scaled }
        }
    }

    /// The action that a step selects. `dropped` says whether the
    /// criterion dropped by more than the tolerance in the round that was
    /// just averaged; it is read in no other phase.
    pub open spec fn action(&self, dropped: bool) -> GpaAction {
        match self.phase {
            GpaPhase::RoundStart => GpaAction::Reset,
            GpaPhase::Visiting { cursor } => if cursor < self.count {
                self.visit(cursor)
            } else {
                GpaAction::Average
            },
            GpaPhase::Averaged => if dropped {
                GpaAction::Reset
            } else {
                GpaAction::Finish
            },
            GpaPhase::Finished => GpaAction::Finish,
        }
    }

    /// The schedule after a step.
    pub open spec fn after(&self, dropped: bool) -> GpaSchedule {
        match self.phase {
            GpaPhase::RoundStart => GpaSchedule {
                phase: GpaPhase::Visiting { cursor: 0 },
                ..*self
            },
            GpaPhase::Visiting { cursor } => if cursor < self.count {
                GpaSchedule {
                    phase: GpaPhase::Visiting { cursor: (cursor + 1) as usize },
                    ..*self
                }
            } else {
                GpaSchedule { phase: GpaPhase::Averaged, ..*self }
            },
            GpaPhase::Averaged => if dropped {
                GpaSchedule {
                    first_round: false,
                    phase: GpaPhase::Visiting { cursor: 0 },
                    ..*self
                }
            } else {
                GpaSchedule { phase: GpaPhase::Finished, ..*self }
            },
            GpaPhase::Finished => *self,
        }
    }

    /// The schedule `n` steps into a round that meets no verdict.
    pub open spec fn after_steps(&self, n: nat) -> GpaSchedule
        decreases n,
    {
        if n == 0 {
            *self
        } else {
            self.after_steps((n - 1) as nat).after(false)
        }
    }

    /// The schedule at the start of an alignment of `count` shapes seeded
    /// with the shape at `initial_order`.
    pub fn new(count: usize, is_scaled: bool, initial_order: usize) -> (r: Self)
        requires
            count >= 2,
            initial_order < count,
        ensures
            r.wf(),
            r == (GpaSchedule {
                count,
                is_scaled,
                initial_order,
                first_round: true,
                phase: GpaPhase::RoundStart,
            }),
    {
        GpaSchedule {
            count,
            is_scaled,
            initial_order,
            first_round: true,
            phase: GpaPhase::RoundStart,
        }
    }

    /// Selects the next action and moves the schedule past it.
    pub fn step(&mut self, dropped: bool) -> (action: GpaAction)
        requires
            old(self).wf(),
        ensures
            final(self).wf(),
            action == old(self).action(dropped),
            *final(self) == old(self).after(dropped),
    {
        match self.phase {
            GpaPhase::RoundStart => {
                self.phase = GpaPhase::Visiting { cursor: 0 };
                GpaAction::Reset
            },
            GpaPhase::Visiting { cursor } => {
                if cursor < self.count {
                    self.phase = GpaPhase::Visiting { cursor: cursor + 1 };
                    if self.first_round && cursor == self.initial_order {
                        GpaAction::Accumulate { shape: cursor }
                    } else {
                        GpaAction::Align { shape: cursor, scaled: self.is_scaled }
                    }
                } else {
                    self.phase = GpaPhase::Averaged;
                    GpaAction::Average
                }
            },
            GpaPhase::Averaged => {
                if dropped {
                    self.first_round = false;
                    self.phase = GpaPhase::Visiting { cursor: 0 };
                    GpaAction::Reset
                } else {
                    self.phase = GpaPhase::Finished;
                    GpaAction::Finish
                }
            },
            GpaPhase::Finished => GpaAction::Finish,
        }
    }
}

/// Within a round the shapes are visited once each, in order: `n` steps
/// after the round's reset the cursor stands at `n`, and the step that
/// follows visits shape `n`, or averages once every shape has been visited.
/// Nothing but the cursor changes on the way.
pub proof fn lemma_round_visits_in_order(start: GpaSchedule, n: nat)
    requires
        start.wf(),
        start.phase == (GpaPhase::Visiting { cursor: 0 }),
        n <= start.count,
    ensures
        start.after_steps(n) == (GpaSchedule {
            phase: GpaPhase::Visiting { cursor: n as usize },
            ..start
        }),
        start.after_steps(n).wf(),
        n < start.count ==> start.after_steps(n).action(false) == start.visit(n as usize),
        n == start.count ==> start.after_steps(n).action(false) == GpaAction::Average,
    decreases n,
{
    if n > 0 {
        lemma_round_visits_in_order(start, (n - 1) as nat);
    }
}

/// The seed is added unaligned in the first round only, and no other shape
/// ever is.
pub proof fn lemma_only_first_seed_unaligned(s: GpaSchedule, shape: usize)
    requires
        s.wf(),
    ensures
        s.visit(shape) == (GpaAction::Accumulate { shape }) <==> s.first_round && shape
            == s.initial_order,
        s.after(true).phase == (GpaPhase::Visiting { cursor: 0 }) && s.phase == GpaPhase::Averaged
            ==> !s.after(true).first_round,
{
}

/// An alignment ends exactly when a round has been averaged and the
/// criterion did not drop; once over, it stays over.
pub proof fn lemma_finish(s: GpaSchedule, dropped: bool)
    requires
        s.wf(),
    ensures
        s.action(dropped) == GpaAction::Finish <==> s.phase == GpaPhase::Finished || (s.phase
            == GpaPhase::Averaged && !dropped),
        s.phase == GpaPhase::Finished ==> s.after(dropped) == s,
{
}

} // verus!
