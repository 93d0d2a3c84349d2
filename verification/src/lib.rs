//! A stateless implementation of the bisection method.
//!
//! A [`Bisector`] wraps an immutable view of a slice. Each call to
//! [`Bisector::bisect`] (or its fallible twin [`Bisector::try_bisect`])
//! performs one narrowing step: it asks a caller-supplied convergence
//! function which half of the current window to keep, and returns the
//! narrowed window together with the function's output. No progress is
//! stored inside the bisector; the caller threads the window through
//! successive steps.

pub(crate) mod error;

pub use error::EmptySliceError;

use vstd::prelude::*;
use vstd::arithmetic::div_mod::lemma_div_basics_5;
use vstd::arithmetic::div_mod::lemma_div_is_ordered;
use vstd::arithmetic::div_mod::lemma_div_multiples_vanish;
use vstd::arithmetic::div_mod::lemma_div_multiples_vanish_fancy;
use vstd::arithmetic::div_mod::lemma_hoist_over_denominator;
use vstd::slice::slice_index_get;

verus! {

/// The left and right indices which, together with the slice held by the
/// [`Bisector`], delimit the view a bisection step works on.
///
/// The bounds are inclusive: the window covers the sub-range
/// `[left, right]`. `left <= right` is a caller-maintained invariant.
#[derive(Debug, Copy, Clone, Eq, PartialEq, Structural)]
pub struct Indices {
    pub left: usize,
    pub right: usize,
}

impl Indices {
    /// The midpoint of the window, by integer division.
    pub open spec fn mid(self) -> usize {
        ((self.left + self.right) / 2) as usize
    }

    /// The window after a step that converges left: the midpoint itself
    /// stays under consideration.
    pub open spec fn narrowed_left(self) -> Indices {
        Indices { left: self.left, right: self.mid() }
    }

    /// The window after a step that converges right: the midpoint is
    /// excluded, which guarantees strict progress.
    pub open spec fn narrowed_right(self) -> Indices {
        Indices { left: (self.mid() + 1) as usize, right: self.right }
    }

    /// The window a bisection step hands back for a given decision: the
    /// left half (midpoint included) when the decision converges left, the
    /// right half (midpoint excluded) when it converges right.
    pub open spec fn stepped<L, R>(self, decision: ConvergeTo<L, R>) -> Indices {
        match decision {
            ConvergeTo::Left(_) => self.narrowed_left(),
            ConvergeTo::Right(_) => self.narrowed_right(),
        }
    }

    /// Create a new pair of indices.
    ///
    /// The left index must be smaller than or equal to the right index for
    /// the [`Bisector`] to work properly; upholding this is left to the
    /// caller.
    pub fn new(left_index: usize, right_index: usize) -> (indices: Self)
        ensures
            indices.left == left_index,
            indices.right == right_index,
    {
        Self { left: left_index, right: right_index }
    }

    /// Computes the midpoint between the left and right indices, using
    /// integer division.
    ///
    /// Defined only for windows with `left <= right`.
    pub fn middle(&self) -> (m: usize)
        requires
            self.left <= self.right,
        ensures
            m == self.mid(),
    {
        proof {
            let d = self.right - self.left;
            lemma_div_basics_5(d, 2);
            lemma_hoist_over_denominator(d, self.left as int, 2);
        }
        self.left + (self.right - self.left) / 2
    }

    /// Re-use the slice of the [`Bisector`] to determine the starting
    /// indices: the complete range of the slice, from index `0` to the
    /// last index of the slice.
    ///
    /// The slice held by the bisector must not be empty; with an empty
    /// slice there is no last index. This is the trusting constructor:
    /// misuse is a fault of the caller, not a reported error. Use
    /// [`Indices::try_from_bisector`] when emptiness is not already ruled
    /// out.
    pub fn from_bisector<T>(bisector: &Bisector<T>) -> (indices: Self)
        requires
            bisector.contents().len() > 0,
        ensures
            indices.left == 0,
            indices.right == bisector.contents().len() - 1,
    {
        Self { left: 0, right: bisector.slice.len() - 1 }
    }

    /// Re-use the slice of the [`Bisector`] to determine the starting
    /// indices: the complete range of the slice, from index `0` to the
    /// last index of the slice.
    ///
    /// Returns an [`EmptySliceError`] instead of faulting when the slice
    /// held by the bisector is empty.
    pub fn try_from_bisector<T>(bisector: &Bisector<T>) -> (res: Result<Self, EmptySliceError>)
        ensures
            bisector.contents().len() > 0 ==> (match res {
                Ok(indices) => indices.left == 0 && indices.right == bisector.contents().len() - 1,
                Err(_) => false,
            }),
            bisector.contents().len() == 0 ==> (match res {
                Ok(_) => false,
                Err(e) => e == EmptySliceError,
            }),
    {
        if !bisector.slice.is_empty() {
            Ok(Self { left: 0, right: bisector.slice.len() - 1 })
        } else {
            Err(EmptySliceError)
        }
    }
}

/// Stateless implementation of the bisection method: an immutable view of
/// a borrowed slice, with no internal record of search progress.
#[derive(Debug)]
pub struct Bisector<'v, T> {
    slice: &'v [T],
}

impl<'v, T> Bisector<'v, T> {
    /// The backing sequence, as contracts see it.
    pub closed spec fn contents(self) -> Seq<T> {
        self.slice@
    }

    /// Create a new [`Bisector`] for a given view. No validation is
    /// performed; an empty slice is accepted here.
    pub fn new(view: &'v [T]) -> (bisector: Self)
        ensures
            bisector.contents() == view@,
    {
        Self { slice: view }
    }

    /// The slice as known to the bisector.
    ///
    /// This is always the complete slice, regardless of any bisection
    /// steps which might have taken place: windows are caller-side
    /// bookkeeping, not a restriction on the view itself.
    pub fn view(&self) -> (v: &'v [T])
        ensures
            v@ == self.contents(),
    {
        self.slice
    }

    /// One step of the bisection method.
    ///
    /// If the window `indices` is already a single index, the same window
    /// comes back with an absent result: the search has converged. This is
    /// the sole termination condition.
    ///
    /// Otherwise the convergence function `f` is invoked exactly once, on
    /// the element at the midpoint of the window, and decides which half
    /// of the window survives: converging left keeps the midpoint in view
    /// (`right` becomes the midpoint), converging right excludes it
    /// (`left` becomes the midpoint plus one). The returned [`Step`]
    /// carries the narrowed window and the function's output; the window
    /// may be fed to the next invocation.
    ///
    /// No state is retained between calls: the outcome is a function of
    /// the window and the decision alone.
    pub fn bisect<F, L, R>(&self, f: F, indices: Indices) -> (step: Step<L, R>) where
        F: FnOnce(&T) -> ConvergeTo<L, R>,

        requires
            indices.left <= indices.right,
            indices.left < indices.right ==> indices.right < self.contents().len(),
            indices.left < indices.right ==> call_requires(
                f,
                (&self.contents()[indices.mid() as int],),
            ),
        ensures
            indices.left == indices.right ==> step.indices == indices && step.result is None,
            indices.left < indices.right ==> (match step.result {
                Some(decision) => {
                    &&& call_ensures(f, (&self.contents()[indices.mid() as int],), decision)
                    &&& step.indices == indices.stepped(decision)
                },
                None => false,
            }),
    {
        let Indices { left, right } = indices;

        if left == right {
            return Step { indices, result: None };
        }

        proof {
            lemma_mid_in_window(indices);
        }
        let middle = indices.middle();

        match f(slice_index_get(self.slice, middle)) {
            ConvergeTo::Left(out) => Step {
                indices: Indices { left, right: middle },
                result: Some(ConvergeTo::Left(out)),
            },
            ConvergeTo::Right(out) => Step {
                indices: Indices { left: middle + 1, right },
                result: Some(ConvergeTo::Right(out)),
            },
        }
    }

    /// One step of the bisection method, for a fallible convergence
    /// function. Otherwise exactly the same as [`Bisector::bisect`].
    ///
    /// When the window is already converged the method succeeds at once
    /// with an absent result, without invoking the convergence function at
    /// all: convergence detection takes priority over fallibility.
    ///
    /// Otherwise the function is invoked once at the midpoint; a failure
    /// is propagated unchanged, and no narrowed window is produced.
    pub fn try_bisect<F, E, L, R>(&self, f: F, indices: Indices) -> (res: Result<Step<L, R>, E>) where
        F: FnOnce(&T) -> Result<ConvergeTo<L, R>, E>,

        requires
            indices.left <= indices.right,
            indices.left < indices.right ==> indices.right < self.contents().len(),
            indices.left < indices.right ==> call_requires(
                f,
                (&self.contents()[indices.mid() as int],),
            ),
        ensures
            indices.left == indices.right ==> (match res {
                Ok(step) => step.indices == indices && step.result is None,
                Err(_) => false,
            }),
            indices.left < indices.right ==> (match res {
                Ok(step) => match step.result {
                    Some(decision) => {
                        &&& call_ensures(
                            f,
                            (&self.contents()[indices.mid() as int],),
                            Ok::<ConvergeTo<L, R>, E>(decision),
                        )
                        &&& step.indices == indices.stepped(decision)
                    },
                    None => false,
                },
                Err(e) => call_ensures(
                    f,
                    (&self.contents()[indices.mid() as int],),
                    Err::<ConvergeTo<L, R>, E>(e),
                ),
            }),
    {
        let Indices { left, right } = indices;

        if left == right {
            return Ok(Step { indices, result: None });
        }

        proof {
            lemma_mid_in_window(indices);
        }
        let middle = indices.middle();

        match f(slice_index_get(self.slice, middle)) {
            Ok(ConvergeTo::Left(out)) => Ok(Step {
                indices: Indices { left, right: middle },
                result: Some(ConvergeTo::Left(out)),
            }),
            Ok(ConvergeTo::Right(out)) => Ok(Step {
                indices: Indices { left: middle + 1, right },
                result: Some(ConvergeTo::Right(out)),
            }),
            Err(e) => Err(e),
        }
    }
}

/// The output of one bisection step: the indices of the narrowed window,
/// together with the output of the convergence function.
///
/// `result` is `Some` when the step made progress and `None` when the
/// given window was already a single index, i.e. already converged; the
/// latter can be used to stop a driving loop.
pub struct Step<L, R> {
    pub indices: Indices,
    pub result: Option<ConvergeTo<L, R>>,
}

/// The direction towards which a bisection step converges, carrying an
/// arbitrary output value for whichever side was chosen. The two payload
/// types are independent and need not be related.
pub enum ConvergeTo<Left, Right> {
    Left(Left),
    Right(Right),
}

impl<Left, Right> ConvergeTo<Left, Right> {
    /// The left payload, if this value converged left.
    pub fn try_into_left(self) -> (res: Option<Left>)
        ensures
            (match self {
                ConvergeTo::Left(l) => res == Some(l),
                ConvergeTo::Right(_) => res is None,
            }),
    {
        if let Self::Left(left) = self {
            Some(left)
        } else {
            None
        }
    }

    /// The right payload, if this value converged right.
    pub fn try_into_right(self) -> (res: Option<Right>)
        ensures
            (match self {
                ConvergeTo::Left(_) => res is None,
                ConvergeTo::Right(r) => res == Some(r),
            }),
    {
        if let Self::Right(right) = self {
            Some(right)
        } else {
            None
        }
    }
}

/// For a window that spans more than one index, the midpoint lies inside
/// the window and strictly before its right bound.
pub proof fn lemma_mid_in_window(indices: Indices)
    requires
        indices.left < indices.right,
    ensures
        indices.left <= indices.mid() < indices.right,
{
    let l = indices.left as int;
    let r = indices.right as int;
    assert((2 * l) / 2 == l) by {
        lemma_div_multiples_vanish(l, 2);
    }
    lemma_div_is_ordered(2 * l, l + r, 2);
    assert((2 * (r - 1) + 1) / 2 == r - 1) by {
        lemma_div_multiples_vanish_fancy(r - 1, 1, 2);
    }
    lemma_div_is_ordered(l + r, 2 * (r - 1) + 1, 2);
}

/// A step on a window that still spans more than one index strictly
/// narrows it, whichever direction the decision chose: both bounds stay
/// within the old window, and the span shrinks.
pub proof fn lemma_step_strictly_narrows<L, R>(
    before: Indices,
    decision: ConvergeTo<L, R>,
)
    requires
        before.left < before.right,
    ensures
        before.left <= before.stepped(decision).left,
        before.stepped(decision).right <= before.right,
        before.stepped(decision).right - before.stepped(decision).left < before.right
            - before.left,
{
    lemma_mid_in_window(before);
}

/// The engine is stateless: the window a step hands back is a function of
/// the input window and the decision alone, so two steps on the same
/// window whose decisions agree yield the same new window.
pub proof fn lemma_step_deterministic<L, R>(
    indices: Indices,
    first: ConvergeTo<L, R>,
    second: ConvergeTo<L, R>,
)
    requires
        first == second,
    ensures
        indices.stepped(first) == indices.stepped(second),
{
}

/// The two narrowing directions are deliberately asymmetric: converging
/// left keeps the midpoint under consideration (`right` becomes the
/// midpoint), while converging right excludes it (`left` becomes the
/// midpoint plus one).
pub proof fn lemma_left_right_asymmetry(indices: Indices)
    requires
        indices.left < indices.right,
    ensures
        indices.narrowed_left().left == indices.left,
        indices.narrowed_left().right == indices.mid(),
        indices.narrowed_right().left == indices.mid() + 1,
        indices.narrowed_right().right == indices.right,
{
    lemma_mid_in_window(indices);
}

} // verus!
