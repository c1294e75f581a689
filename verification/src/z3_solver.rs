//! The solver session and the executable encoder. The session owns the
//! fresh-constant counter and the checkpointed assertion stack; the four
//! `get_as_*` methods lower an expression through the corresponding view
//! and are proved to produce exactly the terms that the spec functions in
//! [`crate::encode`] define. An unverified backend replays the produced
//! terms and the session's assertion stack into actual solver calls.

use vstd::prelude::*;

use crate::encode::{bump_id, lower_bool, ok_bool};
use crate::ir::Expression;
use crate::term::{sort_of, Sort, Term};

verus! {

/// The three-valued verdict of a satisfiability check. `Undefined` covers
/// both genuine solver indecision and the configured timeout; it must not
/// be conflated with `Unsatisfiable`.
#[derive(Clone, Copy, PartialEq, Eq, Structural, Debug)]
pub enum SmtResult {
    Satisfiable,
    Unsatisfiable,
    Undefined,
}

/// The verdict for a solver's three-valued check result code, which is
/// positive one for satisfiable, minus one for unsatisfiable, and zero
/// (or anything else) for undefined.
pub fn smt_result_from_lbool(code: i32) -> (r: SmtResult)
    ensures
        code == 1 ==> r == SmtResult::Satisfiable,
        code == -1 ==> r == SmtResult::Unsatisfiable,
        code != 1 && code != -1 ==> r == SmtResult::Undefined,
{
    if code == 1 {
        SmtResult::Satisfiable
    } else if code == -1 {
        SmtResult::Unsatisfiable
    } else {
        SmtResult::Undefined
    }
}

/// A solver session: the fresh-constant counter that numbers the opaque
/// constants handed out for unknown values, and the assertion stack, one
/// frame per open checkpoint. Terms themselves are transient values; only
/// the assertions live in the session.
pub struct Z3Solver {
    /// The id the next fresh constant will carry.
    pub fresh: u64,
    /// The checkpointed assertion stack; the last frame is the current one.
    /// It is never empty: the first frame is the base frame that no
    /// backtrack can discard.
    pub frames: Vec<Vec<Term>>,
}

impl Z3Solver {
    /// The assertion stack, frame by frame, oldest first.
    pub open spec fn frames_view(self) -> Seq<Seq<Term>> {
        self.frames@.map(|i: int, f: Vec<Term>| f@)
    }

    /// Every term asserted in any open frame, oldest first.
    pub open spec fn asserted(self) -> Seq<Term> {
        self.frames_view().flatten()
    }

    /// The base frame is always open.
    pub open spec fn well_formed(self) -> bool {
        self.frames.len() >= 1
    }

    /// A fresh session: no assertions, one base frame, fresh ids from zero.
    pub fn new() -> (r: Z3Solver)
        ensures
            r.well_formed(),
            r.fresh == 0,
            r.frames_view() == seq![Seq::<Term>::empty()],
            r.asserted() == Seq::<Term>::empty(),
    {
        let mut frames: Vec<Vec<Term>> = Vec::new();
        frames.push(Vec::new());
        let r = Z3Solver { fresh: 0, frames };
        proof {
            assert(r.frames_view() =~= seq![Seq::<Term>::empty()]);
            r.frames_view().lemma_flatten_one_element();
            assert(r.asserted() =~= Seq::<Term>::empty());
        }
        r
    }

    /// Hands out the next fresh-constant id and advances the counter.
    pub(crate) fn next_fresh_id(&mut self) -> (id: u64)
        ensures
            id == old(self).fresh,
            final(self).fresh == bump_id(old(self).fresh),
            final(self).frames == old(self).frames,
    {
        let id = self.fresh;
        if self.fresh < u64::MAX {
            self.fresh = self.fresh + 1;
        }
        id
    }

    /// Adds a constraint to the current checkpoint frame. The term must be
    /// boolean-sorted; handing the solver anything else is a caller bug,
    /// not a runtime condition.
    pub fn assert_constraint(&mut self, t: Term)
        requires
            old(self).well_formed(),
            sort_of(t) == Sort::Bool,
        ensures
            final(self).well_formed(),
            final(self).fresh == old(self).fresh,
            final(self).frames_view() == old(self).frames_view().drop_last().push(
                old(self).frames_view().last().push(t),
            ),
            final(self).asserted() == old(self).asserted().push(t),
    {
        let ghost old_fv = self.frames_view();
        let mut frame = self.frames.pop().unwrap();
        frame.push(t);
        self.frames.push(frame);
        proof {
            let new_fv = self.frames_view();
            assert(new_fv =~= old_fv.drop_last().push(old_fv.last().push(t)));
            old_fv.drop_last().lemma_flatten_push(old_fv.last());
            old_fv.drop_last().lemma_flatten_push(old_fv.last().push(t));
            assert(old_fv.drop_last().push(old_fv.last()) =~= old_fv);
            assert(self.asserted() =~= old(self).asserted().push(t));
        }
    }

    /// Pushes a new checkpoint frame; later assertions land in it until
    /// the matching backtrack.
    pub fn set_backtrack_position(&mut self)
        requires
            old(self).well_formed(),
        ensures
            final(self).well_formed(),
            final(self).fresh == old(self).fresh,
            final(self).frames_view() == old(self).frames_view().push(Seq::<Term>::empty()),
            final(self).asserted() == old(self).asserted(),
    {
        let ghost old_fv = self.frames_view();
        self.frames.push(Vec::new());
        proof {
            assert(self.frames_view() =~= old_fv.push(Seq::<Term>::empty()));
            old_fv.lemma_flatten_push(Seq::<Term>::empty());
            assert(self.asserted() =~= old(self).asserted());
        }
    }

    /// Pops exactly one checkpoint frame, discarding every constraint
    /// asserted since the matching push. Backtracking without a matching
    /// prior push is outside the session's contract, as it is for the
    /// underlying solver.
    pub fn backtrack(&mut self)
        requires
            old(self).well_formed(),
            old(self).frames_view().len() >= 2,
        ensures
            final(self).well_formed(),
            final(self).fresh == old(self).fresh,
            final(self).frames_view() == old(self).frames_view().drop_last(),
            final(self).asserted() == old(self).frames_view().drop_last().flatten(),
    {
        let ghost old_fv = self.frames_view();
        let _discarded = self.frames.pop();
        proof {
            assert(self.frames_view() =~= old_fv.drop_last());
        }
    }

    /// Lowers an expression to the boolean-sortable term a driver asserts
    /// as a constraint: the boolean view.
    pub fn get_as_smt_predicate(&mut self, expression: &Expression) -> (r: Term)
        requires
            ok_bool(*expression),
        ensures
            r == lower_bool(*expression, old(self).fresh).0,
            final(self).fresh == lower_bool(*expression, old(self).fresh).1,
            final(self).frames == old(self).frames,
    {
        self.get_as_bool_z3_ast(expression)
    }
}

impl Default for Z3Solver {
    fn default() -> (r: Z3Solver)
        ensures
            r.well_formed(),
            r.fresh == 0,
            r.asserted() == Seq::<Term>::empty(),
    {
        Z3Solver::new()
    }
}

} // verus!
