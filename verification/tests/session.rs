// The session protocol: assertion frames, checkpointing, backtracking,
// and the verdict mapping for the solver's three-valued result code.

use z3_encoder::ir::{ConstantValue, Expression, ExpressionType};
use z3_encoder::term::{NumLit, Sort, Symbol, Term};
use z3_encoder::z3_solver::{smt_result_from_lbool, SmtResult, Z3Solver};

fn gt_x(bound: i128) -> Expression {
    Expression::GreaterThan {
        left: Box::new(Expression::Variable {
            path: String::from("x"),
            var_type: ExpressionType::I64,
        }),
        right: Box::new(Expression::CompileTimeConstant(ConstantValue::I128(bound))),
    }
}

fn gt_x_term(bound: i64) -> Term {
    Term::Gt(
        Box::new(Term::NamedConst { sym: Symbol::PathName(String::from("x")), sort: Sort::Int }),
        Box::new(Term::IntLit(NumLit::Small(bound))),
    )
}

#[test]
fn new_session_is_empty() {
    let solver = Z3Solver::new();
    assert_eq!(solver.frames.len(), 1);
    assert!(solver.frames[0].is_empty());
    assert_eq!(solver.fresh, 0);
}

#[test]
fn default_matches_new() {
    let solver = Z3Solver::default();
    assert_eq!(solver.frames.len(), 1);
    assert!(solver.frames[0].is_empty());
}

#[test]
fn assert_lands_in_current_frame() {
    let mut solver = Z3Solver::new();
    let t = solver.get_as_smt_predicate(&gt_x(5));
    solver.assert_constraint(t);
    assert_eq!(solver.frames.len(), 1);
    assert_eq!(solver.frames[0], vec![gt_x_term(5)]);
}

#[test]
fn checkpoint_isolation_restores_assertions() {
    let mut solver = Z3Solver::new();
    let base = solver.get_as_smt_predicate(&gt_x(5));
    solver.assert_constraint(base);

    solver.set_backtrack_position();
    let speculative = solver.get_as_smt_predicate(&gt_x(9));
    solver.assert_constraint(speculative);
    assert_eq!(solver.frames.len(), 2);
    assert_eq!(solver.frames[1], vec![gt_x_term(9)]);

    solver.backtrack();
    assert_eq!(solver.frames.len(), 1);
    assert_eq!(solver.frames[0], vec![gt_x_term(5)]);
}

#[test]
fn nested_checkpoints_pop_one_at_a_time() {
    let mut solver = Z3Solver::new();
    solver.set_backtrack_position();
    solver.set_backtrack_position();
    let t = solver.get_as_smt_predicate(&gt_x(1));
    solver.assert_constraint(t);
    assert_eq!(solver.frames.len(), 3);
    solver.backtrack();
    assert_eq!(solver.frames.len(), 2);
    solver.backtrack();
    assert_eq!(solver.frames.len(), 1);
    assert!(solver.frames[0].is_empty());
}

#[test]
fn fresh_ids_survive_backtracking() {
    let mut solver = Z3Solver::new();
    let a = solver.get_as_z3_ast(&Expression::Top);
    solver.set_backtrack_position();
    let b = solver.get_as_z3_ast(&Expression::Top);
    solver.backtrack();
    let c = solver.get_as_z3_ast(&Expression::Top);
    assert_eq!(a, Term::FreshConst { id: 0, sort: Sort::Any });
    assert_eq!(b, Term::FreshConst { id: 1, sort: Sort::Any });
    assert_eq!(c, Term::FreshConst { id: 2, sort: Sort::Any });
}

#[test]
fn verdict_mapping_is_three_valued() {
    assert_eq!(smt_result_from_lbool(1), SmtResult::Satisfiable);
    assert_eq!(smt_result_from_lbool(-1), SmtResult::Unsatisfiable);
    assert_eq!(smt_result_from_lbool(0), SmtResult::Undefined);
    assert_eq!(smt_result_from_lbool(7), SmtResult::Undefined);
}
