//! A sort-correct encoder from a program-analysis expression tree into
//! solver terms, together with the incremental assert/push/pop session
//! protocol needed to use the result.
//!
//! The encoder lowers one immutable expression tree through four mutually
//! recursive views (any, numeric, boolean, bit-vector), inserting sort
//! coercions at every boundary and synthesizing exact overflow predicates
//! for checked arithmetic. The produced [`term::Term`] values are a faithful
//! model of the solver calls an unverified backend makes one for one.

pub mod ir;
pub mod laws;
pub mod numeral;
pub mod semantics;
pub mod sorts;
pub mod views;
pub mod z3_solver;
pub mod encode;
pub mod term;
