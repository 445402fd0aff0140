//! Lowers combinational boolean circuits to conjunctive normal form and
//! lifts an assignment of the variables back to circuit-level values.
//!
//! * [`cnf`] holds the data model: literals, clauses, constraint sets and
//!   assignments.
//! * [`bit`] holds templates and instances of the primitives, and the
//!   clauses each instance emits.
//! * [`adder`] builds the full adder and the ripple-carry adder from them,
//!   and decodes an assignment into a sum and a carry out.
//! * [`addition`] assembles the constraint set of one addition.
//! * [`dimacs`] writes a constraint set as text, and [`solution`] reads
//!   the text of a solution.
//! * [`semantics`] says when a valuation satisfies clauses; [`laws`] and
//!   [`adder_laws`] prove what the emitted clauses say.

pub mod cnf;
pub mod bit;
pub mod adder;
pub mod addition;
pub mod dimacs;
pub mod solution;
pub mod semantics;
pub mod laws;
pub mod adder_laws;
