use vstd::prelude::*;

verus! {

// The solver boundary.  Everything the planner knows about z3 is declared
// here: the opaque solver types and one thin wrapper per z3 call.  No
// wrapper promises anything about what the solver decides; whatever comes
// back out of a model is validated by the planner's own verified code
// before it is believed.

/// Declares z3's optimizing solver type; values of it are opaque here.
#[verifier::external_type_specification]
#[verifier::external_body]
pub struct ExOptimize(z3::Optimize);

/// Declares z3's integer-term type; values of it are opaque here.
#[verifier::external_type_specification]
#[verifier::external_body]
pub struct ExInt(z3::ast::Int);

/// Declares z3's boolean-term type; values of it are opaque here.
#[verifier::external_type_specification]
#[verifier::external_body]
pub struct ExBool(z3::ast::Bool);

/// Declares z3's model type; values of it are opaque here.
#[verifier::external_type_specification]
#[verifier::external_body]
pub struct ExModel(z3::Model);

/// What a solver check reported.
#[derive(Clone, Copy, Debug, PartialEq, Eq, Structural)]
pub enum SolveStatus {
    Sat,
    Unsat,
    Unknown,
}

/// Relies on z3::Optimize::new: a fresh optimizing solver context.
#[verifier::external_body]
pub(crate) fn smt_optimize() -> z3::Optimize {
    z3::Optimize::new()
}

/// Whether a character sequence is free of NUL characters, as a C
/// string must be.
pub open spec fn nul_free(s: Seq<char>) -> bool {
    forall|i: int| 0 <= i < s.len() ==> (#[trigger] s[i]) != '\0'
}

/// Relies on z3::ast::Int::fresh_const: a fresh integer unknown whose
/// name embeds the given tag and the two coordinates.  The name goes
/// through a C string, so the tag must hold no NUL character.
#[verifier::external_body]
pub(crate) fn smt_int_const(tag: &str, a: usize, b: usize) -> z3::ast::Int
    requires
        nul_free(tag@),
{
    z3::ast::Int::fresh_const(&format!("{tag} {a} {b}"))
}

/// Relies on z3::ast::Int::from_i64: the constant integer term.
#[verifier::external_body]
pub(crate) fn smt_int_val(v: i64) -> z3::ast::Int {
    z3::ast::Int::from_i64(v)
}

/// Relies on z3::ast::Int's Clone: another handle to the same term.
#[verifier::external_body]
pub(crate) fn smt_int_clone(x: &z3::ast::Int) -> z3::ast::Int {
    x.clone()
}

/// Relies on z3::ast::Ast::eq: the term `a == b`.
#[verifier::external_body]
pub(crate) fn smt_eq(a: &z3::ast::Int, b: &z3::ast::Int) -> z3::ast::Bool {
    a.eq(b)
}

/// Relies on z3::ast::Int::ge: the term `a >= b`.
#[verifier::external_body]
pub(crate) fn smt_ge(a: &z3::ast::Int, b: &z3::ast::Int) -> z3::ast::Bool {
    a.ge(b)
}

/// Relies on z3::ast::Int::le: the term `a <= b`.
#[verifier::external_body]
pub(crate) fn smt_le(a: &z3::ast::Int, b: &z3::ast::Int) -> z3::ast::Bool {
    a.le(b)
}

/// Relies on z3::ast::Int::lt: the term `a < b`.
#[verifier::external_body]
pub(crate) fn smt_lt(a: &z3::ast::Int, b: &z3::ast::Int) -> z3::ast::Bool {
    a.lt(b)
}

/// Relies on z3::ast::Bool::from_bool: the constant boolean term.
#[verifier::external_body]
pub(crate) fn smt_bool_val(b: bool) -> z3::ast::Bool {
    z3::ast::Bool::from_bool(b)
}

/// Relies on z3::ast::Bool::not: the term `!b`.
#[verifier::external_body]
pub(crate) fn smt_not(b: &z3::ast::Bool) -> z3::ast::Bool {
    b.not()
}

/// Relies on z3::ast::Int::add: the sum of the terms.  The underlying
/// Z3_mk_add needs at least one argument.
#[verifier::external_body]
pub(crate) fn smt_sum(xs: &Vec<z3::ast::Int>) -> z3::ast::Int
    requires
        xs@.len() > 0,
{
    z3::ast::Int::add(xs.as_slice())
}

/// Relies on z3::ast::Int::mul: the product `a * b`.
#[verifier::external_body]
pub(crate) fn smt_mul(a: &z3::ast::Int, b: &z3::ast::Int) -> z3::ast::Int {
    z3::ast::Int::mul(&[a.clone(), b.clone()])
}

/// Relies on z3::ast::Bool::or: the disjunction of the terms.  The
/// underlying Z3_mk_or needs at least one argument.
#[verifier::external_body]
pub(crate) fn smt_or(xs: &Vec<z3::ast::Bool>) -> z3::ast::Bool
    requires
        xs@.len() > 0,
{
    z3::ast::Bool::or(xs.as_slice())
}

/// Relies on z3::Optimize::assert: adds a hard constraint to the solver.
#[verifier::external_body]
pub(crate) fn smt_assert(o: &z3::Optimize, c: &z3::ast::Bool) {
    z3::Optimize::assert(o, c)
}

/// Relies on z3::Optimize::minimize: asks the solver to minimize a term.
#[verifier::external_body]
pub(crate) fn smt_minimize(o: &z3::Optimize, x: &z3::ast::Int) {
    o.minimize(x)
}

/// Relies on z3::Optimize::push: saves the solver state.
#[verifier::external_body]
pub(crate) fn smt_push(o: &z3::Optimize) {
    o.push()
}

/// Relies on z3::Optimize::pop: restores the last saved solver state;
/// it is only ever called after a matching push.
#[verifier::external_body]
pub(crate) fn smt_pop(o: &z3::Optimize) {
    o.pop()
}

/// Relies on z3::Optimize::check: runs the solver; nothing is promised of
/// which status comes back.
#[verifier::external_body]
pub(crate) fn smt_check(o: &z3::Optimize) -> SolveStatus {
    match o.check(&[]) {
        z3::SatResult::Sat => SolveStatus::Sat,
        z3::SatResult::Unsat => SolveStatus::Unsat,
        z3::SatResult::Unknown => SolveStatus::Unknown,
    }
}

/// Relies on z3::Optimize::get_model: the model of the last check, where
/// the solver has one.
#[verifier::external_body]
pub(crate) fn smt_model(o: &z3::Optimize) -> Option<z3::Model> {
    o.get_model()
}

/// Relies on z3::Model::eval: the model's completed value of a term.
#[verifier::external_body]
pub(crate) fn smt_eval(m: &z3::Model, x: &z3::ast::Int) -> Option<z3::ast::Int> {
    m.eval(x, true)
}

/// Relies on z3::ast::Int::as_i64: the numeral a constant term holds, if
/// it fits; nothing is promised of the number.
#[verifier::external_body]
pub(crate) fn smt_int_value(x: &z3::ast::Int) -> Option<i64> {
    x.as_i64()
}

/// Relies on z3::Optimize::get_reason_unknown: the solver's reason for an
/// unknown outcome, where it gives one.
#[verifier::external_body]
pub(crate) fn smt_reason_unknown(o: &z3::Optimize) -> Option<String> {
    o.get_reason_unknown()
}

} // verus!
