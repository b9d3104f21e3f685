//! Ready-made circuits.

use vstd::prelude::*;
use crate::zk_starks::{
    CircuitParameters, CircuitView, Constraint, ConstraintKind, ConstraintParameter,
    ConstraintType, ConstraintView, TransactionPrivacyCircuit,
};

verus! {

/// A range constraint between two bounds, as its mathematical value.
pub open spec fn range_view(min: Seq<char>, max: Seq<char>) -> ConstraintView {
    ConstraintView { kind: ConstraintKind::Range, parameters: seq![("min"@, min), ("max"@, max)] }
}

/// An equality constraint on an equation, as its mathematical value.
pub open spec fn equation_view(equation: Seq<char>) -> ConstraintView {
    ConstraintView { kind: ConstraintKind::Equality, parameters: seq![("equation"@, equation)] }
}

/// Builds a range constraint between two bounds.
pub fn range_constraint(min: &str, max: &str) -> (c: Constraint)
    ensures
        c@ == range_view(min@, max@),
{
    let mut parameters: Vec<ConstraintParameter> = Vec::new();
    parameters.push(
        ConstraintParameter { name: String::from_str("min"), value: String::from_str(min) },
    );
    parameters.push(
        ConstraintParameter { name: String::from_str("max"), value: String::from_str(max) },
    );
    let c = Constraint { constraint_type: ConstraintType::Range, parameters };
    assert(c@.parameters =~= seq![("min"@, min@), ("max"@, max@)]);
    c
}

/// Builds an equality constraint on an equation.
pub fn equation_constraint(equation: &str) -> (c: Constraint)
    ensures
        c@ == equation_view(equation@),
{
    let mut parameters: Vec<ConstraintParameter> = Vec::new();
    parameters.push(
        ConstraintParameter {
            name: String::from_str("equation"),
            value: String::from_str(equation),
        },
    );
    let c = Constraint { constraint_type: ConstraintType::Equality, parameters };
    assert(c@.parameters =~= seq![("equation"@, equation@)]);
    c
}

/// The circuit for private transactions: the amount lies between 0 and a
/// billion, the fee between 1 and ten thousand, and the input balances the
/// output and the fee. Inputs may be as long as a 64-bit length can say.
pub fn create_transaction_privacy_circuit() -> (circuit: TransactionPrivacyCircuit)
    ensures
        circuit@ == (CircuitView {
            circuit_id: "transaction_privacy_v1"@,
            input_constraints: seq![
                range_view("0"@, "1000000000"@),
                range_view("1"@, "10000"@),
            ],
            output_constraints: seq![equation_view("input = output + fee"@)],
            parameters: CircuitParameters {
                field_size: u64::MAX,
                num_constraints: 1000,
                security_parameter: 128,
            },
        }),
{
    let mut input_constraints: Vec<Constraint> = Vec::new();
    input_constraints.push(range_constraint("0", "1000000000"));
    input_constraints.push(range_constraint("1", "10000"));
    let mut output_constraints: Vec<Constraint> = Vec::new();
    output_constraints.push(equation_constraint("input = output + fee"));
    let circuit = TransactionPrivacyCircuit {
        circuit_id: String::from_str("transaction_privacy_v1"),
        input_constraints,
        output_constraints,
        parameters: CircuitParameters {
            field_size: u64::MAX,
            num_constraints: 1000,
            security_parameter: 128,
        },
    };
    assert(circuit@.input_constraints =~= seq![
        range_view("0"@, "1000000000"@),
        range_view("1"@, "10000"@),
    ]);
    assert(circuit@.output_constraints =~= seq![equation_view("input = output + fee"@)]);
    circuit
}

/// The circuit for balance proofs: the balance lies between 0 and a
/// trillion.
pub fn create_balance_proof_circuit() -> (circuit: TransactionPrivacyCircuit)
    ensures
        circuit@ == (CircuitView {
            circuit_id: "balance_proof_v1"@,
            input_constraints: seq![range_view("0"@, "1000000000000"@)],
            output_constraints: Seq::<ConstraintView>::empty(),
            parameters: CircuitParameters {
                field_size: u64::MAX,
                num_constraints: 500,
                security_parameter: 128,
            },
        }),
{
    let mut input_constraints: Vec<Constraint> = Vec::new();
    input_constraints.push(range_constraint("0", "1000000000000"));
    let circuit = TransactionPrivacyCircuit {
        circuit_id: String::from_str("balance_proof_v1"),
        input_constraints,
        output_constraints: Vec::new(),
        parameters: CircuitParameters {
            field_size: u64::MAX,
            num_constraints: 500,
            security_parameter: 128,
        },
    };
    assert(circuit@.input_constraints =~= seq![range_view("0"@, "1000000000000"@)]);
    assert(circuit@.output_constraints =~= Seq::<ConstraintView>::empty());
    circuit
}

} // verus!
