//! The policy for location expressions: how an evaluation is driven and which of
//! its results counts as a single fixed address. Embedded targets are not
//! relocated at run time, so a relocation request is answered with the address
//! as it stands.
use vstd::prelude::*;

verus! {

/// What one step of evaluating a location expression reports.
#[derive(Clone, Copy, Debug, PartialEq, Eq, Structural)]
pub enum EvaluationStep {
    /// The evaluation is done.
    Complete,
    /// The evaluation asks for this address as relocated.
    RequiresRelocatedAddress(u64),
    /// The evaluation asks for anything else (a register, memory, a frame base...).
    Other,
}

/// What to do after a step.
#[derive(Clone, Copy, Debug, PartialEq, Eq, Structural)]
pub enum EvaluationAction {
    /// Resume the evaluation with this relocated address.
    Resume(u64),
    /// Read the result.
    Finish,
    /// Give the expression up: the attribute is dropped.
    Abandon,
}

/// Where one piece of an evaluation's result lives.
#[derive(Clone, Copy, Debug, PartialEq, Eq, Structural)]
pub enum PieceLocation {
    /// At this fixed address.
    Address(u64),
    /// Anywhere else (a register, a value, nowhere...).
    Other,
}

/// The action for a step: a relocation request is answered with the address
/// unchanged, completion leads to the result, anything else abandons.
pub open spec fn evaluation_action(step: EvaluationStep) -> EvaluationAction {
    match step {
        EvaluationStep::Complete => EvaluationAction::Finish,
        EvaluationStep::RequiresRelocatedAddress(a) => EvaluationAction::Resume(a),
        EvaluationStep::Other => EvaluationAction::Abandon,
    }
}

/// Decides what to do after an evaluation step.
pub fn next_evaluation_action(step: EvaluationStep) -> (r: EvaluationAction)
    ensures
        r == evaluation_action(step),
{
    match step {
        EvaluationStep::Complete => EvaluationAction::Finish,
        EvaluationStep::RequiresRelocatedAddress(a) => EvaluationAction::Resume(a),
        EvaluationStep::Other => EvaluationAction::Abandon,
    }
}

/// The fixed address of a result: there is one when the result is exactly one
/// piece, at a fixed address.
pub open spec fn fixed_address_of(pieces: Seq<PieceLocation>) -> Option<u64> {
    if pieces.len() == 1 && pieces[0] is Address {
        Some(pieces[0]->Address_0)
    } else {
        None
    }
}

/// The fixed address of an evaluation's result, if it is one.
pub fn fixed_address(pieces: &Vec<PieceLocation>) -> (r: Option<u64>)
    ensures
        r == fixed_address_of(pieces@),
{
    if pieces.len() == 1 {
        match pieces[0] {
            PieceLocation::Address(a) => Some(a),
            PieceLocation::Other => None,
        }
    } else {
        None
    }
}

} // verus!
