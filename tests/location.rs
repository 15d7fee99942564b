use dwarf_a2l_obfuscate::location::{
    fixed_address, next_evaluation_action, EvaluationAction, EvaluationStep, PieceLocation,
};

#[test]
fn relocation_requests_resume_unchanged() {
    assert_eq!(
        next_evaluation_action(EvaluationStep::RequiresRelocatedAddress(0x1000_0040)),
        EvaluationAction::Resume(0x1000_0040)
    );
    assert_eq!(next_evaluation_action(EvaluationStep::Complete), EvaluationAction::Finish);
    assert_eq!(next_evaluation_action(EvaluationStep::Other), EvaluationAction::Abandon);
}

#[test]
fn only_a_single_address_piece_is_fixed() {
    assert_eq!(fixed_address(&vec![PieceLocation::Address(0x40)]), Some(0x40));
    assert_eq!(fixed_address(&vec![PieceLocation::Other]), None);
    assert_eq!(fixed_address(&vec![]), None);
    assert_eq!(fixed_address(&vec![PieceLocation::Address(1), PieceLocation::Address(2)]), None);
}
